//! The allow/block decision for a URL under a configuration.
use vstd::prelude::*;
use crate::config::{Config, ConfigView};
use crate::message::{Response, verdict, allow_response, block_response};

verus! {

/// The host that the `url` crate finds in a URL string, if it parses and has one.
pub uninterp spec fn url_host_of(url: Seq<char>) -> Option<Seq<char>>;

/// Relies on `url::Url::parse` followed by `Url::host_str`: the host of the
/// parsed URL, or nothing where parsing fails or the URL has no host. The
/// result depends on the string alone.
#[verifier::external_body]
fn parse_host(url: &str) -> (r: Option<String>)
    ensures
        match r {
            Some(h) => url_host_of(url@) == Some(h@),
            None => url_host_of(url@) is None,
        },
{
    match url::Url::parse(url) {
        Ok(u) => u.host_str().map(|h| h.to_string()),
        Err(_) => None,
    }
}

/// `host` is the whitelisted `domain` itself or one of its subdomains.
pub open spec fn domain_matches(host: Seq<char>, domain: Seq<char>) -> bool {
    host == domain || (seq!['.'] + domain).is_suffix_of(host)
}

/// Some entry of `whitelist` lets `host` through.
pub open spec fn whitelisted(host: Seq<char>, whitelist: Seq<Seq<char>>) -> bool {
    exists|i: int| 0 <= i < whitelist.len() && domain_matches(host, #[trigger] whitelist[i])
}

/// The URL names one of the host application's own pages.
pub open spec fn internal_scheme(url: Seq<char>) -> bool {
    "chrome-extension://"@.is_prefix_of(url) || "chrome://"@.is_prefix_of(url)
}

/// The URL is let through under configuration `c`.
pub open spec fn allows(url: Seq<char>, c: ConfigView) -> bool {
    !c.is_active || internal_scheme(url) || match url_host_of(url) {
        Some(h) => whitelisted(h, c.whitelist),
        None => false,
    }
}

/// `t` occurs in `s` starting at position `start`.
pub open spec fn occurs_at(s: Seq<char>, start: int, t: Seq<char>) -> bool {
    0 <= start && start + t.len() <= s.len() && s.subrange(start, start + t.len()) == t
}

fn occurs_at_exec(s: &str, s_len: usize, start: usize, t: &str) -> (r: bool)
    requires
        s_len == s@.len(),
    ensures
        r == occurs_at(s@, start as int, t@),
{
    let t_len = t.unicode_len();
    if start > s_len || t_len > s_len - start {
        return false;
    }
    let mut i: usize = 0;
    while i < t_len
        invariant
            t_len == t@.len(),
            s_len == s@.len(),
            start + t_len <= s_len,
            i <= t_len,
            forall|j: int| 0 <= j < i ==> s@[start + j] == t@[j],
        decreases t_len - i,
    {
        if s.get_char(start + i) != t.get_char(i) {
            assert(s@.subrange(start as int, start + t_len)[i as int] != t@[i as int]);
            return false;
        }
        i = i + 1;
    }
    assert(s@.subrange(start as int, start + t_len) =~= t@);
    true
}

/// Whether `s` begins with `prefix`.
pub fn starts_with(s: &str, prefix: &str) -> (r: bool)
    ensures
        r == prefix@.is_prefix_of(s@),
{
    let r = occurs_at_exec(s, s.unicode_len(), 0, prefix);
    assert(r == prefix@.is_prefix_of(s@));
    r
}

/// Whether `host` is `domain` or a subdomain of it: equal, or ending in
/// a dot followed by `domain`.
pub fn matches_domain(host: &str, domain: &str) -> (r: bool)
    ensures
        r == domain_matches(host@, domain@),
{
    let h_len = host.unicode_len();
    let d_len = domain.unicode_len();
    let ghost dotted = seq!['.'] + domain@;
    if h_len == d_len && occurs_at_exec(host, h_len, 0, domain) {
        assert(host@ =~= domain@);
        return true;
    }
    assert(host@ != domain@) by {
        if host@ == domain@ {
            assert(host@.subrange(0, h_len as int) =~= host@);
        }
    }
    if d_len < h_len {
        let dot_at = h_len - d_len - 1;
        let r = host.get_char(dot_at) == '.' && occurs_at_exec(host, h_len, h_len - d_len, domain);
        proof {
            let tail = host@.subrange(dot_at as int, h_len as int);
            if r {
                assert(tail =~= dotted);
            }
            if dotted.is_suffix_of(host@) {
                assert(tail =~= dotted);
                assert(tail[0] == '.');
                assert(host@.subrange(h_len - d_len, h_len as int) =~= tail.subrange(1, tail.len() as int));
                assert(tail.subrange(1, tail.len() as int) =~= domain@);
            }
        }
        r
    } else {
        false
    }
}

/// Whether some entry of `whitelist` matches `host` (see [`matches_domain`]).
pub fn is_whitelisted(host: &str, whitelist: &Vec<String>) -> (r: bool)
    ensures
        r == whitelisted(host@, whitelist@.map_values(|s: String| s@)),
{
    let ghost wl = whitelist@.map_values(|s: String| s@);
    let mut i: usize = 0;
    while i < whitelist.len()
        invariant
            i <= whitelist.len(),
            wl == whitelist@.map_values(|s: String| s@),
            forall|j: int| 0 <= j < i ==> !domain_matches(host@, #[trigger] wl[j]),
        decreases whitelist.len() - i,
    {
        if matches_domain(host, whitelist[i].as_str()) {
            assert(domain_matches(host@, wl[i as int]));
            return true;
        }
        i = i + 1;
    }
    false
}

/// Decides whether `url_str` is let through under `config`.
///
/// An inactive configuration lets every URL through; so does a URL of the
/// host application's own pages. Otherwise the URL passes exactly when its
/// host matches a whitelist entry; one that does not parse, or has no host,
/// is blocked.
pub fn check_url(url_str: &str, config: &Config) -> (r: Response)
    ensures
        r@ == verdict(allows(url_str@, config@)),
        !config.is_active ==> r@ == verdict(true),
        config.is_active && !internal_scheme(url_str@) ==> (r@ == verdict(true) <==> (
        match url_host_of(url_str@) {
            Some(h) => exists|i: int|
                0 <= i < config.whitelist@.len() && domain_matches(
                    h,
                    #[trigger] config.whitelist@[i]@,
                ),
            None => false,
        })),
{
    proof {
        let wl = config@.whitelist;
        assert forall|h: Seq<char>|
            whitelisted(h, wl) <==> exists|i: int|
                0 <= i < config.whitelist@.len() && domain_matches(
                    h,
                    #[trigger] config.whitelist@[i]@,
                ) by {
            if whitelisted(h, wl) {
                let i = choose|i: int| 0 <= i < wl.len() && domain_matches(h, #[trigger] wl[i]);
                assert(wl[i] == config.whitelist@[i]@);
            }
            if exists|i: int|
                0 <= i < config.whitelist@.len() && domain_matches(
                    h,
                    #[trigger] config.whitelist@[i]@,
                ) {
                let i = choose|i: int|
                    0 <= i < config.whitelist@.len() && domain_matches(
                        h,
                        #[trigger] config.whitelist@[i]@,
                    );
                assert(domain_matches(h, wl[i]));
            }
        }
    }
    if !config.is_active {
        return allow_response();
    }
    if starts_with(url_str, "chrome-extension://") || starts_with(url_str, "chrome://") {
        return allow_response();
    }
    if let Some(host) = parse_host(url_str) {
        if is_whitelisted(host.as_str(), &config.whitelist) {
            return allow_response();
        }
    }
    block_response()
}

} // verus!
