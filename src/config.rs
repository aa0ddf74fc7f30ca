//! The policy configuration and how a stored copy is taken up at startup.
use vstd::prelude::*;

verus! {

/// The persisted policy: whether filtering is on, and which domains pass.
pub struct Config {
    pub is_active: bool,
    pub whitelist: Vec<String>,
}

/// The mathematical value of a [`Config`].
pub struct ConfigView {
    pub is_active: bool,
    pub whitelist: Seq<Seq<char>>,
}

impl View for Config {
    type V = ConfigView;

    open spec fn view(&self) -> ConfigView {
        ConfigView { is_active: self.is_active, whitelist: self.whitelist@.map_values(|s: String| s@) }
    }
}

/// The configuration used when no readable copy is stored.
pub open spec fn default_config() -> ConfigView {
    ConfigView {
        is_active: false,
        whitelist: seq!["google.com"@, "github.com"@, "localhost"@],
    }
}

impl Default for Config {
    fn default() -> (r: Config)
        ensures
            r@ == default_config(),
    {
        let whitelist = vec![
            String::from_str("google.com"),
            String::from_str("github.com"),
            String::from_str("localhost"),
        ];
        let r = Config { is_active: false, whitelist };
        assert(r@.whitelist =~= default_config().whitelist);
        r
    }
}

/// Takes up the stored configuration at startup. `stored` is the decoded
/// copy, or `None` where it was missing, unreadable or did not decode.
///
/// Returns the configuration to run with and whether it must be written back:
/// a stored copy is used as it is; without one the default is used and must
/// replace whatever is on disk.
pub fn config_from_store(stored: Option<Config>) -> (r: (Config, bool))
    ensures
        match stored {
            Some(c) => r.0@ == c@ && !r.1,
            None => r.0@ == default_config() && r.1,
        },
{
    match stored {
        Some(c) => (c, false),
        None => (Config::default(), true),
    }
}

} // verus!
