//! The control loop's decisions: what each event does to the running state
//! and what is to be written back to the peer.
use vstd::prelude::*;
use crate::codec::ReadError;
use crate::config::{Config, ConfigView};
use crate::decision::{allows, check_url};
use crate::message::{
    Request,
    RequestView,
    Response,
    ResponseView,
    acknowledgement,
    response_frame,
    response_frame_of,
    verdict,
};

verus! {

/// What the loop reports after reading from, or writing to, the channel.
pub enum Event {
    /// A request was read and decoded.
    Message(Request),
    /// The peer closed the channel before a new frame began.
    EndOfStream,
    /// The frame could not be read or decoded.
    ReadFailed(ReadError),
    /// Writing the last reply failed.
    WriteFailed,
}

/// What the loop is to do next.
pub struct Step {
    /// The configuration changed and is to be saved.
    pub persist: bool,
    /// The frame to write, or `None` to close the channel.
    pub reply: Option<Vec<u8>>,
}

/// The response owed to a request under configuration `c`.
pub open spec fn response_to(req: RequestView, c: ConfigView) -> ResponseView {
    match req {
        RequestView::UpdateConfig { payload } => acknowledgement(),
        RequestView::CheckUrl { url } => verdict(allows(url, c)),
    }
}

/// The configuration after a request under configuration `c`.
pub open spec fn config_after(req: RequestView, c: ConfigView) -> ConfigView {
    match req {
        RequestView::UpdateConfig { payload } => payload,
        RequestView::CheckUrl { url } => c,
    }
}

/// Once an update is taken, the next URL check is decided under the new
/// configuration alone, whatever was in force before.
pub proof fn lemma_update_then_check(before: ConfigView, payload: ConfigView, url: Seq<char>)
    ensures
        response_to(
            RequestView::CheckUrl { url },
            config_after(RequestView::UpdateConfig { payload }, before),
        ) == verdict(allows(url, payload)),
{
}

/// The message loop's state: the configuration in force and whether the
/// channel is still open.
pub struct Dispatcher {
    config: Config,
    running: bool,
}

impl Dispatcher {
    pub closed spec fn spec_config(&self) -> ConfigView {
        self.config@
    }

    pub closed spec fn spec_running(&self) -> bool {
        self.running
    }

    /// A running loop with the configuration loaded at startup.
    pub fn new(config: Config) -> (r: Dispatcher)
        ensures
            r.spec_config() == config@,
            r.spec_running(),
    {
        Dispatcher { config, running: true }
    }

    /// The configuration in force.
    pub fn config(&self) -> (r: &Config)
        ensures
            r@ == self.spec_config(),
    {
        &self.config
    }

    /// Whether the channel is still open.
    pub fn is_running(&self) -> (r: bool)
        ensures
            r == self.spec_running(),
    {
        self.running
    }

    /// Handles one event.
    ///
    /// While running, a request is answered: an update replaces the whole
    /// configuration (to be saved) and is acknowledged; a URL check is
    /// decided under the configuration in force. The end of the stream, a
    /// failed read or a failed write closes the channel with no reply, as
    /// does a reply too long to frame. A closed loop stays closed.
    pub fn handle(&mut self, event: Event) -> (s: Step)
        ensures
            match event {
                Event::Message(req) if old(self).spec_running() => {
                    &&& final(self).spec_config() == config_after(req@, old(self).spec_config())
                    &&& s.persist == (req is UpdateConfig)
                    &&& match s.reply {
                        Some(f) => response_frame_of(response_to(req@, old(self).spec_config()))
                            == Some(f@),
                        None => response_frame_of(
                            response_to(req@, old(self).spec_config()),
                        ) is None,
                    }
                    &&& final(self).spec_running() == s.reply is Some
                },
                _ => {
                    &&& final(self).spec_config() == old(self).spec_config()
                    &&& !s.persist
                    &&& s.reply is None
                    &&& !final(self).spec_running()
                },
            },
    {
        if !self.running {
            return Step { persist: false, reply: None };
        }
        match event {
            Event::Message(req) => {
                let (response, persist): (Response, bool) = match req {
                    Request::UpdateConfig { payload } => {
                        self.config = payload;
                        (Response::Acknowledge { status: String::from_str("ok") }, true)
                    },
                    Request::CheckUrl { url } => (check_url(url.as_str(), &self.config), false),
                };
                let reply = response_frame(&response);
                self.running = reply.is_some();
                Step { persist, reply }
            },
            _ => {
                self.running = false;
                Step { persist: false, reply: None }
            },
        }
    }
}

} // verus!
