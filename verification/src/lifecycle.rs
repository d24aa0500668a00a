//! The lifecycle broadcaster: the periodic `ssdp:alive` announcement cycle
//! and the one-shot `ssdp:byebye` retraction on shutdown. The messages and
//! the phase transitions are computed here; the loop that waits, sends and
//! listens for the shutdown signal drives them from outside.
use vstd::prelude::*;
use crate::message::{alive_text, byebye_text, format_alive, format_byebye};
use crate::server::{Server, default_server_name};

verus! {

/// The phases of the alive announcement loop.
#[derive(Clone, Copy, Debug, PartialEq, Eq, Structural)]
pub enum BroadcastPhase {
    /// Sending one alive message per device, in registry order.
    Announcing,
    /// Waiting `max_age` seconds, or for the shutdown signal.
    Waiting,
    /// Shut down: no further announcements.
    Finished,
}

/// What ends a wait.
#[derive(Clone, Copy, Debug, PartialEq, Eq, Structural)]
pub enum LifecycleEvent {
    /// The `max_age` wait ran out.
    WaitElapsed,
    /// The external shutdown signal arrived.
    ShutdownSignal,
}

/// The alive loop's transitions: announcing is followed by waiting; an
/// elapsed wait starts the next announcement; the shutdown signal ends the
/// loop, and its end is absorbing.
pub open spec fn spec_alive_step(phase: BroadcastPhase, ev: LifecycleEvent) -> BroadcastPhase {
    match phase {
        BroadcastPhase::Announcing => BroadcastPhase::Waiting,
        BroadcastPhase::Waiting => match ev {
            LifecycleEvent::WaitElapsed => BroadcastPhase::Announcing,
            LifecycleEvent::ShutdownSignal => BroadcastPhase::Finished,
        },
        BroadcastPhase::Finished => BroadcastPhase::Finished,
    }
}

/// Alive messages are sent only in the announcing phase.
pub open spec fn announces(phase: BroadcastPhase) -> bool {
    phase is Announcing
}

/// Advance the alive loop by one observed event.
pub fn alive_step(phase: BroadcastPhase, ev: LifecycleEvent) -> (r: BroadcastPhase)
    ensures
        r == spec_alive_step(phase, ev),
{
    match phase {
        BroadcastPhase::Announcing => BroadcastPhase::Waiting,
        BroadcastPhase::Waiting => match ev {
            LifecycleEvent::WaitElapsed => BroadcastPhase::Announcing,
            LifecycleEvent::ShutdownSignal => BroadcastPhase::Finished,
        },
        BroadcastPhase::Finished => BroadcastPhase::Finished,
    }
}

/// Signaling shutdown ends the alive loop at once, the ended loop stays
/// ended whatever else happens, and an ended loop announces nothing.
pub proof fn lemma_shutdown_is_final(ev: LifecycleEvent)
    ensures
        spec_alive_step(BroadcastPhase::Waiting, LifecycleEvent::ShutdownSignal)
            == BroadcastPhase::Finished,
        spec_alive_step(BroadcastPhase::Finished, ev) == BroadcastPhase::Finished,
        !announces(BroadcastPhase::Finished),
{
}

impl Server {
    /// One complete alive broadcast: the `ssdp:alive` notification of every
    /// registered device, in registration order.
    pub fn alive_messages(&self) -> (r: Vec<String>)
        ensures
            r@.len() == self.devices@.len(),
            forall|i: int|
                0 <= i < r@.len() ==> (#[trigger] r@[i])@ == alive_text(
                    self.max_age as nat,
                    self.devices@[i].location@,
                    self.spec_server_name(),
                    self.devices@[i].search_target@,
                    self.devices@[i].usn@,
                    self.spec_extra_headers(),
                ),
    {
        let extra = self.render_extra_headers();
        let server_disp: &str = match &self.server_name {
            Some(n) => n.as_str(),
            None => default_server_name(),
        };
        let n = self.devices.len();
        let mut out: Vec<String> = Vec::new();
        let mut i: usize = 0;
        while i < n
            invariant
                0 <= i <= n,
                n == self.devices@.len(),
                extra@ == self.spec_extra_headers(),
                server_disp@ == self.spec_server_name(),
                out@.len() == i,
                forall|j: int|
                    0 <= j < i ==> (#[trigger] out@[j])@ == alive_text(
                        self.max_age as nat,
                        self.devices@[j].location@,
                        self.spec_server_name(),
                        self.devices@[j].search_target@,
                        self.devices@[j].usn@,
                        self.spec_extra_headers(),
                    ),
            decreases n - i,
        {
            let d = &self.devices[i];
            let msg = format_alive(
                self.max_age,
                d.location.as_str(),
                server_disp,
                d.search_target.as_str(),
                d.usn.as_str(),
                extra.as_str(),
            );
            out.push(msg);
            i += 1;
        }
        out
    }

    /// One complete byebye broadcast: the `ssdp:byebye` notification of
    /// every registered device, in registration order. Sent exactly once,
    /// on shutdown.
    pub fn byebye_messages(&self) -> (r: Vec<String>)
        ensures
            r@.len() == self.devices@.len(),
            forall|i: int|
                0 <= i < r@.len() ==> (#[trigger] r@[i])@ == byebye_text(
                    self.devices@[i].search_target@,
                    self.devices@[i].usn@,
                    self.spec_extra_headers(),
                ),
    {
        let extra = self.render_extra_headers();
        let n = self.devices.len();
        let mut out: Vec<String> = Vec::new();
        let mut i: usize = 0;
        while i < n
            invariant
                0 <= i <= n,
                n == self.devices@.len(),
                extra@ == self.spec_extra_headers(),
                out@.len() == i,
                forall|j: int|
                    0 <= j < i ==> (#[trigger] out@[j])@ == byebye_text(
                        self.devices@[j].search_target@,
                        self.devices@[j].usn@,
                        self.spec_extra_headers(),
                    ),
            decreases n - i,
        {
            let d = &self.devices[i];
            let msg = format_byebye(d.search_target.as_str(), d.usn.as_str(), extra.as_str());
            out.push(msg);
            i += 1;
        }
        out
    }
}

} // verus!
