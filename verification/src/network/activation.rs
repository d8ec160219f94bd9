//! Activations: waiting for one to end, and the calls that start, watch and clean up one.

use vstd::prelude::*;
use crate::text::{self, views};

verus! {

/// Why a watched activation did not connect.
#[derive(Debug)]
pub enum WatchFailure {
    /// The connection was cancelled.
    Cancelled,
    /// The activation left NetworkManager's list.
    Removed,
    /// NetworkManager left the bus.
    OwnerLost,
    /// The bus was closed.
    BusClosed,
    /// A state signal could not be read.
    BadSignal,
    /// The answer to the initial read could not be read.
    BadReply,
    /// The initial read failed.
    ReadFailed(String),
    /// The activation was torn down.
    Ended,
    /// The activation is in a state that is not one.
    BadState,
    /// The deadline passed first.
    TimedOut,
}

impl WatchFailure {
    /// The failure in words.
    pub open spec fn words(self) -> Seq<char> {
        match self {
            WatchFailure::Cancelled => "Connection cancelled"@,
            WatchFailure::Removed => "Connection activation disappeared"@,
            WatchFailure::OwnerLost => "NetworkManager disappeared"@,
            WatchFailure::BusClosed => "System bus disconnected"@,
            WatchFailure::BadSignal => "Invalid activation state signal"@,
            WatchFailure::BadReply => "Invalid activation state reply"@,
            WatchFailure::ReadFailed(e) => e@,
            WatchFailure::Ended => "Connection activation ended before connecting"@,
            WatchFailure::BadState => "Invalid connection activation state"@,
            WatchFailure::TimedOut => "Connection activation timed out"@,
        }
    }

    pub fn message(&self) -> (text: String)
        ensures
            text@ == self.words(),
    {
        match self {
            WatchFailure::Cancelled => "Connection cancelled".to_owned(),
            WatchFailure::Removed => "Connection activation disappeared".to_owned(),
            WatchFailure::OwnerLost => "NetworkManager disappeared".to_owned(),
            WatchFailure::BusClosed => "System bus disconnected".to_owned(),
            WatchFailure::BadSignal => "Invalid activation state signal".to_owned(),
            WatchFailure::BadReply => "Invalid activation state reply".to_owned(),
            WatchFailure::ReadFailed(e) => e.clone(),
            WatchFailure::Ended => "Connection activation ended before connecting".to_owned(),
            WatchFailure::BadState => "Invalid connection activation state".to_owned(),
            WatchFailure::TimedOut => "Connection activation timed out".to_owned(),
        }
    }
}

impl Clone for WatchFailure {
    fn clone(&self) -> (copy: Self)
        ensures
            copy == *self,
    {
        match self {
            WatchFailure::Cancelled => WatchFailure::Cancelled,
            WatchFailure::Removed => WatchFailure::Removed,
            WatchFailure::OwnerLost => WatchFailure::OwnerLost,
            WatchFailure::BusClosed => WatchFailure::BusClosed,
            WatchFailure::BadSignal => WatchFailure::BadSignal,
            WatchFailure::BadReply => WatchFailure::BadReply,
            WatchFailure::ReadFailed(e) => WatchFailure::ReadFailed(e.clone()),
            WatchFailure::Ended => WatchFailure::Ended,
            WatchFailure::BadState => WatchFailure::BadState,
            WatchFailure::TimedOut => WatchFailure::TimedOut,
        }
    }
}

/// A state of the activation, or the end of the watch.
#[derive(Debug)]
pub enum WatchEvent {
    State(u32),
    Failed(WatchFailure),
}

/// Something that the bus tells the watch.
#[derive(Debug)]
pub enum WatchSignal {
    /// The activation changed its state; `None` if the signal could not be read.
    StateChanged(Option<u32>),
    /// NetworkManager's list of activations, if a property change carried one.
    ActiveConnections(Option<Vec<String>>),
    /// NetworkManager's bus name has a new owner, or none.
    NameOwnerChanged { new_owner: String },
    BusClosed,
    Cancelled,
    /// The answer to the initial read of the state.
    StateRead(Result<Option<u32>, String>),
}

/// How a watch stands.
#[derive(Debug)]
pub enum WatchStep {
    /// Nothing is decided: wait for more.
    Wait,
    /// The activation is connected.
    Connected,
    /// The activation did not connect.
    Failed(WatchFailure),
}

/// A watch over one activation.
#[derive(Debug)]
pub struct ActivationWatch {
    /// Object path of the activation.
    pub active: String,
    /// Whether a state signal has come.
    pub saw_signal: bool,
    /// Events that have not been looked at.
    pub queue: Vec<WatchEvent>,
}

/// The event that `signal` puts into the queue, if any.
///
/// The initial read is out of date once a state signal has come.
pub open spec fn queued(active: Seq<char>, saw_signal: bool, signal: WatchSignal) -> Option<WatchEvent> {
    match signal {
        WatchSignal::StateChanged(Some(state)) => Some(WatchEvent::State(state)),
        WatchSignal::StateChanged(None) => Some(WatchEvent::Failed(WatchFailure::BadSignal)),
        WatchSignal::ActiveConnections(Some(paths)) => if views(paths@).contains(active) {
            None
        } else {
            Some(WatchEvent::Failed(WatchFailure::Removed))
        },
        WatchSignal::ActiveConnections(None) => None,
        WatchSignal::NameOwnerChanged { new_owner } => if new_owner@.len() == 0 {
            Some(WatchEvent::Failed(WatchFailure::OwnerLost))
        } else {
            None
        },
        WatchSignal::BusClosed => Some(WatchEvent::Failed(WatchFailure::BusClosed)),
        WatchSignal::Cancelled => Some(WatchEvent::Failed(WatchFailure::Cancelled)),
        WatchSignal::StateRead(reply) => if saw_signal {
            None
        } else {
            match reply {
                Ok(Some(state)) => Some(WatchEvent::State(state)),
                Ok(None) => Some(WatchEvent::Failed(WatchFailure::BadReply)),
                Err(e) => Some(WatchEvent::Failed(WatchFailure::ReadFailed(e))),
            }
        },
    }
}

/// The first failure of a queue.
pub open spec fn first_failure(queue: Seq<WatchEvent>) -> Option<WatchFailure>
    decreases queue.len(),
{
    if queue.len() == 0 {
        None
    } else {
        match queue[0] {
            WatchEvent::Failed(f) => Some(f),
            WatchEvent::State(_) => first_failure(queue.drop_first()),
        }
    }
}

/// What a queue decides: its first failure, else its latest state.
pub open spec fn verdict(queue: Seq<WatchEvent>) -> WatchStep {
    match first_failure(queue) {
        Some(f) => WatchStep::Failed(f),
        None => if queue.len() == 0 {
            WatchStep::Wait
        } else {
            match queue.last() {
                WatchEvent::State(1) => WatchStep::Wait,
                WatchEvent::State(2) => WatchStep::Connected,
                WatchEvent::State(3) => WatchStep::Failed(WatchFailure::Ended),
                WatchEvent::State(4) => WatchStep::Failed(WatchFailure::Ended),
                _ => WatchStep::Failed(WatchFailure::BadState),
            }
        },
    }
}

/// A failure that is queued decides the watch, whatever states are queued around it.
pub proof fn failure_is_never_overwritten(before: Seq<WatchEvent>, failure: WatchFailure, after: Seq<WatchEvent>)
    requires
        first_failure(before) is None,
    ensures
        verdict(before + seq![WatchEvent::Failed(failure)] + after) == WatchStep::Failed(failure),
{
    let all = before + seq![WatchEvent::Failed(failure)] + after;
    lemma_first_failure_after(before, failure, after);
    assert(first_failure(all) == Some(failure));
}

proof fn lemma_first_failure_after(before: Seq<WatchEvent>, failure: WatchFailure, after: Seq<WatchEvent>)
    requires
        first_failure(before) is None,
    ensures
        first_failure(before + seq![WatchEvent::Failed(failure)] + after) == Some(failure),
    decreases before.len(),
{
    let all = before + seq![WatchEvent::Failed(failure)] + after;
    if before.len() > 0 {
        lemma_first_failure_after(before.drop_first(), failure, after);
        assert(all.drop_first() =~= before.drop_first() + seq![WatchEvent::Failed(failure)] + after);
        assert(all[0] == before[0]);
    } else {
        assert(all[0] == WatchEvent::Failed(failure));
    }
}

impl ActivationWatch {
    /// A watch over the activation with that object path.
    pub fn new(active: &str) -> (watch: Self)
        ensures
            watch.active@ == active@,
            !watch.saw_signal,
            watch.queue@.len() == 0,
    {
        ActivationWatch { active: active.to_owned(), saw_signal: false, queue: Vec::new() }
    }

    /// Takes in what the bus says.
    pub fn receive(&mut self, signal: WatchSignal)
        ensures
            final(self).active == old(self).active,
            final(self).saw_signal == (old(self).saw_signal || signal is StateChanged),
            final(self).queue@ == (match queued(old(self).active@, old(self).saw_signal, signal) {
                Some(event) => old(self).queue@.push(event),
                None => old(self).queue@,
            }),
    {
        match signal {
            WatchSignal::StateChanged(state) => {
                self.saw_signal = true;
                match state {
                    Some(s) => self.queue.push(WatchEvent::State(s)),
                    None => self.queue.push(WatchEvent::Failed(WatchFailure::BadSignal)),
                }
            }
            WatchSignal::ActiveConnections(paths) => {
                match paths {
                    Some(list) => {
                        if !text::list_contains(&list, self.active.as_str()) {
                            self.queue.push(WatchEvent::Failed(WatchFailure::Removed));
                        }
                    }
                    None => {}
                }
            }
            WatchSignal::NameOwnerChanged { new_owner } => {
                if new_owner.as_str().is_empty() {
                    self.queue.push(WatchEvent::Failed(WatchFailure::OwnerLost));
                }
            }
            WatchSignal::BusClosed => self.queue.push(WatchEvent::Failed(WatchFailure::BusClosed)),
            WatchSignal::Cancelled => self.queue.push(WatchEvent::Failed(WatchFailure::Cancelled)),
            WatchSignal::StateRead(reply) => {
                if !self.saw_signal {
                    match reply {
                        Ok(Some(s)) => self.queue.push(WatchEvent::State(s)),
                        Ok(None) => self.queue.push(WatchEvent::Failed(WatchFailure::BadReply)),
                        Err(e) => self.queue.push(WatchEvent::Failed(WatchFailure::ReadFailed(e))),
                    }
                }
            }
        }
    }

    /// Looks at everything that is queued and decides.
    ///
    /// States that arrived together count as their latest one, but a failure counts before
    /// any state behind it.
    pub fn wait_activation(&mut self) -> (step: WatchStep)
        ensures
            step == verdict(old(self).queue@),
            final(self).active == old(self).active,
            final(self).saw_signal == old(self).saw_signal,
            final(self).queue@.len() == 0,
    {
        let ghost all = self.queue@;
        let mut i: usize = 0;
        let mut latest: Option<u32> = None;
        let mut failure: Option<WatchFailure> = None;
        proof {
            assert(all.skip(0) =~= all);
        }
        while i < self.queue.len() && failure.is_none()
            invariant
                i <= self.queue@.len(),
                self.queue@ == all,
                all == old(self).queue@,
                failure is None ==> first_failure(all) == first_failure(all.skip(i as int)),
                failure is Some ==> first_failure(all) == failure,
                i == 0 ==> latest is None,
                failure is None && i > 0 ==> latest is Some && all[i - 1] == WatchEvent::State(latest->0),
                self.active == old(self).active,
                self.saw_signal == old(self).saw_signal,
            decreases self.queue@.len() - i, (if failure is None { 1int } else { 0 }),
        {
            proof {
                assert(all.skip(i as int)[0] == all[i as int]);
                assert(all.skip(i as int).drop_first() =~= all.skip(i + 1));
            }
            match &self.queue[i] {
                WatchEvent::State(s) => {
                    latest = Some(*s);
                }
                WatchEvent::Failed(f) => {
                    failure = Some(f.clone());
                }
            }
            i += 1;
        }
        proof {
            if failure is None {
                assert(i == all.len());
                assert(all.skip(i as int).len() == 0);
            }
        }
        self.queue = Vec::new();
        match failure {
            Some(f) => WatchStep::Failed(f),
            None => match latest {
                None => WatchStep::Wait,
                Some(state) => {
                    if state == 1 {
                        WatchStep::Wait
                    } else if state == 2 {
                        WatchStep::Connected
                    } else if state == 3 || state == 4 {
                        WatchStep::Failed(WatchFailure::Ended)
                    } else {
                        WatchStep::Failed(WatchFailure::BadState)
                    }
                }
            },
        }
    }
}

/// A watch decides by the latest state: one is waited for, two is connected, three and four have ended, and others
/// are none.
pub proof fn the_latest_state_decides(queue: Seq<WatchEvent>, state: u32)
    requires
        first_failure(queue) is None,
    ensures
        state == 1 ==> verdict(queue.push(WatchEvent::State(state))) is Wait,
        state == 2 ==> verdict(queue.push(WatchEvent::State(state))) is Connected,
        state == 3 || state == 4 ==> verdict(queue.push(WatchEvent::State(state))) == WatchStep::Failed(
            WatchFailure::Ended,
        ),
        state == 0 || state > 4 ==> verdict(queue.push(WatchEvent::State(state))) == WatchStep::Failed(
            WatchFailure::BadState,
        ),
        verdict(Seq::empty()) is Wait,
{
    lemma_states_do_not_fail(queue, state);
    assert(queue.push(WatchEvent::State(state)).last() == WatchEvent::State(state));
}

proof fn lemma_states_do_not_fail(queue: Seq<WatchEvent>, state: u32)
    requires
        first_failure(queue) is None,
    ensures
        first_failure(queue.push(WatchEvent::State(state))) is None,
    decreases queue.len(),
{
    let more = queue.push(WatchEvent::State(state));
    if queue.len() > 0 {
        assert(more[0] == queue[0]);
        lemma_states_do_not_fail(queue.drop_first(), state);
        assert(more.drop_first() =~= queue.drop_first().push(WatchEvent::State(state)));
    } else {
        assert(more[0] == WatchEvent::State(state));
        assert(more.drop_first() =~= Seq::empty());
        assert(first_failure(more.drop_first()) is None);
    }
}

/// The watch fails when its activation is no longer listed, when NetworkManager or the bus goes and when it is
/// cancelled. Lists that hold the activation and new owners say nothing. The first reading counts until a signal
/// has come.
pub proof fn losses_end_the_watch(active: Seq<char>, saw_signal: bool, paths: Vec<String>, owner: String, n: u32)
    ensures
        queued(active, saw_signal, WatchSignal::StateChanged(Some(n))) == Some(WatchEvent::State(n)),
        queued(active, saw_signal, WatchSignal::StateChanged(None)) == Some(WatchEvent::Failed(WatchFailure::BadSignal)),
        queued(active, saw_signal, WatchSignal::ActiveConnections(Some(paths))) is None <==> exists|i: int|
            0 <= i < paths@.len() && (#[trigger] paths@[i])@ == active,
        !views(paths@).contains(active) ==> queued(active, saw_signal, WatchSignal::ActiveConnections(Some(paths)))
            == Some(WatchEvent::Failed(WatchFailure::Removed)),
        queued(active, saw_signal, WatchSignal::ActiveConnections(None)) is None,
        owner@.len() == 0 ==> queued(active, saw_signal, WatchSignal::NameOwnerChanged { new_owner: owner }) == Some(
            WatchEvent::Failed(WatchFailure::OwnerLost),
        ),
        owner@.len() > 0 ==> queued(active, saw_signal, WatchSignal::NameOwnerChanged { new_owner: owner }) is None,
        queued(active, saw_signal, WatchSignal::BusClosed) == Some(WatchEvent::Failed(WatchFailure::BusClosed)),
        queued(active, saw_signal, WatchSignal::Cancelled) == Some(WatchEvent::Failed(WatchFailure::Cancelled)),
        queued(active, true, WatchSignal::StateRead(Ok(Some(n)))) is None,
        queued(active, false, WatchSignal::StateRead(Ok(Some(n)))) == Some(WatchEvent::State(n)),
        queued(active, false, WatchSignal::StateRead(Ok(None))) == Some(WatchEvent::Failed(WatchFailure::BadReply)),
        queued(active, false, WatchSignal::StateRead(Err(owner))) == Some(
            WatchEvent::Failed(WatchFailure::ReadFailed(owner)),
        ),
{
    let all = views(paths@);
    if all.contains(active) {
        let i = choose|i: int| 0 <= i < all.len() && all[i] == active;
        assert(paths@[i]@ == active);
    }
    if exists|i: int| 0 <= i < paths@.len() && (#[trigger] paths@[i])@ == active {
        let i = choose|i: int| 0 <= i < paths@.len() && (#[trigger] paths@[i])@ == active;
        assert(all[i] == active);
    }
}

/// Why an attempt ended is told in words; what a reading told is passed on.
pub proof fn lost_attempts_are_told_in_words(e: String)
    ensures
        WatchFailure::Cancelled.words() == "Connection cancelled"@,
        WatchFailure::Removed.words() == "Connection activation disappeared"@,
        WatchFailure::OwnerLost.words() == "NetworkManager disappeared"@,
        WatchFailure::BusClosed.words() == "System bus disconnected"@,
        WatchFailure::BadSignal.words() == "Invalid activation state signal"@,
        WatchFailure::BadReply.words() == "Invalid activation state reply"@,
        WatchFailure::Ended.words() == "Connection activation ended before connecting"@,
        WatchFailure::BadState.words() == "Invalid connection activation state"@,
        WatchFailure::TimedOut.words() == "Connection activation timed out"@,
        WatchFailure::ReadFailed(e).words() == e@,
{
}

} // verus!
