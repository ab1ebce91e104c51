//! The initialization handoff: a single-assignment cell crossing from the
//! control thread to the asynchronous side.
//!
//! The cell starts out waiting on a one-shot delivery and moves exactly once
//! to a resolved state holding the delivered payload; from then on every
//! poll observes that same payload. The locking discipline that makes the
//! transition exclusive under concurrency (read-check, drop the read lock,
//! then upgrade to a write lock) belongs to the unverified runtime shell;
//! the state machine it drives is below.

use vstd::prelude::*;

verus! {

/// What the first "init" call delivers: the backend connection endpoint and
/// the maintenance interval in seconds.
#[derive(Debug)]
pub struct InitInfo {
    pub socket_path: String,
    pub pruning_interval: u64,
}

impl InitInfo {
    /// An equal copy of the payload, as every reader past resolution gets one.
    pub fn duplicate(&self) -> (r: InitInfo)
        ensures
            r == *self,
    {
        InitInfo {
            socket_path: self.socket_path.clone(),
            pruning_interval: self.pruning_interval,
        }
    }
}

/// The two states of the handoff cell.
#[derive(Debug)]
pub enum InitInfoState {
    Waiting,
    Resolved(InitInfo),
}

/// The handoff cell itself.
#[derive(Debug)]
pub struct InitInfoCell {
    pub state: InitInfoState,
}

/// One poll of the cell: what the state becomes and what the reader sees,
/// given what the one-shot delivery yielded this round.
pub open spec fn poll_spec(s: InitInfoState, received: Option<InitInfo>) -> (
    InitInfoState,
    Option<InitInfo>,
) {
    match s {
        InitInfoState::Resolved(v) => (s, Some(v)),
        InitInfoState::Waiting => match received {
            Some(ii) => (InitInfoState::Resolved(ii), Some(ii)),
            None => (InitInfoState::Waiting, None),
        },
    }
}

impl InitInfoCell {
    /// A fresh cell, waiting for the delivery.
    pub fn new() -> (r: Self)
        ensures
            r.state == InitInfoState::Waiting,
    {
        InitInfoCell { state: InitInfoState::Waiting }
    }

    /// One poll: `received` is what the one-shot delivery yielded this round
    /// (nothing, until the control thread sends the payload). A resolved
    /// cell ignores `received` and never changes again.
    pub fn poll(&mut self, received: Option<InitInfo>) -> (r: Option<InitInfo>)
        ensures
            final(self).state == poll_spec(old(self).state, received).0,
            r == poll_spec(old(self).state, received).1,
    {
        match &self.state {
            InitInfoState::Resolved(v) => Some(v.duplicate()),
            InitInfoState::Waiting => match received {
                Some(ii) => {
                    let out = ii.duplicate();
                    self.state = InitInfoState::Resolved(ii);
                    Some(out)
                },
                None => None,
            },
        }
    }
}

/// The cell after a whole sequence of polls.
pub open spec fn poll_run(s: InitInfoState, events: Seq<Option<InitInfo>>) -> InitInfoState
    decreases events.len(),
{
    if events.len() == 0 {
        s
    } else {
        poll_run(poll_spec(s, events[0]).0, events.skip(1))
    }
}

/// The first delivery among a sequence of poll events, if any.
pub open spec fn first_delivery(events: Seq<Option<InitInfo>>) -> Option<InitInfo>
    decreases events.len(),
{
    if events.len() == 0 {
        None
    } else {
        match events[0] {
            Some(ii) => Some(ii),
            None => first_delivery(events.skip(1)),
        }
    }
}

/// LAW (stability): a resolved cell stays resolved with the same payload
/// through any further polls, and every one of those polls hands that
/// payload back.
pub proof fn lemma_resolved_is_stable(v: InitInfo, events: Seq<Option<InitInfo>>)
    ensures
        poll_run(InitInfoState::Resolved(v), events) == InitInfoState::Resolved(v),
        forall|e: Option<InitInfo>|
            #[trigger] poll_spec(InitInfoState::Resolved(v), e).1 == Some(v),
    decreases events.len(),
{
    if events.len() > 0 {
        lemma_resolved_is_stable(v, events.skip(1));
    }
}

/// LAW (at most one resolution): however many polls run and whatever each
/// one finds delivered, the cell resolves at most once — to the first
/// delivery — and never to anything else.
pub proof fn lemma_at_most_one_resolution(events: Seq<Option<InitInfo>>)
    ensures
        poll_run(InitInfoState::Waiting, events) == (match first_delivery(events) {
            Some(ii) => InitInfoState::Resolved(ii),
            None => InitInfoState::Waiting,
        }),
    decreases events.len(),
{
    if events.len() > 0 {
        match events[0] {
            Some(ii) => {
                lemma_resolved_is_stable(ii, events.skip(1));
            },
            None => {
                lemma_at_most_one_resolution(events.skip(1));
            },
        }
    }
}

} // verus!
