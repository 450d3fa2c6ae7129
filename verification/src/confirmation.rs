//! The confirmation phase of a pairing: both users compare the code and
//! confirm, both sides then exchange `Complete`, and only then is the peer
//! trusted. The network and the timers stay outside; this is the decision
//! taken on each event.

use vstd::prelude::*;
use vstd::string::*;
use crate::text::str_equal;

verus! {

/// How far a pairing's confirmation has come.
#[derive(Clone, Copy, Debug, PartialEq, Eq, Structural)]
pub struct PairingProgress {
    pub local_confirmed: bool,
    pub remote_confirmed: bool,
    pub local_complete_sent: bool,
    pub remote_completed: bool,
}

/// `Complete` is exchanged only after both confirmations.
pub open spec fn progress_valid(p: PairingProgress) -> bool {
    &&& p.local_complete_sent ==> p.local_confirmed && p.remote_confirmed
    &&& p.remote_completed ==> p.local_confirmed && p.remote_confirmed
}

/// Nothing confirmed yet.
pub fn initial_progress() -> (p: PairingProgress)
    ensures
        p == (PairingProgress { local_confirmed: false, remote_confirmed: false, local_complete_sent: false, remote_completed: false }),
        progress_valid(p),
{
    PairingProgress { local_confirmed: false, remote_confirmed: false, local_complete_sent: false, remote_completed: false }
}

/// What happened: the local user answered, the local command channel
/// closed, a message arrived (or could not be read), or time ran out.
pub enum PairingEvent {
    LocalDecision(bool),
    LocalClosed,
    RemoteConfirm { schema_version: u8, pairing_id: String, context_hash: String, accepted: bool },
    RemoteComplete { schema_version: u8, pairing_id: String },
    RemoteAbort(String),
    RemoteOther,
    ReadFailed(String),
    TimedOut,
}

/// What to do, in order.
pub enum PairingAction {
    /// Send `Confirm` with the local answer.
    SendConfirm(bool),
    /// Show the pairing's new status.
    Status(&'static str),
    /// Send `Complete`.
    SendComplete,
    /// Trust the peer: the pairing is done.
    Completed,
    /// End the pairing with this reason.
    Failed(String),
}

/// The decision on one event.
pub struct PairingStep {
    pub progress: PairingProgress,
    pub actions: Vec<PairingAction>,
}

/// After an accepted event: send `Complete` once both sides confirmed, and
/// finish once `Complete` went both ways.
pub open spec fn after_event(p: PairingProgress) -> PairingProgress {
    if p.local_confirmed && p.remote_confirmed && !p.local_complete_sent {
        PairingProgress { local_complete_sent: true, ..p }
    } else {
        p
    }
}

/// The actions of the follow-up to an accepted event, in order.
pub open spec fn follow_up_kinds(p: PairingProgress) -> Seq<int> {
    let sends = p.local_confirmed && p.remote_confirmed && !p.local_complete_sent;
    let q = after_event(p);
    (if sends { seq![2int, 1int] } else { Seq::empty() }) + (if q.local_complete_sent && q.remote_completed { seq![3int] } else { Seq::empty() })
}

/// A kind number for each action: 0 send confirm, 1 status, 2 send
/// complete, 3 completed, 4 failed.
pub open spec fn action_kind(a: PairingAction) -> int {
    match a {
        PairingAction::SendConfirm(_) => 0,
        PairingAction::Status(_) => 1,
        PairingAction::SendComplete => 2,
        PairingAction::Completed => 3,
        PairingAction::Failed(_) => 4,
    }
}

/// The kinds of a list of actions.
pub open spec fn kinds(actions: Seq<PairingAction>) -> Seq<int> {
    actions.map_values(|a: PairingAction| action_kind(a))
}

/// `Confirm` belongs to this pairing: schema 1, its id and its context hash.
pub open spec fn confirm_matches(schema_version: u8, pairing_id: Seq<char>, context_hash: Seq<char>, session_id: Seq<char>, session_hash: Seq<char>) -> bool {
    schema_version == 1 && pairing_id == session_id && context_hash == session_hash
}

fn follow_up(p: PairingProgress, actions: &mut Vec<PairingAction>) -> (q: PairingProgress)
    ensures
        q == after_event(p),
        kinds(final(actions)@) == kinds(old(actions)@) + follow_up_kinds(p),
        forall|i: int| 0 <= i < old(actions)@.len() ==> final(actions)@[i] == old(actions)@[i],
        p.local_confirmed && p.remote_confirmed && !p.local_complete_sent ==> (final(actions)@[old(actions)@.len() as int + 1]
            matches PairingAction::Status(s) && s@ == "waiting_for_peer_complete"@),
{
    let ghost before = actions@;
    let mut q = p;
    if p.local_confirmed && p.remote_confirmed && !p.local_complete_sent {
        actions.push(PairingAction::SendComplete);
        actions.push(PairingAction::Status("waiting_for_peer_complete"));
        q = PairingProgress { local_complete_sent: true, ..p };
    }
    let ghost middle = actions@;
    if q.local_complete_sent && q.remote_completed {
        actions.push(PairingAction::Completed);
    }
    proof {
        assert(kinds(actions@) =~= kinds(before) + follow_up_kinds(p));
    }
    q
}

fn failed(message: String) -> (step: Vec<PairingAction>)
    ensures
        step@.len() == 1,
        step@[0] matches PairingAction::Failed(m) && m == message,
{
    vec![PairingAction::Failed(message)]
}

/// The decision on one event of the pairing `session_id`, whose context
/// hashes to `session_hash`.
pub fn pairing_step(p: PairingProgress, event: PairingEvent, session_id: &str, session_hash: &str) -> (step: PairingStep)
    requires
        progress_valid(p),
    ensures
        progress_valid(step.progress),
        match event {
            PairingEvent::LocalDecision(accepted) => if p.local_confirmed {
                step.progress == p && step.actions@.len() == 0
            } else if !accepted {
                step.actions@.len() == 2 && step.actions@[0] == PairingAction::SendConfirm(false)
                    && (step.actions@[1] matches PairingAction::Failed(m) && m@ == "用户拒绝了配对"@)
            } else {
                let q = PairingProgress { local_confirmed: true, ..p };
                &&& step.progress == after_event(q)
                &&& kinds(step.actions@) == seq![0int, 1int] + follow_up_kinds(q)
                &&& step.actions@[0] == PairingAction::SendConfirm(true)
                &&& step.actions@[1] matches PairingAction::Status(s) && s@ == "waiting_for_peer"@
            },
            PairingEvent::LocalClosed => step.actions@.len() == 1
                && (step.actions@[0] matches PairingAction::Failed(m) && m@ == "配对会话已取消"@),
            PairingEvent::RemoteConfirm { schema_version, pairing_id, context_hash, accepted } =>
                if !confirm_matches(schema_version, pairing_id@, context_hash@, session_id@, session_hash@) {
                    step.actions@.len() == 1 && (step.actions@[0] matches PairingAction::Failed(m) && m@ == "配对确认消息无效"@)
                } else if !accepted {
                    step.actions@.len() == 1 && (step.actions@[0] matches PairingAction::Failed(m) && m@ == "对方拒绝了配对"@)
                } else {
                    let q = PairingProgress { remote_confirmed: true, ..p };
                    &&& step.progress == after_event(q)
                    &&& kinds(step.actions@) == (if p.local_confirmed { Seq::<int>::empty() } else { seq![1int] }) + follow_up_kinds(q)
                    &&& !p.local_confirmed ==> (step.actions@[0] matches PairingAction::Status(s) && s@ == "peer_confirmed"@)
                },
            PairingEvent::RemoteComplete { schema_version, pairing_id } =>
                if schema_version == 1 && pairing_id@ == session_id@ && p.local_confirmed && p.remote_confirmed {
                    let q = PairingProgress { remote_completed: true, ..p };
                    step.progress == after_event(q) && kinds(step.actions@) == follow_up_kinds(q)
                } else {
                    step.actions@.len() == 1 && (step.actions@[0] matches PairingAction::Failed(m) && m@ == "配对确认消息无效"@)
                },
            PairingEvent::RemoteAbort(reason) => step.actions@.len() == 1
                && (step.actions@[0] matches PairingAction::Failed(m) && m == reason),
            PairingEvent::RemoteOther => step.actions@.len() == 1
                && (step.actions@[0] matches PairingAction::Failed(m) && m@ == "配对确认消息无效"@),
            PairingEvent::ReadFailed(error) => step.actions@.len() == 1
                && (step.actions@[0] matches PairingAction::Failed(m) && m == error),
            PairingEvent::TimedOut => step.actions@.len() == 1 && (step.actions@[0] matches PairingAction::Failed(m)
                && m@ == if p.local_complete_sent { "未收到对端配对完成确认"@ } else { "配对确认已超时"@ }),
        },
{
    match event {
        PairingEvent::LocalDecision(accepted) => {
            if p.local_confirmed {
                return PairingStep { progress: p, actions: Vec::new() };
            }
            if !accepted {
                let actions = vec![PairingAction::SendConfirm(false), PairingAction::Failed(String::from_str("用户拒绝了配对"))];
                return PairingStep { progress: p, actions };
            }
            let q = PairingProgress { local_confirmed: true, ..p };
            let mut actions = vec![PairingAction::SendConfirm(true), PairingAction::Status("waiting_for_peer")];
            proof {
                assert(kinds(actions@) =~= seq![0int, 1int]);
            }
            let progress = follow_up(q, &mut actions);
            PairingStep { progress, actions }
        },
        PairingEvent::LocalClosed => PairingStep { progress: p, actions: failed(String::from_str("配对会话已取消")) },
        PairingEvent::RemoteConfirm { schema_version, pairing_id, context_hash, accepted } => {
            if !(schema_version == 1 && str_equal(pairing_id.as_str(), session_id) && str_equal(context_hash.as_str(), session_hash)) {
                return PairingStep { progress: p, actions: failed(String::from_str("配对确认消息无效")) };
            }
            if !accepted {
                return PairingStep { progress: p, actions: failed(String::from_str("对方拒绝了配对")) };
            }
            let q = PairingProgress { remote_confirmed: true, ..p };
            let mut actions: Vec<PairingAction> = Vec::new();
            if !p.local_confirmed {
                actions.push(PairingAction::Status("peer_confirmed"));
            }
            proof {
                assert(kinds(actions@) =~= (if p.local_confirmed { Seq::<int>::empty() } else { seq![1int] }));
            }
            let progress = follow_up(q, &mut actions);
            PairingStep { progress, actions }
        },
        PairingEvent::RemoteComplete { schema_version, pairing_id } => {
            if schema_version == 1 && str_equal(pairing_id.as_str(), session_id) && p.local_confirmed && p.remote_confirmed {
                let q = PairingProgress { remote_completed: true, ..p };
                let mut actions: Vec<PairingAction> = Vec::new();
                proof {
                    assert(kinds(actions@) =~= Seq::<int>::empty());
                }
                let progress = follow_up(q, &mut actions);
                proof {
                    assert(kinds(actions@) =~= follow_up_kinds(q));
                }
                PairingStep { progress, actions }
            } else {
                PairingStep { progress: p, actions: failed(String::from_str("配对确认消息无效")) }
            }
        },
        PairingEvent::RemoteAbort(reason) => PairingStep { progress: p, actions: failed(reason) },
        PairingEvent::RemoteOther => PairingStep { progress: p, actions: failed(String::from_str("配对确认消息无效")) },
        PairingEvent::ReadFailed(error) => PairingStep { progress: p, actions: failed(error) },
        PairingEvent::TimedOut => {
            let message = if p.local_complete_sent {
                String::from_str("未收到对端配对完成确认")
            } else {
                String::from_str("配对确认已超时")
            };
            PairingStep { progress: p, actions: failed(message) }
        },
    }
}

/// How long to wait for the next event, in seconds: ten once `Complete` was
/// sent, two minutes before.
pub fn pairing_timeout_seconds(p: PairingProgress) -> (seconds: u64)
    ensures
        seconds == if p.local_complete_sent { 10u64 } else { 120u64 },
{
    if p.local_complete_sent { 10 } else { 120 }
}

/// A pairing completes only after both users confirmed and `Complete` went
/// both ways: a step that ends in `Completed` leaves all four flags set.
pub proof fn lemma_completion_needs_both_sides(p: PairingProgress)
    requires
        progress_valid(p),
        follow_up_kinds(p).contains(3int),
    ensures
        after_event(p).local_confirmed,
        after_event(p).remote_confirmed,
        after_event(p).local_complete_sent,
        after_event(p).remote_completed,
{
    let sends = p.local_confirmed && p.remote_confirmed && !p.local_complete_sent;
    let q = after_event(p);
    let first: Seq<int> = if sends { seq![2int, 1int] } else { Seq::empty() };
    let second: Seq<int> = if q.local_complete_sent && q.remote_completed { seq![3int] } else { Seq::empty() };
    assert(follow_up_kinds(p) == first + second);
    if !(q.local_complete_sent && q.remote_completed) {
        assert(second =~= Seq::<int>::empty());
        assert(first + second =~= first);
        if sends {
            assert(first[0] != 3 && first[1] != 3);
        }
    }
}

} // verus!
