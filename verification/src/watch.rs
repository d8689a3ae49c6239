//! Decision logic of the debounced watcher and of the supervisor loop:
//! what one coalesced burst of filesystem events asks for, and which wakeup
//! source wins when the loop resumes. The debouncing itself (coalescing a
//! burst into one callback after a quiet period) is the watcher backend's;
//! this module decides what each coalesced burst means.
use vstd::prelude::*;

use crate::supervisor::Notification;

verus! {

/// The kind of one raw filesystem event, as the watcher backend reports it.
#[derive(Debug, Clone, Copy, PartialEq, Eq, Structural)]
pub enum FsEventKind {
    /// The artifact appeared.
    Create,
    /// The artifact's contents changed.
    Modify,
    /// The artifact was removed.
    Remove,
    /// Anything else (metadata, access, ...); ignored.
    Other,
}

/// What one coalesced burst of events asks the watcher loop to do.
#[derive(Debug, Clone, Copy, PartialEq, Eq, Structural)]
pub enum WatchAction {
    /// Re-read and re-parse the artifact, then deliver the result.
    Reparse,
    /// Deliver the explicit gone notification.
    ReportGone,
}

/// The action owed for a burst: the first create, modify or remove event
/// decides; other events are skipped; an empty or indifferent burst asks
/// for nothing.
pub open spec fn burst_action(events: Seq<FsEventKind>) -> Option<WatchAction>
    decreases events.len(),
{
    if events.len() == 0 {
        None
    } else {
        match events[0] {
            FsEventKind::Create => Some(WatchAction::Reparse),
            FsEventKind::Modify => Some(WatchAction::Reparse),
            FsEventKind::Remove => Some(WatchAction::ReportGone),
            FsEventKind::Other => burst_action(events.drop_first()),
        }
    }
}

/// Decides what one coalesced burst requires. However many raw events a
/// burst held, at most one action — hence at most one downstream
/// reconciliation — comes out of it.
pub fn classify_burst(events: &Vec<FsEventKind>) -> (r: Option<WatchAction>)
    ensures
        r == burst_action(events@),
{
    let n = events.len();
    let mut i: usize = 0;
    proof {
        assert(events@.skip(0) =~= events@);
    }
    while i < n
        invariant
            0 <= i <= n,
            n == events@.len(),
            burst_action(events@) == burst_action(events@.skip(i as int)),
        decreases n - i,
    {
        proof {
            assert(events@.skip(i as int)[0] == events@[i as int]);
            assert(events@.skip(i as int).drop_first() =~= events@.skip(i + 1));
        }
        match events[i] {
            FsEventKind::Create => {
                return Some(WatchAction::Reparse);
            },
            FsEventKind::Modify => {
                return Some(WatchAction::Reparse);
            },
            FsEventKind::Remove => {
                return Some(WatchAction::ReportGone);
            },
            FsEventKind::Other => {},
        }
        i += 1;
    }
    proof {
        assert(events@.skip(n as int) =~= Seq::<FsEventKind>::empty());
    }
    None
}

/// What the supervisor loop does next after waking up.
#[derive(Debug)]
pub enum Directive {
    /// Stop observing the path, drain the channel, and exit.
    Shutdown,
    /// Apply one received notification to the supervisor.
    Deliver(Notification),
    /// Nothing to deliver; wait again.
    Wait,
}

/// Chooses the loop's next step from its two wakeup sources. Cancellation
/// wins over any pending message, so a cancelled loop shuts down on its
/// very next wakeup and never applies a notification afterwards.
pub fn next_directive(cancelled: bool, received: Option<Notification>) -> (r: Directive)
    ensures
        r is Shutdown <==> cancelled,
        !cancelled ==> ((r is Deliver <==> received is Some) && (r is Wait <==> received is None)),
        !cancelled ==> (received matches Some(n) ==> (r matches Directive::Deliver(m) && m@
            == n@)),
{
    if cancelled {
        Directive::Shutdown
    } else {
        match received {
            Some(n) => Directive::Deliver(n),
            None => Directive::Wait,
        }
    }
}

} // verus!
