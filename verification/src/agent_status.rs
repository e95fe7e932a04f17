//! The agent status a Task shows when its tabs are in different states:
//! the most attention-worthy one — waiting for input, then running, then
//! starting, then idle, then no status or ended.
use vstd::prelude::*;

verus! {

/// What the agent in a pane is doing, as its hooks report it.
#[derive(Debug, Clone, Copy, PartialEq, Eq, Structural)]
pub enum AgentStatus {
    NoStatus,
    Starting,
    Running,
    WaitingForInput,
    Idle,
    Ended,
}

/// How attention-worthy a status is (higher first).
pub open spec fn priority_of(s: AgentStatus) -> u8 {
    match s {
        AgentStatus::WaitingForInput => 4,
        AgentStatus::Running => 3,
        AgentStatus::Starting => 2,
        AgentStatus::Idle => 1,
        AgentStatus::NoStatus | AgentStatus::Ended => 0,
    }
}

/// How attention-worthy a status is (higher first).
pub fn status_priority(status: AgentStatus) -> (r: u8)
    ensures
        r == priority_of(status),
{
    match status {
        AgentStatus::WaitingForInput => 4,
        AgentStatus::Running => 3,
        AgentStatus::Starting => 2,
        AgentStatus::Idle => 1,
        AgentStatus::NoStatus | AgentStatus::Ended => 0,
    }
}

/// The status shown for the panes' statuses `s`: the last of the most
/// attention-worthy ones; `None` for no pane.
pub open spec fn shown_status(s: Seq<AgentStatus>) -> Option<AgentStatus>
    decreases s.len(),
{
    if s.len() == 0 {
        None
    } else {
        match shown_status(s.drop_last()) {
            None => Some(s.last()),
            Some(b) => if priority_of(s.last()) >= priority_of(b) {
                Some(s.last())
            } else {
                Some(b)
            },
        }
    }
}

/// The status a Task shows for its panes' statuses (in the order given):
/// the last of the most attention-worthy ones, or `None` without panes.
pub fn task_status(statuses: &[AgentStatus]) -> (r: Option<AgentStatus>)
    ensures
        r == shown_status(statuses@),
{
    let mut best: Option<AgentStatus> = None;
    let n = statuses.len();
    let mut i: usize = 0;
    while i < n
        invariant
            n == statuses@.len(),
            i <= n,
            best == shown_status(statuses@.take(i as int)),
        decreases n - i,
    {
        let s = statuses[i];
        best = match best {
            None => Some(s),
            Some(b) => {
                if status_priority(s) >= status_priority(b) {
                    Some(s)
                } else {
                    Some(b)
                }
            },
        };
        proof {
            let t = statuses@.take(i + 1);
            assert(t.drop_last() =~= statuses@.take(i as int));
            assert(t.last() == s);
        }
        i += 1;
    }
    assert(statuses@.take(n as int) =~= statuses@);
    best
}

/// The shown status is one of the panes' and at least as attention-worthy
/// as each of them.
pub proof fn law_shown_status_is_the_most_urgent(s: Seq<AgentStatus>)
    ensures
        s.len() > 0 ==> (shown_status(s) matches Some(b) && s.contains(b) && forall|i: int|
            0 <= i < s.len() ==> priority_of(#[trigger] s[i]) <= priority_of(b)),
        s.len() == 0 ==> shown_status(s) is None,
    decreases s.len(),
{
    if s.len() > 0 {
        let t = s.drop_last();
        law_shown_status_is_the_most_urgent(t);
        let b = shown_status(s).unwrap();
        assert forall|i: int| 0 <= i < s.len() implies priority_of(#[trigger] s[i]) <= priority_of(b) by {
            if i < t.len() {
                assert(s[i] == t[i]);
            }
        }
        if b == s.last() {
            assert(s[s.len() - 1] == b);
        } else {
            let c = shown_status(t).unwrap();
            let k = choose|k: int| 0 <= k < t.len() && t[k] == c;
            assert(s[k] == c);
        }
    }
}

} // verus!
