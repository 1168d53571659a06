//! The scrape engine over a scripted transport: a session is driven through
//! a given sequence of reports until it finishes. A transport that does real
//! I/O runs the same loop, one report at a time.

use vstd::prelude::*;
use crate::nick::{fresh_nickname, nickname_from, nickname_of};
use crate::outcome::ScrapeOutcome;
use crate::session::{Action, ActionView, Event, EventView, Session, SessionView};
use crate::target::Target;

verus! {

/// The reports of a vector, each by its view.
pub open spec fn events_view(v: Seq<Event>) -> Seq<EventView> {
    Seq::new(v.len(), |i: int| v[i]@)
}

/// The actions of a vector, each by its view.
pub open spec fn actions_view(v: Seq<Action>) -> Seq<ActionView> {
    Seq::new(v.len(), |i: int| v[i]@)
}

/// Whether a session will answer the next poll without waiting for a
/// report: one, where bytes are queued or a query is due.
pub open spec fn pending(s: SessionView) -> nat {
    if s.state is Registered || s.state is Ready || s.outbox.len() > 0 {
        1
    } else {
        0
    }
}

/// A session driven through `events`: the session at the end and every
/// action it asked for, in order. Each action that waits for a report takes
/// the next one; where the reports run out, the budget counts as used up.
pub open spec fn run(s: SessionView, events: Seq<EventView>) -> (SessionView, Seq<ActionView>)
    decreases events.len(), pending(s),
{
    let (t, action) = s.poll();
    match action {
        ActionView::Finish => (t, seq![action]),
        ActionView::Send(_) => {
            let (u, rest) = run(t, events);
            (u, seq![action] + rest)
        },
        _ => if events.len() == 0 {
            (t.handle(EventView::BudgetExpired), seq![action, ActionView::Finish])
        } else {
            let (u, rest) = run(t.handle(events[0]), events.drop_first());
            (u, seq![action] + rest)
        },
    }
}

/// Drives a session through `events` until it finishes, and returns every
/// action it asked for, in order.
pub fn drive(session: &mut Session, events: &Vec<Event>) -> (actions: Vec<Action>)
    ensures
        final(session)@ == run(old(session)@, events_view(events@)).0,
        actions_view(actions@) == run(old(session)@, events_view(events@)).1,
        old(session)@.wf() ==> final(session)@.wf(),
{
    let ghost all = events_view(events@);
    let mut actions: Vec<Action> = Vec::new();
    let mut i: usize = 0;
    proof {
        assert(all.skip(0) =~= all);
        assert(actions_view(actions@) + run(session@, all).1 =~= run(session@, all).1);
    }
    loop
        invariant
            i <= events.len(),
            all == events_view(events@),
            run(old(session)@, all).0 == run(session@, all.skip(i as int)).0,
            run(old(session)@, all).1 == actions_view(actions@) + run(session@, all.skip(i as int)).1,
            old(session)@.wf() ==> session@.wf(),
        decreases events.len() - i, pending(session@),
    {
        let ghost before = session@;
        let ghost done = actions_view(actions@);
        let ghost left = all.skip(i as int);
        let action = session.poll();
        let waits = match &action {
            Action::Finish => {
                actions.push(action);
                proof {
                    assert(actions_view(actions@) =~= done + run(before, left).1);
                }
                return actions;
            },
            Action::Send(_) => false,
            _ => true,
        };
        let ghost asked = action@;
        actions.push(action);
        proof {
            assert(actions_view(actions@) =~= done + seq![asked]);
        }
        if waits {
            if i >= events.len() {
                session.handle(&Event::BudgetExpired);
                actions.push(Action::Finish);
                proof {
                    assert(left.len() == 0);
                    assert(actions_view(actions@) =~= done + seq![asked, ActionView::Finish]);
                }
                return actions;
            }
            session.handle(&events[i]);
            proof {
                assert(left[0] == events@[i as int]@);
                assert(left.drop_first() =~= all.skip(i + 1));
                assert(done + (seq![asked] + run(session@, all.skip(i + 1)).1) =~= done + seq![asked] + run(
                    session@,
                    all.skip(i + 1),
                ).1);
            }
            i += 1;
        } else {
            proof {
                assert(done + (seq![asked] + run(session@, left).1) =~= done + seq![asked] + run(
                    session@,
                    left,
                ).1);
            }
        }
    }
}

/// The time allowed for one scrape, in milliseconds: it covers the
/// connection, the handshake and every query.
#[derive(Clone, Copy, Debug, PartialEq, Eq)]
pub struct Budget {
    pub total_ms: u64,
}

impl Budget {
    /// What is left of the budget once `elapsed_ms` have passed.
    pub open spec fn left(self, elapsed_ms: u64) -> u64 {
        if elapsed_ms >= self.total_ms {
            0
        } else {
            (self.total_ms - elapsed_ms) as u64
        }
    }

    /// What is left of the budget once `elapsed_ms` have passed.
    pub fn remaining(&self, elapsed_ms: u64) -> (r: u64)
        ensures
            r == self.left(elapsed_ms),
    {
        if elapsed_ms >= self.total_ms {
            0
        } else {
            self.total_ms - elapsed_ms
        }
    }

    /// How long the transport may wait for the next report: what is left of
    /// the budget, and no longer than the limit for one reply. `None` once
    /// the budget is used up.
    pub fn wait(&self, elapsed_ms: u64, idle_ms: u64) -> (w: Option<u64>)
        ensures
            self.left(elapsed_ms) == 0 ==> w is None,
            self.left(elapsed_ms) > 0 ==> w == Some(
                if idle_ms < self.left(elapsed_ms) {
                    idle_ms
                } else {
                    self.left(elapsed_ms)
                },
            ),
    {
        let left = self.remaining(elapsed_ms);
        if left == 0 {
            None
        } else if idle_ms < left {
            Some(idle_ms)
        } else {
            Some(left)
        }
    }

    /// What to report when nothing arrived in time: the budget is used up,
    /// or, where some of it is left, only the reply is late.
    pub fn silence(&self, elapsed_ms: u64) -> (e: Event)
        ensures
            e@ == if self.left(elapsed_ms) == 0 {
                EventView::BudgetExpired
            } else {
                EventView::IdleTimeout
            },
    {
        if self.remaining(elapsed_ms) == 0 {
            Event::BudgetExpired
        } else {
            Event::IdleTimeout
        }
    }
}

/// The session that scrapes `target` under the nickname made from `seed`,
/// with no password.
pub fn start(target: &Target, seed: i32) -> (session: Session)
    ensures
        session@ == SessionView::initial(target.secure, nickname_of(seed), None),
        session@.wf(),
{
    let made = Session::new(target.secure, nickname_from(seed), None);
    made.unwrap()
}

/// A session that scrapes `target` under a freshly drawn nickname, with no
/// password.
pub fn open(target: &Target) -> (session: Session)
    ensures
        exists|seed: i32| session@ == SessionView::initial(target.secure, nickname_of(seed), None),
        session@.wf(),
{
    let nick = fresh_nickname();
    let made = Session::new(target.secure, nick, None);
    made.unwrap()
}

/// One scrape of `target` over a scripted transport: how a session under
/// the nickname made from `seed` ends when it is driven through `events`.
pub fn scrape_events(target: &Target, seed: i32, events: &Vec<Event>) -> (out: Option<ScrapeOutcome>)
    ensures
        out == run(
            SessionView::initial(target.secure, nickname_of(seed), None),
            events_view(events@),
        ).0.outcome(),
{
    let mut session = start(target, seed);
    let _ = drive(&mut session, events);
    session.outcome()
}

} // verus!
