//! What holds of every scrape, whatever the server does.

use vstd::prelude::*;
use crate::engine::{pending, run};
use crate::metrics::{assemble_spec, has_sample, plain_sample, SampleView};
use crate::outcome::{Facts, ScrapeOutcome};
use crate::render::{
    descriptor_id, distinct_ids, distinct_names, first_labelled, first_refused, gauges_of, has_text,
    help_of, holds_id, plain_valid_distinct, registry_takes, renders, valid_metric_name,
};
use crate::session::{ActionView, EventView, Query, SessionView, State};
use crate::wire::handshake;

verus! {

/// What taking in a report and asking for the next action both keep, a
/// whole run keeps.
pub proof fn lemma_run_keeps(s: SessionView, events: Seq<EventView>, inv: spec_fn(SessionView) -> bool)
    requires
        inv(s),
        forall|t: SessionView| inv(t) ==> inv((#[trigger] t.poll()).0),
        forall|t: SessionView, e: EventView| inv(t) ==> inv(#[trigger] t.handle(e)),
    ensures
        inv(run(s, events).0),
    decreases events.len(), pending(s),
{
    let (t, action) = s.poll();
    match action {
        ActionView::Finish => {},
        ActionView::Send(_) => {
            lemma_run_keeps(t, events, inv);
        },
        _ => {
            if events.len() > 0 {
                lemma_run_keeps(t.handle(events[0]), events.drop_first(), inv);
            }
        },
    }
}

/// Every run ends with the session finished, and asks to close the
/// connection as its last action and at no earlier point.
pub proof fn law_run_closes(s: SessionView, events: Seq<EventView>)
    ensures
        run(s, events).0.finished(),
        run(s, events).1.len() >= 1,
        run(s, events).1.last() is Finish,
        forall|i: int| 0 <= i < run(s, events).1.len() - 1 ==> !(#[trigger] run(s, events).1[i] is Finish),
    decreases events.len(), pending(s),
{
    let (t, action) = s.poll();
    match action {
        ActionView::Finish => {},
        ActionView::Send(_) => {
            law_run_closes(t, events);
        },
        _ => {
            if events.len() > 0 {
                law_run_closes(t.handle(events[0]), events.drop_first());
            }
        },
    }
}

/// A run keeps a session well-formed and on the transport it started on.
pub proof fn law_run_keeps_well_formed(s: SessionView, events: Seq<EventView>)
    requires
        s.wf(),
    ensures
        run(s, events).0.wf(),
        run(s, events).0.secure == s.secure,
{
    let secure = s.secure;
    let inv = |t: SessionView| t.wf() && t.secure == secure;
    assert forall|t: SessionView| inv(t) implies inv((#[trigger] t.poll()).0) by {
        crate::session::lemma_poll_wf(t);
    }
    assert forall|t: SessionView, e: EventView| inv(t) implies inv(#[trigger] t.handle(e)) by {
        crate::session::lemma_handle_wf(t, e);
    }
    lemma_run_keeps(s, events, inv);
}

/// The samples of an outcome that is not up are the liveness sample alone,
/// with the value zero.
pub proof fn lemma_down_samples(outcome: ScrapeOutcome)
    requires
        !outcome.is_up(),
    ensures
        assemble_spec(outcome) == seq![plain_sample("up"@, 0i64)],
{
    assert(assemble_spec(outcome) =~= seq![plain_sample("up"@, 0i64)]);
}

/// A scrape whose connection does not open ends as unreachable, whatever
/// is reported in place of the opening: it asks to open, then to close, and
/// its samples are the liveness sample alone, with the value zero.
pub proof fn law_unreachable(
    secure: bool,
    nick: Seq<u8>,
    password: Option<Seq<u8>>,
    events: Seq<EventView>,
)
    requires
        events.len() == 0 || !(events[0] is Opened || events[0] is Cancelled),
    ensures
        run(SessionView::initial(secure, nick, password), events).0.outcome() == Some(
            ScrapeOutcome::Unreachable,
        ),
        run(SessionView::initial(secure, nick, password), events).1 == seq![
            ActionView::Open,
            ActionView::Finish,
        ],
        assemble_spec(ScrapeOutcome::Unreachable) == seq![plain_sample("up"@, 0i64)],
{
    let s = SessionView::initial(secure, nick, password);
    lemma_down_samples(ScrapeOutcome::Unreachable);
    if events.len() > 0 {
        let t = s.poll().0.handle(events[0]);
        assert(t.state is ConnectFailed);
        assert(run(t, events.drop_first()) == (t, seq![ActionView::Finish]));
        assert(seq![ActionView::Open] + seq![ActionView::Finish] =~= seq![
            ActionView::Open,
            ActionView::Finish,
        ]);
    }
}

/// The names of the samples differ from one another.
pub proof fn lemma_names_differ()
    ensures
        "up"@ != "uptime_seconds"@,
        "up"@ != "global_user_count"@,
        "up"@ != "local_user_count"@,
        "up"@ != "tls_cert_expiration_epoch"@,
        "uptime_seconds"@ != "global_user_count"@,
        "uptime_seconds"@ != "local_user_count"@,
        "uptime_seconds"@ != "tls_cert_expiration_epoch"@,
        "global_user_count"@ != "local_user_count"@,
        "global_user_count"@ != "tls_cert_expiration_epoch"@,
        "local_user_count"@ != "tls_cert_expiration_epoch"@,
{
    reveal_strlit("up");
    reveal_strlit("uptime_seconds");
    reveal_strlit("global_user_count");
    reveal_strlit("local_user_count");
    reveal_strlit("tls_cert_expiration_epoch");
    assert("up"@.len() == 2);
    assert("uptime_seconds"@.len() == 14);
    assert("global_user_count"@.len() == 17);
    assert("local_user_count"@.len() == 16);
    assert("tls_cert_expiration_epoch"@.len() == 25);
}

/// One where the fact is present, zero where it is absent.
pub open spec fn present(fact: Option<i64>) -> int {
    if fact is Some {
        1
    } else {
        0
    }
}

/// The name of the sample that stands at index `i` among the samples of
/// these facts.
pub open spec fn sample_name_at(f: Facts, i: int) -> Seq<char> {
    if i == 0 {
        "up"@
    } else if i < 1 + present(f.uptime_seconds) {
        "uptime_seconds"@
    } else if i < 1 + present(f.uptime_seconds) + present(f.global_user_count) {
        "global_user_count"@
    } else if i < 1 + present(f.uptime_seconds) + present(f.global_user_count) + present(
        f.local_user_count,
    ) {
        "local_user_count"@
    } else {
        "tls_cert_expiration_epoch"@
    }
}

/// How the samples of an outcome are laid out: the liveness sample, then
/// one sample for each present fact, each without labels and under the name
/// that belongs at its index.
pub proof fn lemma_assembled_layout(outcome: ScrapeOutcome)
    ensures
        assemble_spec(outcome).len() == 1 + present(outcome.facts().uptime_seconds) + present(
            outcome.facts().global_user_count,
        ) + present(outcome.facts().local_user_count) + present(
            outcome.facts().tls_cert_expiration_epoch,
        ),
        assemble_spec(outcome)[0] == plain_sample("up"@, if outcome.is_up() { 1i64 } else { 0i64 }),
        forall|i: int|
            0 <= i < assemble_spec(outcome).len() ==> (#[trigger] assemble_spec(outcome)[i]).labels.len()
                == 0 && assemble_spec(outcome)[i].name == sample_name_at(outcome.facts(), i),
{
    let f = outcome.facts();
    let out = assemble_spec(outcome);
    let a = present(f.uptime_seconds);
    let b = present(f.global_user_count);
    let c = present(f.local_user_count);
    let d = present(f.tls_cert_expiration_epoch);
    assert(out.len() == 1 + a + b + c + d);
    assert forall|i: int| 0 <= i < out.len() implies (#[trigger] out[i]).labels.len() == 0 && out[i].name
        == sample_name_at(f, i) by {
        if i == 0 {
        } else if i < 1 + a {
        } else if i < 1 + a + b {
        } else if i < 1 + a + b + c {
        } else {
        }
    }
}

/// A fact gives a sample exactly where it is present: the samples of an
/// outcome hold the name of a fact if and only if the outcome carries that
/// fact, and they always open with the liveness sample.
pub proof fn law_absent_fact_gives_no_sample(outcome: ScrapeOutcome)
    ensures
        assemble_spec(outcome)[0] == plain_sample("up"@, if outcome.is_up() { 1i64 } else { 0i64 }),
        has_sample(assemble_spec(outcome), "uptime_seconds"@) <==> outcome.facts().uptime_seconds is Some,
        has_sample(assemble_spec(outcome), "global_user_count"@) <==> outcome.facts().global_user_count
            is Some,
        has_sample(assemble_spec(outcome), "local_user_count"@) <==> outcome.facts().local_user_count
            is Some,
        has_sample(assemble_spec(outcome), "tls_cert_expiration_epoch"@)
            <==> outcome.facts().tls_cert_expiration_epoch is Some,
{
    lemma_names_differ();
    lemma_assembled_layout(outcome);
    let f = outcome.facts();
    let out = assemble_spec(outcome);
    let a = present(f.uptime_seconds);
    let b = present(f.global_user_count);
    let c = present(f.local_user_count);
    if f.uptime_seconds is Some {
        assert(out[1].name == "uptime_seconds"@);
    }
    if f.global_user_count is Some {
        assert(out[1 + a].name == "global_user_count"@);
    }
    if f.local_user_count is Some {
        assert(out[1 + a + b].name == "local_user_count"@);
    }
    if f.tls_cert_expiration_epoch is Some {
        assert(out[1 + a + b + c].name == "tls_cert_expiration_epoch"@);
    }
}

/// A session on a plaintext transport never gives a sample of the
/// certificate expiration, whatever the transport reports.
pub proof fn law_plaintext_has_no_certificate_sample(
    nick: Seq<u8>,
    password: Option<Seq<u8>>,
    events: Seq<EventView>,
)
    ensures
        match run(SessionView::initial(false, nick, password), events).0.outcome() {
            Some(o) => !has_sample(assemble_spec(o), "tls_cert_expiration_epoch"@),
            None => true,
        },
{
    let s = SessionView::initial(false, nick, password);
    let inv = |t: SessionView|
        !t.secure && t.facts.tls_cert_expiration_epoch is None && t.state != State::AwaitingReply(
            Query::Certificate,
        );
    assert forall|t: SessionView| inv(t) implies inv((#[trigger] t.poll()).0) by {}
    assert forall|t: SessionView, e: EventView| inv(t) implies inv(#[trigger] t.handle(e)) by {}
    lemma_run_keeps(s, events, inv);
    match run(s, events).0.outcome() {
        Some(o) => {
            law_absent_fact_gives_no_sample(o);
        },
        None => {},
    }
}

/// What holds of a session once its user-count query has gone unanswered.
pub open spec fn users_unanswered(t: SessionView, secure: bool, uptime: Option<i64>) -> bool {
    &&& t.wf()
    &&& t.secure == secure
    &&& t.registered
    &&& t.asked >= 2
    &&& t.state != State::AwaitingReply(Query::Users)
    &&& t.facts.uptime_seconds == uptime
    &&& t.facts.local_user_count is None
    &&& t.facts.global_user_count is None
}

/// A registered session whose user-count query gets no reply ends as
/// partial, unless it is cancelled: the uptime stays as it was obtained,
/// the user counts are absent, and the samples open with liveness one and
/// hold no user count.
pub proof fn law_silent_user_query(s: SessionView, events: Seq<EventView>)
    requires
        s.wf(),
        s.state == State::AwaitingReply(Query::Users),
        s.facts.local_user_count is None,
        s.facts.global_user_count is None,
        events.len() == 0 || events[0] is IdleTimeout || events[0] is BudgetExpired,
    ensures
        ({
            let end = run(s, events).0;
            !end.cancelled ==> {
                &&& end.outcome() == Some(ScrapeOutcome::Partial(end.facts))
                &&& end.facts.uptime_seconds == s.facts.uptime_seconds
                &&& end.facts.local_user_count is None
                &&& end.facts.global_user_count is None
                &&& assemble_spec(ScrapeOutcome::Partial(end.facts))[0] == plain_sample("up"@, 1i64)
                &&& !has_sample(assemble_spec(ScrapeOutcome::Partial(end.facts)), "local_user_count"@)
                &&& !has_sample(assemble_spec(ScrapeOutcome::Partial(end.facts)), "global_user_count"@)
            }
        }),
{
    let secure = s.secure;
    let uptime = s.facts.uptime_seconds;
    let inv = |t: SessionView| users_unanswered(t, secure, uptime);
    assert forall|t: SessionView| inv(t) implies inv((#[trigger] t.poll()).0) by {
        crate::session::lemma_poll_wf(t);
    }
    assert forall|t: SessionView, e: EventView| inv(t) implies inv(#[trigger] t.handle(e)) by {
        crate::session::lemma_handle_wf(t, e);
    }
    // The session first hands over what is queued, then waits.
    let waiting = if s.outbox.len() > 0 {
        s.poll().0
    } else {
        s
    };
    crate::session::lemma_poll_wf(s);
    assert(run(s, events) == if s.outbox.len() > 0 {
        (run(waiting, events).0, seq![s.poll().1] + run(waiting, events).1)
    } else {
        run(waiting, events)
    });
    assert(waiting.poll() == (waiting, ActionView::Read));
    let end = run(s, events).0;
    if events.len() == 0 {
        crate::session::lemma_handle_wf(waiting, EventView::BudgetExpired);
        assert(end == waiting.handle(EventView::BudgetExpired));
        assert(inv(end));
    } else {
        let next = waiting.handle(events[0]);
        crate::session::lemma_handle_wf(waiting, events[0]);
        assert(inv(next));
        lemma_run_keeps(next, events.drop_first(), inv);
        assert(end == run(next, events.drop_first()).0);
    }
    law_run_closes(s, events);
    law_absent_fact_gives_no_sample(ScrapeOutcome::Partial(end.facts));
}

/// Two sessions that stand at the same point of the same scrape: they may
/// differ in identity and in the bytes they have queued, not in whether
/// any are queued.
pub open spec fn same_progress(s: SessionView, t: SessionView) -> bool {
    &&& s.secure == t.secure
    &&& s.state == t.state
    &&& s.asked == t.asked
    &&& s.registered == t.registered
    &&& s.cancelled == t.cancelled
    &&& s.facts == t.facts
    &&& (s.outbox.len() > 0 <==> t.outbox.len() > 0)
}

/// Sessions at the same point stay at the same point through the same
/// reports, and ask for as many actions.
pub proof fn lemma_same_progress(s: SessionView, t: SessionView, events: Seq<EventView>)
    requires
        same_progress(s, t),
    ensures
        same_progress(run(s, events).0, run(t, events).0),
        run(s, events).1.len() == run(t, events).1.len(),
    decreases events.len(), pending(s),
{
    let (s1, a) = s.poll();
    let (t1, b) = t.poll();
    assert(same_progress(s1, t1));
    match a {
        ActionView::Finish => {},
        ActionView::Send(_) => {
            lemma_same_progress(s1, t1, events);
        },
        _ => {
            if events.len() > 0 {
                let e = events[0];
                assert(handshake(s1.nick, s1.password).len() > 0);
                assert(handshake(t1.nick, t1.password).len() > 0);
                assert(same_progress(s1.handle(e), t1.handle(e)));
                lemma_same_progress(s1.handle(e), t1.handle(e), events.drop_first());
            }
        },
    }
}

/// Two scrapes over the same transport that see the same reports end the
/// same way, and so give the same samples in the same order, whichever
/// identities they drew.
pub proof fn law_same_reports_same_samples(
    secure: bool,
    nick: Seq<u8>,
    password: Option<Seq<u8>>,
    other_nick: Seq<u8>,
    other_password: Option<Seq<u8>>,
    events: Seq<EventView>,
)
    ensures
        run(SessionView::initial(secure, nick, password), events).0.outcome() == run(
            SessionView::initial(secure, other_nick, other_password),
            events,
        ).0.outcome(),
        match (
            run(SessionView::initial(secure, nick, password), events).0.outcome(),
            run(SessionView::initial(secure, other_nick, other_password), events).0.outcome(),
        ) {
            (Some(o), Some(p)) => assemble_spec(o) == assemble_spec(p),
            (None, None) => true,
            _ => false,
        },
{
    lemma_same_progress(
        SessionView::initial(secure, nick, password),
        SessionView::initial(secure, other_nick, other_password),
        events,
    );
}

/// A cancelled session asks for nothing but to close the connection and
/// gives no outcome, hence no samples, whatever is reported afterwards.
pub proof fn law_cancelled_gives_nothing(s: SessionView, events: Seq<EventView>)
    ensures
        s.handle(EventView::Cancelled).outcome() is None,
        s.handle(EventView::Cancelled).poll().1 is Finish,
        run(s.handle(EventView::Cancelled), events).1 == seq![ActionView::Finish],
        run(s.handle(EventView::Cancelled), events).0.outcome() is None,
        forall|e: EventView| (#[trigger] s.handle(EventView::Cancelled).handle(e)).outcome() is None,
{
}

/// Once cancelled, a session stays cancelled through any run.
pub proof fn law_cancelled_stays(s: SessionView, events: Seq<EventView>)
    requires
        s.cancelled,
    ensures
        run(s, events).0.outcome() is None,
{
    let inv = |t: SessionView| t.cancelled;
    assert forall|t: SessionView| inv(t) implies inv((#[trigger] t.poll()).0) by {}
    assert forall|t: SessionView, e: EventView| inv(t) implies inv(#[trigger] t.handle(e)) by {}
    lemma_run_keeps(s, events, inv);
}

/// No sample carries labels where none of the first `n` does.
pub proof fn lemma_no_labels(samples: Seq<SampleView>, n: int)
    requires
        0 <= n <= samples.len(),
        forall|i: int| 0 <= i < samples.len() ==> (#[trigger] samples[i]).labels.len() == 0,
    ensures
        first_labelled(samples.subrange(0, n)) is None,
    decreases n,
{
    if n > 0 {
        lemma_no_labels(samples, n - 1);
        assert(samples.subrange(0, n).drop_last() =~= samples.subrange(0, n - 1));
    }
}

/// What metric assembly gives carries no labels, and no two of its samples
/// share a name.
pub proof fn law_assembled_is_plain(outcome: ScrapeOutcome)
    ensures
        first_labelled(assemble_spec(outcome)) is None,
        distinct_names(assemble_spec(outcome)),
{
    lemma_names_differ();
    lemma_assembled_layout(outcome);
    let out = assemble_spec(outcome);
    lemma_no_labels(out, out.len() as int);
    assert(out.subrange(0, out.len() as int) =~= out);
}

/// A session is cancelled only by a cancellation: a run whose reports hold
/// none leaves a session that was not cancelled as it was in this respect.
pub proof fn law_cancelled_only_by_cancellation(s: SessionView, events: Seq<EventView>)
    requires
        !s.cancelled,
        forall|i: int| 0 <= i < events.len() ==> !(#[trigger] events[i] is Cancelled),
    ensures
        !run(s, events).0.cancelled,
    decreases events.len(), pending(s),
{
    let (t, action) = s.poll();
    match action {
        ActionView::Finish => {},
        ActionView::Send(_) => {
            law_cancelled_only_by_cancellation(t, events);
        },
        _ => {
            if events.len() > 0 {
                let rest = events.drop_first();
                assert forall|i: int| 0 <= i < rest.len() implies !(#[trigger] rest[i] is Cancelled) by {
                    assert(rest[i] == events[i + 1]);
                }
                law_cancelled_only_by_cancellation(t.handle(events[0]), rest);
            }
        },
    }
}

/// Every run that is not cancelled ends with an outcome, and every outcome
/// gives the liveness sample: a scrape answers with samples or not at all.
pub proof fn law_outcome_unless_cancelled(s: SessionView, events: Seq<EventView>)
    ensures
        run(s, events).0.outcome() is Some <==> !run(s, events).0.cancelled,
        run(s, events).0.outcome() is Some ==> has_sample(
            assemble_spec(run(s, events).0.outcome().unwrap()),
            "up"@,
        ),
{
    law_run_closes(s, events);
    match run(s, events).0.outcome() {
        Some(o) => {
            law_absent_fact_gives_no_sample(o);
            assert(assemble_spec(o)[0].name == "up"@);
        },
        None => {},
    }
}

/// A session that is past connecting never asks to open a connection.
pub proof fn lemma_never_reopens(s: SessionView, events: Seq<EventView>)
    requires
        !(s.state is Connecting),
    ensures
        forall|i: int| 0 <= i < run(s, events).1.len() ==> !(#[trigger] run(s, events).1[i] is Open),
    decreases events.len(), pending(s),
{
    let (t, action) = s.poll();
    match action {
        ActionView::Finish => {},
        ActionView::Send(_) => {
            lemma_never_reopens(t, events);
        },
        _ => {
            if events.len() > 0 {
                lemma_never_reopens(t.handle(events[0]), events.drop_first());
            }
        },
    }
}

/// A scrape attempts exactly one connection: its first action asks to open,
/// and no later one does, whatever is reported.
pub proof fn law_one_connection(
    secure: bool,
    nick: Seq<u8>,
    password: Option<Seq<u8>>,
    events: Seq<EventView>,
)
    ensures
        run(SessionView::initial(secure, nick, password), events).1[0] is Open,
        forall|i: int|
            1 <= i < run(SessionView::initial(secure, nick, password), events).1.len() ==> !(
            #[trigger] run(SessionView::initial(secure, nick, password), events).1[i] is Open),
{
    let s = SessionView::initial(secure, nick, password);
    assert(s.poll() == (s, ActionView::Open));
    if events.len() > 0 {
        lemma_never_reopens(s.handle(events[0]), events.drop_first());
    }
}

/// The gauges that samples amount to stand under the names of the samples
/// and under no other.
pub proof fn lemma_gauges_names(samples: Seq<SampleView>)
    ensures
        forall|n: Seq<char>| #[trigger] gauges_of(samples).dom().contains(n) <==> has_sample(samples, n),
    decreases samples.len(),
{
    if samples.len() > 0 {
        let init = samples.drop_last();
        lemma_gauges_names(init);
        let last = samples.last();
        assert(gauges_of(samples) == gauges_of(init).insert(
            last.name,
            (help_of(last.name), last.value as int),
        ));
        assert forall|n: Seq<char>| #[trigger]
            gauges_of(samples).dom().contains(n) <==> has_sample(samples, n) by {
            let before = gauges_of(init).dom().contains(n);
            assert(gauges_of(samples).dom().contains(n) <==> (n == last.name || before));
            assert(before <==> has_sample(init, n));
            if has_sample(init, n) {
                let j = choose|j: int| 0 <= j < init.len() && #[trigger] init[j].name == n;
                assert(samples[j].name == n);
                assert(has_sample(samples, n));
            }
            if n == last.name {
                assert(samples[samples.len() - 1].name == n);
                assert(has_sample(samples, n));
            }
            if has_sample(samples, n) {
                let j = choose|j: int| 0 <= j < samples.len() && #[trigger] samples[j].name == n;
                if j < init.len() {
                    assert(init[j].name == n);
                    assert(has_sample(init, n));
                } else {
                    assert(n == last.name);
                }
            }
        }
    }
}

/// Every valid name has a help text that is not empty.
pub proof fn lemma_help_has_text(name: Seq<char>)
    requires
        name.len() > 0,
    ensures
        has_text(help_of(name)),
{
    reveal_strlit("server is up");
    reveal_strlit("server uptime");
    reveal_strlit("number of global users");
    reveal_strlit("number of local users");
    reveal_strlit("server tls expiration");
}

/// Samples can be rendered exactly where none carries labels, every name
/// is valid and no two are filed under the same identifier.
pub proof fn law_renders_exactly(samples: Seq<SampleView>)
    ensures
        renders(samples) <==> plain_valid_distinct(samples),
    decreases samples.len(),
{
    if samples.len() > 0 {
        let init = samples.drop_last();
        let last = samples.last();
        law_renders_exactly(init);
        lemma_gauges_names(init);
        if last.name.len() > 0 {
            lemma_help_has_text(last.name);
        }
        let fresh = forall|j: int|
            0 <= j < init.len() ==> descriptor_id(#[trigger] init[j].name) != descriptor_id(last.name);
        assert(holds_id(gauges_of(init), descriptor_id(last.name)) <==> !fresh) by {
            if holds_id(gauges_of(init), descriptor_id(last.name)) {
                let n = choose|n: Seq<char>|
                    gauges_of(init).dom().contains(n) && #[trigger] descriptor_id(n) == descriptor_id(
                        last.name,
                    );
                assert(has_sample(init, n));
                let j = choose|j: int| 0 <= j < init.len() && #[trigger] init[j].name == n;
                assert(descriptor_id(init[j].name) == descriptor_id(last.name));
            }
            if !fresh {
                let j = choose|j: int|
                    0 <= j < init.len() && descriptor_id(#[trigger] init[j].name) == descriptor_id(
                        last.name,
                    );
                assert(has_sample(init, init[j].name));
                assert(gauges_of(init).dom().contains(init[j].name));
            }
        }
        assert(renders(samples) <==> renders(init) && last.labels.len() == 0 && registry_takes(
            gauges_of(init),
            last.name,
            help_of(last.name),
        ));
        assert(plain_valid_distinct(samples) <==> plain_valid_distinct(init) && last.labels.len() == 0
            && valid_metric_name(last.name) && fresh) by {
            if plain_valid_distinct(samples) {
                assert forall|k: int| 0 <= k < init.len() implies (#[trigger] init[k]).labels.len() == 0
                    && valid_metric_name(init[k].name) by {
                    assert(init[k] == samples[k]);
                }
                assert forall|i: int, j: int| 0 <= i < j < init.len() implies descriptor_id(
                    init[i].name,
                ) != descriptor_id(init[j].name) by {
                    assert(init[i] == samples[i] && init[j] == samples[j]);
                }
                assert(samples[samples.len() - 1] == last);
                assert forall|j: int| 0 <= j < init.len() implies descriptor_id(
                    #[trigger] init[j].name,
                ) != descriptor_id(last.name) by {
                    assert(init[j] == samples[j]);
                }
            }
            if plain_valid_distinct(init) && last.labels.len() == 0 && valid_metric_name(last.name)
                && fresh {
                assert forall|k: int| 0 <= k < samples.len() implies (#[trigger] samples[k]).labels.len()
                    == 0 && valid_metric_name(samples[k].name) by {
                    if k < init.len() {
                        assert(init[k] == samples[k]);
                    }
                }
                assert forall|i: int, j: int| 0 <= i < j < samples.len() implies descriptor_id(
                    samples[i].name,
                ) != descriptor_id(samples[j].name) by {
                    assert(init[i] == samples[i]);
                    if j < init.len() {
                        assert(init[j] == samples[j]);
                    }
                }
            }
        }
    }
}

/// The names that metric assembly uses are valid metric names.
pub proof fn lemma_fact_names_valid()
    ensures
        valid_metric_name("up"@),
        valid_metric_name("uptime_seconds"@),
        valid_metric_name("global_user_count"@),
        valid_metric_name("local_user_count"@),
        valid_metric_name("tls_cert_expiration_epoch"@),
{
    reveal_strlit("up");
    reveal_strlit("uptime_seconds");
    reveal_strlit("global_user_count");
    reveal_strlit("local_user_count");
    reveal_strlit("tls_cert_expiration_epoch");
}

/// What metric assembly gives can be rendered exactly where no two of its
/// names are filed under the same identifier: its names are valid and it
/// carries no labels.
pub proof fn law_assembled_renders(outcome: ScrapeOutcome)
    ensures
        renders(assemble_spec(outcome)) <==> distinct_ids(assemble_spec(outcome)),
{
    lemma_fact_names_valid();
    lemma_assembled_layout(outcome);
    law_renders_exactly(assemble_spec(outcome));
}

} // verus!
