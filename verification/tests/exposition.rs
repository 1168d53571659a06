use promirc::metrics::{assemble, MetricSample};
use promirc::outcome::{Facts, ScrapeOutcome};
use promirc::render::{find_labelled, help_text, render, RenderError};

fn sample(name: &str, value: i64) -> MetricSample {
    MetricSample { name: name.to_string(), value, labels: Vec::new() }
}

fn labelled(name: &str) -> MetricSample {
    MetricSample { name: name.to_string(), value: 1, labels: vec![("k".to_string(), "v".to_string())] }
}

#[test]
fn absent_facts_give_no_sample() {
    let facts = Facts {
        uptime_seconds: None,
        global_user_count: Some(0),
        local_user_count: None,
        tls_cert_expiration_epoch: Some(1900000000),
    };
    assert_eq!(
        assemble(&ScrapeOutcome::Partial(facts)),
        vec![sample("up", 1), sample("global_user_count", 0), sample("tls_cert_expiration_epoch", 1900000000)]
    );
}

#[test]
fn down_outcomes_give_up_zero_alone() {
    assert_eq!(assemble(&ScrapeOutcome::Unreachable), vec![sample("up", 0)]);
    assert_eq!(assemble(&ScrapeOutcome::HandshakeFailed), vec![sample("up", 0)]);
}

#[test]
fn samples_come_in_the_order_of_the_facts() {
    let facts = Facts {
        uptime_seconds: Some(4),
        global_user_count: Some(3),
        local_user_count: Some(2),
        tls_cert_expiration_epoch: Some(1),
    };
    let names: Vec<String> = assemble(&ScrapeOutcome::Complete(facts)).into_iter().map(|s| s.name).collect();
    assert_eq!(names, vec!["up", "uptime_seconds", "global_user_count", "local_user_count", "tls_cert_expiration_epoch"]);
}

#[test]
fn rendering_gives_the_text_exposition() {
    let facts = Facts {
        uptime_seconds: Some(86401),
        global_user_count: Some(12),
        local_user_count: Some(5),
        tls_cert_expiration_epoch: None,
    };
    let text = String::from_utf8(render(&assemble(&ScrapeOutcome::Complete(facts))).unwrap()).unwrap();
    let expected = "# HELP global_user_count number of global users\n\
# TYPE global_user_count gauge\n\
global_user_count 12\n\
# HELP local_user_count number of local users\n\
# TYPE local_user_count gauge\n\
local_user_count 5\n\
# HELP up server is up\n\
# TYPE up gauge\n\
up 1\n\
# HELP uptime_seconds server uptime\n\
# TYPE uptime_seconds gauge\n\
uptime_seconds 86401\n";
    assert_eq!(text, expected);
}

#[test]
fn rendering_an_unreachable_server() {
    let text = String::from_utf8(render(&assemble(&ScrapeOutcome::Unreachable)).unwrap()).unwrap();
    assert_eq!(text, "# HELP up server is up\n# TYPE up gauge\nup 0\n");
}

#[test]
fn rendering_the_certificate_expiration() {
    let facts = Facts {
        uptime_seconds: None,
        global_user_count: None,
        local_user_count: None,
        tls_cert_expiration_epoch: Some(1900000000),
    };
    let text = String::from_utf8(render(&assemble(&ScrapeOutcome::Partial(facts))).unwrap()).unwrap();
    assert_eq!(
        text,
        "# HELP tls_cert_expiration_epoch server tls expiration\n# TYPE tls_cert_expiration_epoch gauge\ntls_cert_expiration_epoch 1900000000\n# HELP up server is up\n# TYPE up gauge\nup 1\n"
    );
}

#[test]
fn every_outcome_can_be_rendered() {
    let all = Facts {
        uptime_seconds: Some(1),
        global_user_count: Some(2),
        local_user_count: Some(3),
        tls_cert_expiration_epoch: Some(4),
    };
    let text = String::from_utf8(render(&assemble(&ScrapeOutcome::Complete(all))).unwrap()).unwrap();
    assert_eq!(text.lines().filter(|l| !l.starts_with('#')).count(), 5);
    assert!(text.contains("\nup 1\n"));
    assert!(text.contains("\ntls_cert_expiration_epoch 4\n"));
    assert!(render(&assemble(&ScrapeOutcome::Partial(Facts::empty()))).is_ok());
    assert!(render(&assemble(&ScrapeOutcome::HandshakeFailed)).is_ok());
}

#[test]
fn valid_names_are_letters_digits_underscore_and_colon() {
    assert!(render(&vec![sample("a:b_c9", 1), sample("_x", 2), sample(":y", 3), sample("Z", 4)]).is_ok());
    assert_eq!(render(&vec![sample("9a", 1)]), Err(RenderError::Refused(0)));
    assert_eq!(render(&vec![sample("a-b", 1)]), Err(RenderError::Refused(0)));
    assert_eq!(render(&vec![sample("a", 1), sample("\u{e9}t\u{e9}", 1)]), Err(RenderError::Refused(1)));
}

#[test]
fn rendering_nothing_gives_nothing() {
    assert_eq!(render(&Vec::new()), Ok(Vec::new()));
}

#[test]
fn rendering_is_the_same_each_time() {
    let samples = assemble(&ScrapeOutcome::Partial(Facts::empty()));
    assert_eq!(render(&samples), render(&samples));
}

#[test]
fn labelled_sample_is_refused_by_its_index() {
    assert_eq!(render(&vec![sample("a", 1), labelled("b"), labelled("c")]), Err(RenderError::Labelled(1)));
    assert_eq!(find_labelled(&vec![sample("a", 1), labelled("b"), labelled("c")]), Some(1));
    assert_eq!(find_labelled(&vec![labelled("a")]), Some(0));
    assert_eq!(find_labelled(&vec![sample("a", 1)]), None);
    assert_eq!(find_labelled(&Vec::new()), None);
}

#[test]
fn registry_refuses_a_repeated_or_invalid_name() {
    assert_eq!(render(&vec![sample("a", 1), sample("b", 2), sample("a", 3)]), Err(RenderError::Refused(2)));
    assert_eq!(render(&vec![sample("not a name", 1)]), Err(RenderError::Refused(0)));
    assert_eq!(render(&vec![sample("ok", 1), sample("", 1)]), Err(RenderError::Refused(1)));
}

#[test]
fn unknown_name_is_its_own_help() {
    assert_eq!(help_text(&"up".to_string()), "server is up");
    assert_eq!(help_text(&"uptime_seconds".to_string()), "server uptime");
    assert_eq!(help_text(&"global_user_count".to_string()), "number of global users");
    assert_eq!(help_text(&"local_user_count".to_string()), "number of local users");
    assert_eq!(help_text(&"tls_cert_expiration_epoch".to_string()), "server tls expiration");
    assert_eq!(help_text(&"queue_depth".to_string()), "queue_depth");
    let text = String::from_utf8(render(&vec![sample("queue_depth", -3)]).unwrap()).unwrap();
    assert_eq!(text, "# HELP queue_depth queue_depth\n# TYPE queue_depth gauge\nqueue_depth -3\n");
}
