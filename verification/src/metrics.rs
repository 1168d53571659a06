//! Metric assembly: from the outcome of a scrape to the ordered samples that
//! an exposition encoder takes.

use vstd::prelude::*;
use vstd::string::*;
use crate::outcome::{Facts, ScrapeOutcome};

verus! {

/// One named value. Samples made here carry no labels.
#[derive(Clone, Debug, PartialEq, Eq)]
pub struct MetricSample {
    pub name: String,
    pub value: i64,
    pub labels: Vec<(String, String)>,
}

/// Mathematical value of a [`MetricSample`].
pub struct SampleView {
    pub name: Seq<char>,
    pub value: i64,
    pub labels: Seq<(Seq<char>, Seq<char>)>,
}

impl View for MetricSample {
    type V = SampleView;

    open spec fn view(&self) -> SampleView {
        SampleView {
            name: self.name@,
            value: self.value,
            labels: Seq::new(self.labels@.len(), |i: int| (self.labels@[i].0@, self.labels@[i].1@)),
        }
    }
}

/// The samples of a vector, each by its view.
pub open spec fn samples_view(v: Seq<MetricSample>) -> Seq<SampleView> {
    Seq::new(v.len(), |i: int| v[i]@)
}

/// An unlabelled sample.
pub open spec fn plain_sample(name: Seq<char>, value: i64) -> SampleView {
    SampleView { name, value, labels: Seq::empty() }
}

/// The sample of one fact: one where the fact is present, none where it is
/// absent.
pub open spec fn fact_sample(name: Seq<char>, fact: Option<i64>) -> Seq<SampleView> {
    match fact {
        Some(v) => seq![plain_sample(name, v)],
        None => Seq::empty(),
    }
}

/// The liveness sample followed by one sample per present fact, in the
/// fixed order of the facts.
pub open spec fn assemble_spec(outcome: ScrapeOutcome) -> Seq<SampleView> {
    let f = outcome.facts();
    seq![plain_sample("up"@, if outcome.is_up() { 1i64 } else { 0i64 })]
        + fact_sample("uptime_seconds"@, f.uptime_seconds)
        + fact_sample("global_user_count"@, f.global_user_count)
        + fact_sample("local_user_count"@, f.local_user_count)
        + fact_sample("tls_cert_expiration_epoch"@, f.tls_cert_expiration_epoch)
}

/// Whether some sample carries the given name.
pub open spec fn has_sample(samples: Seq<SampleView>, name: Seq<char>) -> bool {
    exists|i: int| 0 <= i < samples.len() && #[trigger] samples[i].name == name
}

fn push_fact(out: &mut Vec<MetricSample>, name: &str, fact: Option<i64>)
    ensures
        samples_view(final(out)@) == samples_view(old(out)@) + fact_sample(name@, fact),
{
    match fact {
        Some(v) => {
            let sample = MetricSample { name: String::from_str(name), value: v, labels: Vec::new() };
            proof {
                assert(sample@.labels =~= Seq::empty());
            }
            out.push(sample);
            proof {
                assert(samples_view(out@) =~= samples_view(old(out)@) + fact_sample(name@, fact));
            }
        },
        None => {
            proof {
                assert(samples_view(out@) =~= samples_view(old(out)@) + fact_sample(name@, fact));
            }
        },
    }
}

/// Turns an outcome into samples: `up` first, 1 where registration
/// completed and 0 where it did not, then each present fact under its own
/// name, in the fixed order of the facts. An absent fact gives no sample.
pub fn assemble(outcome: &ScrapeOutcome) -> (out: Vec<MetricSample>)
    ensures
        samples_view(out@) == assemble_spec(*outcome),
{
    let (up, facts): (i64, Facts) = match outcome {
        ScrapeOutcome::Unreachable => (0, Facts::empty()),
        ScrapeOutcome::HandshakeFailed => (0, Facts::empty()),
        ScrapeOutcome::Partial(f) => (1, *f),
        ScrapeOutcome::Complete(f) => (1, *f),
    };
    let mut out: Vec<MetricSample> = Vec::new();
    proof {
        assert(samples_view(out@) =~= Seq::empty());
    }
    push_fact(&mut out, "up", Some(up));
    proof {
        assert(samples_view(out@) =~= seq![plain_sample("up"@, up)]);
    }
    push_fact(&mut out, "uptime_seconds", facts.uptime_seconds);
    push_fact(&mut out, "global_user_count", facts.global_user_count);
    push_fact(&mut out, "local_user_count", facts.local_user_count);
    push_fact(&mut out, "tls_cert_expiration_epoch", facts.tls_cert_expiration_epoch);
    out
}

} // verus!
