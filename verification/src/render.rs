//! Exposition: the samples of one scrape, registered as gauges in a registry
//! of their own and encoded in the text format.

use vstd::prelude::*;
use vstd::string::*;
use crate::metrics::{samples_view, MetricSample, SampleView};

verus! {

/// `prometheus::Registry`, carried through as an opaque value: what it
/// holds is spoken of through [`registry_gauges`] alone.
#[verifier::external_type_specification]
#[verifier::external_body]
pub struct ExRegistry(prometheus::Registry);

/// `prometheus::Error`, carried through as an opaque value and mapped to
/// [`RenderError`].
#[verifier::external_type_specification]
#[verifier::external_body]
pub struct ExRegistryError(prometheus::Error);

/// The gauges a registry holds: for each name, the help text and the value.
pub uninterp spec fn registry_gauges(r: prometheus::Registry) -> Map<Seq<char>, (Seq<char>, int)>;

/// The text exposition of a set of gauges.
pub uninterp spec fn exposition(gauges: Map<Seq<char>, (Seq<char>, int)>) -> Seq<u8>;

/// The identifier under which a registry files an unlabelled gauge: a hash
/// of its name, so two names may share one.
pub uninterp spec fn descriptor_id(name: Seq<char>) -> u64;

/// A character that may open a metric name: an ASCII letter, `_` or `:`.
pub open spec fn opens_name(c: char) -> bool {
    let n = c as u32;
    (65 <= n && n <= 90) || (97 <= n && n <= 122) || n == 95 || n == 58
}

/// A character that may follow in a metric name: one that may open it, or
/// an ASCII digit.
pub open spec fn continues_name(c: char) -> bool {
    opens_name(c) || (48 <= c as u32 && c as u32 <= 57)
}

/// A name that a gauge can carry.
pub open spec fn valid_metric_name(name: Seq<char>) -> bool {
    name.len() > 0 && opens_name(name[0]) && forall|i: int|
        0 < i < name.len() ==> continues_name(#[trigger] name[i])
}

/// Whether one of the gauges is filed under this identifier.
pub open spec fn holds_id(gauges: Map<Seq<char>, (Seq<char>, int)>, id: u64) -> bool {
    exists|n: Seq<char>| gauges.dom().contains(n) && #[trigger] descriptor_id(n) == id
}

/// A text that is not empty.
pub open spec fn has_text(text: Seq<char>) -> bool {
    text.len() > 0
}

/// Whether a registry that holds `gauges` takes one more gauge: the name
/// must be valid, the help text not empty, and the identifier of the name
/// not yet held.
pub open spec fn registry_takes(gauges: Map<Seq<char>, (Seq<char>, int)>, name: Seq<char>, help: Seq<char>) -> bool {
    valid_metric_name(name) && has_text(help) && !holds_id(gauges, descriptor_id(name))
}

/// No gauge at all.
pub open spec fn no_gauges() -> Map<Seq<char>, (Seq<char>, int)> {
    Map::empty()
}

/// Why samples could not be rendered.
#[derive(Clone, Copy, Debug, PartialEq, Eq)]
pub enum RenderError {
    /// The sample at this index carries labels; only plain samples are
    /// rendered.
    Labelled(usize),
    /// The registry refused the sample at this index: its name is not
    /// valid, or its identifier is that of an earlier sample.
    Refused(usize),
}

/// The help text that goes with a sample name: a fixed text for each name
/// that metric assembly uses, the name itself for any other.
pub open spec fn help_of(name: Seq<char>) -> Seq<char> {
    if name == "up"@ {
        "server is up"@
    } else if name == "uptime_seconds"@ {
        "server uptime"@
    } else if name == "global_user_count"@ {
        "number of global users"@
    } else if name == "local_user_count"@ {
        "number of local users"@
    } else if name == "tls_cert_expiration_epoch"@ {
        "server tls expiration"@
    } else {
        name
    }
}

/// The gauges that samples amount to, each under its name.
pub open spec fn gauges_of(samples: Seq<SampleView>) -> Map<Seq<char>, (Seq<char>, int)>
    decreases samples.len(),
{
    if samples.len() == 0 {
        Map::empty()
    } else {
        gauges_of(samples.drop_last()).insert(
            samples.last().name,
            (help_of(samples.last().name), samples.last().value as int),
        )
    }
}

/// No two samples share a name.
pub open spec fn distinct_names(samples: Seq<SampleView>) -> bool {
    forall|i: int, j: int| 0 <= i < j < samples.len() ==> samples[i].name != samples[j].name
}

/// No two samples are filed under the same identifier.
pub open spec fn distinct_ids(samples: Seq<SampleView>) -> bool {
    forall|i: int, j: int|
        0 <= i < j < samples.len() ==> descriptor_id(samples[i].name) != descriptor_id(samples[j].name)
}

/// No sample carries labels, every name is valid, and no two samples are
/// filed under the same identifier.
pub open spec fn plain_valid_distinct(samples: Seq<SampleView>) -> bool {
    &&& forall|k: int|
        0 <= k < samples.len() ==> (#[trigger] samples[k]).labels.len() == 0 && valid_metric_name(
            samples[k].name,
        )
    &&& distinct_ids(samples)
}

/// The index of the first sample that carries labels.
pub open spec fn first_labelled(samples: Seq<SampleView>) -> Option<int>
    decreases samples.len(),
{
    if samples.len() == 0 {
        None
    } else {
        match first_labelled(samples.drop_last()) {
            Some(i) => Some(i),
            None => if samples.last().labels.len() > 0 {
                Some(samples.len() - 1)
            } else {
                None
            },
        }
    }
}

/// The index of the first sample that the registry refuses, given that it
/// took every sample before it.
pub open spec fn first_refused(samples: Seq<SampleView>) -> Option<int>
    decreases samples.len(),
{
    if samples.len() == 0 {
        None
    } else {
        match first_refused(samples.drop_last()) {
            Some(i) => Some(i),
            None => if registry_takes(
                gauges_of(samples.drop_last()),
                samples.last().name,
                help_of(samples.last().name),
            ) {
                None
            } else {
                Some(samples.len() - 1)
            },
        }
    }
}

/// Whether samples can be rendered: none carries labels and the registry
/// takes each in turn.
pub open spec fn renders(samples: Seq<SampleView>) -> bool {
    first_labelled(samples) is None && first_refused(samples) is None
}

/// Calls `prometheus::Registry::new`. Trusted: a new registry holds no
/// gauge.
#[verifier::external_body]
fn new_registry() -> (reg: prometheus::Registry)
    ensures
        registry_gauges(reg) == no_gauges(),
{
    prometheus::Registry::new()
}

/// Makes a gauge with `prometheus::IntGauge::new`, gives it its value with
/// `set` and hands it to `prometheus::Registry::register`, on a registry
/// that came from [`new_registry`] and was filled by this function alone.
/// Trusted: the gauge is made where the name is valid and the help text is
/// not empty, and the registry takes it where it holds no gauge under the
/// identifier of the name; it then holds the gauge besides what it held.
/// Where either refuses, the registry holds what it held.
#[verifier::external_body]
fn register_gauge(reg: &mut prometheus::Registry, name: &str, help: &str, value: i64) -> (out: Result<
    (),
    prometheus::Error,
>)
    ensures
        (out is Ok) == (valid_metric_name(name@) && has_text(help@) && !holds_id(
            registry_gauges(*old(reg)),
            descriptor_id(name@),
        )),
        out is Ok ==> registry_gauges(*final(reg)) == registry_gauges(*old(reg)).insert(
            name@,
            (help@, value as int),
        ),
        out is Err ==> registry_gauges(*final(reg)) == registry_gauges(*old(reg)),
{
    let gauge = prometheus::IntGauge::new(name, help)?;
    gauge.set(value);
    reg.register(Box::new(gauge))
}

/// Gathers the registry with `prometheus::Registry::gather` and encodes the
/// result with `prometheus::TextEncoder`, into memory, for a registry that
/// came from [`new_registry`] and was filled by [`register_gauge`] alone.
/// Trusted: the call succeeds, and the bytes are the text exposition of the
/// gauges that the registry holds, a function of those gauges alone.
#[verifier::external_body]
fn encode_registry(reg: &prometheus::Registry) -> (out: Result<Vec<u8>, prometheus::Error>)
    ensures
        out is Ok,
        out.unwrap()@ == exposition(registry_gauges(*reg)),
{
    let mut buffer = Vec::new();
    prometheus::Encoder::encode(&prometheus::TextEncoder::new(), &reg.gather(), &mut buffer)?;
    Ok(buffer)
}

/// The help text that goes with a sample name.
pub fn help_text(name: &String) -> (help: String)
    ensures
        help@ == help_of(name@),
{
    if *name == String::from_str("up") {
        String::from_str("server is up")
    } else if *name == String::from_str("uptime_seconds") {
        String::from_str("server uptime")
    } else if *name == String::from_str("global_user_count") {
        String::from_str("number of global users")
    } else if *name == String::from_str("local_user_count") {
        String::from_str("number of local users")
    } else if *name == String::from_str("tls_cert_expiration_epoch") {
        String::from_str("server tls expiration")
    } else {
        name.clone()
    }
}

/// Finds the first sample that carries labels.
pub fn find_labelled(samples: &Vec<MetricSample>) -> (out: Option<usize>)
    ensures
        match out {
            Some(k) => first_labelled(samples_view(samples@)) == Some(k as int) && k < samples.len(),
            None => first_labelled(samples_view(samples@)) is None,
        },
{
    let ghost all = samples_view(samples@);
    let mut i: usize = 0;
    while i < samples.len()
        invariant
            i <= samples.len(),
            all == samples_view(samples@),
            first_labelled(all.subrange(0, i as int)) is None,
        decreases samples.len() - i,
    {
        proof {
            assert(all.subrange(0, i + 1).drop_last() =~= all.subrange(0, i as int));
            assert(all.subrange(0, i + 1).last() == samples@[i as int]@);
        }
        if samples[i].labels.len() > 0 {
            proof {
                lemma_first_labelled_prefix(all, i + 1);
            }
            return Some(i);
        }
        i += 1;
    }
    proof {
        assert(all.subrange(0, i as int) =~= all);
    }
    None
}

/// The first labelled sample of a prefix is the first of the whole.
pub proof fn lemma_first_labelled_prefix(samples: Seq<SampleView>, n: int)
    requires
        0 <= n <= samples.len(),
        first_labelled(samples.subrange(0, n)) is Some,
    ensures
        first_labelled(samples) == first_labelled(samples.subrange(0, n)),
    decreases samples.len() - n,
{
    if n < samples.len() {
        assert(samples.subrange(0, n + 1).drop_last() =~= samples.subrange(0, n));
        lemma_first_labelled_prefix(samples, n + 1);
    } else {
        assert(samples.subrange(0, n) =~= samples);
    }
}

/// The first refused sample of a prefix is the first of the whole.
pub proof fn lemma_first_refused_prefix(samples: Seq<SampleView>, n: int)
    requires
        0 <= n <= samples.len(),
        first_refused(samples.subrange(0, n)) is Some,
    ensures
        first_refused(samples) == first_refused(samples.subrange(0, n)),
    decreases samples.len() - n,
{
    if n < samples.len() {
        assert(samples.subrange(0, n + 1).drop_last() =~= samples.subrange(0, n));
        lemma_first_refused_prefix(samples, n + 1);
    } else {
        assert(samples.subrange(0, n) =~= samples);
    }
}

/// Renders samples in the text exposition format. A sample that carries
/// labels is refused before anything is registered, the first such by its
/// index. Else each sample becomes a gauge under its name, in order, and
/// the first that the registry does not take is refused by its index.
/// Where every sample is taken, the names are distinct and the bytes are
/// the exposition of the gauges.
pub fn render(samples: &Vec<MetricSample>) -> (out: Result<Vec<u8>, RenderError>)
    ensures
        out is Ok <==> renders(samples_view(samples@)),
        match out {
            Ok(bytes) => distinct_names(samples_view(samples@)) && bytes@ == exposition(
                gauges_of(samples_view(samples@)),
            ),
            Err(RenderError::Labelled(k)) => first_labelled(samples_view(samples@)) == Some(k as int),
            Err(RenderError::Refused(k)) => first_labelled(samples_view(samples@)) is None
                && first_refused(samples_view(samples@)) == Some(k as int),
        },
{
    match find_labelled(samples) {
        Some(i) => {
            return Err(RenderError::Labelled(i));
        },
        None => {},
    }
    let ghost all = samples_view(samples@);
    let mut reg = new_registry();
    let mut i: usize = 0;
    while i < samples.len()
        invariant
            i <= samples.len(),
            all == samples_view(samples@),
            first_labelled(all) is None,
            first_refused(all.subrange(0, i as int)) is None,
            registry_gauges(reg) == gauges_of(all.subrange(0, i as int)),
            distinct_names(all.subrange(0, i as int)),
            forall|k: int| 0 <= k < i ==> registry_gauges(reg).dom().contains(#[trigger] all[k].name),
        decreases samples.len() - i,
    {
        let help = help_text(&samples[i].name);
        let ghost seen = all.subrange(0, i as int);
        let ghost next = all.subrange(0, i + 1);
        proof {
            assert(next.drop_last() =~= seen);
            assert(next.last() == samples@[i as int]@);
        }
        match register_gauge(&mut reg, samples[i].name.as_str(), help.as_str(), samples[i].value) {
            Ok(_) => {},
            Err(_) => {
                proof {
                    assert(first_refused(next) == Some(i as int));
                    lemma_first_refused_prefix(all, i + 1);
                }
                return Err(RenderError::Refused(i));
            },
        }
        proof {
            assert(!gauges_of(seen).dom().contains(all[i as int].name)) by {
                if gauges_of(seen).dom().contains(all[i as int].name) {
                    assert(holds_id(gauges_of(seen), descriptor_id(all[i as int].name)));
                }
            }
            assert forall|a: int, b: int| 0 <= a < b < next.len() implies (#[trigger] next[a]).name != (
            #[trigger] next[b]).name by {
                if b < i {
                    assert(seen[a].name != seen[b].name);
                } else {
                    assert(all[a].name != all[i as int].name);
                }
            }
        }
        i += 1;
    }
    proof {
        assert(all.subrange(0, i as int) =~= all);
    }
    Ok(encode_registry(&reg).unwrap())
}

} // verus!
