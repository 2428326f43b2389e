//! The prometheus counters the proxy exports, seen through the calls it makes
//! on them. Everything in this file is trusted: each item states what the
//! prometheus source (0.13) shows of the call it wraps.

use vstd::prelude::*;

verus! {

/// prometheus's error type, carried through as it is.
#[verifier::external_type_specification]
#[verifier::external_body]
pub struct ExPrometheusError(prometheus::Error);

/// The options a metric is made from; its fields are public in prometheus.
#[verifier::external_type_specification]
pub struct ExPrometheusOpts(prometheus::Opts);

/// A prometheus `CounterVec`: a family of counters under one name, with one
/// series for each label value met so far. (Its declaration through the type
/// itself is out of reach: the builder type in its path is private to
/// prometheus, so the family is held here behind a field Verus does not see.)
#[verifier::external_body]
pub struct CounterFamily {
    inner: prometheus::CounterVec,
}

/// One series of a `CounterFamily`: a prometheus `Counter`, which shares its
/// value with the series it was taken from.
#[verifier::external_body]
pub struct SeriesCounter {
    pub inner: prometheus::Counter,
}

/// The series a counter family holds, each filed under the key prometheus
/// computes from its label values.
pub uninterp spec fn family_series(family: CounterFamily) -> Set<u64>;

/// What a counter family was made with: its fully qualified name, its help
/// text and the names of its variable labels.
pub uninterp spec fn family_descriptor(family: CounterFamily) -> (Seq<char>, Seq<char>, Seq<Seq<char>>);

/// Whether the family has been added to prometheus's default registry
/// (`register_family` succeeded on it): the registry holds a clone of it,
/// which shares its series. Nothing in this library takes a family out of
/// the registry again.
pub uninterp spec fn family_registered(family: CounterFamily) -> bool;

/// How many times one was added to each series of the family by
/// `count_in_series`. Where nothing else adds to a series, this is its
/// value (prometheus keeps it as a float, which counts whole numbers
/// exactly up to 2^53).
pub uninterp spec fn family_counts(family: CounterFamily) -> Map<u64, nat>;

/// The key of the series a counter handle adds to.
pub uninterp spec fn series_key_of(series: SeriesCounter) -> u64;

/// The descriptor (name, help text, labels) of the family whose series a
/// counter handle adds to.
pub uninterp spec fn series_family(series: SeriesCounter) -> (Seq<char>, Seq<char>, Seq<Seq<char>>);

/// The count of the series `key` in `counts`: none counted means zero.
pub open spec fn count_of(counts: Map<u64, nat>, key: u64) -> nat {
    if counts.contains_key(key) {
        counts[key]
    } else {
        0
    }
}

/// `counts` with one more counted for the series `key`.
pub open spec fn counted_once(counts: Map<u64, nat>, key: u64) -> Map<u64, nat> {
    counts.insert(key, count_of(counts, key) + 1)
}

/// The key under which prometheus files the series for a list of label
/// values (a hash of their bytes).
pub uninterp spec fn label_values_key(values: Seq<Seq<char>>) -> u64;

/// `[a-zA-Z_:]`, the characters a metric name may start with.
pub open spec fn is_metric_name_start(c: char) -> bool {
    ('a' <= c && c <= 'z') || ('A' <= c && c <= 'Z') || c == '_' || c == ':'
}

/// `[a-zA-Z_]`, the characters a label name may start with.
pub open spec fn is_label_name_start(c: char) -> bool {
    ('a' <= c && c <= 'z') || ('A' <= c && c <= 'Z') || c == '_'
}

/// A metric name as prometheus accepts it: `[a-zA-Z_:][a-zA-Z0-9_:]*`.
pub open spec fn valid_metric_name(s: Seq<char>) -> bool {
    &&& s.len() > 0
    &&& is_metric_name_start(s[0])
    &&& forall|k: int| 0 < k < s.len() ==> is_metric_name_start(#[trigger] s[k]) || ('0' <= s[k] && s[k] <= '9')
}

/// A label name as prometheus accepts it: `[a-zA-Z_][a-zA-Z0-9_]*`.
pub open spec fn valid_label_name(s: Seq<char>) -> bool {
    &&& s.len() > 0
    &&& is_label_name_start(s[0])
    &&& forall|k: int| 0 < k < s.len() ==> is_label_name_start(#[trigger] s[k]) || ('0' <= s[k] && s[k] <= '9')
}

/// The fully qualified name prometheus builds from namespace, subsystem and
/// name, joining the non-empty parts with `_`.
pub open spec fn fq_name(namespace: Seq<char>, subsystem: Seq<char>, name: Seq<char>) -> Seq<char> {
    if name.len() == 0 {
        name
    } else if namespace.len() != 0 && subsystem.len() != 0 {
        namespace + seq!['_'] + subsystem + seq!['_'] + name
    } else if namespace.len() != 0 {
        namespace + seq!['_'] + name
    } else if subsystem.len() != 0 {
        subsystem + seq!['_'] + name
    } else {
        name
    }
}

/// The fully qualified name of a metric made from `opts`.
pub open spec fn opts_fq_name(opts: prometheus::Opts) -> Seq<char> {
    fq_name(opts.namespace@, opts.subsystem@, opts.name@)
}

/// Whether prometheus accepts the descriptor of a counter family made from
/// `opts` with the one variable label `label`: a help text, a valid name,
/// valid constant label names and a valid variable label name.
pub open spec fn family_accepted(opts: prometheus::Opts, label: Seq<char>) -> bool {
    &&& opts.help@.len() > 0
    &&& valid_metric_name(opts_fq_name(opts))
    &&& forall|k: String| #[trigger] opts.const_labels@.contains_key(k) ==> valid_label_name(k@)
    &&& valid_label_name(label)
}

/// `prometheus::Opts::new(name, help)`: options with that name and help
/// text and nothing else set.
#[verifier::external_body]
pub(crate) fn new_opts(name: &str, help: &str) -> (res: prometheus::Opts)
    ensures
        res.namespace@ == Seq::<char>::empty(),
        res.subsystem@ == Seq::<char>::empty(),
        res.name@ == name@,
        res.help@ == help@,
        res.const_labels@.dom() == Set::<String>::empty(),
        res.variable_labels@ == Seq::<String>::empty(),
{
    prometheus::Opts::new(name, help)
}

/// `prometheus::Opts::namespace`: the same options with the namespace set.
#[verifier::external_body]
pub(crate) fn opts_in_namespace(opts: prometheus::Opts, namespace: &str) -> (res: prometheus::Opts)
    ensures
        res.namespace@ == namespace@,
        res.subsystem == opts.subsystem,
        res.name == opts.name,
        res.help == opts.help,
        res.const_labels == opts.const_labels,
        res.variable_labels == opts.variable_labels,
{
    opts.namespace(namespace)
}

/// `prometheus::CounterVec::new(opts, &[label])`: it succeeds exactly when
/// the descriptor is valid (`Desc::new`), and the new family has no series
/// yet, the name and help text `opts` give and the one variable label
/// `label`.
#[verifier::external_body]
pub(crate) fn new_counter_family(opts: prometheus::Opts, label: &str) -> (res: Result<CounterFamily, prometheus::Error>)
    ensures
        res is Ok <==> family_accepted(opts, label@),
        res matches Ok(family) ==> {
            &&& family_series(family) == Set::<u64>::empty()
            &&& family_descriptor(family) == (opts_fq_name(opts), opts.help@, seq![label@])
            &&& family_counts(family) == Map::<u64, nat>::empty()
            &&& !family_registered(family)
        },
{
    match prometheus::CounterVec::new(opts, &[label]) {
        Ok(inner) => Ok(CounterFamily { inner }),
        Err(e) => Err(e),
    }
}

/// `CounterVec::with_label_values(&[label])`: the family's own series for
/// `label` (taken from the family's table of series), made if it did not
/// exist, handed out to the caller. prometheus takes the
/// family by shared reference and updates a table shared by its clones;
/// here the update is stated as a change of the family. It panics unless
/// the family has exactly one label.
#[verifier::external_body]
pub(crate) fn series_for(family: &mut CounterFamily, label: &str) -> (series: SeriesCounter)
    requires
        family_descriptor(*old(family)).2.len() == 1,
    ensures
        series_key_of(series) == label_values_key(seq![label@]),
        series_family(series) == family_descriptor(*old(family)),
        family_series(*final(family)) == family_series(*old(family)).insert(
            label_values_key(seq![label@]),
        ),
        family_descriptor(*final(family)) == family_descriptor(*old(family)),
        family_registered(*final(family)) == family_registered(*old(family)),
        family_counts(*final(family)) == family_counts(*old(family)),
{
    SeriesCounter { inner: family.inner.with_label_values(&[label]) }
}

/// `CounterVec::with_label_values(&[label]).inc()`: adds one to the series
/// for `label`, made if it did not exist. (The counter handle is not handed
/// out, so that the count can be stated of the family it belongs to.) It
/// panics unless the family has exactly one label.
#[verifier::external_body]
pub(crate) fn count_in_series(family: &mut CounterFamily, label: &str)
    requires
        family_descriptor(*old(family)).2.len() == 1,
    ensures
        family_series(*final(family)) == family_series(*old(family)).insert(
            label_values_key(seq![label@]),
        ),
        family_counts(*final(family)) == counted_once(
            family_counts(*old(family)),
            label_values_key(seq![label@]),
        ),
        family_descriptor(*final(family)) == family_descriptor(*old(family)),
        family_registered(*final(family)) == family_registered(*old(family)),
{
    family.inner.with_label_values(&[label]).inc()
}

/// `prometheus::register` of a clone of the family (the clone shares the
/// family's series): adds it to the default registry. Whether that succeeds
/// depends on what the process registered before. A success puts the
/// family in the registry; a refusal adds nothing (the registry checks the
/// descriptor before it inserts). The family's series are untouched.
#[verifier::external_body]
pub(crate) fn register_family(family: &mut CounterFamily) -> (res: Result<(), prometheus::Error>)
    ensures
        res is Ok ==> family_registered(*final(family)),
        res is Err ==> family_registered(*final(family)) == family_registered(*old(family)),
        family_series(*final(family)) == family_series(*old(family)),
        family_descriptor(*final(family)) == family_descriptor(*old(family)),
        family_counts(*final(family)) == family_counts(*old(family)),
{
    prometheus::register(Box::new(family.inner.clone()))
}

} // verus!
