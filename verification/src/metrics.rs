//! The proxy's metrics: connections, errors and bytes transferred, each a
//! prometheus counter family labelled by direction or reason, and the slot
//! that holds them once they are set up.

use vstd::prelude::*;

use crate::counters::{
    count_in_series, count_of, counted_once, family_counts, family_descriptor, family_registered,
    family_series, fq_name, is_metric_name_start, label_values_key, new_counter_family, new_opts,
    opts_in_namespace, register_family, series_family, series_for, series_key_of, valid_label_name,
    valid_metric_name, CounterFamily, SeriesCounter,
};
use crate::text::{chars_of, same_chars};

verus! {

/// Name of the connection counter family, before its namespace.
pub open spec fn connections_name() -> Seq<char> {
    seq!['c', 'o', 'n', 'n', 'e', 'c', 't', 'i', 'o', 'n', 's', '_', 't', 'o', 't', 'a', 'l']
}

/// Name of the error counter family, before its namespace.
pub open spec fn errors_name() -> Seq<char> {
    seq!['e', 'r', 'r', 'o', 'r', 's', '_', 't', 'o', 't', 'a', 'l']
}

/// Name of the transferred-bytes counter family, before its namespace.
pub open spec fn data_name() -> Seq<char> {
    seq![
        'd', 'a', 't', 'a', '_', 't', 'r', 'a', 'n', 's', 'f', 'e', 'r', 'r', 'e', 'd', '_',
        'b', 'y', 't', 'e', 's', '_', 't', 'o', 't', 'a', 'l',
    ]
}

/// The label of the connection and byte counters.
pub open spec fn direction_label() -> Seq<char> {
    seq!['d', 'i', 'r', 'e', 'c', 't', 'i', 'o', 'n']
}

/// The label of the error counter.
pub open spec fn reason_label() -> Seq<char> {
    seq!['r', 'e', 'a', 's', 'o', 'n']
}

/// A namespace under which the three families get valid metric names:
/// empty, or `[a-zA-Z_:][a-zA-Z0-9_:]*`.
pub open spec fn valid_namespace(ns: Seq<char>) -> bool {
    ns.len() == 0 || valid_metric_name(ns)
}

/// The key of the series a single label value is counted under.
pub open spec fn series_key(label: Seq<char>) -> u64 {
    label_values_key(seq![label])
}

/// One of the proxy's three counter families.
#[derive(Clone, Copy, Debug, PartialEq, Eq, Structural)]
pub enum MetricFamily {
    Connections,
    Errors,
    DataTransferred,
}

/// The errors of setting the metrics up.
#[derive(Debug)]
pub enum MetricsError {
    /// The default registry refused `family`, with prometheus's error; the
    /// families registered before it stay registered.
    Registration { family: MetricFamily, cause: prometheus::Error },
}

/// The three counter families of the proxy.
pub struct Metrics {
    /// Total connections handled, by direction (`inbound` or `outbound`).
    pub connections_total: CounterFamily,
    /// Total errors, by reason.
    pub errors_total: CounterFamily,
    /// Total bytes transferred, by direction (`in` or `out`).
    pub data_transferred_bytes_total: CounterFamily,
}

impl Metrics {
    /// The series of connections counted so far.
    pub open spec fn connections(self) -> Set<u64> {
        family_series(self.connections_total)
    }

    /// The series of errors counted so far.
    pub open spec fn errors(self) -> Set<u64> {
        family_series(self.errors_total)
    }

    /// The series of transferred bytes counted so far.
    pub open spec fn transfers(self) -> Set<u64> {
        family_series(self.data_transferred_bytes_total)
    }

    /// The three families carry the names, help texts and labels the proxy
    /// gives them under the namespace `ns`.
    pub open spec fn named_in(self, ns: Seq<char>) -> bool {
        let empty = Seq::<char>::empty();
        &&& family_descriptor(self.connections_total) == (
            fq_name(ns, empty, connections_name()),
            "Total connections handled"@,
            seq![direction_label()],
        )
        &&& family_descriptor(self.errors_total) == (
            fq_name(ns, empty, errors_name()),
            "Total errors by reason"@,
            seq![reason_label()],
        )
        &&& family_descriptor(self.data_transferred_bytes_total) == (
            fq_name(ns, empty, data_name()),
            "Total bytes transferred"@,
            seq![direction_label()],
        )
    }

    /// Each family has the one label its series are counted by.
    pub open spec fn well_formed(self) -> bool {
        &&& family_descriptor(self.connections_total).2.len() == 1
        &&& family_descriptor(self.errors_total).2.len() == 1
        &&& family_descriptor(self.data_transferred_bytes_total).2.len() == 1
    }

    /// All three families are in prometheus's default registry.
    pub open spec fn registered(self) -> bool {
        &&& family_registered(self.connections_total)
        &&& family_registered(self.errors_total)
        &&& family_registered(self.data_transferred_bytes_total)
    }

    /// None of the three families is in prometheus's default registry.
    pub open spec fn none_registered(self) -> bool {
        &&& !family_registered(self.connections_total)
        &&& !family_registered(self.errors_total)
        &&& !family_registered(self.data_transferred_bytes_total)
    }

    /// How many connections were counted in each series.
    pub open spec fn connection_counts(self) -> Map<u64, nat> {
        family_counts(self.connections_total)
    }

    /// How many errors were counted in each series.
    pub open spec fn error_counts(self) -> Map<u64, nat> {
        family_counts(self.errors_total)
    }

    /// `self` and `other` hold the same series, names, help texts, labels
    /// and counts; they may differ in what is registered.
    pub open spec fn same_counters(self, other: Metrics) -> bool {
        &&& self.connections() == other.connections()
        &&& self.errors() == other.errors()
        &&& self.transfers() == other.transfers()
        &&& family_descriptor(self.connections_total) == family_descriptor(other.connections_total)
        &&& family_descriptor(self.errors_total) == family_descriptor(other.errors_total)
        &&& family_descriptor(self.data_transferred_bytes_total) == family_descriptor(
            other.data_transferred_bytes_total,
        )
        &&& self.connection_counts() == other.connection_counts()
        &&& self.error_counts() == other.error_counts()
        &&& family_counts(self.data_transferred_bytes_total) == family_counts(
            other.data_transferred_bytes_total,
        )
    }

    /// The three families of a namespace, with no series yet. The namespace
    /// must give valid metric names, as prometheus refuses others.
    pub fn new(namespace: &str) -> (m: Self)
        requires
            valid_namespace(namespace@),
        ensures
            m.named_in(namespace@),
            m.well_formed(),
            m.connections() == Set::<u64>::empty(),
            m.errors() == Set::<u64>::empty(),
            m.transfers() == Set::<u64>::empty(),
            m.connection_counts() == Map::<u64, nat>::empty(),
            m.error_counts() == Map::<u64, nat>::empty(),
            m.none_registered(),
    {
        proof {
            reveal_strlit("connections_total");
            reveal_strlit("errors_total");
            reveal_strlit("data_transferred_bytes_total");
            reveal_strlit("direction");
            reveal_strlit("reason");
            reveal_strlit("Total connections handled");
            reveal_strlit("Total errors by reason");
            reveal_strlit("Total bytes transferred");
            assert("connections_total"@ =~= connections_name());
            assert("errors_total"@ =~= errors_name());
            assert("data_transferred_bytes_total"@ =~= data_name());
            assert("direction"@ =~= direction_label());
            assert("reason"@ =~= reason_label());
        }
        let connections_total = new_family(
            namespace,
            "connections_total",
            "Total connections handled",
            "direction",
        );
        let errors_total = new_family(namespace, "errors_total", "Total errors by reason", "reason");
        let data_transferred_bytes_total = new_family(
            namespace,
            "data_transferred_bytes_total",
            "Total bytes transferred",
            "direction",
        );
        Metrics { connections_total, errors_total, data_transferred_bytes_total }
    }

    /// Registers the three families with prometheus's default registry and
    /// hands them back, registered; see `register_all` for a refusal.
    pub fn register(self) -> (r: Result<Self, MetricsError>)
        ensures
            r matches Ok(m) ==> m.registered() && m.same_counters(self),
    {
        let mut m = self;
        match m.register_all() {
            Ok(()) => Ok(m),
            Err(e) => Err(e),
        }
    }

    /// Registers the three families with prometheus's default registry, in
    /// order, stopping at the first refusal: on success all three are
    /// registered; on a refusal the error names the refused family, the
    /// families before it are registered, and the refused family and those
    /// after it are as they were. Nothing but registration changes.
    pub fn register_all(&mut self) -> (r: Result<(), MetricsError>)
        ensures
            final(self).same_counters(*old(self)),
            r is Ok ==> final(self).registered(),
            r matches Err(MetricsError::Registration { family, .. }) ==> match family {
                MetricFamily::Connections => {
                    &&& family_registered(final(self).connections_total) == family_registered(
                        old(self).connections_total,
                    )
                    &&& family_registered(final(self).errors_total) == family_registered(
                        old(self).errors_total,
                    )
                    &&& family_registered(final(self).data_transferred_bytes_total)
                        == family_registered(old(self).data_transferred_bytes_total)
                },
                MetricFamily::Errors => {
                    &&& family_registered(final(self).connections_total)
                    &&& family_registered(final(self).errors_total) == family_registered(
                        old(self).errors_total,
                    )
                    &&& family_registered(final(self).data_transferred_bytes_total)
                        == family_registered(old(self).data_transferred_bytes_total)
                },
                MetricFamily::DataTransferred => {
                    &&& family_registered(final(self).connections_total)
                    &&& family_registered(final(self).errors_total)
                    &&& family_registered(final(self).data_transferred_bytes_total)
                        == family_registered(old(self).data_transferred_bytes_total)
                },
            },
    {
        match register_family(&mut self.connections_total) {
            Ok(()) => {},
            Err(cause) => {
                return Err(MetricsError::Registration { family: MetricFamily::Connections, cause })
            },
        }
        match register_family(&mut self.errors_total) {
            Ok(()) => {},
            Err(cause) => {
                return Err(MetricsError::Registration { family: MetricFamily::Errors, cause })
            },
        }
        match register_family(&mut self.data_transferred_bytes_total) {
            Ok(()) => {},
            Err(cause) => {
                return Err(
                    MetricsError::Registration { family: MetricFamily::DataTransferred, cause },
                )
            },
        }
        Ok(())
    }

    /// Counts one connection in the given direction.
    pub fn inc_connections_total(&mut self, direction: &str)
        requires
            old(self).well_formed(),
        ensures
            final(self).connections() == old(self).connections().insert(series_key(direction@)),
            final(self).errors() == old(self).errors(),
            final(self).transfers() == old(self).transfers(),
            family_descriptor(final(self).connections_total) == family_descriptor(old(self).connections_total),
            family_registered(final(self).connections_total) == family_registered(old(self).connections_total),
            final(self).connection_counts() == counted_once(
                old(self).connection_counts(),
                series_key(direction@),
            ),
            final(self).errors_total == old(self).errors_total,
            final(self).data_transferred_bytes_total == old(self).data_transferred_bytes_total,
    {
        count_in_series(&mut self.connections_total, direction);
    }

    /// Counts one error for the given reason.
    pub fn inc_errors_total(&mut self, reason: &str)
        requires
            old(self).well_formed(),
        ensures
            final(self).errors() == old(self).errors().insert(series_key(reason@)),
            family_descriptor(final(self).errors_total) == family_descriptor(old(self).errors_total),
            family_registered(final(self).errors_total) == family_registered(old(self).errors_total),
            final(self).error_counts() == counted_once(old(self).error_counts(), series_key(reason@)),
            final(self).connections_total == old(self).connections_total,
            final(self).data_transferred_bytes_total == old(self).data_transferred_bytes_total,
    {
        count_in_series(&mut self.errors_total, reason);
    }

    /// The series of the data-transfer family that counts the bytes
    /// transferred in the given direction, made if it is new; the caller adds
    /// the byte count to it.
    pub fn data_transferred_series(&mut self, direction: &str) -> (series: SeriesCounter)
        requires
            old(self).well_formed(),
        ensures
            series_key_of(series) == series_key(direction@),
            series_family(series) == family_descriptor(old(self).data_transferred_bytes_total),
            family_counts(final(self).data_transferred_bytes_total) == family_counts(
                old(self).data_transferred_bytes_total,
            ),
            final(self).transfers() == old(self).transfers().insert(series_key(direction@)),
            family_descriptor(final(self).data_transferred_bytes_total) == family_descriptor(
                old(self).data_transferred_bytes_total,
            ),
            family_registered(final(self).data_transferred_bytes_total) == family_registered(
                old(self).data_transferred_bytes_total,
            ),
            final(self).connections_total == old(self).connections_total,
            final(self).errors_total == old(self).errors_total,
    {
        series_for(&mut self.data_transferred_bytes_total, direction)
    }
}

/// Counting never lowers a count: counting once for `key` raises its count
/// by exactly one and leaves every other count as it was.
pub proof fn lemma_counting_raises_one_count(counts: Map<u64, nat>, key: u64)
    ensures
        count_of(counted_once(counts, key), key) == count_of(counts, key) + 1,
        forall|k: u64| k != key ==> count_of(#[trigger] counted_once(counts, key), k) == count_of(counts, k),
        forall|k: u64| count_of(#[trigger] counted_once(counts, key), k) >= count_of(counts, k),
{
}

/// A valid namespace followed by `_` and a valid name is a valid name.
proof fn lemma_namespaced_name(ns: Seq<char>, name: Seq<char>)
    requires
        valid_namespace(ns),
        valid_metric_name(name),
    ensures
        valid_metric_name(fq_name(ns, Seq::<char>::empty(), name)),
{
    let f = fq_name(ns, Seq::<char>::empty(), name);
    if ns.len() != 0 {
        assert(f =~= ns + seq!['_'] + name);
        assert forall|k: int| 0 < k < f.len() implies is_metric_name_start(#[trigger] f[k]) || (
        '0' <= f[k] && f[k] <= '9') by {
            if k < ns.len() {
                assert(f[k] == ns[k]);
            } else if k == ns.len() {
                assert(f[k] == '_');
            } else {
                assert(f[k] == name[k - ns.len() - 1]);
            }
        }
    }
}

/// One counter family of the proxy: prometheus options with the family's
/// name, help and namespace, and the one label.
fn new_family(namespace: &str, name: &str, help: &str, label: &str) -> (family: CounterFamily)
    requires
        valid_namespace(namespace@),
        valid_metric_name(name@),
        help@.len() > 0,
        valid_label_name(label@),
    ensures
        family_series(family) == Set::<u64>::empty(),
        family_descriptor(family) == (
            fq_name(namespace@, Seq::<char>::empty(), name@),
            help@,
            seq![label@],
        ),
        family_counts(family) == Map::<u64, nat>::empty(),
        !family_registered(family),
{
    let opts = opts_in_namespace(new_opts(name, help), namespace);
    proof {
        lemma_namespaced_name(namespace@, name@);
        assert(opts.const_labels@.dom() =~= Set::<String>::empty());
    }
    match new_counter_family(opts, label) {
        Ok(family) => family,
        Err(_) => unreached(),
    }
}

/// Where the running proxy keeps its metrics: empty until `init_metrics`
/// succeeds, after which every count goes to the families held here.
pub struct MetricsSlot {
    metrics: Option<Metrics>,
}

impl MetricsSlot {
    /// Metrics held in a slot always have one label per family.
    #[verifier::type_invariant]
    spec fn slot_invariant(self) -> bool {
        self.metrics matches Some(m) ==> m.well_formed()
    }

    /// The metrics the slot holds, if it was set up.
    pub closed spec fn current(self) -> Option<Metrics> {
        self.metrics
    }

    /// An empty slot: nothing is counted until `init_metrics`.
    pub fn new() -> (slot: Self)
        ensures
            slot.current() is None,
    {
        MetricsSlot { metrics: None }
    }

    /// Whether the metrics were set up.
    pub fn is_initialized(&self) -> (b: bool)
        ensures
            b == self.current() is Some,
    {
        self.metrics.is_some()
    }
}

/// Sets up the proxy's metrics under `namespace`: makes the three families,
/// registers them with prometheus's default registry and keeps them in the
/// slot. When the registry refuses a family, the slot is left as it was.
/// What the registry answers depends on what the process registered before
/// (the same names a second time are refused), so success is not promised.
pub fn init_metrics(slot: &mut MetricsSlot, namespace: &str) -> (r: Result<(), MetricsError>)
    requires
        valid_namespace(namespace@),
    ensures
        r is Ok ==> (final(slot).current() matches Some(m) && m.named_in(namespace@)
            && m.registered() && m.connections() == Set::<u64>::empty() && m.errors()
            == Set::<u64>::empty() && m.transfers() == Set::<u64>::empty()
            && m.connection_counts() == Map::<u64, nat>::empty() && m.error_counts() == Map::<
            u64,
            nat,
        >::empty()),
        r is Err ==> final(slot).current() == old(slot).current(),
{
    let metrics = Metrics::new(namespace).register();
    match metrics {
        Ok(m) => {
            slot.metrics = Some(m);
            Ok(())
        },
        Err(e) => Err(e),
    }
}

/// Counts one connection in the given direction, if the metrics are set up;
/// before that it does nothing.
pub fn inc_connections_total(slot: &mut MetricsSlot, direction: &str)
    ensures
        match old(slot).current() {
            None => final(slot).current() is None,
            Some(m) => final(slot).current() matches Some(n) && n.connections()
                == m.connections().insert(series_key(direction@)) && n.errors_total
                == m.errors_total && n.data_transferred_bytes_total
                == m.data_transferred_bytes_total && family_descriptor(n.connections_total)
                == family_descriptor(m.connections_total) && n.registered() == m.registered()
                && n.connection_counts() == counted_once(
                m.connection_counts(),
                series_key(direction@),
            ),
        },
{
    proof {
        use_type_invariant(&*slot);
    }
    let mut taken: Option<Metrics> = None;
    std::mem::swap(&mut taken, &mut slot.metrics);
    match taken {
        Some(mut m) => {
            m.inc_connections_total(direction);
            slot.metrics = Some(m);
        },
        None => {},
    }
}

/// Counts one error for the given reason, if the metrics are set up; before
/// that it does nothing.
pub fn inc_errors_total(slot: &mut MetricsSlot, reason: &str)
    ensures
        match old(slot).current() {
            None => final(slot).current() is None,
            Some(m) => final(slot).current() matches Some(n) && n.errors() == m.errors().insert(
                series_key(reason@),
            ) && n.connections_total == m.connections_total && n.data_transferred_bytes_total
                == m.data_transferred_bytes_total && family_descriptor(n.errors_total)
                == family_descriptor(m.errors_total) && n.registered() == m.registered()
                && n.error_counts() == counted_once(m.error_counts(), series_key(reason@)),
        },
{
    proof {
        use_type_invariant(&*slot);
    }
    let mut taken: Option<Metrics> = None;
    std::mem::swap(&mut taken, &mut slot.metrics);
    match taken {
        Some(mut m) => {
            m.inc_errors_total(reason);
            slot.metrics = Some(m);
        },
        None => {},
    }
}

/// The series of the data-transfer family counting the bytes transferred in
/// the given direction, if the metrics are set up (the caller adds the byte count to it); before that
/// there is none and nothing changes.
pub fn data_transferred_series(slot: &mut MetricsSlot, direction: &str) -> (series: Option<
    SeriesCounter,
>)
    ensures
        series is Some <==> old(slot).current() is Some,
        series matches Some(c) ==> series_key_of(c) == series_key(direction@),
        series matches Some(c) ==> (old(slot).current() matches Some(m) && series_family(c)
            == family_descriptor(m.data_transferred_bytes_total)),
        match old(slot).current() {
            None => final(slot).current() is None,
            Some(m) => final(slot).current() matches Some(n) && n.transfers()
                == m.transfers().insert(series_key(direction@)) && n.connections_total
                == m.connections_total && n.errors_total == m.errors_total && family_descriptor(
                n.data_transferred_bytes_total,
            ) == family_descriptor(m.data_transferred_bytes_total) && n.registered()
                == m.registered() && family_counts(n.data_transferred_bytes_total)
                == family_counts(m.data_transferred_bytes_total),
        },
{
    proof {
        use_type_invariant(&*slot);
    }
    let mut taken: Option<Metrics> = None;
    std::mem::swap(&mut taken, &mut slot.metrics);
    match taken {
        Some(mut m) => {
            let series = m.data_transferred_series(direction);
            slot.metrics = Some(m);
            Some(series)
        },
        None => None,
    }
}

/// Whether `namespace` gives the three families valid metric names.
pub fn is_valid_namespace(namespace: &str) -> (b: bool)
    ensures
        b == valid_namespace(namespace@),
{
    let cs = chars_of(namespace);
    let n = cs.len();
    if n == 0 {
        return true;
    }
    if !name_start(cs[0]) {
        return false;
    }
    let mut i: usize = 1;
    while i < n
        invariant
            cs@ == namespace@,
            n == cs@.len(),
            1 <= i <= n,
            is_metric_name_start(cs@[0]),
            forall|k: int| 0 < k < i ==> is_metric_name_start(#[trigger] cs@[k]) || ('0' <= cs@[k]
                && cs@[k] <= '9'),
        decreases n - i,
    {
        let c = cs[i];
        if !(name_start(c) || ('0' <= c && c <= '9')) {
            return false;
        }
        i = i + 1;
    }
    true
}

/// Executable form of `is_metric_name_start`.
fn name_start(c: char) -> (b: bool)
    ensures
        b == is_metric_name_start(c),
{
    ('a' <= c && c <= 'z') || ('A' <= c && c <= 'Z') || c == '_' || c == ':'
}

/// Where a request to the metrics server goes.
#[derive(Clone, Copy, Debug, PartialEq, Eq, Structural)]
pub enum MetricsRoute {
    /// The scrape endpoint: the gathered metrics in prometheus's text format.
    Scrape,
    /// Anything else: `404 Not Found`.
    NotFound,
}

/// `GET`.
pub open spec fn get_method() -> Seq<char> {
    seq!['G', 'E', 'T']
}

/// `/metrics`.
pub open spec fn metrics_path() -> Seq<char> {
    seq!['/', 'm', 'e', 't', 'r', 'i', 'c', 's']
}

/// Routes a request to the metrics server: only `GET /metrics` is served.
pub fn route_metrics_request(method: &str, path: &str) -> (route: MetricsRoute)
    ensures
        route == (if method@ == get_method() && path@ == metrics_path() {
            MetricsRoute::Scrape
        } else {
            MetricsRoute::NotFound
        }),
{
    let m = chars_of(method);
    let p = chars_of(path);
    let get = ['G', 'E', 'T'];
    let metrics = ['/', 'm', 'e', 't', 'r', 'i', 'c', 's'];
    assert(get@ =~= get_method());
    assert(metrics@ =~= metrics_path());
    if same_chars(&m, &get) && same_chars(&p, &metrics) {
        MetricsRoute::Scrape
    } else {
        MetricsRoute::NotFound
    }
}

impl MetricsRoute {
    /// The status the metrics server answers with: `200` for the scrape,
    /// `404` for anything else.
    pub fn status(&self) -> (code: u16)
        ensures
            code == (if *self == MetricsRoute::Scrape {
                200u16
            } else {
                404u16
            }),
    {
        match self {
            MetricsRoute::Scrape => 200,
            MetricsRoute::NotFound => 404,
        }
    }
}

/// The body of the metrics server's `404` reply.
pub fn not_found_body() -> (body: &'static str)
    ensures
        body@ == seq!['N', 'o', 't', ' ', 'F', 'o', 'u', 'n', 'd'],
{
    proof {
        reveal_strlit("Not Found");
    }
    "Not Found"
}

} // verus!
