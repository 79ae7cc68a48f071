//! The metric families that the server exports.

use vstd::prelude::*;

verus! {

/// The kind of a metric family.
#[derive(Debug, Clone, Copy, PartialEq, Eq, Structural)]
pub enum MetricKind {
    /// Counts observations in buckets.
    Histogram,
    /// An integer that only goes up.
    IntCounter,
    /// A number that goes up and down.
    Gauge,
}

/// What describes a metric family.
pub struct Family {
    /// Its kind.
    pub kind: MetricKind,
    /// Its fully qualified name.
    pub name: Seq<char>,
    /// Its help text.
    pub help: Seq<char>,
    /// The names of its labels.
    pub labels: Seq<Seq<char>>,
}

/// A letter of the ASCII alphabet or an underscore.
pub open spec fn is_name_char(c: char) -> bool {
    'a' <= c <= 'z' || 'A' <= c <= 'Z' || c == '_'
}

/// A valid label name: letters, digits and underscores, no digit in front.
pub open spec fn is_label_name(s: Seq<char>) -> bool {
    &&& s.len() > 0
    &&& is_name_char(s[0])
    &&& forall|i: int|
        0 <= i < s.len() ==> is_name_char(#[trigger] s[i]) || crate::text::is_digit(s[i])
}

/// A valid metric name: as a label name, with colons allowed as well.
pub open spec fn is_metric_name(s: Seq<char>) -> bool {
    &&& s.len() > 0
    &&& is_name_char(s[0]) || s[0] == ':'
    &&& forall|i: int|
        0 <= i < s.len() ==> is_name_char(#[trigger] s[i]) || s[i] == ':' || crate::text::is_digit(
            s[i],
        )
}

/// A family that can be created: it has help, valid names, and no label twice.
pub open spec fn is_valid_family(f: Family) -> bool {
    &&& f.help.len() > 0
    &&& is_metric_name(f.name)
    &&& forall|i: int| 0 <= i < f.labels.len() ==> is_label_name(#[trigger] f.labels[i])
    &&& f.labels.no_duplicates()
}

/// The texts of a list of label names.
pub open spec fn label_texts(labels: Seq<&str>) -> Seq<Seq<char>> {
    labels.map_values(|l: &str| l@)
}

/// The family with the given description.
pub open spec fn described(
    kind: MetricKind,
    name: Seq<char>,
    help: Seq<char>,
    labels: Seq<&str>,
) -> Family {
    Family { kind, name, help, labels: label_texts(labels) }
}

/// A metric registry.
#[verifier::external_type_specification]
#[verifier::external_body]
pub struct ExRegistry(prometheus::Registry);

/// An error of the metric library.
#[verifier::external_type_specification]
#[verifier::external_body]
pub struct ExError(prometheus::Error);

/// A family of histograms, one for each combination of label values.
#[verifier::external_body]
pub struct HistogramVec(pub prometheus::HistogramVec);

/// A family of integer counters, one for each combination of label values.
#[verifier::external_body]
pub struct IntCounterVec(pub prometheus::IntCounterVec);

/// A family of gauges, one for each combination of label values.
#[verifier::external_body]
pub struct GaugeVec(pub prometheus::GaugeVec);

/// What describes a family of histograms.
pub uninterp spec fn histogram_family(v: HistogramVec) -> Family;

/// What describes a family of counters.
pub uninterp spec fn counter_family(v: IntCounterVec) -> Family;

/// What describes a family of gauges.
pub uninterp spec fn gauge_family(v: GaugeVec) -> Family;

/// A handle of a family that a registry exports: what is recorded through it, or
/// through an equal handle, is what the registry gathers.
pub enum Exported {
    /// A family of histograms.
    Histogram(HistogramVec),
    /// A family of integer counters.
    IntCounter(IntCounterVec),
    /// A family of gauges.
    Gauge(GaugeVec),
}

/// What describes an exported family.
pub open spec fn exported_family(e: Exported) -> Family {
    match e {
        Exported::Histogram(v) => histogram_family(v),
        Exported::IntCounter(v) => counter_family(v),
        Exported::Gauge(v) => gauge_family(v),
    }
}

/// What describes some exported families.
pub open spec fn exported_families(exports: Seq<Exported>) -> Seq<Family> {
    exports.map_values(|e: Exported| exported_family(e))
}

/// A registry under construction. There is no other handle to it.
#[verifier::external_body]
struct RegistryDraft(prometheus::Registry);

/// What a registry under construction exports, in the order of registration.
pub uninterp spec fn draft_exports(d: RegistryDraft) -> Seq<Exported>;

/// What a registry was finished with, in the order of registration.
pub uninterp spec fn exported(r: prometheus::Registry) -> Seq<Exported>;

/// `HistogramVec::new` with the default buckets. It fails exactly when the
/// description is not valid.
#[verifier::external_body]
fn new_histogram(name: &str, help: &str, labels: &[&str]) -> (r: Result<
    HistogramVec,
    prometheus::Error,
>)
    ensures
        r is Ok <==> is_valid_family(described(MetricKind::Histogram, name@, help@, labels@)),
        r matches Ok(v) ==> histogram_family(v) == described(
            MetricKind::Histogram,
            name@,
            help@,
            labels@,
        ),
{
    prometheus::HistogramVec::new(prometheus::HistogramOpts::new(name, help), labels).map(
        HistogramVec,
    )
}

/// `IntCounterVec::new`. It fails exactly when the description is not valid.
#[verifier::external_body]
fn new_counter(name: &str, help: &str, labels: &[&str]) -> (r: Result<
    IntCounterVec,
    prometheus::Error,
>)
    ensures
        r is Ok <==> is_valid_family(described(MetricKind::IntCounter, name@, help@, labels@)),
        r matches Ok(v) ==> counter_family(v) == described(
            MetricKind::IntCounter,
            name@,
            help@,
            labels@,
        ),
{
    prometheus::IntCounterVec::new(prometheus::Opts::new(name, help), labels).map(IntCounterVec)
}

/// `GaugeVec::new`. It fails exactly when the description is not valid.
#[verifier::external_body]
fn new_gauge(name: &str, help: &str, labels: &[&str]) -> (r: Result<GaugeVec, prometheus::Error>)
    ensures
        r is Ok <==> is_valid_family(described(MetricKind::Gauge, name@, help@, labels@)),
        r matches Ok(v) ==> gauge_family(v) == described(
            MetricKind::Gauge,
            name@,
            help@,
            labels@,
        ),
{
    prometheus::GaugeVec::new(prometheus::Opts::new(name, help), labels).map(GaugeVec)
}

/// `Registry::new` makes a registry that exports nothing. That each call makes
/// another one is left unsaid.
#[verifier::external_body]
fn new_registry() -> (r: RegistryDraft)
    ensures
        draft_exports(r) == Seq::<Exported>::empty(),
{
    RegistryDraft(prometheus::Registry::new())
}

/// A family to register.
enum AnyFamily<'a> {
    Histogram(&'a HistogramVec),
    IntCounter(&'a IntCounterVec),
    Gauge(&'a GaugeVec),
}

spec fn handle_of(f: AnyFamily) -> Exported {
    match f {
        AnyFamily::Histogram(v) => Exported::Histogram(*v),
        AnyFamily::IntCounter(v) => Exported::IntCounter(*v),
        AnyFamily::Gauge(v) => Exported::Gauge(*v),
    }
}

/// `Registry::register` adds a clone of a handle to what the registry exports, or
/// fails without adding it when a family there has the same descriptor
/// identifier, which is an FNV hash of the name.
#[verifier::external_body]
fn register(draft: &mut RegistryDraft, family: AnyFamily<'_>) -> (r: Result<(), prometheus::Error>)
    ensures
        r is Ok <==> forall|i: int|
            0 <= i < draft_exports(*old(draft)).len() ==> crate::descriptor::descriptor_id(
                exported_family(#[trigger] draft_exports(*old(draft))[i]).name,
            ) != crate::descriptor::descriptor_id(exported_family(handle_of(family)).name),
        draft_exports(*final(draft)) == if r is Ok {
            draft_exports(*old(draft)).push(handle_of(family))
        } else {
            draft_exports(*old(draft))
        },
{
    match family {
        AnyFamily::Histogram(v) => draft.0.register(Box::new(v.0.clone())),
        AnyFamily::IntCounter(v) => draft.0.register(Box::new(v.0.clone())),
        AnyFamily::Gauge(v) => draft.0.register(Box::new(v.0.clone())),
    }
}

/// The `Registry` itself, which exports what was registered. Nothing here
/// registers through it any more.
#[verifier::external_body]
fn finish_registry(draft: RegistryDraft) -> (r: prometheus::Registry)
    ensures
        exported(r) == draft_exports(draft),
{
    draft.0
}

/// Why the metrics could not be set up.
#[derive(Debug, Clone, Copy, PartialEq, Eq, Structural)]
pub enum MetricsError {
    /// A family with the same descriptor identifier is registered already.
    AlreadyRegistered,
}

/// The metrics of the server, all of them registered.
pub struct AppMetrics {
    /// The registry that exports them.
    pub registry: prometheus::Registry,
    /// Latency of simulation requests, by endpoint.
    pub simulation_latency_seconds: HistogramVec,
    /// RPC and simulation errors, by endpoint and type of error.
    pub rpc_error_count_total: IntCounterVec,
    /// Simulation requests, by endpoint and cache status.
    pub simulation_requests_total: IntCounterVec,
    /// Resource utilization of the latest simulation sample, by resource.
    pub resource_utilization_percent: GaugeVec,
    /// Host-wide CPU usage percentage (0-100) sampled by the system alarm
    /// monitor.
    pub host_cpu_usage_percent: GaugeVec,
    /// Host-wide memory usage percentage (0-100) sampled by the system alarm
    /// monitor.
    pub host_memory_usage_percent: GaugeVec,
    /// Resident memory size of the server process itself, in bytes.
    pub process_memory_bytes: GaugeVec,
    /// Wall-clock time spent per indexing or collection cycle, by stage.
    pub indexing_latency_seconds: HistogramVec,
    /// Ledger events successfully processed, by stage.
    pub events_processed_total: IntCounterVec,
    /// Indexing cycle failures, by stage.
    pub indexing_errors_total: IntCounterVec,
    /// Depth of background job queues, by queue name.
    pub job_queue_depth: GaugeVec,
}

/// The families that the server exports, in the order of registration.
pub open spec fn app_families() -> Seq<Family> {
    seq![
        Family {
            kind: MetricKind::Histogram,
            name: "simulation_latency_seconds"@,
            help: "Latency of simulation requests in seconds"@,
            labels: seq!["endpoint"@],
        },
        Family {
            kind: MetricKind::IntCounter,
            name: "rpc_error_count_total"@,
            help: "Total number of RPC and simulation errors"@,
            labels: seq!["endpoint"@, "error_type"@],
        },
        Family {
            kind: MetricKind::IntCounter,
            name: "simulation_requests_total"@,
            help: "Total number of simulation requests by endpoint and cache status"@,
            labels: seq!["endpoint"@, "cache_status"@],
        },
        Family {
            kind: MetricKind::Gauge,
            name: "resource_utilization_percent"@,
            help: "Resource utilization percentage from latest simulation sample"@,
            labels: seq!["resource"@],
        },
        Family {
            kind: MetricKind::Gauge,
            name: "host_cpu_usage_percent"@,
            help: "Host-wide CPU usage percentage (0-100) sampled by the system alarm monitor"@,
            labels: seq!["host"@],
        },
        Family {
            kind: MetricKind::Gauge,
            name: "host_memory_usage_percent"@,
            help: "Host-wide memory usage percentage (0-100) sampled by the system alarm monitor"@,
            labels: seq!["host"@],
        },
        Family {
            kind: MetricKind::Gauge,
            name: "process_memory_bytes"@,
            help: "Resident memory size of the SoroScope process in bytes"@,
            labels: seq!["process"@],
        },
        Family {
            kind: MetricKind::Histogram,
            name: "indexing_latency_seconds"@,
            help: "Latency of ledger indexing/collection cycles in seconds"@,
            labels: seq!["stage"@],
        },
        Family {
            kind: MetricKind::IntCounter,
            name: "events_processed_total"@,
            help: "Total number of ledger events successfully processed"@,
            labels: seq!["stage"@],
        },
        Family {
            kind: MetricKind::IntCounter,
            name: "indexing_errors_total"@,
            help: "Total number of indexing cycle failures"@,
            labels: seq!["stage"@],
        },
        Family {
            kind: MetricKind::Gauge,
            name: "job_queue_depth"@,
            help: "Current depth of background job queues"@,
            labels: seq!["queue"@],
        },
    ]
}

/// No two families have the same descriptor identifier.
pub open spec fn ids_are_distinct(families: Seq<Family>) -> bool {
    forall|i: int, j: int|
        0 <= i < j < families.len() ==> crate::descriptor::descriptor_id(#[trigger] families[i].name) != crate::descriptor::descriptor_id(
            #[trigger] families[j].name,
        )
}

fn make_histogram(name: &str, help: &str, labels: &[&str], index: Ghost<int>) -> (r: HistogramVec)
    requires
        0 <= index@ < app_families().len(),
        is_valid_family(app_families()[index@]),
        app_families()[index@].kind == MetricKind::Histogram,
        app_families()[index@].name == name@,
        app_families()[index@].help == help@,
        app_families()[index@].labels =~= label_texts(labels@),
    ensures
        histogram_family(r) == app_families()[index@],
{
    match new_histogram(name, help, labels) {
        Ok(family) => family,
        Err(_) => vstd::pervasive::unreached(),
    }
}

fn make_counter(name: &str, help: &str, labels: &[&str], index: Ghost<int>) -> (r: IntCounterVec)
    requires
        0 <= index@ < app_families().len(),
        is_valid_family(app_families()[index@]),
        app_families()[index@].kind == MetricKind::IntCounter,
        app_families()[index@].name == name@,
        app_families()[index@].help == help@,
        app_families()[index@].labels =~= label_texts(labels@),
    ensures
        counter_family(r) == app_families()[index@],
{
    match new_counter(name, help, labels) {
        Ok(family) => family,
        Err(_) => vstd::pervasive::unreached(),
    }
}

fn make_gauge(name: &str, help: &str, labels: &[&str], index: Ghost<int>) -> (r: GaugeVec)
    requires
        0 <= index@ < app_families().len(),
        is_valid_family(app_families()[index@]),
        app_families()[index@].kind == MetricKind::Gauge,
        app_families()[index@].name == name@,
        app_families()[index@].help == help@,
        app_families()[index@].labels =~= label_texts(labels@),
    ensures
        gauge_family(r) == app_families()[index@],
{
    match new_gauge(name, help, labels) {
        Ok(family) => family,
        Err(_) => vstd::pervasive::unreached(),
    }
}

fn add_family(draft: &mut RegistryDraft, family: AnyFamily<'_>, index: Ghost<int>) -> (r: Result<
    (),
    MetricsError,
>)
    requires
        0 <= index@ < app_families().len(),
        ids_are_distinct(app_families()),
        exported_family(handle_of(family)) == app_families()[index@],
        exported_families(draft_exports(*old(draft))) == app_families().take(index@),
    ensures
        r is Ok,
        draft_exports(*final(draft)) == draft_exports(*old(draft)).push(handle_of(family)),
        exported_families(draft_exports(*final(draft))) == app_families().take(index@ + 1),
{
    proof {
        let all = app_families();
        let before = draft_exports(*draft);
        assert(before.len() == exported_families(before).len());
        assert forall|i: int| 0 <= i < before.len() implies crate::descriptor::descriptor_id(
            exported_family(#[trigger] before[i]).name,
        ) != crate::descriptor::descriptor_id(exported_family(handle_of(family)).name) by {
            assert(exported_families(before)[i] == all.take(index@)[i]);
            assert(all[i].name == exported_family(before[i]).name);
            assert(all[index@].name == exported_family(handle_of(family)).name);
        }
        assert(all.take(index@ + 1) == all.take(index@).push(all[index@]));
        assert(exported_families(before.push(handle_of(family))) == exported_families(before).push(
            exported_family(handle_of(family)),
        ));
    }
    match register(draft, family) {
        Ok(()) => Ok(()),
        Err(_) => Err(MetricsError::AlreadyRegistered),
    }
}

/// Every family that the server exports has a valid description.
proof fn lemma_families_are_valid()
    ensures
        forall|i: int|
            0 <= i < app_families().len() ==> is_valid_family(#[trigger] app_families()[i]),
{
    reveal_strlit("simulation_latency_seconds");
    reveal_strlit("Latency of simulation requests in seconds");
    reveal_strlit("endpoint");
    reveal_strlit("rpc_error_count_total");
    reveal_strlit("Total number of RPC and simulation errors");
    reveal_strlit("error_type");
    reveal_strlit("simulation_requests_total");
    reveal_strlit("Total number of simulation requests by endpoint and cache status");
    reveal_strlit("cache_status");
    reveal_strlit("resource_utilization_percent");
    reveal_strlit("Resource utilization percentage from latest simulation sample");
    reveal_strlit("resource");
    reveal_strlit("host_cpu_usage_percent");
    reveal_strlit("Host-wide CPU usage percentage (0-100) sampled by the system alarm monitor");
    reveal_strlit("host");
    reveal_strlit("host_memory_usage_percent");
    reveal_strlit("Host-wide memory usage percentage (0-100) sampled by the system alarm monitor");
    reveal_strlit("process_memory_bytes");
    reveal_strlit("Resident memory size of the SoroScope process in bytes");
    reveal_strlit("process");
    reveal_strlit("indexing_latency_seconds");
    reveal_strlit("Latency of ledger indexing/collection cycles in seconds");
    reveal_strlit("stage");
    reveal_strlit("events_processed_total");
    reveal_strlit("Total number of ledger events successfully processed");
    reveal_strlit("indexing_errors_total");
    reveal_strlit("Total number of indexing cycle failures");
    reveal_strlit("job_queue_depth");
    reveal_strlit("Current depth of background job queues");
    reveal_strlit("queue");
    assert(is_metric_name("simulation_latency_seconds"@));
    assert(is_metric_name("rpc_error_count_total"@));
    assert(is_metric_name("simulation_requests_total"@));
    assert(is_metric_name("resource_utilization_percent"@));
    assert(is_metric_name("host_cpu_usage_percent"@));
    assert(is_metric_name("host_memory_usage_percent"@));
    assert(is_metric_name("process_memory_bytes"@));
    assert(is_metric_name("indexing_latency_seconds"@));
    assert(is_metric_name("events_processed_total"@));
    assert(is_metric_name("indexing_errors_total"@));
    assert(is_metric_name("job_queue_depth"@));
    assert(is_label_name("cache_status"@));
    assert(is_label_name("endpoint"@));
    assert(is_label_name("error_type"@));
    assert(is_label_name("host"@));
    assert(is_label_name("process"@));
    assert(is_label_name("queue"@));
    assert(is_label_name("resource"@));
    assert(is_label_name("stage"@));
}

/// No two families that the server exports share a descriptor identifier.
proof fn lemma_ids_are_distinct()
    ensures
        ids_are_distinct(app_families()),
{
    let names = Seq::new(app_families().len(), |i: int| app_families()[i].name);
    assert(names =~= seq![
        "simulation_latency_seconds"@,
        "rpc_error_count_total"@,
        "simulation_requests_total"@,
        "resource_utilization_percent"@,
        "host_cpu_usage_percent"@,
        "host_memory_usage_percent"@,
        "process_memory_bytes"@,
        "indexing_latency_seconds"@,
        "events_processed_total"@,
        "indexing_errors_total"@,
        "job_queue_depth"@,
    ]);
    crate::descriptor::lemma_exported_names_have_distinct_ids(names);
    assert forall|i: int, j: int|
        0 <= i < j < app_families().len() implies crate::descriptor::descriptor_id(
        #[trigger] app_families()[i].name,
    ) != crate::descriptor::descriptor_id(#[trigger] app_families()[j].name) by {
        assert(names[i] == app_families()[i].name);
        assert(names[j] == app_families()[j].name);
    }
}

/// Cloning a `HistogramVec` gives another handle to the same metrics.
#[verifier::external_body]
fn clone_histogram(v: &HistogramVec) -> (r: HistogramVec)
    ensures
        r == *v,
{
    HistogramVec(v.0.clone())
}

/// Cloning an `IntCounterVec` gives another handle to the same metrics.
#[verifier::external_body]
fn clone_counter(v: &IntCounterVec) -> (r: IntCounterVec)
    ensures
        r == *v,
{
    IntCounterVec(v.0.clone())
}

/// Cloning a `GaugeVec` gives another handle to the same metrics.
#[verifier::external_body]
fn clone_gauge(v: &GaugeVec) -> (r: GaugeVec)
    ensures
        r == *v,
{
    GaugeVec(v.0.clone())
}

/// Cloning a `Registry` gives another handle to the same registry.
#[verifier::external_body]
fn clone_registry(registry: &prometheus::Registry) -> (r: prometheus::Registry)
    ensures
        r == *registry,
{
    registry.clone()
}

impl Clone for AppMetrics {
    /// Other handles to the same families and the same registry.
    fn clone(&self) -> (r: AppMetrics)
        ensures
            r == *self,
    {
        AppMetrics {
            registry: clone_registry(&self.registry),
            simulation_latency_seconds: clone_histogram(&self.simulation_latency_seconds),
            rpc_error_count_total: clone_counter(&self.rpc_error_count_total),
            simulation_requests_total: clone_counter(&self.simulation_requests_total),
            resource_utilization_percent: clone_gauge(&self.resource_utilization_percent),
            host_cpu_usage_percent: clone_gauge(&self.host_cpu_usage_percent),
            host_memory_usage_percent: clone_gauge(&self.host_memory_usage_percent),
            process_memory_bytes: clone_gauge(&self.process_memory_bytes),
            indexing_latency_seconds: clone_histogram(&self.indexing_latency_seconds),
            events_processed_total: clone_counter(&self.events_processed_total),
            indexing_errors_total: clone_counter(&self.indexing_errors_total),
            job_queue_depth: clone_gauge(&self.job_queue_depth),
        }
    }
}

impl AppMetrics {
    /// The handles in the fields, in the order of registration.
    pub open spec fn handles(self) -> Seq<Exported> {
        seq![
            Exported::Histogram(self.simulation_latency_seconds),
            Exported::IntCounter(self.rpc_error_count_total),
            Exported::IntCounter(self.simulation_requests_total),
            Exported::Gauge(self.resource_utilization_percent),
            Exported::Gauge(self.host_cpu_usage_percent),
            Exported::Gauge(self.host_memory_usage_percent),
            Exported::Gauge(self.process_memory_bytes),
            Exported::Histogram(self.indexing_latency_seconds),
            Exported::IntCounter(self.events_processed_total),
            Exported::IntCounter(self.indexing_errors_total),
            Exported::Gauge(self.job_queue_depth),
        ]
    }

    /// Creates every family and registers its handle, so that the registry exports
    /// what is recorded through the fields, and nothing else. Each description is
    /// valid and no two names share a descriptor identifier, so this always
    /// succeeds. Each call makes handles and a registry of its own, and nothing is
    /// gathered before something is recorded: the contract leaves both unsaid.
    pub fn new() -> (r: Result<AppMetrics, MetricsError>)
        ensures
            r matches Ok(m) && exported(m.registry) == m.handles() && exported_families(m.handles())
                == app_families(),
    {
        let mut draft = new_registry();
        proof {
            lemma_families_are_valid();
            lemma_ids_are_distinct();
            assert(exported_families(draft_exports(draft)) =~= app_families().take(0));
        }

        let simulation_latency_seconds = make_histogram(
            "simulation_latency_seconds",
            "Latency of simulation requests in seconds",
            &["endpoint"],
            Ghost(0),
        );
        let rpc_error_count_total = make_counter(
            "rpc_error_count_total",
            "Total number of RPC and simulation errors",
            &["endpoint", "error_type"],
            Ghost(1),
        );
        let simulation_requests_total = make_counter(
            "simulation_requests_total",
            "Total number of simulation requests by endpoint and cache status",
            &["endpoint", "cache_status"],
            Ghost(2),
        );
        let resource_utilization_percent = make_gauge(
            "resource_utilization_percent",
            "Resource utilization percentage from latest simulation sample",
            &["resource"],
            Ghost(3),
        );
        let host_cpu_usage_percent = make_gauge(
            "host_cpu_usage_percent",
            "Host-wide CPU usage percentage (0-100) sampled by the system alarm monitor",
            &["host"],
            Ghost(4),
        );
        let host_memory_usage_percent = make_gauge(
            "host_memory_usage_percent",
            "Host-wide memory usage percentage (0-100) sampled by the system alarm monitor",
            &["host"],
            Ghost(5),
        );
        let process_memory_bytes = make_gauge(
            "process_memory_bytes",
            "Resident memory size of the SoroScope process in bytes",
            &["process"],
            Ghost(6),
        );
        let indexing_latency_seconds = make_histogram(
            "indexing_latency_seconds",
            "Latency of ledger indexing/collection cycles in seconds",
            &["stage"],
            Ghost(7),
        );
        let events_processed_total = make_counter(
            "events_processed_total",
            "Total number of ledger events successfully processed",
            &["stage"],
            Ghost(8),
        );
        let indexing_errors_total = make_counter(
            "indexing_errors_total",
            "Total number of indexing cycle failures",
            &["stage"],
            Ghost(9),
        );
        let job_queue_depth = make_gauge(
            "job_queue_depth",
            "Current depth of background job queues",
            &["queue"],
            Ghost(10),
        );
        match add_family(&mut draft, AnyFamily::Histogram(&simulation_latency_seconds), Ghost(0)) {
            Ok(()) => {},
            Err(error) => {
                return Err(error);
            },
        }
        match add_family(&mut draft, AnyFamily::IntCounter(&rpc_error_count_total), Ghost(1)) {
            Ok(()) => {},
            Err(error) => {
                return Err(error);
            },
        }
        match add_family(&mut draft, AnyFamily::IntCounter(&simulation_requests_total), Ghost(2)) {
            Ok(()) => {},
            Err(error) => {
                return Err(error);
            },
        }
        match add_family(&mut draft, AnyFamily::Gauge(&resource_utilization_percent), Ghost(3)) {
            Ok(()) => {},
            Err(error) => {
                return Err(error);
            },
        }
        match add_family(&mut draft, AnyFamily::Gauge(&host_cpu_usage_percent), Ghost(4)) {
            Ok(()) => {},
            Err(error) => {
                return Err(error);
            },
        }
        match add_family(&mut draft, AnyFamily::Gauge(&host_memory_usage_percent), Ghost(5)) {
            Ok(()) => {},
            Err(error) => {
                return Err(error);
            },
        }
        match add_family(&mut draft, AnyFamily::Gauge(&process_memory_bytes), Ghost(6)) {
            Ok(()) => {},
            Err(error) => {
                return Err(error);
            },
        }
        match add_family(&mut draft, AnyFamily::Histogram(&indexing_latency_seconds), Ghost(7)) {
            Ok(()) => {},
            Err(error) => {
                return Err(error);
            },
        }
        match add_family(&mut draft, AnyFamily::IntCounter(&events_processed_total), Ghost(8)) {
            Ok(()) => {},
            Err(error) => {
                return Err(error);
            },
        }
        match add_family(&mut draft, AnyFamily::IntCounter(&indexing_errors_total), Ghost(9)) {
            Ok(()) => {},
            Err(error) => {
                return Err(error);
            },
        }
        match add_family(&mut draft, AnyFamily::Gauge(&job_queue_depth), Ghost(10)) {
            Ok(()) => {},
            Err(error) => {
                return Err(error);
            },
        }
        let metrics = AppMetrics {
            registry: finish_registry(draft),
            simulation_latency_seconds,
            rpc_error_count_total,
            simulation_requests_total,
            resource_utilization_percent,
            host_cpu_usage_percent,
            host_memory_usage_percent,
            process_memory_bytes,
            indexing_latency_seconds,
            events_processed_total,
            indexing_errors_total,
            job_queue_depth,
        };
        assert(exported(metrics.registry) =~= metrics.handles());
        assert(app_families().take(11) =~= app_families());
        Ok(metrics)
    }
}

/// What is recorded through a field is exported by the registry, under the name of
/// the field and with the labels that the field asks for, and nothing else is. A clone
/// records and exports in the same places.
pub proof fn fields_are_exported_under_their_names(
    r: Result<AppMetrics, MetricsError>,
    m: AppMetrics,
    copy: AppMetrics,
)
    requires
        call_ensures(AppMetrics::new, (), r),
        r is Ok ==> r->Ok_0 == m,
        call_ensures(<AppMetrics as Clone>::clone, (&m,), copy),
    ensures
        r is Ok,
        exported(m.registry).len() == 11,
        ({
            &&& exported(m.registry).contains(Exported::Histogram(m.simulation_latency_seconds))
            &&& histogram_family(m.simulation_latency_seconds).name == "simulation_latency_seconds"@
            &&& histogram_family(m.simulation_latency_seconds).labels == seq!["endpoint"@]
            &&& exported(m.registry).contains(Exported::IntCounter(m.rpc_error_count_total))
            &&& counter_family(m.rpc_error_count_total).name == "rpc_error_count_total"@
            &&& counter_family(m.rpc_error_count_total).labels == seq!["endpoint"@, "error_type"@]
            &&& exported(m.registry).contains(Exported::IntCounter(m.simulation_requests_total))
            &&& counter_family(m.simulation_requests_total).name == "simulation_requests_total"@
            &&& counter_family(m.simulation_requests_total).labels == seq!["endpoint"@, "cache_status"@]
            &&& exported(m.registry).contains(Exported::Gauge(m.resource_utilization_percent))
            &&& gauge_family(m.resource_utilization_percent).name == "resource_utilization_percent"@
            &&& gauge_family(m.resource_utilization_percent).labels == seq!["resource"@]
            &&& exported(m.registry).contains(Exported::Gauge(m.host_cpu_usage_percent))
            &&& gauge_family(m.host_cpu_usage_percent).name == "host_cpu_usage_percent"@
            &&& gauge_family(m.host_cpu_usage_percent).labels == seq!["host"@]
            &&& exported(m.registry).contains(Exported::Gauge(m.host_memory_usage_percent))
            &&& gauge_family(m.host_memory_usage_percent).name == "host_memory_usage_percent"@
            &&& gauge_family(m.host_memory_usage_percent).labels == seq!["host"@]
            &&& exported(m.registry).contains(Exported::Gauge(m.process_memory_bytes))
            &&& gauge_family(m.process_memory_bytes).name == "process_memory_bytes"@
            &&& gauge_family(m.process_memory_bytes).labels == seq!["process"@]
            &&& exported(m.registry).contains(Exported::Histogram(m.indexing_latency_seconds))
            &&& histogram_family(m.indexing_latency_seconds).name == "indexing_latency_seconds"@
            &&& histogram_family(m.indexing_latency_seconds).labels == seq!["stage"@]
            &&& exported(m.registry).contains(Exported::IntCounter(m.events_processed_total))
            &&& counter_family(m.events_processed_total).name == "events_processed_total"@
            &&& counter_family(m.events_processed_total).labels == seq!["stage"@]
            &&& exported(m.registry).contains(Exported::IntCounter(m.indexing_errors_total))
            &&& counter_family(m.indexing_errors_total).name == "indexing_errors_total"@
            &&& counter_family(m.indexing_errors_total).labels == seq!["stage"@]
            &&& exported(m.registry).contains(Exported::Gauge(m.job_queue_depth))
            &&& gauge_family(m.job_queue_depth).name == "job_queue_depth"@
            &&& gauge_family(m.job_queue_depth).labels == seq!["queue"@]
        }),
        copy == m,
{
    if r is Ok {
        assert(exported(m.registry)[0] == Exported::Histogram(m.simulation_latency_seconds));
        assert(exported_families(m.handles())[0] == histogram_family(m.simulation_latency_seconds));
        assert(exported(m.registry)[1] == Exported::IntCounter(m.rpc_error_count_total));
        assert(exported_families(m.handles())[1] == counter_family(m.rpc_error_count_total));
        assert(exported(m.registry)[2] == Exported::IntCounter(m.simulation_requests_total));
        assert(exported_families(m.handles())[2] == counter_family(m.simulation_requests_total));
        assert(exported(m.registry)[3] == Exported::Gauge(m.resource_utilization_percent));
        assert(exported_families(m.handles())[3] == gauge_family(m.resource_utilization_percent));
        assert(exported(m.registry)[4] == Exported::Gauge(m.host_cpu_usage_percent));
        assert(exported_families(m.handles())[4] == gauge_family(m.host_cpu_usage_percent));
        assert(exported(m.registry)[5] == Exported::Gauge(m.host_memory_usage_percent));
        assert(exported_families(m.handles())[5] == gauge_family(m.host_memory_usage_percent));
        assert(exported(m.registry)[6] == Exported::Gauge(m.process_memory_bytes));
        assert(exported_families(m.handles())[6] == gauge_family(m.process_memory_bytes));
        assert(exported(m.registry)[7] == Exported::Histogram(m.indexing_latency_seconds));
        assert(exported_families(m.handles())[7] == histogram_family(m.indexing_latency_seconds));
        assert(exported(m.registry)[8] == Exported::IntCounter(m.events_processed_total));
        assert(exported_families(m.handles())[8] == counter_family(m.events_processed_total));
        assert(exported(m.registry)[9] == Exported::IntCounter(m.indexing_errors_total));
        assert(exported_families(m.handles())[9] == counter_family(m.indexing_errors_total));
        assert(exported(m.registry)[10] == Exported::Gauge(m.job_queue_depth));
        assert(exported_families(m.handles())[10] == gauge_family(m.job_queue_depth));
    }
}

} // verus!
