//! Metrics text, and load figures from procfs.

use vstd::prelude::*;

use crate::common::{Counters, TenantKey};
use crate::datapath::saturated;
use crate::map_client::{map_error_text, MapError};
use crate::tenant::{
    cgroup_id_label, flow_text, http_method_label, http_method_name, normalized_flow_key,
    path_hash_label, path_hash_name, port_label, port_name, proto_label, proto_name,
};
use crate::text::{
    decimal, lines, matches_at, number, number_error_text, occurs_at, parse_u64, push_chars,
    push_u64, same_chars, slice_chars, split_lines, split_words, starts_with, texts, to_chars, words,
};

verus! {

/// The error of the metrics encoder.
#[verifier::external_type_specification]
#[verifier::external_body]
pub struct ExPrometheusError(prometheus::Error);

/// Why metrics could not be produced.
#[derive(Debug)]
pub enum MetricsError {
    /// Reading the counters failed.
    MapRead(MapError),
    Encode(prometheus::Error),
    ParseProc { path: &'static str, reason: String },
}

/// The wording of a `prometheus::Error`, by its `to_string`. Nothing is said of
/// the text.
#[verifier::external_body]
fn encoder_error_text(error: &prometheus::Error) -> (text: String) {
    error.to_string()
}

/// The wording of a metrics error, given that of the encoder where it is one of
/// the encoder's.
pub open spec fn metrics_error_text(error: MetricsError, encoder: Seq<char>) -> Seq<char> {
    match error {
        MetricsError::MapRead(failure) => "map operation failed: "@ + map_error_text(failure),
        MetricsError::Encode(_) => "failed to encode Prometheus metrics: "@ + encoder,
        MetricsError::ParseProc { path, reason } => "failed to parse "@ + path@ + ": "@ + reason@,
    }
}

/// Whether `text` can be the wording of an error of the encoder: that which its
/// `to_string` gives.
pub closed spec fn is_encoder_wording(error: prometheus::Error, text: Seq<char>) -> bool {
    exists|wording: String| #[trigger]
        call_ensures(encoder_error_text, (&error,), wording) && wording@ == text
}

impl MetricsError {
    /// Whether `text` can be the encoder's wording, where the error is one of the
    /// encoder's.
    pub open spec fn encoder_says(self, text: Seq<char>) -> bool {
        self matches MetricsError::Encode(error) ==> is_encoder_wording(error, text)
    }

    /// The wording of the error.
    pub fn message(&self) -> (text: String)
        ensures
            exists|encoder: Seq<char>|
                self.encoder_says(encoder) && text@ == #[trigger] metrics_error_text(
                    *self,
                    encoder,
                ),
    {
        let mut text = String::new();
        let ghost mut encoder: Seq<char> = seq![];
        match self {
            MetricsError::MapRead(failure) => {
                text.append("map operation failed: ");
                text.append(failure.message().as_str());
            },
            MetricsError::Encode(failure) => {
                let wording = encoder_error_text(failure);
                text.append("failed to encode Prometheus metrics: ");
                text.append(wording.as_str());
                proof {
                    assert(call_ensures(encoder_error_text, (failure,), wording));
                    encoder = wording@;
                }
            },
            MetricsError::ParseProc { path, reason } => {
                text.append("failed to parse ");
                text.append(path);
                text.append(": ");
                text.append(reason.as_str());
            },
        }
        assert(text@ =~= metrics_error_text(*self, encoder));
        text
    }
}

/// Numbers that the daemon keeps about itself.
#[derive(Clone, Copy, Debug, PartialEq, Eq, Structural)]
pub struct MetricsState {
    pub daemon_up: i64,
    pub partial_l7_policy_keys_total: u64,
    pub reconcile_failures_total: u64,
}

/// A failed read of the maps, a failed encoding and a file that does not parse are each
/// told as such, with what was wrong.
pub proof fn metrics_failures_are_worded(
    map: MapError,
    error: prometheus::Error,
    path: &'static str,
    reason: String,
    encoder: Seq<char>,
)
    ensures
        metrics_error_text(MetricsError::MapRead(map), encoder) == "map operation failed: "@
            + map_error_text(map),
        metrics_error_text(MetricsError::Encode(error), encoder)
            == "failed to encode Prometheus metrics: "@ + encoder,
        metrics_error_text(MetricsError::ParseProc { path, reason }, encoder) == "failed to parse "@
            + path@ + ": "@ + reason@,
{
}

/// A metric without labels in the text format: help, type and one sample.
pub open spec fn family_text(
    name: Seq<char>,
    help: Seq<char>,
    kind: Seq<char>,
    value: Seq<char>,
) -> Seq<char> {
    "# HELP "@ + name + " "@ + help + "\n# TYPE "@ + name + " "@ + kind + "\n"@ + name + " "@
        + value + "\n"@
}

pub const DAEMON_UP_NAME: &'static str = "vantage_daemon_up";

pub const DAEMON_UP_HELP: &'static str = "Daemon running state";

pub const PARTIAL_L7_NAME: &'static str = "vantage_partial_l7_policy_keys_total";

pub const PARTIAL_L7_HELP: &'static str = "Total number of policy upserts with L7 selectors and wildcard L4 selectors";

pub const RECONCILE_FAILURES_NAME: &'static str = "vantage_reconcile_failures_total";

pub const RECONCILE_FAILURES_HELP: &'static str = "Total number of non-fatal reconcile tick failures";

/// The largest number up to which a float holds every natural number.
pub const LARGEST_EXACT: u64 = 0x20_0000_0000_0000;

/// What `prometheus::TextEncoder::encode_to_string` makes of what a
/// `prometheus::Registry` gathers of one integer gauge and two integer counters,
/// each given by name, help text and value.
pub uninterp spec fn encoded_registry(
    gauge_name: Seq<char>,
    gauge_help: Seq<char>,
    gauge: i64,
    first_name: Seq<char>,
    first_help: Seq<char>,
    first: u64,
    second_name: Seq<char>,
    second_help: Seq<char>,
    second: u64,
) -> Seq<char>;

/// Registers the daemon's gauge and counters, each given by name, help text and
/// value, with a new `prometheus::Registry`, and encodes what it gathers with
/// `prometheus::TextEncoder::encode_to_string`. Registering fails for a name that
/// is no metric name, for an empty help text and for names whose hashes are the
/// same; these names and texts are none of that, so that nothing fails. `gather`
/// sorts by name, and the three are given in that order. Samples pass through a
/// float: a number that a float holds exactly is written in decimal.
#[verifier::external_body]
fn encode_registry(gauge: (&str, &str, i64), first: (&str, &str, u64), second: (&str, &str, u64)) -> (r:
    Result<String, prometheus::Error>)
    requires
        gauge.0@ == DAEMON_UP_NAME@,
        gauge.1@ == DAEMON_UP_HELP@,
        first.0@ == PARTIAL_L7_NAME@,
        first.1@ == PARTIAL_L7_HELP@,
        second.0@ == RECONCILE_FAILURES_NAME@,
        second.1@ == RECONCILE_FAILURES_HELP@,
    ensures
        r is Ok,
        r matches Ok(text) ==> text@ == encoded_registry(
            gauge.0@,
            gauge.1@,
            gauge.2,
            first.0@,
            first.1@,
            first.2,
            second.0@,
            second.1@,
            second.2,
        ),
        r matches Ok(text) ==> 0 <= gauge.2 <= LARGEST_EXACT && first.2 <= LARGEST_EXACT && second.2
            <= LARGEST_EXACT ==> text@ == family_text(
            gauge.0@,
            gauge.1@,
            "gauge"@,
            decimal(gauge.2 as nat),
        ) + family_text(first.0@, first.1@, "counter"@, decimal(first.2 as nat)) + family_text(
            second.0@,
            second.1@,
            "counter"@,
            decimal(second.2 as nat),
        ),
{
    let registry = prometheus::Registry::new();
    let up = prometheus::IntGauge::new(gauge.0, gauge.1)?;
    up.set(gauge.2);
    registry.register(Box::new(up))?;
    let counter = prometheus::IntCounter::new(first.0, first.1)?;
    counter.inc_by(first.2);
    registry.register(Box::new(counter))?;
    let counter = prometheus::IntCounter::new(second.0, second.1)?;
    counter.inc_by(second.2);
    registry.register(Box::new(counter))?;
    prometheus::TextEncoder::new().encode_to_string(&registry.gather())
}

impl MetricsState {
    /// The numbers of a daemon that has just started.
    pub fn new() -> (state: Self)
        ensures
            state == (MetricsState {
                daemon_up: 1,
                partial_l7_policy_keys_total: 0,
                reconcile_failures_total: 0,
            }),
    {
        MetricsState {
            daemon_up: 1,
            partial_l7_policy_keys_total: 0,
            reconcile_failures_total: 0,
        }
    }

    /// Counts a policy with HTTP selectors but without protocol and port.
    pub fn count_partial_l7_policy_key(&mut self)
        ensures
            *final(self) == (MetricsState {
                partial_l7_policy_keys_total: old(
                    self,
                ).partial_l7_policy_keys_total.wrapping_add(1),
                ..*old(self)
            }),
    {
        self.partial_l7_policy_keys_total = self.partial_l7_policy_keys_total.wrapping_add(1);
    }

    /// Counts a failed reconcile.
    pub fn count_reconcile_failure(&mut self)
        ensures
            *final(self) == (MetricsState {
                reconcile_failures_total: old(self).reconcile_failures_total.wrapping_add(1),
                ..*old(self)
            }),
    {
        self.reconcile_failures_total = self.reconcile_failures_total.wrapping_add(1);
    }

    /// The daemon's own metrics in the text format.
    pub open spec fn text(self) -> Seq<char> {
        encoded_registry(
            DAEMON_UP_NAME@,
            DAEMON_UP_HELP@,
            self.daemon_up,
            PARTIAL_L7_NAME@,
            PARTIAL_L7_HELP@,
            self.partial_l7_policy_keys_total,
            RECONCILE_FAILURES_NAME@,
            RECONCILE_FAILURES_HELP@,
            self.reconcile_failures_total,
        )
    }

    /// Encodes the daemon's own metrics. Numbers that a float holds exactly are
    /// written in decimal, one metric after the other in the order of their names.
    pub fn encode(&self) -> (r: Result<String, MetricsError>)
        ensures
            r matches Ok(text) && text@ == self.text(),
            r matches Ok(text) && (0 <= self.daemon_up <= LARGEST_EXACT
                && self.partial_l7_policy_keys_total <= LARGEST_EXACT
                && self.reconcile_failures_total <= LARGEST_EXACT ==> text@ == family_text(
                DAEMON_UP_NAME@,
                DAEMON_UP_HELP@,
                "gauge"@,
                decimal(self.daemon_up as nat),
            ) + family_text(
                PARTIAL_L7_NAME@,
                PARTIAL_L7_HELP@,
                "counter"@,
                decimal(self.partial_l7_policy_keys_total as nat),
            ) + family_text(
                RECONCILE_FAILURES_NAME@,
                RECONCILE_FAILURES_HELP@,
                "counter"@,
                decimal(self.reconcile_failures_total as nat),
            )),
    {
        match encode_registry(
            (DAEMON_UP_NAME, DAEMON_UP_HELP, self.daemon_up),
            (PARTIAL_L7_NAME, PARTIAL_L7_HELP, self.partial_l7_policy_keys_total),
            (RECONCILE_FAILURES_NAME, RECONCILE_FAILURES_HELP, self.reconcile_failures_total),
        ) {
            Ok(text) => Ok(text),
            Err(error) => Err(MetricsError::Encode(error)),
        }
    }
}

/// The help and type lines of the tenant metrics.
pub open spec fn tenant_header() -> Seq<char> {
    "# HELP vantage_tenant_pass_packets Total packets allowed by policy.\n"@
        + "# TYPE vantage_tenant_pass_packets counter\n"@
        + "# HELP vantage_tenant_drop_packets Total packets dropped by policy.\n"@
        + "# TYPE vantage_tenant_drop_packets counter\n"@
        + "# HELP vantage_tenant_pass_bytes Total bytes allowed by policy.\n"@
        + "# TYPE vantage_tenant_pass_bytes counter\n"@
        + "# HELP vantage_tenant_drop_bytes Total bytes dropped by policy.\n"@
        + "# TYPE vantage_tenant_drop_bytes counter\n"@
}

/// The labels of a flow.
pub open spec fn flow_labels(key: TenantKey) -> Seq<char> {
    "{cgroup_id=\""@ + decimal(key.cgroup_id as nat) + "\",dst_port=\""@ + port_name(key.dst_port)
        + "\",proto=\""@ + proto_name(key.proto) + "\",http_method=\""@ + http_method_name(
        key.http_method,
    ) + "\",http_path_hash=\""@ + path_hash_name(key.http_path_hash) + "\",flow=\""@ + flow_text(
        key,
    ) + "\"}"@
}

/// One sample line.
pub open spec fn sample_line(name: Seq<char>, labels: Seq<char>, value: u64) -> Seq<char> {
    name + labels + " "@ + decimal(value as nat) + "\n"@
}

/// The four sample lines of one set of counters.
pub open spec fn counter_lines(labels: Seq<char>, counters: Counters) -> Seq<char> {
    sample_line("vantage_tenant_pass_packets"@, labels, counters.pass_pkts) + sample_line(
        "vantage_tenant_drop_packets"@,
        labels,
        counters.drop_pkts,
    ) + sample_line("vantage_tenant_pass_bytes"@, labels, counters.pass_bytes) + sample_line(
        "vantage_tenant_drop_bytes"@,
        labels,
        counters.drop_bytes,
    )
}

/// The sample lines of every flow, in order.
pub open spec fn flow_lines(rows: Seq<(TenantKey, Counters)>) -> Seq<char>
    decreases rows.len(),
{
    if rows.len() == 0 {
        seq![]
    } else {
        flow_lines(rows.drop_last()) + counter_lines(flow_labels(rows.last().0), rows.last().1)
    }
}

/// The counters of all flows together, each held at its largest value.
pub open spec fn total_counters(rows: Seq<(TenantKey, Counters)>) -> Counters
    decreases rows.len(),
{
    if rows.len() == 0 {
        Counters { pass_pkts: 0, drop_pkts: 0, pass_bytes: 0, drop_bytes: 0 }
    } else {
        let sum = total_counters(rows.drop_last());
        let last = rows.last().1;
        Counters {
            pass_pkts: saturated(sum.pass_pkts, last.pass_pkts),
            drop_pkts: saturated(sum.drop_pkts, last.drop_pkts),
            pass_bytes: saturated(sum.pass_bytes, last.pass_bytes),
            drop_bytes: saturated(sum.drop_bytes, last.drop_bytes),
        }
    }
}

/// One column of `rows`.
pub open spec fn column(rows: Seq<(TenantKey, Counters)>, pick: spec_fn(Counters) -> u64) -> Seq<
    u64,
> {
    rows.map_values(|row: (TenantKey, Counters)| pick(row.1))
}

/// The sum of `values`, held at the largest `u64`.
pub open spec fn capped_sum(values: Seq<u64>) -> u64 {
    if sum_of(values) > u64::MAX {
        u64::MAX
    } else {
        sum_of(values) as u64
    }
}

proof fn sum_is_not_negative(values: Seq<u64>)
    ensures
        sum_of(values) >= 0,
    decreases values.len(),
{
    if values.len() > 0 {
        sum_is_not_negative(values.drop_last());
    }
}

proof fn removing_takes_from_the_sum(values: Seq<u64>, at: int)
    requires
        0 <= at < values.len(),
    ensures
        sum_of(values) == sum_of(values.remove(at)) + values[at],
    decreases values.len(),
{
    if at == values.len() - 1 {
        assert(values.remove(at) =~= values.drop_last());
    } else {
        removing_takes_from_the_sum(values.drop_last(), at);
        assert(values.remove(at).drop_last() =~= values.drop_last().remove(at));
    }
}

proof fn sum_ignores_the_order(
    a: Seq<Counters>,
    b: Seq<Counters>,
    pick: spec_fn(Counters) -> u64,
)
    requires
        a.to_multiset() == b.to_multiset(),
    ensures
        sum_of(a.map_values(pick)) == sum_of(b.map_values(pick)),
    decreases a.len(),
{
    broadcast use vstd::seq_lib::group_to_multiset_ensures;

    assert(a.to_multiset().len() == a.len());
    if a.len() > 0 {
        let last = a.last();
        assert(a.to_multiset().count(last) > 0);
        let at = choose|at: int| 0 <= at < b.len() && b[at] == last;
        assert(a.remove(a.len() - 1) =~= a.drop_last());
        sum_ignores_the_order(a.drop_last(), b.remove(at), pick);
        removing_takes_from_the_sum(b.map_values(pick), at);
        assert(b.map_values(pick).remove(at) =~= b.remove(at).map_values(pick));
        assert(a.map_values(pick).drop_last() =~= a.drop_last().map_values(pick));
    }
}

/// Aggregate totals are column sums: each is the sum of its column over all flows,
/// held at the largest value.
pub proof fn totals_are_capped_column_sums(rows: Seq<(TenantKey, Counters)>)
    ensures
        total_counters(rows) == (Counters {
            pass_pkts: capped_sum(column(rows, |c: Counters| c.pass_pkts)),
            drop_pkts: capped_sum(column(rows, |c: Counters| c.drop_pkts)),
            pass_bytes: capped_sum(column(rows, |c: Counters| c.pass_bytes)),
            drop_bytes: capped_sum(column(rows, |c: Counters| c.drop_bytes)),
        }),
    decreases rows.len(),
{
    if rows.len() > 0 {
        totals_are_capped_column_sums(rows.drop_last());
    }
    assert forall|pick: spec_fn(Counters) -> u64|
        rows.len() > 0 implies #[trigger] sum_of(column(rows, pick)) == sum_of(
        column(rows.drop_last(), pick),
    ) + pick(rows.last().1) && sum_of(column(rows.drop_last(), pick)) >= 0 by {
        assert(column(rows, pick).drop_last() =~= column(rows.drop_last(), pick));
        sum_is_not_negative(column(rows.drop_last(), pick));
    }
}

/// The counters of `rows`, whatever their keys.
pub open spec fn counters_of(rows: Seq<(TenantKey, Counters)>) -> Seq<Counters> {
    rows.map_values(|row: (TenantKey, Counters)| row.1)
}

/// Aggregate totals depend neither on the order in which the flows come nor on which
/// flow has which counters.
pub proof fn totals_ignore_the_order(
    a: Seq<(TenantKey, Counters)>,
    b: Seq<(TenantKey, Counters)>,
)
    requires
        counters_of(a).to_multiset() == counters_of(b).to_multiset(),
    ensures
        total_counters(a) == total_counters(b),
{
    totals_are_capped_column_sums(a);
    totals_are_capped_column_sums(b);
    assert forall|pick: spec_fn(Counters) -> u64| #[trigger]
        sum_of(column(a, pick)) == sum_of(column(b, pick)) by {
        sum_ignores_the_order(counters_of(a), counters_of(b), pick);
        assert(column(a, pick) =~= counters_of(a).map_values(pick));
        assert(column(b, pick) =~= counters_of(b).map_values(pick));
    }
}

/// The tenant metrics in the text format: one line per flow and counter, or one
/// per counter for all flows together.
pub open spec fn tenant_text(rows: Seq<(TenantKey, Counters)>, dimensional: bool) -> Seq<char> {
    if dimensional {
        tenant_header() + flow_lines(rows)
    } else {
        tenant_header() + counter_lines(seq![], total_counters(rows))
    }
}

/// The lines of one set of counters: a sample for each of the four counters, with the
/// name of the metric, the labels, a space and the counter in decimal.
pub proof fn a_row_has_four_samples(labels: Seq<char>, counters: Counters)
    ensures
        counter_lines(labels, counters) == "vantage_tenant_pass_packets"@ + labels + " "@ + decimal(
            counters.pass_pkts as nat,
        ) + "\n"@ + ("vantage_tenant_drop_packets"@ + labels + " "@ + decimal(
            counters.drop_pkts as nat,
        ) + "\n"@) + ("vantage_tenant_pass_bytes"@ + labels + " "@ + decimal(
            counters.pass_bytes as nat,
        ) + "\n"@) + ("vantage_tenant_drop_bytes"@ + labels + " "@ + decimal(
            counters.drop_bytes as nat,
        ) + "\n"@),
{
}

/// The labels of a flow name its cgroup, port, protocol, method and path hash, and the
/// flow as a whole.
pub proof fn flow_labels_name_every_selector(key: TenantKey)
    ensures
        flow_labels(key) == "{cgroup_id=\""@ + decimal(key.cgroup_id as nat) + "\",dst_port=\""@
            + port_name(key.dst_port) + "\",proto=\""@ + proto_name(key.proto)
            + "\",http_method=\""@ + http_method_name(key.http_method) + "\",http_path_hash=\""@
            + path_hash_name(key.http_path_hash) + "\",flow=\""@ + flow_text(key) + "\"}"@,
{
}

/// The tenant metrics start with a help line and a type line for each of the four
/// counters, whatever the rows and however they are shown.
pub proof fn tenant_metrics_start_with_help(rows: Seq<(TenantKey, Counters)>, dimensional: bool)
    ensures
        ({
            let header = "# HELP vantage_tenant_pass_packets Total packets allowed by policy.\n"@
                + "# TYPE vantage_tenant_pass_packets counter\n"@
                + "# HELP vantage_tenant_drop_packets Total packets dropped by policy.\n"@
                + "# TYPE vantage_tenant_drop_packets counter\n"@
                + "# HELP vantage_tenant_pass_bytes Total bytes allowed by policy.\n"@
                + "# TYPE vantage_tenant_pass_bytes counter\n"@
                + "# HELP vantage_tenant_drop_bytes Total bytes dropped by policy.\n"@
                + "# TYPE vantage_tenant_drop_bytes counter\n"@;
            &&& starts_with(tenant_text(rows, dimensional), header)
            &&& tenant_text(Seq::empty(), true) == header
        }),
{
    let text = tenant_text(rows, dimensional);
    assert(text.take(tenant_header().len() as int) =~= tenant_header());
    assert(tenant_text(Seq::empty(), true) =~= tenant_header());
}

/// With dimensions every flow is reported, whatever its counters: one more row adds
/// its own lines behind those of the others.
pub proof fn one_more_flow_adds_its_lines(
    rows: Seq<(TenantKey, Counters)>,
    key: TenantKey,
    counters: Counters,
)
    ensures
        tenant_text(rows.push((key, counters)), true) == tenant_text(rows, true) + counter_lines(
            flow_labels(key),
            counters,
        ),
{
    let all = rows.push((key, counters));
    assert(all.drop_last() =~= rows);
    assert(tenant_text(all, true) =~= tenant_text(rows, true) + counter_lines(
        flow_labels(key),
        counters,
    ));
}

/// How many characters the lines of `rows` have together.
pub open spec fn lines_len(rows: Seq<(TenantKey, Counters)>) -> nat
    decreases rows.len(),
{
    if rows.len() == 0 {
        0
    } else {
        lines_len(rows.drop_last()) + counter_lines(
            flow_labels(rows.last().0),
            rows.last().1,
        ).len()
    }
}

/// With dimensions every row is reported: its lines stand in the text, behind the
/// header and the lines of the rows before it, and the text has nothing besides.
pub proof fn every_flow_is_reported(rows: Seq<(TenantKey, Counters)>, i: int)
    requires
        0 <= i < rows.len(),
    ensures
        occurs_at(
            tenant_text(rows, true),
            counter_lines(flow_labels(rows[i].0), rows[i].1),
            (tenant_header().len() + lines_len(rows.take(i))) as int,
        ),
        tenant_text(rows, true).len() == tenant_header().len() + lines_len(rows),
    decreases rows.len(),
{
    let front = rows.drop_last();
    let last = rows.last();
    let text = tenant_text(rows, true);
    flow_lines_fill_the_text(front);
    flow_lines_fill_the_text(rows);
    one_more_flow_adds_its_lines(front, last.0, last.1);
    assert(front.push((last.0, last.1)) =~= rows);
    let own = counter_lines(flow_labels(rows[i].0), rows[i].1);
    if i == rows.len() - 1 {
        assert(rows.take(i) =~= front);
        let at = tenant_text(front, true).len() as int;
        assert(text.subrange(at, at + own.len()) =~= own);
    } else {
        every_flow_is_reported(front, i);
        assert(front.take(i) =~= rows.take(i));
        let at = (tenant_header().len() + lines_len(rows.take(i))) as int;
        assert(text.subrange(at, at + own.len()) =~= tenant_text(front, true).subrange(
            at,
            at + own.len(),
        ));
    }
}

proof fn flow_lines_fill_the_text(rows: Seq<(TenantKey, Counters)>)
    ensures
        tenant_text(rows, true).len() == tenant_header().len() + lines_len(rows),
    decreases rows.len(),
{
    if rows.len() > 0 {
        flow_lines_fill_the_text(rows.drop_last());
    }
}

/// Without dimensions there is one set of lines, without labels, for the totals of all
/// rows; one more row adds its counters to the totals, each up to its largest value.
pub proof fn one_more_flow_adds_to_the_totals(
    rows: Seq<(TenantKey, Counters)>,
    key: TenantKey,
    counters: Counters,
)
    ensures
        tenant_text(rows, false) == tenant_text(Seq::empty(), true) + counter_lines(
            Seq::empty(),
            total_counters(rows),
        ),
        total_counters(Seq::empty()) == (Counters {
            pass_pkts: 0,
            drop_pkts: 0,
            pass_bytes: 0,
            drop_bytes: 0,
        }),
        ({
            let before = total_counters(rows);
            let after = total_counters(rows.push((key, counters)));
            &&& after.pass_pkts == capped(before.pass_pkts + counters.pass_pkts)
            &&& after.drop_pkts == capped(before.drop_pkts + counters.drop_pkts)
            &&& after.pass_bytes == capped(before.pass_bytes + counters.pass_bytes)
            &&& after.drop_bytes == capped(before.drop_bytes + counters.drop_bytes)
        }),
{
    let all = rows.push((key, counters));
    assert(all.drop_last() =~= rows);
    assert(tenant_text(Seq::empty(), true) =~= tenant_header());
}

/// `n`, but no more than the largest `u64`.
pub open spec fn capped(n: int) -> int {
    if n > 0xffff_ffff_ffff_ffff {
        0xffff_ffff_ffff_ffff
    } else {
        n
    }
}

fn push_sample(out: &mut String, name: &str, labels: &str, value: u64)
    ensures
        final(out)@ == old(out)@ + sample_line(name@, labels@, value),
{
    out.append(name);
    out.append(labels);
    out.append(" ");
    push_u64(out, value);
    out.append("\n");
    assert(out@ =~= old(out)@ + sample_line(name@, labels@, value));
}

fn push_counters(out: &mut String, labels: &str, counters: &Counters)
    ensures
        final(out)@ == old(out)@ + counter_lines(labels@, *counters),
{
    push_sample(out, "vantage_tenant_pass_packets", labels, counters.pass_pkts);
    push_sample(out, "vantage_tenant_drop_packets", labels, counters.drop_pkts);
    push_sample(out, "vantage_tenant_pass_bytes", labels, counters.pass_bytes);
    push_sample(out, "vantage_tenant_drop_bytes", labels, counters.drop_bytes);
    assert(out@ =~= old(out)@ + counter_lines(labels@, *counters));
}

fn labels_of(key: TenantKey) -> (labels: String)
    ensures
        labels@ == flow_labels(key),
{
    let mut labels = String::new();
    labels.append("{cgroup_id=\"");
    labels.append(cgroup_id_label(key.cgroup_id).as_str());
    labels.append("\",dst_port=\"");
    labels.append(port_label(key.dst_port).as_str());
    labels.append("\",proto=\"");
    labels.append(proto_label(key.proto));
    labels.append("\",http_method=\"");
    labels.append(http_method_label(key.http_method));
    labels.append("\",http_path_hash=\"");
    labels.append(path_hash_label(key.http_path_hash).as_str());
    labels.append("\",flow=\"");
    labels.append(normalized_flow_key(key).as_str());
    labels.append("\"}");
    assert(labels@ =~= flow_labels(key));
    labels
}

/// Writes the tenant metrics in the text format.
pub fn append_counter_metrics(counters: &[(TenantKey, Counters)], dimensional: bool) -> (payload:
    String)
    ensures
        payload@ == tenant_text(counters@, dimensional),
{
    let mut payload = String::new();
    payload.append("# HELP vantage_tenant_pass_packets Total packets allowed by policy.\n");
    payload.append("# TYPE vantage_tenant_pass_packets counter\n");
    payload.append("# HELP vantage_tenant_drop_packets Total packets dropped by policy.\n");
    payload.append("# TYPE vantage_tenant_drop_packets counter\n");
    payload.append("# HELP vantage_tenant_pass_bytes Total bytes allowed by policy.\n");
    payload.append("# TYPE vantage_tenant_pass_bytes counter\n");
    payload.append("# HELP vantage_tenant_drop_bytes Total bytes dropped by policy.\n");
    payload.append("# TYPE vantage_tenant_drop_bytes counter\n");
    assert(payload@ =~= tenant_header());
    let mut i: usize = 0;
    if dimensional {
        assert(payload@ =~= tenant_header() + flow_lines(counters@.take(0)));
        while i < counters.len()
            invariant
                i <= counters@.len(),
                payload@ == tenant_header() + flow_lines(counters@.take(i as int)),
            decreases counters@.len() - i,
        {
            let (tenant, current): (TenantKey, Counters) = counters[i];
            let labels = labels_of(tenant);
            push_counters(&mut payload, labels.as_str(), &current);
            proof {
                let next = counters@.take(i + 1);
                assert(next.drop_last() =~= counters@.take(i as int));
                assert(next.last() == counters@[i as int]);
                assert(payload@ =~= tenant_header() + flow_lines(next));
            }
            i += 1;
        }
        assert(counters@.take(i as int) =~= counters@);
        return payload;
    }
    let mut totals = Counters { pass_pkts: 0, drop_pkts: 0, pass_bytes: 0, drop_bytes: 0 };
    while i < counters.len()
        invariant
            i <= counters@.len(),
            totals == total_counters(counters@.take(i as int)),
        decreases counters@.len() - i,
    {
        let (_, current): (TenantKey, Counters) = counters[i];
        proof {
            let next = counters@.take(i + 1);
            assert(next.drop_last() =~= counters@.take(i as int));
            assert(next.last() == counters@[i as int]);
        }
        totals.pass_pkts = totals.pass_pkts.saturating_add(current.pass_pkts);
        totals.drop_pkts = totals.drop_pkts.saturating_add(current.drop_pkts);
        totals.pass_bytes = totals.pass_bytes.saturating_add(current.pass_bytes);
        totals.drop_bytes = totals.drop_bytes.saturating_add(current.drop_bytes);
        i += 1;
    }
    assert(counters@.take(i as int) =~= counters@);
    let none = String::new();
    push_counters(&mut payload, none.as_str(), &totals);
    assert(none@ =~= seq![]);
    payload
}

/// The tenant metrics of the counters that `collect` gives.
pub fn render_metrics<F: FnOnce() -> Result<Vec<(TenantKey, Counters)>, MapError>>(
    collect: F,
    dimensional: bool,
) -> (r: Result<String, MetricsError>)
    requires
        call_requires(collect, ()),
    ensures
        match r {
            Ok(text) => exists|counters: Vec<(TenantKey, Counters)>| #[trigger]
                call_ensures(
                    collect,
                    (),
                    Ok::<Vec<(TenantKey, Counters)>, MapError>(counters),
                ) && text@ == tenant_text(counters@, dimensional),
            Err(MetricsError::MapRead(error)) => call_ensures(
                collect,
                (),
                Err::<Vec<(TenantKey, Counters)>, MapError>(error),
            ),
            Err(_) => false,
        },
{
    match collect() {
        Ok(counters) => Ok(append_counter_metrics(counters.as_slice(), dimensional)),
        Err(error) => Err(MetricsError::MapRead(error)),
    }
}

/// All metrics: the daemon's own, followed by those of the tenants. Asking for
/// them marks the daemon as up.
pub fn render_metrics_payload<F: FnOnce() -> Result<Vec<(TenantKey, Counters)>, MapError>>(
    metrics: &mut MetricsState,
    collect: F,
    dimensional: bool,
) -> (r: Result<String, MetricsError>)
    requires
        call_requires(collect, ()),
    ensures
        *final(metrics) == (MetricsState { daemon_up: 1, ..*old(metrics) }),
        match r {
            Ok(text) => exists|counters: Vec<(TenantKey, Counters)>| #[trigger]
                call_ensures(
                    collect,
                    (),
                    Ok::<Vec<(TenantKey, Counters)>, MapError>(counters),
                ) && text@ == final(metrics).text() + tenant_text(counters@, dimensional),
            Err(MetricsError::MapRead(error)) => call_ensures(
                collect,
                (),
                Err::<Vec<(TenantKey, Counters)>, MapError>(error),
            ),
            Err(_) => false,
        },
{
    metrics.daemon_up = 1;
    let mut payload = match metrics.encode() {
        Ok(text) => text,
        Err(error) => return Err(error),
    };
    match render_metrics(collect, dimensional) {
        Ok(counters) => {
            payload.append(counters.as_str());
            Ok(payload)
        },
        Err(error) => Err(error),
    }
}

pub const SYSTEM_STAT_PATH: &'static str = "/proc/stat";

pub const DAEMON_STAT_PATH: &'static str = "/proc/self/stat";

/// The numbers that `fields` write, or why the first field that is none is not.
pub open spec fn jiffy_values(fields: Seq<Seq<char>>) -> Result<Seq<u64>, Seq<char>>
    decreases fields.len(),
{
    if fields.len() == 0 {
        Ok(seq![])
    } else {
        match jiffy_values(fields.drop_last()) {
            Err(reason) => Err(reason),
            Ok(values) => match number(fields.last()) {
                Ok(value) => Ok(values.push(value)),
                Err(error) => Err(
                    "invalid jiffy field '"@ + fields.last() + "': "@ + number_error_text(error),
                ),
            },
        }
    }
}

/// The sum of `values`.
pub open spec fn sum_of(values: Seq<u64>) -> int
    decreases values.len(),
{
    if values.len() == 0 {
        0
    } else {
        sum_of(values.drop_last()) + values.last()
    }
}

/// `fields` without the first one.
pub open spec fn after_first(fields: Seq<Seq<char>>) -> Seq<Seq<char>> {
    if fields.len() == 0 {
        fields
    } else {
        fields.skip(1)
    }
}

/// The first line that starts with `cpu` and a space.
pub open spec fn cpu_line(all: Seq<Seq<char>>) -> Option<Seq<char>>
    decreases all.len(),
{
    if all.len() == 0 {
        None
    } else if starts_with(all[0], "cpu "@) {
        Some(all[0])
    } else {
        cpu_line(all.skip(1))
    }
}

/// Total and idle jiffies of the system, or why `/proc/stat` does not tell. The
/// total is taken modulo the range.
pub open spec fn system_jiffies(text: Seq<char>) -> Result<(u64, u64), Seq<char>> {
    match cpu_line(lines(text)) {
        None => Err("missing aggregate cpu line"@),
        Some(line) => match jiffy_values(after_first(words(line))) {
            Err(reason) => Err(reason),
            Ok(values) => if values.len() < 5 {
                Err("expected at least 5 cpu fields, found "@ + decimal(values.len()))
            } else {
                Ok(
                    (
                        (sum_of(values) % 0x1_0000_0000_0000_0000) as u64,
                        saturated(values[3], values[4]),
                    ),
                )
            },
        },
    }
}

/// Whether `r` is the outcome `expected` of reading the file at `path`.
pub open spec fn parse_outcome<T>(
    r: Result<T, MetricsError>,
    path: Seq<char>,
    expected: Result<T, Seq<char>>,
) -> bool {
    match expected {
        Ok(value) => r == Ok::<T, MetricsError>(value),
        Err(why) => r matches Err(MetricsError::ParseProc { path: place, reason }) && place@ == path
            && reason@ == why,
    }
}

/// An outcome is the value that was expected, or a parse failure that names the file and
/// the reason.
pub proof fn failures_name_the_file_and_the_reason<T>(
    r: Result<T, MetricsError>,
    path: Seq<char>,
    expected: Result<T, Seq<char>>,
)
    requires
        parse_outcome(r, path, expected),
    ensures
        expected matches Ok(value) ==> (r matches Ok(found) && found == value),
        expected matches Err(why) ==> (r matches Err(
            MetricsError::ParseProc { path: place, reason },
        ) && place@ == path && reason@ == why),
{
}

proof fn jiffy_error_stays(fields: Seq<Seq<char>>, n: int)
    requires
        0 <= n <= fields.len(),
        jiffy_values(fields.take(n)) is Err,
    ensures
        jiffy_values(fields) == jiffy_values(fields.take(n)),
    decreases fields.len() - n,
{
    if n < fields.len() {
        assert(fields.take(n + 1).drop_last() =~= fields.take(n));
        jiffy_error_stays(fields, n + 1);
    } else {
        assert(fields.take(n) =~= fields);
    }
}

/// The line of the whole system is the first that starts with `cpu` and a space.
pub proof fn the_first_cpu_line_counts(all: Seq<Seq<char>>, i: int)
    requires
        0 <= i <= all.len(),
        forall|j: int| 0 <= j < i ==> !is_cpu_line(#[trigger] all[j]),
        i < all.len() ==> is_cpu_line(all[i]),
    ensures
        cpu_line(all) == (if i < all.len() {
            Some(all[i])
        } else {
            None
        }),
    decreases i,
{
    reveal_strlit("cpu ");
    let prefix = "cpu "@;
    if all.len() > 0 {
        let line = all[0];
        assert(starts_with(line, prefix) == is_cpu_line(line)) by {
            if line.len() >= 4 {
                assert(line.take(4)[0] == line[0]);
                assert(line.take(4)[1] == line[1]);
                assert(line.take(4)[2] == line[2]);
                assert(line.take(4)[3] == line[3]);
                if is_cpu_line(line) {
                    assert(line.take(4) =~= prefix);
                }
            }
        }
    }
    if i > 0 {
        let rest = all.skip(1);
        assert forall|j: int| 0 <= j < i - 1 implies !is_cpu_line(#[trigger] rest[j]) by {
            assert(rest[j] == all[j + 1]);
        }
        if i < all.len() {
            assert(rest[i - 1] == all[i]);
        }
        the_first_cpu_line_counts(rest, i - 1);
    }
}

/// Whether `line` starts with `cpu` and a space.
pub open spec fn is_cpu_line(line: Seq<char>) -> bool {
    line.len() >= 4 && line[0] == 'c' && line[1] == 'p' && line[2] == 'u' && line[3] == ' '
}

/// Fields are read one by one: where each is a number, they give these numbers, and
/// where one is none, they give none.
pub proof fn jiffies_are_read_field_by_field(fields: Seq<Seq<char>>, i: int)
    requires
        0 <= i < fields.len(),
    ensures
        jiffy_values(fields) matches Ok(values) ==> values.len() == fields.len() && number(fields[i])
            == Ok::<u64, crate::text::NumberError>(values[i]),
        number(fields[i]) is Err ==> jiffy_values(fields) is Err,
        number(fields[i]) matches Err(error) ==> (forall|j: int|
            0 <= j < i ==> number(#[trigger] fields[j]) is Ok) ==> jiffy_values(fields) == Err::<
            Seq<u64>,
            Seq<char>,
        >("invalid jiffy field '"@ + fields[i] + "': "@ + number_error_text(error)),
        (forall|j: int| 0 <= j < fields.len() ==> number(#[trigger] fields[j]) is Ok)
            ==> jiffy_values(fields) is Ok,
    decreases fields.len(),
{
    let front = fields.drop_last();
    if i < front.len() {
        assert(front[i] == fields[i]);
        if forall|j: int| 0 <= j < i ==> number(#[trigger] fields[j]) is Ok {
            assert forall|j: int| 0 <= j < i implies number(#[trigger] front[j]) is Ok by {
                assert(front[j] == fields[j]);
            }
        }
        jiffies_are_read_field_by_field(front, i);
    } else if front.len() > 0 {
        if forall|j: int| 0 <= j < i ==> number(#[trigger] fields[j]) is Ok {
            assert forall|j: int| 0 <= j < front.len() implies number(
                #[trigger] front[j],
            ) is Ok by {
                assert(front[j] == fields[j]);
            }
        }
    }
    if front.len() > 0 {
        jiffies_are_read_field_by_field(front, 0);
    }
    if forall|j: int| 0 <= j < fields.len() ==> number(#[trigger] fields[j]) is Ok {
        assert forall|j: int| 0 <= j < front.len() implies number(#[trigger] front[j]) is Ok by {
            assert(front[j] == fields[j]);
        }
        if front.len() > 0 {
            jiffies_are_read_field_by_field(front, 0);
        }
        assert(number(fields[fields.len() - 1]) is Ok);
    }
}

/// The jiffies of the system come from the fields behind `cpu`: their sum modulo the
/// range, and of them the fourth and the fifth, up to the largest value, as idle.
pub proof fn system_jiffies_sum_the_fields(
    text: Seq<char>,
    line: Seq<char>,
    values: Seq<u64>,
)
    requires
        cpu_line(lines(text)) == Some(line),
        words(line).len() > 0,
        jiffy_values(words(line).skip(1)) == Ok::<Seq<u64>, Seq<char>>(values),
    ensures
        values.len() < 5 ==> system_jiffies(text) == Err::<(u64, u64), Seq<char>>(
            "expected at least 5 cpu fields, found "@ + decimal(values.len()),
        ),
        values.len() >= 5 ==> (system_jiffies(text) matches Ok((total, idle)) && idle == capped(
            values[3] + values[4],
        ) && total as int == sum_of(values) % 0x1_0000_0000_0000_0000),
        sum_of(Seq::empty()) == 0,
        forall|more: u64| #[trigger] sum_of(values.push(more)) == sum_of(values) + more,
{
    assert forall|more: u64| #[trigger] sum_of(values.push(more)) == sum_of(values) + more by {
        assert(values.push(more).drop_last() =~= values);
    }
}

/// Without a line of the whole system, or with a field there that is no number, the
/// jiffies of the system are not told.
pub proof fn system_jiffies_need_a_cpu_line(text: Seq<char>)
    ensures
        cpu_line(lines(text)) is None ==> system_jiffies(text) == Err::<(u64, u64), Seq<char>>(
            "missing aggregate cpu line"@,
        ),
        cpu_line(lines(text)) matches Some(line) ==> (jiffy_values(
            words(line).skip(1),
        ) matches Err(reason) ==> words(line).len() > 0 ==> system_jiffies(text) == Err::<
            (u64, u64),
            Seq<char>,
        >(reason)),
{
}

/// Finds the line of the whole system.
fn find_cpu_line(all: &Vec<Vec<char>>) -> (r: Option<usize>)
    ensures
        match r {
            Some(i) => i < all@.len() && cpu_line(texts(all@)) == Some(all@[i as int]@),
            None => cpu_line(texts(all@)) is None,
        },
{
    let prefix = to_chars("cpu ");
    let ghost full = texts(all@);
    let mut i: usize = 0;
    assert(full.skip(0) =~= full);
    while i < all.len()
        invariant
            i <= all@.len(),
            prefix@ == "cpu "@,
            full == texts(all@),
            full.len() == all@.len(),
            cpu_line(full) == cpu_line(full.skip(i as int)),
        decreases all@.len() - i,
    {
        let ghost rest = full.skip(i as int);
        assert(rest[0] == full[i as int]);
        assert(full[i as int] == all@[i as int]@);
        assert(rest.skip(1) =~= full.skip(i + 1));
        proof {
            let line = all@[i as int]@;
            if prefix@.len() <= line.len() {
                assert(line.take(prefix@.len() as int) =~= line.subrange(0, prefix@.len() as int));
            }
        }
        if matches_at(all[i].as_slice(), prefix.as_slice(), 0) {
            return Some(i);
        }
        i += 1;
    }
    assert(full.skip(i as int) =~= Seq::<Seq<char>>::empty());
    None
}

/// Reads total and idle jiffies of the system from the text of `/proc/stat`.
pub fn parse_system_jiffies(text: &str) -> (r: Result<(u64, u64), MetricsError>)
    ensures
        parse_outcome(r, SYSTEM_STAT_PATH@, system_jiffies(text@)),
{
    let chars = to_chars(text);
    let all = split_lines(chars.as_slice());
    let at: usize = match find_cpu_line(&all) {
        Some(i) => i,
        None => return Err(
            MetricsError::ParseProc {
                path: SYSTEM_STAT_PATH,
                reason: "missing aggregate cpu line".to_owned(),
            },
        ),
    };
    let fields = split_words(all[at].as_slice());
    let ghost tokens = texts(fields@);
    let ghost rest = after_first(tokens);
    let start: usize = if fields.len() == 0 {
        0
    } else {
        1
    };
    let mut values: Vec<u64> = Vec::new();
    let mut total: u64 = 0;
    let mut i: usize = start;
    assert(rest.take(0) =~= Seq::<Seq<char>>::empty());
    assert(values@ =~= Seq::<u64>::empty());
    while i < fields.len()
        invariant
            start <= i <= fields@.len(),
            start == (if fields@.len() == 0 {
                0int
            } else {
                1
            }),
            tokens == texts(fields@),
            tokens.len() == fields@.len(),
            rest == after_first(tokens),
            jiffy_values(rest.take(i - start)) == Ok::<Seq<u64>, Seq<char>>(values@),
            total == sum_of(values@) % 0x1_0000_0000_0000_0000,
            values@.len() == i - start,
            cpu_line(lines(text@)) matches Some(line) && words(line) == tokens,
        decreases fields@.len() - i,
    {
        proof {
            let next = rest.take(i as int);
            assert(next.drop_last() =~= rest.take(i - 1));
            assert(next.last() == tokens[i as int]);
            assert(tokens[i as int] == fields@[i as int]@);
        }
        match parse_u64(fields[i].as_slice()) {
            Err(error) => {
                let mut reason = String::new();
                reason.append("invalid jiffy field '");
                push_chars(&mut reason, fields[i].as_slice());
                reason.append("': ");
                reason.append(error.message());
                proof {
                    jiffy_error_stays(rest, i as int);
                    assert(reason@ =~= "invalid jiffy field '"@ + fields@[i as int]@ + "': "@
                        + number_error_text(error));
                }
                return Err(MetricsError::ParseProc { path: SYSTEM_STAT_PATH, reason });
            },
            Ok(value) => {
                let ghost before = values@;
                total = total.wrapping_add(value);
                values.push(value);
                assert(values@.drop_last() =~= before);
            },
        }
        i += 1;
    }
    assert(rest.take(i - start) =~= rest);
    if values.len() < 5 {
        let mut reason = String::new();
        reason.append("expected at least 5 cpu fields, found ");
        push_u64(&mut reason, values.len() as u64);
        assert(reason@ =~= "expected at least 5 cpu fields, found "@ + decimal(values@.len()));
        return Err(MetricsError::ParseProc { path: SYSTEM_STAT_PATH, reason });
    }
    let idle: u64 = values[3].saturating_add(values[4]);
    Ok((total, idle))
}

/// Where `needle` last occurs in `s`, if it does.
pub open spec fn last_index(s: Seq<char>, needle: char) -> Option<int>
    decreases s.len(),
{
    if s.len() == 0 {
        None
    } else if s.last() == needle {
        Some(s.len() - 1)
    } else {
        last_index(s.drop_last(), needle)
    }
}

/// Finds the last occurrence of `needle`.
fn rfind(s: &[char], needle: char) -> (r: Option<usize>)
    ensures
        match r {
            Some(i) => i < s@.len() && last_index(s@, needle) == Some(i as int),
            None => last_index(s@, needle) is None,
        },
{
    let mut end: usize = s.len();
    assert(s@.take(end as int) =~= s@);
    while end > 0
        invariant
            end <= s@.len(),
            last_index(s@, needle) == last_index(s@.take(end as int), needle),
        decreases end,
    {
        proof {
            let part = s@.take(end as int);
            assert(part.last() == s@[end - 1]);
            assert(part.drop_last() =~= s@.take(end - 1));
        }
        if s[end - 1] == needle {
            return Some(end - 1);
        }
        end -= 1;
    }
    None
}

/// Jiffies that the daemon has used in user and kernel mode, or why
/// `/proc/self/stat` does not tell. The fields follow the command, which ends at
/// the last closing parenthesis.
pub open spec fn daemon_jiffies(text: Seq<char>) -> Result<u64, Seq<char>> {
    match last_index(text, ')') {
        None => Err("missing command terminator ')'"@),
        Some(at) => {
            let fields = words(text.skip(at + 1));
            if fields.len() <= 12 {
                Err("expected at least 13 fields after command, found "@ + decimal(fields.len()))
            } else {
                match (number(fields[11]), number(fields[12])) {
                    (Err(error), _) => Err("invalid utime field: "@ + number_error_text(error)),
                    (Ok(_), Err(error)) => Err("invalid stime field: "@ + number_error_text(error)),
                    (Ok(utime), Ok(stime)) => Ok(saturated(utime, stime)),
                }
            }
        },
    }
}

/// The jiffies of the daemon are the twelfth and the thirteenth field behind the
/// command, which ends at the last closing parenthesis, added up to the largest value;
/// with fewer fields, with a field that is no number, and without a parenthesis they
/// are not told.
pub proof fn daemon_jiffies_follow_the_command(before: Seq<char>, rest: Seq<char>)
    requires
        forall|i: int| 0 <= i < rest.len() ==> #[trigger] rest[i] != ')',
    ensures
        daemon_jiffies(rest) == Err::<u64, Seq<char>>("missing command terminator ')'"@),
        words(rest).len() < 13 ==> daemon_jiffies(before.push(')') + rest) == Err::<u64, Seq<char>>(
            "expected at least 13 fields after command, found "@ + decimal(words(rest).len()),
        ),
        words(rest).len() >= 13 ==> (number(words(rest)[11]) matches Err(error) ==> daemon_jiffies(
            before.push(')') + rest,
        ) == Err::<u64, Seq<char>>("invalid utime field: "@ + number_error_text(error))),
        words(rest).len() >= 13 && number(words(rest)[11]) is Ok ==> (number(
            words(rest)[12],
        ) matches Err(error) ==> daemon_jiffies(before.push(')') + rest) == Err::<u64, Seq<char>>(
            "invalid stime field: "@ + number_error_text(error),
        )),
        daemon_jiffies(before.push(')') + rest) matches Ok(jiffies) ==> words(rest).len() >= 13
            && number(words(rest)[11]) is Ok && number(words(rest)[12]) is Ok && jiffies == capped(
            number(words(rest)[11])->Ok_0 + number(words(rest)[12])->Ok_0,
        ),
        words(rest).len() >= 13 && number(words(rest)[11]) is Ok && number(words(rest)[12]) is Ok
            ==> daemon_jiffies(before.push(')') + rest) is Ok,
{
    last_index_is(before, rest);
    let text = before.push(')') + rest;
    assert(text.skip(before.len() as int + 1) =~= rest);
    no_last_index(rest);
}

proof fn no_last_index(rest: Seq<char>)
    requires
        forall|i: int| 0 <= i < rest.len() ==> #[trigger] rest[i] != ')',
    ensures
        last_index(rest, ')') is None,
    decreases rest.len(),
{
    if rest.len() > 0 {
        assert(rest[rest.len() - 1] != ')');
        no_last_index(rest.drop_last());
    }
}

proof fn last_index_is(before: Seq<char>, rest: Seq<char>)
    requires
        forall|i: int| 0 <= i < rest.len() ==> #[trigger] rest[i] != ')',
    ensures
        last_index(before.push(')') + rest, ')') == Some(before.len() as int),
    decreases rest.len(),
{
    let text = before.push(')') + rest;
    if rest.len() == 0 {
        assert(text =~= before.push(')'));
    } else {
        assert(text.last() == rest[rest.len() - 1]);
        assert(text.drop_last() =~= before.push(')') + rest.drop_last());
        last_index_is(before, rest.drop_last());
    }
}

/// Reads the jiffies of the daemon from the text of `/proc/self/stat`.
pub fn parse_daemon_jiffies(text: &str) -> (r: Result<u64, MetricsError>)
    ensures
        parse_outcome(r, DAEMON_STAT_PATH@, daemon_jiffies(text@)),
{
    let chars = to_chars(text);
    let close: usize = match rfind(chars.as_slice(), ')') {
        Some(i) => i,
        None => return Err(
            MetricsError::ParseProc {
                path: DAEMON_STAT_PATH,
                reason: "missing command terminator ')'".to_owned(),
            },
        ),
    };
    let len: usize = chars.len();
    let rest = slice_chars(chars.as_slice(), close + 1, len);
    assert(rest@ =~= text@.skip(close + 1));
    let fields = split_words(rest.as_slice());
    let ghost tokens = texts(fields@);
    assert(tokens.len() == fields@.len());
    if fields.len() <= 12 {
        let mut reason = String::new();
        reason.append("expected at least 13 fields after command, found ");
        push_u64(&mut reason, fields.len() as u64);
        assert(reason@ =~= "expected at least 13 fields after command, found "@ + decimal(
            tokens.len(),
        ));
        return Err(MetricsError::ParseProc { path: DAEMON_STAT_PATH, reason });
    }
    assert(tokens[11] == fields@[11]@);
    assert(tokens[12] == fields@[12]@);
    let utime: u64 = match parse_u64(fields[11].as_slice()) {
        Ok(value) => value,
        Err(error) => {
            let mut reason = String::new();
            reason.append("invalid utime field: ");
            reason.append(error.message());
            assert(reason@ =~= "invalid utime field: "@ + number_error_text(error));
            return Err(MetricsError::ParseProc { path: DAEMON_STAT_PATH, reason });
        },
    };
    let stime: u64 = match parse_u64(fields[12].as_slice()) {
        Ok(value) => value,
        Err(error) => {
            let mut reason = String::new();
            reason.append("invalid stime field: ");
            reason.append(error.message());
            assert(reason@ =~= "invalid stime field: "@ + number_error_text(error));
            return Err(MetricsError::ParseProc { path: DAEMON_STAT_PATH, reason });
        },
    };
    Ok(utime.saturating_add(stime))
}

/// CPU figures at one moment.
#[derive(Clone, Copy, Debug, PartialEq, Eq, Structural)]
pub struct ProcSnapshot {
    pub system_total: u64,
    pub system_busy: u64,
    pub daemon_user_system: u64,
}

/// `a` minus `b`, held at zero.
pub open spec fn excess(a: u64, b: u64) -> u64 {
    if a < b {
        0
    } else {
        (a - b) as u64
    }
}

impl ProcSnapshot {
    /// The figures that the texts of `/proc/stat` and `/proc/self/stat` give.
    pub fn from_texts(system: &str, daemon: &str) -> (r: Result<Self, MetricsError>)
        ensures
            match system_jiffies(system@) {
                Err(reason) => parse_outcome(
                    r,
                    SYSTEM_STAT_PATH@,
                    Err::<ProcSnapshot, Seq<char>>(reason),
                ),
                Ok((total, idle)) => match daemon_jiffies(daemon@) {
                    Err(reason) => parse_outcome(
                        r,
                        DAEMON_STAT_PATH@,
                        Err::<ProcSnapshot, Seq<char>>(reason),
                    ),
                    Ok(jiffies) => r == Ok::<ProcSnapshot, MetricsError>(
                        ProcSnapshot {
                            system_total: total,
                            system_busy: excess(total, idle),
                            daemon_user_system: jiffies,
                        },
                    ),
                },
            },
    {
        let (system_total, system_idle): (u64, u64) = match parse_system_jiffies(system) {
            Ok(jiffies) => jiffies,
            Err(error) => return Err(error),
        };
        let daemon_user_system: u64 = match parse_daemon_jiffies(daemon) {
            Ok(jiffies) => jiffies,
            Err(error) => return Err(error),
        };
        Ok(
            ProcSnapshot {
                system_total,
                system_busy: system_total.saturating_sub(system_idle),
                daemon_user_system,
            },
        )
    }
}

/// CPU load over a window, in hundredths of a percent.
#[derive(Clone, Copy, Debug, PartialEq, Eq, Structural)]
pub struct CpuWindowSample {
    pub window_ms: u64,
    pub system_cpu_basis_points: u32,
    pub daemon_cpu_basis_points: u32,
}

/// What part of `denominator` `numerator` is, in hundredths of a percent, rounded
/// down; nothing of nothing is zero.
pub open spec fn basis_points(numerator: u64, denominator: u64) -> int {
    if denominator == 0 {
        0
    } else {
        numerator * 10_000 / (denominator as int)
    }
}

/// The reason given for a ratio that is too large.
pub open spec fn ratio_too_large() -> Seq<char> {
    "scaled percent does not fit in u32: out of range integral type conversion attempted"@
}

/// A ratio in hundredths of a percent.
pub fn ratio_percent(numerator: u64, denominator: u64) -> (r: Result<u32, MetricsError>)
    ensures
        parse_outcome(
            r,
            "cpu_window"@,
            if basis_points(numerator, denominator) <= u32::MAX {
                Ok::<u32, Seq<char>>(basis_points(numerator, denominator) as u32)
            } else {
                Err::<u32, Seq<char>>(ratio_too_large())
            },
        ),
{
    if denominator == 0 {
        return Ok(0);
    }
    assert(numerator as u128 * 10_000 <= u128::MAX);
    let scaled: u128 = (numerator as u128 * 10_000) / (denominator as u128);
    if scaled > 0xffff_ffff {
        return Err(
            MetricsError::ParseProc {
                path: "cpu_window",
                reason: "scaled percent does not fit in u32: out of range integral type conversion attempted".to_owned(),
            },
        );
    }
    Ok(scaled as u32)
}

/// The CPU load between two moments.
pub fn compute_cpu_window_sample(
    start: ProcSnapshot,
    end: ProcSnapshot,
    elapsed_ms: u128,
) -> (r: Result<CpuWindowSample, MetricsError>)
    ensures
        ({
            let total = excess(end.system_total, start.system_total);
            let system = basis_points(excess(end.system_busy, start.system_busy), total);
            let daemon = basis_points(
                excess(end.daemon_user_system, start.daemon_user_system),
                total,
            );
            parse_outcome(
                r,
                "cpu_window"@,
                if system <= u32::MAX && daemon <= u32::MAX {
                    Ok::<CpuWindowSample, Seq<char>>(
                        CpuWindowSample {
                            window_ms: if elapsed_ms > u64::MAX {
                                u64::MAX
                            } else {
                                elapsed_ms as u64
                            },
                            system_cpu_basis_points: system as u32,
                            daemon_cpu_basis_points: daemon as u32,
                        },
                    )
                } else {
                    Err::<CpuWindowSample, Seq<char>>(ratio_too_large())
                },
            )
        }),
{
    let total_delta: u64 = end.system_total.saturating_sub(start.system_total);
    let busy_delta: u64 = end.system_busy.saturating_sub(start.system_busy);
    let daemon_delta: u64 = end.daemon_user_system.saturating_sub(start.daemon_user_system);
    let system_cpu_basis_points: u32 = match ratio_percent(busy_delta, total_delta) {
        Ok(value) => value,
        Err(error) => return Err(error),
    };
    let daemon_cpu_basis_points: u32 = match ratio_percent(daemon_delta, total_delta) {
        Ok(value) => value,
        Err(error) => return Err(error),
    };
    let window_ms: u64 = if elapsed_ms > 0xffff_ffff_ffff_ffff {
        0xffff_ffff_ffff_ffff
    } else {
        elapsed_ms as u64
    };
    Ok(CpuWindowSample { window_ms, system_cpu_basis_points, daemon_cpu_basis_points })
}

/// A ratio in hundredths of a percent is the largest whole number of them that the part
/// reaches; nothing of nothing is zero. What is taken away leaves the rest, or nothing
/// where there is not as much.
pub proof fn a_ratio_is_rounded_down(numerator: u64, denominator: u64)
    ensures
        denominator > 0 ==> basis_points(numerator, denominator) * denominator <= numerator * 10_000
            < (basis_points(numerator, denominator) + 1) * denominator,
        denominator == 0 ==> basis_points(numerator, denominator) == 0,
        numerator >= denominator ==> excess(numerator, denominator) + denominator == numerator,
        numerator < denominator ==> excess(numerator, denominator) == 0,
{
    if denominator > 0 {
        let scaled = numerator * 10_000;
        let whole = denominator as int;
        vstd::arithmetic::div_mod::lemma_fundamental_div_mod(scaled, whole);
        assert((scaled / whole) * whole <= scaled < (scaled / whole + 1) * whole) by (
            nonlinear_arith)
            requires
                whole > 0,
                scaled == whole * (scaled / whole) + scaled % whole,
                0 <= scaled % whole < whole,
        ;
    }
}

/// A part of a whole is never more than the whole.
pub proof fn a_part_is_at_most_the_whole(numerator: u64, denominator: u64)
    requires
        numerator <= denominator,
    ensures
        0 <= basis_points(numerator, denominator) <= 10_000,
{
    if denominator > 0 {
        assert(0 <= numerator * 10_000 / (denominator as int) <= 10_000) by (nonlinear_arith)
            requires
                0 <= numerator <= denominator,
                denominator > 0,
        ;
    }
}

pub const MEMINFO_PATH: &'static str = "/proc/meminfo";

/// The number in the first line that starts with the word `name`, or why there is
/// none.
pub open spec fn meminfo_value(all: Seq<Seq<char>>, name: Seq<char>) -> Result<u64, Seq<char>>
    decreases all.len(),
{
    if all.len() == 0 {
        Err("missing field "@ + name)
    } else {
        let fields = words(all[0]);
        if fields.len() >= 2 && fields[0] == name {
            match number(fields[1]) {
                Ok(value) => Ok(value),
                Err(error) => Err("invalid field "@ + name + " "@ + number_error_text(error)),
            }
        } else {
            meminfo_value(all.skip(1), name)
        }
    }
}

/// The first line of two words or more that starts with the name counts, and its second
/// word is the number; without such a line, and with a word that is no number, there
/// is none.
pub proof fn the_first_named_line_counts(all: Seq<Seq<char>>, name: Seq<char>, i: int)
    requires
        0 <= i <= all.len(),
        forall|j: int|
            0 <= j < i ==> !(words(#[trigger] all[j]).len() >= 2 && words(all[j])[0] == name),
        i < all.len() ==> words(all[i]).len() >= 2 && words(all[i])[0] == name,
    ensures
        i == all.len() ==> meminfo_value(all, name) == Err::<u64, Seq<char>>(
            "missing field "@ + name,
        ),
        i < all.len() ==> (number(words(all[i])[1]) matches Err(error) ==> meminfo_value(all, name)
            == Err::<u64, Seq<char>>("invalid field "@ + name + " "@ + number_error_text(error))),
        i < all.len() ==> (number(words(all[i])[1]) matches Ok(value) ==> meminfo_value(all, name)
            == Ok::<u64, Seq<char>>(value)),
    decreases i,
{
    if i > 0 {
        let rest = all.skip(1);
        assert(!(words(all[0]).len() >= 2 && words(all[0])[0] == name));
        assert forall|j: int| 0 <= j < i - 1 implies !(words(#[trigger] rest[j]).len() >= 2
            && words(rest[j])[0] == name) by {
            assert(rest[j] == all[j + 1]);
        }
        if i < all.len() {
            assert(rest[i - 1] == all[i]);
        }
        the_first_named_line_counts(rest, name, i - 1);
    }
}

fn read_meminfo_value(all: &Vec<Vec<char>>, name: &str) -> (r: Result<u64, MetricsError>)
    ensures
        parse_outcome(r, MEMINFO_PATH@, meminfo_value(texts(all@), name@)),
{
    let wanted = to_chars(name);
    let ghost full = texts(all@);
    let mut i: usize = 0;
    assert(full.skip(0) =~= full);
    while i < all.len()
        invariant
            i <= all@.len(),
            wanted@ == name@,
            full == texts(all@),
            full.len() == all@.len(),
            meminfo_value(full, name@) == meminfo_value(full.skip(i as int), name@),
        decreases all@.len() - i,
    {
        let ghost rest = full.skip(i as int);
        assert(rest[0] == full[i as int]);
        assert(full[i as int] == all@[i as int]@);
        assert(rest.skip(1) =~= full.skip(i + 1));
        let fields = split_words(all[i].as_slice());
        assert(texts(fields@).len() == fields@.len());
        if fields.len() >= 2 {
            assert(texts(fields@)[0] == fields@[0]@);
            assert(texts(fields@)[1] == fields@[1]@);
            if same_chars(fields[0].as_slice(), wanted.as_slice()) {
                return match parse_u64(fields[1].as_slice()) {
                    Ok(value) => Ok(value),
                    Err(error) => {
                        let mut reason = String::new();
                        reason.append("invalid field ");
                        reason.append(name);
                        reason.append(" ");
                        reason.append(error.message());
                        assert(reason@ =~= "invalid field "@ + name@ + " "@ + number_error_text(
                            error,
                        ));
                        Err(MetricsError::ParseProc { path: MEMINFO_PATH, reason })
                    },
                };
            }
        }
        i += 1;
    }
    let mut reason = String::new();
    reason.append("missing field ");
    reason.append(name);
    assert(reason@ =~= "missing field "@ + name@);
    assert(full.skip(i as int) =~= Seq::<Seq<char>>::empty());
    Err(MetricsError::ParseProc { path: MEMINFO_PATH, reason })
}

/// What part of the memory is in use, in hundredths of a percent, or why
/// `/proc/meminfo` does not tell.
pub open spec fn memory_in_use(text: Seq<char>) -> Result<u32, Seq<char>> {
    match meminfo_value(lines(text), "MemTotal:"@) {
        Err(reason) => Err(reason),
        Ok(total) => match meminfo_value(lines(text), "MemAvailable:"@) {
            Err(reason) => Err(reason),
            Ok(available) => Ok(basis_points(excess(total, available), total) as u32),
        },
    }
}

/// The memory in use is what is not available, as a part of the total, in hundredths of
/// a percent rounded down; it is told exactly if both numbers are.
pub proof fn memory_in_use_is_not_available(text: Seq<char>)
    ensures
        memory_in_use(text) is Ok <==> meminfo_value(lines(text), "MemTotal:"@) is Ok
            && meminfo_value(lines(text), "MemAvailable:"@) is Ok,
        memory_in_use(text) matches Ok(points) ==> {
            let total = meminfo_value(lines(text), "MemTotal:"@)->Ok_0;
            let available = meminfo_value(lines(text), "MemAvailable:"@)->Ok_0;
            &&& points <= 10_000
            &&& available <= total && total > 0 ==> points * total <= (total - available) * 10_000
                < (points + 1) * total
            &&& available >= total ==> points == 0
        },
{
    if memory_in_use(text) is Ok {
        let total = meminfo_value(lines(text), "MemTotal:"@)->Ok_0;
        let available = meminfo_value(lines(text), "MemAvailable:"@)->Ok_0;
        a_part_is_at_most_the_whole(excess(total, available), total);
        a_ratio_is_rounded_down(excess(total, available), total);
        if available >= total && total > 0 {
            assert(basis_points(0, total) == 0) by {
                a_ratio_is_rounded_down(0, total);
                let points = basis_points(0, total);
                assert(points == 0) by (nonlinear_arith)
                    requires
                        points * total <= 0 < (points + 1) * total,
                        total > 0,
                ;
            }
        }
    }
}

/// Reads what part of the memory is in use from the text of `/proc/meminfo`.
pub fn parse_memory_basis_points(text: &str) -> (r: Result<u32, MetricsError>)
    ensures
        parse_outcome(r, MEMINFO_PATH@, memory_in_use(text@)),
        r matches Ok(value) ==> value <= 10_000,
{
    let chars = to_chars(text);
    let all = split_lines(chars.as_slice());
    let total: u64 = match read_meminfo_value(&all, "MemTotal:") {
        Ok(value) => value,
        Err(error) => return Err(error),
    };
    let available: u64 = match read_meminfo_value(&all, "MemAvailable:") {
        Ok(value) => value,
        Err(error) => return Err(error),
    };
    let used: u64 = total.saturating_sub(available);
    proof {
        a_part_is_at_most_the_whole(used, total);
    }
    ratio_percent(used, total)
}

} // verus!
