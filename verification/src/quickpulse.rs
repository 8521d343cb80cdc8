//! The subscription client: the ping/post state machine, the heartbeat
//! wire body, and the buffer of externally submitted metrics.

use vstd::prelude::*;
use vstd::string::*;

use crate::decimal::{i64_to_string, spec_decimal_signed};
use crate::envelope;
use crate::json::{json_quote, spec_json_string};
use crate::performance::{
    counters_view, spec_metric_name, spec_sample, PerformanceCollector, QuickPulseMetricNames,
    system_host_name,
};

verus! {

/// Seconds between ticks while not subscribed: the cheap discovery probe.
pub const PING_INTERVAL_SECONDS: u64 = 5;

/// Seconds between ticks while subscribed: the streaming cadence.
pub const POST_INTERVAL_SECONDS: u64 = 1;

/// One outgoing metric: a name, a value rendered as text, and a weight.
#[allow(non_snake_case)]
pub struct Metric {
    pub Name: String,
    pub Value: String,
    pub Weight: i32,
}

pub ghost struct WireMetricView {
    pub name: Seq<char>,
    pub value: Seq<char>,
    pub weight: int,
}

impl View for Metric {
    type V = WireMetricView;

    open spec fn view(&self) -> WireMetricView {
        WireMetricView { name: self.Name@, value: self.Value@, weight: self.Weight as int }
    }
}

/// An exact copy of one outgoing metric.
pub fn clone_metric(m: &Metric) -> (r: Metric)
    ensures
        r@ == m@,
{
    Metric { Name: m.Name.clone(), Value: m.Value.clone(), Weight: m.Weight }
}

/// The outgoing form of one decoded metric record entry: the name
/// verbatim, the `max` token unchanged as the value, the count as the
/// weight.
pub open spec fn spec_wire_of_envelope_metric(m: envelope::MetricView) -> WireMetricView {
    WireMetricView { name: m.name, value: m.max, weight: m.count }
}

/// The outgoing form of one externally submitted metric record entry: the
/// name is carried verbatim, the `max` token becomes the reported value
/// unchanged, and the count becomes the weight.
pub fn metric_from_envelope(m: &envelope::Metric) -> (r: Metric)
    ensures
        r@ == spec_wire_of_envelope_metric(m@),
{
    Metric { Name: m.name.clone(), Value: m.max.clone(), Weight: m.count }
}

/// Externally submitted metrics waiting for the next post, in arrival
/// order.
pub struct MetricBuffer {
    pub items: Vec<Metric>,
}

impl View for MetricBuffer {
    type V = Seq<WireMetricView>;

    open spec fn view(&self) -> Seq<WireMetricView> {
        self.items@.map_values(|m: Metric| m@)
    }
}

impl MetricBuffer {
    /// An empty buffer.
    pub fn new() -> (r: MetricBuffer)
        ensures
            r@ == Seq::<WireMetricView>::empty(),
    {
        let b = MetricBuffer { items: Vec::new() };
        proof {
            assert(b@ =~= Seq::<WireMetricView>::empty());
        }
        b
    }

    /// Appends one metric, keeping order.
    pub fn add(&mut self, m: Metric)
        ensures
            final(self)@ == old(self)@.push(m@),
    {
        let ghost mv = m@;
        let ghost pre = self.items@;
        self.items.push(m);
        proof {
            assert(self.items@.map_values(|x: Metric| x@) =~= pre.map_values(|x: Metric| x@).push(
                mv,
            ));
        }
    }

    /// Hands the whole contents over and leaves the buffer empty, so a
    /// second drain right after returns nothing.
    pub fn drain(&mut self) -> (r: Vec<Metric>)
        ensures
            r@.map_values(|m: Metric| m@) == old(self)@,
            final(self)@ == Seq::<WireMetricView>::empty(),
    {
        let mut out: Vec<Metric> = Vec::new();
        core::mem::swap(&mut out, &mut self.items);
        proof {
            assert(self@ =~= Seq::<WireMetricView>::empty());
        }
        out
    }
}

/// The transmission-time marker: Unix seconds shifted to a year-1 epoch
/// and expressed in 100-nanosecond ticks; zero for a clock reading outside
/// the range the arithmetic can carry.
pub open spec fn spec_transmission_time(secs: int) -> int {
    if 0 <= secs <= 860000000000 {
        (secs + 62135596800) * 10000000
    } else {
        0
    }
}

/// Computes the transmission-time marker for a clock reading.
pub fn get_transmission_time(unix_seconds: i64) -> (r: i64)
    ensures
        r as int == spec_transmission_time(unix_seconds as int),
{
    if 0 <= unix_seconds && unix_seconds <= 860000000000i64 {
        (unix_seconds + 62135596800i64) * 10000000i64
    } else {
        0
    }
}

/// The timestamp field format the backend expects: `/Date({millis})/`.
pub open spec fn spec_timestamp_marker(millis: int) -> Seq<char> {
    "/Date("@ + spec_decimal_signed(millis) + ")/"@
}

/// Renders the timestamp field for a clock reading in epoch milliseconds.
pub fn get_millis_timestamp_marker(millis: i64) -> (r: String)
    ensures
        r@ == spec_timestamp_marker(millis as int),
{
    proof {
        reveal_strlit("/Date(");
        reveal_strlit(")/");
    }
    let mut out = String::from_str("/Date(");
    out.append(i64_to_string(millis).as_str());
    out.append(")/");
    proof {
        assert(out@ =~= spec_timestamp_marker(millis as int));
    }
    out
}

/// The JSON rendering of one outgoing metric.
pub open spec fn spec_metric_json(m: WireMetricView) -> Seq<char> {
    "{\"Name\":"@ + spec_json_string(m.name) + ",\"Value\":"@ + spec_json_string(m.value)
        + ",\"Weight\":"@ + spec_decimal_signed(m.weight) + "}"@
}

/// The comma-separated rendering of the metrics from index `i` on.
pub open spec fn spec_metrics_json_from(ms: Seq<WireMetricView>, i: int) -> Seq<char>
    decreases ms.len() - i,
{
    if !(0 <= i < ms.len()) {
        Seq::empty()
    } else if i == ms.len() - 1 {
        spec_metric_json(ms[i])
    } else {
        spec_metric_json(ms[i]) + ","@ + spec_metrics_json_from(ms, i + 1)
    }
}

/// The heartbeat body: the stream identity verbatim, a fresh timestamp,
/// the metric list, and a null documents placeholder, in the backend's
/// field order.
pub open spec fn spec_heartbeat_json(
    key: Seq<char>,
    machine: Seq<char>,
    instance: Seq<char>,
    sid: Seq<char>,
    timestamp: Seq<char>,
    metrics: Seq<WireMetricView>,
) -> Seq<char> {
    "{\"RoleName\":\"Web\",\"Instance\":"@ + spec_json_string(instance)
        + ",\"InstrumentationKey\":"@ + spec_json_string(key)
        + ",\"InvariantVersion\":\"1\",\"MachineName\":"@ + spec_json_string(machine)
        + ",\"StreamId\":"@ + spec_json_string(sid) + ",\"Timestamp\":"@ + spec_json_string(
        timestamp,
    ) + ",\"Version\":\"rust:0.0.1\",\"Metrics\":["@ + spec_metrics_json_from(metrics, 0)
        + "],\"Documents\":null}"@
}

fn metric_json(m: &Metric) -> (r: String)
    ensures
        r@ == spec_metric_json(m@),
{
    let mut out = String::from_str("{\"Name\":");
    out.append(json_quote(m.Name.as_str()).as_str());
    out.append(",\"Value\":");
    out.append(json_quote(m.Value.as_str()).as_str());
    out.append(",\"Weight\":");
    out.append(i64_to_string(m.Weight as i64).as_str());
    out.append("}");
    proof {
        assert(out@ =~= spec_metric_json(m@));
    }
    out
}

fn metrics_json(metrics: &Vec<Metric>) -> (r: String)
    ensures
        r@ == spec_metrics_json_from(metrics@.map_values(|m: Metric| m@), 0),
{
    let ghost mv = metrics@.map_values(|m: Metric| m@);
    let mut out = String::new();
    let n = metrics.len();
    if n == 0 {
        return out;
    }
    let mut i: usize = 0;
    while i < n
        invariant
            0 <= i <= n,
            n == metrics@.len(),
            mv == metrics@.map_values(|m: Metric| m@),
            spec_metrics_json_from(mv, 0) == out@ + spec_metrics_json_from(mv, i as int),
        decreases n - i,
    {
        let ghost pre = out@;
        let piece = metric_json(&metrics[i]);
        out.append(piece.as_str());
        if i + 1 < n {
            out.append(",");
            proof {
                assert(pre + (spec_metric_json(mv[i as int]) + ","@ + spec_metrics_json_from(
                    mv,
                    i as int + 1,
                )) =~= out@ + spec_metrics_json_from(mv, i as int + 1));
            }
        } else {
            proof {
                assert(spec_metrics_json_from(mv, i as int + 1) =~= Seq::<char>::empty());
                assert(pre + spec_metric_json(mv[i as int]) =~= out@ + spec_metrics_json_from(
                    mv,
                    i as int + 1,
                ));
            }
        }
        i = i + 1;
    }
    proof {
        assert(spec_metrics_json_from(mv, n as int) =~= Seq::<char>::empty());
        assert(out@ + spec_metrics_json_from(mv, n as int) =~= out@);
    }
    out
}

fn heartbeat_json(
    key: &String,
    machine: &String,
    instance: &String,
    sid: &String,
    timestamp: &String,
    metrics: &Vec<Metric>,
) -> (r: String)
    ensures
        r@ == spec_heartbeat_json(
            key@,
            machine@,
            instance@,
            sid@,
            timestamp@,
            metrics@.map_values(|m: Metric| m@),
        ),
{
    let mut out = String::from_str("{\"RoleName\":\"Web\",\"Instance\":");
    out.append(json_quote(instance.as_str()).as_str());
    out.append(",\"InstrumentationKey\":");
    out.append(json_quote(key.as_str()).as_str());
    out.append(",\"InvariantVersion\":\"1\",\"MachineName\":");
    out.append(json_quote(machine.as_str()).as_str());
    out.append(",\"StreamId\":");
    out.append(json_quote(sid.as_str()).as_str());
    out.append(",\"Timestamp\":");
    out.append(json_quote(timestamp.as_str()).as_str());
    out.append(",\"Version\":\"rust:0.0.1\",\"Metrics\":[");
    out.append(metrics_json(metrics).as_str());
    out.append("],\"Documents\":null}");
    proof {
        assert(out@ =~= spec_heartbeat_json(
            key@,
            machine@,
            instance@,
            sid@,
            timestamp@,
            metrics@.map_values(|m: Metric| m@),
        ));
    }
    out
}

/// The view of a header list.
pub open spec fn headers_view(v: Seq<(String, String)>) -> Seq<(Seq<char>, Seq<char>)> {
    v.map_values(|p: (String, String)| (p.0@, p.1@))
}

/// The headers of a ping request: the transmission time and the whole
/// stream identity travel as headers too, duplicating the body.
pub open spec fn spec_ping_headers(
    sid: Seq<char>,
    machine: Seq<char>,
    instance: Seq<char>,
    tt: int,
) -> Seq<(Seq<char>, Seq<char>)> {
    seq![
        ("x-ms-qps-transmission-time"@, spec_decimal_signed(tt)),
        ("x-ms-qps-stream-id"@, sid),
        ("x-ms-qps-machine-name"@, machine),
        ("x-ms-qps-instance-name"@, instance),
        ("x-ms-qps-role-name"@, "Web"@),
        ("x-ms-qps-invariant-version"@, "1"@),
        ("Expect"@, "100-continue"@),
        ("Content-Type"@, "application/json"@),
    ]
}

/// The headers of a post request: identity travels only in the body.
pub open spec fn spec_post_headers(tt: int) -> Seq<(Seq<char>, Seq<char>)> {
    seq![("Expect"@, "100-continue"@), ("x-ms-qps-transmission-time"@, spec_decimal_signed(tt))]
}

/// The two wire actions of the protocol.
#[derive(Clone, Copy, Debug, PartialEq, Eq, Structural)]
pub enum TickAction {
    Ping,
    Post,
}

/// What one tick's exchange came to: a transport failure, or a response
/// with its subscription header, if it carried one.
pub enum TickOutcome {
    Failure,
    Success { subscribed_header: Option<String> },
}

pub ghost enum TickOutcomeView {
    Failure,
    Success(Option<Seq<char>>),
}

impl View for TickOutcome {
    type V = TickOutcomeView;

    open spec fn view(&self) -> TickOutcomeView {
        match self {
            TickOutcome::Failure => TickOutcomeView::Failure,
            TickOutcome::Success { subscribed_header } => TickOutcomeView::Success(
                match subscribed_header {
                    Some(h) => Some(h@),
                    None => None,
                },
            ),
        }
    }
}

/// The action the next tick performs: a ping while Disconnected, a post
/// while Connected.
pub open spec fn spec_next_action(connected: bool) -> TickAction {
    if connected {
        TickAction::Post
    } else {
        TickAction::Ping
    }
}

/// The tick cadence a state runs at.
pub open spec fn spec_interval_seconds(connected: bool) -> int {
    if connected {
        POST_INTERVAL_SECONDS as int
    } else {
        PING_INTERVAL_SECONDS as int
    }
}

/// The state after one tick's exchange: a failure changes nothing, a
/// success reads the subscription header verbatim — `"true"` means
/// Connected, anything else, or no header at all, means Disconnected.
pub open spec fn spec_apply_response(connected: bool, o: TickOutcomeView) -> bool {
    match o {
        TickOutcomeView::Failure => connected,
        TickOutcomeView::Success(h) => match h {
            Some(v) => v == "true"@,
            None => false,
        },
    }
}

/// One request ready to go out: where to, what to send, and under which
/// headers.
pub struct TickRequest {
    pub action: TickAction,
    pub url: String,
    pub body: String,
    pub headers: Vec<(String, String)>,
}

/// The service URL of one action.
pub open spec fn spec_service_url(endpoint: Seq<char>, action: Seq<char>, key: Seq<char>) -> Seq<
    char,
> {
    endpoint + "/QuickPulseService.svc/"@ + action + "?ikey="@ + key
}

/// The outgoing form of the collected counters, weight 1 each.
pub open spec fn spec_wire_of_counters(cs: Seq<(QuickPulseMetricNames, Seq<char>)>) -> Seq<
    WireMetricView,
> {
    cs.map_values(
        |p: (QuickPulseMetricNames, Seq<char>)|
            WireMetricView { name: spec_metric_name(p.0), value: p.1, weight: 1 },
    )
}

/// The subscription client: the state machine, the stream identity fixed
/// at construction, and the two collaborators it composes.
pub struct Client {
    pub connected: bool,
    pub hostname: String,
    pub instance: String,
    pub stream_id: String,
    pub appinsights_key: String,
    pub appinsights_live_endpoint: String,
    pub metrics: MetricBuffer,
    pub performance_collector: PerformanceCollector,
}

impl Client {
    /// A client in the initial Disconnected state, its stream identity
    /// generated once for the process lifetime. The instance name is the
    /// override when one is given, else the hostname.
    pub fn new(
        appinsights_key: String,
        appinsights_live_endpoint: String,
        instance_override: Option<String>,
    ) -> (r: Client)
        ensures
            !r.connected,
            r.appinsights_key@ == appinsights_key@,
            r.appinsights_live_endpoint@ == appinsights_live_endpoint@,
            r.metrics@ == Seq::<WireMetricView>::empty(),
            r.stream_id@.len() == 32,
            forall|i: int| 0 <= i < r.stream_id@.len() ==> is_lower_hex_digit(
                #[trigger] r.stream_id@[i],
            ),
            (match instance_override {
                Some(i) => r.instance@ == i@,
                None => r.instance@ == r.hostname@,
            }),
    {
        let hostname = match system_host_name() {
            Some(h) => h,
            None => String::from_str("unknown"),
        };
        let instance = match instance_override {
            Some(i) => i,
            None => hostname.clone(),
        };
        Client {
            connected: false,
            hostname,
            instance,
            stream_id: new_stream_id(),
            appinsights_key,
            appinsights_live_endpoint,
            metrics: MetricBuffer::new(),
            performance_collector: PerformanceCollector::new(),
        }
    }

    /// Buffers one externally submitted metric for the next post.
    pub fn _add_metric(&mut self, metric: Metric)
        ensures
            final(self).metrics@ == old(self).metrics@.push(metric@),
            final(self).connected == old(self).connected,
            final(self).hostname == old(self).hostname,
            final(self).instance == old(self).instance,
            final(self).stream_id == old(self).stream_id,
            final(self).appinsights_key == old(self).appinsights_key,
            final(self).appinsights_live_endpoint == old(self).appinsights_live_endpoint,
            final(self).performance_collector == old(self).performance_collector,
    {
        self.metrics.add(metric);
    }

    /// The URL one action goes to.
    pub fn build_url(&self, action: String) -> (r: String)
        ensures
            r@ == spec_service_url(
                self.appinsights_live_endpoint@,
                action@,
                self.appinsights_key@,
            ),
    {
        let mut out = self.appinsights_live_endpoint.clone();
        out.append("/QuickPulseService.svc/");
        out.append(action.as_str());
        out.append("?ikey=");
        out.append(self.appinsights_key.as_str());
        proof {
            assert(out@ =~= spec_service_url(
                self.appinsights_live_endpoint@,
                action@,
                self.appinsights_key@,
            ));
        }
        out
    }

    /// The seconds until the next tick, by the current state.
    pub fn current_interval_seconds(&self) -> (r: u64)
        ensures
            r as int == spec_interval_seconds(self.connected),
    {
        if self.connected {
            POST_INTERVAL_SECONDS
        } else {
            PING_INTERVAL_SECONDS
        }
    }

    /// Builds the ping request for one tick: an empty metric list, the
    /// identity both in the body and as headers, and fresh time markers.
    /// Nothing buffered is consumed.
    pub fn prepare_ping(&self, now_seconds: i64, now_millis: i64) -> (r: TickRequest)
        ensures
            r.action == TickAction::Ping,
            r.url@ == spec_service_url(
                self.appinsights_live_endpoint@,
                "ping"@,
                self.appinsights_key@,
            ),
            r.body@ == spec_heartbeat_json(
                self.appinsights_key@,
                self.hostname@,
                self.instance@,
                self.stream_id@,
                spec_timestamp_marker(now_millis as int),
                Seq::<WireMetricView>::empty(),
            ),
            headers_view(r.headers@) == spec_ping_headers(
                self.stream_id@,
                self.hostname@,
                self.instance@,
                spec_transmission_time(now_seconds as int),
            ),
    {
        let timestamp = get_millis_timestamp_marker(now_millis);
        let empty: Vec<Metric> = Vec::new();
        proof {
            assert(empty@.map_values(|m: Metric| m@) =~= Seq::<WireMetricView>::empty());
        }
        let body = heartbeat_json(
            &self.appinsights_key,
            &self.hostname,
            &self.instance,
            &self.stream_id,
            &timestamp,
            &empty,
        );
        let tt = get_transmission_time(now_seconds);
        let mut headers: Vec<(String, String)> = Vec::new();
        headers.push((String::from_str("x-ms-qps-transmission-time"), i64_to_string(tt)));
        headers.push((String::from_str("x-ms-qps-stream-id"), self.stream_id.clone()));
        headers.push((String::from_str("x-ms-qps-machine-name"), self.hostname.clone()));
        headers.push((String::from_str("x-ms-qps-instance-name"), self.instance.clone()));
        headers.push((String::from_str("x-ms-qps-role-name"), String::from_str("Web")));
        headers.push((String::from_str("x-ms-qps-invariant-version"), String::from_str("1")));
        headers.push((String::from_str("Expect"), String::from_str("100-continue")));
        headers.push((String::from_str("Content-Type"), String::from_str("application/json")));
        proof {
            assert(headers_view(headers@) =~= spec_ping_headers(
                self.stream_id@,
                self.hostname@,
                self.instance@,
                spec_transmission_time(now_seconds as int),
            ));
        }
        TickRequest {
            action: TickAction::Ping,
            url: self.build_url(String::from_str("ping")),
            body,
            headers,
        }
    }

    /// Builds the post request for one tick: requeries the performance
    /// counters, drains the metric buffer, and merges both — counters
    /// first, buffered metrics after, names repeating freely — into one
    /// heartbeat wrapped in a one-element array.
    pub fn prepare_post(&mut self, now_seconds: i64, now_millis: i64) -> (r: TickRequest)
        ensures
            r.action == TickAction::Post,
            r.url@ == spec_service_url(
                old(self).appinsights_live_endpoint@,
                "post"@,
                old(self).appinsights_key@,
            ),
            final(self).metrics@ == Seq::<WireMetricView>::empty(),
            final(self).connected == old(self).connected,
            final(self).hostname == old(self).hostname,
            final(self).instance == old(self).instance,
            final(self).stream_id == old(self).stream_id,
            final(self).appinsights_key == old(self).appinsights_key,
            final(self).appinsights_live_endpoint == old(self).appinsights_live_endpoint,
            final(self).performance_collector.enabled,
            exists|cpu: Seq<char>, mem: u64|
                {
                    &&& counters_view(final(self).performance_collector.metrics@) == spec_sample(
                        cpu,
                        crate::decimal::spec_decimal_digits(mem as int),
                    )
                    &&& r.body@ == "["@ + spec_heartbeat_json(
                        old(self).appinsights_key@,
                        old(self).hostname@,
                        old(self).instance@,
                        old(self).stream_id@,
                        spec_timestamp_marker(now_millis as int),
                        spec_wire_of_counters(
                            counters_view(final(self).performance_collector.metrics@),
                        ) + old(self).metrics@,
                    ) + "]"@
                },
            headers_view(r.headers@) == spec_post_headers(
                spec_transmission_time(now_seconds as int),
            ),
    {
        self.performance_collector.collect();
        let drained = self.metrics.drain();
        let ghost counters = counters_view(self.performance_collector.metrics@);
        let mut wires: Vec<Metric> = Vec::new();
        let n = self.performance_collector.metrics.len();
        proof {
            assert(wires@.map_values(|m: Metric| m@) =~= spec_wire_of_counters(
                counters.subrange(0, 0),
            ));
        }
        let mut i: usize = 0;
        while i < n
            invariant
                0 <= i <= n,
                n == self.performance_collector.metrics@.len(),
                counters == counters_view(self.performance_collector.metrics@),
                wires@.map_values(|m: Metric| m@) == spec_wire_of_counters(
                    counters.subrange(0, i as int),
                ),
            decreases n - i,
        {
            let ghost pre = wires@;
            let name = self.performance_collector.metrics[i].0.as_str();
            let value = self.performance_collector.metrics[i].1.clone();
            wires.push(Metric { Name: String::from_str(name), Value: value, Weight: 1 });
            proof {
                assert(counters.subrange(0, i as int + 1) =~= counters.subrange(0, i as int).push(
                    counters[i as int],
                ));
                assert(wires@.map_values(|m: Metric| m@) =~= spec_wire_of_counters(
                    counters.subrange(0, i as int),
                ).push(wires@.last()@));
                assert(spec_wire_of_counters(counters.subrange(0, i as int + 1))
                    =~= spec_wire_of_counters(counters.subrange(0, i as int)).push(
                    (WireMetricView {
                        name: spec_metric_name(counters[i as int].0),
                        value: counters[i as int].1,
                        weight: 1,
                    }),
                ));
            }
            i = i + 1;
        }
        proof {
            assert(counters.subrange(0, n as int) =~= counters);
        }
        let m = drained.len();
        let ghost drained_view = drained@.map_values(|x: Metric| x@);
        let mut k: usize = 0;
        while k < m
            invariant
                0 <= k <= m,
                m == drained@.len(),
                drained_view == drained@.map_values(|x: Metric| x@),
                wires@.map_values(|x: Metric| x@) == spec_wire_of_counters(counters)
                    + drained_view.subrange(0, k as int),
            decreases m - k,
        {
            let ghost pre = wires@;
            wires.push(clone_metric(&drained[k]));
            proof {
                assert(drained_view.subrange(0, k as int + 1) =~= drained_view.subrange(
                    0,
                    k as int,
                ).push(drained_view[k as int]));
                assert(wires@.map_values(|x: Metric| x@) =~= pre.map_values(|x: Metric| x@).push(
                    drained_view[k as int],
                ));
                assert(spec_wire_of_counters(counters) + drained_view.subrange(0, k as int).push(
                    drained_view[k as int],
                ) =~= (spec_wire_of_counters(counters) + drained_view.subrange(0, k as int)).push(
                    drained_view[k as int],
                ));
            }
            k = k + 1;
        }
        proof {
            assert(drained_view.subrange(0, m as int) =~= drained_view);
        }
        let timestamp = get_millis_timestamp_marker(now_millis);
        let inner = heartbeat_json(
            &self.appinsights_key,
            &self.hostname,
            &self.instance,
            &self.stream_id,
            &timestamp,
            &wires,
        );
        proof {
            reveal_strlit("[");
            reveal_strlit("]");
        }
        let mut body = String::from_str("[");
        body.append(inner.as_str());
        body.append("]");
        let tt = get_transmission_time(now_seconds);
        let mut headers: Vec<(String, String)> = Vec::new();
        headers.push((String::from_str("Expect"), String::from_str("100-continue")));
        headers.push((String::from_str("x-ms-qps-transmission-time"), i64_to_string(tt)));
        proof {
            assert(headers_view(headers@) =~= spec_post_headers(
                spec_transmission_time(now_seconds as int),
            ));
            let (cpu, mem) = choose|cpu: Seq<char>, mem: u64|
                counters_view(self.performance_collector.metrics@) == spec_sample(
                    cpu,
                    crate::decimal::spec_decimal_digits(mem as int),
                );
            assert(body@ =~= "["@ + spec_heartbeat_json(
                old(self).appinsights_key@,
                old(self).hostname@,
                old(self).instance@,
                old(self).stream_id@,
                spec_timestamp_marker(now_millis as int),
                spec_wire_of_counters(counters_view(self.performance_collector.metrics@)) + old(
                    self,
                ).metrics@,
            ) + "]"@);
        }
        TickRequest {
            action: TickAction::Post,
            url: self.build_url(String::from_str("post")),
            body,
            headers,
        }
    }

    /// Performs one tick's decision: a ping request while Disconnected, a
    /// post request — counters sampled and buffer drained — while
    /// Connected, each carrying fresh time markers from the machine clock.
    /// The request is the one `prepare_ping` or `prepare_post` builds for
    /// the two clock readings of this tick. The state itself only changes
    /// when a response is applied.
    pub fn tick_request(&mut self) -> (r: TickRequest)
        ensures
            r.action == spec_next_action(old(self).connected),
            final(self).connected == old(self).connected,
            final(self).hostname == old(self).hostname,
            final(self).instance == old(self).instance,
            final(self).stream_id == old(self).stream_id,
            final(self).appinsights_key == old(self).appinsights_key,
            final(self).appinsights_live_endpoint == old(self).appinsights_live_endpoint,
            !old(self).connected ==> *final(self) == *old(self),
            old(self).connected ==> final(self).metrics@ == Seq::<WireMetricView>::empty(),
            r.url@ == spec_service_url(
                old(self).appinsights_live_endpoint@,
                if old(self).connected {
                    "post"@
                } else {
                    "ping"@
                },
                old(self).appinsights_key@,
            ),
            exists|secs: i64, millis: i64|
                {
                    &&& headers_view(r.headers@) == (if old(self).connected {
                        spec_post_headers(spec_transmission_time(secs as int))
                    } else {
                        spec_ping_headers(
                            old(self).stream_id@,
                            old(self).hostname@,
                            old(self).instance@,
                            spec_transmission_time(secs as int),
                        )
                    })
                    &&& (!old(self).connected ==> r.body@ == spec_heartbeat_json(
                        old(self).appinsights_key@,
                        old(self).hostname@,
                        old(self).instance@,
                        old(self).stream_id@,
                        spec_timestamp_marker(millis as int),
                        Seq::<WireMetricView>::empty(),
                    ))
                    &&& (old(self).connected ==> r.body@ == "["@ + spec_heartbeat_json(
                        old(self).appinsights_key@,
                        old(self).hostname@,
                        old(self).instance@,
                        old(self).stream_id@,
                        spec_timestamp_marker(millis as int),
                        spec_wire_of_counters(
                            counters_view(final(self).performance_collector.metrics@),
                        ) + old(self).metrics@,
                    ) + "]"@)
                },
    {
        let secs = now_unix_seconds();
        let millis = now_unix_millis();
        let r = if !self.connected {
            self.prepare_ping(secs, millis)
        } else {
            self.prepare_post(secs, millis)
        };
        proof {
            assert({
                &&& headers_view(r.headers@) == (if old(self).connected {
                    spec_post_headers(spec_transmission_time(secs as int))
                } else {
                    spec_ping_headers(
                        old(self).stream_id@,
                        old(self).hostname@,
                        old(self).instance@,
                        spec_transmission_time(secs as int),
                    )
                })
                &&& (!old(self).connected ==> r.body@ == spec_heartbeat_json(
                    old(self).appinsights_key@,
                    old(self).hostname@,
                    old(self).instance@,
                    old(self).stream_id@,
                    spec_timestamp_marker(millis as int),
                    Seq::<WireMetricView>::empty(),
                ))
                &&& (old(self).connected ==> r.body@ == "["@ + spec_heartbeat_json(
                    old(self).appinsights_key@,
                    old(self).hostname@,
                    old(self).instance@,
                    old(self).stream_id@,
                    spec_timestamp_marker(millis as int),
                    spec_wire_of_counters(counters_view(self.performance_collector.metrics@))
                        + old(self).metrics@,
                ) + "]"@)
            });
        }
        r
    }

    /// Applies one tick's outcome to the state: the only path that flips
    /// the subscription. A failure leaves the state as it was.
    pub fn apply_response(&mut self, outcome: TickOutcome)
        ensures
            final(self).connected == spec_apply_response(old(self).connected, outcome@),
            final(self).hostname == old(self).hostname,
            final(self).instance == old(self).instance,
            final(self).stream_id == old(self).stream_id,
            final(self).appinsights_key == old(self).appinsights_key,
            final(self).appinsights_live_endpoint == old(self).appinsights_live_endpoint,
            final(self).metrics == old(self).metrics,
            final(self).performance_collector == old(self).performance_collector,
    {
        match outcome {
            TickOutcome::Failure => {},
            TickOutcome::Success { subscribed_header } => {
                self.connected = match subscribed_header {
                    None => false,
                    Some(h) => h == String::from_str("true"),
                };
            },
        }
    }
}

proof fn lemma_metrics_json_contains(ms: Seq<WireMetricView>, j: int, i: int)
    requires
        0 <= j <= i < ms.len(),
    ensures
        exists|a: Seq<char>, b: Seq<char>|
            spec_metrics_json_from(ms, j) == a + spec_metric_json(ms[i]) + b,
    decreases i - j,
{
    if j == i {
        if i == ms.len() - 1 {
            assert(spec_metrics_json_from(ms, j) =~= Seq::<char>::empty() + spec_metric_json(
                ms[i],
            ) + Seq::<char>::empty());
        } else {
            assert(spec_metrics_json_from(ms, j) =~= Seq::<char>::empty() + spec_metric_json(
                ms[i],
            ) + (","@ + spec_metrics_json_from(ms, j + 1)));
        }
    } else {
        lemma_metrics_json_contains(ms, j + 1, i);
        let (a, b) = choose|a: Seq<char>, b: Seq<char>|
            spec_metrics_json_from(ms, j + 1) == a + spec_metric_json(ms[i]) + b;
        assert(spec_metrics_json_from(ms, j) =~= (spec_metric_json(ms[j]) + ","@ + a)
            + spec_metric_json(ms[i]) + b);
    }
}

/// Round trip of one externally submitted metric: an envelope decoded as a
/// metric record, its entry `k` turned into its outgoing form and carried
/// at position `i` of a post batch, reaches the serialized heartbeat body
/// as one contiguous metric entry whose name is exactly the decoded name
/// and whose value is the decoded `max` token, carried through without
/// relabeling.
pub proof fn lemma_metric_round_trip(
    line: Seq<char>,
    env: envelope::EnvelopeTelemetryView,
    md: envelope::MetricDataView,
    k: int,
    key: Seq<char>,
    machine: Seq<char>,
    instance: Seq<char>,
    sid: Seq<char>,
    ts: Seq<char>,
    ms: Seq<WireMetricView>,
    i: int,
)
    requires
        envelope::spec_decode(line) == Some(env),
        env.data == envelope::BaseDataView::MetricData(md),
        0 <= k < md.metrics.len(),
        0 <= i < ms.len(),
        ms[i] == spec_wire_of_envelope_metric(md.metrics[k]),
    ensures
        exists|a: Seq<char>, b: Seq<char>|
            spec_heartbeat_json(key, machine, instance, sid, ts, ms) == a + ("{\"Name\":"@
                + spec_json_string(md.metrics[k].name) + ",\"Value\":"@ + spec_json_string(
                md.metrics[k].max,
            ) + ",\"Weight\":"@ + spec_decimal_signed(md.metrics[k].count) + "}"@) + b,
{
    lemma_metrics_json_contains(ms, 0, i);
    let (a, b) = choose|a: Seq<char>, b: Seq<char>|
        spec_metrics_json_from(ms, 0) == a + spec_metric_json(ms[i]) + b;
    let p = "{\"RoleName\":\"Web\",\"Instance\":"@ + spec_json_string(instance)
        + ",\"InstrumentationKey\":"@ + spec_json_string(key)
        + ",\"InvariantVersion\":\"1\",\"MachineName\":"@ + spec_json_string(machine)
        + ",\"StreamId\":"@ + spec_json_string(sid) + ",\"Timestamp\":"@ + spec_json_string(ts)
        + ",\"Version\":\"rust:0.0.1\",\"Metrics\":["@;
    let suf = "],\"Documents\":null}"@;
    assert(spec_heartbeat_json(key, machine, instance, sid, ts, ms) =~= (p + a)
        + spec_metric_json(ms[i]) + (b + suf));
}

/// From Disconnected, a successful exchange whose subscription header
/// reads "true" connects the client, and the next tick runs a post at the
/// post cadence, not a ping at the ping cadence.
pub proof fn lemma_subscribe_enters_streaming()
    ensures
        spec_apply_response(false, TickOutcomeView::Success(Some("true"@))) == true,
        spec_next_action(true) == TickAction::Post,
        spec_interval_seconds(true) == POST_INTERVAL_SECONDS as int,
{
}

/// While Connected, a successful exchange whose subscription header is
/// absent, or anything but "true", disconnects the client, and the next
/// tick sends a ping at the ping cadence.
pub proof fn lemma_unsubscribe_returns_to_ping(h: Option<Seq<char>>)
    requires
        match h {
            Some(v) => v != "true"@,
            None => true,
        },
    ensures
        spec_apply_response(true, TickOutcomeView::Success(h)) == false,
        spec_next_action(false) == TickAction::Ping,
        spec_interval_seconds(false) == PING_INTERVAL_SECONDS as int,
{
}

/// A transport failure leaves the subscription state unchanged, whatever
/// it was, so the next tick keeps the same action and the same cadence.
pub proof fn lemma_failure_keeps_state(connected: bool)
    ensures
        spec_apply_response(connected, TickOutcomeView::Failure) == connected,
        spec_interval_seconds(spec_apply_response(connected, TickOutcomeView::Failure))
            == spec_interval_seconds(connected),
        spec_next_action(spec_apply_response(connected, TickOutcomeView::Failure))
            == spec_next_action(connected),
{
}

/// Relies on chrono::Utc::now and DateTime::timestamp: the machine clock's
/// seconds since the Unix epoch.
#[verifier::external_body]
fn now_unix_seconds() -> i64 {
    chrono::Utc::now().timestamp()
}

/// Relies on chrono::Utc::now and DateTime::timestamp_millis: the machine
/// clock's milliseconds since the Unix epoch.
#[verifier::external_body]
fn now_unix_millis() -> i64 {
    chrono::Utc::now().timestamp_millis()
}

/// Whether `c` is a lowercase hexadecimal digit.
pub open spec fn is_lower_hex_digit(c: char) -> bool {
    (48 <= c as u32 && c as u32 <= 57) || (97 <= c as u32 && c as u32 <= 102)
}

/// Relies on uuid::Uuid::new_v4 and its simple format: a random 128-bit
/// identifier rendered as exactly 32 lowercase hexadecimal digits, with no
/// separators.
#[verifier::external_body]
fn new_stream_id() -> (r: String)
    ensures
        r@.len() == 32,
        forall|i: int| 0 <= i < r@.len() ==> is_lower_hex_digit(#[trigger] r@[i]),
{
    uuid::Uuid::new_v4().simple().to_string()
}

} // verus!
