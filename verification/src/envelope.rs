//! The telemetry envelope: one line of JSON describing either a request
//! record or a metric record, and the duration format request records carry.

use vstd::prelude::*;
use vstd::string::*;

use crate::decimal::{parse_u64_digits, spec_parse_i32, spec_parse_u64};
use crate::json::{
    bool_value, element_next, member_key, member_next, parse_number_token, skip_value, skip_ws,
    spec_bool_value, spec_element_next, spec_member_key, spec_member_next, spec_number_token,
    spec_skip_value, spec_skip_ws, spec_string_value, string_value,
};
use crate::split::{spec_split_on, split_on};

verus! {

/// A request record: timing and outcome of one handled request.
#[allow(non_snake_case)]
pub struct RequestData {
    pub duration: String,
    pub name: String,
    pub url: String,
    pub id: String,
    pub responseCode: String,
    pub success: bool,
}

pub ghost struct RequestDataView {
    pub duration: Seq<char>,
    pub name: Seq<char>,
    pub url: Seq<char>,
    pub id: Seq<char>,
    pub response_code: Seq<char>,
    pub success: bool,
}

impl View for RequestData {
    type V = RequestDataView;

    open spec fn view(&self) -> RequestDataView {
        RequestDataView {
            duration: self.duration@,
            name: self.name@,
            url: self.url@,
            id: self.id@,
            response_code: self.responseCode@,
            success: self.success,
        }
    }
}

/// One externally submitted metric: its bounds and count arrive as the
/// verbatim numeric tokens of the wire, its count as an integer.
pub struct Metric {
    pub min: String,
    pub max: String,
    pub count: i32,
    pub name: String,
}

pub ghost struct MetricView {
    pub min: Seq<char>,
    pub max: Seq<char>,
    pub count: int,
    pub name: Seq<char>,
}

impl View for Metric {
    type V = MetricView;

    open spec fn view(&self) -> MetricView {
        MetricView { min: self.min@, max: self.max@, count: self.count as int, name: self.name@ }
    }
}

/// A metric record: the metrics one envelope submits.
pub struct MetricData {
    pub metrics: Vec<Metric>,
}

pub ghost struct MetricDataView {
    pub metrics: Seq<MetricView>,
}

impl View for MetricData {
    type V = MetricDataView;

    open spec fn view(&self) -> MetricDataView {
        MetricDataView { metrics: self.metrics@.map_values(|m: Metric| m@) }
    }
}

/// The payload of an envelope, selected by its type tag.
pub enum BaseData {
    RequestData(RequestData),
    MetricData(MetricData),
}

pub ghost enum BaseDataView {
    RequestData(RequestDataView),
    MetricData(MetricDataView),
}

impl View for BaseData {
    type V = BaseDataView;

    open spec fn view(&self) -> BaseDataView {
        match self {
            BaseData::RequestData(r) => BaseDataView::RequestData(r@),
            BaseData::MetricData(m) => BaseDataView::MetricData(m@),
        }
    }
}

/// One decoded telemetry envelope.
pub struct EnvelopeTelemetry {
    pub data: BaseData,
}

pub ghost struct EnvelopeTelemetryView {
    pub data: BaseDataView,
}

impl View for EnvelopeTelemetry {
    type V = EnvelopeTelemetryView;

    open spec fn view(&self) -> EnvelopeTelemetryView {
        EnvelopeTelemetryView { data: self.data@ }
    }
}

/// Why a line was dropped.
#[derive(Debug, PartialEq, Eq, Structural)]
pub enum DecodeError {
    Malformed,
}

/// The view of an optional decoded string.
pub open spec fn view_opt_str(o: Option<String>) -> Option<Seq<char>> {
    match o {
        Some(x) => Some(x@),
        None => None,
    }
}

/// A finished request object: every field must have appeared.
pub open spec fn spec_request_done(
    dur: Option<Seq<char>>,
    name: Option<Seq<char>>,
    url: Option<Seq<char>>,
    id: Option<Seq<char>>,
    code: Option<Seq<char>>,
    succ: Option<bool>,
    end: int,
) -> Option<(RequestDataView, int)> {
    match (dur, name, url, id, code, succ) {
        (Some(d), Some(na), Some(u), Some(i), Some(c), Some(sc)) => Some(
            (
                RequestDataView {
                    duration: d,
                    name: na,
                    url: u,
                    id: i,
                    response_code: c,
                    success: sc,
                },
                end,
            ),
        ),
        _ => None,
    }
}

/// Reads the members of a request object from the key at `j` to the closing
/// brace. A repeated field, a field of the wrong type, or a missing field
/// makes the object malformed; unknown members are skipped.
pub open spec fn spec_request_chain(
    s: Seq<char>,
    j: int,
    dur: Option<Seq<char>>,
    name: Option<Seq<char>>,
    url: Option<Seq<char>>,
    id: Option<Seq<char>>,
    code: Option<Seq<char>>,
    succ: Option<bool>,
) -> Option<(RequestDataView, int)>
    decreases s.len() - j, 1int,
{
    match spec_member_key(s, j) {
        Some((key, v)) => {
            if key == "duration"@ {
                if dur is Some {
                    None
                } else {
                    match spec_string_value(s, v) {
                        Some((x, n)) => spec_request_tail(
                            s,
                            j,
                            v,
                            n,
                            Some(x),
                            name,
                            url,
                            id,
                            code,
                            succ,
                        ),
                        None => None,
                    }
                }
            } else if key == "name"@ {
                if name is Some {
                    None
                } else {
                    match spec_string_value(s, v) {
                        Some((x, n)) => spec_request_tail(
                            s,
                            j,
                            v,
                            n,
                            dur,
                            Some(x),
                            url,
                            id,
                            code,
                            succ,
                        ),
                        None => None,
                    }
                }
            } else if key == "url"@ {
                if url is Some {
                    None
                } else {
                    match spec_string_value(s, v) {
                        Some((x, n)) => spec_request_tail(
                            s,
                            j,
                            v,
                            n,
                            dur,
                            name,
                            Some(x),
                            id,
                            code,
                            succ,
                        ),
                        None => None,
                    }
                }
            } else if key == "id"@ {
                if id is Some {
                    None
                } else {
                    match spec_string_value(s, v) {
                        Some((x, n)) => spec_request_tail(
                            s,
                            j,
                            v,
                            n,
                            dur,
                            name,
                            url,
                            Some(x),
                            code,
                            succ,
                        ),
                        None => None,
                    }
                }
            } else if key == "responseCode"@ {
                if code is Some {
                    None
                } else {
                    match spec_string_value(s, v) {
                        Some((x, n)) => spec_request_tail(
                            s,
                            j,
                            v,
                            n,
                            dur,
                            name,
                            url,
                            id,
                            Some(x),
                            succ,
                        ),
                        None => None,
                    }
                }
            } else if key == "success"@ {
                if succ is Some {
                    None
                } else {
                    match spec_bool_value(s, v) {
                        Some((b, n)) => spec_request_tail(
                            s,
                            j,
                            v,
                            n,
                            dur,
                            name,
                            url,
                            id,
                            code,
                            Some(b),
                        ),
                        None => None,
                    }
                }
            } else {
                match spec_skip_value(s, v) {
                    Some(n) => spec_request_tail(s, j, v, n, dur, name, url, id, code, succ),
                    None => None,
                }
            }
        },
        None => None,
    }
}

/// After one request member's value ends at `n`: close the object or move
/// to the next member.
pub open spec fn spec_request_tail(
    s: Seq<char>,
    j: int,
    v: int,
    n: int,
    dur: Option<Seq<char>>,
    name: Option<Seq<char>>,
    url: Option<Seq<char>>,
    id: Option<Seq<char>>,
    code: Option<Seq<char>>,
    succ: Option<bool>,
) -> Option<(RequestDataView, int)>
    decreases s.len() - j, 0int,
{
    if !(j < v && v < n && n <= s.len()) {
        None
    } else {
        match spec_member_next(s, j, n) {
            Some((true, end)) => spec_request_done(dur, name, url, id, code, succ, end),
            Some((false, j2)) => if !(j < j2 && j2 <= s.len()) {
                None
            } else {
                spec_request_chain(s, j2, dur, name, url, id, code, succ)
            },
            None => None,
        }
    }
}

/// Reads a whole request object standing at `v`.
pub open spec fn spec_request_value(s: Seq<char>, v: int) -> Option<(RequestDataView, int)> {
    if !(0 <= v < s.len() && s[v] == '{') {
        None
    } else {
        let j = spec_skip_ws(s, v + 1);
        if !(v < j && j < s.len()) {
            None
        } else if s[j] == '}' {
            None
        } else {
            spec_request_chain(s, j, None, None, None, None, None, None)
        }
    }
}

/// A finished metric item: every field must have appeared.
pub open spec fn spec_metric_done(
    name: Option<Seq<char>>,
    min: Option<Seq<char>>,
    max: Option<Seq<char>>,
    count: Option<int>,
    end: int,
) -> Option<(MetricView, int)> {
    match (name, min, max, count) {
        (Some(na), Some(mi), Some(ma), Some(c)) => Some(
            (MetricView { min: mi, max: ma, count: c, name: na }, end),
        ),
        _ => None,
    }
}

/// Reads the members of one metric item from the key at `j` to the closing
/// brace.
pub open spec fn spec_metric_chain(
    s: Seq<char>,
    j: int,
    name: Option<Seq<char>>,
    min: Option<Seq<char>>,
    max: Option<Seq<char>>,
    count: Option<int>,
) -> Option<(MetricView, int)>
    decreases s.len() - j, 1int,
{
    match spec_member_key(s, j) {
        Some((key, v)) => {
            if key == "name"@ {
                if name is Some {
                    None
                } else {
                    match spec_string_value(s, v) {
                        Some((x, n)) => spec_metric_tail(s, j, v, n, Some(x), min, max, count),
                        None => None,
                    }
                }
            } else if key == "min"@ {
                if min is Some {
                    None
                } else {
                    match spec_number_token(s, v) {
                        Some((tok, n)) => spec_metric_tail(s, j, v, n, name, Some(tok), max, count),
                        None => None,
                    }
                }
            } else if key == "max"@ {
                if max is Some {
                    None
                } else {
                    match spec_number_token(s, v) {
                        Some((tok, n)) => spec_metric_tail(s, j, v, n, name, min, Some(tok), count),
                        None => None,
                    }
                }
            } else if key == "count"@ {
                if count is Some {
                    None
                } else {
                    match spec_number_token(s, v) {
                        Some((tok, n)) => match spec_parse_i32(tok) {
                            Some(c) => spec_metric_tail(s, j, v, n, name, min, max, Some(c)),
                            None => None,
                        },
                        None => None,
                    }
                }
            } else {
                match spec_skip_value(s, v) {
                    Some(n) => spec_metric_tail(s, j, v, n, name, min, max, count),
                    None => None,
                }
            }
        },
        None => None,
    }
}

/// After one metric member's value ends at `n`: close the item or move on.
pub open spec fn spec_metric_tail(
    s: Seq<char>,
    j: int,
    v: int,
    n: int,
    name: Option<Seq<char>>,
    min: Option<Seq<char>>,
    max: Option<Seq<char>>,
    count: Option<int>,
) -> Option<(MetricView, int)>
    decreases s.len() - j, 0int,
{
    if !(j < v && v < n && n <= s.len()) {
        None
    } else {
        match spec_member_next(s, j, n) {
            Some((true, end)) => spec_metric_done(name, min, max, count, end),
            Some((false, j2)) => if !(j < j2 && j2 <= s.len()) {
                None
            } else {
                spec_metric_chain(s, j2, name, min, max, count)
            },
            None => None,
        }
    }
}

/// Reads one whole metric item standing at `v`.
pub open spec fn spec_metric_value(s: Seq<char>, v: int) -> Option<(MetricView, int)> {
    if !(0 <= v < s.len() && s[v] == '{') {
        None
    } else {
        let j = spec_skip_ws(s, v + 1);
        if !(v < j && j < s.len()) {
            None
        } else if s[j] == '}' {
            None
        } else {
            spec_metric_chain(s, j, None, None, None, None)
        }
    }
}

/// Reads the elements of the metrics array from the element at `j` to the
/// closing bracket, in order, behind those already in `acc`.
pub open spec fn spec_metric_items(s: Seq<char>, j: int, acc: Seq<MetricView>) -> Option<
    (Seq<MetricView>, int),
>
    decreases s.len() - j,
{
    match spec_metric_value(s, j) {
        Some((mv, n)) => {
            if !(j < n && n <= s.len()) {
                None
            } else {
                match spec_element_next(s, j, n) {
                    Some((true, end)) => Some((acc.push(mv), end)),
                    Some((false, j2)) => if !(j < j2 && j2 <= s.len()) {
                        None
                    } else {
                        spec_metric_items(s, j2, acc.push(mv))
                    },
                    None => None,
                }
            }
        },
        None => None,
    }
}

/// Reads a whole metrics array standing at `v`.
pub open spec fn spec_metrics_array_value(s: Seq<char>, v: int) -> Option<(Seq<MetricView>, int)> {
    if !(0 <= v < s.len() && s[v] == '[') {
        None
    } else {
        let j = spec_skip_ws(s, v + 1);
        if !(v < j && j < s.len()) {
            None
        } else if s[j] == ']' {
            Some((Seq::empty(), j + 1))
        } else {
            spec_metric_items(s, j, Seq::empty())
        }
    }
}

/// Reads the members of a metric record object: the `metrics` array is
/// required, unknown members are skipped.
pub open spec fn spec_metricdata_chain(s: Seq<char>, j: int, metrics: Option<Seq<MetricView>>) -> Option<
    (MetricDataView, int),
>
    decreases s.len() - j, 1int,
{
    match spec_member_key(s, j) {
        Some((key, v)) => {
            if key == "metrics"@ {
                if metrics is Some {
                    None
                } else {
                    match spec_metrics_array_value(s, v) {
                        Some((ms, n)) => spec_metricdata_tail(s, j, v, n, Some(ms)),
                        None => None,
                    }
                }
            } else {
                match spec_skip_value(s, v) {
                    Some(n) => spec_metricdata_tail(s, j, v, n, metrics),
                    None => None,
                }
            }
        },
        None => None,
    }
}

/// After one metric record member's value ends at `n`.
pub open spec fn spec_metricdata_tail(
    s: Seq<char>,
    j: int,
    v: int,
    n: int,
    metrics: Option<Seq<MetricView>>,
) -> Option<(MetricDataView, int)>
    decreases s.len() - j, 0int,
{
    if !(j < v && v < n && n <= s.len()) {
        None
    } else {
        match spec_member_next(s, j, n) {
            Some((true, end)) => match metrics {
                Some(ms) => Some((MetricDataView { metrics: ms }, end)),
                None => None,
            },
            Some((false, j2)) => if !(j < j2 && j2 <= s.len()) {
                None
            } else {
                spec_metricdata_chain(s, j2, metrics)
            },
            None => None,
        }
    }
}

/// Reads a whole metric record object standing at `v`.
pub open spec fn spec_metricdata_value(s: Seq<char>, v: int) -> Option<(MetricDataView, int)> {
    if !(0 <= v < s.len() && s[v] == '{') {
        None
    } else {
        let j = spec_skip_ws(s, v + 1);
        if !(v < j && j < s.len()) {
            None
        } else if s[j] == '}' {
            None
        } else {
            spec_metricdata_chain(s, j, None)
        }
    }
}

/// Reads the members of the inner data object: `baseType` names the record
/// kind, `baseData` is remembered as the span of its value and read once
/// the kind is known, so the two may stand in either order.
pub open spec fn spec_data_chain(
    s: Seq<char>,
    j: int,
    tag: Option<Seq<char>>,
    dspan: Option<(int, int)>,
) -> Option<(Seq<char>, (int, int), int)>
    decreases s.len() - j, 1int,
{
    match spec_member_key(s, j) {
        Some((key, v)) => {
            if key == "baseType"@ {
                if tag is Some {
                    None
                } else {
                    match spec_string_value(s, v) {
                        Some((t, n)) => spec_data_tail(s, j, v, n, Some(t), dspan),
                        None => None,
                    }
                }
            } else if key == "baseData"@ {
                if dspan is Some {
                    None
                } else {
                    match spec_skip_value(s, v) {
                        Some(n) => spec_data_tail(s, j, v, n, tag, Some((v, n))),
                        None => None,
                    }
                }
            } else {
                match spec_skip_value(s, v) {
                    Some(n) => spec_data_tail(s, j, v, n, tag, dspan),
                    None => None,
                }
            }
        },
        None => None,
    }
}

/// After one data member's value ends at `n`.
pub open spec fn spec_data_tail(
    s: Seq<char>,
    j: int,
    v: int,
    n: int,
    tag: Option<Seq<char>>,
    dspan: Option<(int, int)>,
) -> Option<(Seq<char>, (int, int), int)>
    decreases s.len() - j, 0int,
{
    if !(j < v && v < n && n <= s.len()) {
        None
    } else {
        match spec_member_next(s, j, n) {
            Some((true, end)) => match (tag, dspan) {
                (Some(t), Some(d)) => Some((t, d, end)),
                _ => None,
            },
            Some((false, j2)) => if !(j < j2 && j2 <= s.len()) {
                None
            } else {
                spec_data_chain(s, j2, tag, dspan)
            },
            None => None,
        }
    }
}

/// Reads the whole data object standing at `v` and turns it into a typed
/// record: the `baseData` span is read as the shape the `baseType` tag
/// names; an unknown tag is malformed.
pub open spec fn spec_data_value(s: Seq<char>, v: int) -> Option<(BaseDataView, int)> {
    if !(0 <= v < s.len() && s[v] == '{') {
        None
    } else {
        let j = spec_skip_ws(s, v + 1);
        if !(v < j && j < s.len()) {
            None
        } else if s[j] == '}' {
            None
        } else {
            match spec_data_chain(s, j, None, None) {
                Some((tag, d, end)) => {
                    if tag == "RequestData"@ {
                        match spec_request_value(s, d.0) {
                            Some((rv, nr)) => if nr == d.1 {
                                Some((BaseDataView::RequestData(rv), end))
                            } else {
                                None
                            },
                            None => None,
                        }
                    } else if tag == "MetricData"@ {
                        match spec_metricdata_value(s, d.0) {
                            Some((mv, nm)) => if nm == d.1 {
                                Some((BaseDataView::MetricData(mv), end))
                            } else {
                                None
                            },
                            None => None,
                        }
                    } else {
                        None
                    }
                },
                None => None,
            }
        }
    }
}

/// The view of an optional decoded payload.
pub open spec fn view_opt_base(o: Option<BaseData>) -> Option<BaseDataView> {
    match o {
        Some(b) => Some(b@),
        None => None,
    }
}

/// Reads the members of the outer envelope object: the `data` member is
/// required, unknown members are skipped.
pub open spec fn spec_env_chain(s: Seq<char>, j: int, have: Option<BaseDataView>) -> Option<
    (BaseDataView, int),
>
    decreases s.len() - j, 1int,
{
    match spec_member_key(s, j) {
        Some((key, v)) => {
            if key == "data"@ {
                if have is Some {
                    None
                } else {
                    match spec_data_value(s, v) {
                        Some((d, n)) => spec_env_tail(s, j, v, n, Some(d)),
                        None => None,
                    }
                }
            } else {
                match spec_skip_value(s, v) {
                    Some(n) => spec_env_tail(s, j, v, n, have),
                    None => None,
                }
            }
        },
        None => None,
    }
}

/// After one envelope member's value ends at `n`.
pub open spec fn spec_env_tail(
    s: Seq<char>,
    j: int,
    v: int,
    n: int,
    have: Option<BaseDataView>,
) -> Option<(BaseDataView, int)>
    decreases s.len() - j, 0int,
{
    if !(j < v && v < n && n <= s.len()) {
        None
    } else {
        match spec_member_next(s, j, n) {
            Some((true, end)) => match have {
                Some(d) => Some((d, end)),
                None => None,
            },
            Some((false, j2)) => if !(j < j2 && j2 <= s.len()) {
                None
            } else {
                spec_env_chain(s, j2, have)
            },
            None => None,
        }
    }
}

/// What one ingested line decodes to: `None` when the line is malformed.
/// The line must hold exactly one envelope object, with nothing but
/// whitespace after it.
pub open spec fn spec_decode(s: Seq<char>) -> Option<EnvelopeTelemetryView> {
    let i0 = spec_skip_ws(s, 0);
    if !(0 <= i0 < s.len() && s[i0] == '{') {
        None
    } else {
        let j = spec_skip_ws(s, i0 + 1);
        if !(i0 < j && j < s.len()) {
            None
        } else if s[j] == '}' {
            None
        } else {
            match spec_env_chain(s, j, None) {
                Some((d, n)) => {
                    let e = spec_skip_ws(s, n);
                    if e == s.len() {
                        Some(EnvelopeTelemetryView { data: d })
                    } else {
                        None
                    }
                },
                None => None,
            }
        }
    }
}

/// Reads the members of a request object from the key at `j0`.
fn request_fields(s: &str, j0: usize) -> (r: Option<(RequestData, usize)>)
    requires
        j0 <= s@.len(),
    ensures
        match r {
            Some((rd, n)) => spec_request_chain(s@, j0 as int, None, None, None, None, None, None)
                == Some((rd@, n as int)) && j0 < n <= s@.len(),
            None => spec_request_chain(s@, j0 as int, None, None, None, None, None, None) is None,
        },
{
    let mut j = j0;
    let mut dur: Option<String> = None;
    let mut name: Option<String> = None;
    let mut url: Option<String> = None;
    let mut id: Option<String> = None;
    let mut code: Option<String> = None;
    let mut succ: Option<bool> = None;
    loop
        invariant
            j0 <= j <= s@.len(),
            spec_request_chain(s@, j0 as int, None, None, None, None, None, None)
                == spec_request_chain(
                s@,
                j as int,
                view_opt_str(dur),
                view_opt_str(name),
                view_opt_str(url),
                view_opt_str(id),
                view_opt_str(code),
                succ,
            ),
        decreases s@.len() - j,
    {
        match member_key(s, j) {
            None => {
                return None;
            },
            Some((key, v)) => {
                let n: usize;
                if key == String::from_str("duration") {
                    if dur.is_some() {
                        return None;
                    }
                    match string_value(s, v) {
                        Some((x, nn)) => {
                            dur = Some(x);
                            n = nn;
                        },
                        None => {
                            return None;
                        },
                    }
                } else if key == String::from_str("name") {
                    if name.is_some() {
                        return None;
                    }
                    match string_value(s, v) {
                        Some((x, nn)) => {
                            name = Some(x);
                            n = nn;
                        },
                        None => {
                            return None;
                        },
                    }
                } else if key == String::from_str("url") {
                    if url.is_some() {
                        return None;
                    }
                    match string_value(s, v) {
                        Some((x, nn)) => {
                            url = Some(x);
                            n = nn;
                        },
                        None => {
                            return None;
                        },
                    }
                } else if key == String::from_str("id") {
                    if id.is_some() {
                        return None;
                    }
                    match string_value(s, v) {
                        Some((x, nn)) => {
                            id = Some(x);
                            n = nn;
                        },
                        None => {
                            return None;
                        },
                    }
                } else if key == String::from_str("responseCode") {
                    if code.is_some() {
                        return None;
                    }
                    match string_value(s, v) {
                        Some((x, nn)) => {
                            code = Some(x);
                            n = nn;
                        },
                        None => {
                            return None;
                        },
                    }
                } else if key == String::from_str("success") {
                    if succ.is_some() {
                        return None;
                    }
                    match bool_value(s, v) {
                        Some((b, nn)) => {
                            succ = Some(b);
                            n = nn;
                        },
                        None => {
                            return None;
                        },
                    }
                } else {
                    match skip_value(s, v) {
                        Some(nn) => {
                            n = nn;
                        },
                        None => {
                            return None;
                        },
                    }
                }
                match member_next(s, j, n) {
                    None => {
                        return None;
                    },
                    Some((true, end)) => {
                        match (dur, name, url, id, code, succ) {
                            (Some(d), Some(na), Some(u), Some(i), Some(c), Some(sc)) => {
                                let rd = RequestData {
                                    duration: d,
                                    name: na,
                                    url: u,
                                    id: i,
                                    responseCode: c,
                                    success: sc,
                                };
                                return Some((rd, end));
                            },
                            _ => {
                                return None;
                            },
                        }
                    },
                    Some((false, j2)) => {
                        j = j2;
                    },
                }
            },
        }
    }
}

/// Reads a whole request object standing at `v`.
fn request_value(s: &str, v: usize) -> (r: Option<(RequestData, usize)>)
    requires
        v <= s@.len(),
    ensures
        match r {
            Some((rd, n)) => spec_request_value(s@, v as int) == Some((rd@, n as int)) && v < n
                <= s@.len(),
            None => spec_request_value(s@, v as int) is None,
        },
{
    let len = s.unicode_len();
    if v >= len || s.get_char(v) != '{' {
        return None;
    }
    let j = skip_ws(s, v + 1);
    if j >= len {
        None
    } else if s.get_char(j) == '}' {
        None
    } else {
        request_fields(s, j)
    }
}

/// The view of an optional count.
pub open spec fn view_opt_i32(o: Option<i32>) -> Option<int> {
    match o {
        Some(c) => Some(c as int),
        None => None,
    }
}

/// Reads the members of one metric item from the key at `j0`.
fn metric_fields(s: &str, j0: usize) -> (r: Option<(Metric, usize)>)
    requires
        j0 <= s@.len(),
    ensures
        match r {
            Some((m, n)) => spec_metric_chain(s@, j0 as int, None, None, None, None) == Some(
                (m@, n as int),
            ) && j0 < n <= s@.len(),
            None => spec_metric_chain(s@, j0 as int, None, None, None, None) is None,
        },
{
    let mut j = j0;
    let mut name: Option<String> = None;
    let mut min: Option<String> = None;
    let mut max: Option<String> = None;
    let mut count: Option<i32> = None;
    loop
        invariant
            j0 <= j <= s@.len(),
            spec_metric_chain(s@, j0 as int, None, None, None, None) == spec_metric_chain(
                s@,
                j as int,
                view_opt_str(name),
                view_opt_str(min),
                view_opt_str(max),
                view_opt_i32(count),
            ),
        decreases s@.len() - j,
    {
        match member_key(s, j) {
            None => {
                return None;
            },
            Some((key, v)) => {
                let n: usize;
                if key == String::from_str("name") {
                    if name.is_some() {
                        return None;
                    }
                    match string_value(s, v) {
                        Some((x, nn)) => {
                            name = Some(x);
                            n = nn;
                        },
                        None => {
                            return None;
                        },
                    }
                } else if key == String::from_str("min") {
                    if min.is_some() {
                        return None;
                    }
                    match parse_number_token(s, v) {
                        Some((tok, nn)) => {
                            min = Some(tok);
                            n = nn;
                        },
                        None => {
                            return None;
                        },
                    }
                } else if key == String::from_str("max") {
                    if max.is_some() {
                        return None;
                    }
                    match parse_number_token(s, v) {
                        Some((tok, nn)) => {
                            max = Some(tok);
                            n = nn;
                        },
                        None => {
                            return None;
                        },
                    }
                } else if key == String::from_str("count") {
                    if count.is_some() {
                        return None;
                    }
                    match parse_number_token(s, v) {
                        Some((tok, nn)) => {
                            match crate::decimal::parse_i32_token(tok.as_str()) {
                                Some(c) => {
                                    count = Some(c);
                                    n = nn;
                                },
                                None => {
                                    return None;
                                },
                            }
                        },
                        None => {
                            return None;
                        },
                    }
                } else {
                    match skip_value(s, v) {
                        Some(nn) => {
                            n = nn;
                        },
                        None => {
                            return None;
                        },
                    }
                }
                match member_next(s, j, n) {
                    None => {
                        return None;
                    },
                    Some((true, end)) => {
                        match (name, min, max, count) {
                            (Some(na), Some(mi), Some(ma), Some(c)) => {
                                let m = Metric { min: mi, max: ma, count: c, name: na };
                                return Some((m, end));
                            },
                            _ => {
                                return None;
                            },
                        }
                    },
                    Some((false, j2)) => {
                        j = j2;
                    },
                }
            },
        }
    }
}

/// Reads one whole metric item standing at `v`.
fn metric_value(s: &str, v: usize) -> (r: Option<(Metric, usize)>)
    requires
        v <= s@.len(),
    ensures
        match r {
            Some((m, n)) => spec_metric_value(s@, v as int) == Some((m@, n as int)) && v < n
                <= s@.len(),
            None => spec_metric_value(s@, v as int) is None,
        },
{
    let len = s.unicode_len();
    if v >= len || s.get_char(v) != '{' {
        return None;
    }
    let j = skip_ws(s, v + 1);
    if j >= len {
        None
    } else if s.get_char(j) == '}' {
        None
    } else {
        metric_fields(s, j)
    }
}

/// Reads the elements of the metrics array from the element at `j0`.
fn metric_items(s: &str, j0: usize) -> (r: Option<(Vec<Metric>, usize)>)
    requires
        j0 <= s@.len(),
    ensures
        match r {
            Some((ms, n)) => spec_metric_items(s@, j0 as int, Seq::empty()) == Some(
                (ms@.map_values(|m: Metric| m@), n as int),
            ) && j0 < n <= s@.len(),
            None => spec_metric_items(s@, j0 as int, Seq::empty()) is None,
        },
{
    let mut items: Vec<Metric> = Vec::new();
    let mut j = j0;
    proof {
        assert(items@.map_values(|m: Metric| m@) =~= Seq::<MetricView>::empty());
    }
    loop
        invariant
            j0 <= j <= s@.len(),
            spec_metric_items(s@, j0 as int, Seq::empty()) == spec_metric_items(
                s@,
                j as int,
                items@.map_values(|m: Metric| m@),
            ),
        decreases s@.len() - j,
    {
        match metric_value(s, j) {
            None => {
                return None;
            },
            Some((mv, n)) => {
                let ghost old_items = items@;
                let ghost mvv = mv@;
                items.push(mv);
                proof {
                    assert(items@.map_values(|m: Metric| m@) =~= old_items.map_values(
                        |m: Metric| m@,
                    ).push(mvv));
                }
                match element_next(s, j, n) {
                    None => {
                        return None;
                    },
                    Some((true, end)) => {
                        return Some((items, end));
                    },
                    Some((false, j2)) => {
                        j = j2;
                    },
                }
            },
        }
    }
}

/// Reads a whole metrics array standing at `v`.
fn metrics_array_value(s: &str, v: usize) -> (r: Option<(Vec<Metric>, usize)>)
    requires
        v <= s@.len(),
    ensures
        match r {
            Some((ms, n)) => spec_metrics_array_value(s@, v as int) == Some(
                (ms@.map_values(|m: Metric| m@), n as int),
            ) && v < n <= s@.len(),
            None => spec_metrics_array_value(s@, v as int) is None,
        },
{
    let len = s.unicode_len();
    if v >= len || s.get_char(v) != '[' {
        return None;
    }
    let j = skip_ws(s, v + 1);
    if j >= len {
        None
    } else if s.get_char(j) == ']' {
        let empty: Vec<Metric> = Vec::new();
        proof {
            assert(empty@.map_values(|m: Metric| m@) =~= Seq::<MetricView>::empty());
        }
        Some((empty, j + 1))
    } else {
        metric_items(s, j)
    }
}

/// Reads the members of a metric record object from the key at `j0`.
fn metricdata_fields(s: &str, j0: usize) -> (r: Option<(MetricData, usize)>)
    requires
        j0 <= s@.len(),
    ensures
        match r {
            Some((md, n)) => spec_metricdata_chain(s@, j0 as int, None) == Some((md@, n as int))
                && j0 < n <= s@.len(),
            None => spec_metricdata_chain(s@, j0 as int, None) is None,
        },
{
    let mut j = j0;
    let mut metrics: Option<Vec<Metric>> = None;
    loop
        invariant
            j0 <= j <= s@.len(),
            spec_metricdata_chain(s@, j0 as int, None) == spec_metricdata_chain(
                s@,
                j as int,
                match metrics {
                    Some(ms) => Some(ms@.map_values(|m: Metric| m@)),
                    None => None,
                },
            ),
        decreases s@.len() - j,
    {
        match member_key(s, j) {
            None => {
                return None;
            },
            Some((key, v)) => {
                let n: usize;
                if key == String::from_str("metrics") {
                    if metrics.is_some() {
                        return None;
                    }
                    match metrics_array_value(s, v) {
                        Some((ms, nn)) => {
                            metrics = Some(ms);
                            n = nn;
                        },
                        None => {
                            return None;
                        },
                    }
                } else {
                    match skip_value(s, v) {
                        Some(nn) => {
                            n = nn;
                        },
                        None => {
                            return None;
                        },
                    }
                }
                match member_next(s, j, n) {
                    None => {
                        return None;
                    },
                    Some((true, end)) => {
                        match metrics {
                            Some(ms) => {
                                return Some((MetricData { metrics: ms }, end));
                            },
                            None => {
                                return None;
                            },
                        }
                    },
                    Some((false, j2)) => {
                        j = j2;
                    },
                }
            },
        }
    }
}

/// Reads a whole metric record object standing at `v`.
fn metricdata_value(s: &str, v: usize) -> (r: Option<(MetricData, usize)>)
    requires
        v <= s@.len(),
    ensures
        match r {
            Some((md, n)) => spec_metricdata_value(s@, v as int) == Some((md@, n as int)) && v < n
                <= s@.len(),
            None => spec_metricdata_value(s@, v as int) is None,
        },
{
    let len = s.unicode_len();
    if v >= len || s.get_char(v) != '{' {
        return None;
    }
    let j = skip_ws(s, v + 1);
    if j >= len {
        None
    } else if s.get_char(j) == '}' {
        None
    } else {
        metricdata_fields(s, j)
    }
}

/// The view of an optional remembered span.
pub open spec fn view_opt_span(o: Option<(usize, usize)>) -> Option<(int, int)> {
    match o {
        Some((a, b)) => Some((a as int, b as int)),
        None => None,
    }
}

/// Reads the members of the inner data object from the key at `j0`.
fn data_fields(s: &str, j0: usize) -> (r: Option<(String, (usize, usize), usize)>)
    requires
        j0 <= s@.len(),
    ensures
        match r {
            Some((tag, d, n)) => spec_data_chain(s@, j0 as int, None, None) == Some(
                (tag@, (d.0 as int, d.1 as int), n as int),
            ) && j0 < n <= s@.len() && d.0 < d.1 <= s@.len(),
            None => spec_data_chain(s@, j0 as int, None, None) is None,
        },
{
    let mut j = j0;
    let mut tag: Option<String> = None;
    let mut dspan: Option<(usize, usize)> = None;
    loop
        invariant
            j0 <= j <= s@.len(),
            match dspan {
                Some((a, b)) => a < b <= s@.len(),
                None => true,
            },
            spec_data_chain(s@, j0 as int, None, None) == spec_data_chain(
                s@,
                j as int,
                view_opt_str(tag),
                view_opt_span(dspan),
            ),
        decreases s@.len() - j,
    {
        match member_key(s, j) {
            None => {
                return None;
            },
            Some((key, v)) => {
                let n: usize;
                if key == String::from_str("baseType") {
                    if tag.is_some() {
                        return None;
                    }
                    match string_value(s, v) {
                        Some((t, nn)) => {
                            tag = Some(t);
                            n = nn;
                        },
                        None => {
                            return None;
                        },
                    }
                } else if key == String::from_str("baseData") {
                    if dspan.is_some() {
                        return None;
                    }
                    match skip_value(s, v) {
                        Some(nn) => {
                            dspan = Some((v, nn));
                            n = nn;
                        },
                        None => {
                            return None;
                        },
                    }
                } else {
                    match skip_value(s, v) {
                        Some(nn) => {
                            n = nn;
                        },
                        None => {
                            return None;
                        },
                    }
                }
                match member_next(s, j, n) {
                    None => {
                        return None;
                    },
                    Some((true, end)) => {
                        match (tag, dspan) {
                            (Some(t), Some(d)) => {
                                return Some((t, d, end));
                            },
                            _ => {
                                return None;
                            },
                        }
                    },
                    Some((false, j2)) => {
                        j = j2;
                    },
                }
            },
        }
    }
}

/// Reads the whole data object standing at `v` and turns it into a typed
/// record.
fn data_value(s: &str, v: usize) -> (r: Option<(BaseData, usize)>)
    requires
        v <= s@.len(),
    ensures
        match r {
            Some((b, n)) => spec_data_value(s@, v as int) == Some((b@, n as int)) && v < n
                <= s@.len(),
            None => spec_data_value(s@, v as int) is None,
        },
{
    let len = s.unicode_len();
    if v >= len || s.get_char(v) != '{' {
        return None;
    }
    let j = skip_ws(s, v + 1);
    if j >= len {
        return None;
    }
    if s.get_char(j) == '}' {
        return None;
    }
    match data_fields(s, j) {
        Some((tag, d, end)) => {
            if tag == String::from_str("RequestData") {
                match request_value(s, d.0) {
                    Some((rd, nr)) => {
                        if nr == d.1 {
                            Some((BaseData::RequestData(rd), end))
                        } else {
                            None
                        }
                    },
                    None => None,
                }
            } else if tag == String::from_str("MetricData") {
                match metricdata_value(s, d.0) {
                    Some((md, nm)) => {
                        if nm == d.1 {
                            Some((BaseData::MetricData(md), end))
                        } else {
                            None
                        }
                    },
                    None => None,
                }
            } else {
                None
            }
        },
        None => None,
    }
}

/// Reads the members of the outer envelope object from the key at `j0`.
fn env_fields(s: &str, j0: usize) -> (r: Option<(BaseData, usize)>)
    requires
        j0 <= s@.len(),
    ensures
        match r {
            Some((b, n)) => spec_env_chain(s@, j0 as int, None) == Some((b@, n as int)) && j0 < n
                <= s@.len(),
            None => spec_env_chain(s@, j0 as int, None) is None,
        },
{
    let mut j = j0;
    let mut have: Option<BaseData> = None;
    loop
        invariant
            j0 <= j <= s@.len(),
            spec_env_chain(s@, j0 as int, None) == spec_env_chain(s@, j as int, view_opt_base(have)),
        decreases s@.len() - j,
    {
        match member_key(s, j) {
            None => {
                return None;
            },
            Some((key, v)) => {
                let n: usize;
                if key == String::from_str("data") {
                    if have.is_some() {
                        return None;
                    }
                    match data_value(s, v) {
                        Some((b, nn)) => {
                            have = Some(b);
                            n = nn;
                        },
                        None => {
                            return None;
                        },
                    }
                } else {
                    match skip_value(s, v) {
                        Some(nn) => {
                            n = nn;
                        },
                        None => {
                            return None;
                        },
                    }
                }
                match member_next(s, j, n) {
                    None => {
                        return None;
                    },
                    Some((true, end)) => {
                        match have {
                            Some(b) => {
                                return Some((b, end));
                            },
                            None => {
                                return None;
                            },
                        }
                    },
                    Some((false, j2)) => {
                        j = j2;
                    },
                }
            },
        }
    }
}

/// Decodes one ingested line into a typed envelope. A malformed line — not
/// one well-formed JSON envelope of a known record kind — is reported as
/// `DecodeError::Malformed` and nothing else; the decoder keeps no state,
/// so one bad line never disturbs the next.
pub fn decode(line: &str) -> (r: Result<EnvelopeTelemetry, DecodeError>)
    ensures
        match r {
            Ok(env) => spec_decode(line@) == Some(env@),
            Err(e) => e == DecodeError::Malformed && spec_decode(line@) is None,
        },
{
    let len = line.unicode_len();
    let i0 = skip_ws(line, 0);
    if i0 >= len || line.get_char(i0) != '{' {
        return Err(DecodeError::Malformed);
    }
    let j = skip_ws(line, i0 + 1);
    if j >= len {
        return Err(DecodeError::Malformed);
    }
    if line.get_char(j) == '}' {
        return Err(DecodeError::Malformed);
    }
    match env_fields(line, j) {
        Some((d, n)) => {
            let e = skip_ws(line, n);
            if e == len {
                Ok(EnvelopeTelemetry { data: d })
            } else {
                Err(DecodeError::Malformed)
            }
        },
        None => Err(DecodeError::Malformed),
    }
}

/// The components of a duration string, split on `:` and `.`.
pub open spec fn spec_duration_components(s: Seq<char>) -> Seq<Seq<char>> {
    spec_split_on(s, ":."@)
}

/// The milliseconds a `HH:MM:SS.fff` duration string denotes. A string
/// that does not split into exactly four numeric components that fit, or
/// whose total overflows, denotes zero: malformed timing data means
/// "unknown", never an error.
pub open spec fn spec_duration_millis(s: Seq<char>) -> int {
    let ps = spec_duration_components(s);
    if ps.len() != 4 {
        0
    } else {
        match (spec_parse_u64(ps[0]), spec_parse_u64(ps[1]), spec_parse_u64(ps[2]), spec_parse_u64(
            ps[3],
        )) {
            (Some(h), Some(m), Some(sec), Some(ms)) => {
                let total = h * 3600000 + m * 60000 + sec * 1000 + ms;
                if total <= u64::MAX {
                    total
                } else {
                    0
                }
            },
            _ => 0,
        }
    }
}

/// Reads a `HH:MM:SS.fff` duration string as milliseconds; anything that
/// does not split into exactly four components on `:` and `.` counts as a
/// zero duration.
pub fn from_duration_string(duration_string: String) -> (r: u64)
    ensures
        r as int == spec_duration_millis(duration_string@),
        spec_duration_components(duration_string@).len() != 4 ==> r == 0,
{
    let parts = split_on(duration_string.as_str(), ":.");
    let ghost ps = spec_duration_components(duration_string@);
    if parts.len() != 4 {
        return 0;
    }
    assert(ps[0] == parts@[0]@ && ps[1] == parts@[1]@ && ps[2] == parts@[2]@ && ps[3]
        == parts@[3]@);
    let h = match parse_u64_digits(parts[0].as_str()) {
        Some(v) => v,
        None => {
            return 0;
        },
    };
    let m = match parse_u64_digits(parts[1].as_str()) {
        Some(v) => v,
        None => {
            return 0;
        },
    };
    let sec = match parse_u64_digits(parts[2].as_str()) {
        Some(v) => v,
        None => {
            return 0;
        },
    };
    let ms = match parse_u64_digits(parts[3].as_str()) {
        Some(v) => v,
        None => {
            return 0;
        },
    };
    let total: u128 = h as u128 * 3600000 + m as u128 * 60000 + sec as u128 * 1000 + ms as u128;
    if total > u64::MAX as u128 {
        0
    } else {
        total as u64
    }
}

} // verus!
