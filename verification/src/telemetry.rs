//! Telemetry: log events, metrics, alerts, the bridges that attribute
//! them to plugins, and the store they land in.
//!
//! Times are kept as milliseconds since the Unix epoch. A metric's
//! numeric value is carried as its raw IEEE-754 bits, untouched by the
//! host.

use vstd::prelude::*;

verus! {

use vstd::string::StringExecFns;
use vstd::utf8::{valid_utf8, decode_utf8};
use crate::strutil::{StrMap, map_set, str_eq, lemma_map_set_get, pairs_view};

/// A log event's level.
#[derive(Clone, Copy, PartialEq, Eq, Structural, Debug)]
pub enum LogLevel {
    Debug,
    Info,
    Warn,
    Error,
}

/// An alert's severity.
#[derive(Clone, Copy, PartialEq, Eq, Structural, Debug)]
pub enum AlertSeverity {
    Info,
    Warning,
    Critical,
}

/// The level a stored name denotes; anything unknown reads as `Info`.
pub open spec fn spec_parse_level(s: Seq<char>) -> LogLevel {
    if s == "Debug"@ {
        LogLevel::Debug
    } else if s == "Warn"@ {
        LogLevel::Warn
    } else if s == "Error"@ {
        LogLevel::Error
    } else {
        LogLevel::Info
    }
}

/// The name a level is stored under.
pub open spec fn spec_level_name(l: LogLevel) -> Seq<char> {
    match l {
        LogLevel::Debug => "Debug"@,
        LogLevel::Info => "Info"@,
        LogLevel::Warn => "Warn"@,
        LogLevel::Error => "Error"@,
    }
}

/// The severity a request names; anything unknown reads as `Info`.
pub open spec fn spec_parse_severity(s: Seq<char>) -> AlertSeverity {
    if s == "Warning"@ {
        AlertSeverity::Warning
    } else if s == "Critical"@ {
        AlertSeverity::Critical
    } else {
        AlertSeverity::Info
    }
}

/// The name a severity is stored under.
pub open spec fn spec_severity_name(s: AlertSeverity) -> Seq<char> {
    match s {
        AlertSeverity::Info => "Info"@,
        AlertSeverity::Warning => "Warning"@,
        AlertSeverity::Critical => "Critical"@,
    }
}

impl LogLevel {
    /// The level's stored name, as `spec_level_name` describes.
    pub fn name(&self) -> (s: String)
        ensures
            s@ == spec_level_name(*self),
    {
        match self {
            LogLevel::Debug => String::from_str("Debug"),
            LogLevel::Info => String::from_str("Info"),
            LogLevel::Warn => String::from_str("Warn"),
            LogLevel::Error => String::from_str("Error"),
        }
    }
}

impl AlertSeverity {
    /// The severity's stored name, as `spec_severity_name` describes.
    pub fn name(&self) -> (s: String)
        ensures
            s@ == spec_severity_name(*self),
    {
        match self {
            AlertSeverity::Info => String::from_str("Info"),
            AlertSeverity::Warning => String::from_str("Warning"),
            AlertSeverity::Critical => String::from_str("Critical"),
        }
    }
}

/// Parses a level name, as `spec_parse_level` describes.
pub fn parse_level(s: &str) -> (l: LogLevel)
    ensures
        l == spec_parse_level(s@),
{
    if str_eq(s, "Debug") {
        LogLevel::Debug
    } else if str_eq(s, "Warn") {
        LogLevel::Warn
    } else if str_eq(s, "Error") {
        LogLevel::Error
    } else {
        LogLevel::Info
    }
}

/// Parses a severity name, as `spec_parse_severity` describes.
pub fn parse_severity(s: &str) -> (l: AlertSeverity)
    ensures
        l == spec_parse_severity(s@),
{
    if str_eq(s, "Warning") {
        AlertSeverity::Warning
    } else if str_eq(s, "Critical") {
        AlertSeverity::Critical
    } else {
        AlertSeverity::Info
    }
}

/// One log event.
pub struct LogEvent {
    pub time_ms: i64,
    pub level: LogLevel,
    pub plugin: Option<String>,
    pub message: String,
    pub fields: StrMap,
}

pub struct LogModel {
    pub time_ms: int,
    pub level: LogLevel,
    pub plugin: Option<Seq<char>>,
    pub message: Seq<char>,
    pub fields: Seq<(Seq<char>, Seq<char>)>,
}

impl View for LogEvent {
    type V = LogModel;

    open spec fn view(&self) -> LogModel {
        LogModel {
            time_ms: self.time_ms as int,
            level: self.level,
            plugin: match self.plugin {
                Some(ref p) => Some(p@),
                None => None,
            },
            message: self.message@,
            fields: self.fields@,
        }
    }
}

/// One metric sample. `value_bits` carries the sample's numeric value as
/// its raw IEEE-754 bits; the host never computes on it.
pub struct Metric {
    pub time_ms: i64,
    pub plugin: String,
    pub name: String,
    pub value_bits: u64,
    pub labels: StrMap,
}

pub struct MetricModel {
    pub time_ms: int,
    pub plugin: Seq<char>,
    pub name: Seq<char>,
    pub value_bits: u64,
    pub labels: Seq<(Seq<char>, Seq<char>)>,
}

impl View for Metric {
    type V = MetricModel;

    open spec fn view(&self) -> MetricModel {
        MetricModel {
            time_ms: self.time_ms as int,
            plugin: self.plugin@,
            name: self.name@,
            value_bits: self.value_bits,
            labels: self.labels@,
        }
    }
}

/// One alert.
pub struct AlertEvent {
    pub time_ms: i64,
    pub plugin: String,
    pub metric_name: String,
    pub severity: AlertSeverity,
    pub title: String,
    pub message: String,
    pub tags: StrMap,
}

pub struct AlertModel {
    pub time_ms: int,
    pub plugin: Seq<char>,
    pub metric_name: Seq<char>,
    pub severity: AlertSeverity,
    pub title: Seq<char>,
    pub message: Seq<char>,
    pub tags: Seq<(Seq<char>, Seq<char>)>,
}

impl View for AlertEvent {
    type V = AlertModel;

    open spec fn view(&self) -> AlertModel {
        AlertModel {
            time_ms: self.time_ms as int,
            plugin: self.plugin@,
            metric_name: self.metric_name@,
            severity: self.severity,
            title: self.title@,
            message: self.message@,
            tags: self.tags@,
        }
    }
}

/// Builds the alert a creation request describes: the severity name is
/// parsed (anything unknown becomes `Info`), the time is the given
/// clock reading, and the tags start empty.
pub fn create_alert(
    plugin: String,
    metric_name: String,
    severity: &str,
    title: String,
    message: String,
    now_ms: i64,
) -> (a: AlertEvent)
    ensures
        a@.plugin == plugin@,
        a@.metric_name == metric_name@,
        a@.severity == spec_parse_severity(severity@),
        a@.title == title@,
        a@.message == message@,
        a@.time_ms == now_ms as int,
        a@.tags == Seq::<(Seq<char>, Seq<char>)>::empty(),
{
    let sev = parse_severity(severity);
    let a = AlertEvent {
        time_ms: now_ms,
        plugin,
        metric_name,
        severity: sev,
        title,
        message,
        tags: StrMap::new(),
    };
    assert(a@.tags =~= Seq::<(Seq<char>, Seq<char>)>::empty());
    a
}

/// Relies on `String::from_utf8`: it succeeds exactly on valid UTF-8
/// and decodes it.
#[verifier::external_body]
pub(crate) fn utf8_string(bytes: Vec<u8>) -> (r: Option<String>)
    ensures
        match r {
            Some(s) => valid_utf8(bytes@) && s@ == decode_utf8(bytes@),
            None => !valid_utf8(bytes@),
        },
{
    match String::from_utf8(bytes) {
        Ok(s) => Some(s),
        Err(_) => None,
    }
}

/// Whether a millisecond count names a representable instant.
pub uninterp spec fn ms_in_calendar_range(ms: i64) -> bool;

/// Relies on chrono's `Utc.timestamp_millis_opt`: whether the count
/// names a representable instant; a function of the count alone.
#[verifier::external_body]
fn timestamp_ms_valid(ms: i64) -> (r: bool)
    ensures
        r == ms_in_calendar_range(ms),
{
    match chrono::TimeZone::timestamp_millis_opt(&chrono::Utc, ms) {
        chrono::LocalResult::Single(_) => true,
        _ => false,
    }
}

/// The instant an RFC 3339 text names, in milliseconds, if it parses.
pub uninterp spec fn rfc3339_ms(s: Seq<char>) -> Option<i64>;

/// Relies on chrono's `DateTime::parse_from_rfc3339` and
/// `timestamp_millis`: the instant the text names; a function of the
/// text alone.
#[verifier::external_body]
fn parse_rfc3339_ms(s: &str) -> (r: Option<i64>)
    ensures
        r == rfc3339_ms(s@),
{
    match chrono::DateTime::parse_from_rfc3339(s) {
        Ok(dt) => Some(dt.timestamp_millis()),
        Err(_) => None,
    }
}

/// What the log bridge publishes: nothing for a null message; otherwise
/// an event at the given instant, attributed to the current plugin tag,
/// whose message is the decoded text or a marker for invalid UTF-8.
pub open spec fn spec_log_bridge(
    level: LogLevel,
    msg: Option<Seq<u8>>,
    tag: Option<Seq<char>>,
    now: int,
) -> Option<LogModel> {
    match msg {
        None => None,
        Some(b) => Some(
            LogModel {
                time_ms: now,
                level,
                plugin: tag,
                message: if valid_utf8(b) {
                    decode_utf8(b)
                } else {
                    "<invalid utf-8>"@
                },
                fields: Seq::<(Seq<char>, Seq<char>)>::empty(),
            },
        ),
    }
}

/// The log bridge: turns what a plugin handed the host into a log
/// event, as `spec_log_bridge` describes. A null message (`None`) is
/// dropped.
pub fn log_bridge_event(
    level: LogLevel,
    msg: Option<Vec<u8>>,
    tag: Option<String>,
    now_ms: i64,
) -> (r: Option<LogEvent>)
    ensures
        match r {
            Some(e) => Some(e@) == spec_log_bridge(level, match msg {
                Some(ref b) => Some(b@),
                None => None::<Seq<u8>>,
            }, match tag {
                Some(ref t) => Some(t@),
                None => None::<Seq<char>>,
            }, now_ms as int),
            None => msg is None,
        },
{
    let bytes = match msg {
        None => {
            return None;
        },
        Some(b) => b,
    };
    let message = match utf8_string(bytes) {
        Some(s) => s,
        None => String::from_str("<invalid utf-8>"),
    };
    let e = LogEvent { time_ms: now_ms, level, plugin: tag, message, fields: StrMap::new() };
    assert(e@.fields =~= Seq::<(Seq<char>, Seq<char>)>::empty());
    Some(e)
}

/// What the metric bridge publishes: the sample's name (a null name
/// becomes `<unnamed>`, invalid UTF-8 becomes `<invalid metric name>`),
/// its value bits untouched, the sample's own instant when it is
/// representable and the current instant otherwise, and the current
/// plugin tag with `unknown` as the default.
pub open spec fn spec_metric_bridge(
    name: Option<Seq<u8>>,
    value_bits: u64,
    ts_ms: i64,
    tag: Option<Seq<char>>,
    now: int,
) -> MetricModel {
    MetricModel {
        time_ms: if ms_in_calendar_range(ts_ms) {
            ts_ms as int
        } else {
            now
        },
        plugin: match tag {
            Some(t) => t,
            None => "unknown"@,
        },
        name: match name {
            None => "<unnamed>"@,
            Some(b) => if valid_utf8(b) {
                decode_utf8(b)
            } else {
                "<invalid metric name>"@
            },
        },
        value_bits,
        labels: Seq::<(Seq<char>, Seq<char>)>::empty(),
    }
}

/// The metric bridge: turns a sample a plugin handed the host into a
/// metric, as `spec_metric_bridge` describes.
pub fn metric_bridge_event(
    name: Option<Vec<u8>>,
    value_bits: u64,
    ts_ms: i64,
    tag: Option<String>,
    now_ms: i64,
) -> (m: Metric)
    ensures
        m@ == spec_metric_bridge(match name {
            Some(ref b) => Some(b@),
            None => None::<Seq<u8>>,
        }, value_bits, ts_ms, match tag {
            Some(ref t) => Some(t@),
            None => None::<Seq<char>>,
        }, now_ms as int),
{
    let metric_name = match name {
        None => String::from_str("<unnamed>"),
        Some(b) => {
            match utf8_string(b) {
                Some(s) => s,
                None => String::from_str("<invalid metric name>"),
            }
        },
    };
    let plugin = match tag {
        Some(t) => t,
        None => String::from_str("unknown"),
    };
    let time_ms = if timestamp_ms_valid(ts_ms) {
        ts_ms
    } else {
        now_ms
    };
    let m = Metric { time_ms, plugin, name: metric_name, value_bits, labels: StrMap::new() };
    assert(m@.labels =~= Seq::<(Seq<char>, Seq<char>)>::empty());
    m
}

/// Attribution: telemetry published through the bridges while plugin
/// `p` is tagged carries `p`; from an untagged thread, a log carries no
/// plugin and a metric is attributed to `unknown`.
pub proof fn lemma_bridge_attribution(
    level: LogLevel,
    msg: Seq<u8>,
    name: Option<Seq<u8>>,
    value_bits: u64,
    ts_ms: i64,
    p: Seq<char>,
    now: int,
)
    ensures
        (spec_log_bridge(level, Some(msg), Some(p), now)->0).plugin == Some(p),
        spec_metric_bridge(name, value_bits, ts_ms, Some(p), now).plugin == p,
        (spec_log_bridge(level, Some(msg), None, now)->0).plugin is None,
        spec_metric_bridge(name, value_bits, ts_ms, None, now).plugin == "unknown"@,
{
}

/// A row read back from the log table, turned into an event: the stored
/// level name is parsed, an unreadable time falls back to the given
/// clock reading.
pub fn log_event_from_row(
    time: &str,
    level: &str,
    plugin: Option<String>,
    message: String,
    now_ms: i64,
) -> (e: LogEvent)
    ensures
        e@.time_ms == (match rfc3339_ms(time@) {
            Some(t) => t as int,
            None => now_ms as int,
        }),
        e@.level == spec_parse_level(level@),
        e@.plugin == (match plugin {
            Some(ref p) => Some(p@),
            None => None::<Seq<char>>,
        }),
        e@.message == message@,
        e@.fields == Seq::<(Seq<char>, Seq<char>)>::empty(),
{
    let time_ms = match parse_rfc3339_ms(time) {
        Some(t) => t,
        None => now_ms,
    };
    let e = LogEvent {
        time_ms,
        level: parse_level(level),
        plugin,
        message,
        fields: StrMap::new(),
    };
    assert(e@.fields =~= Seq::<(Seq<char>, Seq<char>)>::empty());
    e
}

/// A row read back from the metric table, turned into a metric.
pub fn metric_from_row(
    time: &str,
    plugin: String,
    name: String,
    value_bits: u64,
    now_ms: i64,
) -> (m: Metric)
    ensures
        m@.time_ms == (match rfc3339_ms(time@) {
            Some(t) => t as int,
            None => now_ms as int,
        }),
        m@.plugin == plugin@,
        m@.name == name@,
        m@.value_bits == value_bits,
        m@.labels == Seq::<(Seq<char>, Seq<char>)>::empty(),
{
    let time_ms = match parse_rfc3339_ms(time) {
        Some(t) => t,
        None => now_ms,
    };
    let m = Metric { time_ms, plugin, name, value_bits, labels: StrMap::new() };
    assert(m@.labels =~= Seq::<(Seq<char>, Seq<char>)>::empty());
    m
}

/// A row read back from the alert table, turned into an alert: the
/// stored severity name is parsed.
pub fn alert_from_row(
    time: &str,
    plugin: String,
    metric_name: String,
    severity: &str,
    title: String,
    message: String,
    now_ms: i64,
) -> (a: AlertEvent)
    ensures
        a@.time_ms == (match rfc3339_ms(time@) {
            Some(t) => t as int,
            None => now_ms as int,
        }),
        a@.plugin == plugin@,
        a@.metric_name == metric_name@,
        a@.severity == spec_parse_severity(severity@),
        a@.title == title@,
        a@.message == message@,
        a@.tags == Seq::<(Seq<char>, Seq<char>)>::empty(),
{
    let time_ms = match parse_rfc3339_ms(time) {
        Some(t) => t,
        None => now_ms,
    };
    let a = AlertEvent {
        time_ms,
        plugin,
        metric_name,
        severity: parse_severity(severity),
        title,
        message,
        tags: StrMap::new(),
    };
    assert(a@.tags =~= Seq::<(Seq<char>, Seq<char>)>::empty());
    a
}

} // verus!
