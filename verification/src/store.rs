//! The telemetry store: append-only logs, metrics and alerts, and the
//! registry of plugin API base addresses.
//!
//! This is the logical store; a persistence layer serializes it. The
//! read side hands out the newest records first, up to a limit.

use vstd::prelude::*;

verus! {

use crate::strutil::{StrMap, map_set, map_get, pairs_view};
use crate::telemetry::{LogEvent, Metric, AlertEvent, LogModel, MetricModel, AlertModel,
    spec_log_bridge, spec_metric_bridge, LogLevel};

/// How many log events the read API hands out at most.
pub const LOGS_READ_LIMIT: usize = 100;

/// How many metrics the read API hands out at most.
pub const METRICS_READ_LIMIT: usize = 200;

/// How many alerts the read API hands out at most.
pub const ALERTS_READ_LIMIT: usize = 200;

/// The models of stored log events.
pub open spec fn log_models(s: Seq<LogEvent>) -> Seq<LogModel> {
    Seq::new(s.len(), |i: int| s[i]@)
}

/// The models of stored metrics.
pub open spec fn metric_models(s: Seq<Metric>) -> Seq<MetricModel> {
    Seq::new(s.len(), |i: int| s[i]@)
}

/// The models of stored alerts.
pub open spec fn alert_models(s: Seq<AlertEvent>) -> Seq<AlertModel> {
    Seq::new(s.len(), |i: int| s[i]@)
}

/// The store: three append-only tables and the plugin API registry.
pub struct TelemetryStore {
    pub logs: Vec<LogEvent>,
    pub metrics: Vec<Metric>,
    pub alerts: Vec<AlertEvent>,
    pub plugin_apis: StrMap,
}

pub struct StoreModel {
    pub logs: Seq<LogModel>,
    pub metrics: Seq<MetricModel>,
    pub alerts: Seq<AlertModel>,
    pub apis: Seq<(Seq<char>, Seq<char>)>,
}

impl View for TelemetryStore {
    type V = StoreModel;

    open spec fn view(&self) -> StoreModel {
        StoreModel {
            logs: log_models(self.logs@),
            metrics: metric_models(self.metrics@),
            alerts: alert_models(self.alerts@),
            apis: self.plugin_apis@,
        }
    }
}

/// The newest-first reading of stored records: element `i` of the
/// result is record `len - 1 - i` of the table, and at most `limit`
/// records are read.
pub open spec fn newest_first<T>(table: Seq<T>, limit: int) -> Seq<T> {
    let n = if table.len() <= limit {
        table.len() as int
    } else {
        limit
    };
    Seq::new(n as nat, |i: int| table[table.len() - 1 - i])
}

impl TelemetryStore {
    /// The registry keeps its well-formedness.
    pub open spec fn wf(&self) -> bool {
        self.plugin_apis.wf()
    }

    /// An empty store.
    pub fn new() -> (s: TelemetryStore)
        ensures
            s.wf(),
            s@.logs == Seq::<LogModel>::empty(),
            s@.metrics == Seq::<MetricModel>::empty(),
            s@.alerts == Seq::<AlertModel>::empty(),
            s@.apis == Seq::<(Seq<char>, Seq<char>)>::empty(),
    {
        let s = TelemetryStore {
            logs: Vec::new(),
            metrics: Vec::new(),
            alerts: Vec::new(),
            plugin_apis: StrMap::new(),
        };
        assert(s@.logs =~= Seq::<LogModel>::empty());
        assert(s@.metrics =~= Seq::<MetricModel>::empty());
        assert(s@.alerts =~= Seq::<AlertModel>::empty());
        assert(s@.apis =~= Seq::<(Seq<char>, Seq<char>)>::empty());
        s
    }

    /// Appends a log event.
    pub fn insert_log(&mut self, e: LogEvent)
        requires
            old(self).wf(),
        ensures
            final(self).wf(),
            final(self)@.logs == old(self)@.logs.push(e@),
            final(self)@.metrics == old(self)@.metrics,
            final(self)@.alerts == old(self)@.alerts,
            final(self)@.apis == old(self)@.apis,
    {
        let ghost e0 = e@;
        self.logs.push(e);
        assert(self@.logs =~= old(self)@.logs.push(e0));
    }

    /// Appends a metric.
    pub fn insert_metric(&mut self, m: Metric)
        requires
            old(self).wf(),
        ensures
            final(self).wf(),
            final(self)@.metrics == old(self)@.metrics.push(m@),
            final(self)@.logs == old(self)@.logs,
            final(self)@.alerts == old(self)@.alerts,
            final(self)@.apis == old(self)@.apis,
    {
        let ghost m0 = m@;
        self.metrics.push(m);
        assert(self@.metrics =~= old(self)@.metrics.push(m0));
    }

    /// Appends an alert.
    pub fn insert_alert(&mut self, a: AlertEvent)
        requires
            old(self).wf(),
        ensures
            final(self).wf(),
            final(self)@.alerts == old(self)@.alerts.push(a@),
            final(self)@.logs == old(self)@.logs,
            final(self)@.metrics == old(self)@.metrics,
            final(self)@.apis == old(self)@.apis,
    {
        let ghost a0 = a@;
        self.alerts.push(a);
        assert(self@.alerts =~= old(self)@.alerts.push(a0));
    }

    /// The newest stored log events, newest first, at most `limit`.
    pub fn latest_logs(&self, limit: usize) -> (r: Vec<LogEvent>)
        requires
            self.wf(),
        ensures
            log_models(r@) == newest_first(self@.logs, limit as int),
    {
        let n = self.logs.len();
        let count = if n <= limit {
            n
        } else {
            limit
        };
        let mut r: Vec<LogEvent> = Vec::new();
        let mut i: usize = 0;
        while i < count
            invariant
                i <= count <= n,
                n == self.logs@.len(),
                r@.len() == i,
                forall|j: int| 0 <= j < i ==> r@[j]@ == self@.logs[n - 1 - j],
            decreases count - i,
        {
            let e = clone_log(&self.logs[n - 1 - i]);
            r.push(e);
            i = i + 1;
        }
        assert(log_models(r@) =~= newest_first(self@.logs, limit as int));
        r
    }

    /// The newest stored metrics, newest first, at most `limit`.
    pub fn latest_metrics(&self, limit: usize) -> (r: Vec<Metric>)
        requires
            self.wf(),
        ensures
            metric_models(r@) == newest_first(self@.metrics, limit as int),
    {
        let n = self.metrics.len();
        let count = if n <= limit {
            n
        } else {
            limit
        };
        let mut r: Vec<Metric> = Vec::new();
        let mut i: usize = 0;
        while i < count
            invariant
                i <= count <= n,
                n == self.metrics@.len(),
                r@.len() == i,
                forall|j: int| 0 <= j < i ==> r@[j]@ == self@.metrics[n - 1 - j],
            decreases count - i,
        {
            let e = clone_metric(&self.metrics[n - 1 - i]);
            r.push(e);
            i = i + 1;
        }
        assert(metric_models(r@) =~= newest_first(self@.metrics, limit as int));
        r
    }

    /// The newest stored alerts, newest first, at most `limit`.
    pub fn latest_alerts(&self, limit: usize) -> (r: Vec<AlertEvent>)
        requires
            self.wf(),
        ensures
            alert_models(r@) == newest_first(self@.alerts, limit as int),
    {
        let n = self.alerts.len();
        let count = if n <= limit {
            n
        } else {
            limit
        };
        let mut r: Vec<AlertEvent> = Vec::new();
        let mut i: usize = 0;
        while i < count
            invariant
                i <= count <= n,
                n == self.alerts@.len(),
                r@.len() == i,
                forall|j: int| 0 <= j < i ==> r@[j]@ == self@.alerts[n - 1 - j],
            decreases count - i,
        {
            let e = clone_alert(&self.alerts[n - 1 - i]);
            r.push(e);
            i = i + 1;
        }
        assert(alert_models(r@) =~= newest_first(self@.alerts, limit as int));
        r
    }

    /// Binds a plugin's API base address, replacing an earlier one.
    pub fn upsert_plugin_api(&mut self, plugin: String, base_url: String)
        requires
            old(self).wf(),
        ensures
            final(self).wf(),
            final(self)@.apis == map_set(old(self)@.apis, plugin@, base_url@),
            final(self)@.logs == old(self)@.logs,
            final(self)@.metrics == old(self)@.metrics,
            final(self)@.alerts == old(self)@.alerts,
    {
        self.plugin_apis.insert(plugin, base_url);
    }

    /// Every registered plugin with its base address, in registry order.
    pub fn get_all_plugin_apis(&self) -> (r: Vec<(String, String)>)
        requires
            self.wf(),
        ensures
            pairs_view(r@) == self@.apis,
    {
        let n = self.plugin_apis.entries.len();
        let mut r: Vec<(String, String)> = Vec::new();
        let mut i: usize = 0;
        while i < n
            invariant
                i <= n,
                n == self.plugin_apis.entries@.len(),
                r@.len() == i,
                forall|j: int| 0 <= j < i ==> r@[j].0@ == self.plugin_apis.entries@[j].0@
                    && r@[j].1@ == self.plugin_apis.entries@[j].1@,
            decreases n - i,
        {
            let k = self.plugin_apis.entries[i].0.clone();
            let v = self.plugin_apis.entries[i].1.clone();
            r.push((k, v));
            i = i + 1;
        }
        assert(pairs_view(r@) =~= self@.apis);
        r
    }
}

/// A structurally equal copy of a variable map.
pub fn clone_map(m: &StrMap) -> (r: StrMap)
    ensures
        r@ == m@,
{
    let n = m.entries.len();
    let mut entries: Vec<(String, String)> = Vec::new();
    let mut i: usize = 0;
    while i < n
        invariant
            i <= n,
            n == m.entries@.len(),
            entries@.len() == i,
            forall|j: int| 0 <= j < i ==> entries@[j].0@ == m.entries@[j].0@ && entries@[j].1@
                == m.entries@[j].1@,
        decreases n - i,
    {
        let k = m.entries[i].0.clone();
        let v = m.entries[i].1.clone();
        entries.push((k, v));
        i = i + 1;
    }
    let r = StrMap { entries };
    assert(r@ =~= m@);
    r
}

/// A structurally equal copy of a log event.
pub fn clone_log(e: &LogEvent) -> (r: LogEvent)
    ensures
        r@ == e@,
{
    LogEvent {
        time_ms: e.time_ms,
        level: e.level,
        plugin: match &e.plugin {
            Some(p) => Some(p.clone()),
            None => None,
        },
        message: e.message.clone(),
        fields: clone_map(&e.fields),
    }
}

/// A structurally equal copy of a metric.
pub fn clone_metric(m: &Metric) -> (r: Metric)
    ensures
        r@ == m@,
{
    Metric {
        time_ms: m.time_ms,
        plugin: m.plugin.clone(),
        name: m.name.clone(),
        value_bits: m.value_bits,
        labels: clone_map(&m.labels),
    }
}

/// A structurally equal copy of an alert.
pub fn clone_alert(a: &AlertEvent) -> (r: AlertEvent)
    ensures
        r@ == a@,
{
    AlertEvent {
        time_ms: a.time_ms,
        plugin: a.plugin.clone(),
        metric_name: a.metric_name.clone(),
        severity: a.severity,
        title: a.title.clone(),
        message: a.message.clone(),
        tags: clone_map(&a.tags),
    }
}

/// What the ingest channel carries from the bridges to the store.
pub enum StorageMsg {
    Log(LogEvent),
    Metric(Metric),
}

/// Drains one channel message into the store: a log event is appended
/// to the logs, a metric to the metrics.
pub fn apply_msg(store: &mut TelemetryStore, msg: StorageMsg)
    requires
        old(store).wf(),
    ensures
        final(store).wf(),
        (msg matches StorageMsg::Log(e) ==> final(store)@.logs == old(store)@.logs.push(e@)
            && final(store)@.metrics == old(store)@.metrics),
        (msg matches StorageMsg::Metric(m) ==> final(store)@.metrics == old(
            store,
        )@.metrics.push(m@) && final(store)@.logs == old(store)@.logs),
        final(store)@.alerts == old(store)@.alerts,
        final(store)@.apis == old(store)@.apis,
{
    match msg {
        StorageMsg::Log(e) => store.insert_log(e),
        StorageMsg::Metric(m) => store.insert_metric(m),
    }
}

/// Attribution, end to end: a log event or metric that the bridges
/// produced under plugin tag `p` and the channel drained into the store
/// is stored attributed to `p`.
pub proof fn lemma_stored_attribution(
    pre: StoreModel,
    post_log: StoreModel,
    post_metric: StoreModel,
    level: LogLevel,
    msg: Seq<u8>,
    name: Option<Seq<u8>>,
    value_bits: u64,
    ts_ms: i64,
    p: Seq<char>,
    now: int,
)
    requires
        post_log.logs == pre.logs.push(spec_log_bridge(level, Some(msg), Some(p), now)->0),
        post_metric.metrics == pre.metrics.push(
            spec_metric_bridge(name, value_bits, ts_ms, Some(p), now),
        ),
    ensures
        post_log.logs[post_log.logs.len() - 1].plugin == Some(p),
        post_metric.metrics[post_metric.metrics.len() - 1].plugin == p,
{
}

} // verus!
