//! The workflow engine: executes a graph node by node.
//!
//! A run is a small state machine. Pure nodes (`start`, `extract`,
//! `assert`, unknown types) execute in place; an `http` node yields a
//! request plan to the caller, who performs the request and hands the
//! response back. Every transition is pinned to a spec function, so a
//! run is a mathematical function of the definition, the input and the
//! responses.

use vstd::prelude::*;

verus! {

use vstd::string::StringExecFns;
use crate::strutil::{StrMap, map_get, map_set, map_wf, u64_dec_str, spec_dec};
use crate::strutil::lemma_map_set_get;
use crate::template::{apply_vars, spec_apply_vars};
use crate::json::{JsonValue, JsonModel, jget, json_member, get_json_path_str, spec_path_str,
    json_text, spec_json_text};
use crate::graph::{LogicFlowGraph, LogicFlowNode, NodeModel, GraphModel};

/// Which engine executes a workflow.
#[derive(Clone, Copy, PartialEq, Eq, Structural, Debug)]
pub enum EngineKind {
    LocalJson,
    Flowable,
    Zeebe,
}

/// The HTTP method of a request plan.
#[derive(Clone, Copy, PartialEq, Eq, Structural, Debug)]
pub enum HttpMethod {
    Get,
    Post,
    Put,
    Delete,
}

/// A workflow definition: a key naming it, the engine it runs on, and
/// its graph.
pub struct WorkflowDefinition {
    pub key: String,
    pub name: String,
    pub description: String,
    pub engine: EngineKind,
    pub graph: LogicFlowGraph,
}

/// What one node's execution produced.
pub struct StepResult {
    pub id: String,
    pub start_ms: i64,
    pub end_ms: i64,
    pub success: bool,
    pub status: Option<u16>,
    pub error: Option<String>,
}

pub struct StepModel {
    pub id: Seq<char>,
    pub start_ms: int,
    pub end_ms: int,
    pub success: bool,
    pub status: Option<u16>,
    pub error: Option<Seq<char>>,
}

impl View for StepResult {
    type V = StepModel;

    open spec fn view(&self) -> StepModel {
        StepModel {
            id: self.id@,
            start_ms: self.start_ms as int,
            end_ms: self.end_ms as int,
            success: self.success,
            status: self.status,
            error: match self.error {
                Some(e) => Some(e@),
                None => None,
            },
        }
    }
}

/// The state a run carries between nodes.
pub struct ExecutionContext {
    pub vars: StrMap,
    pub last_response: Option<JsonValue>,
    pub logs: Vec<String>,
    pub step_results: Vec<StepResult>,
}

pub struct CtxModel {
    pub vars: Seq<(Seq<char>, Seq<char>)>,
    pub last: Option<JsonModel>,
    pub logs: Seq<Seq<char>>,
    pub steps: Seq<StepModel>,
}

/// The views of a sequence of strings.
pub open spec fn logs_view(s: Seq<String>) -> Seq<Seq<char>> {
    Seq::new(s.len(), |i: int| s[i]@)
}

/// The models of a sequence of step results.
pub open spec fn steps_view(s: Seq<StepResult>) -> Seq<StepModel> {
    Seq::new(s.len(), |i: int| s[i]@)
}

impl View for ExecutionContext {
    type V = CtxModel;

    open spec fn view(&self) -> CtxModel {
        CtxModel {
            vars: self.vars@,
            last: match self.last_response {
                Some(ref v) => Some(v@),
                None => None,
            },
            logs: logs_view(self.logs@),
            steps: steps_view(self.step_results@),
        }
    }
}

impl ExecutionContext {
    /// The variable map keeps its well-formedness.
    pub open spec fn wf(&self) -> bool {
        map_wf(self.vars@)
    }

    /// A fresh context holding only the given variables.
    pub fn new(vars: StrMap) -> (c: ExecutionContext)
        requires
            vars.wf(),
        ensures
            c@ == init_ctx(vars@),
            c.wf(),
    {
        let c = ExecutionContext {
            vars,
            last_response: None,
            logs: Vec::new(),
            step_results: Vec::new(),
        };
        assert(c@.logs =~= Seq::<Seq<char>>::empty());
        assert(c@.steps =~= Seq::<StepModel>::empty());
        c
    }
}

/// The context a run starts from.
pub open spec fn init_ctx(vars: Seq<(Seq<char>, Seq<char>)>) -> CtxModel {
    CtxModel {
        vars,
        last: None,
        logs: Seq::<Seq<char>>::empty(),
        steps: Seq::<StepModel>::empty(),
    }
}

/// A string property of a node, or the default when absent or not a
/// string.
pub open spec fn spec_prop_str(props: JsonModel, key: Seq<char>, default: Seq<char>) -> Seq<
    char,
> {
    match jget(props, key) {
        Some(JsonModel::Str(s)) => s,
        _ => default,
    }
}

fn prop_str(props: &JsonValue, key: &str, default: &str) -> (r: String)
    ensures
        r@ == spec_prop_str(props@, key@, default@),
{
    match json_member(props, key) {
        Some(JsonValue::Str(s)) => s.clone(),
        _ => String::from_str(default),
    }
}

/// Appending one step record to the context.
pub open spec fn push_step(
    c: CtxModel,
    id: Seq<char>,
    start_ms: int,
    end_ms: int,
    success: bool,
    status: Option<u16>,
    error: Option<Seq<char>>,
) -> CtxModel {
    CtxModel {
        steps: c.steps.push(StepModel { id, start_ms, end_ms, success, status, error }),
        ..c
    }
}

/// What a `start` node does: it only logs.
pub open spec fn spec_exec_start(n: NodeModel, c: CtxModel) -> CtxModel {
    CtxModel { logs: c.logs.push("start node: "@ + n.id), ..c }
}

/// What an unknown node type does: it logs and succeeds.
pub open spec fn spec_exec_unknown(n: NodeModel, c: CtxModel) -> CtxModel {
    CtxModel { logs: c.logs.push("unknown node type, skipped: "@ + n.id), ..c }
}

/// What an `extract` node does: it reads `properties.path` out of the
/// last response and binds `properties.var` to the scalar found there.
pub open spec fn spec_exec_extract(n: NodeModel, c: CtxModel) -> (CtxModel, Option<Seq<char>>) {
    let path = spec_prop_str(n.properties, "path"@, ""@);
    let var = spec_prop_str(n.properties, "var"@, ""@);
    match c.last {
        None => (c, Some("extract node without a response: "@ + n.id)),
        Some(resp) => if path.len() == 0 || var.len() == 0 {
            (c, Some("extract node missing path or var: "@ + n.id))
        } else {
            match spec_path_str(resp, path) {
                Some(val) => (
                    CtxModel {
                        vars: map_set(c.vars, var, val),
                        logs: c.logs.push("extract ok: "@ + n.id),
                        ..c
                    },
                    None,
                ),
                None => (c, Some("extract path not found or not scalar: "@ + n.id)),
            }
        },
    }
}

/// What an `assert` node does: it compares the scalar at
/// `properties.path` in the last response with `properties.equals`;
/// a string expectation first has its `{{var}}` placeholders filled in,
/// any other expectation is compared as JSON text.
pub open spec fn spec_exec_assert(n: NodeModel, c: CtxModel) -> (CtxModel, Option<Seq<char>>) {
    let path = spec_prop_str(n.properties, "path"@, ""@);
    match c.last {
        None => (c, Some("assert node without a response: "@ + n.id)),
        Some(resp) => if path.len() == 0 {
            (c, Some("assert node missing path: "@ + n.id))
        } else {
            let expected = spec_assert_expected(n, c);
            let actual = match spec_path_str(resp, path) {
                Some(v) => v,
                None => ""@,
            };
            if actual == expected {
                (CtxModel { logs: c.logs.push("assert ok: "@ + n.id), ..c }, None)
            } else {
                (c, Some("assert failed at node "@ + n.id + ": actual "@ + actual
                    + ", expected "@ + expected))
            }
        },
    }
}

/// The text an `assert` node expects.
pub open spec fn spec_assert_expected(n: NodeModel, c: CtxModel) -> Seq<char> {
    match jget(n.properties, "equals"@) {
        Some(JsonModel::Str(s)) => spec_apply_vars(s, c.vars),
        Some(other) => spec_json_text(other),
        None => spec_json_text(JsonModel::Null),
    }
}

/// What an `http` node asks the caller to send.
pub struct HttpRequestPlan {
    pub method: HttpMethod,
    pub url: String,
    pub headers: Vec<(String, String)>,
    pub body: Option<String>,
}

pub struct PlanModel {
    pub method: HttpMethod,
    pub url: Seq<char>,
    pub headers: Seq<(Seq<char>, Seq<char>)>,
    pub body: Option<Seq<char>>,
}

impl View for HttpRequestPlan {
    type V = PlanModel;

    open spec fn view(&self) -> PlanModel {
        PlanModel {
            method: self.method,
            url: self.url@,
            headers: crate::strutil::pairs_view(self.headers@),
            body: match self.body {
                Some(ref b) => Some(b@),
                None => None,
            },
        }
    }
}

/// The method named by a node's `method` property; anything unknown is
/// sent as GET.
pub open spec fn spec_method_of(s: Seq<char>) -> HttpMethod {
    if s == "POST"@ {
        HttpMethod::Post
    } else if s == "PUT"@ {
        HttpMethod::Put
    } else if s == "DELETE"@ {
        HttpMethod::Delete
    } else {
        HttpMethod::Get
    }
}

/// The headers taken from an object's entries from index `k` on: each
/// string-valued entry is kept, with `{{var}}` placeholders filled in.
pub open spec fn headers_from(
    es: Seq<(Seq<char>, JsonModel)>,
    vars: Seq<(Seq<char>, Seq<char>)>,
    k: int,
) -> Seq<(Seq<char>, Seq<char>)>
    decreases es.len() - k,
{
    if k < 0 || k >= es.len() {
        Seq::<(Seq<char>, Seq<char>)>::empty()
    } else {
        match es[k].1 {
            JsonModel::Str(s) => seq![(es[k].0, spec_apply_vars(s, vars))] + headers_from(
                es,
                vars,
                k + 1,
            ),
            _ => headers_from(es, vars, k + 1),
        }
    }
}

/// The headers an `http` node sends.
pub open spec fn spec_headers(props: JsonModel, vars: Seq<(Seq<char>, Seq<char>)>) -> Seq<
    (Seq<char>, Seq<char>),
> {
    match jget(props, "headers"@) {
        Some(JsonModel::Obj(es)) => headers_from(es, vars, 0),
        _ => Seq::<(Seq<char>, Seq<char>)>::empty(),
    }
}

/// The body an `http` node sends: a string body has its placeholders
/// filled in, any other body is sent as JSON text.
pub open spec fn spec_body(props: JsonModel, vars: Seq<(Seq<char>, Seq<char>)>) -> Option<
    Seq<char>,
> {
    match jget(props, "body"@) {
        Some(JsonModel::Str(s)) => Some(spec_apply_vars(s, vars)),
        Some(other) => Some(spec_json_text(other)),
        None => None,
    }
}

/// The full request an `http` node sends, as a function of the node and
/// the variables.
pub open spec fn spec_http_plan(n: NodeModel, vars: Seq<(Seq<char>, Seq<char>)>) -> PlanModel {
    PlanModel {
        method: spec_method_of(spec_prop_str(n.properties, "method"@, "GET"@)),
        url: spec_apply_vars(spec_prop_str(n.properties, "url"@, ""@), vars),
        headers: spec_headers(n.properties, vars),
        body: spec_body(n.properties, vars),
    }
}

/// Builds the request an `http` node asks for, as `spec_http_plan`
/// describes.
pub fn build_http_plan(node: &LogicFlowNode, vars: &StrMap) -> (plan: HttpRequestPlan)
    requires
        vars.wf(),
    ensures
        plan@ == spec_http_plan(node@, vars@),
{
    let m = prop_str(&node.properties, "method", "GET");
    let method = if crate::strutil::str_eq(m.as_str(), "POST") {
        HttpMethod::Post
    } else if crate::strutil::str_eq(m.as_str(), "PUT") {
        HttpMethod::Put
    } else if crate::strutil::str_eq(m.as_str(), "DELETE") {
        HttpMethod::Delete
    } else {
        HttpMethod::Get
    };
    assert(method == spec_method_of(spec_prop_str(node@.properties, "method"@, "GET"@)));

    let url_tpl = prop_str(&node.properties, "url", "");
    let url = apply_vars(url_tpl.as_str(), vars);

    let mut headers: Vec<(String, String)> = Vec::new();
    match json_member(&node.properties, "headers") {
        Some(hv) => {
            match hv {
                JsonValue::Obj(es) => {
                    let ghost ms = crate::json::obj_model(es@);
                    assert(spec_headers(node@.properties, vars@) == headers_from(ms, vars@, 0));
                    let mut k: usize = 0;
                    while k < es.len()
                        invariant
                            k <= es.len(),
                            vars.wf(),
                            ms == crate::json::obj_model(es@),
                            ms.len() == es@.len(),
                            headers_from(ms, vars@, 0) == crate::strutil::pairs_view(headers@)
                                + headers_from(ms, vars@, k as int),
                        decreases es.len() - k,
                    {
                        let ghost pre = crate::strutil::pairs_view(headers@);
                        match &es[k].1 {
                            JsonValue::Str(s) => {
                                let val = apply_vars(s.as_str(), vars);
                                headers.push((es[k].0.clone(), val));
                                assert(crate::strutil::pairs_view(headers@) =~= pre.push(
                                    (es@[k as int].0@, spec_apply_vars(s@, vars@)),
                                ));
                                assert(ms[k as int] == (es@[k as int].0@, es@[k as int].1.model()));
                                assert(pre + (seq![(es@[k as int].0@, spec_apply_vars(s@, vars@))]
                                    + headers_from(ms, vars@, k + 1)) =~= pre.push(
                                    (es@[k as int].0@, spec_apply_vars(s@, vars@)),
                                ) + headers_from(ms, vars@, k + 1));
                            },
                            _ => {
                                assert(ms[k as int] == (es@[k as int].0@, es@[k as int].1.model()));
                            },
                        }
                        k = k + 1;
                    }
                    assert(crate::strutil::pairs_view(headers@) + headers_from(
                        ms,
                        vars@,
                        es@.len() as int,
                    ) =~= crate::strutil::pairs_view(headers@));
                },
                _ => {
                    assert(crate::strutil::pairs_view(headers@) =~= Seq::<(
                        Seq<char>,
                        Seq<char>,
                    )>::empty());
                },
            }
        },
        None => {
            assert(crate::strutil::pairs_view(headers@) =~= Seq::<(Seq<char>, Seq<char>)>::empty());
        },
    }

    let body: Option<String> = match json_member(&node.properties, "body") {
        Some(bv) => {
            match bv {
                JsonValue::Str(s) => Some(apply_vars(s.as_str(), vars)),
                other => Some(json_text(other)),
            }
        },
        None => None,
    };

    let plan = HttpRequestPlan { method, url, headers, body };
    assert(plan@.headers == spec_headers(node@.properties, vars@));
    plan
}

/// How a response lands in the context: `{id}_status` and `{id}_body`
/// are bound in the variables, and the parsed body (or null) becomes the
/// last response.
pub open spec fn spec_apply_response(
    id: Seq<char>,
    status: u16,
    body_text: Seq<char>,
    body_json: Option<JsonModel>,
    c: CtxModel,
) -> CtxModel {
    CtxModel {
        vars: map_set(
            map_set(c.vars, id + "_status"@, spec_dec(status as int)),
            id + "_body"@,
            body_text,
        ),
        last: Some(
            match body_json {
                Some(j) => j,
                None => JsonModel::Null,
            },
        ),
        logs: c.logs.push("http response for node "@ + id + ": status "@ + spec_dec(
            status as int,
        )),
        steps: c.steps,
    }
}

/// Stores a response in the context, as `spec_apply_response` describes.
pub fn apply_http_response(
    node_id: &String,
    status: u16,
    body_text: String,
    body_json: Option<JsonValue>,
    ctx: &mut ExecutionContext,
)
    requires
        old(ctx).wf(),
    ensures
        final(ctx).wf(),
        final(ctx)@ == spec_apply_response(node_id@, status, body_text@, match body_json {
            Some(v) => Some(v@),
            None => None::<JsonModel>,
        }, old(ctx)@),
{
    let ghost c0 = ctx@;
    let status_text = u64_dec_str(status as u64);
    let mut k1 = node_id.clone();
    k1.append("_status");
    proof {
        lemma_map_set_get(ctx@.vars, k1@, status_text@);
    }
    ctx.vars.insert(k1, status_text.clone());
    let mut k2 = node_id.clone();
    k2.append("_body");
    proof {
        lemma_map_set_get(ctx@.vars, k2@, body_text@);
    }
    let ghost body_view = body_text@;
    ctx.vars.insert(k2, body_text);
    ctx.last_response = Some(
        match body_json {
            Some(v) => v,
            None => JsonValue::Null,
        },
    );
    let mut line = String::from_str("http response for node ");
    line.append(node_id.as_str());
    line.append(": status ");
    line.append(status_text.as_str());
    ctx.logs.push(line);
    assert(ctx@.logs =~= c0.logs.push("http response for node "@ + node_id@ + ": status "@
        + spec_dec(status as int)));
    assert(ctx@.steps =~= c0.steps);
}

fn exec_start(node: &LogicFlowNode, ctx: &mut ExecutionContext)
    requires
        old(ctx).wf(),
    ensures
        final(ctx)@ == spec_exec_start(node@, old(ctx)@),
        final(ctx).wf(),
{
    let mut line = String::from_str("start node: ");
    line.append(node.id.as_str());
    ctx.logs.push(line);
    assert(ctx@.logs =~= old(ctx)@.logs.push("start node: "@ + node@.id));
    assert(ctx@ == spec_exec_start(node@, old(ctx)@));
}

fn exec_unknown(node: &LogicFlowNode, ctx: &mut ExecutionContext)
    requires
        old(ctx).wf(),
    ensures
        final(ctx)@ == spec_exec_unknown(node@, old(ctx)@),
        final(ctx).wf(),
{
    let mut line = String::from_str("unknown node type, skipped: ");
    line.append(node.id.as_str());
    ctx.logs.push(line);
    assert(ctx@.logs =~= old(ctx)@.logs.push("unknown node type, skipped: "@ + node@.id));
    assert(ctx@ == spec_exec_unknown(node@, old(ctx)@));
}

fn exec_extract(node: &LogicFlowNode, ctx: &mut ExecutionContext) -> (r: Option<String>)
    requires
        old(ctx).wf(),
    ensures
        final(ctx).wf(),
        (final(ctx)@, match r {
            Some(e) => Some(e@),
            None => None::<Seq<char>>,
        }) == spec_exec_extract(node@, old(ctx)@),
{
    let path = prop_str(&node.properties, "path", "");
    let var = prop_str(&node.properties, "var", "");
    match &ctx.last_response {
        None => {
            let mut e = String::from_str("extract node without a response: ");
            e.append(node.id.as_str());
            Some(e)
        },
        Some(resp) => {
            if path.as_str().unicode_len() == 0 || var.as_str().unicode_len() == 0 {
                let mut e = String::from_str("extract node missing path or var: ");
                e.append(node.id.as_str());
                Some(e)
            } else {
                match get_json_path_str(resp, path.as_str()) {
                    Some(val) => {
                        let ghost c0 = ctx@;
                        proof {
                            lemma_map_set_get(ctx@.vars, var@, val@);
                        }
                        ctx.vars.insert(var, val);
                        let mut line = String::from_str("extract ok: ");
                        line.append(node.id.as_str());
                        ctx.logs.push(line);
                        assert(ctx@.logs =~= c0.logs.push("extract ok: "@ + node@.id));
                        None
                    },
                    None => {
                        let mut e = String::from_str("extract path not found or not scalar: ");
                        e.append(node.id.as_str());
                        Some(e)
                    },
                }
            }
        },
    }
}

fn exec_assert(node: &LogicFlowNode, ctx: &mut ExecutionContext) -> (r: Option<String>)
    requires
        old(ctx).wf(),
    ensures
        final(ctx).wf(),
        (final(ctx)@, match r {
            Some(e) => Some(e@),
            None => None::<Seq<char>>,
        }) == spec_exec_assert(node@, old(ctx)@),
{
    let path = prop_str(&node.properties, "path", "");
    let is_none = match &ctx.last_response {
        None => true,
        Some(_) => false,
    };
    if is_none {
        let mut e = String::from_str("assert node without a response: ");
        e.append(node.id.as_str());
        return Some(e);
    }
    if path.as_str().unicode_len() == 0 {
        let mut e = String::from_str("assert node missing path: ");
        e.append(node.id.as_str());
        return Some(e);
    }
    let expected = match json_member(&node.properties, "equals") {
        Some(v) => {
            match v {
                JsonValue::Str(s) => apply_vars(s.as_str(), &ctx.vars),
                other => json_text(other),
            }
        },
        None => String::from_str("null"),
    };
    assert(expected@ == spec_assert_expected(node@, ctx@)) by {
        assert(spec_json_text(JsonModel::Null) == "null"@);
    }
    proof {
        reveal_strlit("");
        assert(""@ =~= Seq::<char>::empty());
    }
    let actual = match &ctx.last_response {
        Some(resp) => {
            match get_json_path_str(resp, path.as_str()) {
                Some(v) => v,
                None => String::new(),
            }
        },
        None => String::new(),
    };
    assert(match ctx@.last {
        Some(resp) => actual@ == (match spec_path_str(resp, path@) {
            Some(v) => v,
            None => ""@,
        }),
        None => false,
    });
    if actual == expected {
        let mut line = String::from_str("assert ok: ");
        line.append(node.id.as_str());
        let ghost c0 = ctx@;
        ctx.logs.push(line);
        assert(ctx@.logs =~= c0.logs.push("assert ok: "@ + node@.id));
        None
    } else {
        let mut e = String::from_str("assert failed at node ");
        e.append(node.id.as_str());
        e.append(": actual ");
        e.append(actual.as_str());
        e.append(", expected ");
        e.append(expected.as_str());
        Some(e)
    }
}


/// A pure node's full step: it executes and its step record is
/// appended, both timestamps taken at the same instant.
pub open spec fn spec_step_pure(n: NodeModel, c: CtxModel, now: int) -> CtxModel {
    if n.node_type == "start"@ {
        push_step(spec_exec_start(n, c), n.id, now, now, true, None, None)
    } else if n.node_type == "extract"@ {
        push_step(
            spec_exec_extract(n, c).0,
            n.id,
            now,
            now,
            spec_exec_extract(n, c).1 is None,
            None,
            spec_exec_extract(n, c).1,
        )
    } else if n.node_type == "assert"@ {
        push_step(
            spec_exec_assert(n, c).0,
            n.id,
            now,
            now,
            spec_exec_assert(n, c).1 is None,
            None,
            spec_exec_assert(n, c).1,
        )
    } else {
        push_step(spec_exec_unknown(n, c), n.id, now, now, true, None, None)
    }
}

/// An `http` node whose request was not answered: the step fails with
/// the given error and nothing else changes.
pub open spec fn spec_step_http_failure(
    n: NodeModel,
    c: CtxModel,
    start: int,
    now: int,
    err: Seq<char>,
) -> CtxModel {
    push_step(c, n.id, start, now, false, None, Some(err))
}

/// An `http` node whose request was answered: the response lands in the
/// context and the step succeeds with the response status.
pub open spec fn spec_step_http_response(
    n: NodeModel,
    c: CtxModel,
    start: int,
    now: int,
    status: u16,
    body_text: Seq<char>,
    body_json: Option<JsonModel>,
) -> CtxModel {
    push_step(
        spec_apply_response(n.id, status, body_text, body_json, c),
        n.id,
        start,
        now,
        true,
        Some(status),
        None,
    )
}

/// A run part-way through: the execution order, the position in it, the
/// context, and the pending request of an `http` node waiting for its
/// response (its node index and start time).
pub struct RunState {
    pub order: Vec<usize>,
    pub next: usize,
    pub ctx: ExecutionContext,
    pub pending: Option<PendingHttp>,
}

pub struct PendingHttp {
    pub node_index: usize,
    pub start_ms: i64,
}

pub struct StateModel {
    pub order: Seq<int>,
    pub next: int,
    pub ctx: CtxModel,
    pub pending: Option<(int, int)>,
}

impl View for RunState {
    type V = StateModel;

    open spec fn view(&self) -> StateModel {
        StateModel {
            order: crate::graph::order_ints(self.order@),
            next: self.next as int,
            ctx: self.ctx@,
            pending: match self.pending {
                Some(p) => Some((p.node_index as int, p.start_ms as int)),
                None => None,
            },
        }
    }
}

impl RunState {
    /// The state fits the graph: the position is in range, every index
    /// is a node, and the variables are well formed.
    pub open spec fn wf(&self, g: GraphModel) -> bool {
        &&& self.next <= self.order@.len()
        &&& forall|k: int| 0 <= k < self.order@.len() ==> self.order@[k] < g.nodes.len()
        &&& self.ctx.wf()
        &&& match self.pending {
            Some(p) => self.next < self.order@.len() && p.node_index == self.order@[
                self.next as int
            ],
            None => true,
        }
    }
}

/// What one call of `advance` does.
pub enum StepOutcome {
    Ran,
    NeedHttp(HttpRequestPlan),
    Finished,
}

pub enum OutcomeModel {
    Ran,
    NeedHttp(PlanModel),
    Finished,
}

impl View for StepOutcome {
    type V = OutcomeModel;

    open spec fn view(&self) -> OutcomeModel {
        match self {
            StepOutcome::Ran => OutcomeModel::Ran,
            StepOutcome::NeedHttp(p) => OutcomeModel::NeedHttp(p@),
            StepOutcome::Finished => OutcomeModel::Finished,
        }
    }
}

/// What `advance` promises: at the end of the order it finishes; at an
/// `http` node it yields the request plan and marks it pending; at any
/// other node it executes the node in place.
pub open spec fn advance_post(
    g: GraphModel,
    pre: StateModel,
    post: StateModel,
    r: OutcomeModel,
    now: int,
) -> bool {
    if pre.next >= pre.order.len() {
        r == OutcomeModel::Finished && post == pre
    } else if 0 <= pre.order[pre.next] < g.nodes.len() {
        if g.nodes[pre.order[pre.next]].node_type == "http"@ {
            &&& r == OutcomeModel::NeedHttp(
                spec_http_plan(g.nodes[pre.order[pre.next]], pre.ctx.vars),
            )
            &&& post == StateModel { pending: Some((pre.order[pre.next], now)), ..pre }
        } else {
            &&& r == OutcomeModel::Ran
            &&& post == StateModel {
                next: pre.next + 1,
                ctx: spec_step_pure(g.nodes[pre.order[pre.next]], pre.ctx, now),
                ..pre
            }
        }
    } else {
        true
    }
}

/// Starts a run: computes the execution order and seeds the context.
pub fn start_run(def: &WorkflowDefinition, input: StrMap) -> (r: Result<RunState, String>)
    requires
        def.graph@.wf(),
        input.wf(),
    ensures
        (r matches Ok(st) ==> crate::graph::topo_order_ok(def.graph@, st.order@)),
        (r matches Ok(st) ==> st.wf(def.graph@) && st.next == 0 && st.pending is None
            && st.ctx@ == init_ctx(input@)),
        ((r is Ok) == (crate::graph::spec_topo_indices(def.graph@).len() > 0)),
{
    match crate::graph::topological_order(&def.graph) {
        Ok(order) => {
            let ctx = ExecutionContext::new(input);
            Ok(RunState { order, next: 0, ctx, pending: None })
        },
        Err(e) => Err(e),
    }
}

/// Runs one step: see `advance_post`.
pub fn advance(def: &WorkflowDefinition, st: &mut RunState, now_ms: i64) -> (r: StepOutcome)
    requires
        old(st).wf(def.graph@),
        old(st).pending is None,
    ensures
        final(st).wf(def.graph@),
        final(st).order == old(st).order,
        advance_post(def.graph@, old(st)@, final(st)@, r@, now_ms as int),
        (r is Finished) == (old(st).next >= old(st).order@.len()),
        (final(st).pending is None) == !(r is NeedHttp),
{
    if st.next >= st.order.len() {
        return StepOutcome::Finished;
    }
    let ni = st.order[st.next];
    assert(ni < def.graph.nodes@.len());
    let node = &def.graph.nodes[ni];
    let is_http = crate::strutil::str_eq(node.node_type.as_str(), "http");
    if is_http {
        let plan = build_http_plan(node, &st.ctx.vars);
        st.pending = Some(PendingHttp { node_index: ni, start_ms: now_ms });
        return StepOutcome::NeedHttp(plan);
    }
    let ghost pre = st@;
    if crate::strutil::str_eq(node.node_type.as_str(), "start") {
        exec_start(node, &mut st.ctx);
        let step = StepResult {
            id: node.id.clone(),
            start_ms: now_ms,
            end_ms: now_ms,
            success: true,
            status: None,
            error: None,
        };
        st.ctx.step_results.push(step);
        assert(st@.ctx.steps =~= spec_step_pure(node@, pre.ctx, now_ms as int).steps);
    } else if crate::strutil::str_eq(node.node_type.as_str(), "extract") {
        let err = exec_extract(node, &mut st.ctx);
        let success = match &err {
            None => true,
            Some(_) => false,
        };
        let step = StepResult {
            id: node.id.clone(),
            start_ms: now_ms,
            end_ms: now_ms,
            success,
            status: None,
            error: err,
        };
        st.ctx.step_results.push(step);
        assert(st@.ctx.steps =~= spec_step_pure(node@, pre.ctx, now_ms as int).steps);
    } else if crate::strutil::str_eq(node.node_type.as_str(), "assert") {
        let err = exec_assert(node, &mut st.ctx);
        let success = match &err {
            None => true,
            Some(_) => false,
        };
        let step = StepResult {
            id: node.id.clone(),
            start_ms: now_ms,
            end_ms: now_ms,
            success,
            status: None,
            error: err,
        };
        st.ctx.step_results.push(step);
        assert(st@.ctx.steps =~= spec_step_pure(node@, pre.ctx, now_ms as int).steps);
    } else {
        exec_unknown(node, &mut st.ctx);
        let step = StepResult {
            id: node.id.clone(),
            start_ms: now_ms,
            end_ms: now_ms,
            success: true,
            status: None,
            error: None,
        };
        st.ctx.step_results.push(step);
        assert(st@.ctx.steps =~= spec_step_pure(node@, pre.ctx, now_ms as int).steps);
    }
    st.next = st.next + 1;
    assert(st@.ctx == spec_step_pure(def.graph@.nodes[pre.order[pre.next]], pre.ctx, now_ms as int));
    StepOutcome::Ran
}

/// Hands the pending `http` node its response: see
/// `spec_step_http_response`.
pub fn provide_http_response(
    def: &WorkflowDefinition,
    st: &mut RunState,
    status: u16,
    body_text: String,
    body_json: Option<JsonValue>,
    now_ms: i64,
)
    requires
        old(st).wf(def.graph@),
        old(st).pending is Some,
    ensures
        final(st).wf(def.graph@),
        final(st).order == old(st).order,
        final(st).pending is None,
        final(st)@.next == old(st)@.next + 1,
        final(st)@.ctx == spec_step_http_response(
            def.graph@.nodes[old(st)@.order[old(st)@.next]],
            old(st)@.ctx,
            (old(st)@.pending->0).1,
            now_ms as int,
            status,
            body_text@,
            match body_json {
                Some(ref v) => Some(v@),
                None => None::<JsonModel>,
            },
        ),
{
    let ghost pre = st@;
    let ghost bt = body_text@;
    let ghost bj = (match body_json {
        Some(ref v) => Some(v@),
        None => None::<JsonModel>,
    });
    let start_ms = match &st.pending {
        Some(p) => p.start_ms,
        None => now_ms,
    };
    assert(start_ms as int == (pre.pending->0).1);
    let ni = st.order[st.next];
    let node_id = def.graph.nodes[ni].id.clone();
    let ghost nm = def.graph@.nodes[pre.order[pre.next]];
    assert(node_id@ == nm.id);
    apply_http_response(&node_id, status, body_text, body_json, &mut st.ctx);
    assert(st.ctx@ == spec_apply_response(nm.id, status, bt, bj, pre.ctx));
    let step = StepResult {
        id: node_id,
        start_ms,
        end_ms: now_ms,
        success: true,
        status: Some(status),
        error: None,
    };
    st.ctx.step_results.push(step);
    st.pending = None;
    let order_len = st.order.len();
    assert(st.next < order_len);
    st.next = st.next + 1;
    assert(st@.ctx.steps =~= spec_step_http_response(
        nm,
        pre.ctx,
        (pre.pending->0).1,
        now_ms as int,
        status,
        bt,
        bj,
    ).steps);
    assert(st@.ctx == spec_step_http_response(
        nm,
        pre.ctx,
        (pre.pending->0).1,
        now_ms as int,
        status,
        bt,
        bj,
    ));
}


/// A stubbed response for one `http` node, consumed in order.
pub struct HttpStubResponse {
    pub status: u16,
    pub body_text: String,
    pub body_json: Option<JsonValue>,
}

pub struct RespModel {
    pub status: u16,
    pub body_text: Seq<char>,
    pub body_json: Option<JsonModel>,
}

impl View for HttpStubResponse {
    type V = RespModel;

    open spec fn view(&self) -> RespModel {
        RespModel {
            status: self.status,
            body_text: self.body_text@,
            body_json: match self.body_json {
                Some(ref v) => Some(v@),
                None => None,
            },
        }
    }
}

/// The models of a sequence of stubbed responses.
pub open spec fn resp_models(s: Seq<HttpStubResponse>) -> Seq<RespModel> {
    Seq::new(s.len(), |i: int| s[i]@)
}

/// The whole run as a function: executes the order from position `i`
/// with responses taken from `resp` starting at `r`. An `http` node with
/// no response left fails its step.
pub open spec fn spec_run_from(
    g: GraphModel,
    order: Seq<int>,
    i: int,
    c: CtxModel,
    resp: Seq<RespModel>,
    r: int,
    now: int,
) -> CtxModel
    decreases order.len() - i,
{
    if i < 0 || i >= order.len() {
        c
    } else if !(0 <= order[i] < g.nodes.len()) {
        c
    } else {
        let n = g.nodes[order[i]];
        if n.node_type == "http"@ {
            if 0 <= r < resp.len() {
                spec_run_from(
                    g,
                    order,
                    i + 1,
                    spec_step_http_response(
                        n,
                        c,
                        now,
                        now,
                        resp[r].status,
                        resp[r].body_text,
                        resp[r].body_json,
                    ),
                    resp,
                    r + 1,
                    now,
                )
            } else {
                spec_run_from(
                    g,
                    order,
                    i + 1,
                    spec_step_http_failure(n, c, now, now, "no stub response"@),
                    resp,
                    r,
                    now,
                )
            }
        } else {
            spec_run_from(g, order, i + 1, spec_step_pure(n, c, now), resp, r, now)
        }
    }
}

/// The final context of a stubbed run.
pub open spec fn spec_run_ctx(
    g: GraphModel,
    input: Seq<(Seq<char>, Seq<char>)>,
    resp: Seq<RespModel>,
    now: int,
) -> CtxModel {
    spec_run_from(g, crate::graph::spec_topo_indices(g), 0, init_ctx(input), resp, 0, now)
}

/// Every recorded step succeeded.
pub open spec fn all_steps_ok(steps: Seq<StepModel>) -> bool {
    forall|i: int| 0 <= i < steps.len() ==> steps[i].success
}

/// Hands the pending `http` node a failure: its step fails with the
/// given error and nothing else changes.
pub fn provide_http_failure(
    def: &WorkflowDefinition,
    st: &mut RunState,
    error: String,
    now_ms: i64,
)
    requires
        old(st).wf(def.graph@),
        old(st).pending is Some,
    ensures
        final(st).wf(def.graph@),
        final(st).order == old(st).order,
        final(st).pending is None,
        final(st)@.next == old(st)@.next + 1,
        final(st)@.ctx == spec_step_http_failure(
            def.graph@.nodes[old(st)@.order[old(st)@.next]],
            old(st)@.ctx,
            (old(st)@.pending->0).1,
            now_ms as int,
            error@,
        ),
{
    let ghost pre = st@;
    let start_ms = match &st.pending {
        Some(p) => p.start_ms,
        None => now_ms,
    };
    assert(start_ms as int == (pre.pending->0).1);
    let ni = st.order[st.next];
    let node_id = def.graph.nodes[ni].id.clone();
    let ghost nm = def.graph@.nodes[pre.order[pre.next]];
    assert(node_id@ == nm.id);
    let step = StepResult {
        id: node_id,
        start_ms,
        end_ms: now_ms,
        success: false,
        status: None,
        error: Some(error),
    };
    st.ctx.step_results.push(step);
    st.pending = None;
    let order_len = st.order.len();
    assert(st.next < order_len);
    st.next = st.next + 1;
    assert(st@.ctx.steps =~= spec_step_http_failure(
        nm,
        pre.ctx,
        (pre.pending->0).1,
        now_ms as int,
        error@,
    ).steps);
    assert(st@.ctx == spec_step_http_failure(
        nm,
        pre.ctx,
        (pre.pending->0).1,
        now_ms as int,
        error@,
    ));
}

/// The summary of one run.
pub struct WorkflowRunSummary {
    pub key: String,
    pub start_ms: i64,
    pub end_ms: i64,
    pub success: bool,
    pub steps: Vec<StepResult>,
}

/// What a run returns.
pub struct StartResult {
    pub instance_id: String,
    pub engine: EngineKind,
    pub success: bool,
    pub error_message: Option<String>,
    pub duration_ms: i64,
    pub summary: WorkflowRunSummary,
    pub vars: StrMap,
    pub logs: Vec<String>,
}

/// What a successful stubbed run returns, as a function of the graph,
/// the key, the input variables, the responses and the clock reading:
/// everything but the freshly drawn instance identifier is pinned.
pub open spec fn stub_result_ok(
    g: GraphModel,
    key: Seq<char>,
    input: Seq<(Seq<char>, Seq<char>)>,
    resp: Seq<RespModel>,
    now: int,
    res: StartResult,
) -> bool {
    let c = spec_run_ctx(g, input, resp, now);
    &&& res.engine == EngineKind::LocalJson
    &&& res.success == all_steps_ok(c.steps)
    &&& res.vars@ == c.vars
    &&& logs_view(res.logs@) == c.logs
    &&& steps_view(res.summary.steps@) == c.steps
    &&& res.summary.key@ == key
    &&& res.summary.success == res.success
    &&& res.summary.start_ms as int == now
    &&& res.summary.end_ms as int == now
    &&& res.duration_ms == 0
    &&& (res.success <==> res.error_message is None)
    &&& (res.error_message matches Some(m) ==> m@ == "one or more steps failed"@)
    &&& res.instance_id@.len() == 36
}

/// Relies on `uuid::Uuid::new_v4` and its hyphenated `Display` form: a
/// fresh random identifier written as 36 characters.
#[verifier::external_body]
fn new_uuid() -> (r: String)
    ensures
        r@.len() == 36,
{
    uuid::Uuid::new_v4().to_string()
}

fn steps_all_ok(steps: &Vec<StepResult>) -> (r: bool)
    ensures
        r == all_steps_ok(steps_view(steps@)),
{
    let mut i: usize = 0;
    while i < steps.len()
        invariant
            i <= steps@.len(),
            forall|j: int| 0 <= j < i ==> steps_view(steps@)[j].success,
        decreases steps@.len() - i,
    {
        if !steps[i].success {
            assert(!steps_view(steps@)[i as int].success);
            return false;
        }
        i = i + 1;
    }
    true
}

/// Runs a definition against stubbed responses, consumed in order; all
/// step timestamps read `now_ms`. The result is the mathematical
/// function `spec_run_ctx` of the inputs: see `stub_result_ok`.
pub fn run_with_responses(
    def: &WorkflowDefinition,
    input: StrMap,
    responses: &Vec<HttpStubResponse>,
    now_ms: i64,
) -> (r: Result<StartResult, String>)
    requires
        def.graph@.wf(),
        input.wf(),
    ensures
        ((r is Ok) == (crate::graph::spec_topo_indices(def.graph@).len() > 0)),
        (r matches Ok(res) ==> stub_result_ok(
            def.graph@,
            def.key@,
            input@,
            resp_models(responses@),
            now_ms as int,
            res,
        )),
{
    let ghost g = def.graph@;
    let ghost input0 = input@;
    let ghost rms = resp_models(responses@);
    let mut st = match start_run(def, input) {
        Ok(st) => st,
        Err(e) => {
            return Err(e);
        },
    };
    let mut used: usize = 0;
    let ghost ord = st@.order;
    assert(ord == crate::graph::spec_topo_indices(g));
    assert(st@.ctx == init_ctx(input0));
    let mut done = false;
    while !done
        invariant
            def.graph@ == g,
            g.wf(),
            st.wf(g),
            st.pending is None,
            st@.order == ord,
            ord == crate::graph::spec_topo_indices(g),
            used <= responses@.len(),
            rms == resp_models(responses@),
            rms.len() == responses@.len(),
            0 <= st@.next <= ord.len(),
            spec_run_from(g, ord, st@.next, st@.ctx, rms, used as int, now_ms as int)
                == spec_run_ctx(g, input0, rms, now_ms as int),
            done ==> st@.next == ord.len(),
        decreases ord.len() - st@.next, (if done { 0int } else { 1int }),
    {
        let ghost pre = st@;
        match advance(def, &mut st, now_ms) {
            StepOutcome::Finished => {
                assert(spec_run_from(g, ord, pre.next, pre.ctx, rms, used as int, now_ms as int)
                    == pre.ctx);
                done = true;
            },
            StepOutcome::Ran => {
                proof {
                    let n = g.nodes[ord[pre.next]];
                    assert(n.node_type != "http"@);
                    assert(st@.ctx == spec_step_pure(n, pre.ctx, now_ms as int));
                }
            },
            StepOutcome::NeedHttp(_plan) => {
                let ghost n = g.nodes[ord[pre.next]];
                assert(n.node_type == "http"@);
                assert(st@.pending == Some((ord[pre.next], now_ms as int)));
                if used < responses.len() {
                    let status = responses[used].status;
                    let body_text = responses[used].body_text.clone();
                    let body_json: Option<JsonValue> = match &responses[used].body_json {
                        Some(v) => Some(crate::json::clone_json(v)),
                        None => None,
                    };
                    assert(match body_json {
                        Some(ref v) => Some(v@),
                        None => None::<JsonModel>,
                    } == rms[used as int].body_json);
                    provide_http_response(def, &mut st, status, body_text, body_json, now_ms);
                    assert(st@.ctx == spec_step_http_response(
                        n,
                        pre.ctx,
                        now_ms as int,
                        now_ms as int,
                        rms[used as int].status,
                        rms[used as int].body_text,
                        rms[used as int].body_json,
                    ));
                    used = used + 1;
                } else {
                    provide_http_failure(def, &mut st, String::from_str("no stub response"),
                        now_ms);
                    assert(st@.ctx == spec_step_http_failure(
                        n,
                        pre.ctx,
                        now_ms as int,
                        now_ms as int,
                        "no stub response"@,
                    ));
                }
            },
        }
    }
    let ghost fc = spec_run_ctx(g, input0, rms, now_ms as int);
    assert(spec_run_from(g, ord, st@.next, st@.ctx, rms, used as int, now_ms as int) == st@.ctx);
    assert(st@.ctx == fc);
    let res = finish_run(def, st, now_ms, now_ms);
    assert(stub_result_ok(g, def.key@, input0, rms, now_ms as int, res));
    Ok(res)
}

/// Wraps a finished run up as its result: the run succeeded exactly
/// when every step did, and everything but the freshly drawn instance
/// identifier comes from the final context and the two clock readings.
pub fn finish_run(def: &WorkflowDefinition, st: RunState, start_ms: i64, end_ms: i64) -> (r:
    StartResult)
    requires
        start_ms <= end_ms,
        end_ms - start_ms <= i64::MAX,
    ensures
        r.engine == EngineKind::LocalJson,
        r.success == all_steps_ok(st@.ctx.steps),
        r.vars@ == st@.ctx.vars,
        logs_view(r.logs@) == st@.ctx.logs,
        steps_view(r.summary.steps@) == st@.ctx.steps,
        r.summary.key@ == def.key@,
        r.summary.success == r.success,
        r.summary.start_ms == start_ms,
        r.summary.end_ms == end_ms,
        r.duration_ms == end_ms - start_ms,
        (r.success <==> r.error_message is None),
        (r.error_message matches Some(m) ==> m@ == "one or more steps failed"@),
        r.instance_id@.len() == 36,
{
    let success = steps_all_ok(&st.ctx.step_results);
    let error_message: Option<String> = if success {
        None
    } else {
        Some(String::from_str("one or more steps failed"))
    };
    let instance_id = new_uuid();
    let summary = WorkflowRunSummary {
        key: def.key.clone(),
        start_ms,
        end_ms,
        success,
        steps: st.ctx.step_results,
    };
    StartResult {
        instance_id,
        engine: EngineKind::LocalJson,
        success,
        error_message,
        duration_ms: end_ms - start_ms,
        summary,
        vars: st.ctx.vars,
        logs: st.ctx.logs,
    }
}

/// Replaying a run is deterministic: two results of one definition, one
/// input and one response list agree on success, on every variable, on
/// the logs, and on every step's identifier, times, success, status and
/// error; only the instance identifier may differ.
pub proof fn lemma_replay_deterministic(
    g: GraphModel,
    key: Seq<char>,
    input: Seq<(Seq<char>, Seq<char>)>,
    resp: Seq<RespModel>,
    now: int,
    r1: StartResult,
    r2: StartResult,
)
    requires
        stub_result_ok(g, key, input, resp, now, r1),
        stub_result_ok(g, key, input, resp, now, r2),
    ensures
        r1.success == r2.success,
        r1.vars@ == r2.vars@,
        logs_view(r1.logs@) == logs_view(r2.logs@),
        steps_view(r1.summary.steps@) == steps_view(r2.summary.steps@),
        r1.error_message is Some <==> r2.error_message is Some,
{
}


/// What `deploy` returns: for the local engine the key echoed back.
pub struct DeployResult {
    pub key: String,
    pub engine: EngineKind,
}

/// The local engine: it executes graphs in process.
pub struct LocalJsonEngine {}

impl LocalJsonEngine {
    pub fn new() -> (e: LocalJsonEngine) {
        LocalJsonEngine {  }
    }

    /// The local engine needs no deployment: it echoes the key.
    pub fn deploy(&self, def: &WorkflowDefinition) -> (r: DeployResult)
        ensures
            r.key@ == def.key@,
            r.engine == EngineKind::LocalJson,
    {
        DeployResult { key: def.key.clone(), engine: EngineKind::LocalJson }
    }

    /// Runs the definition against stubbed responses: see
    /// `run_with_responses`.
    pub fn run_once(
        &self,
        def: &WorkflowDefinition,
        input: StrMap,
        responses: &Vec<HttpStubResponse>,
        now_ms: i64,
    ) -> (r: Result<StartResult, String>)
        requires
            def.graph@.wf(),
            input.wf(),
        ensures
            ((r is Ok) == (crate::graph::spec_topo_indices(def.graph@).len() > 0)),
            (r matches Ok(res) ==> stub_result_ok(
                def.graph@,
                def.key@,
                input@,
                resp_models(responses@),
                now_ms as int,
                res,
            )),
    {
        run_with_responses(def, input, responses, now_ms)
    }
}

/// A placeholder for a Flowable backend; it only remembers its address.
pub struct FlowableEngine {
    pub base_url: String,
}

impl FlowableEngine {
    pub fn new(base_url: String) -> (e: FlowableEngine)
        ensures
            e.base_url@ == base_url@,
    {
        FlowableEngine { base_url }
    }
}

/// A placeholder for a Zeebe backend; it only remembers its gateway.
pub struct ZeebeEngine {
    pub gateway_addr: String,
}

impl ZeebeEngine {
    pub fn new(gateway_addr: String) -> (e: ZeebeEngine)
        ensures
            e.gateway_addr@ == gateway_addr@,
    {
        ZeebeEngine { gateway_addr }
    }
}

/// Dispatches work to the selected engine. Only the local engine runs;
/// the Flowable and Zeebe backends are declared but not implemented, so
/// selecting them always errors.
pub struct WorkflowEngineRunner {
    pub kind: EngineKind,
    pub local: LocalJsonEngine,
    pub flowable: Option<FlowableEngine>,
    pub zeebe: Option<ZeebeEngine>,
}

impl WorkflowEngineRunner {
    pub fn new(kind: EngineKind) -> (r: WorkflowEngineRunner)
        ensures
            r.kind == kind,
            r.flowable is None,
            r.zeebe is None,
    {
        WorkflowEngineRunner { kind, local: LocalJsonEngine::new(), flowable: None, zeebe: None }
    }

    pub fn with_flowable(self, engine: FlowableEngine) -> (r: WorkflowEngineRunner)
        ensures
            (r == WorkflowEngineRunner { flowable: Some(engine), ..self }),
    {
        WorkflowEngineRunner { flowable: Some(engine), ..self }
    }

    pub fn with_zeebe(self, engine: ZeebeEngine) -> (r: WorkflowEngineRunner)
        ensures
            (r == WorkflowEngineRunner { zeebe: Some(engine), ..self }),
    {
        WorkflowEngineRunner { zeebe: Some(engine), ..self }
    }

    /// Deploys on the selected engine. Flowable and Zeebe always fail:
    /// unconfigured, or configured but not implemented.
    pub fn deploy(&self, def: &WorkflowDefinition) -> (r: Result<DeployResult, String>)
        ensures
            (self.kind == EngineKind::LocalJson ==> (r matches Ok(d) && d.key@ == def.key@
                && d.engine == EngineKind::LocalJson)),
            (self.kind != EngineKind::LocalJson ==> r is Err),
    {
        match self.kind {
            EngineKind::LocalJson => Ok(self.local.deploy(def)),
            EngineKind::Flowable => {
                match &self.flowable {
                    None => Err(String::from_str("Flowable engine is not configured")),
                    Some(_) => Err(String::from_str("Flowable engine is not implemented")),
                }
            },
            EngineKind::Zeebe => {
                match &self.zeebe {
                    None => Err(String::from_str("Zeebe engine is not configured")),
                    Some(_) => Err(String::from_str("Zeebe engine is not implemented")),
                }
            },
        }
    }

    /// Runs once on the selected engine, against stubbed responses.
    /// Flowable and Zeebe always fail, as in `deploy`.
    pub fn run_once(
        &self,
        def: &WorkflowDefinition,
        input: StrMap,
        responses: &Vec<HttpStubResponse>,
        now_ms: i64,
    ) -> (r: Result<StartResult, String>)
        requires
            def.graph@.wf(),
            input.wf(),
        ensures
            (self.kind == EngineKind::LocalJson ==> ((r is Ok) == (crate::graph::spec_topo_indices(
                def.graph@,
            ).len() > 0))),
            (self.kind == EngineKind::LocalJson ==> (r matches Ok(res) ==> stub_result_ok(
                def.graph@,
                def.key@,
                input@,
                resp_models(responses@),
                now_ms as int,
                res,
            ))),
            (self.kind != EngineKind::LocalJson ==> r is Err),
    {
        match self.kind {
            EngineKind::LocalJson => self.local.run_once(def, input, responses, now_ms),
            EngineKind::Flowable => {
                match &self.flowable {
                    None => Err(String::from_str("Flowable engine is not configured")),
                    Some(_) => Err(String::from_str("Flowable engine is not implemented")),
                }
            },
            EngineKind::Zeebe => {
                match &self.zeebe {
                    None => Err(String::from_str("Zeebe engine is not configured")),
                    Some(_) => Err(String::from_str("Zeebe engine is not implemented")),
                }
            },
        }
    }
}

/// The engine a configuration string names; anything unknown falls back
/// to the local engine.
pub open spec fn spec_engine_kind_of(s: Seq<char>) -> EngineKind {
    if s == "flowable"@ {
        EngineKind::Flowable
    } else if s == "zeebe"@ {
        EngineKind::Zeebe
    } else {
        EngineKind::LocalJson
    }
}

/// Parses an engine name, as `spec_engine_kind_of` describes.
pub fn parse_engine_kind(s: &str) -> (k: EngineKind)
    ensures
        k == spec_engine_kind_of(s@),
{
    if crate::strutil::str_eq(s, "flowable") {
        EngineKind::Flowable
    } else if crate::strutil::str_eq(s, "zeebe") {
        EngineKind::Zeebe
    } else {
        EngineKind::LocalJson
    }
}

/// The text a run input entry contributes: strings verbatim, anything
/// else as JSON text.
pub open spec fn value_text(v: JsonModel) -> Seq<char> {
    match v {
        JsonModel::Str(s) => s,
        other => spec_json_text(other),
    }
}

/// The variables a run input's entries seed, from index `k` on.
pub open spec fn spec_flatten_from(
    es: Seq<(Seq<char>, JsonModel)>,
    k: int,
    m: Seq<(Seq<char>, Seq<char>)>,
) -> Seq<(Seq<char>, Seq<char>)>
    decreases es.len() - k,
{
    if k < 0 || k >= es.len() {
        m
    } else {
        spec_flatten_from(es, k + 1, map_set(m, es[k].0, value_text(es[k].1)))
    }
}

/// The variables a run input seeds: each top-level entry of an object,
/// strings verbatim and other values as JSON text; any other input
/// seeds nothing.
pub open spec fn spec_flatten_input(v: JsonModel) -> Seq<(Seq<char>, Seq<char>)> {
    match v {
        JsonModel::Obj(es) => spec_flatten_from(es, 0, Seq::<(Seq<char>, Seq<char>)>::empty()),
        _ => Seq::<(Seq<char>, Seq<char>)>::empty(),
    }
}

/// Seeds run variables from a JSON input, as `spec_flatten_input`
/// describes.
pub fn flatten_input(input: &JsonValue) -> (m: StrMap)
    ensures
        m.wf(),
        m@ == spec_flatten_input(input@),
{
    let mut m = StrMap::new();
    match input {
        JsonValue::Obj(es) => {
            let ghost ms = crate::json::obj_model(es@);
            assert(spec_flatten_input(input@) == spec_flatten_from(ms, 0, m@));
            let n = es.len();
            let mut k: usize = 0;
            while k < n
                invariant
                    k <= n,
                    n == es@.len(),
                    m.wf(),
                    ms == crate::json::obj_model(es@),
                    ms.len() == n,
                    spec_flatten_from(ms, k as int, m@) == spec_flatten_input(input@),
                decreases n - k,
            {
                let key = es[k].0.clone();
                let val = match &es[k].1 {
                    JsonValue::Str(s) => s.clone(),
                    other => json_text(other),
                };
                assert(ms[k as int] == (es@[k as int].0@, es@[k as int].1.model()));
                assert(val@ == value_text(ms[k as int].1));
                m.insert(key, val);
                k = k + 1;
            }
            m
        },
        _ => {
            assert(m@ =~= spec_flatten_input(input@));
            m
        },
    }
}


/// A graph node read out of a JSON value: `id` and `type` must be
/// strings; `properties` defaults to null.
pub open spec fn spec_node_of(v: JsonModel) -> Option<NodeModel> {
    match jget(v, "id"@) {
        Some(JsonModel::Str(id)) => match jget(v, "type"@) {
            Some(JsonModel::Str(t)) => Some(
                NodeModel {
                    id,
                    node_type: t,
                    properties: match jget(v, "properties"@) {
                        Some(p) => p,
                        None => JsonModel::Null,
                    },
                },
            ),
            _ => None,
        },
        _ => None,
    }
}

/// A graph edge read out of a JSON value: `id`, `source` and `target`
/// must be strings.
pub open spec fn spec_edge_of(v: JsonModel) -> Option<crate::graph::EdgeModel> {
    match jget(v, "id"@) {
        Some(JsonModel::Str(id)) => match jget(v, "source"@) {
            Some(JsonModel::Str(s)) => match jget(v, "target"@) {
                Some(JsonModel::Str(t)) => Some(
                    crate::graph::EdgeModel { id, source: s, target: t },
                ),
                _ => None,
            },
            _ => None,
        },
        _ => None,
    }
}

/// All nodes from index `k` on, if each parses.
pub open spec fn spec_nodes_of(s: Seq<JsonModel>, k: int) -> Option<Seq<NodeModel>>
    decreases s.len() - k,
{
    if k < 0 || k >= s.len() {
        Some(Seq::<NodeModel>::empty())
    } else {
        match spec_node_of(s[k]) {
            Some(n) => match spec_nodes_of(s, k + 1) {
                Some(rest) => Some(seq![n] + rest),
                None => None,
            },
            None => None,
        }
    }
}

/// All edges from index `k` on, if each parses.
pub open spec fn spec_edges_of(s: Seq<JsonModel>, k: int) -> Option<
    Seq<crate::graph::EdgeModel>,
>
    decreases s.len() - k,
{
    if k < 0 || k >= s.len() {
        Some(Seq::<crate::graph::EdgeModel>::empty())
    } else {
        match spec_edge_of(s[k]) {
            Some(e) => match spec_edges_of(s, k + 1) {
                Some(rest) => Some(seq![e] + rest),
                None => None,
            },
            None => None,
        }
    }
}

/// The graph a JSON value describes: `nodes` and `edges` must be arrays
/// whose members all parse.
pub open spec fn spec_graph_of(v: JsonModel) -> Option<GraphModel> {
    match jget(v, "nodes"@) {
        Some(JsonModel::Arr(ns)) => match jget(v, "edges"@) {
            Some(JsonModel::Arr(es)) => match spec_nodes_of(ns, 0) {
                Some(nodes) => match spec_edges_of(es, 0) {
                    Some(edges) => Some(GraphModel { nodes, edges }),
                    None => None,
                },
                None => None,
            },
            _ => None,
        },
        _ => None,
    }
}

fn node_of(v: &JsonValue) -> (r: Option<LogicFlowNode>)
    ensures
        match r {
            Some(n) => spec_node_of(v@) == Some(n@),
            None => spec_node_of(v@) is None,
        },
{
    let id = match json_member(v, "id") {
        Some(JsonValue::Str(s)) => s.clone(),
        Some(_) => {
            return None;
        },
        None => {
            return None;
        },
    };
    let node_type = match json_member(v, "type") {
        Some(JsonValue::Str(s)) => s.clone(),
        Some(_) => {
            return None;
        },
        None => {
            return None;
        },
    };
    let properties = match json_member(v, "properties") {
        Some(p) => crate::json::clone_json(p),
        None => JsonValue::Null,
    };
    Some(LogicFlowNode { id, node_type, properties })
}

fn edge_of(v: &JsonValue) -> (r: Option<crate::graph::LogicFlowEdge>)
    ensures
        match r {
            Some(e) => spec_edge_of(v@) == Some(e@),
            None => spec_edge_of(v@) is None,
        },
{
    let id = match json_member(v, "id") {
        Some(JsonValue::Str(s)) => s.clone(),
        Some(_) => {
            return None;
        },
        None => {
            return None;
        },
    };
    let source = match json_member(v, "source") {
        Some(JsonValue::Str(s)) => s.clone(),
        Some(_) => {
            return None;
        },
        None => {
            return None;
        },
    };
    let target = match json_member(v, "target") {
        Some(JsonValue::Str(s)) => s.clone(),
        Some(_) => {
            return None;
        },
        None => {
            return None;
        },
    };
    Some(crate::graph::LogicFlowEdge { id, source, target })
}

/// Reads a graph out of a JSON value, as `spec_graph_of` describes.
pub fn graph_from_json(v: &JsonValue) -> (r: Option<LogicFlowGraph>)
    ensures
        match r {
            Some(g) => spec_graph_of(v@) == Some(g@),
            None => spec_graph_of(v@) is None,
        },
{
    let ns = match json_member(v, "nodes") {
        Some(JsonValue::Arr(ns)) => ns,
        Some(_) => {
            return None;
        },
        None => {
            return None;
        },
    };
    let es = match json_member(v, "edges") {
        Some(JsonValue::Arr(es)) => es,
        Some(_) => {
            return None;
        },
        None => {
            return None;
        },
    };
    let ghost nsm = crate::json::arr_model(ns@);
    let ghost esm = crate::json::arr_model(es@);
    let mut nodes: Vec<LogicFlowNode> = Vec::new();
    let n = ns.len();
    let mut k: usize = 0;
    while k < n
        invariant
            k <= n,
            n == ns@.len(),
            nsm == crate::json::arr_model(ns@),
            nsm.len() == n,
            jget(v@, "nodes"@) == Some(JsonModel::Arr(nsm)),
            jget(v@, "edges"@) == Some(JsonModel::Arr(esm)),
            spec_nodes_of(nsm, 0) == (match spec_nodes_of(nsm, k as int) {
                Some(rest) => Some(crate::graph::node_models(nodes@) + rest),
                None => None::<Seq<NodeModel>>,
            }),
        decreases n - k,
    {
        let ghost pre = crate::graph::node_models(nodes@);
        assert(nsm[k as int] == ns@[k as int].model());
        match node_of(&ns[k]) {
            Some(node) => {
                nodes.push(node);
                assert(crate::graph::node_models(nodes@) =~= pre.push(
                    spec_node_of(nsm[k as int])->0,
                ));
                proof {
                    match spec_nodes_of(nsm, k + 1) {
                        Some(rest) => {
                            assert(pre + (seq![spec_node_of(nsm[k as int])->0] + rest) =~= pre.push(
                                spec_node_of(nsm[k as int])->0,
                            ) + rest);
                        },
                        None => {},
                    }
                }
            },
            None => {
                assert(spec_nodes_of(nsm, k as int) is None);
                return None;
            },
        }
        k = k + 1;
    }
    assert(spec_nodes_of(nsm, n as int) == Some(Seq::<NodeModel>::empty()));
    assert(crate::graph::node_models(nodes@) + Seq::<NodeModel>::empty() =~= crate::graph::node_models(nodes@));

    let mut edges: Vec<crate::graph::LogicFlowEdge> = Vec::new();
    let m = es.len();
    let mut j: usize = 0;
    while j < m
        invariant
            j <= m,
            m == es@.len(),
            esm == crate::json::arr_model(es@),
            esm.len() == m,
            jget(v@, "nodes"@) == Some(JsonModel::Arr(nsm)),
            jget(v@, "edges"@) == Some(JsonModel::Arr(esm)),
            spec_nodes_of(nsm, 0) == Some(crate::graph::node_models(nodes@)),
            spec_edges_of(esm, 0) == (match spec_edges_of(esm, j as int) {
                Some(rest) => Some(crate::graph::edge_models(edges@) + rest),
                None => None::<Seq<crate::graph::EdgeModel>>,
            }),
        decreases m - j,
    {
        let ghost pre = crate::graph::edge_models(edges@);
        assert(esm[j as int] == es@[j as int].model());
        match edge_of(&es[j]) {
            Some(edge) => {
                edges.push(edge);
                assert(crate::graph::edge_models(edges@) =~= pre.push(
                    spec_edge_of(esm[j as int])->0,
                ));
                proof {
                    match spec_edges_of(esm, j + 1) {
                        Some(rest) => {
                            assert(pre + (seq![spec_edge_of(esm[j as int])->0] + rest) =~= pre.push(
                                spec_edge_of(esm[j as int])->0,
                            ) + rest);
                        },
                        None => {},
                    }
                }
            },
            None => {
                assert(spec_edges_of(esm, j as int) is None);
                return None;
            },
        }
        j = j + 1;
    }
    assert(spec_edges_of(esm, m as int) == Some(Seq::<crate::graph::EdgeModel>::empty()));
    assert(crate::graph::edge_models(edges@) + Seq::<crate::graph::EdgeModel>::empty()
        =~= crate::graph::edge_models(edges@));

    let g = LogicFlowGraph { nodes, edges };
    Some(g)
}

impl WorkflowDefinition {
    /// Builds a definition from a graph in JSON form: the key names it,
    /// and it runs on the local engine.
    pub fn from_logicflow_json(key: &str, graph_json: &JsonValue) -> (def: WorkflowDefinition)
        requires
            spec_graph_of(graph_json@) is Some,
        ensures
            def.key@ == key@,
            def.name@ == key@,
            def.description@ == Seq::<char>::empty(),
            def.engine == EngineKind::LocalJson,
            Some(def.graph@) == spec_graph_of(graph_json@),
    {
        let graph = match graph_from_json(graph_json) {
            Some(g) => g,
            None => LogicFlowGraph { nodes: Vec::new(), edges: Vec::new() },
        };
        WorkflowDefinition {
            key: String::from_str(key),
            name: String::from_str(key),
            description: String::new(),
            engine: EngineKind::LocalJson,
            graph,
        }
    }

    /// Builds a definition from a graph in JSON form, or nothing when
    /// the JSON does not describe a graph.
    pub fn try_from_logicflow_json(key: &str, graph_json: &JsonValue) -> (r: Option<
        WorkflowDefinition,
    >)
        ensures
            (r matches Some(def) ==> def.key@ == key@ && def.engine == EngineKind::LocalJson
                && Some(def.graph@) == spec_graph_of(graph_json@)),
            (r is None) == (spec_graph_of(graph_json@) is None),
    {
        match graph_from_json(graph_json) {
            Some(_) => Some(WorkflowDefinition::from_logicflow_json(key, graph_json)),
            None => None,
        }
    }
}

/// The variables a harness run is seeded with: each configured entry of
/// the fixed allow-list, in this order.
pub fn seed_vars(user: Option<String>, pass: Option<String>, expected_user_id: Option<String>)
    -> (m: StrMap)
    ensures
        m.wf(),
        map_get(m@, "USER"@) == (match user {
            Some(ref v) => Some(v@),
            None => None::<Seq<char>>,
        }),
        map_get(m@, "PASS"@) == (match pass {
            Some(ref v) => Some(v@),
            None => None::<Seq<char>>,
        }),
        map_get(m@, "EXPECTED_USER_ID"@) == (match expected_user_id {
            Some(ref v) => Some(v@),
            None => None::<Seq<char>>,
        }),
{
    proof {
        reveal_strlit("USER");
        reveal_strlit("PASS");
        reveal_strlit("EXPECTED_USER_ID");
        assert("USER"@[0] != "PASS"@[0]);
        assert("USER"@ != "PASS"@);
        assert("USER"@.len() != "EXPECTED_USER_ID"@.len());
        assert("USER"@ != "EXPECTED_USER_ID"@);
        assert("PASS"@.len() != "EXPECTED_USER_ID"@.len());
        assert("PASS"@ != "EXPECTED_USER_ID"@);
    }
    let mut m = StrMap::new();
    match user {
        Some(v) => {
            proof {
                lemma_map_set_get(m@, "USER"@, v@);
            }
            m.insert(String::from_str("USER"), v);
        },
        None => {},
    }
    let ghost m1 = m@;
    match pass {
        Some(v) => {
            proof {
                lemma_map_set_get(m@, "PASS"@, v@);
            }
            m.insert(String::from_str("PASS"), v);
        },
        None => {},
    }
    let ghost m2 = m@;
    match expected_user_id {
        Some(v) => {
            proof {
                lemma_map_set_get(m@, "EXPECTED_USER_ID"@, v@);
            }
            m.insert(String::from_str("EXPECTED_USER_ID"), v);
        },
        None => {},
    }
    m
}

} // verus!
