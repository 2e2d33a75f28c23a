use monitor_host::{StrMap, JsonValue, EngineKind, WorkflowDefinition, WorkflowEngineRunner};
use monitor_host::graph::{LogicFlowGraph, LogicFlowNode, LogicFlowEdge, topological_order};
use monitor_host::engine::{run_with_responses, HttpStubResponse, parse_engine_kind,
    flatten_input, seed_vars, FlowableEngine, ZeebeEngine, StepResult, build_http_plan,
    HttpMethod};
use monitor_host::abi::{choose_entry, RunChoice, base_url, meta_from_parts, level_from_code,
    level_code};
use monitor_host::telemetry::LogLevel;
use monitor_host::dbconf::DbConfig;

fn node(id: &str, node_type: &str, properties: JsonValue) -> LogicFlowNode {
    LogicFlowNode { id: id.to_string(), node_type: node_type.to_string(), properties }
}

fn edge(id: &str, source: &str, target: &str) -> LogicFlowEdge {
    LogicFlowEdge { id: id.to_string(), source: source.to_string(), target: target.to_string() }
}

fn obj(entries: Vec<(&str, JsonValue)>) -> JsonValue {
    JsonValue::Obj(entries.into_iter().map(|(k, v)| (k.to_string(), v)).collect())
}

fn s(v: &str) -> JsonValue {
    JsonValue::Str(v.to_string())
}

fn login_read_graph() -> LogicFlowGraph {
    LogicFlowGraph {
        nodes: vec![
            node("begin", "start", JsonValue::Null),
            node(
                "login",
                "http",
                obj(vec![
                    ("method", s("POST")),
                    ("url", s("http://stub/login")),
                    ("body", s("{\"user\":\"{{USER}}\"}")),
                ]),
            ),
            node("tok", "extract", obj(vec![("path", s("token")), ("var", s("token"))])),
            node(
                "read",
                "http",
                obj(vec![
                    ("method", s("GET")),
                    ("url", s("http://stub/me")),
                    ("headers", obj(vec![("Authorization", s("Bearer {{token}}"))])),
                ]),
            ),
            node("check", "assert", obj(vec![("path", s("user_id")), ("equals", s("42"))])),
            node("end", "end", JsonValue::Null),
        ],
        edges: vec![
            edge("e1", "begin", "login"),
            edge("e2", "login", "tok"),
            edge("e3", "tok", "read"),
            edge("e4", "read", "check"),
            edge("e5", "check", "end"),
        ],
    }
}

fn login_read_def() -> WorkflowDefinition {
    WorkflowDefinition {
        key: "login-read".to_string(),
        name: "login-read".to_string(),
        description: String::new(),
        engine: EngineKind::LocalJson,
        graph: login_read_graph(),
    }
}

fn stub_responses(user_id: &str) -> Vec<HttpStubResponse> {
    vec![
        HttpStubResponse {
            status: 200,
            body_text: "{\"token\":\"T\"}".to_string(),
            body_json: Some(obj(vec![("token", s("T"))])),
        },
        HttpStubResponse {
            status: 200,
            body_text: format!("{{\"user_id\":\"{}\"}}", user_id),
            body_json: Some(obj(vec![("user_id", s(user_id))])),
        },
    ]
}

fn var_of(vars: &StrMap, key: &str) -> Option<String> {
    for (k, v) in vars.entries.iter() {
        if k == key {
            return Some(v.clone());
        }
    }
    None
}

fn step_of<'a>(steps: &'a [StepResult], id: &str) -> &'a StepResult {
    steps.iter().find(|st| st.id == id).expect("step missing")
}

#[test]
fn order_is_a_topological_sort() {
    let graph = LogicFlowGraph {
        nodes: vec![
            node("d", "end", JsonValue::Null),
            node("b", "start", JsonValue::Null),
            node("c", "start", JsonValue::Null),
            node("a", "start", JsonValue::Null),
        ],
        edges: vec![
            edge("e1", "a", "b"),
            edge("e2", "a", "c"),
            edge("e3", "b", "d"),
            edge("e4", "c", "d"),
        ],
    };
    let order = topological_order(&graph).unwrap();
    let pos = |id: &str| {
        order
            .iter()
            .position(|&ix| graph.nodes[ix].id == id)
            .expect("node missing from order")
    };
    for e in &graph.edges {
        assert!(pos(&e.source) < pos(&e.target), "edge {} out of order", e.id);
    }
    assert_eq!(order.len(), 4);
}

#[test]
fn cycle_members_are_skipped_silently() {
    let graph = LogicFlowGraph {
        nodes: vec![
            node("a", "start", JsonValue::Null),
            node("b", "end", JsonValue::Null),
            node("c", "end", JsonValue::Null),
        ],
        edges: vec![
            edge("e1", "b", "c"),
            edge("e2", "c", "b"),
        ],
    };
    let order = topological_order(&graph).unwrap();
    assert_eq!(order, vec![0]);
}

#[test]
fn empty_or_fully_cyclic_graph_is_an_error() {
    let empty = LogicFlowGraph { nodes: vec![], edges: vec![] };
    assert!(topological_order(&empty).is_err());
    let cyclic = LogicFlowGraph {
        nodes: vec![node("a", "start", JsonValue::Null), node("b", "end", JsonValue::Null)],
        edges: vec![edge("e1", "a", "b"), edge("e2", "b", "a")],
    };
    assert!(topological_order(&cyclic).is_err());
}

#[test]
fn login_read_succeeds_with_matching_user() {
    let def = login_read_def();
    let mut input = StrMap::new();
    input.insert("USER".to_string(), "u1".to_string());
    let res = run_with_responses(&def, input, &stub_responses("42"), 1000).unwrap();
    assert!(res.success);
    assert!(res.error_message.is_none());
    assert_eq!(var_of(&res.vars, "token").as_deref(), Some("T"));
    assert_eq!(step_of(&res.summary.steps, "login").status, Some(200));
    assert_eq!(step_of(&res.summary.steps, "read").status, Some(200));
    assert!(step_of(&res.summary.steps, "check").success);
    assert_eq!(res.engine, EngineKind::LocalJson);
    assert_eq!(res.instance_id.len(), 36);
    let bytes = res.instance_id.as_bytes();
    assert_eq!(bytes[8], b'-');
    assert_eq!(bytes[13], b'-');
    assert_eq!(bytes[18], b'-');
    assert_eq!(bytes[23], b'-');
}

#[test]
fn login_read_fails_on_mismatch_but_still_records_later_steps() {
    let def = login_read_def();
    let res = run_with_responses(&def, StrMap::new(), &stub_responses("43"), 1000).unwrap();
    assert!(!res.success);
    assert_eq!(res.error_message.as_deref(), Some("one or more steps failed"));
    let check = step_of(&res.summary.steps, "check");
    assert!(!check.success);
    assert!(!check.error.as_deref().unwrap_or("").is_empty());
    let tail = step_of(&res.summary.steps, "end");
    assert_eq!(tail.start_ms, 1000);
    assert_eq!(tail.end_ms, 1000);
    assert!(tail.success);
}

#[test]
fn replaying_a_run_gives_identical_outcomes() {
    let def = login_read_def();
    let responses = stub_responses("42");
    let mut input1 = StrMap::new();
    input1.insert("USER".to_string(), "u1".to_string());
    let mut input2 = StrMap::new();
    input2.insert("USER".to_string(), "u1".to_string());
    let r1 = run_with_responses(&def, input1, &responses, 1000).unwrap();
    let r2 = run_with_responses(&def, input2, &responses, 1000).unwrap();
    assert_eq!(r1.success, r2.success);
    assert_eq!(r1.vars.entries, r2.vars.entries);
    assert_eq!(r1.logs, r2.logs);
    assert_eq!(r1.summary.steps.len(), r2.summary.steps.len());
    for (a, b) in r1.summary.steps.iter().zip(r2.summary.steps.iter()) {
        assert_eq!(a.id, b.id);
        assert_eq!(a.success, b.success);
        assert_eq!(a.status, b.status);
        assert_eq!(a.error, b.error);
    }
}

#[test]
fn missing_stub_response_fails_the_http_step() {
    let def = login_read_def();
    let res = run_with_responses(&def, StrMap::new(), &vec![], 7).unwrap();
    assert!(!res.success);
    let login = step_of(&res.summary.steps, "login");
    assert!(!login.success);
    assert_eq!(login.error.as_deref(), Some("no stub response"));
    assert_eq!(login.status, None);
}

#[test]
fn extract_without_a_response_fails_its_step() {
    let graph = LogicFlowGraph {
        nodes: vec![
            node("begin", "start", JsonValue::Null),
            node("tok", "extract", obj(vec![("path", s("token")), ("var", s("t"))])),
        ],
        edges: vec![edge("e1", "begin", "tok")],
    };
    let def = WorkflowDefinition {
        key: "k".to_string(),
        name: "k".to_string(),
        description: String::new(),
        engine: EngineKind::LocalJson,
        graph,
    };
    let res = run_with_responses(&def, StrMap::new(), &vec![], 7).unwrap();
    assert!(!res.success);
    let tok = step_of(&res.summary.steps, "tok");
    assert!(!tok.success);
    assert!(tok.error.as_deref().unwrap_or("").contains("tok"));
}

#[test]
fn unknown_node_types_log_and_succeed() {
    let graph = LogicFlowGraph {
        nodes: vec![node("odd", "gateway", JsonValue::Null)],
        edges: vec![],
    };
    let def = WorkflowDefinition {
        key: "k".to_string(),
        name: "k".to_string(),
        description: String::new(),
        engine: EngineKind::LocalJson,
        graph,
    };
    let res = run_with_responses(&def, StrMap::new(), &vec![], 7).unwrap();
    assert!(res.success);
    assert!(res.logs.iter().any(|l| l.contains("odd")));
}

#[test]
fn runner_dispatches_and_stubs_fail() {
    let def = login_read_def();
    let local = WorkflowEngineRunner::new(EngineKind::LocalJson);
    assert!(local.deploy(&def).is_ok());
    let flow = WorkflowEngineRunner::new(EngineKind::Flowable);
    assert!(flow.deploy(&def).is_err());
    assert!(flow.run_once(&def, StrMap::new(), &vec![], 0).is_err());
    let flow2 = WorkflowEngineRunner::new(EngineKind::Flowable)
        .with_flowable(FlowableEngine::new("http://flow".to_string()));
    assert!(flow2.deploy(&def).is_err());
    let zeebe = WorkflowEngineRunner::new(EngineKind::Zeebe)
        .with_zeebe(ZeebeEngine::new("127.0.0.1:26500".to_string()));
    assert!(zeebe.run_once(&def, StrMap::new(), &vec![], 0).is_err());
}

#[test]
fn engine_kind_names_parse_with_fallback() {
    assert_eq!(parse_engine_kind("local_json"), EngineKind::LocalJson);
    assert_eq!(parse_engine_kind("flowable"), EngineKind::Flowable);
    assert_eq!(parse_engine_kind("zeebe"), EngineKind::Zeebe);
    assert_eq!(parse_engine_kind("whatever"), EngineKind::LocalJson);
}

#[test]
fn input_flattening_keeps_strings_and_stringifies_the_rest() {
    let input = obj(vec![
        ("USER", s("u")),
        ("N", JsonValue::Num("42".to_string())),
        ("B", JsonValue::Bool(true)),
    ]);
    let m = flatten_input(&input);
    assert_eq!(var_of(&m, "USER").as_deref(), Some("u"));
    assert_eq!(var_of(&m, "N").as_deref(), Some("42"));
    assert_eq!(var_of(&m, "B").as_deref(), Some("true"));
    let none = flatten_input(&JsonValue::Num("1".to_string()));
    assert_eq!(none.entries.len(), 0);
}

#[test]
fn seeded_vars_follow_the_allow_list() {
    let m = seed_vars(Some("u".to_string()), None, Some("42".to_string()));
    assert_eq!(var_of(&m, "USER").as_deref(), Some("u"));
    assert!(var_of(&m, "PASS").is_none());
    assert_eq!(var_of(&m, "EXPECTED_USER_ID").as_deref(), Some("42"));
}

#[test]
fn definitions_parse_from_graph_json() {
    let graph_json = obj(vec![
        (
            "nodes",
            JsonValue::Arr(vec![
                obj(vec![("id", s("a")), ("type", s("start"))]),
                obj(vec![
                    ("id", s("b")),
                    ("type", s("http")),
                    ("properties", obj(vec![("url", s("http://x"))])),
                ]),
            ]),
        ),
        (
            "edges",
            JsonValue::Arr(vec![obj(vec![
                ("id", s("e1")),
                ("source", s("a")),
                ("target", s("b")),
            ])]),
        ),
    ]);
    let def = WorkflowDefinition::try_from_logicflow_json("wf", &graph_json).unwrap();
    assert_eq!(def.key, "wf");
    assert_eq!(def.graph.nodes.len(), 2);
    assert_eq!(def.graph.nodes[1].node_type, "http");
    assert_eq!(def.graph.edges[0].target, "b");

    let broken = obj(vec![("nodes", JsonValue::Null)]);
    assert!(WorkflowDefinition::try_from_logicflow_json("wf", &broken).is_none());
}

#[test]
fn abi_helpers_decode_and_choose() {
    assert_eq!(base_url(5501, "/"), "http://127.0.0.1:5501/");
    assert_eq!(base_url(5601, "/workflow"), "http://127.0.0.1:5601/workflow");
    let m = meta_from_parts(Some(b"cpu-monitor".to_vec()), None, Some(vec![0xff]));
    assert_eq!(m.name, "cpu-monitor");
    assert_eq!(m.version, "<unknown>");
    assert_eq!(m.kind, "<unknown>");
    assert_eq!(choose_entry(true, true), RunChoice::UseContext);
    assert_eq!(choose_entry(false, true), RunChoice::UseLegacy);
    assert_eq!(choose_entry(false, false), RunChoice::NoEntry);
    assert_eq!(level_from_code(0), LogLevel::Debug);
    assert_eq!(level_from_code(3), LogLevel::Error);
    assert_eq!(level_from_code(9), LogLevel::Info);
    assert_eq!(level_code(LogLevel::Warn), 2);
}

#[test]
fn db_config_prefers_arguments_then_environment() {
    let c = DbConfig::from_args(Some("postgres"), None, Some("mysql"), Some("url-from-env"));
    assert_eq!(c.db_type, "postgres");
    assert_eq!(c.url, "url-from-env");
    let d = DbConfig::from_args(None, None, None, None);
    assert_eq!(d.db_type, "sqlite");
    assert_eq!(d.url, "sqlite://database/monitor_ai.db");
}

#[test]
fn http_plans_substitute_url_headers_and_body() {
    let n = node(
        "read",
        "http",
        obj(vec![
            ("method", s("POST")),
            ("url", s("http://host/{{path}}")),
            ("headers", obj(vec![
                ("Authorization", s("Bearer {{token}}")),
                ("X-Flag", JsonValue::Bool(true)),
            ])),
            ("body", s("{\"q\":\"{{token}}\"}")),
        ]),
    );
    let mut vars = StrMap::new();
    vars.insert("token".to_string(), "T".to_string());
    vars.insert("path".to_string(), "me".to_string());
    let plan = build_http_plan(&n, &vars);
    assert_eq!(plan.method, HttpMethod::Post);
    assert_eq!(plan.url, "http://host/me");
    assert_eq!(plan.headers.len(), 1);
    assert_eq!(plan.headers[0].0, "Authorization");
    assert_eq!(plan.headers[0].1, "Bearer T");
    assert_eq!(plan.body.as_deref(), Some("{\"q\":\"T\"}"));
}

#[test]
fn http_plans_send_non_string_bodies_as_json() {
    let n = node(
        "push",
        "http",
        obj(vec![
            ("url", s("http://host/x")),
            ("body", obj(vec![("a", JsonValue::Num("1".to_string()))])),
        ]),
    );
    let plan = build_http_plan(&n, &StrMap::new());
    assert_eq!(plan.method, HttpMethod::Get);
    assert_eq!(plan.body.as_deref(), Some("{\"a\":1}"));
}
