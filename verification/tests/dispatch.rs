use fleet_query::disk::Disk;
use fleet_query::docker::Docker;
use fleet_query::hostname::Hostname;
use fleet_query::ip::{Address, Ip, Link, Route};
use fleet_query::dispatch::{
    DispatchAction, DispatchError, DispatchEvent, DispatchState, Dispatcher, QueryRequest,
};
use fleet_query::encoding::encode_request_body;
use fleet_query::endpoint::Endpoint;
use fleet_query::query::{validate_query, verify_query, SyntaxDiagnostic};
use fleet_query::schema::{Adapter, Query};

fn request(query: &str, hosts: &[&str]) -> QueryRequest {
    QueryRequest {
        query: query.to_string(),
        endpoints: hosts.iter().map(|h| Endpoint { host: h.to_string() }).collect(),
    }
}

fn send(endpoint: usize, host: &str, query: &str) -> DispatchAction {
    DispatchAction::Send {
        endpoint,
        url: format!("http://{}:4807/graphql", host),
        body: encode_request_body(query),
    }
}

fn diagnostic() -> SyntaxDiagnostic {
    SyntaxDiagnostic { offset: 2, length: 1, message: "expected a Name".to_string() }
}

#[test]
fn body_is_the_query_as_a_json_document() {
    assert_eq!(encode_request_body("{ hostname { name } }"), "{\"query\":\"{ hostname { name } }\"}");
    assert_eq!(encode_request_body(""), "{\"query\":\"\"}");
    assert_eq!(
        encode_request_body("{ a(x: \"q\\z\") }"),
        "{\"query\":\"{ a(x: \\\"q\\\\z\\\") }\"}"
    );
    assert_eq!(
        encode_request_body("a\nb\rc\td\u{8}e\u{c}f\u{0}g\u{1f}h\u{7f}\u{e9}\u{1f600}/"),
        "{\"query\":\"a\\nb\\rc\\td\\be\\ff\\u0000g\\u001fh\u{7f}\u{e9}\u{1f600}/\"}"
    );
}

#[test]
fn body_reads_back_as_the_query() {
    let queries = [
        "{ hostname { name } }",
        "{ disk { usage(path: \"/var/lib\") { usePercent } } }",
        "\"\\\"\\\\\n\r\t\u{0}\u{1}\u{b}\u{1f} \u{2028}\u{ffff}\u{10ffff}",
        "",
    ];
    for query in queries {
        let body = encode_request_body(query);
        let value: serde_json::Value = serde_json::from_str(&body).unwrap();
        let object = value.as_object().unwrap();
        assert_eq!(object.len(), 1);
        assert_eq!(object.get("query").and_then(|q| q.as_str()), Some(query));
        let mut members = serde_json::Map::new();
        members.insert("query".to_string(), serde_json::Value::String(query.to_string()));
        assert_eq!(body, serde_json::to_string(&serde_json::Value::Object(members)).unwrap());
    }
}

#[test]
fn valid_query_is_sent_to_every_endpoint_in_order() {
    let query = "{ hostname { name } }";
    let mut machine = Dispatcher::new(request(query, &["10.0.0.1", "10.0.0.2", "db01"]));
    assert_eq!(machine.state(), DispatchState::Idle);
    assert_eq!(machine.exit_code(), None);
    assert_eq!(machine.validate(), DispatchAction::Ready);
    assert_eq!(machine.state(), DispatchState::Validated);
    assert_eq!(machine.step(DispatchEvent::Begin), send(0, "10.0.0.1", query));
    assert_eq!(machine.state(), DispatchState::Dispatching { next: 0 });
    assert_eq!(
        machine.step(DispatchEvent::Response("one".to_string())),
        send(1, "10.0.0.2", query)
    );
    assert_eq!(machine.state(), DispatchState::Dispatching { next: 1 });
    assert_eq!(
        machine.step(DispatchEvent::Response("two".to_string())),
        send(2, "db01", query)
    );
    assert_eq!(machine.exit_code(), None);
    assert_eq!(
        machine.step(DispatchEvent::Response("three".to_string())),
        DispatchAction::Finish
    );
    assert_eq!(machine.state(), DispatchState::Done);
    assert_eq!(machine.exit_code(), Some(0));
    assert_eq!(
        machine.responses(),
        &vec!["one".to_string(), "two".to_string(), "three".to_string()]
    );
    assert_eq!(machine.request().query, query);
}

#[test]
fn invalid_query_aborts_before_anything_is_sent() {
    let mut machine = Dispatcher::new(request("{ hostname { name }", &["10.0.0.1"]));
    let action = machine.validate();
    match action {
        DispatchAction::Abort(DispatchError::InvalidQuery(errors)) => {
            assert!(!errors.is_empty());
            assert_eq!(errors, validate_query("{ hostname { name }"));
        }
        other => panic!("unexpected action: {:?}", other),
    }
    assert_eq!(machine.state(), DispatchState::Aborted);
    assert_eq!(machine.exit_code(), Some(1));
    assert_eq!(machine.step(DispatchEvent::Begin), DispatchAction::Rejected);
    assert_eq!(
        machine.step(DispatchEvent::Response("late".to_string())),
        DispatchAction::Rejected
    );
    assert_eq!(machine.state(), DispatchState::Aborted);
    assert_eq!(machine.responses(), &Vec::<String>::new());
}

#[test]
fn diagnostics_handed_in_decide_as_validation_does() {
    let mut machine = Dispatcher::new(request("anything", &["h"]));
    assert_eq!(
        machine.step(DispatchEvent::Validation(vec![diagnostic()])),
        DispatchAction::Abort(DispatchError::InvalidQuery(vec![diagnostic()]))
    );
    assert_eq!(machine.state(), DispatchState::Aborted);
    let mut machine = Dispatcher::new(request("anything", &["h"]));
    assert_eq!(machine.step(DispatchEvent::Validation(vec![])), DispatchAction::Ready);
    assert_eq!(machine.state(), DispatchState::Validated);
}

#[test]
fn transport_failure_ends_the_broadcast() {
    let query = "{ docker { ps { names } } }";
    let mut machine = Dispatcher::new(request(query, &["a", "b", "c"]));
    assert_eq!(machine.step(DispatchEvent::Validation(vec![])), DispatchAction::Ready);
    assert_eq!(machine.step(DispatchEvent::Begin), send(0, "a", query));
    assert_eq!(
        machine.step(DispatchEvent::Response("first".to_string())),
        send(1, "b", query)
    );
    assert_eq!(
        machine.step(DispatchEvent::TransportFailure("connection refused".to_string())),
        DispatchAction::Abort(DispatchError::Transport {
            endpoint: 1,
            message: "connection refused".to_string(),
        })
    );
    assert_eq!(machine.state(), DispatchState::Aborted);
    assert_eq!(machine.exit_code(), Some(1));
    assert_eq!(
        machine.step(DispatchEvent::Response("second".to_string())),
        DispatchAction::Rejected
    );
    assert_eq!(machine.step(DispatchEvent::Begin), DispatchAction::Rejected);
    assert_eq!(machine.responses(), &vec!["first".to_string()]);
}

#[test]
fn broadcast_to_no_endpoint_is_done_at_once() {
    let mut machine = Dispatcher::new(request("{ hostname { name } }", &[]));
    assert_eq!(machine.validate(), DispatchAction::Ready);
    assert_eq!(machine.step(DispatchEvent::Begin), DispatchAction::Finish);
    assert_eq!(machine.state(), DispatchState::Done);
    assert_eq!(machine.exit_code(), Some(0));
    assert_eq!(
        machine.step(DispatchEvent::Validation(vec![])),
        DispatchAction::Rejected
    );
    assert_eq!(machine.state(), DispatchState::Done);
}

#[test]
fn events_that_are_not_awaited_change_nothing() {
    let mut machine = Dispatcher::new(request("{ a }", &["h"]));
    assert_eq!(machine.step(DispatchEvent::Begin), DispatchAction::Rejected);
    assert_eq!(
        machine.step(DispatchEvent::Response("x".to_string())),
        DispatchAction::Rejected
    );
    assert_eq!(
        machine.step(DispatchEvent::TransportFailure("x".to_string())),
        DispatchAction::Rejected
    );
    assert_eq!(machine.state(), DispatchState::Idle);
    assert_eq!(machine.step(DispatchEvent::Validation(vec![])), DispatchAction::Ready);
    assert_eq!(
        machine.step(DispatchEvent::Validation(vec![diagnostic()])),
        DispatchAction::Rejected
    );
    assert_eq!(
        machine.step(DispatchEvent::Response("x".to_string())),
        DispatchAction::Rejected
    );
    assert_eq!(machine.state(), DispatchState::Validated);
    assert_eq!(machine.step(DispatchEvent::Begin), send(0, "h", "{ a }"));
    assert_eq!(machine.step(DispatchEvent::Begin), DispatchAction::Rejected);
    assert_eq!(
        machine.step(DispatchEvent::Validation(vec![])),
        DispatchAction::Rejected
    );
    assert_eq!(machine.state(), DispatchState::Dispatching { next: 0 });
    assert_eq!(machine.responses(), &Vec::<String>::new());
}

#[test]
fn well_formed_queries_verify() {
    assert!(verify_query("{ hostname { name } }".to_string()));
    assert!(verify_query(
        "query Fleet { ip { route { list { dst dev } } } disk { usage(path: \"/\") { size } } }"
            .to_string()
    ));
    assert_eq!(validate_query("{ hostname { name } }"), vec![]);
}

#[test]
fn malformed_queries_do_not_verify() {
    assert!(!verify_query("{ hostname { name }".to_string()));
    assert!(!verify_query("{ hostname { } }".to_string()));
    assert!(!verify_query("hostname }".to_string()));
    assert!(!verify_query("{ disk(path: ) }".to_string()));
}

#[test]
fn syntax_errors_are_those_of_the_parser() {
    let query = "{ hostname { name } ";
    let tree = apollo_parser::Parser::new(query).parse();
    let expected: Vec<SyntaxDiagnostic> = tree
        .errors()
        .map(|e| SyntaxDiagnostic {
            offset: e.index(),
            length: e.data().len(),
            message: e.message().to_string(),
        })
        .collect();
    assert!(!expected.is_empty());
    assert_eq!(validate_query(query), expected);
    for error in validate_query(query) {
        assert!(error.offset <= query.len());
        assert!(!error.message.is_empty());
    }
}

#[test]
fn registry_knows_the_six_capabilities() {
    assert_eq!(Query.adapter("hostname"), Some(Adapter::Hostname(Hostname)));
    assert_eq!(Query.adapter("disk"), Some(Adapter::Disk(Disk)));
    assert_eq!(Query.adapter("docker"), Some(Adapter::Docker(Docker)));
    assert_eq!(Query.adapter("ip.route"), Some(Adapter::Route(Route)));
    assert_eq!(Query.adapter("ip.address"), Some(Adapter::Address(Address)));
    assert_eq!(Query.adapter("ip.link"), Some(Adapter::Link(Link)));
    assert_eq!(Query.hostname(), Hostname);
    assert_eq!(Query.disk(), Disk);
    assert_eq!(Query.docker(), Docker);
    assert_eq!(Query.ip(), Ip);
}

#[test]
fn registry_knows_no_other_name() {
    for name in ["", "ip", "ip.", "ip.routes", "Hostname", "hostname ", "dockerd", "disk\n", "uptime"] {
        assert_eq!(Query.adapter(name), None);
    }
}

#[test]
fn response_that_carries_field_errors_completes_the_broadcast() {
    let query = "{ hostname { name } docker { ps { names } } }";
    let body = "{\"data\":{\"hostname\":{\"name\":\"node-17\"},\"docker\":{\"ps\":null}},\"errors\":[{\"message\":\"permission denied\",\"path\":[\"docker\",\"ps\"]}]}";
    let mut machine = Dispatcher::new(request(query, &["10.0.0.1"]));
    assert_eq!(machine.validate(), DispatchAction::Ready);
    assert_eq!(machine.step(DispatchEvent::Begin), send(0, "10.0.0.1", query));
    assert_eq!(
        machine.step(DispatchEvent::Response(body.to_string())),
        DispatchAction::Finish
    );
    assert_eq!(machine.state(), DispatchState::Done);
    assert_eq!(machine.exit_code(), Some(0));
    assert_eq!(machine.responses(), &vec![body.to_string()]);
}
