use spoof::matchers::{any, body_string_contains, method, path, query_param, Match};
use spoof::mock::{Mock, StubRegistry};
use spoof::request::{QueryParam, Request};
use spoof::response::MockResponseBuilder;

fn get(path: &str) -> Request {
    Request {
        method: String::from("GET"),
        path: String::from(path),
        query: vec![],
        headers: vec![],
        body: vec![],
    }
}

#[test]
fn first_registered_matching_stub_wins() {
    let mut registry = StubRegistry::new();
    let broad = Mock::stub_for(any())
        .respond(MockResponseBuilder::new().with_status_code(201).unwrap());
    let specific = Mock::stub_for(path("/users").unwrap())
        .and(method("GET").unwrap())
        .respond(MockResponseBuilder::new().with_status_code(202).unwrap());
    registry.register(broad);
    registry.register(specific);
    let hit = registry.evaluate(&get("/users")).unwrap();
    assert_eq!(hit, 0);
    assert_eq!(registry.stub_at(hit).response().effective_status(), 201);
}

#[test]
fn conjunction_requires_every_matcher() {
    let stub = Mock::stub_for(path("/users").unwrap())
        .and(method("POST").unwrap())
        .and(body_string_contains("name"))
        .respond(MockResponseBuilder::new());
    let mut req = Request {
        method: String::from("POST"),
        path: String::from("/users"),
        query: vec![],
        headers: vec![],
        body: b"{\"name\": \"x\"}".to_vec(),
    };
    assert!(stub.matches(&req));
    req.method = String::from("GET");
    assert!(!stub.matches(&req));
}

#[test]
fn no_match_is_a_valid_outcome() {
    let mut registry = StubRegistry::new();
    registry.register(
        Mock::stub_for(path("/a").unwrap()).respond(MockResponseBuilder::new()),
    );
    assert!(registry.evaluate(&get("/b")).is_none());
    assert_eq!(registry.len(), 1);
}

#[test]
fn evaluation_skips_non_matching_earlier_stubs() {
    let mut registry = StubRegistry::new();
    registry.register(
        Mock::stub_for(path("/a").unwrap()).respond(
            MockResponseBuilder::new().with_status_code(500).unwrap(),
        ),
    );
    registry.register(
        Mock::stub_for(path("/b").unwrap())
            .and(query_param("x", "1"))
            .respond(MockResponseBuilder::new().with_status_code(200).unwrap()),
    );
    let req = Request {
        method: String::from("GET"),
        path: String::from("/b"),
        query: vec![QueryParam { key: String::from("x"), value: String::from("1") }],
        headers: vec![],
        body: vec![],
    };
    assert_eq!(registry.evaluate(&req), Some(1));
}
