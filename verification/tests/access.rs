use content_engine::access::{AccessDecision, Permission, SessionDecision};
use content_engine::service::{CreateService, Role};
use content_engine::store::{Service, Store};

fn service_store() -> (Store, String, String) {
    let mut store = Store::new();
    let (service_id, api_key) = store
        .create_service(CreateService { name: "tenant".to_string() })
        .expect("service creation should succeed");
    (store, service_id, api_key)
}

fn status(d: &AccessDecision) -> u16 {
    d.status_code()
}

#[test]
fn forbidden_when_key_absent_empty_or_wrong() {
    let (store, sid, key) = service_store();
    for method in ["POST", "GET", "PUT", "PATCH", "DELETE"] {
        let m = method.to_string();
        assert_eq!(status(&store.validate_api_key(&sid, None, &m)), 403);
        let empty = String::new();
        assert_eq!(status(&store.validate_api_key(&sid, Some(&empty), &m)), 403);
        let wrong = format!("{}x", key);
        assert_eq!(status(&store.validate_api_key(&sid, Some(&wrong), &m)), 403);
    }
}

#[test]
fn forwarded_with_correct_key_and_granted_permission() {
    let (store, sid, key) = service_store();
    for method in ["POST", "GET", "PUT", "PATCH", "DELETE"] {
        let m = method.to_string();
        match store.validate_api_key(&sid, Some(&key), &m) {
            AccessDecision::Forward => {},
            _ => panic!("the admin role grants every permission, {} should pass", method),
        }
    }
}

#[test]
fn forbidden_when_no_role_grants_the_permission() {
    let mut store = Store::new();
    store.services.push(Service {
        id: "svc0000000000001".to_string(),
        name: "bare".to_string(),
        api_key: "k".repeat(32),
    });
    let sid = "svc0000000000001".to_string();
    let key = "k".repeat(32);
    for method in ["POST", "GET", "PUT", "PATCH", "DELETE"] {
        let m = method.to_string();
        assert_eq!(status(&store.validate_api_key(&sid, Some(&key), &m)), 403);
    }
    let role = Role { name: "reader".to_string(), permissions: vec![Permission::Get] };
    store.create_role(&sid, &role).expect("role creation should succeed");
    match store.validate_api_key(&sid, Some(&key), &"GET".to_string()) {
        AccessDecision::Forward => {},
        _ => panic!("GET is granted by the reader role"),
    }
    assert_eq!(status(&store.validate_api_key(&sid, Some(&key), &"DELETE".to_string())), 403);
}

#[test]
fn unknown_service_is_bad_request() {
    let store = Store::new();
    let sid = "missing".to_string();
    let key = "whatever".to_string();
    assert_eq!(status(&store.validate_api_key(&sid, Some(&key), &"GET".to_string())), 400);
}

#[test]
fn unknown_verb_is_forbidden() {
    let (store, sid, key) = service_store();
    assert_eq!(status(&store.validate_api_key(&sid, Some(&key), &"OPTIONS".to_string())), 403);
}

#[test]
fn permission_names() {
    assert_eq!(Permission::Post.as_str(), "Post");
    assert_eq!(Permission::Get.as_str(), "Get");
    assert_eq!(Permission::Put.as_str(), "Put");
    assert_eq!(Permission::Patch.as_str(), "Patch");
    assert_eq!(Permission::Delete.as_str(), "Delete");
}

#[test]
fn verb_maps_to_permission() {
    assert_eq!(Permission::from_method(&"POST".to_string()), Some(Permission::Post));
    assert_eq!(Permission::from_method(&"GET".to_string()), Some(Permission::Get));
    assert_eq!(Permission::from_method(&"PUT".to_string()), Some(Permission::Put));
    assert_eq!(Permission::from_method(&"PATCH".to_string()), Some(Permission::Patch));
    assert_eq!(Permission::from_method(&"DELETE".to_string()), Some(Permission::Delete));
    assert_eq!(Permission::from_method(&"OPTIONS".to_string()), None);
    assert_eq!(Permission::from_method(&"get".to_string()), None);
}

#[test]
fn session_gate_needs_a_live_token() {
    let store = Store::new();
    match store.auth_check(None) {
        SessionDecision::Forbidden => {},
        _ => panic!("no cookie must be refused"),
    }
    let stale = "123".to_string();
    match store.auth_check(Some(&stale)) {
        SessionDecision::Forbidden => {},
        _ => panic!("an unknown token must be refused"),
    }
}
