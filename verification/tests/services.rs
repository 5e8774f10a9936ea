use content_engine::access::{AccessDecision, Permission};
use content_engine::content::{NewContentItem, NewContentType, NewField};
use content_engine::json::{Document, JsonValue};
use content_engine::schema::FieldType;
use content_engine::service::{CreateService, Role, ServiceError};
use content_engine::store::Store;
use std::collections::HashSet;

#[test]
fn service_ids_and_keys_are_fresh_alphanumeric() {
    let mut store = Store::new();
    let mut seen: HashSet<String> = HashSet::new();
    for i in 0..1000 {
        let (service_id, api_key) = store
            .create_service(CreateService { name: format!("svc{}", i) })
            .expect("service creation should succeed");
        assert_eq!(service_id.chars().count(), 16);
        assert_eq!(api_key.chars().count(), 32);
        assert!(service_id.chars().all(|c| c.is_ascii_alphanumeric()));
        assert!(api_key.chars().all(|c| c.is_ascii_alphanumeric()));
        assert!(seen.insert(service_id), "service ids must not collide");
        assert!(seen.insert(api_key), "api keys must not collide");
    }
}

#[test]
fn create_role_returns_a_key_for_an_existing_service() {
    let mut store = Store::new();
    let (sid, _key) = store
        .create_service(CreateService { name: "tenant".to_string() })
        .expect("service creation should succeed");
    let role = Role { name: "writer".to_string(), permissions: vec![Permission::Post] };
    let role_key = store.create_role(&sid, &role).expect("role creation should succeed");
    assert_eq!(role_key.chars().count(), 32);
    assert!(role_key.chars().all(|c| c.is_ascii_alphanumeric()));

    match store.create_role(&"missing".to_string(), &role) {
        Err(ServiceError::UnknownService) => {},
        _ => panic!("a role needs an existing service"),
    }
}

#[test]
fn delete_service_cascades_to_everything_it_owns() {
    let mut store = Store::new();
    let (sid, key) = store
        .create_service(CreateService { name: "tenant".to_string() })
        .expect("service creation should succeed");
    let ct = store
        .create_content_type(&sid, NewContentType { name: "Article".to_string() })
        .expect("content type creation should succeed");
    store
        .create_field(
            ct,
            NewField {
                display_name: "title".to_string(),
                field_type: FieldType::Text,
                required: true,
            },
        )
        .expect("field creation should succeed");
    let mut doc = Document::new();
    doc.insert("title".to_string(), JsonValue::String("post".to_string()));
    let item = store
        .create_content_item(ct, &NewContentItem { data: doc })
        .expect("item creation should succeed");

    assert!(store.delete_service(&sid));

    assert!(store.get_content_type(ct).is_none());
    assert!(store.get_content_item(item).is_none());
    assert_eq!(store.validate_api_key(&sid, Some(&key), &"GET".to_string()).status_code(), 400);
    assert!(!store.delete_service(&sid));
}

#[test]
fn a_taken_service_id_is_a_storage_conflict() {
    let mut store = Store::new();
    store
        .insert_service_with_ids(
            "first".to_string(),
            "samesameid0000ab".to_string(),
            "k".repeat(32),
        )
        .expect("a fresh id should be accepted");
    match store.insert_service_with_ids(
        "second".to_string(),
        "samesameid0000ab".to_string(),
        "x".repeat(32),
    ) {
        Err(e @ ServiceError::Storage) => assert_eq!(e.status_code(), 500),
        _ => panic!("a taken service id must be refused"),
    }
}

#[test]
fn a_taken_api_key_is_a_storage_conflict() {
    let mut store = Store::new();
    store
        .insert_service_with_ids(
            "first".to_string(),
            "firstserviceidab".to_string(),
            "k".repeat(32),
        )
        .expect("a fresh id and key should be accepted");
    match store.insert_service_with_ids(
        "second".to_string(),
        "otherserviceidab".to_string(),
        "k".repeat(32),
    ) {
        Err(ServiceError::Storage) => {},
        _ => panic!("a taken api key must be refused"),
    }
}

#[test]
fn deleting_a_missing_service_changes_nothing() {
    let mut store = Store::new();
    let (sid, key) = store
        .create_service(CreateService { name: "tenant".to_string() })
        .expect("service creation should succeed");
    assert!(!store.delete_service(&"missing".to_string()));
    match store.validate_api_key(&sid, Some(&key), &"GET".to_string()) {
        AccessDecision::Forward => {},
        _ => panic!("the tenant must be untouched by a missed delete"),
    }
}

#[test]
fn deleting_one_service_leaves_another_intact() {
    let mut store = Store::new();
    let (sid_a, _) = store
        .create_service(CreateService { name: "a".to_string() })
        .expect("service creation should succeed");
    let (sid_b, key_b) = store
        .create_service(CreateService { name: "b".to_string() })
        .expect("service creation should succeed");
    let ct_b = store
        .create_content_type(&sid_b, NewContentType { name: "Note".to_string() })
        .expect("content type creation should succeed");

    assert!(store.delete_service(&sid_a));

    assert!(store.get_content_type(ct_b).is_some());
    match store.validate_api_key(&sid_b, Some(&key_b), &"GET".to_string()) {
        AccessDecision::Forward => {},
        _ => panic!("the other tenant must keep working"),
    }
}
