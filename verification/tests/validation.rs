use content_engine::content::{ContentError, NewContentItem, NewContentType, NewField};
use content_engine::json::{Document, JsonValue};
use content_engine::schema::{Field, FieldType};
use content_engine::service::CreateService;
use content_engine::store::Store;
use content_engine::validate::{validate_document, ValidationError};

fn text_field(display_id: &str, required: bool) -> Field {
    Field {
        id: 0,
        content_type_id: 0,
        display_id: display_id.to_string(),
        field_type: FieldType::Text,
        required,
    }
}

fn number_field(display_id: &str, required: bool) -> Field {
    Field {
        id: 1,
        content_type_id: 0,
        display_id: display_id.to_string(),
        field_type: FieldType::Number,
        required,
    }
}

fn field_of(ft: FieldType) -> Field {
    Field {
        id: 2,
        content_type_id: 0,
        display_id: "f".to_string(),
        field_type: ft,
        required: false,
    }
}

#[test]
fn number_accepts_only_json_numbers() {
    let f = field_of(FieldType::Number);
    assert!(f.field_type_matches(&JsonValue::Number("100".to_string())));
    assert!(f.field_type_matches(&JsonValue::Number("-3.25".to_string())));
    assert!(!f.field_type_matches(&JsonValue::String("100".to_string())));
    assert!(!f.field_type_matches(&JsonValue::Bool(true)));
    assert!(!f.field_type_matches(&JsonValue::Null));
}

#[test]
fn text_accepts_only_strings() {
    let f = field_of(FieldType::Text);
    assert!(f.field_type_matches(&JsonValue::String("hello".to_string())));
    assert!(f.field_type_matches(&JsonValue::String(String::new())));
    assert!(!f.field_type_matches(&JsonValue::Number("1".to_string())));
    assert!(!f.field_type_matches(&JsonValue::Bool(false)));
    assert!(!f.field_type_matches(&JsonValue::Array(Vec::new())));
}

#[test]
fn boolean_accepts_only_booleans() {
    let f = field_of(FieldType::Boolean);
    assert!(f.field_type_matches(&JsonValue::Bool(true)));
    assert!(f.field_type_matches(&JsonValue::Bool(false)));
    assert!(!f.field_type_matches(&JsonValue::String("true".to_string())));
    assert!(!f.field_type_matches(&JsonValue::Number("1".to_string())));
}

#[test]
fn date_requires_full_rfc3339() {
    let f = field_of(FieldType::Date);
    assert!(f.field_type_matches(&JsonValue::String("2024-01-01T10:00:00+09:00".to_string())));
    assert!(f.field_type_matches(&JsonValue::String("2024-01-01T10:00:00Z".to_string())));
    assert!(!f.field_type_matches(&JsonValue::String("2024-01-01".to_string())));
    assert!(!f.field_type_matches(&JsonValue::String("not a date".to_string())));
    assert!(!f.field_type_matches(&JsonValue::Number("20240101".to_string())));
}

#[test]
fn field_type_names_round_trip() {
    for ft in [FieldType::Text, FieldType::Number, FieldType::Date, FieldType::Boolean] {
        let name = ft.as_str().to_string();
        assert_eq!(FieldType::from_str(&name), Some(ft));
    }
    assert_eq!(FieldType::from_str(&"text".to_string()), None);
    assert_eq!(FieldType::from_str(&"".to_string()), None);
}

#[test]
fn validation_filters_unknown_keys() {
    let fields = vec![text_field("title", true), number_field("views", false)];
    let mut doc = Document::new();
    doc.insert("title".to_string(), JsonValue::String("Hi".to_string()));
    doc.insert("views".to_string(), JsonValue::Number("3".to_string()));
    doc.insert("extra".to_string(), JsonValue::Bool(true));
    let out = validate_document(&fields, &doc).expect("document should validate");
    match out.get(&"title".to_string()) {
        Some(JsonValue::String(s)) => assert_eq!(s, "Hi"),
        _ => panic!("title missing or not a string"),
    }
    match out.get(&"views".to_string()) {
        Some(JsonValue::Number(n)) => assert_eq!(n, "3"),
        _ => panic!("views missing or not a number"),
    }
    assert!(out.get(&"extra".to_string()).is_none());
}

#[test]
fn validation_reports_first_failure_in_schema_order() {
    let fields = vec![text_field("title", true), number_field("views", false)];
    let mut doc = Document::new();
    doc.insert("title".to_string(), JsonValue::Number("1".to_string()));
    doc.insert("views".to_string(), JsonValue::String("x".to_string()));
    match validate_document(&fields, &doc) {
        Err(ValidationError::TypeMismatch(d)) => assert_eq!(d, "title"),
        _ => panic!("expected a type mismatch on the first field"),
    }
}

#[test]
fn validation_requires_required_fields() {
    let fields = vec![text_field("title", true), number_field("views", false)];
    let mut doc = Document::new();
    doc.insert("views".to_string(), JsonValue::Number("100".to_string()));
    match validate_document(&fields, &doc) {
        Err(ValidationError::MissingRequiredField(d)) => assert_eq!(d, "title"),
        _ => panic!("expected the required field to be reported missing"),
    }
}

#[test]
fn validating_a_valid_document_again_returns_it_unchanged() {
    let fields = vec![text_field("title", true), number_field("views", false)];
    let mut doc = Document::new();
    doc.insert("title".to_string(), JsonValue::String("Hello".to_string()));
    doc.insert("views".to_string(), JsonValue::Number("7".to_string()));
    let once = validate_document(&fields, &doc).expect("first pass should validate");
    let twice = validate_document(&fields, &once).expect("second pass should validate");
    for key in ["title", "views"] {
        let a = once.get(&key.to_string());
        let b = twice.get(&key.to_string());
        match (a, b) {
            (Some(JsonValue::String(x)), Some(JsonValue::String(y))) => assert_eq!(x, y),
            (Some(JsonValue::Number(x)), Some(JsonValue::Number(y))) => assert_eq!(x, y),
            _ => panic!("documents differ at {}", key),
        }
    }
    assert!(twice.get(&"extra".to_string()).is_none());
}

#[test]
fn empty_schema_accepts_and_drops_everything() {
    let fields: Vec<Field> = Vec::new();
    let mut doc = Document::new();
    doc.insert("anything".to_string(), JsonValue::Bool(true));
    let out = validate_document(&fields, &doc).expect("empty schema accepts any document");
    assert!(out.get(&"anything".to_string()).is_none());
    assert!(out.is_empty());
}

fn article_store() -> (Store, String, u64) {
    let mut store = Store::new();
    let (service_id, _key) = store
        .create_service(CreateService { name: "blog".to_string() })
        .expect("service creation should succeed");
    let ct = store
        .create_content_type(&service_id, NewContentType { name: "Article".to_string() })
        .expect("content type creation should succeed");
    store
        .create_field(
            ct,
            NewField {
                display_name: "title".to_string(),
                field_type: FieldType::Text,
                required: true,
            },
        )
        .expect("field creation should succeed");
    store
        .create_field(
            ct,
            NewField {
                display_name: "views".to_string(),
                field_type: FieldType::Number,
                required: false,
            },
        )
        .expect("field creation should succeed");
    (store, service_id, ct)
}

#[test]
fn article_scenario() {
    let (mut store, _sid, ct) = article_store();

    let mut doc = Document::new();
    doc.insert("title".to_string(), JsonValue::String("Hello".to_string()));
    let id = store
        .create_content_item(ct, &NewContentItem { data: doc })
        .expect("valid document should be stored");
    let item = store.get_content_item(id).expect("stored item should be found");
    match item.data.get(&"title".to_string()) {
        Some(JsonValue::String(s)) => assert_eq!(s, "Hello"),
        _ => panic!("title missing"),
    }

    let mut doc = Document::new();
    doc.insert("views".to_string(), JsonValue::String("100".to_string()));
    match store.create_content_item(ct, &NewContentItem { data: doc }) {
        Err(ContentError::Validation(ValidationError::MissingRequiredField(d))) => {
            assert_eq!(d, "title")
        },
        _ => panic!("expected the missing title to be reported"),
    }

    let mut doc = Document::new();
    doc.insert("title".to_string(), JsonValue::String("Hi".to_string()));
    doc.insert("views".to_string(), JsonValue::Number("3".to_string()));
    doc.insert("extra".to_string(), JsonValue::Bool(true));
    let id = store
        .create_content_item(ct, &NewContentItem { data: doc })
        .expect("valid document should be stored");
    let item = store.get_content_item(id).expect("stored item should be found");
    match item.data.get(&"title".to_string()) {
        Some(JsonValue::String(s)) => assert_eq!(s, "Hi"),
        _ => panic!("title missing"),
    }
    match item.data.get(&"views".to_string()) {
        Some(JsonValue::Number(n)) => assert_eq!(n, "3"),
        _ => panic!("views missing"),
    }
    assert!(item.data.get(&"extra".to_string()).is_none());
}

#[test]
fn round_trip_returns_filtered_document() {
    let (mut store, _sid, ct) = article_store();
    let mut doc = Document::new();
    doc.insert("title".to_string(), JsonValue::String("Post".to_string()));
    doc.insert("junk".to_string(), JsonValue::Null);
    let id = store
        .create_content_item(ct, &NewContentItem { data: doc })
        .expect("valid document should be stored");
    let fetched = store.get_content_item(id).expect("stored item should be found");
    assert_eq!(fetched.id, Some(id));
    match fetched.data.get(&"title".to_string()) {
        Some(JsonValue::String(s)) => assert_eq!(s, "Post"),
        _ => panic!("title missing"),
    }
    assert!(fetched.data.get(&"junk".to_string()).is_none());
}

#[test]
fn update_rejects_empty_document() {
    let (mut store, _sid, ct) = article_store();
    let mut doc = Document::new();
    doc.insert("title".to_string(), JsonValue::String("Post".to_string()));
    let id = store
        .create_content_item(ct, &NewContentItem { data: doc })
        .expect("valid document should be stored");
    let empty = content_engine::content::ContentItem { id: None, data: Document::new() };
    match store.update_content_item(id, &empty) {
        Err(e @ ContentError::EmptyDocument) => assert_eq!(e.status_code(), 400),
        _ => panic!("expected the empty update to be rejected"),
    }
}

#[test]
fn update_validates_and_replaces() {
    let (mut store, _sid, ct) = article_store();
    let mut doc = Document::new();
    doc.insert("title".to_string(), JsonValue::String("Old".to_string()));
    let id = store
        .create_content_item(ct, &NewContentItem { data: doc })
        .expect("valid document should be stored");

    let mut bad = Document::new();
    bad.insert("title".to_string(), JsonValue::Bool(true));
    let bad_item = content_engine::content::ContentItem { id: None, data: bad };
    match store.update_content_item(id, &bad_item) {
        Err(ContentError::Validation(ValidationError::TypeMismatch(d))) => assert_eq!(d, "title"),
        _ => panic!("expected the bad title to be rejected"),
    }

    let mut good = Document::new();
    good.insert("title".to_string(), JsonValue::String("New".to_string()));
    good.insert("extra".to_string(), JsonValue::Bool(true));
    let good_item = content_engine::content::ContentItem { id: None, data: good };
    store.update_content_item(id, &good_item).expect("valid update should succeed");
    let fetched = store.get_content_item(id).expect("stored item should be found");
    match fetched.data.get(&"title".to_string()) {
        Some(JsonValue::String(s)) => assert_eq!(s, "New"),
        _ => panic!("title missing after update"),
    }
    assert!(fetched.data.get(&"extra".to_string()).is_none());
}

#[test]
fn unknown_content_type_is_reported() {
    let mut store = Store::new();
    let mut doc = Document::new();
    doc.insert("title".to_string(), JsonValue::String("Hello".to_string()));
    match store.create_content_item(99, &NewContentItem { data: doc }) {
        Err(e @ ContentError::UnknownContentType) => assert_eq!(e.status_code(), 404),
        _ => panic!("expected the unknown content type to be reported"),
    }
    match store.update_content_item(7, &content_engine::content::ContentItem {
        id: None,
        data: {
            let mut d = Document::new();
            d.insert("x".to_string(), JsonValue::Null);
            d
        },
    }) {
        Err(ContentError::UnknownContentItem) => {},
        _ => panic!("expected the unknown content item to be reported"),
    }
}

#[test]
fn update_keeps_the_creation_time() {
    let (mut store, _sid, ct) = article_store();
    let mut doc = Document::new();
    doc.insert("title".to_string(), JsonValue::String("Old".to_string()));
    let id = store
        .create_content_item(ct, &NewContentItem { data: doc })
        .expect("valid document should be stored");
    assert_eq!(store.content_items[0].created_at, store.content_items[0].updated_at);
    let created = store.content_items[0].created_at;
    let mut new_doc = Document::new();
    new_doc.insert("title".to_string(), JsonValue::String("New".to_string()));
    store
        .update_content_item(id, &content_engine::content::ContentItem { id: None, data: new_doc })
        .expect("valid update should succeed");
    assert_eq!(store.content_items[0].created_at, created);
}

#[test]
fn a_taken_item_id_is_a_storage_conflict() {
    let (mut store, _sid, ct) = article_store();
    let mut doc = Document::new();
    doc.insert("title".to_string(), JsonValue::String("one".to_string()));
    store
        .insert_content_item_with_id(ct, 42, &doc)
        .expect("a fresh item id should be accepted");
    let mut doc2 = Document::new();
    doc2.insert("title".to_string(), JsonValue::String("two".to_string()));
    match store.insert_content_item_with_id(ct, 42, &doc2) {
        Err(e @ ContentError::Storage) => assert_eq!(e.status_code(), 500),
        _ => panic!("a taken item id must be refused"),
    }
}

#[test]
fn duplicate_display_id_is_rejected() {
    let (mut store, _sid, ct) = article_store();
    match store.create_field(
        ct,
        NewField {
            display_name: "title".to_string(),
            field_type: FieldType::Number,
            required: false,
        },
    ) {
        Err(ContentError::DuplicateField) => {},
        _ => panic!("expected the duplicate display id to be rejected"),
    }
}

#[test]
fn content_type_needs_an_existing_service() {
    let mut store = Store::new();
    match store.create_content_type(
        &"missing".to_string(),
        NewContentType { name: "Article".to_string() },
    ) {
        Err(e @ ContentError::UnknownService) => assert_eq!(e.status_code(), 404),
        _ => panic!("expected the unknown service to be reported"),
    }
}

#[test]
fn content_type_reports_its_schema() {
    let (store, _sid, ct) = article_store();
    let read = store.get_content_type(ct).expect("content type should be found");
    assert_eq!(read.id, ct);
    assert_eq!(read.name, "Article");
    assert_eq!(read.fields.len(), 2);
    assert_eq!(read.fields[0].display_id, "title");
    assert_eq!(read.fields[0].field_type, FieldType::Text);
    assert!(read.fields[0].required);
    assert_eq!(read.fields[1].display_id, "views");
    assert_eq!(read.fields[1].field_type, FieldType::Number);
    assert!(!read.fields[1].required);
    assert!(store.get_content_type(ct + 1).is_none());
}

#[test]
fn listing_returns_items_of_the_type() {
    let (mut store, _sid, ct) = article_store();
    for title in ["a", "b"] {
        let mut doc = Document::new();
        doc.insert("title".to_string(), JsonValue::String(title.to_string()));
        store
            .create_content_item(ct, &NewContentItem { data: doc })
            .expect("valid document should be stored");
    }
    let items = store.get_content_items(ct);
    assert_eq!(items.len(), 2);
    match items[0].data.get(&"title".to_string()) {
        Some(JsonValue::String(s)) => assert_eq!(s, "a"),
        _ => panic!("first item missing title"),
    }
    match items[1].data.get(&"title".to_string()) {
        Some(JsonValue::String(s)) => assert_eq!(s, "b"),
        _ => panic!("second item missing title"),
    }
}

#[test]
fn delete_content_item_removes_it() {
    let (mut store, _sid, ct) = article_store();
    let mut doc = Document::new();
    doc.insert("title".to_string(), JsonValue::String("gone".to_string()));
    let id = store
        .create_content_item(ct, &NewContentItem { data: doc })
        .expect("valid document should be stored");
    assert!(store.delete_content_item(id));
    assert!(store.get_content_item(id).is_none());
    assert!(!store.delete_content_item(id));
}
