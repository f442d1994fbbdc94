use hello_worlds::error::{ServiceError, StatusCode};
use hello_worlds::id::ID;
use hello_worlds::native::{deserialize, serialize, with_bson, NativeDocument, NativeValue};
use hello_worlds::pipeline::{
    collect_records, find_window, pipeline_step, stream, PipelineAction, PipelineEvent,
    PipelineState,
};
use hello_worlds::query::{build_query, check_limit, ListHelloWorldsRequest, Predicate};
use hello_worlds::record::{
    finish_create, from_document, prepare_create, to_document, HelloWorld,
};
use hello_worlds::time::{get_timestamp, Timestamp};
use hello_worlds::update::{apply_update, build_update, FieldMask, UpdateHelloWorldRequest};

fn pred_matches(p: &Predicate, r: &HelloWorld) -> bool {
    hello_worlds::query::matches(p, r)
}

fn record(id: &str, name: &str, description: &str, ty: i32, projects: &[&str]) -> HelloWorld {
    HelloWorld {
        id: id.to_string(),
        name: name.to_string(),
        description: description.to_string(),
        subtitle: String::new(),
        hello_world_type: ty,
        is_awesome: false,
        project_ids: projects.iter().map(|p| p.to_string()).collect(),
        created_at: None,
    }
}

fn list_request() -> ListHelloWorldsRequest {
    ListHelloWorldsRequest {
        start: 0,
        limit: 100,
        ignored_ids: Vec::new(),
        project_ids: Vec::new(),
        hello_world_types: Vec::new(),
        search_term: String::new(),
    }
}

fn update_request(id: &str, mask: Option<Vec<&str>>) -> UpdateHelloWorldRequest {
    UpdateHelloWorldRequest {
        id: id.to_string(),
        name: "new name".to_string(),
        description: "new description".to_string(),
        subtitle: "new subtitle".to_string(),
        project_ids: vec!["p9".to_string()],
        is_awesome: true,
        hello_world_type: 7,
        mask: mask.map(|paths| FieldMask {
            paths: paths.iter().map(|p| p.to_string()).collect(),
        }),
    }
}

// ------------------------------------------------------------------
// Identifier codec
// ------------------------------------------------------------------

#[test]
fn string_id_round_trips() {
    let id = ID::from_string("plain text id").unwrap();
    assert!(matches!(&id, ID::Str(s) if s == "plain text id"));
    assert_eq!(id.encode(), "plain text id");
}

#[test]
fn empty_id_decodes_as_empty_string_variant() {
    let id = ID::from_string("").unwrap();
    assert!(matches!(&id, ID::Str(s) if s.is_empty()));
    assert_eq!(id.encode(), "");
}

#[test]
fn object_id_round_trips() {
    let text = "$oid:0123456789abcdef01234567";
    let id = ID::from_string(text).unwrap();
    assert!(matches!(&id, ID::ObjectId(b) if b.len() == 12));
    assert_eq!(id.encode(), text);
}

#[test]
fn object_id_uppercase_is_accepted_and_lowered() {
    let id = ID::from_string("$oid:0123456789ABCDEF01234567").unwrap();
    assert_eq!(id.encode(), "$oid:0123456789abcdef01234567");
}

#[test]
fn integer_id_round_trips() {
    for text in ["$i:0", "$i:42", "$i:-42", "$i:9223372036854775807", "$i:-9223372036854775808"] {
        let id = ID::from_string(text).unwrap();
        assert!(matches!(id, ID::Int64(_)));
        assert_eq!(id.encode(), text);
    }
    assert!(matches!(ID::from_string("$i:-7").unwrap(), ID::Int64(-7)));
}

#[test]
fn value_side_round_trips() {
    let cases = vec![
        ID::ObjectId(vec![0, 1, 2, 3, 4, 5, 6, 7, 8, 9, 10, 255]),
        ID::Str("anything at all".to_string()),
        ID::Int64(-1234567890123),
    ];
    for id in cases {
        let back = ID::from_string(&id.encode()).unwrap();
        assert!(back.eq_id(&id));
    }
}

#[test]
fn oid_garbage_fails_with_parse_error() {
    for text in ["$oid:zz", "$oid:", "$oid:0123456789abcdef0123456", "$oid:0123456789abcdef012345678"] {
        match ID::from_string(text) {
            Err(ServiceError::ParseError(m)) => assert_eq!(m, "Unable to parse object id"),
            other => panic!("expected a parse error, got {:?}", other.is_ok()),
        }
    }
}

#[test]
fn integer_garbage_fails_with_parse_error() {
    for text in ["$i:", "$i:12x", "$i:one", "$i:+", "$i:-", "$i:9223372036854775808", "$i:-9223372036854775809"] {
        match ID::from_string(text) {
            Err(ServiceError::ParseError(m)) => assert_eq!(m, "Unable to parse integer id"),
            other => panic!("expected a parse error, got {:?}", other.is_ok()),
        }
    }
}

#[test]
fn native_conversions_round_trip() {
    let id = ID::from_string("$i:5").unwrap();
    let native = id.to_bson();
    assert!(matches!(native, NativeValue::Int64(5)));
    assert_eq!(with_bson(&native), "$i:5");

    let oid = ID::from_string("$oid:aaaaaaaaaaaaaaaaaaaaaaaa").unwrap();
    assert_eq!(with_bson(&oid.to_bson()), "$oid:aaaaaaaaaaaaaaaaaaaaaaaa");

    let s = ID::from_string("just text").unwrap();
    assert!(matches!(&s.to_bson(), NativeValue::Text(t) if t == "just text"));
}

#[test]
fn serialize_falls_back_to_text_on_malformed_marker() {
    assert!(matches!(serialize("$oid:short"), NativeValue::Text(t) if t == "$oid:short"));
    assert!(matches!(serialize("$i:ten"), NativeValue::Text(t) if t == "$i:ten"));
    assert!(matches!(serialize("$i:10"), NativeValue::Int64(10)));
}

#[test]
fn deserialize_rejects_non_id_shapes() {
    assert!(matches!(
        deserialize(&NativeValue::Boolean(true)),
        Err(ServiceError::ParseError(_))
    ));
    assert_eq!(deserialize(&NativeValue::Int64(3)).unwrap(), "$i:3");
}

// ------------------------------------------------------------------
// Errors and status classes
// ------------------------------------------------------------------

#[test]
fn errors_map_to_status_classes() {
    let cases = vec![
        (ServiceError::ParseError("p".to_string()), StatusCode::InvalidArgument),
        (ServiceError::NotFound("n".to_string()), StatusCode::NotFound),
        (ServiceError::Unknown("u".to_string()), StatusCode::Unknown),
        (ServiceError::InvalidCursor("c".to_string()), StatusCode::OutOfRange),
        (ServiceError::DatabaseError("d".to_string()), StatusCode::Internal),
        (ServiceError::ConnectionError("x".to_string()), StatusCode::Internal),
    ];
    for (err, code) in cases {
        let message = err.message();
        let status = err.to_status();
        assert_eq!(status.code, code);
        assert_eq!(status.message, message);
    }
}

#[test]
fn descriptions_and_conversions() {
    assert_eq!(
        ServiceError::InvalidCursor("tok".to_string()).description(),
        "Invalid cursor value"
    );
    assert_eq!(ServiceError::NotFound("gone".to_string()).description(), "gone");
    let err = ServiceError::from("something odd".to_string());
    assert!(matches!(&err, ServiceError::Unknown(m) if m == "something odd"));
}

// ------------------------------------------------------------------
// Query building and matching
// ------------------------------------------------------------------

#[test]
fn exclusion_set_never_matches_its_members() {
    let mut req = list_request();
    req.ignored_ids = vec!["$i:1".to_string(), "$i:2".to_string()];
    let p = build_query(&req);
    let a = record("$i:1", "a", "", 0, &[]);
    let b = record("$i:2", "b", "", 0, &[]);
    let c = record("$i:3", "c", "", 0, &[]);
    assert!(!pred_matches(&p, &a));
    assert!(!pred_matches(&p, &b));
    assert!(pred_matches(&p, &c));
}

#[test]
fn undecodable_excluded_id_is_dropped_not_fatal() {
    let mut req = list_request();
    req.ignored_ids = vec!["$oid:not-hex".to_string(), "$i:1".to_string()];
    let p = build_query(&req);
    assert_eq!(p.excluded_ids.len(), 1);
}

#[test]
fn inclusion_set_requires_a_common_project() {
    let mut req = list_request();
    req.project_ids = vec!["P1".to_string()];
    let p = build_query(&req);
    let with_p1 = record("$i:1", "a", "", 0, &["P0", "P1"]);
    let without = record("$i:2", "b", "", 0, &["P2"]);
    assert!(pred_matches(&p, &with_p1));
    assert!(!pred_matches(&p, &without));
}

#[test]
fn negative_type_sentinels_are_discarded() {
    let mut req = list_request();
    req.hello_world_types = vec![-1, 2, -3];
    let p = build_query(&req);
    assert_eq!(p.hello_world_types, vec![2]);
    assert!(pred_matches(&p, &record("$i:1", "a", "", 2, &[])));
    assert!(!pred_matches(&p, &record("$i:2", "b", "", 3, &[])));
}

#[test]
fn short_search_term_adds_no_clause() {
    let mut req = list_request();
    req.search_term = "a".to_string();
    let p = build_query(&req);
    assert!(p.search_term.is_none());
    assert!(pred_matches(&p, &record("$i:1", "zzz", "", 0, &[])));
}

#[test]
fn search_is_case_insensitive_substring() {
    let mut req = list_request();
    req.search_term = "ab".to_string();
    let p = build_query(&req);
    assert!(p.search_term.is_some());
    assert!(pred_matches(&p, &record("$i:1", "Abacus", "", 0, &[])));
    assert!(pred_matches(&p, &record("$i:2", "zzz", "drab text", 0, &[])));
    assert!(!pred_matches(&p, &record("$i:3", "zzz", "nothing here", 0, &[])));
}

// ------------------------------------------------------------------
// Field-mask updates
// ------------------------------------------------------------------

#[test]
fn mask_with_only_name_leaves_description_alone() {
    let req = update_request("$i:1", Some(vec!["name"]));
    let (doc, warnings) = build_update(&req);
    let doc = doc.unwrap();
    assert!(warnings.is_empty());
    let before = record("$i:1", "old name", "old description", 0, &[]);
    let after = apply_update(&doc, &before);
    assert_eq!(after.name, "new name");
    assert_eq!(after.description, "old description");
    assert_eq!(after.id, "$i:1");
}

#[test]
fn unrecognized_path_warns_and_does_nothing() {
    let req = update_request("$i:1", Some(vec!["frobnicate"]));
    let (doc, warnings) = build_update(&req);
    let doc = doc.unwrap();
    assert_eq!(warnings, vec!["frobnicate".to_string()]);
    assert!(doc.is_empty());
    let before = record("$i:1", "old name", "old description", 0, &[]);
    let after = apply_update(&doc, &before);
    assert_eq!(after.name, before.name);
    assert_eq!(after.description, before.description);
}

#[test]
fn absent_or_empty_mask_means_no_write() {
    let (doc, warnings) = build_update(&update_request("$i:1", None));
    assert!(doc.is_none());
    assert!(warnings.is_empty());
    let (doc, warnings) = build_update(&update_request("$i:1", Some(vec![])));
    assert!(doc.is_none());
    assert!(warnings.is_empty());
}

#[test]
fn every_recognized_path_is_applied() {
    let req = update_request(
        "$i:1",
        Some(vec!["name", "description", "subtitle", "project_ids", "is_awesome", "hello_world_type"]),
    );
    let (doc, warnings) = build_update(&req);
    assert!(warnings.is_empty());
    let after = apply_update(&doc.unwrap(), &record("$i:1", "o", "o", 0, &[]));
    assert_eq!(after.name, "new name");
    assert_eq!(after.description, "new description");
    assert_eq!(after.subtitle, "new subtitle");
    assert_eq!(after.project_ids, vec!["p9".to_string()]);
    assert!(after.is_awesome);
    assert_eq!(after.hello_world_type, 7);
}

// ------------------------------------------------------------------
// Streaming pipeline
// ------------------------------------------------------------------

#[test]
fn window_with_skip_and_limit_picks_the_middle() {
    let records: Vec<HelloWorld> = (1..=5)
        .map(|i| record(&format!("$i:{}", i), &format!("r{}", i), "", 0, &[]))
        .collect();
    let p = build_query(&list_request());
    let out = find_window(&records, &p, 1, 2);
    assert_eq!(out.len(), 2);
    assert_eq!(out[0].name, "r2");
    assert_eq!(out[1].name, "r3");
}

#[test]
fn one_malformed_document_is_dropped_silently() {
    let good1 = to_document(&record("$i:1", "a", "", 0, &[]));
    let mut bad = to_document(&record("$i:2", "b", "", 0, &[]));
    bad.fields.retain(|(k, _)| k != "name");
    let good2 = to_document(&record("$i:3", "c", "", 0, &[]));
    let items = vec![Ok(good1), Ok(bad), Ok(good2)];
    let out = collect_records(&items);
    assert_eq!(out.len(), 2);
    assert_eq!(out[0].name, "a");
    assert_eq!(out[1].name, "c");
    let streamed = stream(Ok(items));
    assert_eq!(streamed.len(), 2);
    assert!(streamed.iter().all(|r| r.is_ok()));
}

#[test]
fn cursor_open_failure_yields_exactly_one_error_item() {
    let out = stream(Err("socket torn".to_string()));
    assert_eq!(out.len(), 1);
    match &out[0] {
        Err(ServiceError::DatabaseError(m)) => assert_eq!(m, "socket torn"),
        _ => panic!("expected one database error item"),
    }
}

#[test]
fn pipeline_state_machine_follows_the_design() {
    let (s, a) = pipeline_step(PipelineState::OpenCursor, PipelineEvent::OpenFailed("down".to_string()));
    assert_eq!(s, PipelineState::Closed);
    assert!(matches!(a, PipelineAction::PublishError(ServiceError::DatabaseError(m)) if m == "down"));

    let (s, a) = pipeline_step(PipelineState::OpenCursor, PipelineEvent::Opened);
    assert_eq!(s, PipelineState::Iterate);
    assert!(matches!(a, PipelineAction::Continue));

    let good = to_document(&record("$i:1", "a", "", 0, &[]));
    let (s, a) = pipeline_step(PipelineState::Iterate, PipelineEvent::Fetched(Ok(good)));
    assert_eq!(s, PipelineState::Iterate);
    assert!(matches!(a, PipelineAction::Publish(r) if r.name == "a"));

    let (s, a) = pipeline_step(PipelineState::Iterate, PipelineEvent::Fetched(Err("lost".to_string())));
    assert_eq!(s, PipelineState::Iterate);
    assert!(matches!(a, PipelineAction::Continue));

    // A consumer that went away ends the stream gracefully.
    let (s, a) = pipeline_step(PipelineState::Iterate, PipelineEvent::ReceiverClosed);
    assert_eq!(s, PipelineState::Closed);
    assert!(matches!(a, PipelineAction::Stop));

    let (s, a) = pipeline_step(PipelineState::Iterate, PipelineEvent::Exhausted);
    assert_eq!(s, PipelineState::Closed);
    assert!(matches!(a, PipelineAction::Stop));
}

// ------------------------------------------------------------------
// End to end against an in-memory store
// ------------------------------------------------------------------

#[test]
fn create_with_empty_name_is_invalid_argument() {
    let item = record("", "", "", 0, &[]);
    match prepare_create(item, get_timestamp()) {
        Err(e) => {
            assert!(matches!(&e, ServiceError::ParseError(m) if m == "name_required"));
            assert_eq!(e.to_status().code, StatusCode::InvalidArgument);
        },
        Ok(_) => panic!("an empty name must be rejected"),
    }
}

#[test]
fn create_get_delete_round_trip() {
    let mut store: Vec<NativeDocument> = Vec::new();

    // Create: the store assigns a native id, read back into the record.
    let (item, outbound) = prepare_create(record("", "X", "d", 1, &["P1"]), get_timestamp()).unwrap();
    assert!(outbound.get("_id").is_none());
    let assigned = NativeValue::ObjectId(vec![1, 2, 3, 4, 5, 6, 7, 8, 9, 10, 11, 12]);
    let created = finish_create(item, &assigned);
    assert!(!created.id.is_empty());
    assert_eq!(created.id, "$oid:0102030405060708090a0b0c");
    assert!(created.created_at.is_some());
    store.push(to_document(&created));

    // Get by id: find the stored document whose id field reads back
    // as the requested identifier, decode it, and compare.
    let wanted = ID::from_string(&created.id).unwrap();
    let found = store
        .iter()
        .find(|d| match d.get("_id") {
            Some(v) => deserialize(v).map(|t| t == wanted.encode()).unwrap_or(false),
            None => false,
        })
        .expect("the created record must be found");
    let fetched = from_document(found).unwrap();
    assert_eq!(fetched.id, created.id);
    assert_eq!(fetched.name, "X");
    assert_eq!(fetched.description, "d");
    assert_eq!(fetched.hello_world_type, 1);
    assert_eq!(fetched.project_ids, vec!["P1".to_string()]);
    assert_eq!(fetched.created_at, created.created_at);

    // Delete, then get again: not found.
    store.retain(|d| match d.get("_id") {
        Some(v) => deserialize(v).map(|t| t != wanted.encode()).unwrap_or(true),
        None => true,
    });
    let gone = store.iter().find(|d| match d.get("_id") {
        Some(v) => deserialize(v).map(|t| t == wanted.encode()).unwrap_or(false),
        None => false,
    });
    assert!(gone.is_none());
    let not_found = ServiceError::NotFound("NOT FOUND".to_string());
    assert_eq!(not_found.to_status().code, StatusCode::NotFound);
}

#[test]
fn timestamps_have_nanoseconds_in_range() {
    let t: Timestamp = get_timestamp();
    assert!(t.nanos >= 0 && t.nanos < 1_000_000_000);
}

#[test]
fn boundary_rejects_limits_over_the_cap() {
    assert!(check_limit(100).is_ok());
    assert!(check_limit(0).is_ok());
    match check_limit(101) {
        Err(e) => {
            assert!(matches!(&e, ServiceError::ParseError(m) if m == "Maximum number of items is 100"));
            assert_eq!(e.to_status().code, StatusCode::InvalidArgument);
        },
        Ok(()) => panic!("a limit over the cap must be rejected"),
    }
    assert_eq!(hello_worlds::pipeline::CHANNEL_CAPACITY, 100);
}
