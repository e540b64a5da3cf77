use junkdrawer::search::{
    check_health, collection_schema, default_sorting_field, interpret_collection_check,
    interpret_collection_create, interpret_delete_response, interpret_upsert_response,
    CollectionProbe, HealthProbe, HealthResponse, ServerStatus, TypesenseError,
};
use junkdrawer::sidecar::{interpret_kill, StartStep, TypesenseState};

#[test]
fn collection_check_classifies_statuses() {
    assert_eq!(interpret_collection_check(200), CollectionProbe::Present);
    assert_eq!(interpret_collection_check(299), CollectionProbe::Present);
    assert_eq!(interpret_collection_check(404), CollectionProbe::Missing);
    assert_eq!(interpret_collection_check(500), CollectionProbe::Rejected(500));
}

#[test]
fn collection_create_tolerates_conflicts() {
    assert!(interpret_collection_create(201).is_ok());
    assert!(interpret_collection_create(409).is_ok());
    assert_eq!(
        interpret_collection_create(400),
        Err(TypesenseError::HttpStatus(400))
    );
}

#[test]
fn upsert_accepts_only_success() {
    assert!(interpret_upsert_response(200).is_ok());
    assert_eq!(
        interpret_upsert_response(503),
        Err(TypesenseError::HttpStatus(503))
    );
}

#[test]
fn delete_succeeds_both_times() {
    // First delete: the document exists, the engine answers success.
    assert!(interpret_delete_response(200).is_ok());
    // Second delete of the same id: already absent, the engine answers 404.
    assert!(interpret_delete_response(404).is_ok());
    // A real rejection still surfaces.
    assert_eq!(
        interpret_delete_response(500),
        Err(TypesenseError::HttpStatus(500))
    );
}

#[test]
fn collection_schema_is_the_fixed_field_set() {
    let shown: Vec<(String, String, bool)> = collection_schema()
        .iter()
        .map(|f| {
            (
                String::from_utf8(f.name.clone()).unwrap(),
                String::from_utf8(f.field_type.clone()).unwrap(),
                f.facet,
            )
        })
        .collect();
    assert_eq!(
        shown,
        vec![
            ("id".to_string(), "string".to_string(), false),
            ("title".to_string(), "string".to_string(), false),
            ("content".to_string(), "string".to_string(), false),
            ("item_type".to_string(), "string".to_string(), true),
            ("tags".to_string(), "string[]".to_string(), true),
            ("created_at".to_string(), "int64".to_string(), false),
            ("updated_at".to_string(), "int64".to_string(), false),
        ]
    );
    assert_eq!(default_sorting_field(), b"updated_at".to_vec());
}

#[test]
fn health_classification_covers_every_outcome() {
    let s = check_health(HealthProbe::ConnectFailed);
    assert!(!s.is_healthy);
    assert_eq!(s.message, "Failed to connect to Typesense server");

    let s = check_health(HealthProbe::Responded { status: 500, body: None });
    assert!(!s.is_healthy);

    let s = check_health(HealthProbe::Responded { status: 200, body: None });
    assert!(!s.is_healthy);
    assert_eq!(s.message, "Invalid health response format from Typesense server");

    let s = check_health(HealthProbe::Responded {
        status: 200,
        body: Some(HealthResponse { ok: false }),
    });
    assert!(!s.is_healthy);

    let s = check_health(HealthProbe::Responded {
        status: 200,
        body: Some(HealthResponse { ok: true }),
    });
    assert!(s.is_healthy);
    assert_eq!(s.message, "Typesense server is healthy");
}

#[test]
fn server_status_constructors() {
    let h = ServerStatus::healthy();
    assert!(h.is_healthy);
    assert_eq!(h.message, "Typesense server is healthy");
    let u = ServerStatus::unhealthy("down".to_string());
    assert!(!u.is_healthy);
    assert_eq!(u.message, "down");
}

#[test]
fn start_twice_spawns_exactly_once() {
    let mut state = TypesenseState::new();
    assert!(!state.is_server_running());

    // First start: the supervisor asks for one spawn and registers it.
    assert_eq!(state.start_server(), StartStep::SpawnNeeded);
    state.register_spawned(4242);
    assert!(state.is_server_running());

    // Second start without a stop: success, and no second spawn.
    assert_eq!(state.start_server(), StartStep::AlreadyRunning);
    assert!(state.is_server_running());
    assert_eq!(state.child, Some(4242));
}

#[test]
fn stop_returns_the_held_handle_and_clears_it() {
    let mut state = TypesenseState::new();
    state.register_spawned(7);
    assert_eq!(state.stop_server(), Ok(7));
    assert!(!state.is_server_running());
}

#[test]
fn stopping_a_stopped_server_is_an_error() {
    let mut state = TypesenseState::new();
    assert_eq!(state.stop_server(), Err(TypesenseError::NoProcessRunning));
}

#[test]
fn kill_failure_surfaces_process_kill() {
    assert!(interpret_kill(true).is_ok());
    assert_eq!(interpret_kill(false), Err(TypesenseError::ProcessKill));
}
