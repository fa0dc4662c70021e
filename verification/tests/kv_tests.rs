use raft_core::kv::put_operation::{
    handle_put_response, PutAction, PutFlowState, PutResponse,
};
use raft_core::kv::storage::StorageError;
use raft_core::kv::store::{decide_put, VersionedStore};

#[test]
fn test_store_get_missing_key() {
    let store = VersionedStore::new();
    match store.get("absent") {
        Err(StorageError::KeyNotFound(k)) => assert_eq!(k, "absent"),
        other => panic!("expected KeyNotFound, got {:?}", other),
    }
}

#[test]
fn test_store_create_and_get() {
    let mut store = VersionedStore::new();
    assert!(matches!(store.put("k", "v1".to_string(), 0), Ok(1)));
    let (value, version) = store.get("k").unwrap();
    assert_eq!(value, "v1");
    assert_eq!(version, 1);
}

#[test]
fn test_store_create_existing_key_fails() {
    let mut store = VersionedStore::new();
    store.put("k", "v1".to_string(), 0).unwrap();
    match store.put("k", "v2".to_string(), 0) {
        Err(StorageError::KeyAlreadyExists(k)) => assert_eq!(k, "k"),
        other => panic!("expected KeyAlreadyExists, got {:?}", other),
    }
}

#[test]
fn test_store_update_bumps_version() {
    let mut store = VersionedStore::new();
    store.put("k", "v1".to_string(), 0).unwrap();
    assert!(matches!(store.put("k", "v2".to_string(), 1), Ok(2)));
    let (value, version) = store.get("k").unwrap();
    assert_eq!(value, "v2");
    assert_eq!(version, 2);
}

#[test]
fn test_store_update_wrong_version_fails() {
    let mut store = VersionedStore::new();
    store.put("k", "v1".to_string(), 0).unwrap();
    match store.put("k", "v2".to_string(), 5) {
        Err(StorageError::VersionMismatch { expected, actual }) => {
            assert_eq!(expected, 5);
            assert_eq!(actual, 1);
        }
        other => panic!("expected VersionMismatch, got {:?}", other),
    }
    // The failed write changed nothing.
    let (value, version) = store.get("k").unwrap();
    assert_eq!(value, "v1");
    assert_eq!(version, 1);
}

#[test]
fn test_store_update_missing_key_fails() {
    let mut store = VersionedStore::new();
    match store.put("k", "v".to_string(), 3) {
        Err(StorageError::KeyNotFound(k)) => assert_eq!(k, "k"),
        other => panic!("expected KeyNotFound, got {:?}", other),
    }
}

#[test]
fn test_store_keys_are_independent() {
    let mut store = VersionedStore::new();
    store.put("a", "1".to_string(), 0).unwrap();
    store.put("b", "2".to_string(), 0).unwrap();
    store.put("a", "3".to_string(), 1).unwrap();
    assert_eq!(store.get("a").unwrap(), ("3".to_string(), 2));
    assert_eq!(store.get("b").unwrap(), ("2".to_string(), 1));
}

#[test]
fn test_decide_put_rules() {
    assert!(matches!(decide_put("k", None, 0), Ok(1)));
    assert!(matches!(
        decide_put("k", None, 2),
        Err(StorageError::KeyNotFound(_))
    ));
    assert!(matches!(
        decide_put("k", Some(1), 0),
        Err(StorageError::KeyAlreadyExists(_))
    ));
    assert!(matches!(decide_put("k", Some(4), 4), Ok(5)));
    assert!(matches!(
        decide_put("k", Some(4), 2),
        Err(StorageError::VersionMismatch {
            expected: 2,
            actual: 4
        })
    ));
}

#[test]
fn test_storage_error_messages() {
    assert_eq!(
        StorageError::KeyNotFound("alpha".to_string()).message(),
        "Key 'alpha' not found"
    );
    assert_eq!(
        StorageError::KeyAlreadyExists("beta".to_string()).message(),
        "Key 'beta' already exists"
    );
    assert_eq!(
        StorageError::VersionMismatch {
            expected: 250,
            actual: 4
        }
        .message(),
        "Version mismatch: expected 250, actual 4"
    );
    assert_eq!(
        StorageError::Internal("disk gone".to_string()).message(),
        "Internal storage error: disk gone"
    );
}

#[test]
fn test_put_flow_success() {
    let mut state = PutFlowState {
        version: 0,
        network_retry_count: 2,
    };
    let action = handle_put_response(&mut state, PutResponse::Success { new_version: 1 });
    assert_eq!(action, PutAction::ReturnSuccess);
    assert_eq!(state.network_retry_count, 0);
}

#[test]
fn test_put_flow_version_mismatch_repairs_version() {
    let mut state = PutFlowState {
        version: 0,
        network_retry_count: 0,
    };
    let action = handle_put_response(
        &mut state,
        PutResponse::VersionMismatch {
            actual_version: Some(7),
        },
    );
    assert_eq!(action, PutAction::RetryWithNewVersion);
    assert_eq!(state.version, 7);
}

#[test]
fn test_put_flow_mismatch_after_network_errors_means_recovered() {
    // The earlier write reached the server and bumped the version; a
    // mismatch right after a string of network errors proves it.
    let mut state = PutFlowState {
        version: 3,
        network_retry_count: 2,
    };
    let action = handle_put_response(
        &mut state,
        PutResponse::VersionMismatch {
            actual_version: Some(4),
        },
    );
    assert_eq!(action, PutAction::ReturnSuccess);
    assert_eq!(state.version, 3, "no repair needed once recovered");
}

#[test]
fn test_put_flow_mismatch_without_actual_version_is_an_error() {
    let mut state = PutFlowState {
        version: 3,
        network_retry_count: 0,
    };
    let action = handle_put_response(
        &mut state,
        PutResponse::VersionMismatch {
            actual_version: None,
        },
    );
    assert_eq!(action, PutAction::ReturnError);
}

#[test]
fn test_put_flow_key_exists_fetches_version() {
    let mut state = PutFlowState {
        version: 0,
        network_retry_count: 0,
    };
    let action = handle_put_response(&mut state, PutResponse::KeyAlreadyExists);
    assert_eq!(action, PutAction::DoGetForVersion);
}

#[test]
fn test_put_flow_key_not_found_switches_to_create() {
    let mut state = PutFlowState {
        version: 9,
        network_retry_count: 0,
    };
    let action = handle_put_response(&mut state, PutResponse::KeyNotFound);
    assert_eq!(action, PutAction::RetryWithNewVersion);
    assert_eq!(state.version, 0, "create mode uses version zero");
}

#[test]
fn test_put_flow_network_error_asks_for_retry() {
    let mut state = PutFlowState {
        version: 1,
        network_retry_count: 1,
    };
    let action = handle_put_response(&mut state, PutResponse::NetworkError);
    assert_eq!(action, PutAction::NetworkRetry);
    assert_eq!(
        state.network_retry_count, 1,
        "the driver counts the retries"
    );
}

#[test]
fn test_put_flow_no_result_is_an_error() {
    let mut state = PutFlowState {
        version: 1,
        network_retry_count: 0,
    };
    let action = handle_put_response(&mut state, PutResponse::NoResult);
    assert_eq!(action, PutAction::ReturnError);
}
