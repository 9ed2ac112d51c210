use mgo_state_query::error::{
    ErrorKind, IndexerError, MgoError, NameServiceError, StateReadClientError, StateReadError,
    StateReadInternalError, UserInputError,
};
use mgo_state_query::response::ConversionError;
use mgo_state_query::types::{ObjectID, TransactionDigest};

fn join_failure() -> tokio::task::JoinError {
    let runtime = tokio::runtime::Builder::new_current_thread().build().unwrap();
    runtime.block_on(async {
        let handle = tokio::spawn(async {
            std::future::pending::<()>().await;
        });
        handle.abort();
        handle.await.unwrap_err()
    })
}

#[test]
fn index_not_available_is_client() {
    let e = StateReadError::from(MgoError::IndexStoreNotAvailable);
    assert_eq!(e.kind(), ErrorKind::Client);
    assert!(matches!(
        e,
        StateReadError::Client(StateReadClientError::MgoError(MgoError::IndexStoreNotAvailable))
    ));
}

#[test]
fn transaction_not_found_is_client() {
    let digest = TransactionDigest([7; 32]);
    let e = StateReadError::from(MgoError::TransactionNotFound { digest });
    assert!(e.is_client());
    assert!(matches!(
        e,
        StateReadError::Client(StateReadClientError::MgoError(MgoError::TransactionNotFound {
            digest: d
        })) if d == digest
    ));
}

#[test]
fn storage_fault_is_internal() {
    let e = StateReadError::from(MgoError::StorageError("disk".to_string()));
    assert_eq!(e.kind(), ErrorKind::Internal);
    assert!(matches!(
        e,
        StateReadError::Internal(StateReadInternalError::MgoError(MgoError::StorageError(_)))
    ));
}

#[test]
fn join_failure_is_internal() {
    let e = StateReadError::from(join_failure());
    assert_eq!(e.kind(), ErrorKind::Internal);
    assert!(matches!(e, StateReadError::Internal(StateReadInternalError::JoinError(_))));
}

#[test]
fn generic_fault_is_internal() {
    let e = StateReadError::from(anyhow::Error::msg("boom"));
    assert!(!e.is_client());
    assert!(matches!(e, StateReadError::Internal(StateReadInternalError::Anyhow(_))));
}

#[test]
fn user_input_fault_is_client() {
    let e = StateReadError::from(UserInputError::ObjectNotFound {
        object_id: ObjectID([1; 32]),
        version: None,
    });
    assert!(e.is_client());
}

#[test]
fn every_engine_fault_has_its_kind() {
    let client = [
        MgoError::IndexStoreNotAvailable,
        MgoError::TransactionNotFound { digest: TransactionDigest([1; 32]) },
        MgoError::UnsupportedFeatureError { error: "feature".to_string() },
        MgoError::UserInputError { error: UserInputError::Unsupported("input".to_string()) },
        MgoError::WrongMessageVersion { error: "version".to_string() },
    ];
    for e in client {
        assert_eq!(e.kind(), ErrorKind::Client);
        assert!(matches!(
            StateReadError::from(e),
            StateReadError::Client(StateReadClientError::MgoError(_))
        ));
    }
    let internal = [
        MgoError::StorageError("store".to_string()),
        MgoError::ExecutionError("execution".to_string()),
        MgoError::Unknown("unknown".to_string()),
    ];
    for e in internal {
        assert_eq!(e.kind(), ErrorKind::Internal);
        assert!(matches!(
            StateReadError::from(e),
            StateReadError::Internal(StateReadInternalError::MgoError(_))
        ));
    }
}

#[test]
fn classification_keeps_the_fault() {
    let e = StateReadError::from(MgoError::UnsupportedFeatureError { error: "x".to_string() });
    assert!(matches!(
        e,
        StateReadError::Client(StateReadClientError::MgoError(
            MgoError::UnsupportedFeatureError { error }
        )) if error == "x"
    ));
    let e = StateReadError::from(UserInputError::Unsupported("y".to_string()));
    assert!(matches!(
        e,
        StateReadError::Client(StateReadClientError::UserInputError(
            UserInputError::Unsupported(what)
        )) if what == "y"
    ));
}

#[test]
fn classification_is_repeatable() {
    for _ in 0..3 {
        assert_eq!(
            StateReadError::from(MgoError::WrongMessageVersion { error: "v".to_string() }).kind(),
            ErrorKind::Client
        );
        assert_eq!(
            StateReadError::from(MgoError::ExecutionError("e".to_string())).kind(),
            ErrorKind::Internal
        );
    }
}

#[test]
fn faults_are_described_in_words() {
    assert_eq!(
        MgoError::IndexStoreNotAvailable.describe(),
        "Index store not available on this Fullnode."
    );
    assert_eq!(
        MgoError::TransactionNotFound { digest: TransactionDigest([1; 32]) }.describe(),
        "Could not find the referenced transaction."
    );
    assert_eq!(MgoError::StorageError("disk full".to_string()).describe(), "disk full");
    assert_eq!(
        MgoError::UserInputError {
            error: UserInputError::ObjectNotFound { object_id: ObjectID([1; 32]), version: None }
        }
        .describe(),
        "Could not find the referenced object"
    );
    assert_eq!(UserInputError::Unsupported("no".to_string()).describe(), "no");
    assert_eq!(
        StateReadError::from(MgoError::Unknown("odd".to_string())).describe(),
        "odd"
    );
    assert_eq!(StateReadError::from(anyhow::Error::msg("boom")).describe(), "boom");
    assert!(StateReadError::from(join_failure()).describe().contains("cancelled"));
}

#[test]
fn query_errors_have_their_kind() {
    assert_eq!(
        IndexerError::InvalidArgumentError(NameServiceError::LabelsEmpty).kind(),
        ErrorKind::Client
    );
    assert_eq!(
        IndexerError::PersistentStorageDataCorruptionError(ObjectID([1; 32])).kind(),
        ErrorKind::Internal
    );
    assert_eq!(
        IndexerError::DataTransformationError(ConversionError::LayoutRequired {
            object_id: ObjectID([1; 32])
        })
        .kind(),
        ErrorKind::Internal
    );
    assert_eq!(
        IndexerError::StateReadError(StateReadError::from(MgoError::IndexStoreNotAvailable))
            .kind(),
        ErrorKind::Client
    );
    assert_eq!(
        IndexerError::StateReadError(StateReadError::from(anyhow::Error::msg("boom"))).kind(),
        ErrorKind::Internal
    );
}
