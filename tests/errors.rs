use flaps::{FlapsError, StorageError};

#[test]
fn test_error_display() {
    let err = FlapsError::flag_not_found("my-flag");
    assert_eq!(err.message(), "Flag not found: my-flag");

    let err = FlapsError::validation("Invalid percentage value");
    assert_eq!(err.message(), "Validation error: Invalid percentage value");
}

#[test]
fn test_error_classification() {
    assert!(FlapsError::flag_not_found("x").is_not_found());
    assert!(FlapsError::environment_not_found("x").is_not_found());
    assert!(!FlapsError::validation("x").is_not_found());

    assert!(FlapsError::DuplicateKey("x".to_string()).is_conflict());
    assert!(!FlapsError::flag_not_found("x").is_conflict());
}

#[test]
fn storage_errors_convert_and_classify() {
    let err: FlapsError = StorageError::NotFound("row".to_string()).into();
    assert!(err.is_not_found());
    assert_eq!(err.message(), "Storage error: Record not found: row");
    let err: FlapsError = StorageError::Conflict("v".to_string()).into();
    assert!(err.is_conflict());
    assert!(FlapsError::project_not_found("p").is_not_found());
}
