use school_portal::errors::AppError;
use school_portal::ids::{new_uuid, now_timestamp, uuid_text};

#[test]
fn error_texts() {
    assert_eq!(AppError::NotFound.to_string(), "Resource not found");
    assert_eq!(
        AppError::InternalServerError("boom".to_string()).to_string(),
        "Internal Server Error: boom"
    );
    assert_eq!(
        AppError::UnProcessableEntity { field: "email".to_string(), message: "Email already exists".to_string() }
            .to_string(),
        "Invalid Input, cannot be processed: email - Email already exists"
    );
    assert_eq!(
        AppError::MissingEnvironmentVarible("JWT_SECRET".to_string()).to_string(),
        "Environement Variable is missing: JWT_SECRET"
    );
    assert_eq!(AppError::ParsingError("PORT".to_string()).to_string(), "Failed to Parse: PORT");
    assert_eq!(
        AppError::UnAuthorized("bad".to_string()).to_string(),
        "You dont have permission to perform this action: bad"
    );
}

#[test]
fn fresh_ids_are_version_4() {
    let a = new_uuid();
    let b = new_uuid();
    assert_ne!(a, b);
    for id in [a, b] {
        assert_eq!((id >> 76) & 0xf, 4);
        assert_eq!((id >> 62) & 0x3, 2);
    }
}

#[test]
fn uuid_text_is_hyphenated_lowercase() {
    assert_eq!(uuid_text(0x67e5504410b1426f9247bb680e5fe0c8), "67e55044-10b1-426f-9247-bb680e5fe0c8");
    assert_eq!(uuid_text(0), "00000000-0000-0000-0000-000000000000");
    assert_eq!(uuid_text(u128::MAX), "ffffffff-ffff-ffff-ffff-ffffffffffff");
}

#[test]
fn clock_reads_a_recent_time() {
    assert!(now_timestamp() > 1_600_000_000);
}
