use serde::ser::SerializeStruct;
use school_portal::auth::middleware::{auth_middleware, bearer_token, AuthContext, Status};
use school_portal::auth::models::{Claims, User, UserProfile, UserRole};
use school_portal::auth::service::{
    create_access_token, hash_password, hash_password_with_salt, verify_access_token,
    verify_password,
};
use school_portal::errors::AppError;

fn sample_user(role: UserRole, school: Option<u128>) -> User {
    User {
        id: 0x67e5504410b1426f9247bb680e5fe0c8,
        school_id: school,
        email: "ada@example.com".to_string(),
        password_hash: String::new(),
        first_name: "Ada".to_string(),
        last_name: "Obi".to_string(),
        role,
        is_active: true,
        created_at: 1_700_000_000,
    }
}

#[test]
fn role_names_are_camel_case() {
    assert_eq!(UserRole::Student.name(), "student");
    assert_eq!(UserRole::Lecturer.name(), "lecturer");
    assert_eq!(UserRole::SchoolAdmin.name(), "schoolAdmin");
    assert_eq!(UserRole::SuperAdmin.name(), "superAdmin");
}

#[test]
fn claims_json_text() {
    let u = sample_user(UserRole::SchoolAdmin, Some(1));
    let c = Claims::for_user(&u);
    assert_eq!(c.sub, u.id);
    assert_eq!(c.school_id, Some(1));
    assert_eq!(c.role, UserRole::SchoolAdmin);
    assert_eq!(
        c.to_json(),
        "{\"sub\":\"67e55044-10b1-426f-9247-bb680e5fe0c8\",\"school_id\":\"00000000-0000-0000-0000-000000000001\",\"role\":\"schoolAdmin\"}"
    );
    let c2 = Claims::for_user(&sample_user(UserRole::Student, None));
    assert_eq!(
        c2.to_json(),
        "{\"sub\":\"67e55044-10b1-426f-9247-bb680e5fe0c8\",\"school_id\":null,\"role\":\"student\"}"
    );
}

#[test]
fn profile_drops_the_password_hash() {
    let mut u = sample_user(UserRole::Lecturer, Some(7));
    u.password_hash = "secret-hash".to_string();
    let p = UserProfile::from_user(&u);
    let q: UserProfile = UserProfile::from(&u);
    for p in [p, q] {
        assert_eq!(p.id, u.id);
        assert_eq!(p.school_id, Some(7));
        assert_eq!(p.email, "ada@example.com");
        assert_eq!(p.first_name, "Ada");
        assert_eq!(p.last_name, "Obi");
        assert_eq!(p.role, UserRole::Lecturer);
        assert!(p.is_active);
        assert_eq!(p.created_at, 1_700_000_000);
    }
}

#[test]
fn hashed_password_verifies() {
    let h = hash_password("correct horse").unwrap();
    assert!(h.starts_with("$argon2id$"));
    assert_eq!(verify_password("correct horse", &h).unwrap(), true);
    assert_eq!(verify_password("wrong horse", &h).unwrap(), false);
    let h2 = hash_password("correct horse").unwrap();
    assert_ne!(h, h2);
}

#[test]
fn malformed_hash_is_unauthorized() {
    match verify_password("pw", "not-a-hash") {
        Err(AppError::UnAuthorized(m)) => assert!(!m.is_empty()),
        other => panic!("unexpected {:?}", other),
    }
}

#[test]
fn token_round_trip_gives_back_the_claims_json() {
    let u = sample_user(UserRole::SuperAdmin, None);
    let t = create_access_token(&u, "s3cret").unwrap();
    assert_eq!(t.split('.').count(), 3);
    assert_eq!(create_access_token(&u, "s3cret").unwrap(), t);
    let payload = verify_access_token(&t, "s3cret").unwrap();
    assert_eq!(payload, Claims::for_user(&u).to_json());
}

#[test]
fn token_header_is_hs256() {
    let u = sample_user(UserRole::Student, Some(3));
    let t = create_access_token(&u, "k").unwrap();
    let header = jsonwebtoken::decode_header(&t).unwrap();
    assert_eq!(header.alg, jsonwebtoken::Algorithm::HS256);
}

#[test]
fn wrong_secret_or_garbage_is_internal_error() {
    let u = sample_user(UserRole::Student, None);
    let t = create_access_token(&u, "one").unwrap();
    match verify_access_token(&t, "two") {
        Err(AppError::InternalServerError(m)) => assert_eq!(m, "InvalidSignature"),
        other => panic!("unexpected {:?}", other),
    }
    assert!(matches!(verify_access_token("garbage", "two"), Err(AppError::InternalServerError(_))));
}

#[test]
fn bearer_prefix() {
    assert_eq!(bearer_token("Bearer abc"), Some("abc".to_string()));
    assert_eq!(bearer_token("Bearer "), Some(String::new()));
    assert_eq!(bearer_token("bearer abc"), None);
    assert_eq!(bearer_token("Basic abc"), None);
    assert_eq!(bearer_token("Bear"), None);
}

#[test]
fn middleware_decisions() {
    let u = sample_user(UserRole::Lecturer, Some(9));
    let t = create_access_token(&u, "k").unwrap();
    let header = format!("Bearer {}", t);
    assert_eq!(auth_middleware(None, Some("k")), Err(Status::Unauthorized));
    assert_eq!(auth_middleware(Some("Token x"), Some("k")), Err(Status::Unauthorized));
    assert_eq!(auth_middleware(Some(&header), None), Err(Status::InternalServerError));
    assert_eq!(auth_middleware(Some("Bearer nope"), Some("k")), Err(Status::Unauthorized));
    assert_eq!(auth_middleware(Some(&header), Some("other")), Err(Status::Unauthorized));
    assert_eq!(auth_middleware(Some(&header), Some("k")), Ok(Claims::for_user(&u).to_json()));
}

#[test]
fn context_from_claims() {
    let c = Claims { sub: 5, school_id: Some(6), role: UserRole::SchoolAdmin };
    let ctx = AuthContext::from_claims(c);
    assert_eq!(ctx, AuthContext { user_id: 5, school_id: Some(6), role: UserRole::SchoolAdmin });
}

#[test]
fn status_codes() {
    assert_eq!(Status::Success.code(), 200);
    assert_eq!(Status::Created.code(), 201);
    assert_eq!(Status::Unauthorized.code(), 401);
    assert_eq!(Status::Forbidden.code(), 403);
    assert_eq!(Status::NotFound.code(), 404);
    assert_eq!(Status::UnprocessableEntity.code(), 422);
    assert_eq!(Status::InternalServerError.code(), 500);
}

#[test]
fn claims_json_is_valid_json() {
    let u = sample_user(UserRole::SuperAdmin, Some(0xabc));
    let v: serde_json::Value = serde_json::from_str(&Claims::for_user(&u).to_json()).unwrap();
    assert_eq!(v["sub"], "67e55044-10b1-426f-9247-bb680e5fe0c8");
    assert_eq!(v["school_id"], "00000000-0000-0000-0000-000000000abc");
    assert_eq!(v["role"], "superAdmin");
    let parsed = uuid::Uuid::parse_str(v["sub"].as_str().unwrap()).unwrap();
    assert_eq!(parsed.as_u128(), u.id);
}

/// The claims as the serde derive writes them: a struct of three fields in
/// declaration order, UUIDs by their serde form, the role as a unit variant.
struct SerdeClaims {
    sub: uuid::Uuid,
    school_id: Option<uuid::Uuid>,
    role: UserRole,
}

/// A role as serde writes a unit variant of `UserRole`.
struct SerdeRole(u32, &'static str);

impl serde::Serialize for SerdeRole {
    fn serialize<S: serde::Serializer>(&self, s: S) -> Result<S::Ok, S::Error> {
        s.serialize_unit_variant("UserRole", self.0, self.1)
    }
}

impl serde::Serialize for SerdeClaims {
    fn serialize<S: serde::Serializer>(&self, serializer: S) -> Result<S::Ok, S::Error> {
        let role = match self.role {
            UserRole::Student => SerdeRole(0, "student"),
            UserRole::Lecturer => SerdeRole(1, "lecturer"),
            UserRole::SchoolAdmin => SerdeRole(2, "schoolAdmin"),
            UserRole::SuperAdmin => SerdeRole(3, "superAdmin"),
        };
        let mut st = serializer.serialize_struct("Claims", 3)?;
        st.serialize_field("sub", &self.sub)?;
        st.serialize_field("school_id", &self.school_id)?;
        st.serialize_field("role", &role)?;
        st.end()
    }
}

#[test]
fn claims_json_matches_serde_json() {
    for (role, school) in [
        (UserRole::Student, None),
        (UserRole::Lecturer, Some(0x1234_5678_9abc_def0_1234_5678_9abc_def0u128)),
        (UserRole::SchoolAdmin, Some(1)),
        (UserRole::SuperAdmin, None),
    ] {
        let u = sample_user(role, school);
        let c = Claims::for_user(&u);
        let serde_text = serde_json::to_string(&SerdeClaims {
            sub: uuid::Uuid::from_u128(c.sub),
            school_id: c.school_id.map(uuid::Uuid::from_u128),
            role: c.role,
        })
        .unwrap();
        assert_eq!(c.to_json(), serde_text);
    }
}

#[test]
fn hashes_use_argon2id_default_costs() {
    let h = hash_password("").unwrap();
    assert!(h.starts_with("$argon2id$v=19$m=19456,t=2,p=1$"));
    assert_eq!(verify_password("", &h).unwrap(), true);
}

#[test]
fn hash_embeds_its_salt() {
    let salt = "c2FsdHNhbHRzYWx0c2FsdA";
    let h = hash_password_with_salt("pw", salt).unwrap();
    let prefix = "$argon2id$v=19$m=19456,t=2,p=1$";
    assert!(h.starts_with(prefix));
    assert_eq!(&h[prefix.len()..prefix.len() + 22], salt);
    assert_eq!(&h[prefix.len() + 22..prefix.len() + 23], "$");
    assert_eq!(h.len(), prefix.len() + 22 + 1 + 43);
    assert_eq!(hash_password_with_salt("pw", salt).unwrap(), h);
    assert_eq!(verify_password("pw", &h).unwrap(), true);
    let other = hash_password_with_salt("pw", "AAAAAAAAAAAAAAAAAAAAAA").unwrap();
    assert_ne!(other, h);
}

#[test]
fn fresh_hashes_differ_by_salt() {
    let a = hash_password("same").unwrap();
    let b = hash_password("same").unwrap();
    assert_ne!(a, b);
    let prefix = "$argon2id$v=19$m=19456,t=2,p=1$";
    assert_eq!(a.len(), prefix.len() + 22 + 1 + 43);
    assert_eq!(&a[prefix.len() + 22..prefix.len() + 23], "$");
}
