use school_portal::auth::handlers::{
    create_school_handler, finish_registration, get_all_schools_handler, get_all_users_handler,
    login_handler, me_handler, register_handler, trim_required, Reply,
};
use school_portal::auth::middleware::{AuthContext, Status};
use school_portal::auth::models::{
    Claims, CreateSchoolRequest, LoginRequest, RegisterRequest, User, UserRole,
};
use school_portal::auth::service::{create_access_token, verify_access_token};
use school_portal::models::store::AppStore;

const SECRET: &str = "test-secret";

fn register_req(email: &str, password: &str, school: Option<u128>, role: Option<UserRole>) -> RegisterRequest {
    RegisterRequest {
        school_id: school,
        email: email.to_string(),
        password: password.to_string(),
        first_name: " Ada ".to_string(),
        last_name: "Obi".to_string(),
        role,
    }
}

fn failure<T: std::fmt::Debug>(r: Reply<T>) -> (Status, String) {
    match r {
        Reply::Failed(s, m) => (s, m),
        Reply::Done(s, b) => panic!("expected a failure, got {:?} {:?}", s, b),
    }
}

fn done<T: std::fmt::Debug>(r: Reply<T>) -> (Status, T) {
    match r {
        Reply::Done(s, b) => (s, b),
        Reply::Failed(s, m) => panic!("expected success, got {:?} {}", s, m),
    }
}

#[test]
fn trim_required_cases() {
    assert_eq!(trim_required("  x ", "name").unwrap(), "x");
    let e = trim_required(" \t ", "email").unwrap_err();
    assert_eq!(e.status, Status::UnprocessableEntity);
    assert_eq!(e.message, "email cannot be empty");
}

#[test]
fn create_school_handler_cases() {
    let mut s = AppStore::new();
    assert_eq!(
        failure(create_school_handler(&mut s, CreateSchoolRequest { name: "   ".to_string() })),
        (Status::UnprocessableEntity, "name cannot be empty".to_string())
    );
    let (st, school) = done(create_school_handler(&mut s, CreateSchoolRequest { name: "  Kings College ".to_string() }));
    assert_eq!(st, Status::Created);
    assert_eq!(school.name, "Kings College");
    assert_eq!(school.slug, "kings-college");
    assert_eq!(
        failure(create_school_handler(&mut s, CreateSchoolRequest { name: "KINGS college".to_string() })),
        (
            Status::UnprocessableEntity,
            "Invalid Input, cannot be processed: name - School already exists".to_string()
        )
    );
    assert_eq!(
        failure(create_school_handler(&mut s, CreateSchoolRequest { name: "***".to_string() })),
        (
            Status::UnprocessableEntity,
            "Invalid Input, cannot be processed: name - School name is invalid".to_string()
        )
    );
}

#[test]
fn register_validation_failures() {
    let mut s = AppStore::new();
    let cases = [
        (RegisterRequest { email: " ".to_string(), ..register_req("a@b.c", "pw", None, None) }, "email cannot be empty"),
        (RegisterRequest { first_name: "".to_string(), ..register_req("a@b.c", "pw", None, None) }, "first_name cannot be empty"),
        (RegisterRequest { last_name: "\n".to_string(), ..register_req("a@b.c", "pw", None, None) }, "last_name cannot be empty"),
        (register_req("a@b.c", "   ", None, None), "password cannot be empty"),
        (register_req("a@b.c", "pw", Some(12345), None), "Invalid school_id"),
    ];
    for (req, msg) in cases {
        assert_eq!(failure(register_handler(&mut s, req, SECRET)), (Status::UnprocessableEntity, msg.to_string()));
    }
    assert!(s.get_all_users().is_empty());
}

#[test]
fn register_then_login() {
    let mut s = AppStore::new();
    let (st, resp) = done(register_handler(&mut s, register_req("  Ada@Example.com ", " pass word ", None, None), SECRET));
    assert_eq!(st, Status::Created);
    assert_eq!(resp.user.email, "Ada@Example.com");
    assert_eq!(resp.user.first_name, "Ada");
    assert_eq!(resp.user.role, UserRole::Student);
    assert!(resp.user.is_active);
    let stored = s.find_user_by_email("ada@example.com").unwrap();
    assert!(stored.password_hash.starts_with("$argon2"));
    assert_eq!(verify_access_token(&resp.access_token, SECRET).unwrap(), Claims::for_user(&stored).to_json());

    let (st2, resp2) = done(login_handler(&s, LoginRequest { email: "ADA@example.com".to_string(), password: "pass word".to_string() }, SECRET));
    assert_eq!(st2, Status::Success);
    assert_eq!(resp2.access_token, resp.access_token);
    assert_eq!(resp2.user.id, resp.user.id);

    assert_eq!(
        failure(register_handler(&mut s, register_req("ada@example.com", "x", None, None), SECRET)),
        (
            Status::UnprocessableEntity,
            "Invalid Input, cannot be processed: email - Email already exists".to_string()
        )
    );
}

#[test]
fn register_into_a_school_with_a_role() {
    let mut s = AppStore::new();
    let school = s.create_school(CreateSchoolRequest { name: "Hill".to_string() }).unwrap();
    let (_, resp) = done(register_handler(&mut s, register_req("l@hill.edu", "pw", Some(school.id), Some(UserRole::Lecturer)), SECRET));
    assert_eq!(resp.user.school_id, Some(school.id));
    assert_eq!(resp.user.role, UserRole::Lecturer);
}

#[test]
fn login_failures() {
    let mut s = AppStore::new();
    done(register_handler(&mut s, register_req("a@b.c", "right", None, None), SECRET));
    let bad = |email: &str, password: &str| failure(login_handler(&s, LoginRequest { email: email.to_string(), password: password.to_string() }, SECRET));
    assert_eq!(bad(" ", "right"), (Status::UnprocessableEntity, "email cannot be empty".to_string()));
    assert_eq!(bad("a@b.c", " "), (Status::UnprocessableEntity, "password cannot be empty".to_string()));
    assert_eq!(bad("x@b.c", "right"), (Status::Unauthorized, "Invalid email or password".to_string()));
    assert_eq!(bad("a@b.c", "wrong"), (Status::Unauthorized, "Invalid email or password".to_string()));
}

#[test]
fn login_with_a_broken_stored_hash_is_internal_error() {
    let mut s = AppStore::new();
    s.create_user(User {
        id: 1,
        school_id: None,
        email: "b@b.c".to_string(),
        password_hash: "not-a-phc-string".to_string(),
        first_name: "B".to_string(),
        last_name: "C".to_string(),
        role: UserRole::Student,
        is_active: true,
        created_at: 0,
    })
    .unwrap();
    let (st, msg) = failure(login_handler(&s, LoginRequest { email: "b@b.c".to_string(), password: "x".to_string() }, SECRET));
    assert_eq!(st, Status::InternalServerError);
    assert!(msg.starts_with("You dont have permission to perform this action: "));
}

#[test]
fn finish_registration_signs_the_token() {
    let mut s = AppStore::new();
    let u = User {
        id: 99,
        school_id: None,
        email: "Z@z.z".to_string(),
        password_hash: "h".to_string(),
        first_name: "Z".to_string(),
        last_name: "Z".to_string(),
        role: UserRole::SuperAdmin,
        is_active: true,
        created_at: 5,
    };
    let expected = create_access_token(&u, SECRET).unwrap();
    let (st, resp) = done(finish_registration(&mut s, u, SECRET));
    assert_eq!(st, Status::Created);
    assert_eq!(resp.access_token, expected);
    assert_eq!(resp.user.id, 99);
}

fn ctx(role: UserRole, school: Option<u128>, user_id: u128) -> AuthContext {
    AuthContext { user_id, school_id: school, role }
}

#[test]
fn me_handler_cases() {
    let mut s = AppStore::new();
    let (_, resp) = done(register_handler(&mut s, register_req("m@e.c", "pw", None, None), SECRET));
    let (st, p) = done(me_handler(&s, &ctx(UserRole::Student, None, resp.user.id)));
    assert_eq!(st, Status::Success);
    assert_eq!(p.email, "m@e.c");
    assert_eq!(failure(me_handler(&s, &ctx(UserRole::Student, None, 1))), (Status::NotFound, "User not found".to_string()));
}

#[test]
fn users_listing_by_role() {
    let mut s = AppStore::new();
    let a = s.add_school(CreateSchoolRequest { name: "A".to_string() }, 1, 0).unwrap();
    let b = s.add_school(CreateSchoolRequest { name: "B".to_string() }, 2, 0).unwrap();
    done(register_handler(&mut s, register_req("a1@x", "pw", Some(a.id), None), SECRET));
    done(register_handler(&mut s, register_req("b1@x", "pw", Some(b.id), None), SECRET));
    done(register_handler(&mut s, register_req("a2@x", "pw", Some(a.id), None), SECRET));
    done(register_handler(&mut s, register_req("none@x", "pw", None, None), SECRET));

    for role in [UserRole::Student, UserRole::Lecturer] {
        assert_eq!(failure(get_all_users_handler(&s, &ctx(role, Some(1), 0))), (Status::Forbidden, "Forbidden".to_string()));
    }
    let (_, own) = done(get_all_users_handler(&s, &ctx(UserRole::SchoolAdmin, Some(1), 0)));
    let emails: Vec<&str> = own.iter().map(|p| p.email.as_str()).collect();
    assert_eq!(emails, vec!["a1@x", "a2@x"]);
    let (_, none) = done(get_all_users_handler(&s, &ctx(UserRole::SchoolAdmin, None, 0)));
    assert!(none.is_empty());
    let (_, all) = done(get_all_users_handler(&s, &ctx(UserRole::SuperAdmin, None, 0)));
    assert_eq!(all.len(), 4);
}

#[test]
fn schools_listing_is_for_super_admins() {
    let mut s = AppStore::new();
    s.add_school(CreateSchoolRequest { name: "A".to_string() }, 1, 0).unwrap();
    assert_eq!(failure(get_all_schools_handler(&s, &ctx(UserRole::SchoolAdmin, Some(1), 0))), (Status::Forbidden, "Forbidden".to_string()));
    let (st, schools) = done(get_all_schools_handler(&s, &ctx(UserRole::SuperAdmin, None, 0)));
    assert_eq!(st, Status::Success);
    assert_eq!(schools.len(), 1);
    assert_eq!(schools[0].slug, "a");
}
