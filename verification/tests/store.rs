use school_portal::auth::models::{CreateSchoolRequest, User, UserRole};
use school_portal::errors::AppError;
use school_portal::models::records::{CreateStudentRequest, PaymentStatus};
use school_portal::models::store::AppStore;

fn user(id: u128, email: &str, school: Option<u128>) -> User {
    User {
        id,
        school_id: school,
        email: email.to_string(),
        password_hash: "h".to_string(),
        first_name: "F".to_string(),
        last_name: "L".to_string(),
        role: UserRole::Student,
        is_active: true,
        created_at: 10,
    }
}

fn student_req(user_id: Option<u128>, school_id: Option<u128>) -> CreateStudentRequest {
    CreateStudentRequest {
        user_id,
        school_id,
        first_name: "Chi".to_string(),
        last_name: "Eze".to_string(),
        email: "chi@example.com".to_string(),
        department: "Physics".to_string(),
    }
}

fn unprocessable(e: AppError) -> (String, String) {
    match e {
        AppError::UnProcessableEntity { field, message } => (field, message),
        other => panic!("unexpected {:?}", other),
    }
}

#[test]
fn new_store_is_empty() {
    let s = AppStore::new();
    assert!(s.get_all_users().is_empty());
    assert!(s.get_all_schools().is_empty());
    assert!(s.get_all_students().unwrap().is_empty());
    assert!(s.get_payment_by_reference("r").is_none());
}

#[test]
fn users_are_keyed_by_lowercased_email() {
    let mut s = AppStore::new();
    let u = s.create_user(user(1, "Ada@Example.com", None)).unwrap();
    assert_eq!(u.email, "Ada@Example.com");
    let found = s.find_user_by_email("ADA@example.COM").unwrap();
    assert_eq!(found.id, 1);
    assert_eq!(found.email, "Ada@Example.com");
    let e = s.create_user(user(2, "ada@example.com", None)).unwrap_err();
    assert_eq!(unprocessable(e), ("email".to_string(), "Email already exists".to_string()));
    assert_eq!(s.get_all_users().len(), 1);
    assert!(s.find_user_by_email("bob@example.com").is_none());
}

#[test]
fn users_by_id_and_in_order() {
    let mut s = AppStore::new();
    s.create_user(user(1, "a@x.io", None)).unwrap();
    s.create_user(user(2, "b@x.io", Some(5))).unwrap();
    assert_eq!(s.find_user_by_id(2).unwrap().email, "b@x.io");
    assert!(s.find_user_by_id(3).is_none());
    let all: Vec<u128> = s.get_all_users().iter().map(|u| u.id).collect();
    assert_eq!(all, vec![1, 2]);
}

#[test]
fn schools_by_slug() {
    let mut s = AppStore::new();
    let a = s.create_school(CreateSchoolRequest { name: "Green Valley".to_string() }).unwrap();
    assert_eq!(a.slug, "green-valley");
    assert_eq!(a.name, "Green Valley");
    assert!(a.is_active);
    assert_eq!((a.id >> 76) & 0xf, 4);
    assert!(s.school_exists(a.id));
    assert!(!s.school_exists(a.id ^ 1));
    let e = s.create_school(CreateSchoolRequest { name: "green-valley!".to_string() }).unwrap_err();
    assert_eq!(unprocessable(e), ("name".to_string(), "School already exists".to_string()));
    let e = s.create_school(CreateSchoolRequest { name: " ?! ".to_string() }).unwrap_err();
    assert_eq!(unprocessable(e), ("name".to_string(), "School name is invalid".to_string()));
    s.create_school(CreateSchoolRequest { name: "Blue Ridge".to_string() }).unwrap();
    let names: Vec<String> = s.get_all_schools().into_iter().map(|x| x.name).collect();
    assert_eq!(names, vec!["Green Valley".to_string(), "Blue Ridge".to_string()]);
}

#[test]
fn add_school_with_given_id_and_time() {
    let mut s = AppStore::new();
    let a = s.add_school(CreateSchoolRequest { name: "Lagos Poly".to_string() }, 77, 1234).unwrap();
    assert_eq!(a.id, 77);
    assert_eq!(a.created_at, 1234);
    assert!(s.school_exists(77));
}

#[test]
fn students_need_existing_user_and_school() {
    let mut s = AppStore::new();
    let e = s.create_student(student_req(Some(9), None)).unwrap_err();
    assert_eq!(unprocessable(e), ("user_id".to_string(), "User does not exist".to_string()));
    let e = s.create_student(student_req(None, Some(9))).unwrap_err();
    assert_eq!(unprocessable(e), ("school_id".to_string(), "School does not exist".to_string()));
    assert!(s.get_all_students().unwrap().is_empty());
    s.create_user(user(9, "u@x.io", None)).unwrap();
    s.add_school(CreateSchoolRequest { name: "S".to_string() }, 9, 0).unwrap();
    s.create_student(student_req(Some(9), Some(9))).unwrap();
    let all = s.get_all_students().unwrap();
    assert_eq!(all.len(), 1);
    assert_eq!(all[0].status, PaymentStatus::Pending);
    assert_eq!(all[0].payment_reference, None);
    assert_eq!(all[0].department, "Physics");
}

#[test]
fn add_get_and_delete_student() {
    let mut s = AppStore::new();
    s.add_student(student_req(None, None), 42).unwrap();
    let st = s.get_student(42).unwrap();
    assert_eq!(st.id, 42);
    assert_eq!(st.first_name, "Chi");
    assert!(matches!(s.get_student(43), Err(AppError::NotFound)));
    s.delete_student(43).unwrap();
    assert_eq!(s.get_all_students().unwrap().len(), 1);
    s.delete_student(42).unwrap();
    assert!(matches!(s.get_student(42), Err(AppError::NotFound)));
}

#[test]
fn pending_then_paid() {
    let mut s = AppStore::new();
    s.add_student(student_req(None, Some(3)), 42).unwrap_err();
    s.add_student(student_req(None, None), 42).unwrap();
    assert!(matches!(s.create_pending_payment(41, "ref-1".to_string(), 5000), Err(AppError::NotFound)));
    let p = s.add_pending_payment(42, "ref-1".to_string(), 5000, 900, 100).unwrap();
    assert_eq!(p.id, 900);
    assert_eq!(p.student_id, 42);
    assert_eq!(p.email, "chi@example.com");
    assert_eq!(p.amount_kobo, 5000);
    assert_eq!(p.status, PaymentStatus::Pending);
    assert_eq!(p.paid_at, None);
    assert_eq!(s.get_student(42).unwrap().payment_reference, Some("ref-1".to_string()));
    assert_eq!(s.get_payment_by_reference("ref-1").unwrap().id, 900);
    let paid = s.set_payment_paid("ref-1", 200).unwrap();
    assert_eq!(paid.status, PaymentStatus::Paid);
    assert_eq!(paid.paid_at, Some(200));
    assert_eq!(paid.id, 900);
    let st = s.get_student(42).unwrap();
    assert_eq!(st.status, PaymentStatus::Paid);
    assert_eq!(st.payment_reference, Some("ref-1".to_string()));
    assert_eq!(s.get_payment_by_reference("ref-1").unwrap().status, PaymentStatus::Paid);
    assert!(matches!(s.mark_payment_paid_by_reference("ref-2"), Err(AppError::NotFound)));
}

#[test]
fn same_reference_replaces_the_payment() {
    let mut s = AppStore::new();
    s.add_student(student_req(None, None), 1).unwrap();
    s.add_pending_payment(1, "r".to_string(), 10, 100, 0).unwrap();
    s.add_pending_payment(1, "r".to_string(), 20, 101, 0).unwrap();
    let p = s.get_payment_by_reference("r").unwrap();
    assert_eq!(p.id, 101);
    assert_eq!(p.amount_kobo, 20);
}

#[test]
fn paying_after_the_student_left() {
    let mut s = AppStore::new();
    s.add_student(student_req(None, None), 1).unwrap();
    s.create_pending_payment(1, "r".to_string(), 10).unwrap();
    s.delete_student(1).unwrap();
    assert!(matches!(s.mark_payment_paid_by_reference("r"), Err(AppError::NotFound)));
    let p = s.get_payment_by_reference("r").unwrap();
    assert_eq!(p.status, PaymentStatus::Paid);
    assert!(p.paid_at.is_some());
}
