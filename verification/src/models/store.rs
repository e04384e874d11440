//! The in-memory application store: students, users, schools and payments,
//! each kept in insertion order and looked up by its key (a student's or
//! school's id, a user's lowercased email, a payment's reference).

use vstd::prelude::*;
use crate::auth::models::{CreateSchoolRequest, School, User};
use crate::errors::{AppError, ErrorView};
use crate::ids::{is_uuid_v4, new_uuid, now_timestamp};
use crate::models::records::{CreateStudentRequest, Payment, PaymentStatus, Student};
use crate::models::slug::{slugify, slugify_spec};
use crate::text::lowercase_of;

verus! {

/// The position of the first `k` in `keys`, if there is one.
pub open spec fn first_index<K>(keys: Seq<K>, k: K) -> Option<int> {
    if exists|i: int|
        0 <= i < keys.len() && keys[i] == k && forall|j: int| 0 <= j < i ==> keys[j] != k {
        Some(
            choose|i: int|
                0 <= i < keys.len() && keys[i] == k && forall|j: int| 0 <= j < i ==> keys[j] != k,
        )
    } else {
        None
    }
}

pub proof fn lemma_first_index_found<K>(keys: Seq<K>, k: K, i: int)
    requires
        0 <= i < keys.len(),
        keys[i] == k,
        forall|j: int| 0 <= j < i ==> keys[j] != k,
    ensures
        first_index(keys, k) == Some(i),
{
    let w = choose|w: int|
        0 <= w < keys.len() && keys[w] == k && forall|j: int| 0 <= j < w ==> keys[j] != k;
    assert(0 <= w < keys.len() && keys[w] == k && forall|j: int| 0 <= j < w ==> keys[j] != k);
    if w < i {
        assert(keys[w] != k);
    }
    if i < w {
        assert(keys[i] != k);
    }
}

pub proof fn lemma_first_index_absent<K>(keys: Seq<K>, k: K)
    requires
        forall|j: int| 0 <= j < keys.len() ==> keys[j] != k,
    ensures
        first_index(keys, k) is None,
{
}

pub proof fn lemma_first_index_bounds<K>(keys: Seq<K>, k: K)
    ensures
        first_index(keys, k) matches Some(i) ==> 0 <= i < keys.len() && keys[i] == k && forall|
            j: int,
        | 0 <= j < i ==> keys[j] != k,
        first_index(keys, k) is None ==> forall|j: int| 0 <= j < keys.len() ==> keys[j] != k,
{
    if first_index(keys, k) is None {
        assert forall|j: int| 0 <= j < keys.len() implies keys[j] != k by {
            if keys[j] == k {
                lemma_least_match(keys, k, j);
            }
        }
    }
}

/// A match at `j` means there is a first match at or before `j`.
proof fn lemma_least_match<K>(keys: Seq<K>, k: K, j: int)
    requires
        0 <= j < keys.len(),
        keys[j] == k,
    ensures
        exists|m: int| 0 <= m <= j && keys[m] == k && forall|l: int| 0 <= l < m ==> keys[l] != k,
    decreases j,
{
    if exists|l: int| 0 <= l < j && keys[l] == k {
        let l = choose|l: int| 0 <= l < j && keys[l] == k;
        lemma_least_match(keys, k, l);
    } else {
        assert(forall|l: int| 0 <= l < j ==> keys[l] != k);
    }
}

pub open spec fn opt_index(r: Option<usize>) -> Option<int> {
    match r {
        Some(i) => Some(i as int),
        None => None,
    }
}

pub proof fn lemma_no_dup_push<K>(keys: Seq<K>, k: K)
    requires
        keys.no_duplicates(),
        forall|j: int| 0 <= j < keys.len() ==> keys[j] != k,
    ensures
        keys.push(k).no_duplicates(),
{
    let p = keys.push(k);
    assert forall|i: int, j: int| 0 <= i < p.len() && 0 <= j < p.len() && i != j implies p[i]
        != p[j] by {
        if i < keys.len() && j < keys.len() {
            assert(p[i] == keys[i] && p[j] == keys[j]);
        } else if i < keys.len() {
            assert(p[i] == keys[i]);
        } else {
            assert(p[j] == keys[j]);
        }
    }
}

pub proof fn lemma_no_dup_remove<K>(keys: Seq<K>, i: int)
    requires
        keys.no_duplicates(),
        0 <= i < keys.len(),
    ensures
        keys.remove(i).no_duplicates(),
{
    let r = keys.remove(i);
    assert forall|a: int, b: int| 0 <= a < r.len() && 0 <= b < r.len() && a != b implies r[a]
        != r[b] by {
        let a1 = if a < i { a } else { a + 1 };
        let b1 = if b < i { b } else { b + 1 };
        assert(r[a] == keys[a1] && r[b] == keys[b1]);
    }
}

/// With no key twice, the first position of a key present at `i` is `i`.
pub proof fn lemma_first_index_unique<K>(keys: Seq<K>, i: int)
    requires
        keys.no_duplicates(),
        0 <= i < keys.len(),
    ensures
        first_index(keys, keys[i]) == Some(i),
{
    lemma_first_index_found(keys, keys[i], i);
}

pub struct AppStore {
    pub students: Vec<Student>,
    /// Each user under its key: the lowercased email.
    pub users: Vec<(String, User)>,
    pub schools: Vec<School>,
    pub payments: Vec<Payment>,
}

pub open spec fn student_ids(s: Seq<Student>) -> Seq<u128> {
    s.map_values(|x: Student| x.id)
}

pub open spec fn user_keys(u: Seq<(String, User)>) -> Seq<Seq<char>> {
    u.map_values(|e: (String, User)| e.0@)
}

pub open spec fn user_ids(u: Seq<(String, User)>) -> Seq<u128> {
    u.map_values(|e: (String, User)| e.1.id)
}

pub open spec fn school_ids(s: Seq<School>) -> Seq<u128> {
    s.map_values(|x: School| x.id)
}

pub open spec fn school_slugs(s: Seq<School>) -> Seq<Seq<char>> {
    s.map_values(|x: School| x.slug@)
}

pub open spec fn payment_refs(p: Seq<Payment>) -> Seq<Seq<char>> {
    p.map_values(|x: Payment| x.reference@)
}

/// `students` with `st` in place of the first student with its id, or
/// with `st` added at the end when there is none.
pub open spec fn upsert_student(students: Seq<Student>, st: Student) -> Seq<Student> {
    match first_index(student_ids(students), st.id) {
        Some(i) => students.update(i, st),
        None => students.push(st),
    }
}

/// The record `create_student` makes of a request under the id `id`.
pub open spec fn new_student(req: CreateStudentRequest, id: u128) -> Student {
    Student {
        id,
        user_id: req.user_id,
        school_id: req.school_id,
        first_name: req.first_name,
        last_name: req.last_name,
        email: req.email,
        status: PaymentStatus::Pending,
        department: req.department,
        payment_reference: None,
    }
}

/// What adding a student under the id `id` does: it is refused when the
/// request names a user or a school that does not exist; otherwise the
/// new student is stored under its id and nothing else changes.
pub open spec fn add_student_post(
    s0: AppStore,
    s1: AppStore,
    req: CreateStudentRequest,
    id: u128,
    r: Result<(), AppError>,
) -> bool {
    if req.user_id is Some && first_index(user_ids(s0.users@), req.user_id->0) is None {
        &&& s1 == s0
        &&& r matches Err(e) && e@ == (ErrorView::UnProcessableEntity {
            field: "user_id"@,
            message: "User does not exist"@,
        })
    } else if req.school_id is Some && first_index(school_ids(s0.schools@), req.school_id->0)
        is None {
        &&& s1 == s0
        &&& r matches Err(e) && e@ == (ErrorView::UnProcessableEntity {
            field: "school_id"@,
            message: "School does not exist"@,
        })
    } else {
        &&& r is Ok
        &&& s1.students@ == upsert_student(s0.students@, new_student(req, id))
        &&& s1.users == s0.users
        &&& s1.schools == s0.schools
        &&& s1.payments == s0.payments
    }
}

pub proof fn lemma_no_dup_update<K>(keys: Seq<K>, i: int, k: K)
    requires
        keys.no_duplicates(),
        0 <= i < keys.len(),
        forall|j: int| 0 <= j < keys.len() && j != i ==> keys[j] != k,
    ensures
        keys.update(i, k).no_duplicates(),
{
    let u = keys.update(i, k);
    assert forall|a: int, b: int| 0 <= a < u.len() && 0 <= b < u.len() && a != b implies u[a]
        != u[b] by {
        if a != i && b != i {
            assert(u[a] == keys[a] && u[b] == keys[b]);
        }
    }
}

/// `students` without the first student with the id.
pub open spec fn remove_student(students: Seq<Student>, id: u128) -> Seq<Student> {
    match first_index(student_ids(students), id) {
        Some(i) => students.remove(i),
        None => students,
    }
}

/// The first student with the id, if any.
pub open spec fn student_by_id(students: Seq<Student>, id: u128) -> Option<Student> {
    match first_index(student_ids(students), id) {
        Some(i) => Some(students[i]),
        None => None,
    }
}

/// The users' records, in the order they were added.
pub open spec fn user_records(u: Seq<(String, User)>) -> Seq<User> {
    u.map_values(|e: (String, User)| e.1)
}

/// The user stored under the key, if any.
pub open spec fn user_by_key(users: Seq<(String, User)>, key: Seq<char>) -> Option<User> {
    match first_index(user_keys(users), key) {
        Some(i) => Some(users[i].1),
        None => None,
    }
}

/// The first user with the id, if any.
pub open spec fn user_by_id(users: Seq<(String, User)>, id: u128) -> Option<User> {
    match first_index(user_ids(users), id) {
        Some(i) => Some(users[i].1),
        None => None,
    }
}

/// What `create_user` does: a user whose lowercased email is already a key
/// is refused; otherwise the user is added under that key and returned.
pub open spec fn create_user_post(s0: AppStore, s1: AppStore, user: User, r: Result<User, AppError>) -> bool {
    let key = lowercase_of(user.email@);
    if first_index(user_keys(s0.users@), key) is Some {
        &&& s1 == s0
        &&& r matches Err(e) && e@ == (ErrorView::UnProcessableEntity {
            field: "email"@,
            message: "Email already exists"@,
        })
    } else {
        &&& r == Ok::<User, AppError>(user)
        &&& s1.users@.len() == s0.users@.len() + 1
        &&& s1.users@.drop_last() == s0.users@
        &&& s1.users@.last().0@ == key
        &&& s1.users@.last().1 == user
        &&& s1.students == s0.students
        &&& s1.schools == s0.schools
        &&& s1.payments == s0.payments
    }
}

/// `schools` with `sc` in place of the first school with its id, or with
/// `sc` added at the end when there is none.
pub open spec fn upsert_school(schools: Seq<School>, sc: School) -> Seq<School> {
    match first_index(school_ids(schools), sc.id) {
        Some(i) => schools.update(i, sc),
        None => schools.push(sc),
    }
}

/// What adding a school under the id `id` at time `created_at` does: a
/// name whose slug is empty, or whose slug another school has, is refused;
/// otherwise the active school with that name and slug is stored and
/// returned.
pub open spec fn add_school_post(
    s0: AppStore,
    s1: AppStore,
    name: Seq<char>,
    id: u128,
    created_at: i64,
    r: Result<School, AppError>,
) -> bool {
    let slug = slugify_spec(name);
    if slug.len() == 0 {
        &&& s1 == s0
        &&& r matches Err(e) && e@ == (ErrorView::UnProcessableEntity {
            field: "name"@,
            message: "School name is invalid"@,
        })
    } else if first_index(school_slugs(s0.schools@), slug) is Some {
        &&& s1 == s0
        &&& r matches Err(e) && e@ == (ErrorView::UnProcessableEntity {
            field: "name"@,
            message: "School already exists"@,
        })
    } else {
        &&& r matches Ok(sc) && {
            &&& sc.id == id
            &&& sc.name@ == name
            &&& sc.slug@ == slug
            &&& sc.is_active
            &&& sc.created_at == created_at
            &&& s1.schools@ == upsert_school(s0.schools@, sc)
        }
        &&& s1.students == s0.students
        &&& s1.users == s0.users
        &&& s1.payments == s0.payments
    }
}

/// `payments` with `p` in place of the first payment with its reference,
/// or with `p` added at the end when there is none.
pub open spec fn upsert_payment(payments: Seq<Payment>, p: Payment) -> Seq<Payment> {
    match first_index(payment_refs(payments), p.reference@) {
        Some(i) => payments.update(i, p),
        None => payments.push(p),
    }
}

/// The pending payment made for a student under the id `id` at `created_at`.
pub open spec fn pending_payment(
    st: Student,
    reference: String,
    amount_kobo: u64,
    id: u128,
    created_at: i64,
) -> Payment {
    Payment {
        id,
        reference,
        student_id: st.id,
        user_id: st.user_id,
        school_id: st.school_id,
        email: st.email,
        amount_kobo,
        status: PaymentStatus::Pending,
        created_at,
        paid_at: None,
    }
}

/// What recording a pending payment does: `NotFound` when there is no
/// student with the id; otherwise the student is marked with the reference
/// and the pending payment is stored under it and returned.
pub open spec fn add_pending_payment_post(
    s0: AppStore,
    s1: AppStore,
    student_id: u128,
    reference: String,
    amount_kobo: u64,
    id: u128,
    created_at: i64,
    r: Result<Payment, AppError>,
) -> bool {
    match first_index(student_ids(s0.students@), student_id) {
        None => {
            &&& s1 == s0
            &&& r matches Err(e) && e@ == ErrorView::NotFound
        },
        Some(i) => {
            let st = s0.students@[i];
            let p = pending_payment(st, reference, amount_kobo, id, created_at);
            &&& r == Ok::<Payment, AppError>(p)
            &&& s1.students@ == s0.students@.update(
                i,
                Student { payment_reference: Some(reference), ..st },
            )
            &&& s1.payments@ == upsert_payment(s0.payments@, p)
            &&& s1.users == s0.users
            &&& s1.schools == s0.schools
        },
    }
}

/// The time a payment with the reference is recorded paid when the clock
/// reads `now`: the clock reading, or the payment's creation time if the
/// clock has since been set back before it, so that no payment is paid
/// before it was created.
pub open spec fn paid_time(payments: Seq<Payment>, reference: Seq<char>, now: i64) -> i64 {
    match payment_by_reference(payments, reference) {
        Some(p) => if now < p.created_at {
            p.created_at
        } else {
            now
        },
        None => now,
    }
}

/// A payment marked paid at `paid_at`.
pub open spec fn paid_payment(p: Payment, paid_at: i64) -> Payment {
    Payment { status: PaymentStatus::Paid, paid_at: Some(paid_at), ..p }
}

/// What marking the payment with a reference paid at `paid_at` does:
/// `NotFound` when no payment has the reference. Otherwise the payment is
/// marked paid; then, if its student is still there, the student is marked
/// paid with the reference and the paid payment is returned, else the
/// result is `NotFound` (the payment stays marked paid).
pub open spec fn set_payment_paid_post(
    s0: AppStore,
    s1: AppStore,
    reference: Seq<char>,
    paid_at: i64,
    r: Result<Payment, AppError>,
) -> bool {
    match first_index(payment_refs(s0.payments@), reference) {
        None => {
            &&& s1 == s0
            &&& r matches Err(e) && e@ == ErrorView::NotFound
        },
        Some(j) => {
            let p = paid_payment(s0.payments@[j], paid_at);
            &&& s1.payments@ == s0.payments@.update(j, p)
            &&& s1.users == s0.users
            &&& s1.schools == s0.schools
            &&& match first_index(student_ids(s0.students@), p.student_id) {
                None => {
                    &&& s1.students == s0.students
                    &&& r matches Err(e) && e@ == ErrorView::NotFound
                },
                Some(i) => {
                    &&& r == Ok::<Payment, AppError>(p)
                    &&& s1.students@ == s0.students@.update(
                        i,
                        Student {
                            status: PaymentStatus::Paid,
                            payment_reference: Some(p.reference),
                            ..s0.students@[i]
                        },
                    )
                },
            }
        },
    }
}

/// The payment with the reference, if any.
pub open spec fn payment_by_reference(payments: Seq<Payment>, reference: Seq<char>) -> Option<
    Payment,
> {
    match first_index(payment_refs(payments), reference) {
        Some(j) => Some(payments[j]),
        None => None,
    }
}

impl AppStore {
    /// The store's invariant: no student id, user key, school id, school
    /// slug or payment reference occurs twice, and each user's key is its
    /// lowercased email.
    pub open spec fn wf(&self) -> bool {
        &&& student_ids(self.students@).no_duplicates()
        &&& user_keys(self.users@).no_duplicates()
        &&& forall|i: int|
            0 <= i < self.users@.len() ==> (#[trigger] self.users@[i]).0@ == lowercase_of(
                self.users@[i].1.email@,
            )
        &&& school_ids(self.schools@).no_duplicates()
        &&& school_slugs(self.schools@).no_duplicates()
        &&& payment_refs(self.payments@).no_duplicates()
    }

    /// An empty store.
    pub fn new() -> (s: AppStore)
        ensures
            s.students@.len() == 0,
            s.users@.len() == 0,
            s.schools@.len() == 0,
            s.payments@.len() == 0,
            s.wf(),
    {
        AppStore { students: Vec::new(), users: Vec::new(), schools: Vec::new(), payments: Vec::new() }
    }

    fn student_position(&self, id: u128) -> (r: Option<usize>)
        ensures
            opt_index(r) == first_index(student_ids(self.students@), id),
    {
        let mut i: usize = 0;
        while i < self.students.len()
            invariant
                i <= self.students@.len(),
                forall|j: int| 0 <= j < i ==> self.students@[j].id != id,
            decreases self.students@.len() - i,
        {
            if self.students[i].id == id {
                proof {
                    lemma_first_index_found(student_ids(self.students@), id, i as int);
                }
                return Some(i);
            }
            i = i + 1;
        }
        proof {
            lemma_first_index_absent(student_ids(self.students@), id);
        }
        None
    }

    fn user_position_by_id(&self, id: u128) -> (r: Option<usize>)
        ensures
            opt_index(r) == first_index(user_ids(self.users@), id),
    {
        let mut i: usize = 0;
        while i < self.users.len()
            invariant
                i <= self.users@.len(),
                forall|j: int| 0 <= j < i ==> self.users@[j].1.id != id,
            decreases self.users@.len() - i,
        {
            if self.users[i].1.id == id {
                proof {
                    lemma_first_index_found(user_ids(self.users@), id, i as int);
                }
                return Some(i);
            }
            i = i + 1;
        }
        proof {
            lemma_first_index_absent(user_ids(self.users@), id);
        }
        None
    }

    fn school_position(&self, id: u128) -> (r: Option<usize>)
        ensures
            opt_index(r) == first_index(school_ids(self.schools@), id),
    {
        let mut i: usize = 0;
        while i < self.schools.len()
            invariant
                i <= self.schools@.len(),
                forall|j: int| 0 <= j < i ==> self.schools@[j].id != id,
            decreases self.schools@.len() - i,
        {
            if self.schools[i].id == id {
                proof {
                    lemma_first_index_found(school_ids(self.schools@), id, i as int);
                }
                return Some(i);
            }
            i = i + 1;
        }
        proof {
            lemma_first_index_absent(school_ids(self.schools@), id);
        }
        None
    }

    /// Puts `st` in place of the first student with its id, or adds it.
    fn upsert_student_record(&mut self, st: Student)
        ensures
            final(self).students@ == upsert_student(old(self).students@, st),
            final(self).users == old(self).users,
            final(self).schools == old(self).schools,
            final(self).payments == old(self).payments,
            student_ids(old(self).students@).no_duplicates() ==> student_ids(
                final(self).students@,
            ).no_duplicates(),
    {
        let ghost ids = student_ids(self.students@);
        let ghost id = st.id;
        proof {
            lemma_first_index_bounds(ids, id);
        }
        match self.student_position(st.id) {
            Some(i) => {
                self.students.set(i, st);
                assert(student_ids(self.students@) =~= ids);
            },
            None => {
                self.students.push(st);
                assert(student_ids(self.students@) =~= ids.push(id));
                proof {
                    if ids.no_duplicates() {
                        lemma_no_dup_push(ids, id);
                    }
                }
            },
        }
    }

    /// Adds the student a request describes under the id `id` (see
    /// `add_student_post`).
    pub fn add_student(&mut self, student: CreateStudentRequest, id: u128) -> (r: Result<
        (),
        AppError,
    >)
        ensures
            add_student_post(*old(self), *final(self), student, id, r),
            old(self).wf() ==> final(self).wf(),
    {
        if let Some(user_id) = student.user_id {
            if self.user_position_by_id(user_id).is_none() {
                return Err(
                    AppError::UnProcessableEntity {
                        field: String::from_str("user_id"),
                        message: String::from_str("User does not exist"),
                    },
                );
            }
        }
        if let Some(school_id) = student.school_id {
            if self.school_position(school_id).is_none() {
                return Err(
                    AppError::UnProcessableEntity {
                        field: String::from_str("school_id"),
                        message: String::from_str("School does not exist"),
                    },
                );
            }
        }
        let new_student = Student {
            id,
            user_id: student.user_id,
            school_id: student.school_id,
            first_name: student.first_name,
            last_name: student.last_name,
            email: student.email,
            department: student.department,
            status: PaymentStatus::Pending,
            payment_reference: None,
        };
        self.upsert_student_record(new_student);
        Ok(())
    }

    /// Adds the student a request describes under a fresh random id,
    /// refusing a request that names a user or school that does not exist.
    pub fn create_student(&mut self, student: CreateStudentRequest) -> (r: Result<(), AppError>)
        ensures
            exists|id: u128| is_uuid_v4(id) && add_student_post(*old(self), *final(self), student, id, r),
            old(self).wf() ==> final(self).wf(),
    {
        let id = new_uuid();
        self.add_student(student, id)
    }

    /// All students, in the order they were added.
    pub fn get_all_students(&self) -> (r: Result<Vec<Student>, AppError>)
        ensures
            r matches Ok(v) && v@ == self.students@,
    {
        let mut v: Vec<Student> = Vec::new();
        let mut i: usize = 0;
        while i < self.students.len()
            invariant
                i <= self.students@.len(),
                v@ == self.students@.take(i as int),
            decreases self.students@.len() - i,
        {
            v.push(self.students[i].duplicate());
            i = i + 1;
            assert(v@ =~= self.students@.take(i as int));
        }
        assert(self.students@.take(i as int) =~= self.students@);
        Ok(v)
    }

    /// Removes the student with the id, if there is one.
    pub fn delete_student(&mut self, id: u128) -> (r: Result<(), AppError>)
        ensures
            r is Ok,
            final(self).students@ == remove_student(old(self).students@, id),
            final(self).users == old(self).users,
            final(self).schools == old(self).schools,
            final(self).payments == old(self).payments,
            old(self).wf() ==> final(self).wf(),
    {
        let ghost ids = student_ids(self.students@);
        if let Some(i) = self.student_position(id) {
            self.students.remove(i);
            proof {
                assert(student_ids(self.students@) =~= ids.remove(i as int));
                if ids.no_duplicates() {
                    lemma_no_dup_remove(ids, i as int);
                }
            }
        }
        Ok(())
    }

    fn user_position_by_key(&self, key: &String) -> (r: Option<usize>)
        ensures
            opt_index(r) == first_index(user_keys(self.users@), key@),
    {
        let mut i: usize = 0;
        while i < self.users.len()
            invariant
                i <= self.users@.len(),
                forall|j: int| 0 <= j < i ==> self.users@[j].0@ != key@,
            decreases self.users@.len() - i,
        {
            if self.users[i].0 == *key {
                proof {
                    lemma_first_index_found(user_keys(self.users@), key@, i as int);
                }
                return Some(i);
            }
            i = i + 1;
        }
        proof {
            lemma_first_index_absent(user_keys(self.users@), key@);
        }
        None
    }

    fn slug_position(&self, slug: &String) -> (r: Option<usize>)
        ensures
            opt_index(r) == first_index(school_slugs(self.schools@), slug@),
    {
        let mut i: usize = 0;
        while i < self.schools.len()
            invariant
                i <= self.schools@.len(),
                forall|j: int| 0 <= j < i ==> self.schools@[j].slug@ != slug@,
            decreases self.schools@.len() - i,
        {
            if self.schools[i].slug == *slug {
                proof {
                    lemma_first_index_found(school_slugs(self.schools@), slug@, i as int);
                }
                return Some(i);
            }
            i = i + 1;
        }
        proof {
            lemma_first_index_absent(school_slugs(self.schools@), slug@);
        }
        None
    }

    fn payment_position(&self, reference: &String) -> (r: Option<usize>)
        ensures
            opt_index(r) == first_index(payment_refs(self.payments@), reference@),
    {
        let mut i: usize = 0;
        while i < self.payments.len()
            invariant
                i <= self.payments@.len(),
                forall|j: int| 0 <= j < i ==> self.payments@[j].reference@ != reference@,
            decreases self.payments@.len() - i,
        {
            if self.payments[i].reference == *reference {
                proof {
                    lemma_first_index_found(payment_refs(self.payments@), reference@, i as int);
                }
                return Some(i);
            }
            i = i + 1;
        }
        proof {
            lemma_first_index_absent(payment_refs(self.payments@), reference@);
        }
        None
    }

    /// The student with the id, or `NotFound`.
    pub fn get_student(&self, id: u128) -> (r: Result<Student, AppError>)
        ensures
            match student_by_id(self.students@, id) {
                Some(st) => r == Ok::<Student, AppError>(st),
                None => r matches Err(e) && e@ == ErrorView::NotFound,
            },
    {
        match self.student_position(id) {
            Some(i) => Ok(self.students[i].duplicate()),
            None => Err(AppError::NotFound),
        }
    }

    /// Adds a user under its lowercased email, refusing an email that is
    /// already taken (see `create_user_post`).
    pub fn create_user(&mut self, user: User) -> (r: Result<User, AppError>)
        ensures
            create_user_post(*old(self), *final(self), user, r),
            old(self).wf() ==> final(self).wf(),
    {
        let key = user.email.as_str().to_lowercase();
        if self.user_position_by_key(&key).is_some() {
            return Err(
                AppError::UnProcessableEntity {
                    field: String::from_str("email"),
                    message: String::from_str("Email already exists"),
                },
            );
        }
        let ghost keys = user_keys(self.users@);
        let ghost old_users = self.users@;
        proof {
            lemma_first_index_bounds(keys, key@);
        }
        self.users.push((key, user.duplicate()));
        proof {
            assert(user_keys(self.users@) =~= keys.push(lowercase_of(user.email@)));
            assert(self.users@.drop_last() =~= old_users);
            if keys.no_duplicates() {
                lemma_no_dup_push(keys, lowercase_of(user.email@));
            }
            assert forall|i: int| 0 <= i < self.users@.len() implies (
            #[trigger] self.users@[i]).0@ == lowercase_of(self.users@[i].1.email@) || !old(self).wf() by {
                if i < old_users.len() {
                    assert(self.users@[i] == old_users[i]);
                }
            }
        }
        Ok(user)
    }

    /// The user whose lowercased email is the lowercased `email`, if any.
    pub fn find_user_by_email(&self, email: &str) -> (r: Option<User>)
        ensures
            r == user_by_key(self.users@, lowercase_of(email@)),
    {
        let key = email.to_lowercase();
        match self.user_position_by_key(&key) {
            Some(i) => Some(self.users[i].1.duplicate()),
            None => None,
        }
    }

    /// The first user with the id, if any.
    pub fn find_user_by_id(&self, id: u128) -> (r: Option<User>)
        ensures
            r == user_by_id(self.users@, id),
    {
        match self.user_position_by_id(id) {
            Some(i) => Some(self.users[i].1.duplicate()),
            None => None,
        }
    }

    /// All users, in the order they were added.
    pub fn get_all_users(&self) -> (r: Vec<User>)
        ensures
            r@ == user_records(self.users@),
    {
        let mut v: Vec<User> = Vec::new();
        let mut i: usize = 0;
        while i < self.users.len()
            invariant
                i <= self.users@.len(),
                v@ == user_records(self.users@).take(i as int),
            decreases self.users@.len() - i,
        {
            v.push(self.users[i].1.duplicate());
            i = i + 1;
            assert(v@ =~= user_records(self.users@).take(i as int));
        }
        assert(user_records(self.users@).take(i as int) =~= user_records(self.users@));
        v
    }

    /// Adds the school a request names under the id `id` at `created_at`
    /// (see `add_school_post`).
    pub fn add_school(&mut self, req: CreateSchoolRequest, id: u128, created_at: i64) -> (r:
        Result<School, AppError>)
        ensures
            add_school_post(*old(self), *final(self), req.name@, id, created_at, r),
            old(self).wf() ==> final(self).wf(),
    {
        let slug = slugify(req.name.as_str());
        if slug.as_str().is_empty() {
            return Err(
                AppError::UnProcessableEntity {
                    field: String::from_str("name"),
                    message: String::from_str("School name is invalid"),
                },
            );
        }
        if self.slug_position(&slug).is_some() {
            return Err(
                AppError::UnProcessableEntity {
                    field: String::from_str("name"),
                    message: String::from_str("School already exists"),
                },
            );
        }
        let ghost slugs = school_slugs(self.schools@);
        let ghost ids = school_ids(self.schools@);
        proof {
            lemma_first_index_bounds(slugs, slug@);
            lemma_first_index_bounds(ids, id);
        }
        let school = School { id, name: req.name, slug, is_active: true, created_at };
        match self.school_position(id) {
            Some(i) => {
                self.schools.set(i, school.duplicate());
                proof {
                    assert(school_ids(self.schools@) =~= ids);
                    assert(school_slugs(self.schools@) =~= slugs.update(i as int, school.slug@));
                    if slugs.no_duplicates() {
                        lemma_no_dup_update(slugs, i as int, school.slug@);
                    }
                }
            },
            None => {
                self.schools.push(school.duplicate());
                proof {
                    assert(school_ids(self.schools@) =~= ids.push(id));
                    assert(school_slugs(self.schools@) =~= slugs.push(school.slug@));
                    if slugs.no_duplicates() {
                        lemma_no_dup_push(slugs, school.slug@);
                    }
                    if ids.no_duplicates() {
                        lemma_no_dup_push(ids, id);
                    }
                }
            },
        }
        Ok(school)
    }

    /// Adds the school a request names under a fresh random id at the
    /// current time, refusing a name with an empty or taken slug.
    pub fn create_school(&mut self, req: CreateSchoolRequest) -> (r: Result<School, AppError>)
        ensures
            exists|id: u128, created_at: i64|
                is_uuid_v4(id) && add_school_post(*old(self), *final(self), req.name@, id, created_at, r),
            old(self).wf() ==> final(self).wf(),
    {
        let id = new_uuid();
        let created_at = now_timestamp();
        self.add_school(req, id, created_at)
    }

    /// Whether a school has the id.
    pub fn school_exists(&self, id: u128) -> (b: bool)
        ensures
            b == (first_index(school_ids(self.schools@), id) is Some),
    {
        self.school_position(id).is_some()
    }

    /// All schools, in the order they were added.
    pub fn get_all_schools(&self) -> (r: Vec<School>)
        ensures
            r@ == self.schools@,
    {
        let mut v: Vec<School> = Vec::new();
        let mut i: usize = 0;
        while i < self.schools.len()
            invariant
                i <= self.schools@.len(),
                v@ == self.schools@.take(i as int),
            decreases self.schools@.len() - i,
        {
            v.push(self.schools[i].duplicate());
            i = i + 1;
            assert(v@ =~= self.schools@.take(i as int));
        }
        assert(self.schools@.take(i as int) =~= self.schools@);
        v
    }

    /// Records a pending payment of `amount_kobo` for a student under the
    /// reference, the id `id` and the time `created_at` (see
    /// `add_pending_payment_post`).
    pub fn add_pending_payment(
        &mut self,
        student_id: u128,
        reference: String,
        amount_kobo: u64,
        id: u128,
        created_at: i64,
    ) -> (r: Result<Payment, AppError>)
        ensures
            add_pending_payment_post(
                *old(self),
                *final(self),
                student_id,
                reference,
                amount_kobo,
                id,
                created_at,
                r,
            ),
            old(self).wf() ==> final(self).wf(),
    {
        let i = match self.student_position(student_id) {
            Some(i) => i,
            None => {
                return Err(AppError::NotFound);
            },
        };
        let ghost sids = student_ids(self.students@);
        let mut student = self.students[i].duplicate();
        student.payment_reference = Some(reference.clone());
        let payment = Payment {
            id,
            reference: reference.clone(),
            student_id,
            user_id: student.user_id,
            school_id: student.school_id,
            email: student.email.clone(),
            amount_kobo,
            status: PaymentStatus::Pending,
            created_at,
            paid_at: None,
        };
        self.students.set(i, student);
        assert(student_ids(self.students@) =~= sids);
        let ghost refs = payment_refs(self.payments@);
        proof {
            lemma_first_index_bounds(refs, reference@);
        }
        match self.payment_position(&reference) {
            Some(j) => {
                self.payments.set(j, payment.duplicate());
                assert(payment_refs(self.payments@) =~= refs);
            },
            None => {
                self.payments.push(payment.duplicate());
                proof {
                    assert(payment_refs(self.payments@) =~= refs.push(reference@));
                    if refs.no_duplicates() {
                        lemma_no_dup_push(refs, reference@);
                    }
                }
            },
        }
        Ok(payment)
    }

    /// Records a pending payment of `amount_kobo` for a student under the
    /// reference, with a fresh random id at the current time; `NotFound`
    /// when there is no such student.
    pub fn create_pending_payment(&mut self, student_id: u128, reference: String, amount_kobo: u64) -> (r: Result<Payment, AppError>)
        ensures
            exists|id: u128, created_at: i64|
                is_uuid_v4(id) && add_pending_payment_post(
                    *old(self),
                    *final(self),
                    student_id,
                    reference,
                    amount_kobo,
                    id,
                    created_at,
                    r,
                ),
            old(self).wf() ==> final(self).wf(),
    {
        let id = new_uuid();
        let created_at = now_timestamp();
        self.add_pending_payment(student_id, reference, amount_kobo, id, created_at)
    }

    /// Marks the payment with the reference paid at `paid_at`, and its
    /// student paid (see `set_payment_paid_post`).
    pub fn set_payment_paid(&mut self, reference: &str, paid_at: i64) -> (r: Result<Payment, AppError>)
        ensures
            set_payment_paid_post(*old(self), *final(self), reference@, paid_at, r),
            old(self).wf() ==> final(self).wf(),
    {
        let key = String::from_str(reference);
        let j = match self.payment_position(&key) {
            Some(j) => j,
            None => {
                return Err(AppError::NotFound);
            },
        };
        let ghost refs = payment_refs(self.payments@);
        let mut payment = self.payments[j].duplicate();
        payment.status = PaymentStatus::Paid;
        payment.paid_at = Some(paid_at);
        self.payments.set(j, payment.duplicate());
        assert(payment_refs(self.payments@) =~= refs);
        let i = match self.student_position(payment.student_id) {
            Some(i) => i,
            None => {
                return Err(AppError::NotFound);
            },
        };
        let ghost sids = student_ids(self.students@);
        let mut student = self.students[i].duplicate();
        student.status = PaymentStatus::Paid;
        student.payment_reference = Some(payment.reference.clone());
        self.students.set(i, student);
        assert(student_ids(self.students@) =~= sids);
        Ok(payment)
    }

    /// Marks the payment with the reference paid now, and its student
    /// paid; `NotFound` when there is no such payment or student. The time
    /// recorded is the clock reading taken during the call (see
    /// `paid_time`): never before the payment's creation time.
    pub fn mark_payment_paid_by_reference(&mut self, reference: &str) -> (r: Result<Payment, AppError>)
        ensures
            exists|now: i64|
                now >= 0 && set_payment_paid_post(
                    *old(self),
                    *final(self),
                    reference@,
                    paid_time(old(self).payments@, reference@, now),
                    r,
                ),
            r matches Ok(p) ==> p.paid_at matches Some(t) && t >= p.created_at && t >= 0,
            old(self).wf() ==> final(self).wf(),
    {
        let now = now_timestamp();
        let paid_at = match self.get_payment_by_reference(reference) {
            Some(p) => if now < p.created_at {
                p.created_at
            } else {
                now
            },
            None => now,
        };
        let ghost s0 = *self;
        assert(paid_at == paid_time(s0.payments@, reference@, now));
        let r = self.set_payment_paid(reference, paid_at);
        assert(set_payment_paid_post(s0, *self, reference@, paid_time(s0.payments@, reference@, now), r));
        proof {
            if r is Ok {
                let j = first_index(payment_refs(old(self).payments@), reference@)->0;
                lemma_first_index_bounds(payment_refs(old(self).payments@), reference@);
                assert(old(self).payments@[j].created_at == r->Ok_0.created_at);
            }
        }
        r
    }

    /// The payment with the reference, if any.
    pub fn get_payment_by_reference(&self, reference: &str) -> (r: Option<Payment>)
        ensures
            r == payment_by_reference(self.payments@, reference@),
    {
        let key = String::from_str(reference);
        match self.payment_position(&key) {
            Some(j) => Some(self.payments[j].duplicate()),
            None => None,
        }
    }
}

/// After `upsert_student`, the first student with that id is the new one.
proof fn lemma_upsert_student_found(students: Seq<Student>, st: Student)
    ensures
        student_by_id(upsert_student(students, st), st.id) == Some(st),
        student_ids(upsert_student(students, st)).len() >= student_ids(students).len(),
{
    let ids = student_ids(students);
    lemma_first_index_bounds(ids, st.id);
    let s1 = upsert_student(students, st);
    match first_index(ids, st.id) {
        Some(i) => {
            assert(student_ids(s1) =~= ids);
            lemma_first_index_found(student_ids(s1), st.id, i);
        },
        None => {
            assert(student_ids(s1) =~= ids.push(st.id));
            lemma_first_index_found(student_ids(s1), st.id, students.len() as int);
        },
    }
}

/// After `upsert_payment`, the payment found under that reference is the new one.
proof fn lemma_upsert_payment_found(payments: Seq<Payment>, p: Payment)
    ensures
        first_index(payment_refs(upsert_payment(payments, p)), p.reference@) matches Some(j)
            && upsert_payment(payments, p)[j] == p,
{
    let refs = payment_refs(payments);
    lemma_first_index_bounds(refs, p.reference@);
    let p1 = upsert_payment(payments, p);
    match first_index(refs, p.reference@) {
        Some(i) => {
            assert(payment_refs(p1) =~= refs);
            lemma_first_index_found(payment_refs(p1), p.reference@, i);
        },
        None => {
            assert(payment_refs(p1) =~= refs.push(p.reference@));
            lemma_first_index_found(payment_refs(p1), p.reference@, payments.len() as int);
        },
    }
}

/// A student added under an id is the one `get_student` finds under it.
pub proof fn lemma_added_student_found(
    s0: AppStore,
    s1: AppStore,
    req: CreateStudentRequest,
    id: u128,
    r: Result<(), AppError>,
)
    requires
        add_student_post(s0, s1, req, id, r),
        r is Ok,
    ensures
        student_by_id(s1.students@, id) == Some(new_student(req, id)),
{
    lemma_upsert_student_found(s0.students@, new_student(req, id));
}

/// Once a student is deleted, `get_student` no longer finds its id.
pub proof fn lemma_deleted_student_gone(s0: AppStore, id: u128)
    requires
        s0.wf(),
    ensures
        student_by_id(remove_student(s0.students@, id), id) is None,
{
    let ids = student_ids(s0.students@);
    lemma_first_index_bounds(ids, id);
    if let Some(i) = first_index(ids, id) {
        let s1 = s0.students@.remove(i);
        assert(student_ids(s1) =~= ids.remove(i));
        assert forall|j: int| 0 <= j < student_ids(s1).len() implies student_ids(s1)[j] != id by {
            let j1 = if j < i { j } else { j + 1 };
            assert(student_ids(s1)[j] == ids[j1]);
        }
        lemma_first_index_absent(student_ids(s1), id);
    }
}

/// A user added by `create_user` is the one `find_user_by_email` finds
/// under any email with the same lowercase form, and its email is taken.
pub proof fn lemma_created_user_found(
    s0: AppStore,
    s1: AppStore,
    user: User,
    r: Result<User, AppError>,
    email: Seq<char>,
)
    requires
        create_user_post(s0, s1, user, r),
        r is Ok,
        lowercase_of(email) == lowercase_of(user.email@),
    ensures
        user_by_key(s1.users@, lowercase_of(email)) == Some(user),
        first_index(user_keys(s1.users@), lowercase_of(user.email@)) is Some,
{
    let key = lowercase_of(user.email@);
    let keys0 = user_keys(s0.users@);
    lemma_first_index_bounds(keys0, key);
    let k1 = user_keys(s1.users@);
    assert(s1.users@ =~= s0.users@.push(s1.users@.last()));
    assert(k1 =~= keys0.push(key));
    lemma_first_index_found(k1, key, s0.users@.len() as int);
}

/// A school name whose slug a school already has is refused: after a school
/// is added, every name with the same slug finds that slug taken.
pub proof fn lemma_school_slug_taken(
    s0: AppStore,
    s1: AppStore,
    name: Seq<char>,
    id: u128,
    created_at: i64,
    r: Result<School, AppError>,
    other_name: Seq<char>,
)
    requires
        add_school_post(s0, s1, name, id, created_at, r),
        r is Ok,
        slugify_spec(other_name) == slugify_spec(name),
    ensures
        first_index(school_slugs(s1.schools@), slugify_spec(other_name)) is Some,
{
    let sc = r->Ok_0;
    let ids = school_ids(s0.schools@);
    lemma_first_index_bounds(ids, id);
    let pos = match first_index(ids, id) {
        Some(i) => i,
        None => s0.schools@.len() as int,
    };
    assert(s1.schools@[pos] == sc);
    assert(school_slugs(s1.schools@)[pos] == sc.slug@);
    lemma_first_index_bounds(school_slugs(s1.schools@), sc.slug@);
}

/// Marking paid the payment just recorded for a student returns that
/// payment marked paid at the given time, and leaves the student paid with
/// the payment's reference.
pub proof fn lemma_pending_then_paid(
    s0: AppStore,
    s1: AppStore,
    s2: AppStore,
    student_id: u128,
    reference: String,
    amount_kobo: u64,
    id: u128,
    created_at: i64,
    r1: Result<Payment, AppError>,
    paid_at: i64,
    r2: Result<Payment, AppError>,
)
    requires
        add_pending_payment_post(s0, s1, student_id, reference, amount_kobo, id, created_at, r1),
        r1 is Ok,
        set_payment_paid_post(s1, s2, reference@, paid_at, r2),
    ensures
        r2 == Ok::<Payment, AppError>(paid_payment(r1->Ok_0, paid_at)),
        student_by_id(s2.students@, student_id) matches Some(st) && st.status
            == PaymentStatus::Paid && st.payment_reference == Some(reference),
{
    let ids0 = student_ids(s0.students@);
    lemma_first_index_bounds(ids0, student_id);
    let i = first_index(ids0, student_id)->0;
    let p = r1->Ok_0;
    lemma_upsert_payment_found(s0.payments@, p);
    assert(student_ids(s1.students@) =~= ids0);
    let j = first_index(payment_refs(s1.payments@), reference@)->0;
    assert(s1.payments@[j] == p);
    assert(student_ids(s2.students@) =~= ids0);
}

/// Marking a payment paid when the clock reads `now` records, on the
/// payment found by its reference afterwards, the status `Paid` and a paid
/// time that is the clock reading, or the payment's creation time when the
/// clock reads earlier than that: never before the payment was created, and
/// never before the clock reading. Nothing else of the payment changes, and
/// a returned payment is that record. Without such a payment nothing
/// changes and the answer is an error.
pub proof fn lemma_paid_at_is_clock_reading(
    s0: AppStore,
    s1: AppStore,
    reference: Seq<char>,
    now: i64,
    r: Result<Payment, AppError>,
)
    requires
        set_payment_paid_post(s0, s1, reference, paid_time(s0.payments@, reference, now), r),
    ensures
        match payment_by_reference(s0.payments@, reference) {
            None => s1 == s0 && r is Err,
            Some(p0) => payment_by_reference(s1.payments@, reference) matches Some(p1) && {
                &&& p1.status == PaymentStatus::Paid
                &&& p1.paid_at matches Some(t) && t >= p0.created_at && t >= now && (t == now
                    || t == p0.created_at)
                &&& p1 == Payment { status: PaymentStatus::Paid, paid_at: p1.paid_at, ..p0 }
                &&& r matches Ok(p) ==> p == p1
            },
        },
{
    let refs = payment_refs(s0.payments@);
    lemma_first_index_bounds(refs, reference);
    if let Some(j) = first_index(refs, reference) {
        assert(payment_refs(s1.payments@) =~= refs);
        assert(s1.payments@[j] == paid_payment(s0.payments@[j], paid_time(s0.payments@, reference, now)));
    }
}

} // verus!
