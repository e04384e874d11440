//! The request handlers: what each route decides, given the store, the
//! request body and (for protected routes) who is asking.

use vstd::prelude::*;
use crate::auth::middleware::{AuthContext, Status};
use crate::auth::models::{
    AuthResponse, Claims, CreateSchoolRequest, LoginRequest, RegisterRequest, School, User, UserProfile,
    UserRole, claims_for, claims_text, profile_of,
};
use crate::auth::service::{
    create_access_token, create_access_token_spec, hash_password, password_fits,
    password_hash_matches, verify_access_token_spec, verify_password, verify_password_spec,
};
use crate::errors::{ErrorView, error_text};
use crate::ids::{is_uuid_v4, new_uuid, now_timestamp};
use crate::models::store::{
    AppStore, add_school_post, create_user_post, first_index, lemma_created_user_found,
    school_ids, user_by_id, user_by_key, user_keys, user_records,
};
use crate::text::{trim, trim_spec, lowercase_of};

verus! {

/// A handler's answer: a status with a body, or a status with a message.
#[derive(Debug)]
pub enum Reply<T> {
    Done(Status, T),
    Failed(Status, String),
}

/// A refused request: the status and the message to answer with.
#[derive(Debug)]
pub struct Rejection {
    pub status: Status,
    pub message: String,
}

pub open spec fn failed_with<T>(r: Reply<T>, st: Status, msg: Seq<char>) -> bool {
    r matches Reply::Failed(s, m) && s == st && m@ == msg
}

/// `value` trimmed, or a 422 naming `field` when nothing is left.
pub fn trim_required(value: &str, field: &str) -> (r: Result<String, Rejection>)
    ensures
        match r {
            Ok(s) => trim_spec(value@).len() > 0 && s@ == trim_spec(value@),
            Err(e) => {
                &&& trim_spec(value@).len() == 0
                &&& e.status == Status::UnprocessableEntity
                &&& e.message@ == field@ + " cannot be empty"@
            },
        },
{
    let trimmed = trim(value);
    if trimmed.as_str().is_empty() {
        let mut message = String::from_str(field);
        message.append(" cannot be empty");
        return Err(Rejection { status: Status::UnprocessableEntity, message });
    }
    Ok(trimmed)
}

/// The answer to a school creation the store gave `res` for.
pub open spec fn school_reply(res: Result<School, crate::errors::AppError>, r: Reply<School>) -> bool {
    match res {
        Ok(sc) => r == Reply::Done(Status::Created, sc),
        Err(e) => failed_with(r, Status::UnprocessableEntity, error_text(e@)),
    }
}

/// What `create_school_handler` does: an empty name is a 422; otherwise the
/// trimmed name goes to the store under a fresh id at the current time, a
/// created school is a 201 with the school, a refusal a 422 with its text.
pub open spec fn create_school_handler_post(
    s0: AppStore,
    s1: AppStore,
    name: Seq<char>,
    r: Reply<School>,
) -> bool {
    let t = trim_spec(name);
    if t.len() == 0 {
        &&& s1 == s0
        &&& failed_with(r, Status::UnprocessableEntity, "name"@ + " cannot be empty"@)
    } else {
        exists|id: u128, created_at: i64, res: Result<School, crate::errors::AppError>|
            is_uuid_v4(id) && add_school_post(s0, s1, t, id, created_at, res) && school_reply(res, r)
    }
}

/// `POST /schools`.
pub fn create_school_handler(store: &mut AppStore, req: CreateSchoolRequest) -> (r: Reply<School>)
    ensures
        create_school_handler_post(*old(store), *final(store), req.name@, r),
        old(store).wf() ==> final(store).wf(),
{
    let name = match trim_required(req.name.as_str(), "name") {
        Ok(value) => value,
        Err(err) => {
            return Reply::Failed(err.status, err.message);
        },
    };
    let ghost t = name@;
    let ghost s0 = *store;
    let res = store.create_school(CreateSchoolRequest { name });
    let ghost (id, created_at) = choose|id: u128, created_at: i64|
        is_uuid_v4(id) && add_school_post(s0, *store, t, id, created_at, res);
    let r = match res {
        Ok(school) => Reply::Done(Status::Created, school),
        Err(err) => Reply::Failed(Status::UnprocessableEntity, err.to_string()),
    };
    assert(is_uuid_v4(id) && add_school_post(s0, *store, t, id, created_at, res) && school_reply(res, r));
    r
}

/// The answer once a user is known: with `st`, the user's profile and the
/// token `create_access_token` signs for it, which `verify_access_token`
/// with the same secret opens to the JSON of the user's claims.
pub open spec fn token_reply(r: Reply<AuthResponse>, u: User, secret: Seq<char>, st: Status) -> bool {
    &&& r is Done
    &&& r->Done_0 == st
    &&& r->Done_1.user == profile_of(u)
    &&& create_access_token_spec(claims_for(u), secret) == Ok::<Seq<char>, ErrorView>(
        r->Done_1.access_token@,
    )
    &&& verify_access_token_spec(r->Done_1.access_token@, secret) == Ok::<Seq<char>, ErrorView>(
        claims_text(claims_for(u)),
    )
}

/// The user `register_handler` builds from a request: trimmed email and
/// names, the role asked for (a student by default), active, a fresh id, and
/// a hash the trimmed password verifies against.
pub open spec fn registered_user(u: User, req: RegisterRequest) -> bool {
    &&& u.school_id == req.school_id
    &&& u.email@ == trim_spec(req.email@)
    &&& u.first_name@ == trim_spec(req.first_name@)
    &&& u.last_name@ == trim_spec(req.last_name@)
    &&& u.role == match req.role {
        Some(role) => role,
        None => UserRole::Student,
    }
    &&& u.is_active
    &&& is_uuid_v4(u.id)
    &&& password_hash_matches(trim_spec(req.password@), u.password_hash@)
}

/// What storing a new user and signing its token does: an unknown school
/// is a 422 "Invalid school_id"; a taken email a 422 with the store's text;
/// otherwise the user is stored and the answer is its token and profile
/// with 201.
pub open spec fn finish_registration_post(
    s0: AppStore,
    s1: AppStore,
    u: User,
    secret: Seq<char>,
    r: Reply<AuthResponse>,
) -> bool {
    if u.school_id is Some && first_index(school_ids(s0.schools@), u.school_id->0) is None {
        &&& s1 == s0
        &&& failed_with(r, Status::UnprocessableEntity, "Invalid school_id"@)
    } else if first_index(user_keys(s0.users@), lowercase_of(u.email@)) is Some {
        &&& s1 == s0
        &&& failed_with(
            r,
            Status::UnprocessableEntity,
            error_text(
                ErrorView::UnProcessableEntity { field: "email"@, message: "Email already exists"@ },
            ),
        )
    } else {
        &&& create_user_post(s0, s1, u, Ok(u))
        &&& token_reply(r, u, secret, Status::Created)
    }
}

/// Stores a built user and answers with its token (see
/// `finish_registration_post`).
pub fn finish_registration(store: &mut AppStore, user: User, jwt_secret: &str) -> (r: Reply<
    AuthResponse,
>)
    ensures
        finish_registration_post(*old(store), *final(store), user, jwt_secret@, r),
        old(store).wf() ==> final(store).wf(),
{
    if let Some(school_id) = user.school_id {
        if !store.school_exists(school_id) {
            return Reply::Failed(Status::UnprocessableEntity, String::from_str("Invalid school_id"));
        }
    }
    let created_user = match store.create_user(user) {
        Ok(user) => user,
        Err(err) => {
            return Reply::Failed(Status::UnprocessableEntity, err.to_string());
        },
    };
    let access_token = match create_access_token(&created_user, jwt_secret) {
        Ok(token) => token,
        Err(err) => {
            return Reply::Failed(Status::InternalServerError, err.to_string());
        },
    };
    Reply::Done(
        Status::Created,
        AuthResponse { access_token, user: UserProfile::from_user(&created_user) },
    )
}

/// What `register_handler` does: an empty email, first name, last name or
/// password (after trimming) is a 422 naming it; otherwise the user built
/// from the request (see `registered_user`) is stored and answered for as
/// `finish_registration_post` says. A trimmed password too long for argon2
/// (over `0xFFFF_FFFF` UTF-8 bytes) fails to hash instead: a 500 that
/// leaves the store unchanged.
pub open spec fn register_post(
    s0: AppStore,
    s1: AppStore,
    req: RegisterRequest,
    secret: Seq<char>,
    r: Reply<AuthResponse>,
) -> bool {
    if trim_spec(req.email@).len() == 0 {
        &&& s1 == s0
        &&& failed_with(r, Status::UnprocessableEntity, "email"@ + " cannot be empty"@)
    } else if trim_spec(req.first_name@).len() == 0 {
        &&& s1 == s0
        &&& failed_with(r, Status::UnprocessableEntity, "first_name"@ + " cannot be empty"@)
    } else if trim_spec(req.last_name@).len() == 0 {
        &&& s1 == s0
        &&& failed_with(r, Status::UnprocessableEntity, "last_name"@ + " cannot be empty"@)
    } else if trim_spec(req.password@).len() == 0 {
        &&& s1 == s0
        &&& failed_with(r, Status::UnprocessableEntity, "password cannot be empty"@)
    } else if password_fits(trim_spec(req.password@)) {
        exists|u: User| registered_user(u, req) && finish_registration_post(s0, s1, u, secret, r)
    } else {
        &&& s1 == s0
        &&& failed_with(
            r,
            Status::InternalServerError,
            error_text(ErrorView::UnAuthorized("invalid password"@)),
        )
    }
}

/// `POST /register`, with the configured token secret.
pub fn register_handler(store: &mut AppStore, req: RegisterRequest, jwt_secret: &str) -> (r: Reply<
    AuthResponse,
>)
    ensures
        register_post(*old(store), *final(store), req, jwt_secret@, r),
        old(store).wf() ==> final(store).wf(),
{
    let email = match trim_required(req.email.as_str(), "email") {
        Ok(value) => value,
        Err(err) => {
            return Reply::Failed(err.status, err.message);
        },
    };
    let first_name = match trim_required(req.first_name.as_str(), "first_name") {
        Ok(value) => value,
        Err(err) => {
            return Reply::Failed(err.status, err.message);
        },
    };
    let last_name = match trim_required(req.last_name.as_str(), "last_name") {
        Ok(value) => value,
        Err(err) => {
            return Reply::Failed(err.status, err.message);
        },
    };
    let password = trim(req.password.as_str());
    if password.as_str().is_empty() {
        return Reply::Failed(
            Status::UnprocessableEntity,
            String::from_str("password cannot be empty"),
        );
    }
    let password_hash = match hash_password(password.as_str()) {
        Ok(hash) => hash,
        Err(err) => {
            return Reply::Failed(Status::InternalServerError, err.to_string());
        },
    };
    let role = match req.role {
        Some(role) => role,
        None => UserRole::Student,
    };
    let user = User {
        id: new_uuid(),
        school_id: req.school_id,
        email,
        password_hash,
        first_name,
        last_name,
        role,
        is_active: true,
        created_at: now_timestamp(),
    };
    let ghost u = user;
    let ghost s0 = *store;
    let r = finish_registration(store, user, jwt_secret);
    assert(registered_user(u, req) && finish_registration_post(s0, *store, u, jwt_secret@, r));
    r
}

/// What `login_handler` answers: an empty email or password (after
/// trimming) is a 422; an unknown email or a wrong password a 401 "Invalid
/// email or password"; a stored hash that does not parse a 500; otherwise
/// the user's token and profile with 200.
pub open spec fn login_post(s: AppStore, req: LoginRequest, secret: Seq<char>, r: Reply<AuthResponse>) -> bool {
    let email = trim_spec(req.email@);
    let password = trim_spec(req.password@);
    if email.len() == 0 {
        failed_with(r, Status::UnprocessableEntity, "email"@ + " cannot be empty"@)
    } else if password.len() == 0 {
        failed_with(r, Status::UnprocessableEntity, "password cannot be empty"@)
    } else {
        match user_by_key(s.users@, lowercase_of(email)) {
            None => failed_with(r, Status::Unauthorized, "Invalid email or password"@),
            Some(u) => match verify_password_spec(password, u.password_hash@) {
                Err(e) => failed_with(r, Status::InternalServerError, error_text(e)),
                Ok(ok) => if ok {
                    token_reply(r, u, secret, Status::Success)
                } else {
                    failed_with(r, Status::Unauthorized, "Invalid email or password"@)
                },
            },
        }
    }
}

/// `POST /login`, with the configured token secret.
pub fn login_handler(store: &AppStore, req: LoginRequest, jwt_secret: &str) -> (r: Reply<AuthResponse>)
    ensures
        login_post(*store, req, jwt_secret@, r),
{
    let email = match trim_required(req.email.as_str(), "email") {
        Ok(value) => value,
        Err(err) => {
            return Reply::Failed(err.status, err.message);
        },
    };
    let password = trim(req.password.as_str());
    if password.as_str().is_empty() {
        return Reply::Failed(
            Status::UnprocessableEntity,
            String::from_str("password cannot be empty"),
        );
    }
    let user = match store.find_user_by_email(email.as_str()) {
        Some(user) => user,
        None => {
            return Reply::Failed(Status::Unauthorized, String::from_str("Invalid email or password"));
        },
    };
    let password_ok = match verify_password(password.as_str(), user.password_hash.as_str()) {
        Ok(result) => result,
        Err(err) => {
            return Reply::Failed(Status::InternalServerError, err.to_string());
        },
    };
    if !password_ok {
        return Reply::Failed(Status::Unauthorized, String::from_str("Invalid email or password"));
    }
    let access_token = match create_access_token(&user, jwt_secret) {
        Ok(token) => token,
        Err(err) => {
            return Reply::Failed(Status::InternalServerError, err.to_string());
        },
    };
    Reply::Done(Status::Success, AuthResponse { access_token, user: UserProfile::from_user(&user) })
}

/// After a registration succeeds, logging in with the same email (up to
/// case) and password succeeds too, with the same token and profile.
pub proof fn lemma_register_then_login(
    s0: AppStore,
    s1: AppStore,
    reg: RegisterRequest,
    secret: Seq<char>,
    r1: Reply<AuthResponse>,
    login: LoginRequest,
    r2: Reply<AuthResponse>,
)
    requires
        register_post(s0, s1, reg, secret, r1),
        r1 is Done,
        trim_spec(login.email@).len() > 0,
        lowercase_of(trim_spec(login.email@)) == lowercase_of(trim_spec(reg.email@)),
        trim_spec(login.password@) == trim_spec(reg.password@),
        login_post(s1, login, secret, r2),
    ensures
        r1 is Done && r2 is Done,
        r2->Done_0 == Status::Success,
        r2->Done_1.access_token@ == r1->Done_1.access_token@,
        r2->Done_1.user == r1->Done_1.user,
        verify_access_token_spec(r2->Done_1.access_token@, secret) == Ok::<Seq<char>, ErrorView>(
            claims_text(
                Claims {
                    sub: r2->Done_1.user.id,
                    school_id: r2->Done_1.user.school_id,
                    role: r2->Done_1.user.role,
                },
            ),
        ),
{
    let u = choose|u: User| registered_user(u, reg) && finish_registration_post(s0, s1, u, secret, r1);
    lemma_created_user_found(s0, s1, u, Ok(u), trim_spec(login.email@));
}

/// `GET /me`: the profile of the user the token names, or 404.
pub fn me_handler(store: &AppStore, ctx: &AuthContext) -> (r: Reply<UserProfile>)
    ensures
        match user_by_id(store.users@, ctx.user_id) {
            None => failed_with(r, Status::NotFound, "User not found"@),
            Some(u) => r == Reply::Done(Status::Success, profile_of(u)),
        },
{
    match store.find_user_by_id(ctx.user_id) {
        Some(user) => Reply::Done(Status::Success, UserProfile::from_user(&user)),
        None => Reply::Failed(Status::NotFound, String::from_str("User not found")),
    }
}

/// Whether the user is shown to the caller: all users to a super admin,
/// otherwise the users of the caller's school.
pub open spec fn visible_to(u: User, ctx: AuthContext) -> bool {
    ctx.role == UserRole::SuperAdmin || (ctx.school_id is Some && u.school_id == ctx.school_id)
}

/// The profiles of the users shown to the caller, in order.
pub open spec fn visible_profiles(users: Seq<User>, ctx: AuthContext) -> Seq<UserProfile>
    decreases users.len(),
{
    if users.len() == 0 {
        Seq::empty()
    } else {
        let rest = visible_profiles(users.drop_last(), ctx);
        if visible_to(users.last(), ctx) {
            rest.push(profile_of(users.last()))
        } else {
            rest
        }
    }
}

pub open spec fn is_admin(role: UserRole) -> bool {
    role == UserRole::SchoolAdmin || role == UserRole::SuperAdmin
}

/// `GET /users`: for admins, the profiles of the users they may see; 403
/// for everyone else.
pub fn get_all_users_handler(store: &AppStore, ctx: &AuthContext) -> (r: Reply<Vec<UserProfile>>)
    ensures
        if is_admin(ctx.role) {
            r matches Reply::Done(st, v) && st == Status::Success && v@ == visible_profiles(
                user_records(store.users@),
                *ctx,
            )
        } else {
            failed_with(r, Status::Forbidden, "Forbidden"@)
        },
{
    let is_admin = match ctx.role {
        UserRole::SchoolAdmin | UserRole::SuperAdmin => true,
        _ => false,
    };
    if !is_admin {
        return Reply::Failed(Status::Forbidden, String::from_str("Forbidden"));
    }
    let users = store.get_all_users();
    let is_super = match ctx.role {
        UserRole::SuperAdmin => true,
        _ => false,
    };
    let mut profiles: Vec<UserProfile> = Vec::new();
    let mut i: usize = 0;
    while i < users.len()
        invariant
            i <= users@.len(),
            is_super == (ctx.role == UserRole::SuperAdmin),
            profiles@ == visible_profiles(users@.take(i as int), *ctx),
        decreases users@.len() - i,
    {
        let u = &users[i];
        let same_school = match (ctx.school_id, u.school_id) {
            (Some(a), Some(b)) => a == b,
            _ => false,
        };
        assert(users@.take(i + 1).drop_last() =~= users@.take(i as int));
        if is_super || same_school {
            profiles.push(UserProfile::from_user(u));
        }
        i = i + 1;
    }
    assert(users@.take(i as int) =~= users@);
    Reply::Done(Status::Success, profiles)
}

/// A school admin is shown only users of its own school.
pub proof fn lemma_school_admin_sees_own_school(users: Seq<User>, ctx: AuthContext)
    requires
        ctx.role == UserRole::SchoolAdmin,
    ensures
        forall|i: int|
            0 <= i < visible_profiles(users, ctx).len() ==> ctx.school_id is Some && (
            #[trigger] visible_profiles(users, ctx)[i]).school_id == ctx.school_id,
    decreases users.len(),
{
    if users.len() > 0 {
        lemma_school_admin_sees_own_school(users.drop_last(), ctx);
    }
}

/// A super admin is shown every user, in order.
pub proof fn lemma_super_admin_sees_everyone(users: Seq<User>, ctx: AuthContext)
    requires
        ctx.role == UserRole::SuperAdmin,
    ensures
        visible_profiles(users, ctx) == users.map_values(|u: User| profile_of(u)),
    decreases users.len(),
{
    if users.len() > 0 {
        lemma_super_admin_sees_everyone(users.drop_last(), ctx);
        assert(users.map_values(|u: User| profile_of(u)) =~= users.drop_last().map_values(
            |u: User| profile_of(u),
        ).push(profile_of(users.last())));
    } else {
        assert(users.map_values(|u: User| profile_of(u)) =~= Seq::<UserProfile>::empty());
    }
}

/// `GET /schools`: all schools for a super admin; 403 for everyone else.
pub fn get_all_schools_handler(store: &AppStore, ctx: &AuthContext) -> (r: Reply<Vec<School>>)
    ensures
        if ctx.role == UserRole::SuperAdmin {
            r matches Reply::Done(st, v) && st == Status::Success && v@ == store.schools@
        } else {
            failed_with(r, Status::Forbidden, "Forbidden"@)
        },
{
    match ctx.role {
        UserRole::SuperAdmin => {},
        _ => {
            return Reply::Failed(Status::Forbidden, String::from_str("Forbidden"));
        },
    }
    Reply::Done(Status::Success, store.get_all_schools())
}

} // verus!
