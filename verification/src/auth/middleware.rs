//! The bearer-token check in front of the protected routes.

use vstd::prelude::*;
use crate::auth::models::{Claims, UserRole};
use crate::auth::service::{verify_access_token, verify_access_token_spec};
use crate::text::chars_of;
use crate::text::string_of_range;

verus! {

/// The HTTP statuses the handlers answer with.
#[derive(Clone, Copy, Debug, PartialEq, Eq, Structural)]
pub enum Status {
    Success,
    Created,
    Unauthorized,
    Forbidden,
    NotFound,
    UnprocessableEntity,
    InternalServerError,
}

pub open spec fn status_code(s: Status) -> u16 {
    match s {
        Status::Success => 200,
        Status::Created => 201,
        Status::Unauthorized => 401,
        Status::Forbidden => 403,
        Status::NotFound => 404,
        Status::UnprocessableEntity => 422,
        Status::InternalServerError => 500,
    }
}

impl Status {
    /// The numeric HTTP status code.
    pub fn code(&self) -> (c: u16)
        ensures
            c == status_code(*self),
    {
        match self {
            Status::Success => 200,
            Status::Created => 201,
            Status::Unauthorized => 401,
            Status::Forbidden => 403,
            Status::NotFound => 404,
            Status::UnprocessableEntity => 422,
            Status::InternalServerError => 500,
        }
    }
}

/// Who is making a request, as the access token says.
#[derive(Debug, Clone, Copy, PartialEq, Eq, Structural)]
pub struct AuthContext {
    pub user_id: u128,
    pub school_id: Option<u128>,
    pub role: UserRole,
}

impl AuthContext {
    /// The context a token's claims give: its subject, school and role.
    pub fn from_claims(claims: Claims) -> (ctx: AuthContext)
        ensures
            ctx == (AuthContext { user_id: claims.sub, school_id: claims.school_id, role: claims.role }),
    {
        AuthContext { user_id: claims.sub, school_id: claims.school_id, role: claims.role }
    }
}

pub open spec fn bearer_prefix() -> Seq<char> {
    seq!['B', 'e', 'a', 'r', 'e', 'r', ' ']
}

/// The token of an `Authorization` header value: what follows `Bearer `.
pub open spec fn bearer_token_spec(header: Seq<char>) -> Option<Seq<char>> {
    if header.len() >= 7 && header.subrange(0, 7) == bearer_prefix() {
        Some(header.subrange(7, header.len() as int))
    } else {
        None
    }
}

/// What follows `Bearer ` in an `Authorization` header value, if it starts
/// with that.
pub fn bearer_token(header: &str) -> (r: Option<String>)
    ensures
        match bearer_token_spec(header@) {
            Some(t) => r matches Some(s) && s@ == t,
            None => r is None,
        },
{
    let v = chars_of(header);
    if v.len() < 7 {
        return None;
    }
    let ok = v[0] == 'B' && v[1] == 'e' && v[2] == 'a' && v[3] == 'r' && v[4] == 'e' && v[5]
        == 'r' && v[6] == ' ';
    if ok {
        assert(v@.subrange(0, 7) =~= bearer_prefix());
        Some(string_of_range(&v, 7, v.len()))
    } else {
        assert(v@.subrange(0, 7) != bearer_prefix()) by {
            if v@.subrange(0, 7) == bearer_prefix() {
                assert(v@[0] == v@.subrange(0, 7)[0]);
                assert(v@[1] == v@.subrange(0, 7)[1]);
                assert(v@[2] == v@.subrange(0, 7)[2]);
                assert(v@[3] == v@.subrange(0, 7)[3]);
                assert(v@[4] == v@.subrange(0, 7)[4]);
                assert(v@[5] == v@.subrange(0, 7)[5]);
                assert(v@[6] == v@.subrange(0, 7)[6]);
            }
        }
        None
    }
}

/// What `auth_middleware` decides for a header value and a secret.
pub open spec fn auth_middleware_spec(
    authorization: Option<Seq<char>>,
    jwt_secret: Option<Seq<char>>,
) -> Result<Seq<char>, Status> {
    match authorization {
        None => Err(Status::Unauthorized),
        Some(h) => match bearer_token_spec(h) {
            None => Err(Status::Unauthorized),
            Some(token) => match jwt_secret {
                None => Err(Status::InternalServerError),
                Some(secret) => match verify_access_token_spec(token, secret) {
                    Ok(payload) => Ok(payload),
                    Err(_) => Err(Status::Unauthorized),
                },
            },
        },
    }
}

pub open spec fn opt_str_view(o: Option<&str>) -> Option<Seq<char>> {
    match o {
        Some(s) => Some(s@),
        None => None,
    }
}

/// The check in front of the protected routes. `authorization` is the
/// `Authorization` header as text (absent, or not visible ASCII, is
/// `None`) and `jwt_secret` the configured secret (`None` when it is not
/// set). A missing header, one without the `Bearer ` prefix or a token
/// that does not verify is `Unauthorized`; a missing secret is an internal
/// error; otherwise the token's claims JSON is returned.
pub fn auth_middleware(authorization: Option<&str>, jwt_secret: Option<&str>) -> (r: Result<
    String,
    Status,
>)
    ensures
        match auth_middleware_spec(opt_str_view(authorization), opt_str_view(jwt_secret)) {
            Ok(p) => r matches Ok(s) && s@ == p,
            Err(st) => r == Err::<String, Status>(st),
        },
{
    let header = match authorization {
        Some(h) => h,
        None => {
            return Err(Status::Unauthorized);
        },
    };
    let token = match bearer_token(header) {
        Some(t) => t,
        None => {
            return Err(Status::Unauthorized);
        },
    };
    let secret = match jwt_secret {
        Some(s) => s,
        None => {
            return Err(Status::InternalServerError);
        },
    };
    match verify_access_token(token.as_str(), secret) {
        Ok(payload) => Ok(payload),
        Err(_) => Err(Status::Unauthorized),
    }
}

} // verus!
