//! The records of schools and users, the requests that create them, and
//! the claims an access token carries.

use vstd::prelude::*;
use crate::ids::{uuid_text, uuid_text_spec};

verus! {

#[derive(Clone, Copy, Debug, PartialEq, Eq, Structural)]
pub enum UserRole {
    Student,
    Lecturer,
    SchoolAdmin,
    SuperAdmin,
}

/// The camel-case name a role is written with in JSON.
pub open spec fn role_name_spec(role: UserRole) -> Seq<char> {
    match role {
        UserRole::Student => "student"@,
        UserRole::Lecturer => "lecturer"@,
        UserRole::SchoolAdmin => "schoolAdmin"@,
        UserRole::SuperAdmin => "superAdmin"@,
    }
}

impl UserRole {
    /// The camel-case name a role is written with in JSON.
    pub fn name(&self) -> (s: &'static str)
        ensures
            s@ == role_name_spec(*self),
    {
        match self {
            UserRole::Student => "student",
            UserRole::Lecturer => "lecturer",
            UserRole::SchoolAdmin => "schoolAdmin",
            UserRole::SuperAdmin => "superAdmin",
        }
    }
}

#[derive(Debug, Clone)]
pub struct School {
    pub id: u128,
    pub name: String,
    pub slug: String,
    pub is_active: bool,
    pub created_at: i64,
}

impl School {
    /// A copy of the record.
    pub fn duplicate(&self) -> (r: School)
        ensures
            r == *self,
    {
        School {
            id: self.id,
            name: self.name.clone(),
            slug: self.slug.clone(),
            is_active: self.is_active,
            created_at: self.created_at,
        }
    }
}

#[derive(Debug, Clone)]
pub struct CreateSchoolRequest {
    pub name: String,
}

#[derive(Debug, Clone)]
pub struct User {
    pub id: u128,
    pub school_id: Option<u128>,
    pub email: String,
    pub password_hash: String,
    pub first_name: String,
    pub last_name: String,
    pub role: UserRole,
    pub is_active: bool,
    pub created_at: i64,
}

impl User {
    /// A copy of the record.
    pub fn duplicate(&self) -> (r: User)
        ensures
            r == *self,
    {
        User {
            id: self.id,
            school_id: self.school_id,
            email: self.email.clone(),
            password_hash: self.password_hash.clone(),
            first_name: self.first_name.clone(),
            last_name: self.last_name.clone(),
            role: self.role,
            is_active: self.is_active,
            created_at: self.created_at,
        }
    }
}

#[derive(Debug, Clone)]
pub struct UserProfile {
    pub id: u128,
    pub school_id: Option<u128>,
    pub email: String,
    pub first_name: String,
    pub last_name: String,
    pub role: UserRole,
    pub is_active: bool,
    pub created_at: i64,
}

/// The public profile of a user: every field but the password hash.
pub open spec fn profile_of(u: User) -> UserProfile {
    UserProfile {
        id: u.id,
        school_id: u.school_id,
        email: u.email,
        first_name: u.first_name,
        last_name: u.last_name,
        role: u.role,
        is_active: u.is_active,
        created_at: u.created_at,
    }
}

impl UserProfile {
    /// The public profile of a user: every field but the password hash.
    pub fn from_user(value: &User) -> (p: UserProfile)
        ensures
            p == profile_of(*value),
    {
        UserProfile {
            id: value.id,
            school_id: value.school_id,
            email: value.email.clone(),
            first_name: value.first_name.clone(),
            last_name: value.last_name.clone(),
            role: value.role,
            is_active: value.is_active,
            created_at: value.created_at,
        }
    }
}

impl<'a> From<&'a User> for UserProfile {
    fn from(value: &'a User) -> (p: UserProfile) {
        UserProfile::from_user(value)
    }
}

impl<'a> vstd::std_specs::convert::FromSpecImpl<&'a User> for UserProfile {
    open spec fn obeys_from_spec() -> bool {
        true
    }

    open spec fn from_spec(v: &'a User) -> UserProfile {
        profile_of(*v)
    }
}

#[derive(Debug, Clone)]
pub struct RegisterRequest {
    pub school_id: Option<u128>,
    pub email: String,
    pub password: String,
    pub first_name: String,
    pub last_name: String,
    pub role: Option<UserRole>,
}

#[derive(Debug, Clone)]
pub struct LoginRequest {
    pub email: String,
    pub password: String,
}

#[derive(Debug, Clone)]
pub struct AuthResponse {
    pub access_token: String,
    pub user: UserProfile,
}

#[derive(Debug, Clone, Copy, PartialEq, Eq, Structural)]
pub struct Claims {
    pub sub: u128,
    pub school_id: Option<u128>,
    pub role: UserRole,
}

/// The claims a token for `u` carries: its id, school and role.
pub open spec fn claims_for(u: User) -> Claims {
    Claims { sub: u.id, school_id: u.school_id, role: u.role }
}

/// The compact JSON text of claims, keys in declaration order, ids as
/// hyphenated UUID strings, a missing school as `null`, the role by name.
pub open spec fn claims_text(c: Claims) -> Seq<char> {
    "{\"sub\":\""@ + uuid_text_spec(c.sub) + "\",\"school_id\":"@ + match c.school_id {
        None => "null"@,
        Some(s) => "\""@ + uuid_text_spec(s) + "\""@,
    } + ",\"role\":\""@ + role_name_spec(c.role) + "\"}"@
}

/// Whether a text is the JSON of some claims.
pub open spec fn is_claims_text(p: Seq<char>) -> bool {
    exists|c: Claims| p == claims_text(c)
}

impl Claims {
    /// The claims a token for `user` carries.
    pub fn for_user(user: &User) -> (c: Claims)
        ensures
            c == claims_for(*user),
    {
        Claims { sub: user.id, school_id: user.school_id, role: user.role }
    }

    /// The compact JSON text of the claims (see `claims_text`).
    pub fn to_json(&self) -> (s: String)
        ensures
            s@ == claims_text(*self),
    {
        let mut s = String::from_str("{\"sub\":\"");
        let sub = uuid_text(self.sub);
        s.append(sub.as_str());
        s.append("\",\"school_id\":");
        match self.school_id {
            None => {
                s.append("null");
            },
            Some(id) => {
                s.append("\"");
                let school = uuid_text(id);
                s.append(school.as_str());
                s.append("\"");
            },
        }
        s.append(",\"role\":\"");
        s.append(self.role.name());
        s.append("\"}");
        s
    }
}

} // verus!
