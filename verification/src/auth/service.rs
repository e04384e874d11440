//! Password hashing with Argon2 and HS256-signed access tokens.

use vstd::prelude::*;
use argon2::{
    Argon2, PasswordHash, PasswordHasher, PasswordVerifier,
    password_hash::{SaltString, rand_core::OsRng},
};
use crate::auth::models::{Claims, User, claims_for, claims_text, is_claims_text};
use crate::errors::{AppError, ErrorView};
use vstd::utf8::encode_utf8;

verus! {

/// What `argon2::PasswordHash::new` makes of a text: `Ok` when it is a
/// well-formed PHC hash string, else the text of the parse error.
pub uninterp spec fn phc_parse(hash: Seq<char>) -> Result<(), Seq<char>>;

/// Whether `Argon2::default().verify_password` accepts the password (as the
/// UTF-8 bytes of its characters) against the parsed PHC hash string.
pub uninterp spec fn argon2_verifies(password: Seq<char>, hash: Seq<char>) -> bool;

/// The last field of the PHC string `Argon2::default().hash_password`
/// writes for a password (as the UTF-8 bytes of its characters) and a salt:
/// the B64 text of the 32-byte Argon2id output.
pub uninterp spec fn argon2_output(password: Seq<char>, salt: Seq<char>) -> Seq<char>;

/// What `jsonwebtoken::encode` returns for the JSON payload `payload`,
/// the default header (HS256) and the secret `secret`: the token, or the
/// text of the error.
pub uninterp spec fn jwt_signed(payload: Seq<char>, secret: Seq<char>) -> Result<
    Seq<char>,
    Seq<char>,
>;

/// What `jsonwebtoken::decode` makes of a token with the secret, without
/// expiry checks and with no claim required: the JSON payload text, or the
/// text of the error.
pub uninterp spec fn token_payload(token: Seq<char>, secret: Seq<char>) -> Result<
    Seq<char>,
    Seq<char>,
>;

/// The start of every PHC string `Argon2::default()` writes: the argon2id
/// algorithm, version 19 and the default costs (m = 19456 KiB, t = 2, p = 1).
pub open spec fn argon2_default_prefix() -> Seq<char> {
    "$argon2id$v=19$m=19456,t=2,p=1$"@
}

/// Whether `c` is in the standard Base64 alphabet.
pub open spec fn is_b64_char(c: char) -> bool {
    ('A' <= c && c <= 'Z') || ('a' <= c && c <= 'z') || ('0' <= c && c <= '9') || c == '+' || c
        == '/'
}

/// A salt text as `SaltString::generate` makes it: 16 bytes in unpadded
/// Base64, that is 22 characters of the alphabet whose last one carries
/// two data bits and four zero bits (`A`, `Q`, `g` or `w`).
pub open spec fn is_salt_text(salt: Seq<char>) -> bool {
    &&& salt.len() == 22
    &&& forall|i: int| 0 <= i < 22 ==> is_b64_char(#[trigger] salt[i])
    &&& (salt[21] == 'A' || salt[21] == 'Q' || salt[21] == 'g' || salt[21] == 'w')
}

/// The PHC string `Argon2::default()` writes for a password and a salt:
/// the default prefix, the salt, a `$` and the Argon2id output.
pub open spec fn argon2_phc(password: Seq<char>, salt: Seq<char>) -> Seq<char> {
    argon2_default_prefix() + salt + seq!['$'] + argon2_output(password, salt)
}

/// Whether a text starts with `argon2_default_prefix()`.
pub open spec fn has_argon2_default_prefix(h: Seq<char>) -> bool {
    h.len() >= argon2_default_prefix().len() && h.take(argon2_default_prefix().len() as int)
        == argon2_default_prefix()
}

/// Whether the UTF-8 bytes of a password fit the argon2 limit of
/// `0xFFFF_FFFF` bytes (`argon2::MAX_PWD_LEN`).
pub open spec fn password_fits(password: Seq<char>) -> bool {
    encode_utf8(password).len() <= 0xFFFF_FFFF
}

/// The longest password (in characters) whose UTF-8 bytes surely fit the
/// argon2 limit: four bytes per character at most.
pub open spec fn max_password_chars() -> nat {
    0x3fff_ffff
}

/// The UTF-8 encoding of a text takes at most four bytes per character.
pub proof fn lemma_utf8_len_bound(s: Seq<char>)
    ensures
        encode_utf8(s).len() <= 4 * s.len(),
    decreases s.len(),
{
    if s.len() > 0 {
        lemma_utf8_len_bound(s.drop_first());
    }
}

/// A password of at most `max_password_chars()` characters fits argon2.
pub proof fn lemma_short_password_fits(password: Seq<char>)
    requires
        password.len() <= max_password_chars(),
    ensures
        password_fits(password),
{
    lemma_utf8_len_bound(password);
}

/// A stored password hash that the password verifies against.
pub open spec fn password_hash_matches(password: Seq<char>, hash: Seq<char>) -> bool {
    phc_parse(hash) is Ok && argon2_verifies(password, hash)
}

/// Draws a salt with `SaltString::generate(&mut OsRng)`: 16 random bytes
/// from the operating system, as their unpadded Base64 text. The bytes are
/// random, so only the form of the text is claimed.
#[verifier::external_body]
fn generate_salt() -> (salt: String)
    ensures
        is_salt_text(salt@),
{
    SaltString::generate(&mut OsRng).as_str().to_string()
}

/// Hashes `password` under `salt` with `Argon2::default().hash_password`
/// (the salt taken by `SaltString::from_b64`, which accepts every
/// `is_salt_text`), giving the PHC string or the error's text. The string
/// is `argon2_phc`: the algorithm, version and default costs, the salt, and
/// the output, which depends on password and salt alone; it parses back
/// with `PasswordHash::new` and the same password verifies against it.
/// With such a salt the one input check that can fail is the password
/// length: more than `0xFFFF_FFFF` bytes is `PwdTooLong`, which
/// `password_hash` reports as `Error::Password`, shown as
/// "invalid password".
#[verifier::external_body]
fn argon2_hash(password: &str, salt: &str) -> (r: Result<String, String>)
    requires
        is_salt_text(salt@),
    ensures
        r matches Ok(h) ==> h@ == argon2_default_prefix() + salt@ + seq!['$'] + argon2_output(
            password@,
            salt@,
        ),
        r matches Ok(h) ==> password_hash_matches(password@, h@),
        r is Ok <==> password_fits(password@),
        r matches Err(e) ==> e@ == "invalid password"@,
{
    let salt = SaltString::from_b64(salt).map_err(|err| err.to_string())?;
    Argon2::default().hash_password(password.as_bytes(), &salt).map(|hash| hash.to_string()).map_err(
        |err| err.to_string(),
    )
}

/// Parses `hash` with `PasswordHash::new` and, when it parses, checks the
/// password with `Argon2::default().verify_password`; a parse error is
/// returned as its text. Both results are named (`phc_parse`,
/// `argon2_verifies`).
#[verifier::external_body]
fn argon2_check(password: &str, hash: &str) -> (r: Result<bool, String>)
    ensures
        match r {
            Ok(b) => phc_parse(hash@) is Ok && b == argon2_verifies(password@, hash@),
            Err(e) => phc_parse(hash@) == Err::<(), Seq<char>>(e@),
        },
{
    match PasswordHash::new(hash) {
        Ok(parsed) => Ok(Argon2::default().verify_password(password.as_bytes(), &parsed).is_ok()),
        Err(err) => Err(err.to_string()),
    }
}

/// Signs the JSON text `payload` with `jsonwebtoken::encode` under
/// `Header::default()` (HS256) and `EncodingKey::from_secret`, the payload
/// handed over verbatim as a `serde_json` raw value; an error is returned
/// as its text. The source shows that `decode` with the same secret and
/// the checks `jwt_decode` uses accepts a token made from the JSON of
/// claims (no `exp`, `nbf`, `iss` or `aud` member, only plain strings) and
/// gives back that payload verbatim. With an HMAC key and the HS256 header,
/// encoding a valid JSON text (such as the JSON of claims) cannot fail.
/// The name `jwt_signed` stands for the two calls together: the raw-value
/// check of the payload and `encode`.
#[verifier::external_body]
fn jwt_encode(payload: &str, secret: &str) -> (r: Result<String, String>)
    ensures
        is_claims_text(payload@) ==> r is Ok,
        match r {
            Ok(t) => jwt_signed(payload@, secret@) == Ok::<Seq<char>, Seq<char>>(t@),
            Err(e) => jwt_signed(payload@, secret@) == Err::<Seq<char>, Seq<char>>(e@),
        },
        r matches Ok(t) ==> (is_claims_text(payload@) ==> token_payload(t@, secret@) == Ok::<
            Seq<char>,
            Seq<char>,
        >(payload@)),
{
    let raw = serde_json::value::RawValue::from_string(payload.to_string()).map_err(
        |err| err.to_string(),
    )?;
    jsonwebtoken::encode(
        &jsonwebtoken::Header::default(),
        &raw,
        &jsonwebtoken::EncodingKey::from_secret(secret.as_bytes()),
    ).map_err(|err| err.to_string())
}

/// Checks and opens a token with `jsonwebtoken::decode` and
/// `DecodingKey::from_secret`, under `Validation::default()` with
/// `validate_exp` off and no required claims (tokens do not expire),
/// giving the payload's JSON text verbatim or the error's text.
#[verifier::external_body]
fn jwt_decode(token: &str, secret: &str) -> (r: Result<String, String>)
    ensures
        match r {
            Ok(p) => token_payload(token@, secret@) == Ok::<Seq<char>, Seq<char>>(p@),
            Err(e) => token_payload(token@, secret@) == Err::<Seq<char>, Seq<char>>(e@),
        },
{
    let mut validation = jsonwebtoken::Validation::default();
    validation.validate_exp = false;
    validation.required_spec_claims.clear();
    jsonwebtoken::decode::<Box<serde_json::value::RawValue>>(
        token,
        &jsonwebtoken::DecodingKey::from_secret(secret.as_bytes()),
        &validation,
    ).map(|data| data.claims.get().to_string()).map_err(|err| err.to_string())
}

/// What hashing a password under a salt gives: the PHC string, or for a
/// password too long for argon2 `UnAuthorized` "invalid password".
pub open spec fn hash_with_salt_spec(password: Seq<char>, salt: Seq<char>) -> Result<
    Seq<char>,
    ErrorView,
> {
    if password_fits(password) {
        Ok(argon2_phc(password, salt))
    } else {
        Err(ErrorView::UnAuthorized("invalid password"@))
    }
}

/// Hashes a password with Argon2 under a given salt (one that
/// `SaltString::generate` could have drawn); see `hash_with_salt_spec`.
/// The hash embeds the salt, and the same password verifies against it.
pub fn hash_password_with_salt(password: &str, salt: &str) -> (r: Result<String, AppError>)
    requires
        is_salt_text(salt@),
    ensures
        view_text_result(r) == hash_with_salt_spec(password@, salt@),
        r matches Ok(h) ==> password_hash_matches(password@, h@) && has_argon2_default_prefix(h@),
{
    match argon2_hash(password, salt) {
        Ok(hash) => {
            proof {
                lemma_phc_prefix(password@, salt@);
            }
            Ok(hash)
        },
        Err(err) => Err(AppError::UnAuthorized(err)),
    }
}

/// A PHC string of ours starts with the default prefix and holds the salt
/// right after it, followed by a `$`.
pub proof fn lemma_phc_prefix(password: Seq<char>, salt: Seq<char>)
    ensures
        has_argon2_default_prefix(argon2_phc(password, salt)),
        argon2_phc(password, salt).subrange(
            argon2_default_prefix().len() as int,
            (argon2_default_prefix().len() + salt.len()) as int,
        ) == salt,
        argon2_phc(password, salt)[(argon2_default_prefix().len() + salt.len()) as int] == '$',
{
    let p = argon2_default_prefix();
    let h = argon2_phc(password, salt);
    assert(h.take(p.len() as int) =~= p);
    assert(h.subrange(p.len() as int, (p.len() + salt.len()) as int) =~= salt);
    assert(h[(p.len() + salt.len()) as int] == '$');
}

/// Hashes under two different salts of the drawn form never give the same
/// string: each hash holds its own salt.
pub proof fn lemma_different_salts_differ(
    password1: Seq<char>,
    salt1: Seq<char>,
    password2: Seq<char>,
    salt2: Seq<char>,
)
    requires
        is_salt_text(salt1),
        is_salt_text(salt2),
        salt1 != salt2,
    ensures
        argon2_phc(password1, salt1) != argon2_phc(password2, salt2),
{
    lemma_phc_prefix(password1, salt1);
    lemma_phc_prefix(password2, salt2);
}

/// Hashes a password with Argon2 and a fresh random salt. A hash the call
/// returns is the PHC string of the password under some salt of the drawn
/// form (argon2id, the default costs, that salt, the output), and the same
/// password verifies against it. It fails only for a password too long for
/// argon2 (over `0xFFFF_FFFF` UTF-8 bytes), reported as `UnAuthorized`
/// "invalid password".
pub fn hash_password(password: &str) -> (r: Result<String, AppError>)
    ensures
        match r {
            Ok(h) => password_hash_matches(password@, h@) && has_argon2_default_prefix(h@)
                && exists|salt: Seq<char>| is_salt_text(salt) && h@ == argon2_phc(password@, salt),
            Err(e) => e@ == ErrorView::UnAuthorized("invalid password"@),
        },
        r is Ok <==> password_fits(password@),
        password@.len() <= max_password_chars() ==> r is Ok,
{
    proof {
        if password@.len() <= max_password_chars() {
            lemma_short_password_fits(password@);
        }
    }
    let salt = generate_salt();
    hash_password_with_salt(password, salt.as_str())
}

/// What `verify_password` returns for a password and a stored hash.
pub open spec fn verify_password_spec(password: Seq<char>, hash: Seq<char>) -> Result<
    bool,
    ErrorView,
> {
    match phc_parse(hash) {
        Ok(_) => Ok(argon2_verifies(password, hash)),
        Err(m) => Err(ErrorView::UnAuthorized(m)),
    }
}

pub open spec fn view_bool_result(r: Result<bool, AppError>) -> Result<bool, ErrorView> {
    match r {
        Ok(b) => Ok(b),
        Err(e) => Err(e@),
    }
}

/// Checks a password against a stored PHC hash string: `UnAuthorized` with
/// the parse error when the hash does not parse, else whether it matches.
pub fn verify_password(password: &str, password_hash: &str) -> (r: Result<bool, AppError>)
    ensures
        view_bool_result(r) == verify_password_spec(password@, password_hash@),
{
    match argon2_check(password, password_hash) {
        Ok(ok) => Ok(ok),
        Err(err) => Err(AppError::UnAuthorized(err)),
    }
}

/// A password verifies against any hash that `hash_password` made of it.
pub proof fn lemma_hashed_password_verifies(password: Seq<char>, hash: Seq<char>)
    requires
        password_hash_matches(password, hash),
    ensures
        verify_password_spec(password, hash) == Ok::<bool, ErrorView>(true),
{
}

/// What `create_access_token` returns for claims and a secret.
pub open spec fn create_access_token_spec(claims: Claims, secret: Seq<char>) -> Result<
    Seq<char>,
    ErrorView,
> {
    match jwt_signed(claims_text(claims), secret) {
        Ok(t) => Ok(t),
        Err(m) => Err(ErrorView::UnAuthorized(m)),
    }
}

/// Signs an access token for `user`: the HS256 token of the JSON of its
/// claims (id, school, role) under `secret`. A failure is reported as
/// `UnAuthorized`. A token it returns is one that `verify_access_token`
/// with the same secret accepts, giving back the JSON of those claims.
pub fn create_access_token(user: &User, secret: &str) -> (r: Result<String, AppError>)
    ensures
        r is Ok,
        view_text_result(r) == create_access_token_spec(claims_for(*user), secret@),
        r matches Ok(t) ==> verify_access_token_spec(t@, secret@) == Ok::<Seq<char>, ErrorView>(
            claims_text(claims_for(*user)),
        ),
{
    let claims = Claims::for_user(user);
    let payload = claims.to_json();
    assert(is_claims_text(payload@));
    match jwt_encode(payload.as_str(), secret) {
        Ok(token) => Ok(token),
        Err(err) => Err(AppError::UnAuthorized(err)),
    }
}

/// What `verify_access_token` returns for a token and a secret.
pub open spec fn verify_access_token_spec(token: Seq<char>, secret: Seq<char>) -> Result<
    Seq<char>,
    ErrorView,
> {
    match token_payload(token, secret) {
        Ok(p) => Ok(p),
        Err(m) => Err(ErrorView::InternalServerError(m)),
    }
}

pub open spec fn view_text_result(r: Result<String, AppError>) -> Result<Seq<char>, ErrorView> {
    match r {
        Ok(s) => Ok(s@),
        Err(e) => Err(e@),
    }
}

/// Checks a token's signature under `secret` (tokens do not expire) and
/// gives back the JSON text of its claims; a failure is reported as
/// `InternalServerError` with the decoder's error text.
pub fn verify_access_token(token: &str, secret: &str) -> (r: Result<String, AppError>)
    ensures
        view_text_result(r) == verify_access_token_spec(token@, secret@),
{
    match jwt_decode(token, secret) {
        Ok(payload) => Ok(payload),
        Err(err) => Err(AppError::InternalServerError(err)),
    }
}

} // verus!
