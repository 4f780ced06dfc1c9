//! Authentication: the token's claims, how a request's bearer token is
//! judged, and the error responses of the authentication routes.
use vstd::prelude::*;

verus! {

/// The claims a session token carries.
pub struct Claims {
    pub user_id: String,
    pub exp: u64,
    pub iat: u64,
}

/// How long a session token stays valid, in seconds (seven days).
pub const TOKEN_LIFETIME_SECS: u64 = 604800;

/// The claims of a token issued at `issued_at` (seconds since the Unix
/// epoch) for a user: it expires seven days later.
pub fn token_claims(user_id: &str, issued_at: u64) -> (c: Claims)
    requires
        issued_at + TOKEN_LIFETIME_SECS <= u64::MAX,
    ensures
        c.user_id@ == user_id@,
        c.iat == issued_at,
        c.exp == issued_at + TOKEN_LIFETIME_SECS,
{
    Claims { user_id: user_id.to_string(), exp: issued_at + TOKEN_LIFETIME_SECS, iat: issued_at }
}

/// Why a request was not authenticated.
#[derive(Debug, Clone, Copy, PartialEq, Eq, Structural)]
pub enum AuthError {
    MissingToken,
    InvalidToken,
    ExpiredToken,
}

/// Why decoding a bearer token failed.
#[derive(Debug, Clone, Copy, PartialEq, Eq, Structural)]
pub enum TokenFailure {
    Expired,
    Invalid,
}

/// The outcome of authenticating a request: no bearer token is a missing
/// token; a token that failed to decode is expired or invalid as the
/// decoder said; a decoded token gives its claims.
pub fn authenticate(bearer_present: bool, decoded: Result<Claims, TokenFailure>) -> (r: Result<Claims, AuthError>)
    ensures
        !bearer_present ==> r == Err::<Claims, AuthError>(AuthError::MissingToken),
        bearer_present ==> match decoded {
            Ok(c) => r == Ok::<Claims, AuthError>(c),
            Err(TokenFailure::Expired) => r == Err::<Claims, AuthError>(AuthError::ExpiredToken),
            Err(TokenFailure::Invalid) => r == Err::<Claims, AuthError>(AuthError::InvalidToken),
        },
{
    if !bearer_present {
        return Err(AuthError::MissingToken);
    }
    match decoded {
        Ok(c) => Ok(c),
        Err(TokenFailure::Expired) => Err(AuthError::ExpiredToken),
        Err(TokenFailure::Invalid) => Err(AuthError::InvalidToken),
    }
}

/// An HTTP error response: status code, error name and detail.
pub struct ErrorResponse {
    pub status: u16,
    pub error: String,
    pub detail: String,
}

impl AuthError {
    /// The response sent for the error: 401 with an explanation.
    pub fn response(&self) -> (r: ErrorResponse)
        ensures
            r.status == 401,
            r.error@ == "Unauthorized"@,
            r.detail@ == match self {
                AuthError::MissingToken => "Missing or malformed Authorization header."@,
                AuthError::ExpiredToken => "Token has expired. Please re-authenticate."@,
                AuthError::InvalidToken => "Invalid authentication credentials."@,
            },
    {
        let detail = match self {
            AuthError::MissingToken => "Missing or malformed Authorization header.",
            AuthError::ExpiredToken => "Token has expired. Please re-authenticate.",
            AuthError::InvalidToken => "Invalid authentication credentials.",
        };
        ErrorResponse { status: 401, error: "Unauthorized".to_string(), detail: detail.to_string() }
    }
}

/// Sign-up form.
pub struct SignupRequest {
    pub name: String,
    pub email: String,
    pub password: String,
}

/// Log-in form.
pub struct LoginRequest {
    pub email: String,
    pub password: String,
}

/// Google sign-in: the ID token to verify.
pub struct GoogleAuthRequest {
    pub token: String,
}

/// Answer of the authentication routes.
pub struct AuthResponse {
    pub success: bool,
    pub message: Option<String>,
    pub token: Option<String>,
}

/// Failures of the authentication routes.
#[derive(Debug)]
pub enum AuthRouteError {
    EmailExists,
    InvalidCredentials,
    DatabaseError(String),
}

impl AuthRouteError {
    /// The response sent for the error.
    pub fn response(&self) -> (r: ErrorResponse)
        ensures
            r.error@ == "AuthError"@,
            match self {
                AuthRouteError::EmailExists => r.status == 400 && r.detail@ == "Email already registered"@,
                AuthRouteError::InvalidCredentials => r.status == 401 && r.detail@ == "Invalid email or password"@,
                AuthRouteError::DatabaseError(m) => r.status == 500 && r.detail@ == m@,
            },
    {
        let (status, detail) = match self {
            AuthRouteError::EmailExists => (400u16, "Email already registered".to_string()),
            AuthRouteError::InvalidCredentials => (401u16, "Invalid email or password".to_string()),
            AuthRouteError::DatabaseError(m) => (500u16, m.clone()),
        };
        ErrorResponse { status, error: "AuthError".to_string(), detail }
    }
}

/// The outcome of a log-in: an unknown e-mail and a wrong password are
/// both invalid credentials; a failed password check is a database error.
pub fn login_outcome(user_found: bool, password_check: Result<bool, String>) -> (r: Result<(), AuthRouteError>)
    ensures
        !user_found ==> (r matches Err(AuthRouteError::InvalidCredentials)),
        user_found ==> match password_check {
            Ok(true) => r is Ok,
            Ok(false) => r matches Err(AuthRouteError::InvalidCredentials),
            Err(m) => r matches Err(AuthRouteError::DatabaseError(d)) && d@ == m@,
        },
{
    if !user_found {
        return Err(AuthRouteError::InvalidCredentials);
    }
    match password_check {
        Ok(true) => Ok(()),
        Ok(false) => Err(AuthRouteError::InvalidCredentials),
        Err(m) => Err(AuthRouteError::DatabaseError(m)),
    }
}


/// What bcrypt's `verify` says of a password against a stored hash:
/// `Some(true)` or `Some(false)`, or `None` where it reports an error (a
/// hash it cannot read).
pub uninterp spec fn bcrypt_verdict(password: Seq<char>, hash: Seq<char>) -> Option<bool>;

/// `bcrypt::verify`, the error's `Display` text (not stated) passed on.
#[verifier::external_body]
fn bcrypt_verify(password: &str, hash: &str) -> (r: Result<bool, String>)
    ensures
        match bcrypt_verdict(password@, hash@) {
            Some(b) => r == Ok::<bool, String>(b),
            None => r is Err,
        },
{
    bcrypt::verify(password, hash).map_err(|e| e.to_string())
}

/// The head of a bcrypt hash made with version `2b` and cost 12
/// (`bcrypt::DEFAULT_COST`).
pub open spec fn bcrypt_cost12_prefix() -> Seq<char> {
    seq!['$', '2', 'b', '$', '1', '2', '$']
}

/// `bcrypt::hash` with `bcrypt::DEFAULT_COST` (12). The salt is drawn at
/// random, so the hash itself is not named; what is stated is what the
/// crate's source shows: the hash is written as `$2b$12$` followed by the
/// 22-character salt and the 31-character digest, and `verify` recomputes
/// it from its salt and cost, so it accepts the same password against it.
#[verifier::external_body]
fn bcrypt_hash(password: &str) -> (r: Result<String, String>)
    ensures
        r matches Ok(h) ==> bcrypt_verdict(password@, h@) == Some(true),
        r matches Ok(h) ==> h@.len() == 60 && h@.take(7) == bcrypt_cost12_prefix(),
{
    bcrypt::hash(password, bcrypt::DEFAULT_COST).map_err(|e| e.to_string())
}

pub open spec fn stored_view(stored: Option<&str>) -> Option<Seq<char>> {
    match stored {
        Some(h) => Some(h@),
        None => None,
    }
}

/// Whether a log-in succeeds: there is a local account with that e-mail
/// and its stored hash accepts the password.
pub open spec fn login_accepted(password: Seq<char>, stored: Option<Seq<char>>) -> bool {
    stored matches Some(h) && bcrypt_verdict(password, h) == Some(true)
}

/// The hash stored for a new account's password, made with bcrypt's
/// default cost 12; a failure of the hashing is reported as a database
/// error, as sign-up does.
pub fn hash_new_password(password: &str) -> (r: Result<String, AuthRouteError>)
    ensures
        r matches Ok(h) ==> login_accepted(password@, Some(h@)),
        r matches Ok(h) ==> h@.len() == 60 && h@.take(7) == bcrypt_cost12_prefix(),
        r matches Err(e) ==> e is DatabaseError,
{
    match bcrypt_hash(password) {
        Ok(h) => Ok(h),
        Err(m) => Err(AuthRouteError::DatabaseError(m)),
    }
}

/// Checks a log-in against the stored hash of the local account with the
/// given e-mail (`None` where there is none): an unknown e-mail and a wrong
/// password are both invalid credentials; a hash that cannot be checked is
/// a database error.
pub fn check_login(password: &str, stored_hash: Option<&str>) -> (r: Result<(), AuthRouteError>)
    ensures
        r is Ok <==> login_accepted(password@, stored_view(stored_hash)),
        match stored_hash {
            None => r matches Err(AuthRouteError::InvalidCredentials),
            Some(h) => match bcrypt_verdict(password@, h@) {
                Some(true) => r is Ok,
                Some(false) => r matches Err(AuthRouteError::InvalidCredentials),
                None => r matches Err(AuthRouteError::DatabaseError(_)),
            },
        },
{
    match stored_hash {
        None => login_outcome(false, Ok(false)),
        Some(h) => login_outcome(true, bcrypt_verify(password, h)),
    }
}

/// A password hashed at sign-up is accepted at log-in: a hash that bcrypt
/// accepts the password against (as every hash `hash_new_password` returns
/// is) makes `check_login` with that password succeed.
pub proof fn law_signed_up_password_logs_in(password: Seq<char>, hash: Seq<char>)
    requires
        bcrypt_verdict(password, hash) == Some(true),
    ensures
        login_accepted(password, Some(hash)),
{
}

} // verus!
