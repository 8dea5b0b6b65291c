//! The management API: which action a request asks for, and how it is answered.

use crate::auth::token_resolver::{hash_token, token_hash};
use crate::encoding::{is_random_uuid, parse_uuid, random_uuid, uuid_value};
use crate::handlers::auth_check::{bearer_token, header_text, token_in};
use crate::text::{
    begins_with, concat2, contains, fields, hex_digits, occurs_in, same_text, split_at_char,
    starts_with, strip, texts, to_hex,
};
use vstd::prelude::*;
use vstd::string::StringExecFns;

verus! {

pub const OK_STATUS: u16 = 200;

pub const CREATED: u16 = 201;

pub const BAD_REQUEST: u16 = 400;

pub const UNAUTHORIZED: u16 = 401;

pub const NOT_FOUND: u16 = 404;

pub const CONFLICT: u16 = 409;

pub const INTERNAL_SERVER_ERROR: u16 = 500;

/// A refusal with its status and reason.
#[derive(Debug)]
pub struct Refusal {
    pub status: u16,
    pub error: String,
}

impl Refusal {
    /// Whether the refusal has this status and reason.
    pub open spec fn is(&self, status: u16, reason: Seq<char>) -> bool {
        self.status == status && self.error@ == reason
    }

    fn new(status: u16, reason: &str) -> (r: Self)
        ensures
            r.is(status, reason@),
    {
        Refusal { status, error: reason.to_owned() }
    }
}

// ---------------------------------------------------------------------------
// Routes
// ---------------------------------------------------------------------------

/// What a request asks for.
#[derive(Debug, Clone, Copy, PartialEq, Eq, Structural)]
pub enum ManagementRoute {
    CreateUser,
    Login,
    ListProjects,
    CreateProject,
    ListPipes { project_id: u128 },
    CreatePipe { project_id: u128 },
    CreateToken { project_id: u128 },
    RevokeToken { project_id: u128, token_id: u128 },
    ListApiKeys { project_id: u128 },
    RegisterApiKey { project_id: u128 },
    DeleteApiKey { project_id: u128, key_id: u128 },
    ListProjectPricing { project_id: u128 },
    ListSpendingLimits,
    SetSpendingLimit,
    SetCustomPricing,
    ListCustomPricing,
    InvalidProjectId,
    NotFound,
}

/// What a request below a project asks for, given the ids in its path.
pub open spec fn project_route_of(
    method: Seq<char>,
    project_id: Option<u128>,
    sub_path: Seq<char>,
    sub_id: Option<u128>,
) -> ManagementRoute {
    match project_id {
        None => ManagementRoute::InvalidProjectId,
        Some(project_id) => if method == "GET"@ && sub_path == "pipes"@ {
            ManagementRoute::ListPipes { project_id }
        } else if method == "POST"@ && sub_path == "pipes"@ {
            ManagementRoute::CreatePipe { project_id }
        } else if method == "POST"@ && sub_path == "tokens"@ {
            ManagementRoute::CreateToken { project_id }
        } else if method == "DELETE"@ && sub_path == "tokens"@ && sub_id is Some {
            ManagementRoute::RevokeToken { project_id, token_id: sub_id->0 }
        } else if method == "GET"@ && sub_path == "api-keys"@ {
            ManagementRoute::ListApiKeys { project_id }
        } else if method == "POST"@ && sub_path == "api-keys"@ {
            ManagementRoute::RegisterApiKey { project_id }
        } else if method == "DELETE"@ && sub_path == "api-keys"@ && sub_id is Some {
            ManagementRoute::DeleteApiKey { project_id, key_id: sub_id->0 }
        } else if method == "GET"@ && sub_path == "pricing"@ {
            ManagementRoute::ListProjectPricing { project_id }
        } else {
            ManagementRoute::NotFound
        },
    }
}

/// What a request below a project asks for, given the ids in its path.
pub fn project_route(
    method: &str,
    project_id: Option<u128>,
    sub_path: &str,
    sub_id: Option<u128>,
) -> (r: ManagementRoute)
    ensures
        r == project_route_of(method@, project_id, sub_path@, sub_id),
{
    let project_id: u128 = match project_id {
        Some(id) => id,
        None => {
            return ManagementRoute::InvalidProjectId;
        },
    };
    let get: bool = same_text(method, "GET");
    let post: bool = same_text(method, "POST");
    let delete: bool = same_text(method, "DELETE");
    proof {
        reveal_strlit("GET");
        reveal_strlit("POST");
        reveal_strlit("DELETE");
    }
    if same_text(sub_path, "pipes") && get {
        return ManagementRoute::ListPipes { project_id };
    }
    if same_text(sub_path, "pipes") && post {
        return ManagementRoute::CreatePipe { project_id };
    }
    if same_text(sub_path, "tokens") && post {
        return ManagementRoute::CreateToken { project_id };
    }
    if same_text(sub_path, "tokens") && delete {
        if let Some(token_id) = sub_id {
            return ManagementRoute::RevokeToken { project_id, token_id };
        }
    }
    if same_text(sub_path, "api-keys") && get {
        return ManagementRoute::ListApiKeys { project_id };
    }
    if same_text(sub_path, "api-keys") && post {
        return ManagementRoute::RegisterApiKey { project_id };
    }
    if same_text(sub_path, "api-keys") && delete {
        if let Some(key_id) = sub_id {
            return ManagementRoute::DeleteApiKey { project_id, key_id };
        }
    }
    if same_text(sub_path, "pricing") && get {
        return ManagementRoute::ListProjectPricing { project_id };
    }
    ManagementRoute::NotFound
}

pub const PROJECTS_PREFIX: &'static str = "/api/v1/projects/";

/// A path without the prefix, however often it stands at its beginning.
pub open spec fn without_prefix(path: Seq<char>, prefix: Seq<char>) -> Seq<char>
    decreases path.len(),
{
    if prefix.len() > 0 && begins_with(path, prefix) {
        without_prefix(path.skip(prefix.len() as int), prefix)
    } else {
        path
    }
}

fn strip_projects_prefix(path: &str) -> (r: &str)
    ensures
        r@ == without_prefix(path@, PROJECTS_PREFIX@),
    decreases path@.len(),
{
    proof {
        reveal_strlit("/api/v1/projects/");
    }
    match strip(path, PROJECTS_PREFIX) {
        Some(rest) => strip_projects_prefix(rest),
        None => path,
    }
}

/// A segment of a path, empty where there are fewer.
pub open spec fn segment(segments: Seq<Seq<char>>, i: int) -> Seq<char> {
    if 0 <= i < segments.len() { segments[i] } else { Seq::empty() }
}

/// The id in a segment of a path.
pub open spec fn segment_id(segments: Seq<Seq<char>>, i: int) -> Option<u128> {
    if 0 <= i < segments.len() { uuid_value(segments[i]) } else { None }
}

/// What a request asks for.
pub open spec fn route_of(method: Seq<char>, path: Seq<char>) -> ManagementRoute {
    if method == "POST"@ && path == "/api/v1/users"@ {
        ManagementRoute::CreateUser
    } else if method == "POST"@ && path == "/api/v1/auth/login"@ {
        ManagementRoute::Login
    } else if method == "GET"@ && path == "/api/v1/projects"@ {
        ManagementRoute::ListProjects
    } else if method == "POST"@ && path == "/api/v1/projects"@ {
        ManagementRoute::CreateProject
    } else if begins_with(path, PROJECTS_PREFIX@) {
        let segments = fields(without_prefix(path, PROJECTS_PREFIX@), '/');
        project_route_of(method, segment_id(segments, 0), segment(segments, 1), segment_id(
            segments,
            2,
        ))
    } else if method == "GET"@ && path == "/api/v1/spending-limits"@ {
        ManagementRoute::ListSpendingLimits
    } else if method == "PUT"@ && path == "/api/v1/spending-limits"@ {
        ManagementRoute::SetSpendingLimit
    } else if method == "POST"@ && path == "/api/v1/pricing/custom"@ {
        ManagementRoute::SetCustomPricing
    } else if method == "GET"@ && path == "/api/v1/pricing/custom"@ {
        ManagementRoute::ListCustomPricing
    } else {
        ManagementRoute::NotFound
    }
}

fn project_sub_route(method: &str, path: &str) -> (r: ManagementRoute)
    ensures
        ({
            let segments = fields(without_prefix(path@, PROJECTS_PREFIX@), '/');
            r == project_route_of(
                method@,
                segment_id(segments, 0),
                segment(segments, 1),
                segment_id(segments, 2),
            )
        }),
{
    let rest: &str = strip_projects_prefix(path);
    let segments: Vec<String> = split_at_char(rest, '/');
    let ghost all = fields(rest@, '/');
    assert(texts(segments@) == all);
    assert(all.len() == segments@.len());
    assert(all[0] == segments@[0]@);
    let project_id: Option<u128> = parse_uuid(segments[0].as_str());
    let sub_path: &str = if segments.len() > 1 {
        assert(all[1] == segments@[1]@);
        segments[1].as_str()
    } else {
        ""
    };
    proof {
        reveal_strlit("");
        if segments@.len() <= 1 {
            assert(sub_path@ =~= Seq::empty());
        }
    }
    let sub_id: Option<u128> = if segments.len() > 2 {
        assert(all[2] == segments@[2]@);
        parse_uuid(segments[2].as_str())
    } else {
        None
    };
    project_route(method, project_id, sub_path, sub_id)
}

/// What a request asks for, by its method and path.
pub fn management_route(method: &str, path: &str) -> (r: ManagementRoute)
    ensures
        r == route_of(method@, path@),
{
    if same_text(method, "POST") && same_text(path, "/api/v1/users") {
        return ManagementRoute::CreateUser;
    }
    if same_text(method, "POST") && same_text(path, "/api/v1/auth/login") {
        return ManagementRoute::Login;
    }
    if same_text(method, "GET") && same_text(path, "/api/v1/projects") {
        return ManagementRoute::ListProjects;
    }
    if same_text(method, "POST") && same_text(path, "/api/v1/projects") {
        return ManagementRoute::CreateProject;
    }
    if starts_with(path, PROJECTS_PREFIX) {
        return project_sub_route(method, path);
    }
    if same_text(method, "GET") && same_text(path, "/api/v1/spending-limits") {
        return ManagementRoute::ListSpendingLimits;
    }
    if same_text(method, "PUT") && same_text(path, "/api/v1/spending-limits") {
        return ManagementRoute::SetSpendingLimit;
    }
    if same_text(method, "POST") && same_text(path, "/api/v1/pricing/custom") {
        return ManagementRoute::SetCustomPricing;
    }
    if same_text(method, "GET") && same_text(path, "/api/v1/pricing/custom") {
        return ManagementRoute::ListCustomPricing;
    }
    ManagementRoute::NotFound
}

/// Whether an action is for signed-in users alone.
pub open spec fn is_protected(route: ManagementRoute) -> bool {
    !(route is CreateUser || route is Login || route is InvalidProjectId || route is NotFound)
}

/// Whether an action is for signed-in users alone.
pub fn needs_sign_in(route: ManagementRoute) -> (b: bool)
    ensures
        b == is_protected(route),
{
    match route {
        ManagementRoute::CreateUser | ManagementRoute::Login | ManagementRoute::InvalidProjectId
        | ManagementRoute::NotFound => false,
        _ => true,
    }
}

/// Whether `r` is the refusal of a request that asks for nothing there is.
pub open spec fn refuses(route: ManagementRoute, r: Option<Refusal>) -> bool {
    match r {
        Some(e) => {
            ||| route is InvalidProjectId && e.is(BAD_REQUEST, "invalid project id"@)
            ||| route is NotFound && e.is(NOT_FOUND, "not found"@)
        },
        None => !(route is InvalidProjectId || route is NotFound),
    }
}

/// The refusal of a request that asks for nothing there is: its project id is
/// none, or its path is unknown.
pub fn refused_route(route: ManagementRoute) -> (r: Option<Refusal>)
    ensures
        refuses(route, r),
{
    match route {
        ManagementRoute::InvalidProjectId => Some(Refusal::new(BAD_REQUEST, "invalid project id")),
        ManagementRoute::NotFound => Some(Refusal::new(NOT_FOUND, "not found")),
        _ => None,
    }
}

/// Whether an action makes something new.
pub open spec fn creates(route: ManagementRoute) -> bool {
    ||| route is CreateUser
    ||| route is CreateProject
    ||| route is CreatePipe
    ||| route is CreateToken
    ||| route is RegisterApiKey
}

/// The status of an action that was done.
pub open spec fn success_code(route: ManagementRoute) -> u16 {
    if creates(route) { CREATED } else { OK_STATUS }
}

/// The status of an action that was done.
pub fn success_status(route: ManagementRoute) -> (r: u16)
    ensures
        r == success_code(route),
{
    match route {
        ManagementRoute::CreateUser | ManagementRoute::CreateProject
        | ManagementRoute::CreatePipe { .. } | ManagementRoute::CreateToken { .. }
        | ManagementRoute::RegisterApiKey { .. } => CREATED,
        _ => OK_STATUS,
    }
}

/// Whether `r` is the refusal of an action that the database did not do.
pub open spec fn fails_with(route: ManagementRoute, error: Seq<char>, r: Refusal) -> bool {
    if route is RegisterApiKey && is_duplicate(error) {
        r.is(CONFLICT, "API key already registered"@)
    } else if route is CreateUser || route is CreateProject || route is CreatePipe {
        r.is(CONFLICT, error)
    } else {
        r.is(INTERNAL_SERVER_ERROR, error)
    }
}

/// The refusal of an action that the database did not do: a conflict for
/// what is named by its user, and for a key that it speaks of as a duplicate.
pub fn storage_failure(route: ManagementRoute, error: String) -> (r: Refusal)
    ensures
        fails_with(route, error@, r),
{
    match route {
        ManagementRoute::RegisterApiKey { .. } => registration_failure(error),
        ManagementRoute::CreateUser | ManagementRoute::CreateProject
        | ManagementRoute::CreatePipe { .. } => Refusal { status: CONFLICT, error },
        _ => Refusal { status: INTERNAL_SERVER_ERROR, error },
    }
}

// ---------------------------------------------------------------------------
// Sign-in
// ---------------------------------------------------------------------------

/// Whether `r` is the token of a request, or the refusal of one without.
pub open spec fn is_sign_in_token(token: Option<Seq<char>>, r: Result<String, Refusal>) -> bool {
    match r {
        Ok(t) => token == Some(t@),
        Err(e) => token is None && e.is(UNAUTHORIZED, "missing bearer token"@),
    }
}

/// The token a user signs in with, or the refusal of a request without.
pub fn sign_in_token(auth_header: Option<&str>) -> (r: Result<String, Refusal>)
    ensures
        is_sign_in_token(token_in(header_text(auth_header)), r),
{
    match bearer_token(auth_header) {
        Some(t) => Ok(t),
        None => Err(Refusal::new(UNAUTHORIZED, "missing bearer token")),
    }
}

/// Whether `r` is the user of a token, given whether the token is valid and
/// which id its subject denotes.
pub open spec fn is_claimed_user(
    valid: bool,
    user_id: Option<u128>,
    r: Result<u128, Refusal>,
) -> bool {
    if !valid {
        r is Err && r->Err_0.is(UNAUTHORIZED, "invalid token"@)
    } else {
        match user_id {
            None => r is Err && r->Err_0.is(UNAUTHORIZED, "invalid token claims"@),
            Some(id) => r == Ok::<u128, Refusal>(id),
        }
    }
}

/// The user in the claims of a token: `subject` is the subject where the token
/// is valid, and `user_id` the id that it denotes.
pub fn claimed_user(subject: Option<&str>, user_id: Option<u128>) -> (r: Result<u128, Refusal>)
    ensures
        is_claimed_user(subject is Some, user_id, r),
{
    match subject {
        None => Err(Refusal::new(UNAUTHORIZED, "invalid token")),
        Some(_) => match user_id {
            None => Err(Refusal::new(UNAUTHORIZED, "invalid token claims")),
            Some(id) => Ok(id),
        },
    }
}

/// The user in the claims of a token: `subject` is the subject where the token
/// is valid.
pub fn signed_in_user(subject: Option<&str>) -> (r: Result<u128, Refusal>)
    ensures
        is_claimed_user(
            subject is Some,
            match subject {
                Some(s) => uuid_value(s@),
                None => None,
            },
            r,
        ),
{
    let user_id: Option<u128> = match subject {
        Some(s) => parse_uuid(s),
        None => None,
    };
    claimed_user(subject, user_id)
}

// ---------------------------------------------------------------------------
// Passwords
// ---------------------------------------------------------------------------

/// Whether a password is the one a hash was made of.
pub uninterp spec fn password_matches(password: Seq<char>, hash: Seq<char>) -> bool;

/// `bcrypt::verify`, where a hash that cannot be read matches nothing: a
/// function of password and hash, whose result is named.
#[verifier::external_body]
fn verify_password(password: &str, hash: &str) -> (b: bool)
    ensures
        b == password_matches(password@, hash@),
{
    bcrypt::verify(password, hash).unwrap_or(false)
}

/// `bcrypt::hash` at the default cost: a hash that the password matches, with
/// a random salt. Nothing is promised of when it fails.
#[verifier::external_body]
fn salted_hash(password: &str) -> (r: Result<String, String>)
    ensures
        r is Ok ==> password_matches(password@, r->Ok_0@),
{
    bcrypt::hash(password, bcrypt::DEFAULT_COST).map_err(|e| e.to_string())
}

/// The hash that a password is kept as, which the password matches.
pub fn hash_password(password: &str) -> (r: Result<String, Refusal>)
    ensures
        match r {
            Ok(hash) => password_matches(password@, hash@),
            Err(e) => e.status == INTERNAL_SERVER_ERROR,
        },
{
    match salted_hash(password) {
        Ok(h) => Ok(h),
        Err(e) => Err(Refusal { status: INTERNAL_SERVER_ERROR, error: e }),
    }
}

/// A user as far as signing in needs one.
#[derive(Debug)]
pub struct KnownUser {
    pub id: u128,
    pub email: String,
    pub password_hash: String,
}

/// Whether `r` answers a sign-in.
pub open spec fn answers_sign_in(
    found: Result<Option<KnownUser>, String>,
    matches: bool,
    r: Result<KnownUser, Refusal>,
) -> bool {
    match found {
        Err(e) => r is Err && r->Err_0.is(INTERNAL_SERVER_ERROR, e@),
        Ok(None) => r is Err && r->Err_0.is(UNAUTHORIZED, "invalid credentials"@),
        Ok(Some(user)) => if matches {
            r == Ok::<KnownUser, Refusal>(user)
        } else {
            r is Err && r->Err_0.is(UNAUTHORIZED, "invalid credentials"@)
        },
    }
}

/// The answer to a sign-in, given whether the password matches.
pub fn sign_in(found: Result<Option<KnownUser>, String>, matches: bool) -> (r: Result<
    KnownUser,
    Refusal,
>)
    ensures
        answers_sign_in(found, matches, r),
{
    match found {
        Err(error) => Err(Refusal { status: INTERNAL_SERVER_ERROR, error }),
        Ok(None) => Err(Refusal::new(UNAUTHORIZED, "invalid credentials")),
        Ok(Some(user)) => if matches {
            Ok(user)
        } else {
            Err(Refusal::new(UNAUTHORIZED, "invalid credentials"))
        },
    }
}

/// The answer to a sign-in with a password: an unknown user and a wrong
/// password are refused alike.
pub fn login(found: Result<Option<KnownUser>, String>, password: &str) -> (r: Result<
    KnownUser,
    Refusal,
>)
    ensures
        answers_sign_in(
            found,
            found is Ok && found->Ok_0 is Some && password_matches(
                password@,
                found->Ok_0->0.password_hash@,
            ),
            r,
        ),
{
    let matches: bool = match &found {
        Ok(Some(user)) => verify_password(password, user.password_hash.as_str()),
        _ => false,
    };
    sign_in(found, matches)
}

// ---------------------------------------------------------------------------
// Tokens and keys
// ---------------------------------------------------------------------------

/// A token as it is shown once, and the hash it is kept under.
#[derive(Debug)]
pub struct NewToken {
    pub raw: String,
    pub hash: String,
}

/// The text of a token made of a random id.
pub open spec fn raw_token(id: u128) -> Seq<char> {
    "xproxy_"@ + hex_digits((id / 0x1_0000_0000_0000_0000) as nat, 16) + hex_digits(
        (id % 0x1_0000_0000_0000_0000) as nat,
        16,
    )
}

/// The token made of an id: a fixed prefix and the 32 digits of the id.
pub fn token_from(id: u128) -> (r: NewToken)
    ensures
        r.raw@ == raw_token(id),
        r.hash@ == token_hash(raw_token(id)),
{
    let high: u64 = (id / 0x1_0000_0000_0000_0000) as u64;
    let low: u64 = (id % 0x1_0000_0000_0000_0000) as u64;
    let mut raw: String = concat2("xproxy_", to_hex(high, 16).as_str());
    raw.append(to_hex(low, 16).as_str());
    let hash: String = hash_token(raw.as_str());
    NewToken { raw, hash }
}

/// A new random token.
pub fn new_token() -> (r: NewToken)
    ensures
        exists|id: u128|
            is_random_uuid(id) && #[trigger] raw_token(id) == r.raw@ && r.hash@ == token_hash(
                raw_token(id),
            ),
{
    let id: u128 = random_uuid();
    token_from(id)
}

/// The egress address of a key, "default" where none is given.
pub fn egress_or_default(egress_ip: Option<&str>) -> (r: String)
    ensures
        r@ == (match egress_ip {
            Some(ip) => ip@,
            None => "default"@,
        }),
{
    match egress_ip {
        Some(ip) => ip.to_owned(),
        None => "default".to_owned(),
    }
}

/// Whether an error of the database speaks of a duplicate.
pub open spec fn is_duplicate(error: Seq<char>) -> bool {
    occurs_in(error, "duplicate key"@) || occurs_in(error, "unique"@)
}

/// The refusal of a key that could not be registered: a conflict where the
/// database speaks of a duplicate.
pub fn registration_failure(error: String) -> (r: Refusal)
    ensures
        if is_duplicate(error@) {
            r.is(CONFLICT, "API key already registered"@)
        } else {
            r.is(INTERNAL_SERVER_ERROR, error@)
        },
{
    if contains(error.as_str(), "duplicate key") || contains(error.as_str(), "unique") {
        Refusal::new(CONFLICT, "API key already registered")
    } else {
        Refusal { status: INTERNAL_SERVER_ERROR, error }
    }
}

/// Whether `r` answers a removal.
pub open spec fn answers_removal(
    removed: Result<bool, String>,
    done: Seq<char>,
    missing: Seq<char>,
    r: Result<&'static str, Refusal>,
) -> bool {
    match removed {
        Ok(true) => r is Ok && r->Ok_0@ == done,
        Ok(false) => r is Err && r->Err_0.is(NOT_FOUND, missing),
        Err(e) => r is Err && r->Err_0.is(INTERNAL_SERVER_ERROR, e@),
    }
}

/// The answer to a removal: a status word, or the refusal where there was
/// nothing to remove or the database failed.
pub fn removal_answer(
    removed: Result<bool, String>,
    done: &'static str,
    missing: &'static str,
) -> (r: Result<&'static str, Refusal>)
    ensures
        answers_removal(removed, done@, missing@, r),
{
    match removed {
        Ok(true) => Ok(done),
        Ok(false) => Err(Refusal::new(NOT_FOUND, missing)),
        Err(error) => Err(Refusal { status: INTERNAL_SERVER_ERROR, error }),
    }
}

} // verus!
