//! Whether a request may pass, and with what.

use crate::auth::pipe_selector::{
    first_serving, is_selection_of, provider_and_id, select_pipe, SelectedPipe,
};
use crate::auth::token_resolver::{
    hash_token, resolve_token, token_hash, AuthContext, AuthError, PipeInfo, TokenLookup,
};
use crate::billing::counters::{within_budget, Day, KeyFacts, SpendingCounters};
use crate::encoding::{format_uuid, uuid_text};
use crate::json::{json_object_text, members_view, object_text};
use crate::registry::{ApiKeyRegistry, KeyInfoFacts, RegisteredKeyInfo};
use crate::text::{concat2, concat3, same_text, strip, trim_space, trimmed_space, without};
use vstd::prelude::*;
use vstd::string::StringExecFns;

verus! {

pub const BAD_REQUEST: u16 = 400;

pub const UNAUTHORIZED: u16 = 401;

pub const FORBIDDEN: u16 = 403;

pub const TOO_MANY_REQUESTS: u16 = 429;

pub const INTERNAL_SERVER_ERROR: u16 = 500;

pub const OK_STATUS: u16 = 200;

/// Whether a mode header asks for firewall mode.
pub fn is_firewall_mode(mode_header: Option<&str>) -> (b: bool)
    ensures
        b == (match mode_header {
            Some(v) => v@ == "firewall"@,
            None => false,
        }),
{
    match mode_header {
        Some(v) => same_text(v, "firewall"),
        None => false,
    }
}

/// The token in an authorization header.
pub open spec fn token_in(header: Option<Seq<char>>) -> Option<Seq<char>> {
    match header {
        Some(h) => match without(h, "Bearer "@) {
            Some(t) => Some(trimmed_space(t)),
            None => None,
        },
        None => None,
    }
}

/// The text behind an optional reference.
pub open spec fn header_text(h: Option<&str>) -> Option<Seq<char>> {
    match h {
        Some(s) => Some(s@),
        None => None,
    }
}

/// The token in an authorization header: what follows "Bearer ", without the
/// space around it.
pub fn bearer_token(auth_header: Option<&str>) -> (r: Option<String>)
    ensures
        match r {
            Some(t) => token_in(header_text(auth_header)) == Some(t@),
            None => token_in(header_text(auth_header)) is None,
        },
{
    match auth_header {
        Some(header) => match strip(header, "Bearer ") {
            Some(token) => Some(trim_space(token)),
            None => None,
        },
        None => None,
    }
}

/// The answer to a check.
#[derive(Debug)]
pub enum AuthReply {
    /// The request is refused.
    Denied { status: u16, error: String },
    /// The request is over a spending limit.
    LimitExceeded { message: String },
    /// The request may pass, with these headers.
    Allowed { headers: Vec<(String, String)> },
}

impl AuthReply {
    /// Whether the reply refuses the request with a status and a reason.
    pub open spec fn denies(&self, status: u16, reason: Seq<char>) -> bool {
        match *self {
            AuthReply::Denied { status: s, error } => s == status && error@ == reason,
            _ => false,
        }
    }

    /// Whether the reply lets the request pass with these headers.
    pub open spec fn allows(&self, headers: Seq<(Seq<char>, Seq<char>)>) -> bool {
        match *self {
            AuthReply::Allowed { headers: h } => members_view(h@) == headers,
            _ => false,
        }
    }

    /// The status of the reply.
    pub open spec fn code(&self) -> u16 {
        match *self {
            AuthReply::Denied { status, .. } => status,
            AuthReply::LimitExceeded { .. } => TOO_MANY_REQUESTS,
            AuthReply::Allowed { .. } => OK_STATUS,
        }
    }

    /// The body of the reply.
    pub open spec fn content(&self) -> Seq<char> {
        match *self {
            AuthReply::Denied { error, .. } => json_object_text(seq![("error"@, error@)]),
            AuthReply::LimitExceeded { message } => json_object_text(
                seq![("error"@, "spending_limit_exceeded"@), ("message"@, message@)],
            ),
            AuthReply::Allowed { .. } => "OK"@,
        }
    }

    /// The status of the reply.
    pub fn status(&self) -> (r: u16)
        ensures
            r == self.code(),
    {
        match self {
            AuthReply::Denied { status, .. } => *status,
            AuthReply::LimitExceeded { .. } => TOO_MANY_REQUESTS,
            AuthReply::Allowed { .. } => OK_STATUS,
        }
    }

    /// The body of the reply: a JSON object with the error, or "OK".
    pub fn body(&self) -> (r: String)
        ensures
            r@ == self.content(),
    {
        match self {
            AuthReply::Denied { error, .. } => error_body(error.as_str()),
            AuthReply::LimitExceeded { message } => {
                let mut members: Vec<(String, String)> = Vec::new();
                members.push(("error".to_owned(), "spending_limit_exceeded".to_owned()));
                members.push(("message".to_owned(), message.clone()));
                assert(members_view(members@) =~= seq![
                    ("error"@, "spending_limit_exceeded"@),
                    ("message"@, message@),
                ]);
                object_text(members)
            },
            AuthReply::Allowed { .. } => "OK".to_owned(),
        }
    }
}

/// The JSON object with an error.
pub fn error_body(error: &str) -> (r: String)
    ensures
        r@ == json_object_text(seq![("error"@, error@)]),
{
    let mut members: Vec<(String, String)> = Vec::new();
    members.push(("error".to_owned(), error.to_owned()));
    assert(members_view(members@) =~= seq![("error"@, error@)]);
    object_text(members)
}

// ---------------------------------------------------------------------------
// Managed proxy mode
// ---------------------------------------------------------------------------

/// A token to resolve, and the hash it is kept under.
#[derive(Debug)]
pub struct PresentedToken {
    pub token: String,
    pub hash: String,
}

/// The token of a request, or the refusal of one without.
pub fn present_token(auth_header: Option<&str>) -> (r: Result<PresentedToken, AuthReply>)
    ensures
        match r {
            Ok(p) => token_in(header_text(auth_header)) == Some(p.token@) && p.hash@
                == token_hash(p.token@),
            Err(reply) => token_in(header_text(auth_header)) is None && reply.denies(
                UNAUTHORIZED,
                "missing bearer token"@,
            ),
        },
{
    match bearer_token(auth_header) {
        Some(token) => {
            let hash: String = hash_token(token.as_str());
            Ok(PresentedToken { token, hash })
        },
        None => Err(
            AuthReply::Denied { status: UNAUTHORIZED, error: "missing bearer token".to_owned() },
        ),
    }
}

/// A request with its account, model and pipe.
#[derive(Debug)]
pub struct Admitted {
    pub user_id: u128,
    pub project_id: u128,
    pub model: String,
    pub pipe: SelectedPipe,
}

/// The refusal of a request whose token was not resolved.
pub open spec fn refusal(e: AuthError) -> (u16, Seq<char>) {
    match e {
        AuthError::InvalidToken => (UNAUTHORIZED, "invalid or expired token"@),
        _ => (INTERNAL_SERVER_ERROR, "auth error: "@ + e.text()),
    }
}

/// The refusal of a model without a pipe.
pub open spec fn no_pipe_text(model: Seq<char>, anthropic: Seq<char>) -> Seq<char> {
    "no pipe found for provider '"@ + provider_and_id(model, anthropic).0 + "' model '"@ + model
        + "'"@
}

/// Whether a request is the one of an account, with the pipe that serves its model.
pub open spec fn is_admission(
    a: Admitted,
    ctx: AuthContext,
    model: Seq<char>,
    anthropic: Seq<char>,
) -> bool {
    match first_serving(ctx.pipes@, model, anthropic, 0) {
        Some(i) => {
            &&& a.user_id == ctx.user_id
            &&& a.project_id == ctx.project_id
            &&& a.model@ == model
            &&& is_selection_of(a.pipe, ctx.pipes@[i], model)
        },
        None => false,
    }
}

/// The pipe for a request whose token was resolved, or the refusal: of an
/// unresolved token, of a body without a model, of a model without a pipe.
/// `anthropic` is the family name of Anthropic's models.
pub fn find_pipe(
    resolved: Result<AuthContext, AuthError>,
    model: Option<String>,
    anthropic: &str,
) -> (r: Result<Admitted, AuthReply>)
    ensures
        match resolved {
            Err(e) => r is Err && r->Err_0.denies(refusal(e).0, refusal(e).1),
            Ok(ctx) => match model {
                None => r is Err && r->Err_0.denies(
                    BAD_REQUEST,
                    "model field required in request body"@,
                ),
                Some(m) => match r {
                    Ok(a) => is_admission(a, ctx, m@, anthropic@),
                    Err(reply) => first_serving(ctx.pipes@, m@, anthropic@, 0) is None
                        && reply.denies(FORBIDDEN, no_pipe_text(m@, anthropic@)),
                },
            },
        },
{
    let ctx: AuthContext = match resolved {
        Ok(ctx) => ctx,
        Err(AuthError::InvalidToken) => {
            return Err(
                AuthReply::Denied {
                    status: UNAUTHORIZED,
                    error: "invalid or expired token".to_owned(),
                },
            );
        },
        Err(e) => {
            let error: String = concat2("auth error: ", e.message().as_str());
            return Err(AuthReply::Denied { status: INTERNAL_SERVER_ERROR, error });
        },
    };
    let model: String = match model {
        Some(m) => m,
        None => {
            return Err(
                AuthReply::Denied {
                    status: BAD_REQUEST,
                    error: "model field required in request body".to_owned(),
                },
            );
        },
    };
    match select_pipe(&ctx, model.as_str(), anthropic) {
        Ok(pipe) => Ok(
            Admitted { user_id: ctx.user_id, project_id: ctx.project_id, model, pipe },
        ),
        Err(e) => Err(AuthReply::Denied { status: FORBIDDEN, error: e.message() }),
    }
}

/// The headers of a request that may pass.
pub open spec fn passing_headers(a: Admitted) -> Seq<(Seq<char>, Seq<char>)> {
    seq![
        ("x-xproxy-provider-hint"@, a.pipe.provider@),
        ("x-xproxy-api-key"@, a.pipe.api_key_decrypted@),
        ("x-xproxy-model"@, a.model@),
        ("x-xproxy-user-id"@, uuid_text(a.user_id)),
        ("x-xproxy-project-id"@, uuid_text(a.project_id)),
        ("x-xproxy-pipe-id"@, uuid_text(a.pipe.pipe_id)),
    ]
}

/// The reply to a request with a pipe, after its budget was checked.
pub fn answer(a: Admitted, budget: Result<(), String>) -> (r: AuthReply)
    ensures
        match budget {
            Ok(_) => r.allows(passing_headers(a)),
            Err(message) => r == (AuthReply::LimitExceeded { message }),
        },
{
    if let Err(message) = budget {
        return AuthReply::LimitExceeded { message };
    }
    let ghost expected = passing_headers(a);
    let mut headers: Vec<(String, String)> = Vec::new();
    headers.push(("x-xproxy-provider-hint".to_owned(), a.pipe.provider));
    headers.push(("x-xproxy-api-key".to_owned(), a.pipe.api_key_decrypted));
    headers.push(("x-xproxy-model".to_owned(), a.model));
    headers.push(("x-xproxy-user-id".to_owned(), format_uuid(a.user_id)));
    headers.push(("x-xproxy-project-id".to_owned(), format_uuid(a.project_id)));
    headers.push(("x-xproxy-pipe-id".to_owned(), format_uuid(a.pipe.pipe_id)));
    assert(members_view(headers@) =~= expected);
    AuthReply::Allowed { headers }
}

// ---------------------------------------------------------------------------
// Firewall mode
// ---------------------------------------------------------------------------

/// The cluster a registered key is routed to: that of its provider, with the
/// egress address behind it unless it is the default one.
pub open spec fn cluster_of(info: KeyInfoFacts) -> Seq<char> {
    if info.egress_ip == "default"@ {
        info.provider
    } else {
        info.provider + "-"@ + info.egress_ip
    }
}

/// The headers of a request with a registered key.
pub open spec fn firewall_headers(info: KeyInfoFacts, key_hash: Seq<char>) -> Seq<
    (Seq<char>, Seq<char>),
> {
    seq![
        ("x-xproxy-firewall-mode"@, "true"@),
        ("x-xproxy-upstream-url"@, info.upstream_url),
        ("x-xproxy-project-id"@, uuid_text(info.project_id)),
        ("x-xproxy-provider-hint"@, cluster_of(info)),
        ("x-xproxy-api-key-hash"@, key_hash),
    ]
}

/// Whether a reply is the one to a request in firewall mode.
pub open spec fn is_firewall_reply(
    r: AuthReply,
    token: Option<Seq<char>>,
    keys: Map<Seq<char>, RegisteredKeyInfo>,
) -> bool {
    match token {
        None => r.denies(
            UNAUTHORIZED,
            "missing bearer token (API key required for firewall mode)"@,
        ),
        Some(key) => if keys.contains_key(token_hash(key)) {
            r.allows(firewall_headers(keys[token_hash(key)]@, token_hash(key)))
        } else {
            r.denies(
                UNAUTHORIZED,
                "API key not registered. Register your API key at the xproxy dashboard."@,
            )
        },
    }
}

/// Firewall mode: hash the real API key, look up in registry, return upstream info.
pub fn firewall_check(auth_header: Option<&str>, registry: &ApiKeyRegistry) -> (r: AuthReply)
    ensures
        is_firewall_reply(r, token_in(header_text(auth_header)), registry@),
{
    let api_key: String = match bearer_token(auth_header) {
        Some(key) => key,
        None => {
            return AuthReply::Denied {
                status: UNAUTHORIZED,
                error: "missing bearer token (API key required for firewall mode)".to_owned(),
            };
        },
    };
    let key_hash: String = hash_token(api_key.as_str());
    let info: RegisteredKeyInfo = match registry.lookup(key_hash.as_str()) {
        Some(info) => info,
        None => {
            return AuthReply::Denied {
                status: UNAUTHORIZED,
                error:
                    "API key not registered. Register your API key at the xproxy dashboard.".to_owned(),
            };
        },
    };
    let ghost expected = firewall_headers(info@, key_hash@);
    let cluster: String = if same_text(info.egress_ip.as_str(), "default") {
        info.provider.clone()
    } else {
        concat3(info.provider.as_str(), "-", info.egress_ip.as_str())
    };
    let mut headers: Vec<(String, String)> = Vec::new();
    headers.push(("x-xproxy-firewall-mode".to_owned(), "true".to_owned()));
    headers.push(("x-xproxy-upstream-url".to_owned(), info.upstream_url.clone()));
    headers.push(("x-xproxy-project-id".to_owned(), format_uuid(info.project_id)));
    headers.push(("x-xproxy-provider-hint".to_owned(), cluster));
    headers.push(("x-xproxy-api-key-hash".to_owned(), key_hash));
    assert(members_view(headers@) =~= expected);
    AuthReply::Allowed { headers }
}

// ---------------------------------------------------------------------------
// Budgets
// ---------------------------------------------------------------------------

/// A limit on what may be spent in a period.
#[derive(Debug)]
pub struct PeriodLimit {
    pub period_type: String,
    pub limit_cents: i64,
}

/// A limit in micro-cents, as far as it fits.
pub open spec fn limit_micro_cents(limit_cents: i64) -> i64 {
    if limit_cents * 10_000 > i64::MAX {
        i64::MAX
    } else if limit_cents * 10_000 < i64::MIN {
        i64::MIN
    } else {
        (limit_cents * 10_000) as i64
    }
}

fn to_limit(limit_cents: i64) -> (r: i64)
    ensures
        r == limit_micro_cents(limit_cents),
{
    let wide: i128 = limit_cents as i128 * 10_000;
    if wide > i64::MAX as i128 {
        i64::MAX
    } else if wide < i64::MIN as i128 {
        i64::MIN
    } else {
        wide as i64
    }
}

/// Whether an entity keeps a limit on a day.
pub open spec fn keeps_limit(
    totals: Map<KeyFacts, i64>,
    entity_type: Seq<char>,
    entity_id: u128,
    limit: PeriodLimit,
    today: Day,
) -> bool {
    within_budget(
        totals,
        entity_type,
        entity_id,
        limit.period_type@,
        limit_micro_cents(limit.limit_cents),
        today,
    )
}

/// The first limit that an entity does not keep on a day.
pub open spec fn first_broken(
    totals: Map<KeyFacts, i64>,
    entity_type: Seq<char>,
    entity_id: u128,
    limits: Seq<PeriodLimit>,
    today: Day,
    i: int,
) -> Option<int>
    decreases limits.len() - i,
{
    if i >= limits.len() {
        None
    } else if !keeps_limit(totals, entity_type, entity_id, limits[i], today) {
        Some(i)
    } else {
        first_broken(totals, entity_type, entity_id, limits, today, i + 1)
    }
}

/// The message for a limit that is not kept.
pub open spec fn limit_message(entity_type: Seq<char>, period_type: Seq<char>) -> Seq<char> {
    entity_type + " "@ + period_type + " limit exceeded for "@ + period_type + " period"@
}

fn check_limits(
    counters: &SpendingCounters,
    entity_type: &str,
    entity_id: u128,
    limits: &Vec<PeriodLimit>,
    today: Day,
) -> (r: Result<(), String>)
    ensures
        match r {
            Ok(_) => first_broken(counters@, entity_type@, entity_id, limits@, today, 0) is None,
            Err(m) => match first_broken(
                counters@,
                entity_type@,
                entity_id,
                limits@,
                today,
                0,
            ) {
                Some(i) => m@ == limit_message(entity_type@, limits@[i].period_type@),
                None => false,
            },
        },
{
    let mut i: usize = 0;
    while i < limits.len()
        invariant
            i <= limits@.len(),
            first_broken(counters@, entity_type@, entity_id, limits@, today, 0) == first_broken(
                counters@,
                entity_type@,
                entity_id,
                limits@,
                today,
                i as int,
            ),
        decreases limits.len() - i,
    {
        let limit: &PeriodLimit = &limits[i];
        if !counters.check_budget_on(
            entity_type,
            entity_id,
            limit.period_type.as_str(),
            to_limit(limit.limit_cents),
            today,
        ) {
            let mut m: String = concat3(entity_type, " ", limit.period_type.as_str());
            m.append(" limit exceeded for ");
            m.append(limit.period_type.as_str());
            m.append(" period");
            return Err(m);
        }
        i += 1;
    }
    Ok(())
}

/// Check the limits of a user and of a project on a day: the first one that
/// is not kept is reported, the user's before the project's.
pub fn check_budget(
    counters: &SpendingCounters,
    user_id: u128,
    user_limits: &Vec<PeriodLimit>,
    project_id: u128,
    project_limits: &Vec<PeriodLimit>,
    today: Day,
) -> (r: Result<(), String>)
    ensures
        ({
            let by_user = first_broken(counters@, "user"@, user_id, user_limits@, today, 0);
            let by_project = first_broken(
                counters@,
                "project"@,
                project_id,
                project_limits@,
                today,
                0,
            );
            match r {
                Ok(_) => by_user is None && by_project is None,
                Err(m) => match by_user {
                    Some(i) => m@ == limit_message("user"@, user_limits@[i].period_type@),
                    None => match by_project {
                        Some(i) => m@ == limit_message(
                            "project"@,
                            project_limits@[i].period_type@,
                        ),
                        None => false,
                    },
                },
            }
        }),
{
    match check_limits(counters, "user", user_id, user_limits, today) {
        Err(m) => Err(m),
        Ok(_) => check_limits(counters, "project", project_id, project_limits, today),
    }
}

/// The limits of a user and of a project, or why they are not known.
pub type KnownLimits = Result<(Vec<PeriodLimit>, Vec<PeriodLimit>), String>;

/// Why a request of an account is over its budget, if it is.
pub open spec fn over_budget(
    totals: Map<KeyFacts, i64>,
    user_id: u128,
    project_id: u128,
    limits: KnownLimits,
    today: Day,
) -> Option<Seq<char>> {
    match limits {
        Err(e) => Some("db error: "@ + e@),
        Ok((user, project)) => match first_broken(totals, "user"@, user_id, user@, today, 0) {
            Some(i) => Some(limit_message("user"@, user@[i].period_type@)),
            None => match first_broken(totals, "project"@, project_id, project@, today, 0) {
                Some(i) => Some(limit_message("project"@, project@[i].period_type@)),
                None => None,
            },
        },
    }
}

/// The headers of a request of an account that may pass, with a pipe.
pub open spec fn headers_for(ctx: AuthContext, pipe: PipeInfo, model: Seq<char>) -> Seq<
    (Seq<char>, Seq<char>),
> {
    seq![
        ("x-xproxy-provider-hint"@, pipe.provider@),
        ("x-xproxy-api-key"@, pipe.api_key_encrypted@),
        ("x-xproxy-model"@, model),
        ("x-xproxy-user-id"@, uuid_text(ctx.user_id)),
        ("x-xproxy-project-id"@, uuid_text(ctx.project_id)),
        ("x-xproxy-pipe-id"@, uuid_text(pipe.id)),
    ]
}

/// Whether a reply is the one to a request with a model, of an account.
pub open spec fn is_reply_for(
    r: AuthReply,
    ctx: AuthContext,
    model: Seq<char>,
    limits: KnownLimits,
    totals: Map<KeyFacts, i64>,
    today: Day,
    anthropic: Seq<char>,
) -> bool {
    match first_serving(ctx.pipes@, model, anthropic, 0) {
        None => r.denies(FORBIDDEN, no_pipe_text(model, anthropic)),
        Some(i) => match over_budget(totals, ctx.user_id, ctx.project_id, limits, today) {
            Some(why) => match r {
                AuthReply::LimitExceeded { message } => message@ == why,
                _ => false,
            },
            None => r.allows(headers_for(ctx, ctx.pipes@[i], model)),
        },
    }
}

/// Whether a reply is the one to a request in managed proxy mode.
pub open spec fn is_auth_reply(
    r: AuthReply,
    token: Option<Seq<char>>,
    lookup: TokenLookup,
    model: Option<String>,
    limits: KnownLimits,
    totals: Map<KeyFacts, i64>,
    today: Day,
    anthropic: Seq<char>,
) -> bool {
    if token is None {
        r.denies(UNAUTHORIZED, "missing bearer token"@)
    } else {
        match lookup {
            TokenLookup::NoConnection { error } => r.denies(
                INTERNAL_SERVER_ERROR,
                "auth error: "@ + ("internal error: "@ + ("failed to get db connection: "@
                    + error@)),
            ),
            TokenLookup::QueryFailed { error } => r.denies(
                INTERNAL_SERVER_ERROR,
                "auth error: "@ + ("internal error: "@ + ("db query failed: "@ + error@)),
            ),
            TokenLookup::Answered(None) => r.denies(UNAUTHORIZED, "invalid or expired token"@),
            TokenLookup::Answered(Some(ctx)) => match model {
                None => r.denies(BAD_REQUEST, "model field required in request body"@),
                Some(m) => is_reply_for(r, ctx, m@, limits, totals, today, anthropic),
            },
        }
    }
}

/// The whole check of a request in managed proxy mode: its token must be
/// there and valid, its body name a model, the project have a pipe for the
/// model, and neither user nor project be over a limit. The first of these
/// that fails is answered; a request that passes gets the pipe's key.
pub fn auth_check(
    auth_header: Option<&str>,
    lookup: TokenLookup,
    model: Option<String>,
    limits: KnownLimits,
    counters: &SpendingCounters,
    today: Day,
    anthropic: &str,
) -> (r: AuthReply)
    ensures
        is_auth_reply(
            r,
            token_in(header_text(auth_header)),
            lookup,
            model,
            limits,
            counters@,
            today,
            anthropic@,
        ),
{
    if let Err(reply) = present_token(auth_header) {
        return reply;
    }
    let ghost found = lookup;
    let ghost named_model = model;
    let admitted: Admitted = match find_pipe(resolve_token(lookup), model, anthropic) {
        Ok(a) => a,
        Err(reply) => {
            return reply;
        },
    };
    let budget: Result<(), String> = match &limits {
        Err(e) => Err(concat2("db error: ", e.as_str())),
        Ok(known) => check_budget(
            counters,
            admitted.user_id,
            &known.0,
            admitted.project_id,
            &known.1,
            today,
        ),
    };
    proof {
        let ctx = found->Answered_0->0;
        let m = named_model->0@;
        let i = first_serving(ctx.pipes@, m, anthropic@, 0)->0;
        assert(passing_headers(admitted) =~= headers_for(ctx, ctx.pipes@[i], m));
    }
    answer(admitted, budget)
}

} // verus!
