//! Who gets through, and with which key.

use crate::auth::pipe_selector::{
    first_serving, provider_and_id, provider_of, selection_is_first, serves, stands_apart,
};
use crate::auth::token_resolver::{token_hash, AuthContext, PipeInfo, TokenLookup};
use crate::billing::counters::{key_on, total, Day, KeyFacts};
use crate::encoding::uuid_text;
use crate::handlers::auth_check::{
    first_broken, is_auth_reply, is_firewall_reply, keeps_limit, limit_micro_cents, over_budget,
    token_in, AuthReply, KnownLimits, PeriodLimit,
};
use crate::json::{json_object_text, members_view};
use crate::registry::{table_of, RegisteredKeyInfo};
use crate::text::{
    begins_with, first_index, is_blank, is_trim, joined, lemma_fields_of_joined,
    lemma_first_index, lemma_trimmed_padding, lowercase,
};
use vstd::prelude::*;

verus! {

// ---------------------------------------------------------------------------
// Pipes
// ---------------------------------------------------------------------------

/// Whether a filter lists a name: it stands between two commas, or at an end,
/// apart from space around it.
pub open spec fn lists_name(
    filter: Seq<char>,
    entries: Seq<Seq<char>>,
    i: int,
    left: Seq<char>,
    name: Seq<char>,
    right: Seq<char>,
) -> bool {
    &&& filter == joined(entries, seq![','])
    &&& forall|k: int| 0 <= k < entries.len() ==> !(#[trigger] entries[k]).contains(',')
    &&& 0 <= i < entries.len()
    &&& entries[i] == left + name + right
    &&& is_blank(left)
    &&& is_blank(right)
    &&& is_trim(name)
}

/// A pipe of the model's provider serves the model where its filter lists the
/// model's name as the request gives it, the name without its provider, or a
/// star; and where it has no filter.
pub proof fn listed_model_is_served(
    pipe: PipeInfo,
    entries: Seq<Seq<char>>,
    i: int,
    left: Seq<char>,
    name: Seq<char>,
    right: Seq<char>,
    model: Seq<char>,
    anthropic: Seq<char>,
)
    requires
        lowercase(pipe.provider@) == provider_and_id(model, anthropic).0,
        pipe.model_filter is None || (lists_name(
            pipe.model_filter->0@,
            entries,
            i,
            left,
            name,
            right,
        ) && (name == model || name == provider_and_id(model, anthropic).1 || name == seq!['*'])),
    ensures
        serves(pipe, model, anthropic),
{
    if pipe.model_filter is Some {
        reveal_strlit("*");
        assert("*"@ =~= seq!['*']);
        lemma_fields_of_joined(entries, ',');
        lemma_trimmed_padding(left, name, right);
    }
}

/// A pipe serves nothing else: not the models of other providers, nor a model
/// that its filter does not list in one of these ways.
pub proof fn unlisted_model_is_not_served(
    pipe: PipeInfo,
    entries: Seq<Seq<char>>,
    lefts: Seq<Seq<char>>,
    names: Seq<Seq<char>>,
    rights: Seq<Seq<char>>,
    model: Seq<char>,
    anthropic: Seq<char>,
)
    requires
        lowercase(pipe.provider@) != provider_and_id(model, anthropic).0 || (pipe.model_filter is Some
            && entries.len() > 0 && forall|i: int|
            0 <= i < entries.len() ==> #[trigger] lists_name(
                pipe.model_filter->0@,
                entries,
                i,
                lefts[i],
                names[i],
                rights[i],
            ) && names[i] != model && names[i] != provider_and_id(model, anthropic).1 && names[i]
                != seq!['*']),
    ensures
        !serves(pipe, model, anthropic),
{
    if lowercase(pipe.provider@) == provider_and_id(model, anthropic).0 {
        reveal_strlit("*");
        assert("*"@ =~= seq!['*']);
        assert(lists_name(pipe.model_filter->0@, entries, 0, lefts[0], names[0], rights[0]));
        lemma_fields_of_joined(entries, ',');
        assert forall|i: int| 0 <= i < entries.len() implies !crate::auth::pipe_selector::entry_allows(
            #[trigger] entries[i],
            model,
            provider_and_id(model, anthropic).1,
        ) by {
            assert(lists_name(pipe.model_filter->0@, entries, i, lefts[i], names[i], rights[i]));
            lemma_trimmed_padding(lefts[i], names[i], rights[i]);
        }
    }
}

/// What stands before the first slash of a name is its provider, in lower
/// case, and what stands behind it the model.
pub proof fn slash_parts_provider_and_model(
    provider: Seq<char>,
    id: Seq<char>,
    anthropic: Seq<char>,
)
    requires
        !provider.contains('/'),
    ensures
        provider_and_id(provider + seq!['/'] + id, anthropic) == (lowercase(provider), id),
{
    let model = provider + seq!['/'] + id;
    lemma_first_index(model, '/');
    assert(model[provider.len() as int] == '/');
    assert forall|j: int| 0 <= j < provider.len() implies model[j] != '/' by {
        assert(model[j] == provider[j]);
        assert(provider.contains(provider[j]));
    }
    assert(first_index(model, '/') == Some(provider.len() as int));
    assert(model.take(provider.len() as int) =~= provider);
    assert(model.skip(provider.len() as int + 1) =~= id);
}

/// A name without a slash is of the provider that is known for it; one that
/// nobody is known for is its own provider.
pub proof fn bare_name_is_looked_up(model: Seq<char>, anthropic: Seq<char>)
    requires
        !model.contains('/'),
    ensures
        provider_and_id(model, anthropic).1 == model,
        provider_of(lowercase(model), anthropic) is Some ==> provider_and_id(model, anthropic).0
            == provider_of(lowercase(model), anthropic)->0,
        provider_of(lowercase(model), anthropic) is None ==> provider_and_id(model, anthropic).0
            == lowercase(model),
{
    lemma_first_index(model, '/');
    if first_index(model, '/') is Some {
        assert(model.contains(model[first_index(model, '/')->0]));
    }
}

/// The families of models by which their providers are known.
pub proof fn families_are_known(m: Seq<char>, anthropic: Seq<char>)
    requires
        stands_apart(anthropic),
    ensures
        begins_with(m, "gpt-"@) ==> provider_of(m, anthropic) == Some("openai"@),
        begins_with(m, "o1"@) ==> provider_of(m, anthropic) == Some("openai"@),
        begins_with(m, "o3"@) ==> provider_of(m, anthropic) == Some("openai"@),
        begins_with(m, "o4"@) ==> provider_of(m, anthropic) == Some("openai"@),
        begins_with(m, "chatgpt"@) ==> provider_of(m, anthropic) == Some("openai"@),
        begins_with(m, "dall-e"@) ==> provider_of(m, anthropic) == Some("openai"@),
        begins_with(m, "text-embedding"@) ==> provider_of(m, anthropic) == Some("openai"@),
        begins_with(m, "whisper"@) ==> provider_of(m, anthropic) == Some("openai"@),
        begins_with(m, "tts"@) ==> provider_of(m, anthropic) == Some("openai"@),
        anthropic.len() > 0 && begins_with(m, anthropic) ==> provider_of(m, anthropic) == Some(
            "anthropic"@,
        ),
        begins_with(m, "gemini"@) ==> provider_of(m, anthropic) == Some("google"@),
        begins_with(m, "gemma"@) ==> provider_of(m, anthropic) == Some("google"@),
        begins_with(m, "mistral"@) ==> provider_of(m, anthropic) == Some("mistral"@),
        begins_with(m, "mixtral"@) ==> provider_of(m, anthropic) == Some("mistral"@),
        begins_with(m, "ministral"@) ==> provider_of(m, anthropic) == Some("mistral"@),
        begins_with(m, "codestral"@) ==> provider_of(m, anthropic) == Some("mistral"@),
        begins_with(m, "pixtral"@) ==> provider_of(m, anthropic) == Some("mistral"@),
        begins_with(m, "llama"@) ==> provider_of(m, anthropic) == Some("meta"@),
        begins_with(m, "meta-llama"@) ==> provider_of(m, anthropic) == Some("meta"@),
        begins_with(m, "deepseek"@) ==> provider_of(m, anthropic) == Some("deepseek"@),
        begins_with(m, "command"@) ==> provider_of(m, anthropic) == Some("cohere"@),
        begins_with(m, "embed-"@) ==> provider_of(m, anthropic) == Some("cohere"@),
        begins_with(m, "rerank-"@) ==> provider_of(m, anthropic) == Some("cohere"@),
{
    crate::auth::pipe_selector::lemma_families(m, anthropic);
}

// ---------------------------------------------------------------------------
// Budgets
// ---------------------------------------------------------------------------

/// Whether a limit is used up on a day: as much or more was counted in its
/// period than it allows, where a cent has ten thousand micro-cents.
pub open spec fn is_used_up(
    totals: Map<KeyFacts, i64>,
    entity_type: Seq<char>,
    id: u128,
    limit: PeriodLimit,
    today: Day,
) -> bool {
    &&& limit.period_type@ == "daily"@ || limit.period_type@ == "monthly"@
    &&& total(totals, key_on(entity_type, id, limit.period_type@, today)) >= limit.limit_cents
        * 10_000
}

/// The limit that is reported is the first that is used up; none is where all
/// are kept. Limits are of at least a cent, and below what can be counted.
pub proof fn first_used_up_limit_is_reported(
    totals: Map<KeyFacts, i64>,
    entity_type: Seq<char>,
    id: u128,
    limits: Seq<PeriodLimit>,
    today: Day,
    i: int,
)
    requires
        0 <= i,
        forall|k: int|
            0 <= k < limits.len() ==> 0 < (#[trigger] limits[k]).limit_cents
                <= 900_000_000_000_000,
    ensures
        match first_broken(totals, entity_type, id, limits, today, i) {
            Some(k) => {
                &&& i <= k < limits.len()
                &&& is_used_up(totals, entity_type, id, limits[k], today)
                &&& forall|j: int|
                    i <= j < k ==> !is_used_up(
                        totals,
                        entity_type,
                        id,
                        #[trigger] limits[j],
                        today,
                    )
            },
            None => forall|j: int|
                i <= j < limits.len() ==> !is_used_up(
                    totals,
                    entity_type,
                    id,
                    #[trigger] limits[j],
                    today,
                ),
        },
    decreases limits.len() - i,
{
    if i < limits.len() {
        let cents = limits[i].limit_cents as int;
        assert(0 < limits[i].limit_cents <= 900_000_000_000_000);
        assert(0 < cents * 10_000 < 0x7fff_ffff_ffff_ffff);
        assert(limit_micro_cents(limits[i].limit_cents) == cents * 10_000);
        assert(keeps_limit(totals, entity_type, id, limits[i], today) == !is_used_up(
            totals,
            entity_type,
            id,
            limits[i],
            today,
        ));
        if keeps_limit(totals, entity_type, id, limits[i], today) {
            first_used_up_limit_is_reported(totals, entity_type, id, limits, today, i + 1);
        }
    }
}

// ---------------------------------------------------------------------------
// Replies
// ---------------------------------------------------------------------------

/// Whether a list of headers holds one of this name and value.
pub open spec fn carries(headers: Seq<(String, String)>, name: Seq<char>, value: Seq<char>) -> bool {
    exists|i: int|
        0 <= i < headers.len() && #[trigger] members_view(headers)[i] == (name, value)
}

/// The statuses of a refusal: 401 without a valid token, 500 where it could
/// not be looked up, 400 without a model, 403 without a pipe that serves it;
/// and nobody is let through without all of these.
pub proof fn refusals_have_their_status(
    r: AuthReply,
    token: Option<Seq<char>>,
    lookup: TokenLookup,
    model: Option<String>,
    limits: KnownLimits,
    totals: Map<KeyFacts, i64>,
    today: Day,
    anthropic: Seq<char>,
)
    requires
        is_auth_reply(r, token, lookup, model, limits, totals, today, anthropic),
    ensures
        r is Allowed ==> token is Some && lookup is Answered && lookup->Answered_0 is Some && model is Some,
        token is None ==> r is Denied && r->status == 401,
        token is Some && (lookup is NoConnection || lookup is QueryFailed) ==> r is Denied
            && r->status == 500,
        token is Some && lookup is Answered && lookup->Answered_0 is None ==> r is Denied
            && r->status == 401,
        token is Some && lookup is Answered && lookup->Answered_0 is Some && model is None
            ==> r is Denied && r->status == 400,
{
}

/// A request of an account with a model is let through exactly where one of
/// the account's pipes serves the model and neither user nor project is over
/// a limit; it is then given the key of the first such pipe, and the names of
/// its user, project and pipe.
pub proof fn served_request_gets_the_key(
    r: AuthReply,
    token: Seq<char>,
    ctx: AuthContext,
    model: String,
    user_limits: Vec<PeriodLimit>,
    project_limits: Vec<PeriodLimit>,
    totals: Map<KeyFacts, i64>,
    today: Day,
    anthropic: Seq<char>,
    i: int,
)
    requires
        is_auth_reply(
            r,
            Some(token),
            TokenLookup::Answered(Some(ctx)),
            Some(model),
            Ok((user_limits, project_limits)),
            totals,
            today,
            anthropic,
        ),
        0 <= i < ctx.pipes@.len(),
        serves(ctx.pipes@[i], model@, anthropic),
        forall|j: int| 0 <= j < i ==> !serves(#[trigger] ctx.pipes@[j], model@, anthropic),
        forall|k: int|
            0 <= k < user_limits@.len() ==> 0 < (#[trigger] user_limits@[k]).limit_cents
                <= 900_000_000_000_000,
        forall|k: int|
            0 <= k < project_limits@.len() ==> 0 < (#[trigger] project_limits@[k]).limit_cents
                <= 900_000_000_000_000,
    ensures
        ({
            let user_over = exists|k: int|
                0 <= k < user_limits@.len() && is_used_up(
                    totals,
                    "user"@,
                    ctx.user_id,
                    #[trigger] user_limits@[k],
                    today,
                );
            let project_over = exists|k: int|
                0 <= k < project_limits@.len() && is_used_up(
                    totals,
                    "project"@,
                    ctx.project_id,
                    #[trigger] project_limits@[k],
                    today,
                );
            &&& (r is LimitExceeded) == (user_over || project_over)
            &&& (r is Allowed) == !(user_over || project_over)
        }),
        r is Allowed ==> {
            let h = r->headers@;
            &&& carries(h, "x-xproxy-api-key"@, ctx.pipes@[i].api_key_encrypted@)
            &&& carries(h, "x-xproxy-provider-hint"@, ctx.pipes@[i].provider@)
            &&& carries(h, "x-xproxy-model"@, model@)
            &&& carries(h, "x-xproxy-user-id"@, uuid_text(ctx.user_id))
            &&& carries(h, "x-xproxy-project-id"@, uuid_text(ctx.project_id))
            &&& carries(h, "x-xproxy-pipe-id"@, uuid_text(ctx.pipes@[i].id))
        },
{
    selection_is_first(ctx.pipes@, model@, anthropic, 0);
    assert(first_serving(ctx.pipes@, model@, anthropic, 0) == Some(i)) by {
        let k = first_serving(ctx.pipes@, model@, anthropic, 0)->0;
        if k < i {
            assert(!serves(ctx.pipes@[k], model@, anthropic));
        }
    }
    first_used_up_limit_is_reported(totals, "user"@, ctx.user_id, user_limits@, today, 0);
    first_used_up_limit_is_reported(totals, "project"@, ctx.project_id, project_limits@, today, 0);
    if r is Allowed {
        let h = members_view(r->headers@);
        assert(h.len() == r->headers@.len());
        assert(h[0] == ("x-xproxy-provider-hint"@, ctx.pipes@[i].provider@));
        assert(h[1] == ("x-xproxy-api-key"@, ctx.pipes@[i].api_key_encrypted@));
        assert(h[2] == ("x-xproxy-model"@, model@));
        assert(h[3] == ("x-xproxy-user-id"@, uuid_text(ctx.user_id)));
        assert(h[4] == ("x-xproxy-project-id"@, uuid_text(ctx.project_id)));
        assert(h[5] == ("x-xproxy-pipe-id"@, uuid_text(ctx.pipes@[i].id)));
    }
}

/// A model that no pipe of the account serves is refused with 403, also where
/// a limit is used up.
pub proof fn unserved_model_is_forbidden(
    r: AuthReply,
    token: Seq<char>,
    ctx: AuthContext,
    model: String,
    limits: KnownLimits,
    totals: Map<KeyFacts, i64>,
    today: Day,
    anthropic: Seq<char>,
)
    requires
        is_auth_reply(
            r,
            Some(token),
            TokenLookup::Answered(Some(ctx)),
            Some(model),
            limits,
            totals,
            today,
            anthropic,
        ),
        forall|j: int|
            0 <= j < ctx.pipes@.len() ==> !serves(#[trigger] ctx.pipes@[j], model@, anthropic),
    ensures
        r is Denied,
        r->status == 403,
{
    selection_is_first(ctx.pipes@, model@, anthropic, 0);
}

/// Limits that are not known let nobody through.
pub proof fn unknown_limits_let_nobody_through(
    r: AuthReply,
    token: Seq<char>,
    ctx: AuthContext,
    model: String,
    error: String,
    totals: Map<KeyFacts, i64>,
    today: Day,
    anthropic: Seq<char>,
)
    requires
        is_auth_reply(
            r,
            Some(token),
            TokenLookup::Answered(Some(ctx)),
            Some(model),
            Err(error),
            totals,
            today,
            anthropic,
        ),
    ensures
        !(r is Allowed),
{
}

/// A bearer token is what follows "Bearer ", apart from space around it; a
/// header of another kind holds none.
pub proof fn bearer_token_is_read(left: Seq<char>, token: Seq<char>, right: Seq<char>, h: Seq<char>)
    requires
        is_blank(left),
        is_blank(right),
        is_trim(token),
        !begins_with(h, "Bearer "@),
    ensures
        token_in(Some("Bearer "@ + (left + token + right))) == Some(token),
        token_in(Some(h)) is None,
        token_in(None) is None,
{
    let whole = "Bearer "@ + (left + token + right);
    let n = "Bearer "@.len() as int;
    assert(whole.subrange(0, n) =~= "Bearer "@);
    assert(whole.skip(n) =~= left + token + right);
    lemma_trimmed_padding(left, token, right);
}

/// In firewall mode a key gets through exactly where its hash is registered,
/// and is sent on to the url it was registered with, for its project; the
/// address it leaves by goes into the cluster unless it is the default one.
pub proof fn registered_key_gets_through(
    r: AuthReply,
    token: Option<Seq<char>>,
    keys: Map<Seq<char>, RegisteredKeyInfo>,
)
    requires
        is_firewall_reply(r, token, keys),
    ensures
        (r is Allowed) == (token is Some && keys.contains_key(token_hash(token->0))),
        !(r is Allowed) ==> r is Denied && r->status == 401,
        r is Allowed ==> {
            let info = keys[token_hash(token->0)];
            let h = r->headers@;
            &&& carries(h, "x-xproxy-firewall-mode"@, "true"@)
            &&& carries(h, "x-xproxy-upstream-url"@, info.upstream_url@)
            &&& carries(h, "x-xproxy-project-id"@, uuid_text(info.project_id))
            &&& carries(h, "x-xproxy-api-key-hash"@, token_hash(token->0))
            &&& info.egress_ip@ == "default"@ ==> carries(
                h,
                "x-xproxy-provider-hint"@,
                info.provider@,
            )
            &&& info.egress_ip@ != "default"@ ==> carries(
                h,
                "x-xproxy-provider-hint"@,
                info.provider@ + "-"@ + info.egress_ip@,
            )
        },
{
    if r is Allowed {
        let info = keys[token_hash(token->0)];
        let h = members_view(r->headers@);
        assert(h.len() == r->headers@.len());
        assert(h[0] == ("x-xproxy-firewall-mode"@, "true"@));
        assert(h[1] == ("x-xproxy-upstream-url"@, info.upstream_url@));
        assert(h[2] == ("x-xproxy-project-id"@, uuid_text(info.project_id)));
        assert(h[3].0 == "x-xproxy-provider-hint"@);
        assert(h[4] == ("x-xproxy-api-key-hash"@, token_hash(token->0)));
    }
}

/// The last row for a key is what is registered, and rows of others change nothing.
pub proof fn last_registration_counts(
    rows: Seq<(String, RegisteredKeyInfo)>,
    row: (String, RegisteredKeyInfo),
    other: Seq<char>,
)
    requires
        other != row.0@,
    ensures
        table_of(rows.push(row)).contains_key(row.0@),
        table_of(rows.push(row))[row.0@] == row.1,
        table_of(rows.push(row)).contains_key(other) == table_of(rows).contains_key(other),
        table_of(rows).contains_key(other) ==> table_of(rows.push(row))[other] == table_of(
            rows,
        )[other],
        !table_of(Seq::empty()).contains_key(other),
{
    assert(rows.push(row).drop_last() =~= rows);
}

/// A request that passes is answered 200, one over a limit 429 with the reason
/// in words, and any other with the status it is refused with.
pub proof fn replies_have_their_status(r: AuthReply)
    ensures
        r is Allowed ==> r.code() == 200 && r.content() == "OK"@,
        r is LimitExceeded ==> r.code() == 429 && r.content() == json_object_text(
            seq![("error"@, "spending_limit_exceeded"@), ("message"@, r->message@)],
        ),
        r is Denied ==> r.code() == r->status && r.content() == json_object_text(
            seq![("error"@, r->error@)],
        ),
{
}

/// Who is over a limit is told whose it is, the user's before the project's,
/// and for which period.
pub proof fn broken_limit_is_named(
    totals: Map<KeyFacts, i64>,
    user_id: u128,
    project_id: u128,
    user: Vec<PeriodLimit>,
    project: Vec<PeriodLimit>,
    today: Day,
)
    ensures
        ({
            let u = first_broken(totals, "user"@, user_id, user@, today, 0);
            let p = first_broken(totals, "project"@, project_id, project@, today, 0);
            let why = over_budget(totals, user_id, project_id, Ok((user, project)), today);
            &&& u is None && p is None <==> why is None
            &&& u is Some ==> why == Some(
                "user "@ + user@[u->0].period_type@ + " limit exceeded for "@
                    + user@[u->0].period_type@ + " period"@,
            )
            &&& u is None && p is Some ==> why == Some(
                "project "@ + project@[p->0].period_type@ + " limit exceeded for "@
                    + project@[p->0].period_type@ + " period"@,
            )
        }),
{
    reveal_strlit("user");
    reveal_strlit("user ");
    reveal_strlit("project");
    reveal_strlit("project ");
    reveal_strlit(" ");
    assert("user"@ + " "@ =~= "user "@);
    assert("project"@ + " "@ =~= "project "@);
}

} // verus!
