//! What holds of the management API.

use crate::encoding::uuid_value;
use crate::handlers::management::{
    answers_removal, answers_sign_in, creates, fails_with, is_claimed_user, is_duplicate,
    is_protected, is_sign_in_token, project_route_of, raw_token, refuses, route_of, segment,
    segment_id, success_code, without_prefix, KnownUser, ManagementRoute, Refusal,
};
use crate::text::{begins_with, hex_digit, hex_digits, joined, lemma_fields_of_joined};
use vstd::prelude::*;

verus! {

// ---------------------------------------------------------------------------
// Routes
// ---------------------------------------------------------------------------

proof fn lemma_methods()
    ensures
        "GET"@ != "POST"@,
        "GET"@ != "DELETE"@,
        "GET"@ != "PUT"@,
        "POST"@ != "DELETE"@,
        "POST"@ != "PUT"@,
        "pipes"@ != "tokens"@,
        "pipes"@ != "api-keys"@,
        "pipes"@ != "pricing"@,
        "tokens"@ != "api-keys"@,
        "tokens"@ != "pricing"@,
        "api-keys"@ != "pricing"@,
{
    reveal_strlit("GET");
    reveal_strlit("POST");
    reveal_strlit("DELETE");
    reveal_strlit("PUT");
    reveal_strlit("pipes");
    reveal_strlit("tokens");
    reveal_strlit("api-keys");
    reveal_strlit("pricing");
    assert("GET"@.len() == 3 && "POST"@.len() == 4 && "DELETE"@.len() == 6 && "PUT"@.len() == 3);
    assert("GET"@[0] == 'G' && "PUT"@[0] == 'P');
    assert("pipes"@.len() == 5 && "tokens"@.len() == 6 && "api-keys"@.len() == 8);
    assert("pricing"@.len() == 7);
}

/// What is asked of a project is its pipes, tokens, keys or prices: to list
/// them, to make one, or to remove one by its id.
pub proof fn project_actions(project_id: u128, id: u128, method: Seq<char>, sub: Seq<char>)
    ensures
        ({
            let p = Some(project_id);
            &&& project_route_of("GET"@, p, "pipes"@, None) == (ManagementRoute::ListPipes {
                project_id,
            })
            &&& project_route_of("POST"@, p, "pipes"@, None) == (ManagementRoute::CreatePipe {
                project_id,
            })
            &&& project_route_of("POST"@, p, "tokens"@, None) == (ManagementRoute::CreateToken {
                project_id,
            })
            &&& project_route_of("DELETE"@, p, "tokens"@, Some(id)) == (
            ManagementRoute::RevokeToken { project_id, token_id: id })
            &&& project_route_of("GET"@, p, "api-keys"@, None) == (ManagementRoute::ListApiKeys {
                project_id,
            })
            &&& project_route_of("POST"@, p, "api-keys"@, None) == (
            ManagementRoute::RegisterApiKey { project_id })
            &&& project_route_of("DELETE"@, p, "api-keys"@, Some(id)) == (
            ManagementRoute::DeleteApiKey { project_id, key_id: id })
            &&& project_route_of("GET"@, p, "pricing"@, None) == (
            ManagementRoute::ListProjectPricing { project_id })
            &&& project_route_of("DELETE"@, p, sub, None) == ManagementRoute::NotFound
            &&& project_route_of("GET"@, p, "tokens"@, None) == ManagementRoute::NotFound
            &&& project_route_of(method, None, sub, Some(id)) == ManagementRoute::InvalidProjectId
            &&& sub != "pipes"@ && sub != "tokens"@ && sub != "api-keys"@ && sub != "pricing"@
                ==> project_route_of(method, p, sub, Some(id)) == ManagementRoute::NotFound
        }),
{
    lemma_methods();
}

proof fn lemma_below_projects(rest: Seq<char>)
    requires
        rest.len() > 0 ==> rest[0] != '/',
    ensures
        begins_with("/api/v1/projects/"@ + rest, "/api/v1/projects/"@),
        without_prefix("/api/v1/projects/"@ + rest, "/api/v1/projects/"@) == rest,
        "/api/v1/projects/"@ + rest != "/api/v1/users"@,
        "/api/v1/projects/"@ + rest != "/api/v1/auth/login"@,
        "/api/v1/projects/"@ + rest != "/api/v1/projects"@,
{
    reveal_strlit("/api/v1/projects/");
    reveal_strlit("/api/v1/users");
    reveal_strlit("/api/v1/auth/login");
    reveal_strlit("/api/v1/projects");
    let prefix = "/api/v1/projects/"@;
    let full = prefix + rest;
    assert(prefix.len() == 17);
    assert(full.subrange(0, 17) =~= prefix);
    assert(full.skip(17) =~= rest);
    assert(prefix[0] == '/');
    if begins_with(rest, prefix) {
        assert(rest.subrange(0, 17)[0] == rest[0]);
    }
    assert(begins_with(full, prefix));
    assert(without_prefix(rest, prefix) == rest);
    assert(without_prefix(full, prefix) == without_prefix(full.skip(17), prefix));
    assert("/api/v1/users"@.len() == 13);
    assert("/api/v1/projects"@.len() == 16);
    assert(full[8] == 'p');
    assert("/api/v1/auth/login"@[8] == 'a');
}

/// The path of a project's action holds the project's id, the kind of thing,
/// and the id of the thing where one is meant.
pub proof fn paths_name_project_and_thing(
    method: Seq<char>,
    project: Seq<char>,
    kind: Seq<char>,
    thing: Seq<char>,
)
    requires
        !project.contains('/'),
        !kind.contains('/'),
        !thing.contains('/'),
        project.len() > 0,
    ensures
        route_of(
            method,
            "/api/v1/projects/"@ + joined(seq![project, kind, thing], seq!['/']),
        ) == project_route_of(method, uuid_value(project), kind, uuid_value(thing)),
        route_of(method, "/api/v1/projects/"@ + joined(seq![project, kind], seq!['/']))
            == project_route_of(method, uuid_value(project), kind, None),
{
    let three = seq![project, kind, thing];
    let two = seq![project, kind];
    assert(three[0] == project && three[1] == kind && three[2] == thing);
    assert(two[0] == project && two[1] == kind);
    lemma_fields_of_joined(three, '/');
    lemma_fields_of_joined(two, '/');
    let rest3 = joined(three, seq!['/']);
    let rest2 = joined(two, seq!['/']);
    reveal_with_fuel(joined, 3);
    assert(three.drop_last() =~= two);
    assert(two.drop_last() =~= seq![project]);
    assert(rest2 =~= project + seq!['/'] + kind);
    assert(rest3 =~= rest2 + seq!['/'] + thing);
    assert(rest2[0] == project[0]);
    assert(rest3[0] == project[0]);
    assert(project[0] != '/') by {
        if project[0] == '/' {
            assert(project.contains('/'));
        }
    }
    lemma_below_projects(rest3);
    lemma_below_projects(rest2);
    assert(segment(three, 1) == kind);
    assert(segment_id(three, 2) == uuid_value(thing));
    assert(segment_id(two, 2) is None);
}

/// The other actions have paths of their own.
pub proof fn other_actions_have_their_paths(method: Seq<char>, path: Seq<char>)
    requires
        !begins_with(path, "/api/v1/projects/"@),
    ensures
        path == "/api/v1/users"@ ==> route_of("POST"@, path) == ManagementRoute::CreateUser,
        path == "/api/v1/auth/login"@ ==> route_of("POST"@, path) == ManagementRoute::Login,
        path == "/api/v1/projects"@ ==> route_of("GET"@, path) == ManagementRoute::ListProjects
            && route_of("POST"@, path) == ManagementRoute::CreateProject,
        path == "/api/v1/spending-limits"@ ==> route_of("GET"@, path)
            == ManagementRoute::ListSpendingLimits && route_of("PUT"@, path)
            == ManagementRoute::SetSpendingLimit,
        path == "/api/v1/pricing/custom"@ ==> route_of("POST"@, path)
            == ManagementRoute::SetCustomPricing && route_of("GET"@, path)
            == ManagementRoute::ListCustomPricing,
        method == "DELETE"@ ==> route_of(method, path) == ManagementRoute::NotFound,
{
    lemma_methods();
    reveal_strlit("/api/v1/users");
    reveal_strlit("/api/v1/auth/login");
    reveal_strlit("/api/v1/projects");
    reveal_strlit("/api/v1/spending-limits");
    reveal_strlit("/api/v1/pricing/custom");
    reveal_strlit("DELETE");
    reveal_strlit("PUT");
    assert("/api/v1/users"@.len() == 13);
    assert("/api/v1/auth/login"@.len() == 18);
    assert("/api/v1/projects"@.len() == 16);
    assert("/api/v1/spending-limits"@.len() == 23);
    assert("/api/v1/pricing/custom"@.len() == 22);
    assert("DELETE"@.len() != "PUT"@.len());
}

/// Nobody but who signs up or signs in does anything without being signed in.
pub proof fn only_signing_up_and_in_are_open(route: ManagementRoute, r: Option<Refusal>)
    requires
        refuses(route, r),
    ensures
        !is_protected(route) ==> route is CreateUser || route is Login || r is Some,
        is_protected(route) ==> r is None,
        route is InvalidProjectId ==> r is Some && r->0.status == 400,
        route is NotFound ==> r is Some && r->0.status == 404,
        route is RegisterApiKey || route is DeleteApiKey || route is CreateToken
            || route is RevokeToken || route is SetSpendingLimit || route is SetCustomPricing
            ==> is_protected(route),
{
}

/// What makes something new is answered 201, all else 200.
pub proof fn new_things_are_created(route: ManagementRoute)
    ensures
        route is CreateUser || route is CreateProject || route is CreatePipe || route is CreateToken
            || route is RegisterApiKey <==> success_code(route) == 201,
        success_code(route) != 201 ==> success_code(route) == 200,
{
}

/// What the database refuses is a conflict where its user named it or it is
/// there already, and a fault of the server otherwise.
pub proof fn taken_names_are_conflicts(route: ManagementRoute, error: Seq<char>, r: Refusal)
    requires
        fails_with(route, error, r),
    ensures
        route is CreateUser || route is CreateProject || route is CreatePipe ==> r.status == 409
            && r.error@ == error,
        route is RegisterApiKey && is_duplicate(error) ==> r.status == 409,
        route is RegisterApiKey && !is_duplicate(error) ==> r.status == 500 && r.error@ == error,
        !creates(route) || route is CreateToken ==> r.status == 500 && r.error@ == error,
{
}

// ---------------------------------------------------------------------------
// Signing in
// ---------------------------------------------------------------------------

/// A user is signed in exactly by the right password; whether a user exists
/// does not show.
pub proof fn only_the_password_signs_in(
    user: KnownUser,
    right: Result<KnownUser, Refusal>,
    wrong: Result<KnownUser, Refusal>,
    unknown: Result<KnownUser, Refusal>,
    matches: bool,
)
    requires
        answers_sign_in(Ok(Some(user)), true, right),
        answers_sign_in(Ok(Some(user)), false, wrong),
        answers_sign_in(Ok(None), matches, unknown),
    ensures
        right is Ok && right->Ok_0 == user,
        wrong is Err && unknown is Err,
        wrong->Err_0.status == 401 && unknown->Err_0.status == 401,
        wrong->Err_0.error@ == unknown->Err_0.error@,
{
}

/// A token says who its user is where it is valid and holds an id; otherwise,
/// and without a token, the request is not authorized.
pub proof fn valid_tokens_name_their_user(
    token: Option<Seq<char>>,
    t: Result<String, Refusal>,
    valid: bool,
    user_id: Option<u128>,
    r: Result<u128, Refusal>,
)
    requires
        is_sign_in_token(token, t),
        is_claimed_user(valid, user_id, r),
    ensures
        token is Some ==> t is Ok && t->Ok_0@ == token->0,
        token is None ==> t is Err && t->Err_0.status == 401,
        r is Ok <==> valid && user_id is Some,
        r is Ok ==> r->Ok_0 == user_id->0,
        r is Err ==> r->Err_0.status == 401,
{
}

/// What was there is removed; what was not there is not found.
pub proof fn removals_are_answered(
    removed: Result<bool, String>,
    done: Seq<char>,
    missing: Seq<char>,
    r: Result<&'static str, Refusal>,
)
    requires
        answers_removal(removed, done, missing, r),
    ensures
        removed == Ok::<bool, String>(true) <==> r is Ok,
        r is Ok ==> r->Ok_0@ == done,
        removed == Ok::<bool, String>(false) ==> r->Err_0.status == 404 && r->Err_0.error@
            == missing,
        removed is Err ==> r->Err_0.status == 500 && r->Err_0.error@ == removed->Err_0@,
{
}

// ---------------------------------------------------------------------------
// Tokens
// ---------------------------------------------------------------------------

spec fn power_of_sixteen(width: nat) -> nat
    decreases width,
{
    if width == 0 {
        1
    } else {
        16 * power_of_sixteen((width - 1) as nat)
    }
}

proof fn lemma_hex_digits(n: nat, m: nat, width: nat)
    requires
        n < power_of_sixteen(width),
        m < power_of_sixteen(width),
    ensures
        hex_digits(n, width).len() == width,
        hex_digits(n, width) == hex_digits(m, width) ==> n == m,
    decreases width,
{
    if width > 0 {
        let w = (width - 1) as nat;
        assert(n / 16 < power_of_sixteen(w));
        assert(m / 16 < power_of_sixteen(w));
        lemma_hex_digits(n / 16, m / 16, w);
        lemma_hex_digits(m / 16, n / 16, w);
        let a = hex_digits(n, width);
        let b = hex_digits(m, width);
        if a == b {
            assert(a.last() == b.last());
            assert(hex_digit((n % 16) as int) == hex_digit((m % 16) as int));
            assert(n % 16 == m % 16);
            assert(a.drop_last() =~= hex_digits(n / 16, w));
            assert(b.drop_last() =~= hex_digits(m / 16, w));
        }
    }
}

/// A token begins with the name of the proxy and has 32 digits behind it, and
/// different ids make different tokens.
pub proof fn tokens_differ_by_their_ids(a: u128, b: u128)
    ensures
        raw_token(a).len() == 39,
        raw_token(a).take(7) == "xproxy_"@,
        raw_token(a) == raw_token(b) ==> a == b,
{
    reveal_strlit("xproxy_");
    reveal_with_fuel(power_of_sixteen, 17);
    let top: u128 = 0x1_0000_0000_0000_0000;
    assert(power_of_sixteen(16) == top);
    let ah = (a / top) as nat;
    let al = (a % top) as nat;
    let bh = (b / top) as nat;
    let bl = (b % top) as nat;
    lemma_hex_digits(ah, bh, 16);
    lemma_hex_digits(al, bl, 16);
    lemma_hex_digits(bh, ah, 16);
    lemma_hex_digits(bl, al, 16);
    let s = raw_token(a);
    let t = raw_token(b);
    assert(s.take(7) =~= "xproxy_"@);
    if s == t {
        assert(s.subrange(7, 23) =~= hex_digits(ah, 16));
        assert(t.subrange(7, 23) =~= hex_digits(bh, 16));
        assert(s.subrange(23, 39) =~= hex_digits(al, 16));
        assert(t.subrange(23, 39) =~= hex_digits(bl, 16));
        assert(a == top * ah + al && b == top * bh + bl);
    }
}

} // verus!
