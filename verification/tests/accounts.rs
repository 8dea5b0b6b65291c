//! Tokens, pipes, registered keys and the management API.

use brightstaff::auth::pipe_selector::{infer_provider, select_pipe, PipeSelectionError};
use brightstaff::auth::token_resolver::{
    hash_token, resolve_token, AuthContext, AuthError, PipeInfo, TokenLookup,
};
use brightstaff::billing::counters::{Day, SpendingCounters};
use brightstaff::handlers::auth_check::{
    answer, auth_check, bearer_token, check_budget, error_body, find_pipe, firewall_check,
    is_firewall_mode, present_token, AuthReply, PeriodLimit,
};
use brightstaff::handlers::management::{
    claimed_user, egress_or_default, hash_password, login, management_route, needs_sign_in,
    new_token, project_route, refused_route, registration_failure, removal_answer, sign_in,
    sign_in_token, signed_in_user, storage_failure, success_status, token_from, KnownUser,
    ManagementRoute,
};
use brightstaff::handlers::request::extract_request_id;
use brightstaff::registry::{ApiKeyRegistry, RegisteredKeyInfo};

const TODAY: Day = Day {
    year: 2025,
    month: 3,
    day: 14,
};

fn pipe(id: u128, provider: &str, filter: Option<&str>) -> PipeInfo {
    PipeInfo {
        id,
        provider: provider.to_string(),
        api_key_encrypted: format!("key-{}", id),
        model_filter: filter.map(|f| f.to_string()),
    }
}

fn context(pipes: Vec<PipeInfo>) -> AuthContext {
    AuthContext {
        user_id: 1,
        project_id: 2,
        token_id: 3,
        user_email: "a@b.c".to_string(),
        project_name: "p".to_string(),
        pipes,
    }
}

#[test]
fn tokens_are_hashed_with_sha256() {
    assert_eq!(
        hash_token("abc"),
        "ba7816bf8f01cfea414140de5dae2223b00361a396177a9cb410ff61f20015ad"
    );
    assert_eq!(hash_token("").len(), 64);
}

#[test]
fn token_lookups_resolve_or_fail() {
    let ok = resolve_token(TokenLookup::Answered(Some(context(Vec::new())))).unwrap();
    assert_eq!(ok.project_id, 2);
    let none = resolve_token(TokenLookup::Answered(None)).unwrap_err();
    assert!(matches!(none, AuthError::InvalidToken));
    assert_eq!(none.message(), "invalid or expired token");
    let e = resolve_token(TokenLookup::NoConnection {
        error: "refused".to_string(),
    })
    .unwrap_err();
    assert_eq!(
        e.message(),
        "internal error: failed to get db connection: refused"
    );
    let e = resolve_token(TokenLookup::QueryFailed {
        error: "syntax".to_string(),
    })
    .unwrap_err();
    assert_eq!(e.message(), "internal error: db query failed: syntax");
    assert_eq!(
        AuthError::NoPipeForModel("m".to_string()).message(),
        "no pipe found for model: m"
    );
    assert_eq!(
        AuthError::SpendingLimitExceeded.message(),
        "spending limit exceeded"
    );
}

#[test]
fn providers_are_inferred_from_well_known_names() {
    for (model, provider) in [
        ("GPT-4o", Some("openai")),
        ("o3-mini", Some("openai")),
        ("tts-1", Some("openai")),
        ("fable-9", Some("anthropic")),
        ("gemma-2", Some("google")),
        ("codestral", Some("mistral")),
        ("meta-llama-3", Some("meta")),
        ("deepseek-chat", Some("deepseek")),
        ("rerank-v3", Some("cohere")),
        ("unknown", None),
    ] {
        assert_eq!(infer_provider(model, "fable"), provider, "{}", model);
    }
    assert_eq!(infer_provider("fable-9", ""), None);
}

#[test]
fn first_pipe_that_serves_the_model_is_selected() {
    let ctx = context(vec![
        pipe(1, "anthropic", None),
        pipe(2, "OpenAI", Some("gpt-4o-mini, o1")),
        pipe(3, "openai", Some(" gpt-4o ,x")),
        pipe(4, "openai", None),
    ]);
    let p = select_pipe(&ctx, "openai/gpt-4o", "fable").unwrap();
    assert_eq!(p.pipe_id, 3);
    assert_eq!(p.api_key_decrypted, "key-3");
    assert_eq!(p.model, "openai/gpt-4o");
    assert_eq!(select_pipe(&ctx, "o1", "fable").unwrap().pipe_id, 2);
    assert_eq!(select_pipe(&ctx, "gpt-5", "fable").unwrap().pipe_id, 4);
    assert_eq!(select_pipe(&ctx, "fable-9", "fable").unwrap().pipe_id, 1);
    let e = select_pipe(&ctx, "Acme/m", "fable").unwrap_err();
    assert_eq!(
        e.message(),
        "no pipe found for provider 'acme' model 'Acme/m'"
    );
    let PipeSelectionError::NoPipeFound { provider, model } = e;
    assert_eq!((provider.as_str(), model.as_str()), ("acme", "Acme/m"));
    let starred = context(vec![pipe(9, "acme", Some("*"))]);
    assert_eq!(select_pipe(&starred, "acme/any", "fable").unwrap().pipe_id, 9);
}

fn key_info(egress: &str) -> RegisteredKeyInfo {
    RegisteredKeyInfo {
        project_id: 0x550e8400e29b41d4a716446655440000,
        provider: "openai".to_string(),
        upstream_url: "https://api".to_string(),
        display_name: None,
        is_active: true,
        egress_ip: egress.to_string(),
    }
}

#[test]
fn registry_is_replaced_as_a_whole() {
    let mut r = ApiKeyRegistry::default();
    assert_eq!(
        r.reload(vec![
            ("h1".to_string(), key_info("default")),
            ("h2".to_string(), key_info("x")),
            ("h1".to_string(), key_info("y")),
        ]),
        2
    );
    assert_eq!(r.lookup("h1").unwrap().egress_ip, "y");
    assert!(r.lookup("h3").is_none());
    assert_eq!(r.reload(Vec::new()), 0);
    assert!(r.lookup("h1").is_none());
}

#[test]
fn bearer_tokens_are_stripped_and_trimmed() {
    assert_eq!(bearer_token(Some("Bearer  abc ")).as_deref(), Some("abc"));
    assert_eq!(bearer_token(Some("bearer abc")), None);
    assert_eq!(bearer_token(None), None);
    assert!(is_firewall_mode(Some("firewall")));
    assert!(!is_firewall_mode(Some("proxy")));
    assert!(!is_firewall_mode(None));
    let t = present_token(Some("Bearer abc")).unwrap();
    assert_eq!(t.hash, hash_token("abc"));
    let e = present_token(None).unwrap_err();
    assert_eq!(e.status(), 401);
    assert_eq!(e.body(), "{\"error\":\"missing bearer token\"}");
    assert_eq!(error_body("a\"b"), "{\"error\":\"a\\\"b\"}");
}

#[test]
fn requests_pass_step_by_step() {
    let ctx = || Ok(context(vec![pipe(7, "openai", None)]));
    let model = || Some("gpt-4o".to_string());
    let reply = find_pipe(Err(AuthError::InvalidToken), model(), "fable").unwrap_err();
    assert_eq!(reply.status(), 401);
    let reply =
        find_pipe(Err(AuthError::Internal("x".to_string())), model(), "fable").unwrap_err();
    assert_eq!(reply.status(), 500);
    assert_eq!(reply.body(), "{\"error\":\"auth error: internal error: x\"}");
    assert_eq!(find_pipe(ctx(), None, "fable").unwrap_err().status(), 400);
    let reply = find_pipe(ctx(), Some("acme/x".to_string()), "fable").unwrap_err();
    assert_eq!(reply.status(), 403);

    let admitted = find_pipe(ctx(), model(), "fable").unwrap();
    let reply = answer(admitted, Err("over".to_string()));
    assert_eq!(reply.status(), 429);
    assert_eq!(
        reply.body(),
        "{\"error\":\"spending_limit_exceeded\",\"message\":\"over\"}"
    );
    let reply = answer(find_pipe(ctx(), model(), "fable").unwrap(), Ok(()));
    assert_eq!(reply.status(), 200);
    assert_eq!(reply.body(), "OK");
    match reply {
        AuthReply::Allowed { headers } => {
            assert_eq!(headers.len(), 6);
            assert_eq!(headers[1].1, "key-7");
            assert_eq!(
                headers[3],
                (
                    "x-xproxy-user-id".to_string(),
                    "00000000-0000-0000-0000-000000000001".to_string()
                )
            );
        }
        other => panic!("unexpected reply {:?}", other),
    }
}

#[test]
fn first_failure_of_a_check_is_answered() {
    let mut counters = SpendingCounters::new();
    counters.record_usage_on("project", 2, "daily", 50_000, TODAY);
    let found = || TokenLookup::Answered(Some(context(vec![pipe(7, "openai", None)])));
    let limit = |cents| {
        let of_project = PeriodLimit {
            period_type: "daily".to_string(),
            limit_cents: cents,
        };
        Ok((Vec::new(), vec![of_project]))
    };
    let check = |header: Option<&str>, lookup, model: Option<&str>, limits| {
        auth_check(
            header,
            lookup,
            model.map(|m| m.to_string()),
            limits,
            &counters,
            TODAY,
            "fable",
        )
    };
    let bearer = Some("Bearer t");
    for (reply, status) in [
        (check(None, found(), None, limit(9)), 401),
        (
            check(bearer, TokenLookup::Answered(None), None, limit(9)),
            401,
        ),
        (check(bearer, found(), None, limit(9)), 400),
        (check(bearer, found(), Some("acme/m"), limit(1)), 403),
        (check(bearer, found(), Some("gpt-4o"), limit(5)), 429),
        (
            check(bearer, found(), Some("gpt-4o"), Err("down".to_string())),
            429,
        ),
        (check(bearer, found(), Some("gpt-4o"), limit(6)), 200),
    ] {
        assert_eq!(reply.status(), status);
    }
    let failed = TokenLookup::QueryFailed {
        error: "x".to_string(),
    };
    assert_eq!(
        check(bearer, failed, Some("gpt-4o"), limit(6)).body(),
        "{\"error\":\"auth error: internal error: db query failed: x\"}"
    );
    let unreachable = TokenLookup::NoConnection {
        error: "x".to_string(),
    };
    assert_eq!(
        check(bearer, unreachable, Some("gpt-4o"), limit(6)).status(),
        500
    );
}

#[test]
fn registered_keys_pass_the_firewall() {
    let mut registry = ApiKeyRegistry::new();
    registry.reload(vec![(hash_token("sk-1"), key_info("eu"))]);
    match firewall_check(Some("Bearer sk-1"), &registry) {
        AuthReply::Allowed { headers } => {
            assert_eq!(headers[0].1, "true");
            assert_eq!(headers[1].1, "https://api");
            assert_eq!(headers[2].1, "550e8400-e29b-41d4-a716-446655440000");
            assert_eq!(headers[3].1, "openai-eu");
            assert_eq!(headers[4].1, hash_token("sk-1"));
        }
        other => panic!("unexpected reply {:?}", other),
    }
    registry.reload(vec![(hash_token("sk-1"), key_info("default"))]);
    match firewall_check(Some("Bearer sk-1"), &registry) {
        AuthReply::Allowed { headers } => assert_eq!(headers[3].1, "openai"),
        other => panic!("unexpected reply {:?}", other),
    }
    assert_eq!(firewall_check(Some("Bearer sk-2"), &registry).status(), 401);
    assert_eq!(firewall_check(None, &registry).status(), 401);
}

#[test]
fn first_broken_limit_is_reported() {
    let limit = |period: &str, cents: i64| PeriodLimit {
        period_type: period.to_string(),
        limit_cents: cents,
    };
    let mut counters = SpendingCounters::new();
    counters.record_usage_on("user", 1, "daily", 20_000, TODAY);
    counters.record_usage_on("project", 2, "monthly", 50_000, TODAY);
    let check = |user: Vec<PeriodLimit>, project: Vec<PeriodLimit>| {
        check_budget(&counters, 1, &user, 2, &project, TODAY)
    };
    assert_eq!(check(vec![limit("daily", 3)], vec![limit("monthly", 6)]), Ok(()));
    assert_eq!(
        check(vec![limit("daily", 2)], vec![limit("monthly", 5)]),
        Err("user daily limit exceeded for daily period".to_string())
    );
    assert_eq!(
        check(vec![limit("weekly", 0)], vec![limit("monthly", 5)]),
        Err("project monthly limit exceeded for monthly period".to_string())
    );
    assert_eq!(check(vec![limit("daily", i64::MAX)], Vec::new()), Ok(()));
}

#[test]
fn management_routes_are_told_apart() {
    let id = "550e8400-e29b-41d4-a716-446655440000";
    let project_id = 0x550e8400e29b41d4a716446655440000;
    let at = |rest: &str| format!("/api/v1/projects/{}{}", id, rest);
    for (method, path, route) in [
        ("POST", "/api/v1/users".to_string(), ManagementRoute::CreateUser),
        ("POST", "/api/v1/auth/login".to_string(), ManagementRoute::Login),
        ("GET", "/api/v1/projects".to_string(), ManagementRoute::ListProjects),
        ("POST", "/api/v1/projects".to_string(), ManagementRoute::CreateProject),
        ("GET", at("/pipes"), ManagementRoute::ListPipes { project_id }),
        ("POST", at("/pipes"), ManagementRoute::CreatePipe { project_id }),
        ("POST", at("/tokens"), ManagementRoute::CreateToken { project_id }),
        ("DELETE", at("/tokens"), ManagementRoute::NotFound),
        ("GET", at("/pricing"), ManagementRoute::ListProjectPricing { project_id }),
        ("GET", at(""), ManagementRoute::NotFound),
        ("GET", "/api/v1/projects/x/pipes".to_string(), ManagementRoute::InvalidProjectId),
        ("PUT", "/api/v1/spending-limits".to_string(), ManagementRoute::SetSpendingLimit),
        ("GET", "/api/v1/spending-limits".to_string(), ManagementRoute::ListSpendingLimits),
        ("POST", "/api/v1/pricing/custom".to_string(), ManagementRoute::SetCustomPricing),
        ("GET", "/api/v1/pricing/custom".to_string(), ManagementRoute::ListCustomPricing),
        ("GET", "/api/v1/users".to_string(), ManagementRoute::NotFound),
    ] {
        assert_eq!(management_route(method, &path), route, "{} {}", method, path);
    }
    let tokens = format!("/tokens/{}", id);
    assert_eq!(
        management_route("DELETE", &at(&tokens)),
        ManagementRoute::RevokeToken {
            project_id,
            token_id: project_id
        }
    );
    assert_eq!(
        project_route("DELETE", Some(1), "api-keys", Some(2)),
        ManagementRoute::DeleteApiKey {
            project_id: 1,
            key_id: 2
        }
    );
    assert_eq!(
        project_route("GET", Some(1), "api-keys", None),
        ManagementRoute::ListApiKeys { project_id: 1 }
    );
    assert_eq!(
        project_route("POST", Some(1), "api-keys", None),
        ManagementRoute::RegisterApiKey { project_id: 1 }
    );
    assert!(!needs_sign_in(ManagementRoute::Login));
    assert!(!needs_sign_in(ManagementRoute::NotFound));
    assert!(needs_sign_in(ManagementRoute::ListProjects));
}

#[test]
fn users_sign_in_with_tokens() {
    assert_eq!(sign_in_token(Some("Bearer t")).unwrap(), "t");
    assert_eq!(sign_in_token(None).unwrap_err().status, 401);
    assert_eq!(signed_in_user(None).unwrap_err().error, "invalid token");
    assert_eq!(
        signed_in_user(Some("bob")).unwrap_err().error,
        "invalid token claims"
    );
    assert_eq!(
        signed_in_user(Some("00000000-0000-0000-0000-0000000000ff")).unwrap(),
        255
    );
    assert_eq!(claimed_user(Some("s"), Some(4)).unwrap(), 4);
}

fn known(hash: &str) -> KnownUser {
    KnownUser {
        id: 1,
        email: "a@b.c".to_string(),
        password_hash: hash.to_string(),
    }
}

#[test]
fn passwords_match_their_hash_alone() {
    let hash = hash_password("s3cret").unwrap();
    assert_ne!(hash, "s3cret");
    assert_eq!(login(Ok(Some(known(&hash))), "s3cret").unwrap().id, 1);
    let e = login(Ok(Some(known(&hash))), "other").unwrap_err();
    assert_eq!((e.status, e.error.as_str()), (401, "invalid credentials"));
}

#[test]
fn sign_in_answers_are_alike() {
    let e = login(Ok(None), "x").unwrap_err();
    assert_eq!((e.status, e.error.as_str()), (401, "invalid credentials"));
    assert_eq!(
        login(Ok(Some(known("no hash"))), "x").unwrap_err().status,
        401
    );
    let e = login(Err("db".to_string()), "x").unwrap_err();
    assert_eq!((e.status, e.error.as_str()), (500, "db"));
    assert!(sign_in(Ok(Some(known("h"))), true).is_ok());
    assert!(sign_in(Ok(Some(known("h"))), false).is_err());
}

#[test]
fn new_tokens_are_random_and_hashed() {
    let t = token_from(0x550e8400e29b41d4a716446655440000);
    assert_eq!(t.raw, "xproxy_550e8400e29b41d4a716446655440000");
    assert_eq!(t.hash, hash_token(&t.raw));
    let a = new_token();
    let b = new_token();
    assert_ne!(a.raw, b.raw);
    assert_eq!(a.raw.len(), 39);
    assert_eq!(a.hash, hash_token(&a.raw));
}

#[test]
fn actions_are_answered_by_their_kind() {
    let project_id = 7;
    assert_eq!(success_status(ManagementRoute::CreateUser), 201);
    assert_eq!(
        success_status(ManagementRoute::RegisterApiKey { project_id }),
        201
    );
    assert_eq!(success_status(ManagementRoute::Login), 200);
    assert_eq!(success_status(ManagementRoute::SetCustomPricing), 200);
    let answer = |route, error: &str| {
        let r = storage_failure(route, error.to_string());
        (r.status, r.error)
    };
    let taken = "duplicate key value";
    assert_eq!(
        answer(ManagementRoute::CreateProject, taken),
        (409, taken.to_string())
    );
    assert_eq!(
        answer(ManagementRoute::RegisterApiKey { project_id }, taken),
        (409, "API key already registered".to_string())
    );
    assert_eq!(
        answer(ManagementRoute::RegisterApiKey { project_id }, "down"),
        (500, "down".to_string())
    );
    assert_eq!(
        answer(ManagementRoute::CreateToken { project_id }, taken),
        (500, taken.to_string())
    );
    let refused = refused_route(ManagementRoute::InvalidProjectId).unwrap();
    assert_eq!(
        (refused.status, refused.error.as_str()),
        (400, "invalid project id")
    );
    let refused = refused_route(ManagementRoute::NotFound).unwrap();
    assert_eq!((refused.status, refused.error.as_str()), (404, "not found"));
    assert!(refused_route(ManagementRoute::Login).is_none());
}

#[test]
fn failures_of_the_database_are_answered() {
    let conflict = registration_failure("duplicate key value".to_string());
    assert_eq!(
        (conflict.status, conflict.error.as_str()),
        (409, "API key already registered")
    );
    assert_eq!(
        registration_failure("violates unique x".to_string()).status,
        409
    );
    assert_eq!(registration_failure("down".to_string()).status, 500);
    assert_eq!(
        removal_answer(Ok(true), "revoked", "token not found").unwrap(),
        "revoked"
    );
    assert_eq!(
        removal_answer(Ok(false), "revoked", "token not found")
            .unwrap_err()
            .status,
        404
    );
    assert_eq!(
        removal_answer(Err("db".to_string()), "revoked", "token not found")
            .unwrap_err()
            .error,
        "db"
    );
    assert_eq!(egress_or_default(None), "default");
    assert_eq!(egress_or_default(Some("eu")), "eu");
}

#[test]
fn request_ids_are_kept_or_made() {
    assert_eq!(extract_request_id(Some("r-1")), "r-1");
    let a = extract_request_id(None);
    assert_eq!(a.len(), 36);
    assert_ne!(a, extract_request_id(None));
}

#[test]
fn the_provider_of_a_name_is_kept() {
    let family = "sonata";
    for name in ["gpt-4o", "sonata-3", "Gemini-pro", "codestral", "LLAMA", "deepseek", "command"] {
        let provider = infer_provider(name, family);
        assert!(provider.is_some());
        assert_eq!(infer_provider(&name.to_ascii_uppercase(), family), provider);
        assert_eq!(infer_provider(&format!("{name}-mini"), family), provider);
    }
    assert_eq!(infer_provider("gpt-4o", family), Some("openai"));
    assert_eq!(infer_provider("", family), None);
}
