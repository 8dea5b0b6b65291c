//! Policies from outside, and the preferences a request is routed by.

use brightstaff::chat::Conversion;
use brightstaff::handlers::policy_provider::{
    build_headers, ExternalPolicyResponse, PolicyFetchError, PolicyProviderClient, ProviderReply,
};
use brightstaff::handlers::router_chat::{
    prepare_routing, resolve_usage_preferences, router_chat_get_upstream_model, RoutingError,
};
use brightstaff::router::model_capabilities::{
    catalog_url, user_overrides, ConfiguredModel, ModelCapabilities, ModelCapabilitiesService,
};
use brightstaff::router::policy_provider::{
    CachedPolicy, PolicyLookup, PolicyProvider, PolicyProviderConfig, PolicyProviderError,
    PolicyReply, PolicyResponse,
};
use brightstaff::router::preferences::{ModelUsagePreference, RoutingPreference};

const NOW: u64 = 1_700_000_000_000;

#[test]
fn test_default_ttl() {
    let config = PolicyProviderConfig::default();
    assert_eq!(config.ttl_seconds, 300);
}

#[test]
fn test_cached_policy_expiration() {
    let cached = CachedPolicy {
        policy: vec![],
        revision: 1,
        cached_at: NOW - 400_000,
        ttl: 300,
    };
    assert!(cached.is_expired(NOW));

    let fresh = CachedPolicy {
        policy: vec![],
        revision: 1,
        cached_at: NOW,
        ttl: 300,
    };
    assert!(!fresh.is_expired(NOW));
}

fn policy(name: &str) -> Vec<ModelUsagePreference> {
    vec![ModelUsagePreference {
        model: "openai/gpt-4o".to_string(),
        routing_preferences: vec![RoutingPreference {
            name: name.to_string(),
            description: "desc".to_string(),
        }],
    }]
}

fn response(id: &str, revision: u64, schema: &str) -> PolicyReply {
    PolicyReply::Policy(PolicyResponse {
        policy_id: id.to_string(),
        revision,
        schema_version: schema.to_string(),
        routing_preferences: policy("code"),
    })
}

fn provider() -> PolicyProvider {
    PolicyProvider::new(PolicyProviderConfig {
        url: "http://policies/get".to_string(),
        ..PolicyProviderConfig::default()
    })
}

#[test]
fn policies_are_fetched_then_cached() {
    let mut p = provider();
    match p.get_policy("a b/ü", Some(7), NOW) {
        Ok(Some(PolicyLookup::Fetch { url })) => assert_eq!(
            url,
            "http://policies/get?policy_id=a%20b%2F%C3%BC&revision=7"
        ),
        other => panic!("unexpected lookup {:?}", other),
    }
    let got = p.fetch_policy("a b/ü", response("a b/ü", 7, "v1"), NOW).unwrap();
    assert_eq!(got[0].routing_preferences[0].name, "code");
    for revision in [None, Some(0), Some(7)] {
        match p.get_policy("a b/ü", revision, NOW + 300_000) {
            Ok(Some(PolicyLookup::Cached(v))) => assert_eq!(v[0].model, "openai/gpt-4o"),
            other => panic!("unexpected lookup {:?}", other),
        }
    }
    // A later revision, or a later time, is fetched again.
    assert!(matches!(
        p.get_policy("a b/ü", Some(8), NOW),
        Ok(Some(PolicyLookup::Fetch { .. }))
    ));
    assert!(matches!(
        p.get_policy("a b/ü", None, NOW + 300_001),
        Ok(Some(PolicyLookup::Fetch { .. }))
    ));
    p.clear_cache(Some("other"));
    assert!(matches!(
        p.get_policy("a b/ü", None, NOW),
        Ok(Some(PolicyLookup::Cached(_)))
    ));
    p.clear_cache(None);
    assert!(matches!(
        p.get_policy("a b/ü", None, NOW),
        Ok(Some(PolicyLookup::Fetch { .. }))
    ));
}

#[test]
fn bad_policies_are_refused() {
    let text = |e: PolicyProviderError| e.message();
    let mut p = provider();
    assert_eq!(
        text(p.fetch_policy("a", response("a", 1, "v2"), NOW).unwrap_err()),
        "Unsupported schema version: v2"
    );
    assert_eq!(
        text(p.fetch_policy("a", response("b", 1, "v1"), NOW).unwrap_err()),
        "Policy ID mismatch: expected a, got b"
    );
    assert_eq!(
        text(
            p.fetch_policy(
                "a",
                PolicyReply::Status {
                    status: "404 Not Found".to_string(),
                    body: "gone".to_string()
                },
                NOW
            )
            .unwrap_err()
        ),
        "Failed to parse policy response: HTTP 404 Not Found from policy endpoint: gone"
    );
    assert_eq!(
        text(
            p.fetch_policy(
                "a",
                PolicyReply::Malformed {
                    error: "eof".to_string()
                },
                NOW
            )
            .unwrap_err()
        ),
        "Failed to parse policy response: Failed to parse JSON response: eof"
    );
    assert_eq!(
        text(
            p.fetch_policy(
                "a",
                PolicyReply::Failed {
                    error: "down".to_string()
                },
                NOW
            )
            .unwrap_err()
        ),
        "HTTP request failed: down"
    );
    assert!(matches!(
        p.get_policy("a", None, NOW),
        Ok(Some(PolicyLookup::Fetch { .. }))
    ));
    assert_eq!(
        text(PolicyProviderError::NotConfigured),
        "No policy provider configured"
    );
}

#[test]
fn nothing_is_fetched_without_a_provider() {
    let unconfigured = PolicyProvider::new(PolicyProviderConfig::default());
    assert!(matches!(unconfigured.get_policy("p", None, NOW), Ok(None)));
    assert!(unconfigured.headers().is_empty());
    let configured = PolicyProvider::new(PolicyProviderConfig {
        headers: vec![("Authorization".to_string(), "Bearer token".to_string())],
        ..PolicyProviderConfig::default()
    });
    assert_eq!(configured.headers()[0].1, "Bearer token");
}

#[test]
fn headers_that_cannot_be_sent_refuse_the_request_for_good() {
    let header = |name: &str, value: &str| (name.to_string(), value.to_string());
    let good = vec![header("Authorization", "Bearer token"), header("x-a", "\u{fc}")];
    assert_eq!(
        build_headers(&good).unwrap(),
        vec![header("authorization", "Bearer token"), header("x-a", "\u{fc}")]
    );
    // Of two headers of one name the last one counts.
    let twice = vec![header("X-A", "1"), header("x-b", "2"), header("x-a", "3")];
    assert_eq!(
        build_headers(&twice).unwrap(),
        vec![header("x-b", "2"), header("x-a", "3")]
    );
    assert!(build_headers(&Vec::new()).unwrap().is_empty());
    let fault = |headers: Vec<(String, String)>| {
        let e = build_headers(&headers).unwrap_err();
        assert!(!e.is_transient());
        e.message().to_string()
    };
    assert_eq!(
        fault(vec![header("x-ok", "1"), header("bad name", "1")]),
        "invalid header name 'bad name' in routing.policy_provider.headers: \
         invalid HTTP header name"
    );
    assert_eq!(
        fault(vec![header("", "1")]),
        "invalid header name '' in routing.policy_provider.headers: invalid HTTP header name"
    );
    assert_eq!(
        fault(vec![header("x-a", "line\nbreak")]),
        "invalid header value for 'x-a' in routing.policy_provider.headers: \
         failed to parse header value"
    );
    assert!(build_headers(&vec![header(&"a".repeat(65536), "1")]).is_err());
    assert!(build_headers(&vec![header(&"a".repeat(65535), "1")]).is_ok());
}

#[test]
fn a_failed_refresh_keeps_the_catalog() {
    let models = vec![ConfiguredModel {
        name: "m".to_string(),
        model: None,
        canonical: None,
        capabilities: Some(caps(Some(1), None)),
    }];
    let fresh = |window: u32| Some(vec![("c".to_string(), caps(Some(window), Some(true)))]);
    let empty = ModelCapabilitiesService::new(&models, None);
    assert_eq!(empty.capabilities_for("c", None), caps(None, None));
    assert_eq!(empty.capabilities_for("m", None), caps(Some(1), None));
    let mut service = ModelCapabilitiesService::new(&models, fresh(5));
    service.on_refresh(None);
    assert_eq!(service.capabilities_for("c", None).window(), Some(5));
    service.on_refresh(fresh(6));
    assert_eq!(service.capabilities_for("c", None).window(), Some(6));
    assert_eq!(service.capabilities_for("m", None), caps(Some(1), None));
}

fn answered(code: u16, status: &str, id: &str) -> ProviderReply {
    ProviderReply::Answered {
        code,
        status: status.to_string(),
        payload: Ok(ExternalPolicyResponse {
            policy_id: id.to_string(),
            routing_preferences: policy("quick response"),
        }),
    }
}

#[test]
fn fetches_policy_and_populates_cache() {
    let mut client = PolicyProviderClient::new(Some(300));
    assert!(client.cached_policy("customer-abc", NOW).is_none());
    let first = client
        .fetch_policy("customer-abc", answered(200, "200 OK", "customer-abc"), NOW)
        .unwrap();
    let second = client.cached_policy("customer-abc", NOW).unwrap();
    assert_eq!(first.len(), 1);
    assert_eq!(second[0].model, "openai/gpt-4o");
    assert!(client
        .cached_policy("customer-abc", NOW + 300_000)
        .is_none());
}

#[test]
fn returns_invalid_on_policy_id_mismatch() {
    let mut client = PolicyProviderClient::new(Some(300));
    let err = client
        .fetch_policy("customer-abc", answered(200, "200 OK", "different-id"), NOW)
        .unwrap_err();
    assert!(matches!(err, PolicyFetchError::Invalid(_)));
    assert_eq!(
        err.message(),
        "policy_id mismatch in provider response: expected 'customer-abc', got 'different-id'"
    );
}

#[test]
fn returns_transient_on_server_error() {
    let mut client = PolicyProviderClient::new(Some(300));
    let err = client
        .fetch_policy(
            "customer-abc",
            answered(500, "500 Internal Server Error", "customer-abc"),
            NOW,
        )
        .unwrap_err();
    assert!(err.is_transient());
    assert_eq!(
        err.message(),
        "policy provider returned 500 Internal Server Error"
    );
    let err = client
        .fetch_policy(
            "customer-abc",
            ProviderReply::Failed {
                error: "timeout".to_string(),
            },
            NOW,
        )
        .unwrap_err();
    assert!(err.is_transient());
    assert_eq!(err.message(), "policy fetch failed: timeout");
}

#[test]
fn returns_invalid_on_client_error_status() {
    let mut client = PolicyProviderClient::new(None);
    let err = client
        .fetch_policy(
            "customer-abc",
            answered(404, "404 Not Found", "customer-abc"),
            NOW,
        )
        .unwrap_err();
    assert!(matches!(err, PolicyFetchError::Invalid(_)));
    let err = client
        .fetch_policy(
            "customer-abc",
            ProviderReply::Answered {
                code: 200,
                status: "200 OK".to_string(),
                payload: Err("eof".to_string()),
            },
            NOW,
        )
        .unwrap_err();
    assert_eq!(err.message(), "invalid policy payload: eof");
}

#[test]
fn resolve_usage_preferences_prioritizes_inline_policy() {
    let result = resolve_usage_preferences(
        Some(policy("inline")),
        Some("policy-a"),
        None,
        Some(policy("metadata")),
    )
    .unwrap();
    assert_eq!(result.unwrap()[0].routing_preferences[0].name, "inline");
}

#[test]
fn resolve_usage_preferences_falls_back_to_metadata_on_transient_policy_error() {
    let mut provider = PolicyProviderClient::new(Some(60));
    let failed = ProviderReply::Answered {
        code: 500,
        status: "500 Internal Server Error".to_string(),
        payload: Err("EOF while parsing a value".to_string()),
    };
    let fetched = provider.fetch_policy("customer-a", failed, NOW);
    let result = resolve_usage_preferences(
        None,
        Some("customer-a"),
        Some(fetched),
        Some(policy("metadata")),
    )
    .unwrap()
    .unwrap();
    assert_eq!(result[0].routing_preferences[0].name, "metadata");
}

#[test]
fn resolve_usage_preferences_returns_bad_request_on_policy_mismatch() {
    let mut provider = PolicyProviderClient::new(Some(60));
    let different = ProviderReply::Answered {
        code: 200,
        status: "200 OK".to_string(),
        payload: Ok(ExternalPolicyResponse {
            policy_id: "different".to_string(),
            routing_preferences: Vec::new(),
        }),
    };
    let fetched = provider.fetch_policy("expected", different, NOW);
    let err = resolve_usage_preferences(None, Some("expected"), Some(fetched), None).unwrap_err();
    assert_eq!(err.status_code, 400);
    let err = resolve_usage_preferences(
        None,
        Some("expected"),
        Some(Err(PolicyFetchError::Invalid("mismatch".to_string()))),
        None,
    )
    .unwrap_err();
    assert_eq!(err.status_code, 400);
    assert_eq!(
        err.message,
        "Failed to load routing policy for policy_id 'expected': mismatch"
    );
    let fetched =
        resolve_usage_preferences(None, Some("p"), Some(Ok(policy("fetched"))), None).unwrap();
    assert_eq!(fetched.unwrap()[0].routing_preferences[0].name, "fetched");
    assert!(resolve_usage_preferences(None, None, None, None)
        .unwrap()
        .is_none());
}

#[test]
fn requests_of_other_kinds_are_refused_before_their_policy() {
    let broken = || Some(Err(PolicyFetchError::Invalid("m".to_string())));
    let err = prepare_routing(Conversion::OtherKind, None, Some("p"), broken(), None).unwrap_err();
    assert_eq!(
        (err.status_code, err.message.as_str()),
        (500, "Request conversion failed")
    );
    let failed = Conversion::Failed("missing field".to_string());
    let err = prepare_routing(failed, None, Some("p"), broken(), None).unwrap_err();
    assert_eq!(
        (err.status_code, err.message.as_str()),
        (500, "Failed to convert request: missing field")
    );
    let chat = || Conversion::Chat(Vec::new());
    let err = prepare_routing(chat(), None, Some("p"), broken(), None).unwrap_err();
    assert_eq!(err.status_code, 400);
    let (messages, preferences) =
        prepare_routing(chat(), None, None, None, Some(policy("metadata"))).unwrap();
    assert!(messages.is_empty());
    assert_eq!(
        preferences.unwrap()[0].routing_preferences[0].name,
        "metadata"
    );
}

#[test]
fn routed_requests_name_their_model() {
    let r = router_chat_get_upstream_model(Ok(Some(("code".to_string(), "m".to_string()))))
        .unwrap();
    assert_eq!(r.model_name, "m");
    assert_eq!(r.route_name.as_deref(), Some("code"));
    let r = router_chat_get_upstream_model(Ok(None)).unwrap();
    assert_eq!(r.model_name, "none");
    let e = router_chat_get_upstream_model(Err("x".to_string())).unwrap_err();
    assert_eq!(e.status_code, 500);
    assert_eq!(RoutingError::bad_request("m".to_string()).status_code, 400);
}

fn caps(window: Option<u32>, vision: Option<bool>) -> ModelCapabilities {
    ModelCapabilities {
        context_window: window,
        supports_vision: vision,
    }
}

#[test]
fn user_override_wins_over_catalog() {
    let svc = ModelCapabilitiesService::from_catalog(
        vec![("openai/gpt-4o".to_string(), caps(Some(200000), Some(true)))],
        vec![("openai/gpt-4o".to_string(), caps(Some(128000), None))],
    );
    let resolved = svc.capabilities_for("openai/gpt-4o", Some("openai/gpt-4o"));
    // User override wins for window, catalog backfills vision.
    assert_eq!(resolved.window(), Some(128000));
    assert!(resolved.vision());
    let by_given_name = svc.capabilities_for("openai/gpt-4o", None);
    assert_eq!(by_given_name, resolved);
}

#[test]
fn overrides_go_by_canonical_id() {
    let configured = |canonical: Option<&str>, model: Option<&str>, window| ConfiguredModel {
        name: "provider".to_string(),
        model: model.map(|m| m.to_string()),
        canonical: canonical.map(|c| c.to_string()),
        capabilities: Some(caps(Some(window), None)),
    };
    let overrides = user_overrides(&vec![
        configured(Some("openai/gpt-4o"), Some("gpt-4o"), 1),
        configured(None, Some("local"), 2),
        configured(None, None, 3),
        configured(Some("openai/gpt-4o"), None, 4),
        ConfiguredModel {
            capabilities: None,
            ..configured(None, Some("silent"), 5)
        },
    ]);
    let window = |model: &str, canonical: Option<&str>| {
        let catalog: Vec<(String, ModelCapabilities)> = Vec::new();
        let mut copy: Vec<(String, ModelCapabilities)> = Vec::new();
        for o in &overrides {
            copy.push((o.0.clone(), o.1));
        }
        ModelCapabilitiesService::from_catalog(catalog, copy)
            .capabilities_for(model, canonical)
            .window()
    };
    assert_eq!(overrides.len(), 3);
    assert_eq!(window("gpt-4o", Some("openai/gpt-4o")), Some(4));
    assert_eq!(window("local", None), Some(2));
    assert_eq!(window("provider", None), Some(3));
    assert_eq!(window("silent", None), None);
}

#[test]
fn unknown_model_falls_back_to_conservative_default() {
    let svc = ModelCapabilitiesService::from_catalog(Vec::new(), Vec::new());
    let resolved = svc.capabilities_for("openai/unknown", None);
    assert!(!resolved.vision());
    assert_eq!(resolved.window(), None);
    assert_eq!(catalog_url(None), "https://models.dev/api.json");
    assert_eq!(catalog_url(Some("u")), "u");
}

#[test]
fn policies_do_not_push_each_other_out() {
    let mut client = PolicyProviderClient::new(None);
    for id in ["a", "b", "c"] {
        client.fetch_policy(id, answered(200, "200 OK", id), NOW).unwrap();
    }
    for id in ["a", "b", "c"] {
        assert!(client.cached_policy(id, NOW + 1).is_some());
    }
}
