//! Prompt-caching request handling for the LLM path.
//!
//! This module owns the "make the upstream provider's prompt cache work" concern:
//! which markers go into the outbound request. It never influences routing — see
//! [`super::session_stickiness`] for the pinning / switch-cost concern.

use vstd::prelude::*;

verus! {

/// How a model behind a gateway is told what to cache.
#[derive(Debug, Clone, Copy, PartialEq, Eq, Structural)]
pub enum CacheMarkerStrategy {
    AnthropicMessagesBreakpoints { min_prefix_tokens: u64 },
    OpenAiContentPartCacheControl { min_prefix_tokens: u64, ttl_seconds: Option<u64> },
    /// The provider caches by itself.
    Automatic,
    /// The provider does not cache.
    Unsupported,
}

/// The API a request is written for.
#[derive(Debug, Clone, Copy, PartialEq, Eq, Structural)]
pub enum RequestKind {
    Messages,
    ChatCompletions,
    Other,
}

/// The prompt-caching settings that govern markers.
#[derive(Debug, Clone, Copy, PartialEq, Eq, Structural)]
pub struct MarkerSettings {
    pub enabled: bool,
    pub inject_cache_control: bool,
    pub min_prefix_tokens: u64,
}

/// The markers to inject, with the shortest prefix worth them.
#[derive(Debug, Clone, Copy, PartialEq, Eq, Structural)]
pub enum MarkerPlan {
    Breakpoints { threshold: u64 },
    CacheControl { threshold: u64, ttl_seconds: Option<u64> },
    Untouched,
}

/// The larger of two thresholds.
pub open spec fn larger(a: u64, b: u64) -> u64 {
    if a >= b { a } else { b }
}

/// The markers of a request.
pub open spec fn markers_of(
    strategy: CacheMarkerStrategy,
    kind: RequestKind,
    settings: MarkerSettings,
    cache_off_for_request: bool,
) -> MarkerPlan {
    if !settings.enabled || !settings.inject_cache_control || cache_off_for_request {
        MarkerPlan::Untouched
    } else {
        match (strategy, kind) {
            (
                CacheMarkerStrategy::AnthropicMessagesBreakpoints { min_prefix_tokens },
                RequestKind::Messages,
            ) => MarkerPlan::Breakpoints {
                threshold: larger(settings.min_prefix_tokens, min_prefix_tokens),
            },
            (
                CacheMarkerStrategy::OpenAiContentPartCacheControl {
                    min_prefix_tokens,
                    ttl_seconds,
                },
                RequestKind::ChatCompletions,
            ) => MarkerPlan::CacheControl {
                threshold: larger(settings.min_prefix_tokens, min_prefix_tokens),
                ttl_seconds,
            },
            _ => MarkerPlan::Untouched,
        }
    }
}

/// Which prompt-cache markers to inject into a request.
///
/// None when caching is disabled, `inject_cache_control` is off, the request opted
/// out, or the provider caches automatically. Injection is threshold-guarded against
/// both the configured and the provider's minimum cacheable prefix.
pub fn plan_cache_markers(
    strategy: CacheMarkerStrategy,
    kind: RequestKind,
    prompt_caching: &MarkerSettings,
    cache_off_for_request: bool,
) -> (r: MarkerPlan)
    ensures
        r == markers_of(strategy, kind, *prompt_caching, cache_off_for_request),
{
    if !(prompt_caching.enabled && prompt_caching.inject_cache_control && !cache_off_for_request) {
        return MarkerPlan::Untouched;
    }
    match strategy {
        CacheMarkerStrategy::AnthropicMessagesBreakpoints { min_prefix_tokens } => {
            if kind == RequestKind::Messages {
                let threshold: u64 = if prompt_caching.min_prefix_tokens >= min_prefix_tokens {
                    prompt_caching.min_prefix_tokens
                } else {
                    min_prefix_tokens
                };
                MarkerPlan::Breakpoints { threshold }
            } else {
                MarkerPlan::Untouched
            }
        },
        CacheMarkerStrategy::OpenAiContentPartCacheControl { min_prefix_tokens, ttl_seconds } => {
            if kind == RequestKind::ChatCompletions {
                let threshold: u64 = if prompt_caching.min_prefix_tokens >= min_prefix_tokens {
                    prompt_caching.min_prefix_tokens
                } else {
                    min_prefix_tokens
                };
                MarkerPlan::CacheControl { threshold, ttl_seconds }
            } else {
                MarkerPlan::Untouched
            }
        },
        CacheMarkerStrategy::Automatic | CacheMarkerStrategy::Unsupported => {
            MarkerPlan::Untouched
        },
    }
}

/// Nothing is marked where caching is off, markers are, or the request opted
/// out; nor where the provider needs no markers.
pub proof fn markers_can_be_turned_off(
    strategy: CacheMarkerStrategy,
    kind: RequestKind,
    settings: MarkerSettings,
    cache_off: bool,
)
    requires
        !settings.enabled || !settings.inject_cache_control || cache_off || strategy
            == CacheMarkerStrategy::Automatic || strategy == CacheMarkerStrategy::Unsupported
            || kind == RequestKind::Other,
    ensures
        markers_of(strategy, kind, settings, cache_off) == MarkerPlan::Untouched,
{
}

/// Otherwise a request of the provider's own kind is marked, from the prefix
/// on that both the configuration and the provider ask for.
pub proof fn both_thresholds_are_kept(
    settings: MarkerSettings,
    min_prefix_tokens: u64,
    ttl_seconds: Option<u64>,
)
    requires
        settings.enabled,
        settings.inject_cache_control,
    ensures
        ({
            let messages = markers_of(
                CacheMarkerStrategy::AnthropicMessagesBreakpoints { min_prefix_tokens },
                RequestKind::Messages,
                settings,
                false,
            );
            let chat = markers_of(
                CacheMarkerStrategy::OpenAiContentPartCacheControl {
                    min_prefix_tokens,
                    ttl_seconds,
                },
                RequestKind::ChatCompletions,
                settings,
                false,
            );
            &&& messages is Breakpoints
            &&& chat is CacheControl
            &&& chat->ttl_seconds == ttl_seconds
            &&& messages->Breakpoints_threshold == chat->CacheControl_threshold
            &&& chat->CacheControl_threshold >= min_prefix_tokens
            &&& chat->CacheControl_threshold >= settings.min_prefix_tokens
            &&& chat->CacheControl_threshold == min_prefix_tokens || chat->CacheControl_threshold
                == settings.min_prefix_tokens
        }),
        markers_of(
            CacheMarkerStrategy::AnthropicMessagesBreakpoints { min_prefix_tokens },
            RequestKind::ChatCompletions,
            settings,
            false,
        ) == MarkerPlan::Untouched,
        markers_of(
            CacheMarkerStrategy::OpenAiContentPartCacheControl { min_prefix_tokens, ttl_seconds },
            RequestKind::Messages,
            settings,
            false,
        ) == MarkerPlan::Untouched,
{
}

} // verus!
