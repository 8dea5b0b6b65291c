//! Which preferences a request is routed by, and where it goes.

use crate::chat::{Conversion, Message};
use crate::handlers::policy_provider::PolicyFetchError;
use crate::router::preferences::ModelUsagePreference;
use crate::text::{concat2, concat3};
use vstd::prelude::*;
use vstd::string::StringExecFns;

verus! {

#[derive(Debug)]
pub struct RoutingResult {
    pub model_name: String,
    pub route_name: Option<String>,
}

#[derive(Debug)]
pub struct RoutingError {
    pub message: String,
    pub status_code: u16,
}

pub const BAD_REQUEST: u16 = 400;

pub const INTERNAL_SERVER_ERROR: u16 = 500;

impl RoutingError {
    /// An error of the gateway's own.
    pub fn internal_error(message: String) -> (r: Self)
        ensures
            r.message == message,
            r.status_code == INTERNAL_SERVER_ERROR,
    {
        RoutingError { message, status_code: INTERNAL_SERVER_ERROR }
    }

    /// An error of the client's.
    pub fn bad_request(message: String) -> (r: Self)
        ensures
            r.message == message,
            r.status_code == BAD_REQUEST,
    {
        RoutingError { message, status_code: BAD_REQUEST }
    }
}

/// Whether an outcome is that of settling the preferences: those in the body
/// of the request, else those of its policy, else those in its metadata.
pub open spec fn settles_preferences(
    inline: Option<Vec<ModelUsagePreference>>,
    policy_id: Option<&str>,
    fetched: Option<Result<Vec<ModelUsagePreference>, PolicyFetchError>>,
    metadata: Option<Vec<ModelUsagePreference>>,
    r: Result<Option<Vec<ModelUsagePreference>>, RoutingError>,
) -> bool {
    match inline {
        Some(own) => r == Ok::<_, RoutingError>(Some(own)),
        None => match (policy_id, fetched) {
            (Some(id), Some(Ok(preferences))) => r == Ok::<_, RoutingError>(Some(preferences)),
            (Some(id), Some(Err(PolicyFetchError::Invalid(m)))) => {
                &&& r is Err
                &&& r->Err_0.status_code == BAD_REQUEST
                &&& r->Err_0.message@ == "Failed to load routing policy for policy_id '"@ + id@
                    + "': "@ + m@
            },
            _ => r == Ok::<_, RoutingError>(metadata),
        },
    }
}

/// The preferences a request is routed by: those in its body, else those of
/// its policy, else those in its metadata. `fetched` is the outcome of
/// fetching the policy, where the request names one and a provider is
/// configured. A fetch that failed for now falls back to the metadata, one
/// that failed for good refuses the request.
pub fn resolve_usage_preferences(
    inline_usage_preferences: Option<Vec<ModelUsagePreference>>,
    policy_id: Option<&str>,
    fetched: Option<Result<Vec<ModelUsagePreference>, PolicyFetchError>>,
    metadata_preferences: Option<Vec<ModelUsagePreference>>,
) -> (r: Result<Option<Vec<ModelUsagePreference>>, RoutingError>)
    ensures
        settles_preferences(
            inline_usage_preferences,
            policy_id,
            fetched,
            metadata_preferences,
            r,
        ),
{
    if let Some(inline) = inline_usage_preferences {
        return Ok(Some(inline));
    }
    if let Some(id) = policy_id {
        if let Some(outcome) = fetched {
            match outcome {
                Ok(preferences) => {
                    return Ok(Some(preferences));
                },
                Err(err) => {
                    if !err.is_transient() {
                        let mut m: String = concat3(
                            "Failed to load routing policy for policy_id '",
                            id,
                            "': ",
                        );
                        m.append(err.message());
                        return Err(RoutingError::bad_request(m));
                    }
                },
            }
        }
    }
    Ok(metadata_preferences)
}

/// What the router is asked about a request: its messages, and the
/// preferences it is routed by. A request that is no chat request is refused
/// before its preferences are looked at.
pub fn prepare_routing(
    converted: Conversion,
    inline_usage_preferences: Option<Vec<ModelUsagePreference>>,
    policy_id: Option<&str>,
    fetched: Option<Result<Vec<ModelUsagePreference>, PolicyFetchError>>,
    metadata_preferences: Option<Vec<ModelUsagePreference>>,
) -> (r: Result<(Vec<Message>, Option<Vec<ModelUsagePreference>>), RoutingError>)
    ensures
        match converted {
            Conversion::Chat(messages) => settles_preferences(
                inline_usage_preferences,
                policy_id,
                fetched,
                metadata_preferences,
                match r {
                    Ok((_, preferences)) => Ok(preferences),
                    Err(e) => Err(e),
                },
            ) && (r is Ok ==> (r->Ok_0).0 == messages),
            _ => {
                &&& r is Err
                &&& r->Err_0.status_code == INTERNAL_SERVER_ERROR
                &&& converted.fault() == Some(r->Err_0.message@)
            },
        },
{
    let messages: Vec<Message> = match converted.messages() {
        Ok(m) => m,
        Err(e) => {
            return Err(RoutingError::internal_error(e));
        },
    };
    match resolve_usage_preferences(
        inline_usage_preferences,
        policy_id,
        fetched,
        metadata_preferences,
    ) {
        Ok(preferences) => Ok((messages, preferences)),
        Err(e) => Err(e),
    }
}

/// Whether `r` follows from the route that was determined.
pub open spec fn settles_route(
    routed: Result<Option<(String, String)>, String>,
    r: Result<RoutingResult, RoutingError>,
) -> bool {
    match routed {
        Ok(Some((route, model))) => {
            &&& r is Ok
            &&& r->Ok_0.model_name == model
            &&& r->Ok_0.route_name == Some(route)
        },
        Ok(None) => {
            &&& r is Ok
            &&& r->Ok_0.model_name@ == "none"@
            &&& r->Ok_0.route_name is None
        },
        Err(e) => {
            &&& r is Err
            &&& r->Err_0.status_code == INTERNAL_SERVER_ERROR
            &&& r->Err_0.message@ == "Failed to determine route: "@ + e@
        },
    }
}

/// Determines the model of a request from the route that was determined for
/// it. No route gives the sentinel "none": the model the request names is kept.
pub fn router_chat_get_upstream_model(routed: Result<Option<(String, String)>, String>) -> (r: Result<
    RoutingResult,
    RoutingError,
>)
    ensures
        settles_route(routed, r),
{
    match routed {
        Ok(Some((route_name, model_name))) => Ok(
            RoutingResult { model_name, route_name: Some(route_name) },
        ),
        Ok(None) => Ok(RoutingResult { model_name: "none".to_owned(), route_name: None }),
        Err(err) => Err(
            RoutingError::internal_error(concat2("Failed to determine route: ", err.as_str())),
        ),
    }
}

/// Preferences in the body go before those of a policy, and these before the
/// metadata. A policy that cannot be had for now is passed over; one that
/// cannot be had at all refuses the request.
pub proof fn preferences_are_settled_in_order(
    inline: Option<Vec<ModelUsagePreference>>,
    policy_id: Option<&str>,
    fetched: Option<Result<Vec<ModelUsagePreference>, PolicyFetchError>>,
    metadata: Option<Vec<ModelUsagePreference>>,
    r: Result<Option<Vec<ModelUsagePreference>>, RoutingError>,
)
    requires
        settles_preferences(inline, policy_id, fetched, metadata, r),
    ensures
        inline is Some ==> r is Ok && r->Ok_0 == inline,
        inline is None && policy_id is Some && fetched is Some && fetched->0 is Ok ==> r is Ok
            && r->Ok_0 == Some(fetched->0->Ok_0),
        inline is None && policy_id is Some && fetched is Some && fetched->0 is Err
            && fetched->0->Err_0 is Transient ==> r is Ok && r->Ok_0 == metadata,
        inline is None && policy_id is Some && fetched is Some && fetched->0 is Err
            && fetched->0->Err_0 is Invalid ==> r is Err && r->Err_0.status_code == 400,
        inline is None && (policy_id is None || fetched is None) ==> r is Ok && r->Ok_0
            == metadata,
{
}

/// A route that was determined brings its model; no route keeps the requested
/// one; a failure is the gateway's own.
pub proof fn route_brings_its_model(
    routed: Result<Option<(String, String)>, String>,
    r: Result<RoutingResult, RoutingError>,
)
    requires
        settles_route(routed, r),
    ensures
        routed is Err ==> r is Err && r->Err_0.status_code == 500,
        routed is Ok ==> r is Ok,
        routed is Ok && routed->Ok_0 is Some ==> r->Ok_0.model_name == (routed->Ok_0->0).1
            && r->Ok_0.route_name == Some((routed->Ok_0->0).0),
        routed is Ok && routed->Ok_0 is None ==> r->Ok_0.model_name@ == "none"@
            && r->Ok_0.route_name is None,
{
}

} // verus!
