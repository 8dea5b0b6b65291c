# brightstaff

The decisions of an LLM gateway as a verified library, and the gateway around it.

* `src/` is the library. Every function in it is verified by Verus against the
  contract in front of it; what it takes on trust from other crates is marked
  `external_body`, `external_type_specification`, `assume_specification` or
  `uninterp`, each with a comment that says what is claimed.
  * `signals/` reads conversations: what users say (misalignment, stagnation,
    disengagement, satisfaction), how tool calls fare (failures, loops) and what
    the environment refuses, at once or message by message.
  * `router/` ranks models, weighs what leaving a warm prompt cache costs, and
    picks the route of a request.
  * `session_cache/` and `expiring_map.rs` remember sessions.
  * `handlers/` decides on requests: authorization, management, sessions, agent
    chains, policies, and the bridge to a command-line assistant.
  * `auth/`, `billing/`, `pricing/` and `registry.rs` know tokens, keys, prices,
    counters and limits.
* `app/` is the server: HTTP, the database, child processes and configuration.
  Its configuration names the family that Anthropic's models are recognised by,
  and the provider and program of the command-line assistant.
* `tests/` runs the library with the crates it calls.

Money and similarities are exact: whole numbers of small units and fractions
take the place of floating point.
