use vstd::prelude::*;
use crate::DEFAULT_TIMEOUT_MINUTES;
use crate::cache::{SudoCache, authenticated, sweep};
use crate::types::{
    SudoRequest, SudoResponse, fixed_failure, is_auth_error_response, is_invalid_password_response,
    is_password_required_response,
};

verus! {

/// The outcome of validating a credential against the elevation tool.
#[derive(Debug, Clone, Copy, PartialEq, Eq, Structural)]
pub enum VerifyOutcome {
    /// The credential was accepted by the authentication backend.
    Accepted,
    /// The credential was rejected.
    Rejected,
    /// The tool could not be spawned or its result could not be read.
    Failed,
}

/// What the orchestrator asks its driver to do next. The driver performs
/// the named action against the elevation tool and feeds the result back
/// into the next decision.
#[derive(Debug)]
pub enum NextStep {
    /// Attempt execution non-interactively, relying on cached trust.
    RunCached,
    /// Validate the caller's credential.
    Verify,
    /// Execute assuming the just-verified session, without re-prompting.
    RunFresh,
    /// The request is decided: hand this response to the caller.
    Finish { response: SudoResponse },
}

/// The first decision of a request: sweep the cache, then either rely on a
/// fresh token, ask the caller for a credential, or move to verification
/// of the credential it supplied. The cached path is always attempted
/// before a credential is ever requested.
pub fn begin_request(cache: &mut SudoCache, user_id: u32, now: u64, request: &SudoRequest) -> (step:
    NextStep)
    requires
        old(cache).wf(),
    ensures
        final(cache).wf(),
        final(cache)@ == sweep(old(cache)@, DEFAULT_TIMEOUT_MINUTES, now),
        authenticated(final(cache)@, user_id, DEFAULT_TIMEOUT_MINUTES, now) ==> step is RunCached,
        !authenticated(final(cache)@, user_id, DEFAULT_TIMEOUT_MINUTES, now) && request.password
            is None ==> (step matches NextStep::Finish { response }
            && is_password_required_response(response)),
        !authenticated(final(cache)@, user_id, DEFAULT_TIMEOUT_MINUTES, now) && request.password
            is Some ==> step is Verify,
{
    cache.clear_expired(DEFAULT_TIMEOUT_MINUTES, now);
    if cache.is_authenticated(user_id, DEFAULT_TIMEOUT_MINUTES, now) {
        NextStep::RunCached
    } else if request.password.is_none() {
        NextStep::Finish { response: fixed_failure("Password required", true) }
    } else {
        NextStep::Verify
    }
}

/// The decision after a cached, non-interactive attempt. A decided
/// response (success or genuine failure) is terminal; only the
/// stale-session signal falls through to the credential path, and then
/// only a supplied credential moves to verification.
pub fn after_cached_attempt(response: SudoResponse, has_password: bool) -> (step: NextStep)
    ensures
        !response.needs_password ==> (step matches NextStep::Finish { response: r } && r
            == response),
        response.needs_password && !has_password ==> (step matches NextStep::Finish { response: r }
            && is_password_required_response(r)),
        response.needs_password && has_password ==> step is Verify,
{
    if !response.needs_password {
        NextStep::Finish { response }
    } else if !has_password {
        NextStep::Finish { response: fixed_failure("Password required", true) }
    } else {
        NextStep::Verify
    }
}

/// The decision after credential verification. Acceptance records a fresh
/// token for the user and moves to authenticated execution; rejection and
/// verifier failure are terminal and leave the cache unchanged, so no
/// entry is ever created for an unverified credential.
pub fn after_verification(cache: &mut SudoCache, user_id: u32, now: u64, outcome: VerifyOutcome) -> (step:
    NextStep)
    requires
        old(cache).wf(),
    ensures
        final(cache).wf(),
        outcome is Accepted ==> final(cache)@ == old(cache)@.insert(user_id, now) && step
            is RunFresh,
        outcome is Rejected ==> final(cache)@ == old(cache)@ && (step
            matches NextStep::Finish { response } && is_invalid_password_response(response)),
        outcome is Failed ==> final(cache)@ == old(cache)@ && (step matches NextStep::Finish {
            response,
        } && is_auth_error_response(response)),
{
    match outcome {
        VerifyOutcome::Accepted => {
            cache.authenticate(user_id, now);
            NextStep::RunFresh
        },
        VerifyOutcome::Rejected => NextStep::Finish {
            response: fixed_failure("Invalid password", true),
        },
        VerifyOutcome::Failed => NextStep::Finish {
            response: fixed_failure("Authentication error", false),
        },
    }
}

} // verus!
