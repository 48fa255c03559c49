use vstd::prelude::*;

verus! {

/// A privileged-command request: the target command name, its ordered
/// arguments, and an optional credential (present only when the caller
/// already has one, e.g. the user just typed it in response to a prompt).
#[derive(Debug)]
pub struct SudoRequest {
    pub command: String,
    pub args: Vec<String>,
    pub password: Option<String>,
}

/// The outcome of a privileged-command request: whether it succeeded, the
/// captured standard output, an optional error message, whether the cached
/// trust path was used, and whether the caller must supply (or re-supply)
/// a credential before the request can succeed.
#[derive(Debug)]
pub struct SudoResponse {
    pub success: bool,
    pub output: String,
    pub error: Option<String>,
    pub cached: bool,
    pub needs_password: bool,
}

/// The character sequences of a sequence of strings, elementwise.
pub open spec fn views_of(s: Seq<String>) -> Seq<Seq<char>> {
    s.map_values(|x: String| x@)
}

/// A terminal failure response carrying a fixed message: nothing succeeded,
/// no output was captured, the cached path was not used, and the message is
/// exactly `msg`.
pub open spec fn fixed_failure_response(r: SudoResponse, msg: Seq<char>, needs_password: bool) -> bool {
    &&& !r.success
    &&& r.output@ == Seq::<char>::empty()
    &&& r.error matches Some(e) && e@ == msg
    &&& !r.cached
    &&& r.needs_password == needs_password
}

/// The response asking the caller to supply a credential: not a failure of
/// the command, but a request for more input.
pub open spec fn is_password_required_response(r: SudoResponse) -> bool {
    fixed_failure_response(r, "Password required"@, true)
}

/// The response for a rejected credential: the caller should re-prompt.
pub open spec fn is_invalid_password_response(r: SudoResponse) -> bool {
    fixed_failure_response(r, "Invalid password"@, true)
}

/// The response for a verifier spawn or read failure: a hard error, not a
/// request for a credential.
pub open spec fn is_auth_error_response(r: SudoResponse) -> bool {
    fixed_failure_response(r, "Authentication error"@, false)
}

/// The response reporting that cached trust had lapsed in the tool's own
/// session: the stale stderr text is not surfaced as a user-facing error.
pub open spec fn is_auth_required_response(r: SudoResponse) -> bool {
    fixed_failure_response(r, "Authentication required"@, true)
}

pub(crate) fn fixed_failure(msg: &str, needs_password: bool) -> (r: SudoResponse)
    ensures
        fixed_failure_response(r, msg@, needs_password),
{
    SudoResponse {
        success: false,
        output: String::new(),
        error: Some(msg.to_owned()),
        cached: false,
        needs_password,
    }
}

/// A fixed failure message is independent of any credential: whenever the
/// secret differs from the message, the error text is not the secret.
pub proof fn lemma_secret_not_in_fixed_failure(
    r: SudoResponse,
    msg: Seq<char>,
    needs_password: bool,
    secret: Seq<char>,
)
    requires
        fixed_failure_response(r, msg, needs_password),
        secret != msg,
    ensures
        r.error matches Some(e) && e@ != secret,
{
}

} // verus!
