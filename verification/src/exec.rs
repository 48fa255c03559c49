use vstd::prelude::*;
use crate::types::{SudoResponse, fixed_failure, is_auth_required_response, views_of};

verus! {

/// `pat` occurs somewhere in `s` as a contiguous run of characters.
pub open spec fn has_substring(s: Seq<char>, pat: Seq<char>) -> bool {
    exists|i: int|
        0 <= i && i + pat.len() <= s.len() && (#[trigger] s.subrange(i, i + pat.len())) == pat
}

fn matches_at(s: &str, pat: &str, i: usize) -> (r: bool)
    requires
        i + pat@.len() <= s@.len(),
    ensures
        r == (s@.subrange(i as int, i + pat@.len()) == pat@),
{
    let sn = s.unicode_len();
    let pn = pat.unicode_len();
    let mut j: usize = 0;
    while j < pn
        invariant
            j <= pn,
            pn == pat@.len(),
            sn == s@.len(),
            i + pn <= sn,
            forall|k: int| 0 <= k < j ==> s@[i + k] == pat@[k],
        decreases pn - j,
    {
        if s.get_char(i + j) != pat.get_char(j) {
            proof {
                assert(s@.subrange(i as int, i + pat@.len())[j as int] != pat@[j as int]);
            }
            return false;
        }
        j += 1;
    }
    proof {
        assert(s@.subrange(i as int, i + pat@.len()) =~= pat@);
    }
    true
}

fn str_contains(s: &str, pat: &str) -> (r: bool)
    ensures
        r == has_substring(s@, pat@),
{
    let sn = s.unicode_len();
    let pn = pat.unicode_len();
    if pn > sn {
        proof {
            assert(!has_substring(s@, pat@)) by {
                if has_substring(s@, pat@) {
                    let i = choose|i: int|
                        0 <= i && i + pat@.len() <= s@.len() && (#[trigger] s@.subrange(
                            i,
                            i + pat@.len(),
                        )) == pat@;
                    assert(false);
                }
            }
        }
        return false;
    }
    if pn == 0 {
        proof {
            assert(s@.subrange(0, 0 + pat@.len() as int) =~= pat@);
            assert(has_substring(s@, pat@));
        }
        return true;
    }
    let mut i: usize = 0;
    while i <= sn - pn
        invariant
            0 < pn <= sn,
            sn == s@.len(),
            pn == pat@.len(),
            i <= sn - pn + 1,
            forall|k: int| 0 <= k < i ==> (#[trigger] s@.subrange(k, k + pat@.len())) != pat@,
        decreases sn - pn + 1 - i,
    {
        if matches_at(s, pat, i) {
            proof {
                assert(has_substring(s@, pat@));
            }
            return true;
        }
        i += 1;
    }
    proof {
        assert(!has_substring(s@, pat@)) by {
            if has_substring(s@, pat@) {
                let k = choose|k: int|
                    0 <= k && k + pat@.len() <= s@.len() && (#[trigger] s@.subrange(
                        k,
                        k + pat@.len(),
                    )) == pat@;
                assert(s@.subrange(k, k + pat@.len()) != pat@);
                assert(false);
            }
        }
    }
    false
}

/// The elevation tool's failure text when a non-interactive attempt finds
/// no live trust session. Matching it is a best-effort heuristic kept in
/// one replaceable place.
pub open spec fn is_stale_session_failure(stderr: Seq<char>) -> bool {
    has_substring(stderr, "no password entry"@)
}

/// Classifies the tool's failure text: true iff it carries the
/// "no valid session" signature.
pub fn session_stale(stderr: &str) -> (r: bool)
    ensures
        r == is_stale_session_failure(stderr@),
{
    str_contains(stderr, "no password entry")
}

/// Classifies one invocation of the elevation tool from its exit status and
/// captured streams. On success the response mirrors the captured output
/// and the `use_cached` input. A failure of a cached attempt that carries
/// the stale-session signature asks for a credential instead of surfacing
/// the text; any other failure surfaces stderr verbatim.
pub fn classify_execution(status_success: bool, stdout: String, stderr: String, use_cached: bool) -> (r:
    SudoResponse)
    ensures
        status_success ==> r.success && r.output == stdout && r.error is None && r.cached
            == use_cached && !r.needs_password,
        !status_success && use_cached && is_stale_session_failure(stderr@)
            ==> is_auth_required_response(r),
        !status_success && !(use_cached && is_stale_session_failure(stderr@)) ==> !r.success
            && r.output == stdout && r.error == Some(stderr) && r.cached == use_cached
            && !r.needs_password,
{
    if status_success {
        SudoResponse {
            success: true,
            output: stdout,
            error: None,
            cached: use_cached,
            needs_password: false,
        }
    } else if use_cached && session_stale(stderr.as_str()) {
        fixed_failure("Authentication required", true)
    } else {
        SudoResponse {
            success: false,
            output: stdout,
            error: Some(stderr),
            cached: use_cached,
            needs_password: false,
        }
    }
}

/// The argument views of one invocation of the elevation tool: the
/// non-interactive flag first when relying on cached trust, then the
/// command, then its arguments, in order. No credential is among them.
pub open spec fn invocation_views(command: Seq<char>, args: Seq<Seq<char>>, use_cached: bool) -> Seq<
    Seq<char>,
> {
    (if use_cached {
        seq!["-n"@]
    } else {
        Seq::<Seq<char>>::empty()
    }) + seq![command] + args
}

/// Builds the argument list for executing `command` with `args` through the
/// elevation tool, non-interactively when `use_cached` holds.
pub fn sudo_invocation_args(command: &String, args: &Vec<String>, use_cached: bool) -> (r: Vec<
    String,
>)
    ensures
        views_of(r@) == invocation_views(command@, views_of(args@), use_cached),
{
    let ghost off: int = if use_cached {
        2
    } else {
        1
    };
    let mut r: Vec<String> = Vec::new();
    if use_cached {
        r.push("-n".to_owned());
    }
    r.push(command.clone());
    let n = args.len();
    let mut i: usize = 0;
    while i < n
        invariant
            i <= n,
            n == args@.len(),
            r@.len() == off + i,
            off == (if use_cached { 2int } else { 1int }),
            use_cached ==> r@[0]@ == "-n"@,
            r@[off - 1]@ == command@,
            forall|k: int| 0 <= k < i ==> r@[off + k]@ == args@[k]@,
        decreases n - i,
    {
        r.push(args[i].clone());
        i += 1;
    }
    proof {
        assert(views_of(r@) =~= invocation_views(command@, views_of(args@), use_cached));
    }
    r
}

/// Builds the argument list for validating a credential: suppress
/// interactive prompting and read the credential from the child's input
/// stream. The credential itself travels on that stream, never here.
pub fn verify_args() -> (r: Vec<String>)
    ensures
        views_of(r@) == seq!["-S"@, "-v"@],
{
    let mut r: Vec<String> = Vec::new();
    r.push("-S".to_owned());
    r.push("-v".to_owned());
    proof {
        assert(views_of(r@) =~= seq!["-S"@, "-v"@]);
    }
    r
}

/// Builds the argument list that revokes the elevation tool's own trust
/// session, so both layers of trust can be cleared together.
pub fn invalidate_session_args() -> (r: Vec<String>)
    ensures
        views_of(r@) == seq!["-k"@],
{
    let mut r: Vec<String> = Vec::new();
    r.push("-k".to_owned());
    proof {
        assert(views_of(r@) =~= seq!["-k"@]);
    }
    r
}

/// Builds the argument list for the non-interactive privilege probe: a
/// no-op command that succeeds iff the tool's session already trusts this
/// identity.
pub fn probe_args() -> (r: Vec<String>)
    ensures
        views_of(r@) == seq!["-n"@, "true"@],
{
    let mut r: Vec<String> = Vec::new();
    r.push("-n".to_owned());
    r.push("true".to_owned());
    proof {
        assert(views_of(r@) =~= seq!["-n"@, "true"@]);
    }
    r
}

/// The response of a direct escalation pass-through: it mirrors the tool's
/// exit status and captured output verbatim, with stderr becoming the
/// error only when non-empty; the cached path is never claimed.
pub fn direct_response(status_success: bool, stdout: String, stderr: String) -> (r: SudoResponse)
    ensures
        r.success == status_success,
        r.output == stdout,
        stderr@.len() == 0 ==> r.error is None,
        stderr@.len() > 0 ==> r.error == Some(stderr),
        !r.cached,
        !r.needs_password,
{
    let error = if stderr.as_str().is_empty() {
        None
    } else {
        Some(stderr)
    };
    SudoResponse { success: status_success, output: stdout, error, cached: false, needs_password: false }
}

/// No credential in any argument list: a secret that differs from the
/// non-interactive flag, from the command, and from every caller-supplied
/// argument never occurs among the views of an invocation's arguments.
pub proof fn lemma_secret_not_in_invocation(
    command: Seq<char>,
    args: Seq<Seq<char>>,
    use_cached: bool,
    secret: Seq<char>,
)
    requires
        secret != command,
        !args.contains(secret),
        secret != "-n"@,
    ensures
        !invocation_views(command, args, use_cached).contains(secret),
{
    let v = invocation_views(command, args, use_cached);
    let off: int = if use_cached {
        1
    } else {
        0
    };
    if v.contains(secret) {
        let i = choose|i: int| 0 <= i < v.len() && v[i] == secret;
        if i < off {
            assert(v[i] == "-n"@);
        } else if i == off {
            assert(v[i] == command);
        } else {
            assert(v[i] == args[i - off - 1]);
            assert(args.contains(secret));
        }
        assert(false);
    }
}

} // verus!
