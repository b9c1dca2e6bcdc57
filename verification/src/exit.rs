//! paddock's exit codes.
//!
//! The whole point of the distinct codes is that a caller can react
//! differently, so the app carries them as a type rather than checking
//! `success()`. "It failed" is the one message this module exists to avoid.
use crate::resolve::occurs_in;
use crate::text::opt_str_view;
use vstd::prelude::*;

verus! {

#[derive(Debug, Clone, Copy, PartialEq, Eq, Structural)]
pub enum Exit {
    /// `0` — the command succeeded.
    Success,
    /// `1` — anything else. The message on stderr is the only detail there is.
    Failure,
    /// `2` — usage error. A bug in this app, not something the user can fix.
    Usage,
    /// `3` — Docker missing or not running.
    NoDocker,
    /// `4` — configuration missing or wrong.
    Config,
    /// `5` — provisioning failed; the sandbox is running wider than its profile.
    Provisioning,
    /// `6` — policy not fully applied; the sandbox is CLOSED.
    Closed,
    /// `7` — the command needs a running sandbox and there is none.
    NoSandbox,
    /// Anything paddock has not documented, or the exit code of a command run
    /// inside the sandbox by `run`/`shell`/`exec`.
    Other(i32),
}

/// The documented meaning of each process exit code.
pub open spec fn spec_from_code(code: i32) -> Exit {
    if code == 0 {
        Exit::Success
    } else if code == 1 {
        Exit::Failure
    } else if code == 2 {
        Exit::Usage
    } else if code == 3 {
        Exit::NoDocker
    } else if code == 4 {
        Exit::Config
    } else if code == 5 {
        Exit::Provisioning
    } else if code == 6 {
        Exit::Closed
    } else if code == 7 {
        Exit::NoSandbox
    } else {
        Exit::Other(code)
    }
}

/// The process exit code that an `Exit` stands for.
pub open spec fn spec_code(e: Exit) -> i32 {
    match e {
        Exit::Success => 0,
        Exit::Failure => 1,
        Exit::Usage => 2,
        Exit::NoDocker => 3,
        Exit::Config => 4,
        Exit::Provisioning => 5,
        Exit::Closed => 6,
        Exit::NoSandbox => 7,
        Exit::Other(c) => c,
    }
}

/// A code that paddock documents with a meaning of its own.
pub open spec fn is_documented_code(code: int) -> bool {
    0 <= code <= 7
}

pub open spec fn spec_meaning(e: Exit) -> Seq<char> {
    match e {
        Exit::Success => "succeeded"@,
        Exit::Failure => "failed"@,
        Exit::Usage => "the app called paddock incorrectly"@,
        Exit::NoDocker => "Docker is not running"@,
        Exit::Config => "the profile or policy configuration is wrong"@,
        Exit::Provisioning => "provisioning failed"@,
        Exit::Closed => "the egress policy could not be fully applied"@,
        Exit::NoSandbox => "there is no running sandbox"@,
        Exit::Other(_) => "failed"@,
    }
}

pub open spec fn spec_remedy(e: Exit) -> Option<Seq<char>> {
    match e {
        Exit::NoDocker => Some("Start Docker Desktop, then try again."@),
        Exit::Config => Some("Run `paddock init` for this folder, or fix the profile."@),
        Exit::Provisioning => Some(
            "The sandbox is running wider than its profile until this succeeds. Retry provisioning once the network is fixed."@,
        ),
        Exit::Closed => Some(
            "Egress is not what the profile asked for. Re-apply the policy once the network is back."@,
        ),
        Exit::NoSandbox => Some("Start the sandbox first."@),
        _ => None,
    }
}

pub open spec fn spec_misstates_policy(e: Exit) -> bool {
    e is Provisioning || e is Closed
}

impl Exit {
    pub fn from_code(code: i32) -> (e: Self)
        ensures
            e == spec_from_code(code),
            is_documented_code(code as int) <==> !(e is Other),
            !is_documented_code(code as int) ==> e == Exit::Other(code),
    {
        match code {
            0 => Exit::Success,
            1 => Exit::Failure,
            2 => Exit::Usage,
            3 => Exit::NoDocker,
            4 => Exit::Config,
            5 => Exit::Provisioning,
            6 => Exit::Closed,
            7 => Exit::NoSandbox,
            other => Exit::Other(other),
        }
    }

    /// The process exit code this value stands for.
    pub fn code(self) -> (c: i32)
        ensures
            c == spec_code(self),
    {
        match self {
            Exit::Success => 0,
            Exit::Failure => 1,
            Exit::Usage => 2,
            Exit::NoDocker => 3,
            Exit::Config => 4,
            Exit::Provisioning => 5,
            Exit::Closed => 6,
            Exit::NoSandbox => 7,
            Exit::Other(c) => c,
        }
    }

    pub fn is_ok(self) -> (b: bool)
        ensures
            b <==> self == Exit::Success,
    {
        matches!(self, Exit::Success)
    }

    /// What went wrong, in the user's terms.
    pub fn meaning(self) -> (s: &'static str)
        ensures
            s@ == spec_meaning(self),
    {
        match self {
            Exit::Success => "succeeded",
            Exit::Failure => "failed",
            Exit::Usage => "the app called paddock incorrectly",
            Exit::NoDocker => "Docker is not running",
            Exit::Config => "the profile or policy configuration is wrong",
            Exit::Provisioning => "provisioning failed",
            Exit::Closed => "the egress policy could not be fully applied",
            Exit::NoSandbox => "there is no running sandbox",
            Exit::Other(_) => "failed",
        }
    }

    /// The single next action worth offering. `None` when there is nothing the
    /// app can usefully suggest and the stderr message is all there is.
    pub fn remedy(self) -> (r: Option<&'static str>)
        ensures
            opt_str_view(r) == spec_remedy(self),
    {
        match self {
            Exit::NoDocker => Some("Start Docker Desktop, then try again."),
            Exit::Config => Some("Run `paddock init` for this folder, or fix the profile."),
            Exit::Provisioning => Some(
                "The sandbox is running wider than its profile until this succeeds. Retry provisioning once the network is fixed.",
            ),
            Exit::Closed => Some(
                "Egress is not what the profile asked for. Re-apply the policy once the network is back.",
            ),
            Exit::NoSandbox => Some("Start the sandbox first."),
            _ => None,
        }
    }

    /// Whether the sandbox is currently *wider* or *narrower* than its profile
    /// promises. `5` and `6` both leave a sandbox running in a state the user
    /// did not ask for.
    pub fn misstates_policy(self) -> (b: bool)
        ensures
            b == spec_misstates_policy(self),
    {
        matches!(self, Exit::Provisioning | Exit::Closed)
    }
}

/// Reading a code and writing it back gives the same code, for every code.
pub proof fn lemma_code_round_trip(code: i32)
    ensures
        spec_code(spec_from_code(code)) == code,
{
}

/// Writing an exit out as a code and reading it back gives the same exit,
/// except for an undocumented exit that carries a documented code.
pub proof fn lemma_exit_round_trip(e: Exit)
    requires
        !(e is Other && is_documented_code(spec_code(e) as int)),
    ensures
        spec_from_code(spec_code(e)) == e,
{
}

/// Only the codes `5` and `6` misstate the policy.
pub proof fn lemma_only_policy_codes_misstate_policy(code: i32)
    ensures
        spec_misstates_policy(spec_from_code(code)) <==> (code == 5 || code == 6),
{
}

/// A code has a remedy exactly when it is one of the actionable codes `3` to `7`.
pub proof fn lemma_remedy_exactly_for_actionable_codes(code: i32)
    ensures
        spec_remedy(spec_from_code(code)) is Some <==> (3 <= code <= 7),
{
}

/// Every exit has a meaning, and only success reads as success.
pub proof fn lemma_meaning_is_nonempty_and_marks_success(e: Exit)
    ensures
        spec_meaning(e).len() > 0,
        spec_meaning(e) == "succeeded"@ <==> e == Exit::Success,
{
    reveal_strlit("succeeded");
    reveal_strlit("failed");
    reveal_strlit("the app called paddock incorrectly");
    reveal_strlit("Docker is not running");
    reveal_strlit("the profile or policy configuration is wrong");
    reveal_strlit("provisioning failed");
    reveal_strlit("the egress policy could not be fully applied");
    reveal_strlit("there is no running sandbox");
    if e != Exit::Success {
        assert(spec_meaning(e).len() != "succeeded"@.len());
    }
}

/// paddock's documented exit codes decode to the exits its documentation
/// gives them, and those exits encode back to the same codes; every other code
/// is kept as it is.
pub proof fn lemma_documented_codes_decode(code: i32)
    ensures
        spec_from_code(0) == Exit::Success,
        spec_from_code(1) == Exit::Failure,
        spec_from_code(2) == Exit::Usage,
        spec_from_code(3) == Exit::NoDocker,
        spec_from_code(4) == Exit::Config,
        spec_from_code(5) == Exit::Provisioning,
        spec_from_code(6) == Exit::Closed,
        spec_from_code(7) == Exit::NoSandbox,
        spec_code(Exit::Success) == 0,
        spec_code(Exit::Failure) == 1,
        spec_code(Exit::Usage) == 2,
        spec_code(Exit::NoDocker) == 3,
        spec_code(Exit::Config) == 4,
        spec_code(Exit::Provisioning) == 5,
        spec_code(Exit::Closed) == 6,
        spec_code(Exit::NoSandbox) == 7,
        !is_documented_code(code as int) ==> spec_from_code(code) == Exit::Other(code),
{
}

/// Only a generic failure, or a code paddock does not document, reads as
/// just "failed"; every documented exit has a meaning of its own, and code 7
/// says that there is no running sandbox.
pub proof fn lemma_meanings_tell_exits_apart(e: Exit, f: Exit)
    ensures
        spec_meaning(e) == "failed"@ <==> (e is Failure || e is Other),
        !(e is Other) && !(f is Other) && e != f ==> spec_meaning(e) != spec_meaning(f),
        spec_meaning(spec_from_code(1)) == "failed"@,
        spec_meaning(spec_from_code(7)) == "there is no running sandbox"@,
{
    reveal_strlit("succeeded");
    reveal_strlit("failed");
    reveal_strlit("the app called paddock incorrectly");
    reveal_strlit("Docker is not running");
    reveal_strlit("the profile or policy configuration is wrong");
    reveal_strlit("provisioning failed");
    reveal_strlit("the egress policy could not be fully applied");
    reveal_strlit("there is no running sandbox");
    if !(e is Failure || e is Other) {
        assert(spec_meaning(e).len() != "failed"@.len());
    }
    if !(e is Other) && !(f is Other) && e != f {
        if spec_meaning(e).len() == spec_meaning(f).len() {
            assert(spec_meaning(e)[4] != spec_meaning(f)[4]);
        }
    }
}

/// Each actionable exit has a remedy of its own; both exits that leave the
/// sandbox other than its profile says carry one, and each names its own
/// repair: provisioning is retried, a closed policy is re-applied.
pub proof fn lemma_remedies_fit_their_exits(e: Exit, f: Exit)
    ensures
        spec_remedy(e) is Some && spec_remedy(f) is Some && e != f ==> spec_remedy(e) != spec_remedy(f),
        spec_misstates_policy(e) ==> spec_remedy(e) is Some,
        occurs_in("Retry provisioning"@, spec_remedy(Exit::Provisioning)->0),
        occurs_in("Re-apply the policy"@, spec_remedy(Exit::Closed)->0),
{
    reveal_strlit("Start Docker Desktop, then try again.");
    reveal_strlit("Run `paddock init` for this folder, or fix the profile.");
    reveal_strlit(
        "The sandbox is running wider than its profile until this succeeds. Retry provisioning once the network is fixed.",
    );
    reveal_strlit(
        "Egress is not what the profile asked for. Re-apply the policy once the network is back.",
    );
    reveal_strlit("Start the sandbox first.");
    reveal_strlit("Retry provisioning");
    reveal_strlit("Re-apply the policy");
    let prov = spec_remedy(Exit::Provisioning)->0;
    let closed = spec_remedy(Exit::Closed)->0;
    let p: int = 67;
    assert(prov.subrange(p, p + "Retry provisioning"@.len()) =~= "Retry provisioning"@);
    let q: int = 42;
    assert(closed.subrange(q, q + "Re-apply the policy"@.len()) =~= "Re-apply the policy"@);
    if spec_remedy(e) is Some && spec_remedy(f) is Some && e != f {
        assert(spec_remedy(e)->0.len() != spec_remedy(f)->0.len());
    }
}

} // verus!
