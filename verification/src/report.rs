//! What the app tells the user about a run of `paddock`, and which runs it
//! agrees to start on the frontend's behalf.
use crate::paths::opt_string_view;
use crate::exit::{spec_code, spec_meaning, spec_misstates_policy, spec_remedy, Exit};
use crate::text::{last_line, spec_last_line, str_trim, trim};
use vstd::prelude::*;

verus! {

/// The result of a streamed command, as the frontend receives it.
pub struct RunResult {
    pub code: i32,
    pub ok: bool,
    pub meaning: String,
    pub remedy: Option<String>,
    pub misstates_policy: bool,
}

impl RunResult {
    pub fn from_exit(e: Exit) -> (r: RunResult)
        ensures
            r.code == spec_code(e),
            r.ok == (e == Exit::Success),
            r.meaning@ == spec_meaning(e),
            opt_string_view(r.remedy) == spec_remedy(e),
            r.misstates_policy == spec_misstates_policy(e),
    {
        let remedy = match e.remedy() {
            Some(s) => Some(String::from_str(s)),
            None => None,
        };
        RunResult {
            code: e.code(),
            ok: e.is_ok(),
            meaning: String::from_str(e.meaning()),
            remedy,
            misstates_policy: e.misstates_policy(),
        }
    }
}

/// The detail worth showing from a failed run's stderr: its last non-blank
/// line, trimmed.
pub open spec fn spec_failure_detail(stderr: Seq<char>) -> Seq<char> {
    str_trim(
        match spec_last_line(str_trim(stderr)) {
            Some(l) => l,
            None => Seq::empty(),
        },
    )
}

/// What went wrong, then what paddock said, then what to do about it.
pub open spec fn spec_describe_failure(exit: Exit, stderr: Seq<char>) -> Seq<char> {
    let detail = spec_failure_detail(stderr);
    let said = if detail.len() > 0 {
        spec_meaning(exit) + ": "@ + detail
    } else {
        spec_meaning(exit)
    };
    match spec_remedy(exit) {
        Some(remedy) => said + " — "@ + remedy,
        None => said,
    }
}

/// Turn a failed run into one sentence the user can act on: what paddock said,
/// then what to do about it.
pub fn describe_failure(exit: Exit, stderr: &str) -> (msg: String)
    ensures
        msg@ == spec_describe_failure(exit, stderr@),
{
    let last = match last_line(trim(stderr)) {
        Some(l) => l,
        None => "",
    };
    proof {
        reveal_strlit("");
    }
    assert(last@ == match spec_last_line(str_trim(stderr@)) {
        Some(l) => l,
        None => Seq::<char>::empty(),
    });
    let detail = trim(last);
    let mut msg = String::from_str(exit.meaning());
    if !detail.is_empty() {
        msg.append(": ");
        msg.append(detail);
    }
    match exit.remedy() {
        Some(remedy) => {
            msg.append(" — ");
            msg.append(remedy);
        },
        None => {},
    }
    msg
}

/// The subcommands the frontend may ask for: only the lifecycle verbs.
pub open spec fn is_lifecycle_verb(command: Seq<char>) -> bool {
    command == "up"@ || command == "stop"@ || command == "rm"@ || command == "reset"@
}

/// The arguments for a lifecycle command run on the frontend's behalf.
///
/// Only the lifecycle verbs: the frontend cannot ask for an arbitrary
/// subcommand, so a compromised WebView cannot turn this into a way to run
/// `exec -- <anything>` on the host.
pub fn lifecycle_args(command: String, path: String) -> (r: Result<Vec<String>, String>)
    ensures
        r is Ok <==> is_lifecycle_verb(command@),
        r matches Ok(args) ==> args@.len() == 2 && args@[0]@ == command@ && args@[1]@ == path@,
        r matches Err(m) ==> m@ == "refusing to run `paddock "@ + command@ + "`"@,
{
    let allowed = command == String::from_str("up") || command == String::from_str("stop")
        || command == String::from_str("rm") || command == String::from_str("reset");
    if !allowed {
        let mut m = String::from_str("refusing to run `paddock ");
        m.append(command.as_str());
        m.append("`");
        return Err(m);
    }
    let mut args: Vec<String> = Vec::new();
    args.push(command);
    args.push(path);
    Ok(args)
}

/// `s` begins with `prefix`.
pub open spec fn starts_with(s: Seq<char>, prefix: Seq<char>) -> bool {
    prefix.len() <= s.len() && s.take(prefix.len() as int) == prefix
}

/// `s` ends with `suffix`.
pub open spec fn ends_with(s: Seq<char>, suffix: Seq<char>) -> bool {
    suffix.len() <= s.len() && s.skip(s.len() - suffix.len()) == suffix
}

/// A failure message leads with what the exit means; when paddock said
/// something, that follows after `: `; and it ends with ` — ` and the exit's
/// remedy whenever the exit has one, above all for the exits that leave the
/// sandbox other than its profile says. Without a remedy it is the meaning
/// and what paddock said, nothing more.
pub proof fn lemma_failure_message_shape(exit: Exit, stderr: Seq<char>)
    ensures
        starts_with(spec_describe_failure(exit, stderr), spec_meaning(exit)),
        spec_failure_detail(stderr).len() > 0 ==> starts_with(
            spec_describe_failure(exit, stderr),
            spec_meaning(exit) + ": "@ + spec_failure_detail(stderr),
        ),
        spec_remedy(exit) is Some ==> ends_with(
            spec_describe_failure(exit, stderr),
            " — "@ + spec_remedy(exit)->0,
        ),
        spec_misstates_policy(exit) ==> spec_remedy(exit) is Some && ends_with(
            spec_describe_failure(exit, stderr),
            " — "@ + spec_remedy(exit)->0,
        ),
        spec_remedy(exit) is None ==> spec_describe_failure(exit, stderr) == if spec_failure_detail(
            stderr,
        ).len() > 0 {
            spec_meaning(exit) + ": "@ + spec_failure_detail(stderr)
        } else {
            spec_meaning(exit)
        },
{
    let m = spec_meaning(exit);
    let d = spec_failure_detail(stderr);
    let said = if d.len() > 0 {
        m + ": "@ + d
    } else {
        m
    };
    let msg = spec_describe_failure(exit, stderr);
    assert(said.take(m.len() as int) =~= m);
    if d.len() > 0 {
        assert(said =~= m + ": "@ + d);
    }
    if spec_remedy(exit) is Some {
        let tail = " — "@ + spec_remedy(exit)->0;
        assert(msg =~= said + tail);
        assert(msg.take(said.len() as int) =~= said);
        assert(msg.take(m.len() as int) =~= m);
        assert(msg.skip(msg.len() - tail.len()) =~= tail);
        if d.len() > 0 {
            let lead = m + ": "@ + d;
            assert(msg.take(lead.len() as int) =~= lead);
        }
    } else {
        assert(msg.take(m.len() as int) =~= m);
        if d.len() > 0 {
            let lead = m + ": "@ + d;
            assert(msg.take(lead.len() as int) =~= lead);
        }
    }
}

} // verus!
