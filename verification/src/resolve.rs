//! Finding the `paddock` binary from inside a bundled application.
//!
//! A `.app` launched from Finder inherits `launchd`'s environment, not a
//! shell's, so `PATH` is roughly `/usr/bin:/bin:/usr/sbin:/sbin` and `paddock`
//! — installed to `~/.local/bin` or Homebrew — is simply absent. Every command
//! the app runs therefore starts by resolving an absolute path itself.
//!
//! Two rules govern this module, and both are security properties rather than
//! conveniences:
//!
//! 1. **Never fall back to a bare name or a relative path.** A relative path
//!    resolves against the process working directory; executing whatever
//!    `paddock` some other directory happens to contain gives away exactly
//!    what paddock exists to keep.
//! 2. **An override that does not resolve is an error, never a fallback.** If
//!    the user pointed the app at a specific binary and it is missing, silently
//!    running a different one is the worst outcome available.
//!
//! The login shell is the last rung because it is the expensive one. Its
//! *output* is validated as an absolute path to an executable file before it
//! is used.
use crate::paths::{is_absolute, is_absolute_path, join, opt_string_view, path_join};
use crate::proc::join_with;
use crate::text::{debug_quoted, first_line, opt_str_view, spec_first_line, str_debug, str_trim, trim};
use vstd::prelude::*;
use vstd::string::StringSliceAdditionalSpecFns;

verus! {

/// Which rung of the ladder produced a binary. Carried so the UI can tell the
/// user where the thing it is about to run came from.
#[derive(Debug, Clone, Copy, PartialEq, Eq, Structural)]
pub enum Source {
    /// An explicit path configured by the user.
    Override,
    /// `~/.local/bin` — where paddock's own README installs it.
    HomeLocalBin,
    /// `/opt/homebrew/bin` — Homebrew on Apple Silicon.
    Homebrew,
    /// `/usr/local/bin` — Homebrew on Intel, and the common manual install.
    UsrLocalBin,
    /// Reconstructed by running the user's login shell.
    LoginShell,
}

pub open spec fn spec_source_str(s: Source) -> Seq<char> {
    match s {
        Source::Override => "configured override"@,
        Source::HomeLocalBin => "~/.local/bin"@,
        Source::Homebrew => "/opt/homebrew/bin"@,
        Source::UsrLocalBin => "/usr/local/bin"@,
        Source::LoginShell => "login shell"@,
    }
}

impl Source {
    pub fn as_str(self) -> (s: &'static str)
        ensures
            s@ == spec_source_str(self),
    {
        match self {
            Source::Override => "configured override",
            Source::HomeLocalBin => "~/.local/bin",
            Source::Homebrew => "/opt/homebrew/bin",
            Source::UsrLocalBin => "/usr/local/bin",
            Source::LoginShell => "login shell",
        }
    }
}

#[derive(Debug, Clone, PartialEq, Eq)]
pub struct Resolved {
    pub path: String,
    pub source: Source,
}

#[derive(Debug, Clone, PartialEq, Eq)]
pub enum ResolveError {
    /// The user configured an override that is not an executable file. Never
    /// downgraded to a search — see rule 2 in the module docs.
    OverrideUnusable { path: String },
    /// The override was not absolute. Relative paths resolve against the
    /// process working directory, which is not something the user can see.
    OverrideNotAbsolute { path: String },
    /// Nothing on any rung. `looked` is every path actually probed, so the
    /// error message can tell the user where to install it or what to set.
    NotFound { binary: String, looked: Vec<String> },
    /// The login shell answered, but with something unusable. Kept distinct
    /// from `NotFound` because it means the user's shell config is the thing
    /// to look at.
    LoginShellUnusable { binary: String, got: String },
}

/// The effects `resolve` needs from the outside world, injected so the ladder
/// itself can run without a filesystem or a shell. Nothing is assumed of what
/// either method answers.
pub trait Probe {
    /// True when `path` is an existing regular file with an execute bit.
    fn is_executable_file(&self, path: &str) -> bool;

    /// Ask the user's login shell where `binary` is, as they would see it.
    /// Returns the raw, untrusted answer; `resolve` validates it.
    fn login_shell_lookup(&self, binary: &str) -> Option<String>;
}

/// The fixed directories searched, in order, after any override:
/// `~/.local/bin` when there is a home, then Homebrew's two prefixes.
pub open spec fn fixed_rungs(home: Option<Seq<char>>) -> Seq<(Source, Seq<char>)> {
    let system = seq![
        (Source::Homebrew, "/opt/homebrew/bin"@),
        (Source::UsrLocalBin, "/usr/local/bin"@),
    ];
    match home {
        Some(h) => seq![(Source::HomeLocalBin, path_join(path_join(h, ".local"@), "bin"@))]
            + system,
        None => system,
    }
}

/// The candidate binaries, one per fixed directory, in search order.
pub open spec fn rung_candidates(binary: Seq<char>, home: Option<Seq<char>>) -> Seq<
    (Source, Seq<char>),
> {
    fixed_rungs(home).map_values(|r: (Source, Seq<char>)| (r.0, path_join(r.1, binary)))
}

/// The candidate paths, in search order.
pub open spec fn candidate_paths(binary: Seq<char>, home: Option<Seq<char>>) -> Seq<Seq<char>> {
    rung_candidates(binary, home).map_values(|r: (Source, Seq<char>)| r.1)
}

/// The path a login shell's answer names, if it is one this app may run: the
/// first line, trimmed, and only when it is absolute. Anything else — a
/// bare name, an alias definition, a banner before the path — names nothing.
pub open spec fn spec_shell_answer_path(answer: Seq<char>) -> Option<Seq<char>> {
    let first = match spec_first_line(answer) {
        Some(l) => l,
        None => Seq::empty(),
    };
    let t = str_trim(first);
    if t.len() > 0 && is_absolute_path(t) {
        Some(t)
    } else {
        None
    }
}

pub open spec fn strings_view(v: Seq<String>) -> Seq<Seq<char>> {
    v.map_values(|s: String| s@)
}

fn search_dirs(home: Option<&str>) -> (dirs: Vec<(Source, String)>)
    ensures
        dirs@.map_values(|r: (Source, String)| (r.0, r.1@)) == fixed_rungs(opt_str_view(home)),
        forall|i: int|
            0 <= i < dirs@.len() ==> (home is None || is_absolute_path(home->0@))
                ==> is_absolute_path(#[trigger] dirs@[i].1@),
{
    let mut dirs: Vec<(Source, String)> = Vec::new();
    match home {
        Some(h) => {
            let local = join(h, ".local");
            dirs.push((Source::HomeLocalBin, join(local.as_str(), "bin")));
        },
        None => {},
    }
    dirs.push((Source::Homebrew, String::from_str("/opt/homebrew/bin")));
    dirs.push((Source::UsrLocalBin, String::from_str("/usr/local/bin")));
    proof {
        reveal_strlit("/opt/homebrew/bin");
        reveal_strlit("/usr/local/bin");
    }
    assert(dirs@.map_values(|r: (Source, String)| (r.0, r.1@)) =~= fixed_rungs(
        opt_str_view(home),
    ));
    dirs
}

/// The path that the login shell's answer names, if it is one this app may
/// run: the first line, trimmed, and only when it is an absolute path.
pub fn shell_answer_path(answer: &str) -> (p: Option<String>)
    ensures
        match p {
            Some(s) => spec_shell_answer_path(answer@) == Some(s@),
            None => spec_shell_answer_path(answer@) is None,
        },
{
    let first = match first_line(answer) {
        Some(l) => l,
        None => "",
    };
    proof {
        reveal_strlit("");
    }
    assert(first@ == match spec_first_line(answer@) {
        Some(l) => l,
        None => Seq::<char>::empty(),
    });
    let t = trim(first);
    if !t.is_empty() && is_absolute(t) {
        Some(String::from_str(t))
    } else {
        None
    }
}

/// What a configured override resolves to, given whether the probe found it
/// to be an executable file. A relative override is refused whatever the
/// probe would say.
pub fn override_outcome(path: &str, executable: bool) -> (r: Result<Resolved, ResolveError>)
    ensures
        !is_absolute_path(path@) ==> (r matches Err(ResolveError::OverrideNotAbsolute { path: p })
            && p@ == path@),
        is_absolute_path(path@) && executable ==> (r matches Ok(res) && res.path@ == path@
            && res.source == Source::Override),
        is_absolute_path(path@) && !executable ==> (r matches Err(
            ResolveError::OverrideUnusable { path: p },
        ) && p@ == path@),
{
    if !is_absolute(path) {
        return Err(ResolveError::OverrideNotAbsolute { path: String::from_str(path) });
    }
    if executable {
        return Ok(Resolved { path: String::from_str(path), source: Source::Override });
    }
    Err(ResolveError::OverrideUnusable { path: String::from_str(path) })
}

/// A record of the probe's answers on the fixed rungs, in search order: it
/// asks about one candidate after another and stops at the first yes, or
/// when every candidate was refused.
pub open spec fn ladder_record(answers: Seq<bool>, n: int) -> bool {
    &&& answers.len() <= n
    &&& forall|j: int| 0 <= j < answers.len() - 1 ==> !#[trigger] answers[j]
    &&& answers.len() < n ==> answers.len() > 0 && answers.last()
}

/// `answers[k]` is the first yes among the answers.
pub open spec fn accepted_at(answers: Seq<bool>, k: int) -> bool {
    &&& 0 <= k < answers.len()
    &&& answers[k]
    &&& forall|j: int| 0 <= j < k ==> !#[trigger] answers[j]
}

/// How many candidates a list of answers speaks for.
pub open spec fn asked(answers: Seq<bool>, n: int) -> int {
    if answers.len() < n {
        answers.len() as int
    } else {
        n
    }
}

/// What the last rung gives, once every fixed directory failed: `NotFound`
/// listing `looked` without an answer from the shell; with one, the path it
/// names when that path is an executable file, and otherwise the answer
/// itself, refused.
pub open spec fn shell_result(
    binary: Seq<char>,
    looked: Seq<Seq<char>>,
    answer: Option<Seq<char>>,
    executable: bool,
    r: Result<Resolved, ResolveError>,
) -> bool {
    match answer {
        None => r matches Err(ResolveError::NotFound { binary: b, looked: l }) && b@ == binary
            && strings_view(l@) == looked,
        Some(a) => if spec_shell_answer_path(a) is Some && executable {
            r matches Ok(res) && res.path@ == spec_shell_answer_path(a)->0 && res.source
                == Source::LoginShell
        } else {
            r matches Err(ResolveError::LoginShellUnusable { binary: b, got }) && b@ == binary
                && got@ == a
        },
    }
}

/// The candidates of the fixed rungs, in search order.
fn candidate_list(binary: &str, home: Option<&str>) -> (c: Vec<(Source, String)>)
    ensures
        c@.map_values(|r: (Source, String)| (r.0, r.1@)) == rung_candidates(
            binary@,
            opt_str_view(home),
        ),
        forall|i: int|
            0 <= i < c@.len() ==> (home is None || is_absolute_path(home->0@))
                ==> is_absolute_path(#[trigger] c@[i].1@),
{
    let ghost hv = opt_str_view(home);
    let dirs = search_dirs(home);
    let mut c: Vec<(Source, String)> = Vec::new();
    let mut i: usize = 0;
    while i < dirs.len()
        invariant
            i <= dirs.len(),
            hv == opt_str_view(home),
            dirs@.map_values(|r: (Source, String)| (r.0, r.1@)) == fixed_rungs(hv),
            forall|j: int|
                0 <= j < dirs@.len() ==> (home is None || is_absolute_path(home->0@))
                    ==> is_absolute_path(#[trigger] dirs@[j].1@),
            c@.map_values(|r: (Source, String)| (r.0, r.1@)) == rung_candidates(binary@, hv).take(
                i as int,
            ),
            forall|j: int|
                0 <= j < c@.len() ==> (home is None || is_absolute_path(home->0@))
                    ==> is_absolute_path(#[trigger] c@[j].1@),
        decreases dirs.len() - i,
    {
        assert(dirs@.map_values(|r: (Source, String)| (r.0, r.1@))[i as int] == (
            dirs@[i as int].0,
            dirs@[i as int].1@,
        ));
        let candidate = join(dirs[i].1.as_str(), binary);
        let ghost before = c@;
        c.push((dirs[i].0, candidate));
        assert(c@.map_values(|r: (Source, String)| (r.0, r.1@)) =~= before.map_values(
            |r: (Source, String)| (r.0, r.1@),
        ).push(rung_candidates(binary@, hv)[i as int]));
        assert(rung_candidates(binary@, hv).take(i + 1) =~= rung_candidates(binary@, hv).take(
            i as int,
        ).push(rung_candidates(binary@, hv)[i as int]));
        i = i + 1;
    }
    assert(rung_candidates(binary@, hv).take(i as int) =~= rung_candidates(binary@, hv));
    c
}

/// What the fixed rungs give, given the probe's answers about their
/// candidates in search order: the first candidate it accepted, or, when it
/// accepted none, every candidate it was asked about, in order.
pub fn ladder_outcome(binary: &str, home: Option<&str>, answers: &Vec<bool>) -> (r: Result<
    Resolved,
    Vec<String>,
>)
    ensures
        r matches Ok(res) ==> exists|k: int|
            0 <= k < rung_candidates(binary@, opt_str_view(home)).len() && #[trigger] accepted_at(
                answers@,
                k,
            ) && rung_candidates(binary@, opt_str_view(home))[k] == (res.source, res.path@),
        r matches Err(looked) ==> (forall|j: int|
            0 <= j < asked(answers@, rung_candidates(binary@, opt_str_view(home)).len() as int)
                ==> !#[trigger] answers@[j]) && strings_view(looked@) == candidate_paths(
            binary@,
            opt_str_view(home),
        ).take(asked(answers@, rung_candidates(binary@, opt_str_view(home)).len() as int)),
        home is None || is_absolute_path(home->0@) ==> (r matches Ok(res) ==> is_absolute_path(
            res.path@,
        )),
{
    let ghost hv = opt_str_view(home);
    let ghost cands = rung_candidates(binary@, hv);
    let c = candidate_list(binary, home);
    assert(c@.len() == cands.len());
    let mut looked: Vec<String> = Vec::new();
    let mut i: usize = 0;
    while i < c.len() && i < answers.len()
        invariant
            i <= c.len(),
            i <= answers.len(),
            c@.len() == cands.len(),
            hv == opt_str_view(home),
            cands == rung_candidates(binary@, hv),
            c@.map_values(|r: (Source, String)| (r.0, r.1@)) == cands,
            forall|j: int|
                0 <= j < c@.len() ==> (home is None || is_absolute_path(home->0@))
                    ==> is_absolute_path(#[trigger] c@[j].1@),
            forall|j: int| 0 <= j < i ==> !#[trigger] answers@[j],
            strings_view(looked@) == candidate_paths(binary@, hv).take(i as int),
        decreases c.len() - i,
    {
        assert(c@.map_values(|r: (Source, String)| (r.0, r.1@))[i as int] == (
            c@[i as int].0,
            c@[i as int].1@,
        ));
        assert(candidate_paths(binary@, hv)[i as int] == c@[i as int].1@);
        if answers[i] {
            assert(accepted_at(answers@, i as int));
            return Ok(Resolved { path: c[i].1.clone(), source: c[i].0 });
        }
        let ghost before = looked@;
        looked.push(c[i].1.clone());
        assert(strings_view(looked@) =~= strings_view(before).push(
            candidate_paths(binary@, hv)[i as int],
        ));
        assert(candidate_paths(binary@, hv).take(i + 1) =~= candidate_paths(binary@, hv).take(
            i as int,
        ).push(candidate_paths(binary@, hv)[i as int]));
        i = i + 1;
    }
    assert(i as int == asked(answers@, cands.len() as int));
    Err(looked)
}

/// What the last rung resolves to, once every fixed directory failed:
/// given the login shell's answer, if any, and whether the path that answer
/// names is an executable file.
pub fn shell_outcome(
    binary: &str,
    looked: Vec<String>,
    answer: Option<String>,
    executable: bool,
) -> (r: Result<Resolved, ResolveError>)
    ensures
        shell_result(binary@, strings_view(looked@), opt_string_view(answer), executable, r),
{
    match answer {
        None => Err(ResolveError::NotFound { binary: String::from_str(binary), looked }),
        Some(a) => match shell_answer_path(a.as_str()) {
            Some(p) => {
                if executable {
                    Ok(Resolved { path: p, source: Source::LoginShell })
                } else {
                    Err(ResolveError::LoginShellUnusable { binary: String::from_str(binary), got: a })
                }
            },
            None => Err(ResolveError::LoginShellUnusable { binary: String::from_str(binary), got: a }),
        },
    }
}

/// `probe` was asked whether `path` is an executable file, and answered
/// `answer`.
pub open spec fn probed<P: Probe>(probe: &P, path: Seq<char>, answer: bool) -> bool {
    exists|q: &str| q@ == path && #[trigger] call_ensures(P::is_executable_file, (probe, q), answer)
}

/// What the last rung asked the probe: the login shell, about `binary`,
/// which gave `answer`; then, when that answer names a path, whether it is
/// an executable file, which gave `executable`. Without such a path nothing
/// more is asked, and `executable` is false.
pub open spec fn shell_asked<P: Probe>(
    probe: &P,
    binary: &str,
    answer: Option<String>,
    executable: bool,
) -> bool {
    &&& call_ensures(P::login_shell_lookup, (probe, binary), answer)
    &&& match opt_string_view(answer) {
        Some(a) => match spec_shell_answer_path(a) {
            Some(path) => probed(probe, path, executable),
            None => !executable,
        },
        None => !executable,
    }
}

/// What `resolve` promises, over the answers its probe gave.
///
/// An override is never downgraded to a search: a relative one is refused
/// outright; an absolute one is put to the probe, and resolves to itself
/// exactly when the probe accepts it, failing naming it otherwise. Without
/// an override, the probe is asked about the fixed candidates in search
/// order until its first yes, and that candidate is the result; when it
/// refuses every one, the login shell is asked, and its answer settles it
/// (`shell_result`).
pub open spec fn resolve_ensures<P: Probe>(
    probe: &P,
    binary: &str,
    override_path: Option<Seq<char>>,
    home: Option<Seq<char>>,
    r: Result<Resolved, ResolveError>,
) -> bool {
    match override_path {
        Some(p) => if !is_absolute_path(p) {
            r matches Err(ResolveError::OverrideNotAbsolute { path }) && path@ == p
        } else {
            &&& probed(probe, p, r is Ok)
            &&& r is Ok ==> (r matches Ok(res) && res.path@ == p && res.source == Source::Override)
            &&& r is Err ==> (r matches Err(ResolveError::OverrideUnusable { path }) && path@ == p)
        },
        None => exists|answers: Seq<bool>|
            #[trigger] ladder_record(answers, rung_candidates(binary@, home).len() as int)
                && (forall|j: int|
                0 <= j < answers.len() ==> probed(
                    probe,
                    #[trigger] candidate_paths(binary@, home)[j],
                    answers[j],
                )) && if answers.len() > 0 && answers.last() {
                r matches Ok(res) && rung_candidates(binary@, home)[answers.len() - 1] == (
                    res.source,
                    res.path@,
                )
            } else {
                answers.len() == rung_candidates(binary@, home).len() && exists|
                    answer: Option<String>,
                    executable: bool,
                |
                    #[trigger] shell_asked(probe, binary, answer, executable) && shell_result(
                        binary@,
                        candidate_paths(binary@, home),
                        opt_string_view(answer),
                        executable,
                        r,
                    )
            },
    }
}

/// Resolve `binary` to an absolute path, or explain what was tried.
///
/// `override_path` is the user's configured location and short-circuits the
/// search entirely — successfully or not.
pub fn resolve<P: Probe>(
    binary: &str,
    override_path: Option<&str>,
    home: Option<&str>,
    probe: &P,
) -> (r: Result<Resolved, ResolveError>)
    ensures
        resolve_ensures(probe, binary, opt_str_view(override_path), opt_str_view(home), r),
        home is None || is_absolute_path(home->0@) ==> (r matches Ok(res) ==> is_absolute_path(
            res.path@,
        )),
{
    match override_path {
        Some(path) => {
            if !is_absolute(path) {
                return override_outcome(path, false);
            }
            let executable = probe.is_executable_file(path);
            assert(call_ensures(P::is_executable_file, (probe, path), executable));
            let r = override_outcome(path, executable);
            assert(probed(probe, path@, r is Ok));
            return r;
        },
        None => {},
    }

    // Ask about each fixed candidate in order, stopping at the first yes.
    let ghost hv = opt_str_view(home);
    let ghost cands = rung_candidates(binary@, hv);
    let c = candidate_list(binary, home);
    assert(c@.len() == cands.len());
    let mut answers: Vec<bool> = Vec::new();
    let mut accepted = false;
    let mut i: usize = 0;
    while i < c.len() && !accepted
        invariant
            i <= c.len(),
            c@.len() == cands.len(),
            hv == opt_str_view(home),
            cands == rung_candidates(binary@, hv),
            c@.map_values(|r: (Source, String)| (r.0, r.1@)) == cands,
            answers@.len() == i,
            accepted == (i > 0 && answers@[i - 1]),
            forall|j: int| 0 <= j < i - 1 ==> !#[trigger] answers@[j],
            forall|j: int|
                0 <= j < i ==> probed(
                    probe,
                    #[trigger] candidate_paths(binary@, hv)[j],
                    answers@[j],
                ),
        decreases c.len() - i,
    {
        let q = c[i].1.as_str();
        accepted = probe.is_executable_file(q);
        assert(c@.map_values(|r: (Source, String)| (r.0, r.1@))[i as int] == (
            c@[i as int].0,
            c@[i as int].1@,
        ));
        assert(candidate_paths(binary@, hv)[i as int] == q@);
        assert(call_ensures(P::is_executable_file, (probe, q), accepted));
        assert(probed(probe, candidate_paths(binary@, hv)[i as int], accepted));
        answers.push(accepted);
        i = i + 1;
    }
    assert(ladder_record(answers@, cands.len() as int));

    match ladder_outcome(binary, home, &answers) {
        Ok(found) => {
            proof {
                let k = choose|k: int|
                    0 <= k < cands.len() && #[trigger] accepted_at(answers@, k) && cands[k] == (
                        found.source,
                        found.path@,
                    );
                assert(k == answers@.len() - 1);
            }
            Ok(found)
        },
        Err(looked) => {
            assert(!accepted);
            assert(answers@.len() == cands.len());
            assert(candidate_paths(binary@, hv).take(cands.len() as int) =~= candidate_paths(
                binary@,
                hv,
            ));
            let answer = probe.login_shell_lookup(binary);
            assert(call_ensures(P::login_shell_lookup, (probe, binary), answer));
            let executable = match &answer {
                Some(a) => match shell_answer_path(a.as_str()) {
                    Some(p) => {
                        let q = p.as_str();
                        let e = probe.is_executable_file(q);
                        assert(call_ensures(P::is_executable_file, (probe, q), e));
                        assert(probed(probe, p@, e));
                        e
                    },
                    None => false,
                },
                None => false,
            };
            assert(shell_asked(probe, binary, answer, executable));
            let r = shell_outcome(binary, looked, answer, executable);
            assert(shell_result(
                binary@,
                candidate_paths(binary@, hv),
                opt_string_view(answer),
                executable,
                r,
            ));
            r
        },
    }
}

pub open spec fn spec_resolve_message(e: ResolveError) -> Seq<char> {
    match e {
        ResolveError::OverrideUnusable { path } => "the configured paddock path is not an executable file: "@
            + path@,
        ResolveError::OverrideNotAbsolute { path } => "the configured paddock path must be absolute, got: "@
            + path@,
        ResolveError::NotFound { binary, looked } => "could not find `"@ + binary@
            + "`. Looked in: "@ + join_with(strings_view(looked@), ", "@)
            + ", and the login shell"@,
        ResolveError::LoginShellUnusable { binary, got } => "the login shell located `"@ + binary@
            + "` at "@ + str_debug(got@)
            + ", which is not an absolute path to an executable file"@,
    }
}

/// `x` occurs in `s` as a contiguous run.
pub open spec fn occurs_in(x: Seq<char>, s: Seq<char>) -> bool {
    exists|p: int| 0 <= p && p + x.len() <= s.len() && #[trigger] s.subrange(p, p + x.len()) == x
}

impl ResolveError {
    /// The error in words the user can act on.
    pub fn message(&self) -> (m: String)
        ensures
            m@ == spec_resolve_message(*self),
    {
        match self {
            ResolveError::OverrideUnusable { path } => {
                let mut m = String::from_str(
                    "the configured paddock path is not an executable file: ",
                );
                m.append(path.as_str());
                m
            },
            ResolveError::OverrideNotAbsolute { path } => {
                let mut m = String::from_str("the configured paddock path must be absolute, got: ");
                m.append(path.as_str());
                m
            },
            ResolveError::NotFound { binary, looked } => {
                let mut m = String::from_str("could not find `");
                m.append(binary.as_str());
                m.append("`. Looked in: ");
                let ghost start = m@;
                let ghost views = strings_view(looked@);
                let mut i: usize = 0;
                while i < looked.len()
                    invariant
                        i <= looked.len(),
                        views == strings_view(looked@),
                        m@ == start + join_with(views.take(i as int), ", "@),
                    decreases looked.len() - i,
                {
                    assert(views.take(i + 1).drop_last() =~= views.take(i as int));
                    if i > 0 {
                        m.append(", ");
                    }
                    m.append(looked[i].as_str());
                    i = i + 1;
                }
                assert(views.take(looked.len() as int) =~= views);
                m.append(", and the login shell");
                m
            },
            ResolveError::LoginShellUnusable { binary, got } => {
                let mut m = String::from_str("the login shell located `");
                m.append(binary.as_str());
                m.append("` at ");
                let quoted = debug_quoted(got.as_str());
                m.append(quoted.as_str());
                m.append(", which is not an absolute path to an executable file");
                m
            },
        }
    }
}

proof fn lemma_join_contains(s: Seq<Seq<char>>, sep: Seq<char>)
    ensures
        forall|i: int| 0 <= i < s.len() ==> occurs_in(#[trigger] s[i], join_with(s, sep)),
    decreases s.len(),
{
    if s.len() == 1 {
        let j = join_with(s, sep);
        let p: int = 0;
        assert(j.subrange(p, p + s[0].len()) =~= s[0]);
        assert(occurs_in(s[0], j));
    } else if s.len() > 1 {
        let prefix = s.drop_last();
        lemma_join_contains(prefix, sep);
        let pj = join_with(prefix, sep);
        let j = join_with(s, sep);
        assert forall|i: int| 0 <= i < s.len() implies occurs_in(#[trigger] s[i], j) by {
            if i == s.len() - 1 {
                let p: int = (pj.len() + sep.len()) as int;
                assert(j.subrange(p, p + s[i].len() as int) =~= s[i]);
            } else {
                assert(prefix[i] == s[i]);
                assert(occurs_in(prefix[i], pj));
                let p = choose|p: int|
                    0 <= p && p + prefix[i].len() <= pj.len() && #[trigger] pj.subrange(
                        p,
                        p + prefix[i].len(),
                    ) == prefix[i];
                assert(j.subrange(p, p + s[i].len() as int) =~= pj.subrange(p, p + s[i].len() as int));
            }
        }
    }
}

/// When nothing is found, the message names every path that was probed, and
/// says that the login shell was asked too.
pub proof fn lemma_not_found_message_names_where_it_looked(binary: String, looked: Vec<String>)
    ensures
        forall|i: int|
            0 <= i < looked@.len() ==> occurs_in(
                #[trigger] looked@[i]@,
                spec_resolve_message(ResolveError::NotFound { binary, looked }),
            ),
        occurs_in("login shell"@, spec_resolve_message(ResolveError::NotFound { binary, looked })),
{
    let views = strings_view(looked@);
    let a = "could not find `"@ + binary@ + "`. Looked in: "@;
    let j = join_with(views, ", "@);
    let tail = ", and the login shell"@;
    let m = spec_resolve_message(ResolveError::NotFound { binary, looked });
    assert(m == a + j + tail);
    lemma_join_contains(views, ", "@);
    assert forall|i: int| 0 <= i < looked@.len() implies occurs_in(#[trigger] looked@[i]@, m) by {
        assert(views[i] == looked@[i]@);
        assert(occurs_in(views[i], j));
        let p = choose|p: int|
            0 <= p && p + views[i].len() <= j.len() && #[trigger] j.subrange(p, p + views[i].len())
                == views[i];
        let q: int = a.len() + p;
        assert(m.subrange(q, q + views[i].len()) =~= j.subrange(p, p + views[i].len()));
    }
    reveal_strlit(", and the login shell");
    reveal_strlit("login shell");
    let q: int = m.len() - 11;
    assert(m.subrange(q, q + 11) =~= "login shell"@);
}

/// A character that may appear in a binary name handed to a shell.
pub open spec fn is_word_char(c: char) -> bool {
    ('a' <= c && c <= 'z') || ('A' <= c && c <= 'Z') || ('0' <= c && c <= '9') || c == '-' || c
        == '_'
}

/// A non-empty name made only of ASCII letters, digits, `-` and `_`.
pub open spec fn is_bare_word(s: Seq<char>) -> bool {
    s.len() > 0 && forall|i: int| 0 <= i < s.len() ==> is_word_char(#[trigger] s[i])
}

/// `a`–`z`, `A`–`Z`, `0`–`9`, `-` or `_`, as a byte.
fn is_word_byte(b: u8) -> (r: bool)
    ensures
        r == ((97 <= b && b <= 122) || (65 <= b && b <= 90) || (48 <= b && b <= 57) || b == 45
            || b == 95),
{
    (97 <= b && b <= 122) || (65 <= b && b <= 90) || (48 <= b && b <= 57) || b == 45 || b == 95
}

/// The command line the login shell is asked to run to find `binary`.
///
/// `binary` reaches a shell command line, so a name that is not a bare word
/// is refused outright rather than quoted: there is no legitimate binary name
/// this rejects.
pub fn login_shell_command(binary: &str) -> (c: Option<String>)
    ensures
        c is Some <==> is_bare_word(binary@),
        c matches Some(cmd) ==> cmd@ == "command -v "@ + binary@,
{
    if binary.is_empty() || !binary.is_ascii() {
        proof {
            if is_bare_word(binary@) {
                assert forall|i: int| 0 <= i < binary@.len() implies (binary@[i] as u32) < 128 by {
                    assert(is_word_char(binary@[i]));
                }
                assert(vstd::string::is_ascii(binary));
            }
        }
        return None;
    }
    let bytes = binary.as_bytes();
    proof {
        vstd::string::is_ascii_spec_bytes(binary);
    }
    assert(bytes@.len() == binary@.len());
    let mut i: usize = 0;
    while i < bytes.len()
        invariant
            i <= bytes.len(),
            bytes@ == binary.spec_bytes(),
            binary.spec_bytes() =~= Seq::new(binary@.len(), |k| binary@.index(k) as u8),
            vstd::string::is_ascii(binary),
            forall|k: int| 0 <= k < i ==> is_word_char(#[trigger] binary@[k]),
        decreases bytes.len() - i,
    {
        let b = bytes[i];
        assert(b == binary@[i as int] as u8);
        assert((binary@[i as int] as u32) < 128);
        if !is_word_byte(b) {
            assert(!is_word_char(binary@[i as int]));
            return None;
        }
        assert(is_word_char(binary@[i as int]));
        i = i + 1;
    }
    let mut cmd = String::from_str("command -v ");
    cmd.append(binary);
    Some(cmd)
}

/// What the login shell printed, kept only when it is more than whitespace.
pub fn nonblank_answer(answer: String) -> (r: Option<String>)
    ensures
        r is None <==> str_trim(answer@).len() == 0,
        r matches Some(a) ==> a@ == answer@,
{
    if trim(answer.as_str()).is_empty() {
        None
    } else {
        Some(answer)
    }
}

/// What the login-shell lookup reports, given how running the shell went:
/// `None` when there was no shell to run or it could not start, otherwise
/// whether it succeeded and what it printed on stdout. Only a successful run
/// that printed more than whitespace gives an answer, and the answer is what
/// it printed, untrimmed.
pub fn shell_lookup_outcome(ran: Option<(bool, String)>) -> (r: Option<String>)
    ensures
        match ran {
            None => r is None,
            Some((success, out)) => if !success {
                r is None
            } else {
                &&& r is None <==> str_trim(out@).len() == 0
                &&& r matches Some(a) ==> a@ == out@
            },
        },
{
    match ran {
        None => None,
        Some((success, out)) => {
            if !success {
                None
            } else {
                nonblank_answer(out)
            }
        },
    }
}

/// The first line of `answer`, or nothing when it has none.
pub open spec fn first_line_or_empty(answer: Seq<char>) -> Seq<char> {
    match spec_first_line(answer) {
        Some(l) => l,
        None => Seq::empty(),
    }
}

/// A login shell's answer names a path only as its whole first line, trimmed,
/// and only when that starts with `/`: nothing before it on the line (an
/// alias definition, a banner) is cut away to find one, and a path that
/// starts there is always taken whole.
pub proof fn lemma_shell_answer_is_its_trimmed_first_line(answer: Seq<char>)
    ensures
        spec_shell_answer_path(answer) matches Some(p) ==> p == str_trim(
            first_line_or_empty(answer),
        ) && p.len() > 0 && p[0] == '/',
        str_trim(first_line_or_empty(answer)).len() == 0 || str_trim(first_line_or_empty(answer))[0]
            != '/' ==> spec_shell_answer_path(answer) is None,
        str_trim(first_line_or_empty(answer)).len() > 0 && str_trim(first_line_or_empty(answer))[0]
            == '/' ==> spec_shell_answer_path(answer) == Some(str_trim(first_line_or_empty(answer))),
{
}

/// A binary found through the login shell is exactly the trimmed first line
/// of what the shell answered.
pub proof fn lemma_login_shell_result_is_the_answers_first_line<P: Probe>(
    probe: &P,
    binary: &str,
    home: Option<Seq<char>>,
    r: Result<Resolved, ResolveError>,
)
    requires
        resolve_ensures(probe, binary, None, home, r),
        r matches Ok(res) && res.source == Source::LoginShell,
    ensures
        exists|answer: Option<String>, executable: bool|
            #[trigger] shell_asked(probe, binary, answer, executable) && answer is Some
                && r->Ok_0.path@ == str_trim(first_line_or_empty(answer->0@)) && executable,
{
    let answers = choose|answers: Seq<bool>|
        #[trigger] ladder_record(answers, rung_candidates(binary@, home).len() as int) && (forall|
            j: int,
        |
            0 <= j < answers.len() ==> probed(
                probe,
                #[trigger] candidate_paths(binary@, home)[j],
                answers[j],
            )) && if answers.len() > 0 && answers.last() {
            r matches Ok(res) && rung_candidates(binary@, home)[answers.len() - 1] == (
                res.source,
                res.path@,
            )
        } else {
            answers.len() == rung_candidates(binary@, home).len() && exists|
                answer: Option<String>,
                executable: bool,
            |
                #[trigger] shell_asked(probe, binary, answer, executable) && shell_result(
                    binary@,
                    candidate_paths(binary@, home),
                    opt_string_view(answer),
                    executable,
                    r,
                )
        };
    if answers.len() > 0 && answers.last() {
        let k = answers.len() - 1;
        let fixed = fixed_rungs(home);
        assert(rung_candidates(binary@, home)[k].0 == fixed[k].0);
        assert(fixed[k].0 != Source::LoginShell);
    } else {
        let (answer, executable) = choose|answer: Option<String>, executable: bool|
            #[trigger] shell_asked(probe, binary, answer, executable) && shell_result(
                binary@,
                candidate_paths(binary@, home),
                opt_string_view(answer),
                executable,
                r,
            );
        lemma_shell_answer_is_its_trimmed_first_line(answer->0@);
        assert(shell_asked(probe, binary, answer, executable));
    }
}

} // verus!
