//! Typed views of `paddock ls --json` and `paddock info PATH --json`.
//!
//! The app must never parse the human-readable table, so every field the UI
//! shows comes from here. Fields documented as nullable are `Option`, and
//! nothing else is.
use vstd::prelude::*;

verus! {

/// A published port pair. `host` is bound on `127.0.0.1`, never `0.0.0.0`.
#[derive(Debug, Clone, Copy, PartialEq, Eq, Structural)]
pub struct Port {
    pub host: u16,
    pub container: u16,
}

/// The egress policy paddock last tried to apply.
#[derive(Debug, Clone, PartialEq, Eq)]
pub struct Policy {
    /// Persisted set names. The always-on API set is added on top and is not
    /// listed here. `open` anywhere in this list means there is no firewall.
    pub sets: Vec<String>,
    /// Extra domains from the profile and `--allow`.
    pub extra: Vec<String>,
    /// paddock's own summary, e.g. `github,npm +1`, `strict`, `open`.
    pub describe: String,
}

/// `open` is one of the policy's sets.
pub open spec fn spec_is_open(sets: Seq<String>) -> bool {
    exists|i: int| 0 <= i < sets.len() && #[trigger] sets[i]@ == "open"@
}

impl Policy {
    /// No firewall at all. Worth its own method because it is the one policy
    /// state the UI must never render as just another label.
    pub fn is_open(&self) -> (b: bool)
        ensures
            b == spec_is_open(self.sets@),
    {
        let open = String::from_str("open");
        let mut i: usize = 0;
        while i < self.sets.len()
            invariant
                i <= self.sets.len(),
                open@ == "open"@,
                forall|k: int| 0 <= k < i ==> #[trigger] self.sets@[k]@ != "open"@,
            decreases self.sets.len() - i,
        {
            if self.sets[i] == open {
                return true;
            }
            i = i + 1;
        }
        false
    }
}

/// One row of `paddock ls --json`.
#[derive(Debug, Clone, PartialEq, Eq)]
pub struct Sandbox {
    pub container: String,
    /// Docker's state string: `running`, `exited`, `created`, …
    pub state: String,
    pub repo: String,
    pub profile: String,
    pub workspace: String,
    /// The last policy application did not fully succeed. A fact about the
    /// sandbox, not about the policy, which is why it survives `policy` being
    /// `null`.
    pub closed: bool,
    /// `null` when paddock has no persisted policy for this container.
    pub policy: Option<Policy>,
    pub ports: Vec<Port>,
}

impl Sandbox {
    pub fn is_running(&self) -> (b: bool)
        ensures
            b == (self.state@ == "running"@),
    {
        self.state == String::from_str("running")
    }
}

/// `paddock info PATH --json` — what `up` *would* do, with no side effects.
#[derive(Debug, Clone, PartialEq, Eq)]
pub struct Info {
    /// The directory that would be sandboxed.
    pub root: String,
    pub repo: String,
    /// Basename of `root`; differs from `repo` for a linked worktree.
    pub name: String,
    pub container: String,
    /// Set when `root` is a linked worktree.
    pub common_git: Option<String>,
    pub profile: String,
    /// `null` is the cue to offer `paddock init`.
    pub profile_path: Option<String>,
    pub env_file: Option<String>,
    /// `null` when the container does not exist.
    pub state: Option<String>,
    /// Only knowable for a running container.
    pub provisioned: Option<bool>,
    pub ports: Vec<Port>,
    pub policy: Option<Policy>,
}

impl Info {
    /// The container does not exist yet, so `up` would create it.
    pub fn is_new(&self) -> (b: bool)
        ensures
            b == self.state is None,
    {
        self.state.is_none()
    }

    /// Only `profiles/default.json` applies — the cue to offer `paddock init`.
    pub fn has_no_profile_of_its_own(&self) -> (b: bool)
        ensures
            b == self.profile_path is None,
    {
        self.profile_path.is_none()
    }
}

} // verus!
