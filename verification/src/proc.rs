//! What the `paddock` CLI is handed when it runs, and what comes back.
//!
//! **Why the environment is rebuilt rather than inherited.** A bundled app
//! inherits `launchd`'s `PATH`, and paddock itself shells out to `docker`. So
//! resolving an absolute path to `paddock` is only half the problem: the child
//! still has to find `docker`, and it looks for it on the `PATH` this app hands
//! it. An app that resolves `paddock` correctly and then hands it an empty
//! `PATH` fails with paddock's exit code 3 — "Docker is not running".
use crate::exit::Exit;
use crate::paths::{join, parent, path_join, path_parent, paths_equal, same_path};
use crate::text::opt_str_view;
use vstd::prelude::*;

verus! {

#[derive(Debug, Clone, Copy, PartialEq, Eq, Structural)]
pub enum Stream {
    Stdout,
    Stderr,
}

/// One line of output, tagged with the stream it arrived on.
#[derive(Debug, Clone, PartialEq, Eq)]
pub struct Line {
    pub stream: Stream,
    pub text: String,
}

/// A run to completion: its exit status and both outputs.
pub struct Captured {
    pub exit: Exit,
    pub stdout: String,
    pub stderr: String,
}

/// Directories put on the child's `PATH`, after the resolved binary's own.
/// Both Homebrew prefixes plus the system defaults: enough for `docker` to be
/// found wherever Docker Desktop or Colima put it.
pub open spec fn child_path_dirs() -> Seq<Seq<char>> {
    seq![
        "/opt/homebrew/bin"@,
        "/usr/local/bin"@,
        "/usr/bin"@,
        "/bin"@,
        "/usr/sbin"@,
        "/sbin"@,
    ]
}

/// `~/.local/bin` under a home directory.
pub open spec fn home_local_bin(home: Seq<char>) -> Seq<char> {
    path_join(path_join(home, ".local"@), "bin"@)
}

/// Every directory proposed for the child's `PATH`, in order, before
/// duplicates are dropped: the binary's own directory, `~/.local/bin`, then
/// the fixed directories.
pub open spec fn child_path_candidates(binary: Seq<char>, home: Option<Seq<char>>) -> Seq<Seq<char>> {
    let own = match path_parent(binary) {
        Some(dir) => seq![dir],
        None => Seq::empty(),
    };
    let local = match home {
        Some(h) => seq![home_local_bin(h)],
        None => Seq::empty(),
    };
    own + local + child_path_dirs()
}

/// Whether some entry of `seen` is the same path as `d`.
pub open spec fn has_same_path(seen: Seq<Seq<char>>, d: Seq<char>) -> bool {
    exists|k: int| 0 <= k < seen.len() && same_path(#[trigger] seen[k], d)
}

/// Keeps the first of each group of entries that are the same path.
pub open spec fn dedup_paths(s: Seq<Seq<char>>) -> Seq<Seq<char>>
    decreases s.len(),
{
    if s.len() == 0 {
        Seq::empty()
    } else {
        let kept = dedup_paths(s.drop_last());
        if has_same_path(kept, s.last()) {
            kept
        } else {
            kept.push(s.last())
        }
    }
}

/// Joins entries with `sep` between them.
pub open spec fn join_with(s: Seq<Seq<char>>, sep: Seq<char>) -> Seq<char>
    decreases s.len(),
{
    if s.len() == 0 {
        Seq::empty()
    } else if s.len() == 1 {
        s[0]
    } else {
        join_with(s.drop_last(), sep) + sep + s.last()
    }
}

/// The entries of the child's `PATH`, in order.
pub open spec fn child_path_entries(binary: Seq<char>, home: Option<Seq<char>>) -> Seq<Seq<char>> {
    dedup_paths(child_path_candidates(binary, home))
}

fn contains_same_path(seen: &Vec<String>, d: &String) -> (b: bool)
    ensures
        b == has_same_path(seen@.map_values(|s: String| s@), d@),
{
    let ghost views = seen@.map_values(|s: String| s@);
    let mut k: usize = 0;
    while k < seen.len()
        invariant
            k <= seen.len(),
            views == seen@.map_values(|s: String| s@),
            forall|j: int| 0 <= j < k ==> !same_path(#[trigger] views[j], d@),
        decreases seen.len() - k,
    {
        if paths_equal(seen[k].as_str(), d.as_str()) {
            assert(same_path(views[k as int], d@));
            return true;
        }
        k = k + 1;
    }
    false
}

/// Build the `PATH` handed to `paddock`, starting with the directory the
/// resolved binary lives in.
pub fn child_path(binary: &str, home: Option<&str>) -> (path: String)
    ensures
        path@ == join_with(child_path_entries(binary@, opt_str_view(home)), ":"@),
{
    let mut dirs: Vec<String> = Vec::new();
    match parent(binary) {
        Some(dir) => dirs.push(dir),
        None => {},
    }
    match home {
        Some(h) => {
            let local = join(h, ".local");
            dirs.push(join(local.as_str(), "bin"));
        },
        None => {},
    }
    dirs.push(String::from_str("/opt/homebrew/bin"));
    dirs.push(String::from_str("/usr/local/bin"));
    dirs.push(String::from_str("/usr/bin"));
    dirs.push(String::from_str("/bin"));
    dirs.push(String::from_str("/usr/sbin"));
    dirs.push(String::from_str("/sbin"));
    let ghost cands = child_path_candidates(binary@, opt_str_view(home));
    assert(dirs@.map_values(|s: String| s@) =~= cands);

    let mut seen: Vec<String> = Vec::new();
    let mut i: usize = 0;
    while i < dirs.len()
        invariant
            i <= dirs.len(),
            cands == dirs@.map_values(|s: String| s@),
            seen@.map_values(|s: String| s@) == dedup_paths(cands.take(i as int)),
        decreases dirs.len() - i,
    {
        let d = dirs[i].clone();
        assert(cands.take(i + 1).drop_last() =~= cands.take(i as int));
        if !contains_same_path(&seen, &d) {
            seen.push(d);
            assert(seen@.map_values(|s: String| s@) =~= dedup_paths(cands.take(i as int)).push(cands[i as int]));
        }
        i = i + 1;
    }
    assert(cands.take(dirs.len() as int) =~= cands);

    let mut out = String::new();
    let mut j: usize = 0;
    let ghost entries = seen@.map_values(|s: String| s@);
    while j < seen.len()
        invariant
            j <= seen.len(),
            entries == seen@.map_values(|s: String| s@),
            out@ == join_with(entries.take(j as int), ":"@),
        decreases seen.len() - j,
    {
        assert(entries.take(j + 1).drop_last() =~= entries.take(j as int));
        if j > 0 {
            out.append(":");
        }
        out.append(seen[j].as_str());
        j = j + 1;
    }
    assert(entries.take(seen.len() as int) =~= entries);
    out
}

proof fn lemma_dedup_keeps_first(s: Seq<Seq<char>>)
    requires
        s.len() > 0,
    ensures
        dedup_paths(s).len() > 0,
        dedup_paths(s)[0] == s[0],
    decreases s.len(),
{
    let kept = dedup_paths(s.drop_last());
    if s.len() > 1 {
        lemma_dedup_keeps_first(s.drop_last());
        assert(kept.push(s.last())[0] == kept[0]);
    } else {
        assert(kept.len() == 0);
        assert(!has_same_path(kept, s.last()));
    }
}

proof fn lemma_dedup_distinct(s: Seq<Seq<char>>)
    ensures
        forall|i: int, j: int|
            0 <= i < j < dedup_paths(s).len() ==> !same_path(
                #[trigger] dedup_paths(s)[i],
                #[trigger] dedup_paths(s)[j],
            ),
    decreases s.len(),
{
    if s.len() > 0 {
        lemma_dedup_distinct(s.drop_last());
        let kept = dedup_paths(s.drop_last());
        if !has_same_path(kept, s.last()) {
            assert forall|i: int, j: int|
                0 <= i < j < dedup_paths(s).len() implies !same_path(
                    #[trigger] dedup_paths(s)[i],
                    #[trigger] dedup_paths(s)[j],
                ) by {
                if j == kept.len() {
                    assert(dedup_paths(s)[i] == kept[i]);
                } else {
                    assert(dedup_paths(s)[i] == kept[i]);
                    assert(dedup_paths(s)[j] == kept[j]);
                }
            }
        }
    }
}

proof fn lemma_dedup_covers(s: Seq<Seq<char>>)
    ensures
        forall|i: int| 0 <= i < s.len() ==> has_same_path(dedup_paths(s), #[trigger] s[i]),
    decreases s.len(),
{
    if s.len() > 0 {
        let prefix = s.drop_last();
        lemma_dedup_covers(prefix);
        let kept = dedup_paths(prefix);
        let d = dedup_paths(s);
        assert forall|i: int| 0 <= i < s.len() implies has_same_path(d, #[trigger] s[i]) by {
            if i == s.len() - 1 {
                if !has_same_path(kept, s.last()) {
                    assert(d[kept.len() as int] == s.last());
                    assert(same_path(d[kept.len() as int], s[i]));
                }
            } else {
                assert(prefix[i] == s[i]);
                assert(has_same_path(kept, prefix[i]));
                let k = choose|k: int| 0 <= k < kept.len() && same_path(#[trigger] kept[k], prefix[i]);
                assert(d[k] == kept[k]);
            }
        }
    }
}

proof fn lemma_join_starts_with_first(s: Seq<Seq<char>>, sep: Seq<char>)
    requires
        s.len() > 0,
    ensures
        join_with(s, sep).len() >= s[0].len(),
        join_with(s, sep).take(s[0].len() as int) == s[0],
    decreases s.len(),
{
    if s.len() > 1 {
        lemma_join_starts_with_first(s.drop_last(), sep);
        let prev = join_with(s.drop_last(), sep);
        assert((prev + sep + s.last()).take(s[0].len() as int) =~= prev.take(s[0].len() as int));
    }
}

/// The resolved binary's own directory leads the child's `PATH`: it is the
/// first entry, and the `PATH` string starts with it.
pub proof fn lemma_binary_dir_leads(binary: Seq<char>, home: Option<Seq<char>>)
    requires
        path_parent(binary) is Some,
    ensures
        child_path_entries(binary, home)[0] == path_parent(binary)->0,
        join_with(child_path_entries(binary, home), ":"@).take(
            path_parent(binary)->0.len() as int,
        ) == path_parent(binary)->0,
{
    let c = child_path_candidates(binary, home);
    lemma_dedup_keeps_first(c);
    lemma_join_starts_with_first(child_path_entries(binary, home), ":"@);
}

/// No directory appears twice on the child's `PATH`: no entry is the same
/// path as a later one, and so no two entries are equal strings.
pub proof fn lemma_child_path_has_no_duplicates(binary: Seq<char>, home: Option<Seq<char>>)
    ensures
        forall|i: int, j: int|
            0 <= i < j < child_path_entries(binary, home).len() ==> !same_path(
                #[trigger] child_path_entries(binary, home)[i],
                #[trigger] child_path_entries(binary, home)[j],
            ) && child_path_entries(binary, home)[i] != child_path_entries(binary, home)[j],
{
    lemma_dedup_distinct(child_path_candidates(binary, home));
}

/// Every directory proposed for the child's `PATH` is on it, as the same
/// path: the fixed directories where `docker` lives, `~/.local/bin` when
/// there is a home, and the binary's own directory. So the `PATH` is never
/// empty.
pub proof fn lemma_child_path_covers_candidates(binary: Seq<char>, home: Option<Seq<char>>)
    ensures
        forall|i: int|
            0 <= i < child_path_dirs().len() ==> has_same_path(
                child_path_entries(binary, home),
                #[trigger] child_path_dirs()[i],
            ),
        home is Some ==> has_same_path(child_path_entries(binary, home), home_local_bin(home->0)),
        path_parent(binary) is Some ==> has_same_path(
            child_path_entries(binary, home),
            path_parent(binary)->0,
        ),
        child_path_entries(binary, home).len() > 0,
{
    let c = child_path_candidates(binary, home);
    lemma_dedup_covers(c);
    lemma_dedup_keeps_first(c);
    let off = c.len() - child_path_dirs().len();
    assert forall|i: int| 0 <= i < child_path_dirs().len() implies has_same_path(
        child_path_entries(binary, home),
        #[trigger] child_path_dirs()[i],
    ) by {
        assert(c[off + i] == child_path_dirs()[i]);
    }
    if home is Some {
        if path_parent(binary) is Some {
            assert(c[1] == home_local_bin(home->0));
        } else {
            assert(c[0] == home_local_bin(home->0));
        }
    }
    if path_parent(binary) is Some {
        assert(c[0] == path_parent(binary)->0);
    }
}

/// `s` has no `:` in it.
pub open spec fn no_colon(s: Seq<char>) -> bool {
    forall|i: int| 0 <= i < s.len() ==> s[i] != ':'
}

/// Index just past the last `:` in `s`, or `0` when there is none.
pub open spec fn after_last_colon(s: Seq<char>) -> nat
    decreases s.len(),
{
    if s.len() == 0 {
        0
    } else if s.last() == ':' {
        s.len()
    } else {
        after_last_colon(s.drop_last())
    }
}

/// The last `:` lies inside the string.
pub proof fn lemma_after_last_colon_bound(s: Seq<char>)
    ensures
        after_last_colon(s) <= s.len(),
        after_last_colon(s) > 0 ==> s[after_last_colon(s) - 1] == ':',
    decreases s.len(),
{
    if s.len() > 0 && s.last() != ':' {
        lemma_after_last_colon_bound(s.drop_last());
    }
}

/// The pieces of `s` between its `:`s, as `str::split(':')` gives them: an
/// empty string is one empty piece.
pub open spec fn split_at_colons(s: Seq<char>) -> Seq<Seq<char>>
    decreases s.len(),
{
    let j = after_last_colon(s) as int;
    if j == 0 {
        seq![s]
    } else {
        proof {
            lemma_after_last_colon_bound(s);
        }
        split_at_colons(s.take(j - 1)).push(s.skip(j))
    }
}

proof fn lemma_no_colon_after_last(s: Seq<char>)
    requires
        no_colon(s),
    ensures
        after_last_colon(s) == 0,
    decreases s.len(),
{
    if s.len() > 0 {
        lemma_no_colon_after_last(s.drop_last());
    }
}

proof fn lemma_after_last_colon_of_join(p: Seq<char>, q: Seq<char>)
    requires
        no_colon(q),
    ensures
        after_last_colon(p + ":"@ + q) == p.len() + 1,
    decreases q.len(),
{
    reveal_strlit(":");
    let s = p + ":"@ + q;
    if q.len() == 0 {
        assert(s.last() == ':');
    } else {
        assert(s.last() == q.last());
        assert(s.drop_last() =~= p + ":"@ + q.drop_last());
        lemma_after_last_colon_of_join(p, q.drop_last());
    }
}

/// Joining entries that hold no `:` with `:` and splitting the result at
/// `:` gives the entries back.
pub proof fn lemma_split_undoes_join(entries: Seq<Seq<char>>)
    requires
        entries.len() > 0,
        forall|i: int| 0 <= i < entries.len() ==> no_colon(#[trigger] entries[i]),
    ensures
        split_at_colons(join_with(entries, ":"@)) == entries,
    decreases entries.len(),
{
    reveal_strlit(":");
    if entries.len() == 1 {
        lemma_no_colon_after_last(entries[0]);
        assert(split_at_colons(entries[0]) =~= entries);
    } else {
        let prefix = entries.drop_last();
        assert forall|i: int| 0 <= i < prefix.len() implies no_colon(#[trigger] prefix[i]) by {
            assert(prefix[i] == entries[i]);
        }
        lemma_split_undoes_join(prefix);
        let pj = join_with(prefix, ":"@);
        let j = join_with(entries, ":"@);
        assert(no_colon(entries.last()));
        lemma_after_last_colon_of_join(pj, entries.last());
        assert(j.take(pj.len() as int) =~= pj);
        assert(j.skip(pj.len() + 1 as int) =~= entries.last());
        assert(split_at_colons(j) =~= entries);
    }
}

/// Split at `:`, the child's `PATH` gives back its entries, none repeated,
/// whenever no entry holds a `:`. The six fixed directories hold none.
pub proof fn lemma_child_path_splits_into_distinct_entries(
    binary: Seq<char>,
    home: Option<Seq<char>>,
)
    ensures
        (forall|i: int|
            0 <= i < child_path_entries(binary, home).len() ==> no_colon(
                #[trigger] child_path_entries(binary, home)[i],
            )) ==> {
            let pieces = split_at_colons(join_with(child_path_entries(binary, home), ":"@));
            &&& pieces == child_path_entries(binary, home)
            &&& forall|i: int, j: int|
                0 <= i < j < pieces.len() ==> #[trigger] pieces[i] != #[trigger] pieces[j]
        },
        forall|i: int| 0 <= i < child_path_dirs().len() ==> no_colon(#[trigger] child_path_dirs()[i]),
{
    let e = child_path_entries(binary, home);
    lemma_child_path_covers_candidates(binary, home);
    lemma_child_path_has_no_duplicates(binary, home);
    if forall|i: int| 0 <= i < e.len() ==> no_colon(#[trigger] e[i]) {
        lemma_split_undoes_join(e);
    }
    reveal_strlit("/opt/homebrew/bin");
    reveal_strlit("/usr/local/bin");
    reveal_strlit("/usr/bin");
    reveal_strlit("/bin");
    reveal_strlit("/usr/sbin");
    reveal_strlit("/sbin");
}

} // verus!