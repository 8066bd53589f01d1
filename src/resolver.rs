//! Maps an executable name to a file path by searching the directories of a
//! `PATH`-style list in order. The file-system test of each candidate is
//! made by the caller; the resolver decides what to test next and when to stop.

use vstd::prelude::*;
use vstd::string::*;

use crate::text::{split_on, split_spec, views};

verus! {

/// The path of `name` inside the directory `dir`: an absolute name stands
/// for itself, an empty directory names the current one, and a separator is
/// put between the two unless `dir` already ends in one.
pub open spec fn join_spec(dir: Seq<char>, name: Seq<char>) -> Seq<char> {
    if name.len() > 0 && name[0] == '/' {
        name
    } else if dir.len() == 0 {
        name
    } else if dir.last() == '/' {
        dir + name
    } else {
        dir + seq!['/'] + name
    }
}

/// The directories listed in the search path `path_var`, in order.
pub open spec fn dirs_spec(path_var: Seq<char>) -> Seq<Seq<char>> {
    split_spec(path_var, ':')
}

/// The paths to test for `name`, one per directory of `path_var`, in order.
pub open spec fn candidates_spec(path_var: Seq<char>, name: Seq<char>) -> Seq<Seq<char>> {
    dirs_spec(path_var).map_values(|d: Seq<char>| join_spec(d, name))
}

/// What the search asks for next.
#[derive(PartialEq, Eq, Structural, Clone, Copy, Debug)]
pub enum Probe {
    /// Test whether the candidate with this index exists.
    Check(usize),
    /// The candidate with this index exists: it is the result.
    Found(usize),
    /// No candidate exists.
    NotFound,
}

/// The step after candidate `i` of `count` was tested.
pub open spec fn next_probe_spec(count: nat, i: nat, exists: bool) -> Probe {
    if exists {
        Probe::Found(i as usize)
    } else if i + 1 < count {
        Probe::Check((i + 1) as usize)
    } else {
        Probe::NotFound
    }
}

/// The index of the first candidate, from `i` on, for which `hits` holds.
pub open spec fn first_existing(hits: Seq<bool>, i: nat) -> Option<nat>
    decreases hits.len() - i,
{
    if i >= hits.len() {
        None
    } else if hits[i as int] {
        Some(i)
    } else {
        first_existing(hits, i + 1)
    }
}

/// Where the search ends when it tests candidate `i` and then follows the
/// probes, with `hits` telling which candidates exist.
pub open spec fn search_from(hits: Seq<bool>, i: nat) -> Probe
    decreases hits.len() - i,
{
    if i >= hits.len() {
        Probe::NotFound
    } else {
        match next_probe_spec(hits.len(), i, hits[i as int]) {
            Probe::Check(j) => if j > i {
                search_from(hits, j as nat)
            } else {
                Probe::NotFound
            },
            other => other,
        }
    }
}

/// Following the probes from candidate `i` ends on the first candidate from
/// `i` on that exists, or on `NotFound` where none does.
pub proof fn lemma_search_finds_first(hits: Seq<bool>, i: nat)
    requires
        hits.len() <= usize::MAX,
    ensures
        search_from(hits, i) == (match first_existing(hits, i) {
            Some(k) => Probe::Found(k as usize),
            None => Probe::NotFound,
        }),
    decreases hits.len() - i,
{
    if i < hits.len() && !hits[i as int] {
        if i + 1 < hits.len() {
            lemma_search_finds_first(hits, i + 1);
        } else {
            assert(first_existing(hits, i + 1) is None);
        }
    }
}

/// The path of `name` inside `dir`.
pub fn join_path(dir: &str, name: &str) -> (r: String)
    ensures
        r@ == join_spec(dir@, name@),
{
    let nl = name.unicode_len();
    let dl = dir.unicode_len();
    if nl > 0 && name.get_char(0) == '/' {
        name.to_owned()
    } else if dl == 0 {
        name.to_owned()
    } else if dir.get_char(dl - 1) == '/' {
        let d = dir.to_owned();
        d.concat(name)
    } else {
        let d = dir.to_owned();
        let d = d.concat("/");
        proof {
            reveal_strlit("/");
        }
        let r = d.concat(name);
        proof {
            assert(r@ =~= dir@ + seq!['/'] + name@);
        }
        r
    }
}

/// The directories listed in a search path, separated by `:`.
pub fn search_dirs(path_var: &str) -> (r: Vec<String>)
    ensures
        views(r@) == dirs_spec(path_var@),
{
    split_on(path_var, ':')
}

/// The paths to test for `name` under the search path `path_var`, in the
/// order of its directories.
pub fn candidates(path_var: &str, name: &str) -> (r: Vec<String>)
    ensures
        views(r@) == candidates_spec(path_var@, name@),
{
    let dirs = search_dirs(path_var);
    let mut out: Vec<String> = Vec::new();
    let mut i: usize = 0;
    while i < dirs.len()
        invariant
            i <= dirs.len(),
            views(dirs@) == dirs_spec(path_var@),
            out@.len() == i,
            forall|k: int| 0 <= k < i ==> #[trigger] out@[k]@ == join_spec(dirs@[k]@, name@),
        decreases dirs.len() - i,
    {
        let p = join_path(dirs[i].as_str(), name);
        out.push(p);
        i = i + 1;
    }
    proof {
        assert(views(out@) =~= candidates_spec(path_var@, name@)) by {
            assert(views(dirs@).len() == dirs@.len());
            assert forall|k: int| 0 <= k < dirs@.len() implies views(dirs@)[k] == dirs@[k]@ by {}
        }
    }
    out
}

/// The first step of a search over `count` candidates.
pub fn first_probe(count: usize) -> (r: Probe)
    ensures
        count == 0 ==> r == Probe::NotFound,
        count > 0 ==> r == Probe::Check(0),
{
    if count == 0 {
        Probe::NotFound
    } else {
        Probe::Check(0)
    }
}

/// The step after candidate `i` of `count` was tested and found to exist or
/// not: the first candidate that exists is the result.
pub fn next_probe(count: usize, i: usize, exists: bool) -> (r: Probe)
    requires
        i < count,
    ensures
        r == next_probe_spec(count as nat, i as nat, exists),
{
    if exists {
        Probe::Found(i)
    } else if i + 1 < count {
        Probe::Check(i + 1)
    } else {
        Probe::NotFound
    }
}

} // verus!
