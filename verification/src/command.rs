//! Command resolution: classify a name as a builtin, as an executable on the
//! search path, or as not found.
//!
//! The caller supplies the environment as plain values: the search-path
//! directories in order, and, for each directory, whether `directory/name`
//! exists there as a regular file.  Resolution itself is then a pure
//! decision, verified for every snapshot.

use vstd::prelude::*;
use vstd::string::*;
use crate::builtin::Builtin;
use crate::builtin::builtin_of;
use crate::text::str_eq;
use crate::text::str_views;

verus! {

/// A command name, classified.
#[derive(Debug)]
pub enum Command {
    /// The name of a builtin, handled by the shell itself.
    Builtin(Builtin),
    /// The path of the first regular file named after the command in
    /// search-path order.
    Executable(String),
    /// The name, carried through for reporting: no builtin, no file.
    NotFound(String),
}

impl PartialEq for Command {
    fn eq(&self, other: &Command) -> bool {
        match (self, other) {
            (Command::Builtin(a), Command::Builtin(b)) => a == b,
            (Command::Executable(p), Command::Executable(q)) => str_eq(p.as_str(), q.as_str()),
            (Command::NotFound(m), Command::NotFound(n)) => str_eq(m.as_str(), n.as_str()),
            _ => false,
        }
    }
}

impl vstd::std_specs::cmp::PartialEqSpecImpl for Command {
    open spec fn obeys_eq_spec() -> bool {
        true
    }

    open spec fn eq_spec(&self, other: &Command) -> bool {
        match (self, other) {
            (Command::Builtin(a), Command::Builtin(b)) => a == b,
            (Command::Executable(p), Command::Executable(q)) => p@ == q@,
            (Command::NotFound(m), Command::NotFound(n)) => m@ == n@,
            _ => false,
        }
    }
}

/// The position of the first hit among the candidates, in order.
pub open spec fn first_hit(hits: Seq<bool>) -> Option<int>
    decreases hits.len(),
{
    if hits.len() == 0 {
        None
    } else if hits[0] {
        Some(0int)
    } else {
        match first_hit(hits.drop_first()) {
            Some(i) => Some(i + 1),
            None => None,
        }
    }
}

/// Search order is kept: the index `first_hit` returns is a hit and every
/// earlier candidate misses; `None` means every candidate misses.
pub proof fn lemma_first_hit_least(hits: Seq<bool>)
    ensures
        match first_hit(hits) {
            Some(i) => 0 <= i < hits.len() && hits[i] && (forall|j: int| 0 <= j < i ==> !hits[j]),
            None => forall|j: int| 0 <= j < hits.len() ==> !hits[j],
        },
    decreases hits.len(),
{
    if hits.len() > 0 && !hits[0] {
        let rest = hits.drop_first();
        lemma_first_hit_least(rest);
        match first_hit(rest) {
            Some(i) => {
                assert forall|j: int| 0 <= j < i + 1 implies !hits[j] by {
                    if j > 0 {
                        assert(rest[j - 1] == hits[j]);
                    }
                }
            },
            None => {
                assert forall|j: int| 0 <= j < hits.len() implies !hits[j] by {
                    if j > 0 {
                        assert(rest[j - 1] == hits[j]);
                    }
                }
            },
        }
    }
}

/// A hit whose earlier candidates all miss is the first hit.
pub proof fn lemma_first_hit_at(hits: Seq<bool>, i: int)
    requires
        0 <= i < hits.len(),
        hits[i],
        forall|j: int| 0 <= j < i ==> !hits[j],
    ensures
        first_hit(hits) == Some(i),
    decreases i,
{
    if i > 0 {
        lemma_first_hit_at(hits.drop_first(), i - 1);
    }
}

/// Where every candidate misses, there is no first hit.
pub proof fn lemma_first_hit_none(hits: Seq<bool>)
    requires
        forall|j: int| 0 <= j < hits.len() ==> !hits[j],
    ensures
        first_hit(hits) == None::<int>,
    decreases hits.len(),
{
    if hits.len() > 0 {
        lemma_first_hit_none(hits.drop_first());
    }
}

/// The candidate path for a command in a directory: `directory/name`, with
/// no separator added after an empty directory or one ending in `/`.
pub open spec fn join_path_spec(dir: Seq<char>, name: Seq<char>) -> Seq<char> {
    if dir.len() == 0 || dir.last() == '/' {
        dir + name
    } else {
        dir + "/"@ + name
    }
}

/// What resolution returns for a name, given the search-path directories and,
/// for each, whether it holds a regular file named after the command.
pub open spec fn resolution_holds(
    name: Seq<char>,
    dirs: Seq<Seq<char>>,
    is_file: Seq<bool>,
    c: Command,
) -> bool {
    match builtin_of(name) {
        Some(b) => c == Command::Builtin(b),
        None => match first_hit(is_file) {
            Some(i) => c matches Command::Executable(p) && p@ == join_path_spec(dirs[i], name),
            None => c matches Command::NotFound(n) && n@ == name,
        },
    }
}

/// A reserved name always resolves to the matching builtin, whatever the
/// search path holds: the builtin check comes first.
pub proof fn lemma_builtin_names_win(
    name: Seq<char>,
    dirs: Seq<Seq<char>>,
    is_file: Seq<bool>,
    b: Builtin,
    c: Command,
)
    requires
        builtin_of(name) == Some(b),
        resolution_holds(name, dirs, is_file, c),
    ensures
        c == Command::Builtin(b),
{
}

/// Where a directory holds a regular file named after a command that is no
/// builtin, and every earlier directory holds none, resolution returns that
/// directory's candidate path: the first directory in search-path order wins.
pub proof fn lemma_first_directory_wins(
    name: Seq<char>,
    dirs: Seq<Seq<char>>,
    is_file: Seq<bool>,
    i: int,
    c: Command,
)
    requires
        builtin_of(name) is None,
        0 <= i < is_file.len(),
        is_file[i],
        forall|j: int| 0 <= j < i ==> !is_file[j],
        resolution_holds(name, dirs, is_file, c),
    ensures
        c matches Command::Executable(p) && p@ == join_path_spec(dirs[i], name),
{
    lemma_first_hit_at(is_file, i);
}

/// Where no directory on the search path holds a regular file named after a
/// command that is no builtin, resolution returns `NotFound` carrying the
/// name itself.
pub proof fn lemma_no_hit_not_found(
    name: Seq<char>,
    dirs: Seq<Seq<char>>,
    is_file: Seq<bool>,
    c: Command,
)
    requires
        builtin_of(name) is None,
        forall|j: int| 0 <= j < is_file.len() ==> !is_file[j],
        resolution_holds(name, dirs, is_file, c),
    ensures
        c matches Command::NotFound(n) && n@ == name,
{
    lemma_first_hit_none(is_file);
}

/// The candidate path for `name` in `dir`.
pub fn join_path(dir: &str, name: &str) -> (p: String)
    ensures
        p@ == join_path_spec(dir@, name@),
{
    let n = dir.unicode_len();
    let mut p = dir.to_owned();
    if n != 0 && dir.get_char(n - 1) != '/' {
        p.append("/");
    }
    p.append(name);
    p
}

/// Classify `name` against the reserved builtin names first, then against
/// the search-path snapshot, in order, taking the first directory whose
/// candidate is a regular file.
pub fn resolve(name: &str, dirs: &Vec<String>, is_file: &Vec<bool>) -> (c: Command)
    requires
        dirs@.len() == is_file@.len(),
    ensures
        resolution_holds(name@, str_views(dirs@), is_file@, c),
{
    match Builtin::try_from(name) {
        Ok(b) => Command::Builtin(b),
        Err(_) => {
            let mut i: usize = 0;
            while i < dirs.len()
                invariant
                    i <= dirs@.len(),
                    dirs@.len() == is_file@.len(),
                    builtin_of(name@) is None,
                    forall|j: int| 0 <= j < i ==> !is_file@[j],
                decreases dirs@.len() - i,
            {
                if is_file[i] {
                    proof {
                        lemma_first_hit_at(is_file@, i as int);
                    }
                    return Command::Executable(join_path(dirs[i].as_str(), name));
                }
                i += 1;
            }
            proof {
                lemma_first_hit_none(is_file@);
            }
            Command::NotFound(name.to_owned())
        },
    }
}

} // verus!
