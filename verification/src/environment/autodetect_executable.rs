//! Finding the program that the launcher stands in for: a file of the
//! launcher's own name further down the search path.

use crate::paths::{join_path, path_join, paths_equal, same_path};
use crate::text::texts;
use vstd::prelude::*;

verus! {

/// The questions that the search asks of the file system.
pub trait FileSystemWrapper {
    /// Whether anything is at the path.
    fn path_exists(&self, path: &str) -> bool;

    /// Whether what is at the path is a regular file.
    fn is_file(&self, path: &str) -> bool;
}

/// The position of the first directory at or after `from` that is the
/// directory `own`, or the length of the search path where none is.
pub open spec fn own_position(search_path: Seq<Seq<char>>, own: Seq<char>, from: int) -> int
    decreases search_path.len() - from,
{
    if from >= search_path.len() {
        search_path.len() as int
    } else if same_path(search_path[from], own) {
        from
    } else {
        own_position(search_path, own, from + 1)
    }
}

/// The paths at which the program may be found, in the order of the
/// search: the name in each directory of the search path that follows the
/// first mention of the launcher's own directory. There is none where the
/// search path does not mention that directory.
pub open spec fn candidates(search_path: Seq<Seq<char>>, own: Seq<char>, name: Seq<char>) -> Seq<Seq<char>> {
    let first = own_position(search_path, own, 0) + 1;
    if first < search_path.len() {
        Seq::new((search_path.len() - first) as nat, |i: int| path_join(search_path[first + i], name))
    } else {
        Seq::empty()
    }
}

proof fn lemma_own_position(search_path: Seq<Seq<char>>, own: Seq<char>, from: int, at: int)
    requires
        0 <= from <= at <= search_path.len(),
        forall|j: int| from <= j < at ==> !same_path(#[trigger] search_path[j], own),
        at < search_path.len() ==> same_path(search_path[at], own),
    ensures
        own_position(search_path, own, from) == at,
    decreases at - from,
{
    if from < at {
        lemma_own_position(search_path, own, from + 1, at);
    }
}

/// The paths at which the search looks for the program named
/// `executable_name`, in its order: one in each directory of the search
/// path after the first mention of the launcher's directory,
/// `executable_path`.
pub fn candidate_paths(executable_path: &str, executable_name: &str, search_path: &Vec<String>) -> (paths: Vec<String>)
    ensures
        texts(paths@) == candidates(texts(search_path@), executable_path@, executable_name@),
{
    let ghost dirs = texts(search_path@);
    let mut paths: Vec<String> = Vec::new();
    let mut found_current = false;
    let ghost mut own: int = 0;
    let mut i: usize = 0;
    while i < search_path.len()
        invariant
            i <= search_path@.len(),
            dirs == texts(search_path@),
            !found_current ==> paths@.len() == 0 && forall|j: int|
                0 <= j < i ==> !same_path(#[trigger] dirs[j], executable_path@),
            found_current ==> 0 <= own < i && own_position(dirs, executable_path@, 0) == own && paths@.len() == i
                - own - 1,
            forall|j: int|
                0 <= j < paths@.len() ==> (#[trigger] paths@[j])@ == path_join(dirs[own + 1 + j], executable_name@),
        decreases search_path@.len() - i,
    {
        let path_item = search_path[i].as_str();
        assert(dirs[i as int] == path_item@);
        if !found_current {
            if paths_equal(path_item, executable_path) {
                found_current = true;
                proof {
                    own = i as int;
                    lemma_own_position(dirs, executable_path@, 0, own);
                }
            }
        } else {
            let target_path = join_path(path_item, executable_name);
            paths.push(target_path);
        }
        i = i + 1;
    }
    proof {
        if !found_current {
            lemma_own_position(dirs, executable_path@, 0, dirs.len() as int);
        }
        assert(texts(paths@) =~= candidates(dirs, executable_path@, executable_name@));
    }
    paths
}

/// The position of the first answer at or after `from` that accepts, or
/// the number of answers where none does.
pub open spec fn first_accepted(answers: Seq<bool>, from: int) -> int
    decreases answers.len() - from,
{
    if from >= answers.len() {
        answers.len() as int
    } else if answers[from] {
        from
    } else {
        first_accepted(answers, from + 1)
    }
}

/// The candidate that the search settles on, given the answers that came
/// for the candidates in their order: the first candidate that was
/// accepted, and none where no answer accepts. A candidate that got no
/// answer is not taken.
pub open spec fn selected(candidates: Seq<Seq<char>>, answers: Seq<bool>) -> Option<Seq<char>> {
    let at = first_accepted(answers, 0);
    if at < answers.len() && at < candidates.len() {
        Some(candidates[at])
    } else {
        None
    }
}

/// What a search found, as contracts see it.
pub open spec fn found_path(found: Option<String>) -> Option<Seq<char>> {
    match found {
        Some(path) => Some(path@),
        None => None,
    }
}

/// Whether `found` is what a search among the candidates comes to for
/// some answers to its questions: the first candidate that was accepted,
/// or nothing where none was.
pub open spec fn is_search_result(candidates: Seq<Seq<char>>, found: Option<Seq<char>>) -> bool {
    exists|answers: Seq<bool>| answers.len() <= candidates.len() && found == #[trigger] selected(candidates, answers)
}

proof fn lemma_first_accepted(answers: Seq<bool>, from: int, at: int)
    requires
        0 <= from <= at <= answers.len(),
        forall|j: int| from <= j < at ==> !answers[j],
        at < answers.len() ==> answers[at],
    ensures
        first_accepted(answers, from) == at,
    decreases at - from,
{
    if from < at {
        lemma_first_accepted(answers, from + 1, at);
    }
}

proof fn lemma_first_accepted_bounds(answers: Seq<bool>, from: int)
    requires
        0 <= from <= answers.len(),
    ensures
        from <= first_accepted(answers, from) <= answers.len(),
        first_accepted(answers, from) < answers.len() ==> answers[first_accepted(answers, from)],
        forall|j: int| from <= j < first_accepted(answers, from) ==> !answers[j],
    decreases answers.len() - from,
{
    if from < answers.len() && !answers[from] {
        lemma_first_accepted_bounds(answers, from + 1);
    }
}

/// A search result is one of the candidates, and there is none without a
/// candidate.
pub proof fn lemma_search_result_is_candidate(candidates: Seq<Seq<char>>, found: Option<Seq<char>>)
    requires
        is_search_result(candidates, found),
    ensures
        found matches Some(path) ==> candidates.contains(path),
        candidates.len() == 0 ==> found is None,
{
    let answers = choose|answers: Seq<bool>|
        answers.len() <= candidates.len() && found == #[trigger] selected(candidates, answers);
    lemma_first_accepted_bounds(answers, 0);
    if found is Some {
        assert(candidates[first_accepted(answers, 0)] == found->0);
    }
}

/// The candidate that the search settles on, given the answers of the file
/// system to the candidates in their order.
pub fn select_candidate(paths: &Vec<String>, answers: &Vec<bool>) -> (found: Option<String>)
    ensures
        found_path(found) == selected(texts(paths@), answers@),
{
    let mut i: usize = 0;
    while i < answers.len() && i < paths.len()
        invariant
            i <= answers@.len(),
            i <= paths@.len(),
            forall|j: int| 0 <= j < i ==> !answers@[j],
        decreases answers@.len() - i,
    {
        if answers[i] {
            proof {
                lemma_first_accepted(answers@, 0, i as int);
            }
            return Some(paths[i].clone());
        }
        i = i + 1;
    }
    proof {
        lemma_first_accepted_bounds(answers@, 0);
    }
    None
}

/// Looks for the program named `executable_name` in the directories of the
/// search path that come after the launcher's own directory,
/// `executable_path`. The file system is asked about the candidates in
/// their order, and the first that it reports as an existing regular file
/// is returned; the search finds nothing where it accepts none, and so
/// without a candidate.
pub fn autodetect_executable<F: FileSystemWrapper>(
    executable_path: &str,
    executable_name: &str,
    search_path: &Vec<String>,
    fs: &F,
) -> (found: Option<String>)
    ensures
        is_search_result(
            candidates(texts(search_path@), executable_path@, executable_name@),
            found_path(found),
        ),
        match found {
            Some(path) => candidates(texts(search_path@), executable_path@, executable_name@).contains(path@),
            None => true,
        },
        candidates(texts(search_path@), executable_path@, executable_name@).len() == 0 ==> found is None,
{
    let paths = candidate_paths(executable_path, executable_name, search_path);
    let mut answers: Vec<bool> = Vec::new();
    let mut accepted = false;
    while !accepted && answers.len() < paths.len()
        invariant
            answers@.len() <= paths@.len(),
        decreases paths@.len() - answers@.len() + if accepted { 0int } else { 1int },
    {
        let target_path = paths[answers.len()].as_str();
        if fs.path_exists(target_path) {
            if fs.is_file(target_path) {
                accepted = true;
            }
        }
        answers.push(accepted);
    }
    let found = select_candidate(&paths, &answers);
    proof {
        assert(found_path(found) == selected(texts(paths@), answers@));
        lemma_search_result_is_candidate(texts(paths@), found_path(found));
    }
    found
}

} // verus!
