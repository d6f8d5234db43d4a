//! Expansion of `${NAME}` placeholders from the variables of the
//! environment.

use crate::text::texts;
use vstd::prelude::*;
use vstd::string::StringExecFns;

verus! {

/// The regular expression of a placeholder: `${`, one or more characters
/// that are no braces, and `}`.
pub const PLACEHOLDER: &'static str = "(\\$\\{[^{}]+\\})";

/// The parts of a text between the matches of a regular expression, as
/// `Regex::split` of the `regex` crate yields them: the part before the
/// first match, the parts between one match and the next, and the part
/// after the last. `None` where the expression is not one that the crate
/// compiles.
pub uninterp spec fn regex_split(pattern: Seq<char>, text: Seq<char>) -> Option<Seq<Seq<char>>>;

/// The matches of a regular expression in a text, as `Regex::find_iter` of
/// the `regex` crate yields them: one after the other, none overlapping
/// another. `None` where the expression is not one that the crate
/// compiles.
pub uninterp spec fn regex_matches(pattern: Seq<char>, text: Seq<char>) -> Option<Seq<Seq<char>>>;

/// The first `n` pieces, each followed by its filler.
pub open spec fn woven(pieces: Seq<Seq<char>>, fillers: Seq<Seq<char>>, n: nat) -> Seq<char>
    decreases n,
{
    if n == 0 {
        Seq::empty()
    } else {
        woven(pieces, fillers, (n - 1) as nat) + pieces[n - 1] + fillers[n - 1]
    }
}

/// The pieces with a filler between each two: one piece more than there
/// are fillers.
pub open spec fn filled(pieces: Seq<Seq<char>>, fillers: Seq<Seq<char>>) -> Seq<char> {
    woven(pieces, fillers, fillers.len()) + pieces[fillers.len() as int]
}

/// `Regex::new`, then `Regex::split` and `Regex::find_iter` on the text:
/// the parts between the matches, and the matches. Both iterations go over
/// the same matches, so there is one part more than there are matches, and
/// the parts with the matches between them make up the text.
#[verifier::external_body]
fn split_at_matches(pattern: &str, text: &str) -> (r: Option<(Vec<String>, Vec<String>)>)
    ensures
        match r {
            Some((pieces, matches)) => {
                &&& regex_split(pattern@, text@) == Some(texts(pieces@))
                &&& regex_matches(pattern@, text@) == Some(texts(matches@))
                &&& pieces@.len() == matches@.len() + 1
                &&& filled(texts(pieces@), texts(matches@)) == text@
            },
            None => regex_split(pattern@, text@) is None && regex_matches(pattern@, text@) is None,
        },
{
    let expression = regex::Regex::new(pattern).ok()?;
    let pieces = expression.split(text).map(|piece| piece.to_owned()).collect();
    let matches = expression.find_iter(text).map(|found| found.as_str().to_owned()).collect();
    Some((pieces, matches))
}

/// The variables as contracts see them: names with their values.
pub open spec fn pairs(variables: Seq<(String, String)>) -> Seq<(Seq<char>, Seq<char>)> {
    Seq::new(variables.len(), |i: int| (variables[i].0@, variables[i].1@))
}

/// The value of the first variable of the given name.
pub open spec fn lookup(variables: Seq<(Seq<char>, Seq<char>)>, name: Seq<char>) -> Option<Seq<char>>
    decreases variables.len(),
{
    if variables.len() == 0 {
        None
    } else if variables[0].0 == name {
        Some(variables[0].1)
    } else {
        lookup(variables.drop_first(), name)
    }
}

/// What takes the place of a placeholder: the value of the variable that
/// it names between `${` and `}`, or the placeholder itself where no such
/// variable is set.
pub open spec fn substitute(placeholder: Seq<char>, variables: Seq<(Seq<char>, Seq<char>)>) -> Seq<char> {
    if placeholder.len() < 3 {
        placeholder
    } else {
        match lookup(variables, placeholder.subrange(2, placeholder.len() - 1)) {
            Some(value) => value,
            None => placeholder,
        }
    }
}

/// What takes the places of placeholders, one for one.
pub open spec fn substituted(placeholders: Seq<Seq<char>>, variables: Seq<(Seq<char>, Seq<char>)>) -> Seq<Seq<char>> {
    Seq::new(placeholders.len(), |i: int| substitute(placeholders[i], variables))
}

/// The placeholders of a text, in their order.
pub open spec fn placeholders(text: Seq<char>) -> Seq<Seq<char>> {
    match regex_matches(PLACEHOLDER@, text) {
        Some(matches) => matches,
        None => Seq::empty(),
    }
}

/// A text with its placeholders expanded: the parts between the
/// placeholders stay, and each placeholder gives way to what takes its
/// place. What an expansion puts in is not expanded again.
pub open spec fn expand(text: Seq<char>, variables: Seq<(Seq<char>, Seq<char>)>) -> Seq<char> {
    match regex_split(PLACEHOLDER@, text) {
        Some(pieces) => if pieces.len() == placeholders(text).len() + 1 {
            filled(pieces, substituted(placeholders(text), variables))
        } else {
            text
        },
        None => text,
    }
}

/// Whether no placeholder of a text gives way to anything but itself:
/// the variables that the text names are not set.
pub open spec fn nothing_to_expand(text: Seq<char>, variables: Seq<(Seq<char>, Seq<char>)>) -> bool {
    forall|i: int|
        0 <= i < placeholders(text).len() ==> substitute(#[trigger] placeholders(text)[i], variables)
            == placeholders(text)[i]
}

/// The value of the first variable of the given name, if there is one.
pub fn find_variable(variables: &Vec<(String, String)>, name: &str) -> (value: Option<String>)
    ensures
        match value {
            Some(text) => lookup(pairs(variables@), name@) == Some(text@),
            None => lookup(pairs(variables@), name@) is None,
        },
{
    let wanted = name.to_owned();
    let mut i: usize = 0;
    assert(pairs(variables@).skip(0) =~= pairs(variables@));
    while i < variables.len()
        invariant
            i <= variables@.len(),
            wanted@ == name@,
            lookup(pairs(variables@), name@) == lookup(pairs(variables@).skip(i as int), name@),
        decreases variables@.len() - i,
    {
        let ghost rest = pairs(variables@).skip(i as int);
        assert(rest[0] == pairs(variables@)[i as int]);
        assert(rest.drop_first() =~= pairs(variables@).skip(i + 1));
        if variables[i].0 == wanted {
            return Some(variables[i].1.clone());
        }
        i = i + 1;
    }
    None
}

/// What takes the place of one placeholder.
pub fn substitute_placeholder(placeholder: &str, variables: &Vec<(String, String)>) -> (replacement: String)
    ensures
        replacement@ == substitute(placeholder@, pairs(variables@)),
{
    let length = placeholder.unicode_len();
    if length < 3 {
        return placeholder.to_owned();
    }
    let name = placeholder.substring_char(2, length - 1);
    match find_variable(variables, name) {
        Some(value) => value,
        None => placeholder.to_owned(),
    }
}

/// Expands the `${NAME}` placeholders of a text: each gives way to the
/// value of the variable `NAME`, and stays where no such variable is set.
/// A text that names no variable that is set comes back as it is. The
/// placeholders and the parts between them are those that the `regex`
/// crate finds as it goes over the text.
pub fn expand_env_var(path: &str, variables: &Vec<(String, String)>) -> (expanded: String)
    ensures
        expanded@ == expand(path@, pairs(variables@)),
        nothing_to_expand(path@, pairs(variables@)) ==> expanded@ == path@,
{
    let (pieces, matches) = match split_at_matches(PLACEHOLDER, path) {
        Some(found) => found,
        None => {
            return path.to_owned();
        },
    };
    let ghost fillers = substituted(texts(matches@), pairs(variables@));
    let mut expanded = String::new();
    let mut i: usize = 0;
    while i < matches.len()
        invariant
            i <= matches@.len(),
            pieces@.len() == matches@.len() + 1,
            fillers == substituted(texts(matches@), pairs(variables@)),
            expanded@ == woven(texts(pieces@), fillers, i as nat),
        decreases matches@.len() - i,
    {
        let replacement = substitute_placeholder(matches[i].as_str(), variables);
        expanded.append(pieces[i].as_str());
        expanded.append(replacement.as_str());
        i = i + 1;
    }
    expanded.append(pieces[i].as_str());
    proof {
        assert(placeholders(path@) == texts(matches@));
        if nothing_to_expand(path@, pairs(variables@)) {
            assert(fillers =~= texts(matches@));
        }
    }
    expanded
}

} // verus!
