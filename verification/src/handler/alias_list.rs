//! Listing the aliases of the configuration.

use crate::config::{definitions, has_unwritable_alias, is_listing, names, Configuration};
use crate::environment::autodetect_executable::FileSystemWrapper;
use crate::environment::Environment;
use crate::handler::{Action, Handler};
use crate::text::{join_texts, texts};
use vstd::prelude::*;
use vstd::string::StringExecFns;

verus! {

/// The line that shows one alias.
pub open spec fn alias_line(name: Seq<char>, definition: Seq<char>) -> Seq<char> {
    name + " = "@ + definition
}

/// The lines that show a listing, one for each alias.
pub open spec fn alias_lines(names: Seq<Seq<char>>, definitions: Seq<Seq<char>>) -> Seq<Seq<char>> {
    Seq::new(names.len(), |i: int| alias_line(names[i], definitions[i]))
}

/// The message for a definition that cannot be shown.
pub open spec fn unwritable_alias() -> Seq<char> {
    "Unable to represent value as string"@
}

/// Whether an action is the answer to a request for the aliases: the
/// lines of the listing to print, or the end of a run whose aliases cannot
/// all be shown.
pub open spec fn is_alias_report(root: crate::document::Node, action: Action) -> bool {
    match action {
        Action::Print(lines) => exists|names: Seq<Seq<char>>, definitions: Seq<Seq<char>>|
            #[trigger] is_listing(root, names, definitions) && texts(lines@) == alias_lines(names, definitions),
        Action::Abort(message) => has_unwritable_alias(root) && message@ == unwritable_alias(),
        _ => false,
    }
}

/// The lines that show the aliases of a list, in the order of the list.
pub fn format_aliases(aliases: &Vec<(String, String)>) -> (lines: Vec<String>)
    ensures
        texts(lines@) == alias_lines(names(aliases@), definitions(aliases@)),
{
    let mut lines: Vec<String> = Vec::new();
    let mut i: usize = 0;
    while i < aliases.len()
        invariant
            i <= aliases@.len(),
            lines@.len() == i,
            forall|j: int| 0 <= j < i ==> (#[trigger] lines@[j])@ == alias_line(aliases@[j].0@, aliases@[j].1@),
        decreases aliases@.len() - i,
    {
        let mut line = join_texts(aliases[i].0.as_str(), " = ");
        line.append(aliases[i].1.as_str());
        lines.push(line);
        i = i + 1;
    }
    assert(texts(lines@) =~= alias_lines(names(aliases@), definitions(aliases@)));
    lines
}

/// The handler that lists the aliases.
pub struct AliasListHandler {}

impl Handler for AliasListHandler {
    /// Asks for the listing of the aliases to be printed, a line for each.
    /// Where a definition has no TOML form there is no listing, and the
    /// run is given up.
    fn handle<F: FileSystemWrapper>(&self, environment: &Environment, configuration: &Configuration, fs: &F) -> (action:
        Action)
        ensures
            is_alias_report(configuration@, action),
    {
        match configuration.list_aliases() {
            Some(aliases) => {
                let lines = format_aliases(&aliases);
                assert(is_listing(configuration@, names(aliases@), definitions(aliases@)));
                Action::Print(lines)
            },
            None => Action::Abort("Unable to represent value as string".to_owned()),
        }
    }
}

impl AliasListHandler {
    pub fn new() -> AliasListHandler {
        AliasListHandler {  }
    }
}

} // verus!
