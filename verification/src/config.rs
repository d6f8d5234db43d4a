//! The launcher's configuration: which program to run, whether to run it
//! through the shell, and the aliases.

use crate::document::{
    lemma_merge_adds_override, lemma_merge_empty, lemma_merge_keeps_base, lemma_merge_names, lemma_merge_shared,
    merge_nodes, merge_values,
    node_get, toml_parse, toml_text, ConfigTable, ConfigValue, Node,
};
use crate::paths::{join_path, path_join};
use crate::text::{join_texts, lemma_sorted_unique, split_on_space, split_spaces, strictly_sorted, texts};
use vstd::prelude::*;
use vstd::string::StringExecFns;

verus! {

/// A configuration document.
pub struct Configuration {
    config: ConfigValue,
}

/// What a command name stands for.
pub enum Alias {
    /// A command line for the shell: the definition after its leading `!`.
    ShellAlias(String),
    /// Arguments that take the place of the name: the definition cut at
    /// every single space.
    RegularAlias(Vec<String>),
}

/// An alias as contracts see it.
pub enum AliasView {
    Shell(Seq<char>),
    Regular(Seq<Seq<char>>),
}

impl Alias {
    /// The alias as contracts see it.
    pub open spec fn view(&self) -> AliasView {
        match self {
            Alias::ShellAlias(command) => AliasView::Shell(command@),
            Alias::RegularAlias(arguments) => AliasView::Regular(texts(arguments@)),
        }
    }
}

/// The message for a name that the document does not hold.
pub open spec fn key_not_found(key: Seq<char>) -> Seq<char> {
    "key '"@ + key + "' was not found at configuration file"@
}

/// The message for a value that should be a string and is none.
pub open spec fn no_string_type(key: Seq<char>) -> Seq<char> {
    "'"@ + key + "' key has no string type"@
}

/// The message for a value that should be a boolean and is none.
pub open spec fn no_boolean_type(key: Seq<char>) -> Seq<char> {
    "'"@ + key + "' key has no boolean type"@
}

/// The program to launch as the document names it: nothing where the name
/// `executable` is absent, an error where its value is no string.
pub open spec fn executable_of(root: Node) -> Result<Option<Seq<char>>, Seq<char>> {
    match node_get(root, "executable"@) {
        None => Ok(None),
        Some(Node::Text(path)) => Ok(Some(path)),
        Some(_) => Err(no_string_type("executable"@)),
    }
}

/// The shell flag as the document sets it: nothing where the name
/// `run_as_shell` is absent, an error where its value is no boolean.
pub open spec fn run_as_shell_of(root: Node) -> Result<Option<bool>, Seq<char>> {
    match node_get(root, "run_as_shell"@) {
        None => Ok(None),
        Some(Node::Flag(flag)) => Ok(Some(flag)),
        Some(_) => Err(no_boolean_type("run_as_shell"@)),
    }
}

/// The alias that a definition describes: a shell alias where it starts
/// with `!`, else the arguments between its spaces.
pub open spec fn parse_alias(definition: Seq<char>) -> AliasView {
    if definition.len() > 0 && definition[0] == '!' {
        AliasView::Shell(definition.subrange(1, definition.len() as int))
    } else {
        AliasView::Regular(split_spaces(definition))
    }
}

/// The alias of a command: nothing where the document has no `alias`
/// table or the table lacks the command, an error where the definition is
/// no string.
pub open spec fn alias_of(root: Node, command: Seq<char>) -> Result<Option<AliasView>, Seq<char>> {
    match node_get(root, "alias"@) {
        None => Ok(None),
        Some(aliases) => match node_get(aliases, command) {
            None => Ok(None),
            Some(Node::Text(definition)) => Ok(Some(parse_alias(definition))),
            Some(_) => Err(no_string_type(command)),
        },
    }
}

/// The definitions of the `alias` table; empty where the document has no
/// such table.
pub open spec fn aliases_of(root: Node) -> Map<Seq<char>, Node> {
    match node_get(root, "alias"@) {
        Some(Node::Section(aliases)) => aliases,
        _ => Map::empty(),
    }
}

/// The names of a list of pairs.
pub open spec fn names(list: Seq<(String, String)>) -> Seq<Seq<char>> {
    Seq::new(list.len(), |i: int| list[i].0@)
}

/// The second parts of a list of pairs.
pub open spec fn definitions(list: Seq<(String, String)>) -> Seq<Seq<char>> {
    Seq::new(list.len(), |i: int| list[i].1@)
}

/// The text that shows a definition: a string as it is, with its `!` where
/// it has one and with all its spaces; a value of any other kind as the
/// TOML that stands for it, where there is such.
pub open spec fn definition_text(definition: Node) -> Option<Seq<char>> {
    match definition {
        Node::Text(text) => Some(text),
        _ => toml_text(definition),
    }
}

/// Whether names and definitions list the aliases of a document: every
/// alias once, the names ascending, each with the text of its definition.
pub open spec fn is_listing(root: Node, names: Seq<Seq<char>>, definitions: Seq<Seq<char>>) -> bool {
    &&& names.len() == definitions.len()
    &&& strictly_sorted(names)
    &&& names.to_set() =~= aliases_of(root).dom()
    &&& forall|i: int|
        0 <= i < names.len() ==> definition_text(aliases_of(root)[#[trigger] names[i]]) == Some(definitions[i])
}

/// Whether some alias of a document has a definition that no text shows.
pub open spec fn has_unwritable_alias(root: Node) -> bool {
    exists|name: Seq<char>|
        aliases_of(root).contains_key(name) && definition_text(#[trigger] aliases_of(root)[name]) is None
}

/// A document whose aliases are all strings has a listing; none of its
/// aliases is without a text.
pub proof fn lemma_string_aliases_are_listed(root: Node)
    requires
        forall|name: Seq<char>| aliases_of(root).contains_key(name) ==> #[trigger] aliases_of(root)[name] is Text,
    ensures
        !has_unwritable_alias(root),
{
}

/// A document has one listing of its aliases only.
pub proof fn lemma_listing_unique(
    root: Node,
    names: Seq<Seq<char>>,
    definitions: Seq<Seq<char>>,
    other_names: Seq<Seq<char>>,
    other_definitions: Seq<Seq<char>>,
)
    requires
        is_listing(root, names, definitions),
        is_listing(root, other_names, other_definitions),
    ensures
        names == other_names,
        definitions == other_definitions,
{
    lemma_sorted_unique(names, other_names);
    assert forall|i: int| 0 <= i < definitions.len() implies definitions[i] == other_definitions[i] by {
        assert(definition_text(aliases_of(root)[names[i]]) == Some(definitions[i]));
        assert(definition_text(aliases_of(root)[other_names[i]]) == Some(other_definitions[i]));
    }
    assert(definitions =~= other_definitions);
}

/// An alias that the overriding document defines is the alias of the
/// merge, unless the base document holds a table under the alias's name.
pub proof fn lemma_alias_from_override(
    base: Map<Seq<char>, Node>,
    over: Map<Seq<char>, Node>,
    command: Seq<char>,
)
    requires
        aliases_of(Node::Section(over)).contains_key(command),
        aliases_of(Node::Section(base)).contains_key(command) ==> !(aliases_of(Node::Section(base))[command]
            is Section),
    ensures
        alias_of(merge_nodes(Node::Section(base), Node::Section(over)), command) == alias_of(
            Node::Section(over),
            command,
        ),
{
    let name = "alias"@;
    assert(over.contains_key(name) && over[name] is Section);
    let defined = over[name]->Section_0;
    if base.contains_key(name) {
        lemma_merge_shared(base, over, name);
        if base[name] is Section {
            let old = base[name]->Section_0;
            if old.contains_key(command) {
                lemma_merge_shared(old, defined, command);
            } else {
                lemma_merge_adds_override(old, defined, command);
            }
        }
    } else {
        lemma_merge_adds_override(base, over, name);
    }
}

/// An alias that the base document alone defines stays the alias of the
/// merge.
pub proof fn lemma_alias_from_base(base: Map<Seq<char>, Node>, over: Map<Seq<char>, Node>, command: Seq<char>)
    requires
        aliases_of(Node::Section(base)).contains_key(command),
        !aliases_of(Node::Section(over)).contains_key(command),
    ensures
        alias_of(merge_nodes(Node::Section(base), Node::Section(over)), command) == alias_of(
            Node::Section(base),
            command,
        ),
{
    let name = "alias"@;
    assert(base.contains_key(name) && base[name] is Section);
    let defined = base[name]->Section_0;
    if over.contains_key(name) {
        lemma_merge_shared(base, over, name);
        if over[name] is Section {
            lemma_merge_keeps_base(defined, over[name]->Section_0, command);
        }
    } else {
        lemma_merge_keeps_base(base, over, name);
    }
}

/// The aliases of a merge are those of the two documents together, where
/// both hold an alias table.
pub proof fn lemma_alias_names(base: Map<Seq<char>, Node>, over: Map<Seq<char>, Node>)
    requires
        node_get(Node::Section(base), "alias"@) matches Some(Node::Section(_)),
        node_get(Node::Section(over), "alias"@) matches Some(Node::Section(_)),
    ensures
        aliases_of(merge_nodes(Node::Section(base), Node::Section(over))).dom() == aliases_of(
            Node::Section(base),
        ).dom().union(aliases_of(Node::Section(over)).dom()),
{
    let name = "alias"@;
    lemma_merge_shared(base, over, name);
    lemma_merge_names(base[name]->Section_0, over[name]->Section_0);
}

impl Configuration {
    /// The document.
    pub closed spec fn view(&self) -> Node {
        self.config@
    }

    /// The configuration that a document holds.
    pub fn new(config: ConfigValue) -> (configuration: Configuration)
        ensures
            configuration@ == config@,
    {
        Configuration { config }
    }

    fn get_key(&self, key: &str) -> (r: Result<&ConfigValue, String>)
        ensures
            match r {
                Ok(value) => node_get(self@, key@) == Some(value@),
                Err(message) => node_get(self@, key@) is None && message@ == key_not_found(key@),
            },
    {
        match self.config.get(key) {
            None => {
                let mut message = join_texts("key '", key);
                message.append("' was not found at configuration file");
                Err(message)
            },
            Some(value) => Ok(value),
        }
    }

    fn value_as_str(&self, key: &str, value: &ConfigValue) -> (r: Result<String, String>)
        ensures
            match r {
                Ok(text) => value@ == Node::Text(text@),
                Err(message) => !(value@ is Text) && message@ == no_string_type(key@),
            },
    {
        match value.as_str() {
            None => {
                let mut message = join_texts("'", key);
                message.append("' key has no string type");
                Err(message)
            },
            Some(text) => Ok(text.to_owned()),
        }
    }

    fn value_as_boolean(&self, key: &str, value: &ConfigValue) -> (r: Result<bool, String>)
        ensures
            match r {
                Ok(flag) => value@ == Node::Flag(flag),
                Err(message) => !(value@ is Flag) && message@ == no_boolean_type(key@),
            },
    {
        match value.as_bool() {
            Some(flag) => Ok(flag),
            None => {
                let mut message = join_texts("'", key);
                message.append("' key has no boolean type");
                Err(message)
            },
        }
    }

    /// The program to launch, where the configuration names one.
    pub fn get_executable(&self) -> (r: Result<Option<String>, String>)
        ensures
            match r {
                Ok(Some(path)) => executable_of(self@) == Ok::<Option<Seq<char>>, Seq<char>>(Some(path@)),
                Ok(None) => executable_of(self@) == Ok::<Option<Seq<char>>, Seq<char>>(None),
                Err(message) => executable_of(self@) == Err::<Option<Seq<char>>, Seq<char>>(message@),
            },
    {
        let key = "executable";
        match self.get_key(key) {
            Ok(value) => {
                match self.value_as_str(key, value) {
                    Ok(path) => Ok(Some(path)),
                    Err(message) => Err(message),
                }
            },
            Err(_) => Ok(None),
        }
    }

    /// Whether the program is to run through the shell, where the
    /// configuration says so.
    pub fn get_run_as_shell(&self) -> (r: Result<Option<bool>, String>)
        ensures
            match r {
                Ok(flag) => run_as_shell_of(self@) == Ok::<Option<bool>, Seq<char>>(flag),
                Err(message) => run_as_shell_of(self@) == Err::<Option<bool>, Seq<char>>(message@),
            },
    {
        let key = "run_as_shell";
        match self.get_key(key) {
            Ok(value) => {
                match self.value_as_boolean(key, value) {
                    Ok(flag) => Ok(Some(flag)),
                    Err(message) => Err(message),
                }
            },
            Err(_) => Ok(None),
        }
    }

    /// The alias of a command, where the configuration defines one.
    pub fn get_alias(&self, command: &str) -> (r: Result<Option<Alias>, String>)
        ensures
            match r {
                Ok(Some(alias)) => alias_of(self@, command@) == Ok::<Option<AliasView>, Seq<char>>(Some(alias@)),
                Ok(None) => alias_of(self@, command@) == Ok::<Option<AliasView>, Seq<char>>(None),
                Err(message) => alias_of(self@, command@) == Err::<Option<AliasView>, Seq<char>>(message@),
            },
    {
        let aliases = match self.get_key("alias") {
            Ok(aliases) => aliases,
            Err(_) => {
                return Ok(None);
            },
        };
        match aliases.get(command) {
            Some(definition) => {
                let alias_value = match self.value_as_str(command, definition) {
                    Ok(text) => text,
                    Err(message) => {
                        return Err(message);
                    },
                };
                let length = alias_value.as_str().unicode_len();
                if length > 0 && alias_value.as_str().get_char(0) == '!' {
                    let shell_command = alias_value.as_str().substring_char(1, length).to_owned();
                    Ok(Some(Alias::ShellAlias(shell_command)))
                } else {
                    let alias_arguments = split_on_space(alias_value.as_str());
                    Ok(Some(Alias::RegularAlias(alias_arguments)))
                }
            },
            None => Ok(None),
        }
    }

    /// The aliases with their definitions, in the order of their names. A
    /// definition that is a string is listed as it is; one of another kind
    /// as the TOML that stands for it, and there is no list where one has
    /// no such form.
    pub fn list_aliases(&self) -> (r: Option<Vec<(String, String)>>)
        ensures
            match r {
                Some(list) => is_listing(self@, names(list@), definitions(list@)),
                None => has_unwritable_alias(self@),
            },
    {
        let mut aliases: Vec<(String, String)> = Vec::new();
        let table = match self.config.get("alias") {
            Some(value) => match value.as_table() {
                Some(table) => table,
                None => {
                    assert(names(aliases@).to_set() =~= aliases_of(self@).dom());
                    return Some(aliases);
                },
            },
            None => {
                assert(names(aliases@).to_set() =~= aliases_of(self@).dom());
                return Some(aliases);
            },
        };
        let n = table.len();
        let ghost keys = table.keys();
        let mut i: usize = 0;
        while i < n
            invariant
                i <= n,
                n == keys.len(),
                keys == table.keys(),
                table@ == aliases_of(self@),
                aliases@.len() == i,
                forall|j: int|
                    0 <= j < i ==> (#[trigger] aliases@[j]).0@ == keys[j] && definition_text(table@[keys[j]])
                        == Some(aliases@[j].1@),
            decreases n - i,
        {
            let key = table.key_at(i);
            let value = table.value_at(i);
            let shown = match value.as_str() {
                Some(text) => Some(text.to_owned()),
                None => value.to_text(),
            };
            match shown {
                Some(definition) => {
                    aliases.push((key.clone(), definition));
                },
                None => {
                    return None;
                },
            }
            i = i + 1;
        }
        proof {
            assert(names(aliases@) =~= keys);
        }
        Some(aliases)
    }
}

/// The path of the configuration file in the launcher's directory.
pub fn get_config_path(executable_dir: &str) -> (path: String)
    ensures
        path@ == path_join(executable_dir@, "config.toml"@),
{
    let config_file_name = "config.toml";
    join_path(executable_dir, config_file_name)
}

/// The path of the file whose settings override the configuration file's.
pub fn get_config_override_path(executable_dir: &str) -> (path: String)
    ensures
        path@ == path_join(executable_dir@, "override.toml"@),
{
    let config_file_name = "override.toml";
    join_path(executable_dir, config_file_name)
}

/// The configuration with the settings of `override_config` laid over it.
pub fn merge(config: &Configuration, override_config: &Configuration) -> (merged: Configuration)
    ensures
        merged@ == merge_nodes(config@, override_config@),
{
    Configuration { config: merge_values(&config.config, &override_config.config) }
}

/// The configuration without any setting.
pub fn empty_configuration() -> (configuration: Configuration)
    ensures
        configuration@ == Node::Section(Map::empty()),
{
    Configuration { config: ConfigValue::Table(ConfigTable::new()) }
}

/// The message for a configuration file that could not be read.
pub open spec fn read_failure(path: Seq<char>) -> Seq<char> {
    "Something went wrong while reading the config file: "@ + path
}

/// The message for a configuration file that is no TOML document.
pub open spec fn parse_failure(path: Seq<char>, reason: Seq<char>) -> Seq<char> {
    "[ERROR] Cannot parse config file: "@ + path + ". "@ + reason
}

/// The document of a configuration file, given what reading the file
/// brought: its text, or nothing where it could not be read.
pub open spec fn read_document(path: Seq<char>, contents: Option<Seq<char>>) -> Result<Node, Seq<char>> {
    match contents {
        None => Err(read_failure(path)),
        Some(text) => match toml_parse(text) {
            Ok(document) => Ok(document),
            Err(reason) => Err(parse_failure(path, reason)),
        },
    }
}

/// The text of an optional string.
pub open spec fn text_of(contents: Option<&str>) -> Option<Seq<char>> {
    match contents {
        Some(text) => Some(text@),
        None => None,
    }
}

/// The document of a configuration, or the message of a failure.
pub open spec fn outcome_of(result: Result<Configuration, String>) -> Result<Node, Seq<char>> {
    match result {
        Ok(configuration) => Ok(configuration@),
        Err(message) => Err(message@),
    }
}

/// The configuration that a file holds. `contents` is the text of the file
/// at `config_file_path`, or `None` where the file could not be read.
pub fn read_configuration(config_file_path: &str, contents: Option<&str>) -> (r: Result<Configuration, String>)
    ensures
        outcome_of(r) == read_document(config_file_path@, text_of(contents)),
{
    let text = match contents {
        Some(text) => text,
        None => {
            return Err(join_texts("Something went wrong while reading the config file: ", config_file_path));
        },
    };
    match ConfigValue::parse(text) {
        Ok(config) => Ok(Configuration { config }),
        Err(reason) => {
            let mut message = join_texts("[ERROR] Cannot parse config file: ", config_file_path);
            message.append(". ");
            message.append(reason.as_str());
            Err(message)
        },
    }
}

/// The first line of a new configuration file: the setting of the
/// program, commented out. It names the program that was found, or
/// `not-found` where none was.
pub open spec fn sample_executable_line(detected: Option<Seq<char>>) -> Seq<char> {
    match detected {
        Some(path) => "#executable=\""@ + path + "\""@,
        None => "#executable=\"not-found\""@,
    }
}

/// The text of a new configuration file.
pub open spec fn sample_config(detected: Option<Seq<char>>) -> Seq<char> {
    sample_executable_line(detected) + "\n"@ + "\n"@ + "[alias]\n"@ + "test_alias1=\"--help\"\n"@
}

/// The text that a configuration file starts out with: the setting of the
/// program as a comment, with the program that auto-detection found, if
/// any, and one alias as an example.
pub fn sample_config_content(auto_detect_executable: Option<&str>) -> (content: String)
    ensures
        content@ == sample_config(text_of(auto_detect_executable)),
{
    let mut content = match auto_detect_executable {
        Some(path) => {
            let mut line = join_texts("#executable=\"", path);
            line.append("\"");
            line
        },
        None => "#executable=\"not-found\"".to_owned(),
    };
    content.append("\n");
    content.append("\n");
    content.append("[alias]\n");
    content.append("test_alias1=\"--help\"\n");
    content
}

/// The configuration of a run, given what reading the two files brought.
/// The override file is optional: `None` says that there is none.
pub open spec fn configured(
    path: Seq<char>,
    contents: Option<Seq<char>>,
    override_path: Seq<char>,
    override_contents: Option<Option<Seq<char>>>,
) -> Result<Node, Seq<char>> {
    match read_document(path, contents) {
        Err(message) => Err(message),
        Ok(base) => {
            let over = match override_contents {
                Some(text) => read_document(override_path, text),
                None => Ok(Node::Section(Map::empty())),
            };
            match over {
                Err(message) => Err(message),
                Ok(document) => Ok(merge_nodes(base, document)),
            }
        },
    }
}

/// Without an override file the configuration of a run is that of the
/// configuration file, where that file's document is a table.
pub proof fn lemma_without_override(path: Seq<char>, contents: Option<Seq<char>>, override_path: Seq<char>)
    requires
        read_document(path, contents) matches Ok(document) ==> document is Section,
    ensures
        configured(path, contents, override_path, None) == read_document(path, contents),
{
    if let Ok(document) = read_document(path, contents) {
        lemma_merge_empty(document->Section_0);
    }
}

/// The configuration of a run: that of the configuration file, with the
/// override file's laid over it where there is such a file. A file that
/// cannot be read or parsed fails the whole.
pub fn get_configuration(
    config_file_path: &str,
    contents: Option<&str>,
    config_override_file_path: &str,
    override_contents: Option<Option<&str>>,
) -> (r: Result<Configuration, String>)
    ensures
        outcome_of(r) == configured(
            config_file_path@,
            text_of(contents),
            config_override_file_path@,
            match override_contents {
                Some(text) => Some(text_of(text)),
                None => None,
            },
        ),
{
    let configuration = match read_configuration(config_file_path, contents) {
        Ok(configuration) => configuration,
        Err(message) => {
            return Err(message);
        },
    };
    let override_configuration = match override_contents {
        Some(text) => read_configuration(config_override_file_path, text),
        None => Ok(empty_configuration()),
    };
    match override_configuration {
        Ok(override_configuration) => Ok(merge(&configuration, &override_configuration)),
        Err(message) => Err(message),
    }
}

} // verus!
