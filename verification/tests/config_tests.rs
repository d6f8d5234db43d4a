use alias_launcher::config::{
    empty_configuration, get_config_override_path, get_config_path, get_configuration, merge, read_configuration,
    sample_config_content, Alias, Configuration,
};
use alias_launcher::document::{merge_values, ConfigTable, ConfigValue};

fn get_table(section_name: &str, alias_name: &str, alias_value: &str) -> ConfigValue {
    let mut table = ConfigTable::new();
    let mut section = ConfigTable::new();
    section.insert(alias_name.to_string(), ConfigValue::String(alias_value.to_string()));
    table.insert(section_name.to_string(), ConfigValue::Table(section));
    ConfigValue::Table(table)
}

fn parsed(text: &str) -> Configuration {
    Configuration::new(ConfigValue::parse(text).unwrap())
}

fn regular(alias: Option<Alias>) -> Vec<String> {
    match alias {
        Some(Alias::RegularAlias(arguments)) => arguments,
        _ => panic!("a regular alias was expected"),
    }
}

fn shell(alias: Option<Alias>) -> String {
    match alias {
        Some(Alias::ShellAlias(command)) => command,
        _ => panic!("a shell alias was expected"),
    }
}

#[test]
fn merge_aliases() {
    let origin = get_table("section", "first", "value1");
    let override_config = get_table("section", "second", "value2");
    let result = merge_values(&origin, &override_config);
    let maybe_section = result.get("section");
    match maybe_section {
        None => {
            assert!(false, "'section' not found")
        }
        _ => {}
    }
    let section = maybe_section.unwrap();
    assert!(section.is_table());
    assert_eq!("value1", section.get("first").unwrap().as_str().unwrap());
    assert_eq!("value2", section.get("second").unwrap().as_str().unwrap());
}

#[test]
fn add_new_section() {
    let origin = get_table("section1", "first", "value1");
    let override_config = get_table("section2", "second", "value2");
    let result = merge_values(&origin, &override_config);
    assert!(result.get("section1").is_some());
    assert!(result.get("section2").is_some());
}

#[test]
fn redefine_alias() {
    let origin = get_table("section", "key", "value1");
    let override_config = get_table("section", "key", "value2");
    let result = merge_values(&origin, &override_config);
    let maybe_section = result.get("section");
    assert!(maybe_section.is_some());
    let section = maybe_section.unwrap();
    assert_eq!("value2", section.get("key").unwrap().as_str().unwrap());
}

#[test]
fn merge_with_empty_keeps_the_configuration() {
    let base = parsed("executable = \"/usr/bin/git\"\nrun_as_shell = true\n[alias]\ngs = \"status --short\"\n");
    let merged = merge(&base, &empty_configuration());
    assert_eq!(Ok(Some("/usr/bin/git".to_string())), merged.get_executable());
    assert_eq!(Ok(Some(true)), merged.get_run_as_shell());
    assert_eq!(vec!["status".to_string(), "--short".to_string()], regular(merged.get_alias("gs").unwrap()));
    assert_eq!(base.list_aliases(), merged.list_aliases());
}

#[test]
fn merge_override_takes_precedence() {
    let base = Configuration::new(get_table("alias", "a", "1"));
    let over = Configuration::new(get_table("alias", "a", "2"));
    let merged = merge(&base, &over);
    assert_eq!(vec!["2".to_string()], regular(merged.get_alias("a").unwrap()));
}

#[test]
fn merge_is_not_commutative() {
    let base = Configuration::new(get_table("alias", "a", "1"));
    let over = Configuration::new(get_table("alias", "a", "2"));
    let merged = merge(&over, &base);
    assert_eq!(vec!["1".to_string()], regular(merged.get_alias("a").unwrap()));
}

#[test]
fn merge_adds_the_aliases_of_both() {
    let base = Configuration::new(get_table("alias", "a", "1"));
    let over = Configuration::new(get_table("alias", "b", "2"));
    let merged = merge(&base, &over);
    assert_eq!(vec!["1".to_string()], regular(merged.get_alias("a").unwrap()));
    assert_eq!(vec!["2".to_string()], regular(merged.get_alias("b").unwrap()));
    assert_eq!(
        Some(vec![("a".to_string(), "1".to_string()), ("b".to_string(), "2".to_string())]),
        merged.list_aliases()
    );
}

#[test]
fn merge_scalar_over_scalar_takes_the_override() {
    let base = parsed("executable = \"one\"\nrun_as_shell = false\n");
    let over = parsed("executable = \"two\"\n");
    let merged = merge(&base, &over);
    assert_eq!(Ok(Some("two".to_string())), merged.get_executable());
    assert_eq!(Ok(Some(false)), merged.get_run_as_shell());
}

#[test]
fn merge_keeps_a_table_under_a_scalar() {
    let base = parsed("[alias]\na = \"1\"\n");
    let over = parsed("alias = \"none\"\n");
    let merged = merge(&base, &over);
    assert_eq!(vec!["1".to_string()], regular(merged.get_alias("a").unwrap()));
}

#[test]
fn merge_puts_a_table_over_a_scalar() {
    let base = parsed("alias = \"none\"\n");
    let over = parsed("[alias]\na = \"1\"\n");
    let merged = merge(&base, &over);
    assert_eq!(vec!["1".to_string()], regular(merged.get_alias("a").unwrap()));
}

#[test]
fn merge_of_a_root_that_is_no_table_gives_the_override() {
    let base = Configuration::new(ConfigValue::String("text".to_string()));
    let merged = merge(&base, &empty_configuration());
    assert_eq!(Some(vec![]), merged.list_aliases());
    assert_eq!(Ok(None), merged.get_executable());
}

#[test]
fn merge_goes_down_nested_tables() {
    let base = ConfigValue::parse("[a.b]\nx = \"1\"\ny = \"2\"\n").unwrap();
    let over = ConfigValue::parse("[a.b]\ny = \"3\"\nz = \"4\"\n").unwrap();
    let merged = merge_values(&base, &over);
    let inner = merged.get("a").unwrap().get("b").unwrap();
    assert_eq!(Some("1"), inner.get("x").unwrap().as_str());
    assert_eq!(Some("3"), inner.get("y").unwrap().as_str());
    assert_eq!(Some("4"), inner.get("z").unwrap().as_str());
}

#[test]
fn merge_carries_values_of_other_kinds() {
    let base = parsed("[alias]\nn = 5\n");
    let over = parsed("[alias]\nm = [1, 2]\n");
    let merged = merge(&base, &over);
    assert_eq!(
        Some(vec![("m".to_string(), "[1, 2]".to_string()), ("n".to_string(), "5".to_string())]),
        merged.list_aliases()
    );
}

#[test]
fn executable_is_read_where_it_is_a_string() {
    assert_eq!(Ok(Some("/usr/bin/git".to_string())), parsed("executable = \"/usr/bin/git\"\n").get_executable());
    assert_eq!(Ok(None), parsed("run_as_shell = true\n").get_executable());
    assert_eq!(Ok(None), empty_configuration().get_executable());
    assert_eq!(
        Err("'executable' key has no string type".to_string()),
        parsed("executable = 5\n").get_executable()
    );
}

#[test]
fn run_as_shell_is_read_where_it_is_a_boolean() {
    assert_eq!(Ok(Some(true)), parsed("run_as_shell = true\n").get_run_as_shell());
    assert_eq!(Ok(Some(false)), parsed("run_as_shell = false\n").get_run_as_shell());
    assert_eq!(Ok(None), parsed("executable = \"x\"\n").get_run_as_shell());
    assert_eq!(
        Err("'run_as_shell' key has no boolean type".to_string()),
        parsed("run_as_shell = \"yes\"\n").get_run_as_shell()
    );
}

#[test]
fn regular_alias_is_cut_at_every_space() {
    let configuration = parsed("[alias]\ngs = \"status --short\"\ntwo = \"a  b\"\nempty = \"\"\nend = \"a \"\nstart = \" a\"\n");
    assert_eq!(vec!["status".to_string(), "--short".to_string()], regular(configuration.get_alias("gs").unwrap()));
    assert_eq!(
        vec!["a".to_string(), "".to_string(), "b".to_string()],
        regular(configuration.get_alias("two").unwrap())
    );
    assert_eq!(vec!["".to_string()], regular(configuration.get_alias("empty").unwrap()));
    assert_eq!(vec!["a".to_string(), "".to_string()], regular(configuration.get_alias("end").unwrap()));
    assert_eq!(vec!["".to_string(), "a".to_string()], regular(configuration.get_alias("start").unwrap()));
}

#[test]
fn shell_alias_is_what_follows_the_mark() {
    let configuration = parsed("[alias]\nll = \"!ls -la\"\nbare = \"!\"\nlate = \"a!b\"\nwide = \"!\u{e9}t\u{e9}  x\"\n");
    assert_eq!("ls -la".to_string(), shell(configuration.get_alias("ll").unwrap()));
    assert_eq!("".to_string(), shell(configuration.get_alias("bare").unwrap()));
    assert_eq!(vec!["a!b".to_string()], regular(configuration.get_alias("late").unwrap()));
    assert_eq!("\u{e9}t\u{e9}  x".to_string(), shell(configuration.get_alias("wide").unwrap()));
}

#[test]
fn alias_is_absent_where_nothing_defines_it() {
    assert!(parsed("[alias]\ngs = \"status\"\n").get_alias("git").unwrap().is_none());
    assert!(parsed("executable = \"x\"\n").get_alias("git").unwrap().is_none());
    assert!(parsed("alias = \"text\"\n").get_alias("git").unwrap().is_none());
    assert!(empty_configuration().get_alias("git").unwrap().is_none());
}

#[test]
fn alias_of_another_kind_is_an_error() {
    let configuration = parsed("[alias]\nn = 5\nflag = true\n[alias.t]\nx = \"y\"\n");
    assert_eq!(Some("'n' key has no string type".to_string()), configuration.get_alias("n").err());
    assert_eq!(Some("'flag' key has no string type".to_string()), configuration.get_alias("flag").err());
    assert_eq!(Some("'t' key has no string type".to_string()), configuration.get_alias("t").err());
}

#[test]
fn aliases_are_listed_by_name() {
    let configuration = parsed("[alias]\nzz = \"last\"\nb = \"!echo \\\"hi\\\"\"\na = \"first\"\nB = \"upper\"\nab = \"longer\"\n");
    assert_eq!(
        Some(vec![
            ("B".to_string(), "upper".to_string()),
            ("a".to_string(), "first".to_string()),
            ("ab".to_string(), "longer".to_string()),
            ("b".to_string(), "!echo \"hi\"".to_string()),
            ("zz".to_string(), "last".to_string()),
        ]),
        configuration.list_aliases()
    );
}

#[test]
fn aliases_of_other_kinds_are_listed_as_toml() {
    let configuration = parsed("[alias]\nflag = true\nn = 5\n");
    assert_eq!(
        Some(vec![("flag".to_string(), "true".to_string()), ("n".to_string(), "5".to_string())]),
        configuration.list_aliases()
    );
}

#[test]
fn no_aliases_are_listed_without_an_alias_table() {
    assert_eq!(Some(vec![]), empty_configuration().list_aliases());
    assert_eq!(Some(vec![]), parsed("alias = \"text\"\n").list_aliases());
    assert_eq!(Some(vec![]), parsed("[alias]\n").list_aliases());
}

#[test]
fn configuration_files_lie_in_the_launcher_directory() {
    let expected: String = std::path::Path::new("/opt/tool").join("config.toml").to_str().unwrap().to_string();
    let expected_override: String =
        std::path::Path::new("/opt/tool").join("override.toml").to_str().unwrap().to_string();
    assert_eq!(expected, get_config_path("/opt/tool"));
    assert_eq!(expected_override, get_config_override_path("/opt/tool"));
    assert_ne!("/opt/tool".to_string(), get_config_path("/opt/tool"));
}

#[test]
fn reading_fails_where_the_file_could_not_be_read() {
    assert_eq!(
        Some("Something went wrong while reading the config file: /opt/tool/config.toml".to_string()),
        read_configuration("/opt/tool/config.toml", None).err()
    );
}

#[test]
fn reading_fails_where_the_file_is_no_toml() {
    let message = read_configuration("/opt/tool/config.toml", Some("executable = ")).err().unwrap();
    let reason = "executable = ".parse::<toml::Value>().err().unwrap().to_string();
    assert_eq!(format!("[ERROR] Cannot parse config file: /opt/tool/config.toml. {}", reason), message);
}

#[test]
fn reading_gives_the_settings_of_the_file() {
    let configuration = read_configuration("config.toml", Some("executable = \"git\"\n")).unwrap();
    assert_eq!(Ok(Some("git".to_string())), configuration.get_executable());
}

#[test]
fn sample_content_names_the_program_that_was_found() {
    assert_eq!(
        "#executable=\"/usr/bin/git\"\n\n[alias]\ntest_alias1=\"--help\"\n".to_string(),
        sample_config_content(Some("/usr/bin/git"))
    );
}

#[test]
fn sample_content_comments_the_program_out_where_none_was_found() {
    assert_eq!(
        "#executable=\"not-found\"\n\n[alias]\ntest_alias1=\"--help\"\n".to_string(),
        sample_config_content(None)
    );
}

#[test]
fn sample_content_is_a_configuration() {
    let configuration = read_configuration("config.toml", Some(sample_config_content(None).as_str())).unwrap();
    assert_eq!(Ok(None), configuration.get_executable());
    assert_eq!(vec!["--help".to_string()], regular(configuration.get_alias("test_alias1").unwrap()));
}

#[test]
fn sample_content_sets_no_program_and_no_shell_mode() {
    let content = sample_config_content(Some("/usr/bin/git"));
    let configuration = read_configuration("config.toml", Some(content.as_str())).unwrap();
    assert_eq!(Ok(None), configuration.get_executable());
    assert_eq!(Ok(None), configuration.get_run_as_shell());
    assert_eq!(Some(vec![("test_alias1".to_string(), "--help".to_string())]), configuration.list_aliases());
}

#[test]
fn string_definitions_are_listed_as_they_are() {
    let configuration = parsed("[alias]\nll = \"!ls  -la\"\ngs = \"status --short ${HOME}\"\nempty = \"\"\n");
    assert_eq!(
        Some(vec![
            ("empty".to_string(), "".to_string()),
            ("gs".to_string(), "status --short ${HOME}".to_string()),
            ("ll".to_string(), "!ls  -la".to_string()),
        ]),
        configuration.list_aliases()
    );
}

#[test]
fn configuration_without_override_is_the_base() {
    let configuration =
        get_configuration("config.toml", Some("executable = \"git\"\n"), "override.toml", None).unwrap();
    assert_eq!(Ok(Some("git".to_string())), configuration.get_executable());
}

#[test]
fn configuration_with_override_is_the_merge() {
    let configuration = get_configuration(
        "config.toml",
        Some("executable = \"git\"\n[alias]\na = \"1\"\n"),
        "override.toml",
        Some(Some("executable = \"hg\"\n[alias]\nb = \"2\"\n")),
    )
    .unwrap();
    assert_eq!(Ok(Some("hg".to_string())), configuration.get_executable());
    assert_eq!(vec!["1".to_string()], regular(configuration.get_alias("a").unwrap()));
    assert_eq!(vec!["2".to_string()], regular(configuration.get_alias("b").unwrap()));
}

#[test]
fn configuration_fails_with_the_base() {
    assert_eq!(
        Some("Something went wrong while reading the config file: config.toml".to_string()),
        get_configuration("config.toml", None, "override.toml", Some(Some("x = 1\n"))).err()
    );
}

#[test]
fn configuration_fails_with_the_override() {
    assert_eq!(
        Some("Something went wrong while reading the config file: override.toml".to_string()),
        get_configuration("config.toml", Some("x = 1\n"), "override.toml", Some(None)).err()
    );
    let message = get_configuration("config.toml", Some("x = 1\n"), "override.toml", Some(Some("["))).err().unwrap();
    assert!(message.starts_with("[ERROR] Cannot parse config file: override.toml. "));
}
