use alias_launcher::document::{merge_values, ConfigTable, ConfigValue};
use alias_launcher::text::{append_all, join_texts, split_on_space, str_less};

fn text(value: &str) -> ConfigValue {
    ConfigValue::String(value.to_string())
}

fn keys(table: &ConfigTable) -> Vec<String> {
    let mut keys = Vec::new();
    let mut i = 0;
    while i < table.len() {
        keys.push(table.key_at(i).clone());
        i += 1;
    }
    keys
}

#[test]
fn table_keeps_its_names_in_order() {
    let mut table = ConfigTable::new();
    table.insert("b".to_string(), text("2"));
    table.insert("a".to_string(), text("1"));
    table.insert("c".to_string(), text("3"));
    table.insert("ab".to_string(), text("4"));
    table.insert("B".to_string(), text("5"));
    table.insert("".to_string(), text("6"));
    table.insert("\u{e9}".to_string(), text("7"));
    assert_eq!(vec!["", "B", "a", "ab", "b", "c", "\u{e9}"], keys(&table));
    assert_eq!(7, table.len());
    assert_eq!(Some("4"), table.value_at(3).as_str());
}

#[test]
fn table_binds_a_name_once() {
    let mut table = ConfigTable::new();
    table.insert("a".to_string(), text("1"));
    table.insert("b".to_string(), text("2"));
    table.insert("a".to_string(), text("3"));
    assert_eq!(2, table.len());
    assert_eq!(Some("3"), table.get("a").unwrap().as_str());
    assert_eq!(Some("2"), table.get("b").unwrap().as_str());
    assert!(table.get("c").is_none());
    assert!(table.get("").is_none());
}

#[test]
fn empty_table_holds_nothing() {
    let table = ConfigTable::new();
    assert_eq!(0, table.len());
    assert!(table.get("a").is_none());
}

#[test]
fn value_is_read_by_its_kind() {
    let mut table = ConfigTable::new();
    table.insert("a".to_string(), text("1"));
    let section = ConfigValue::Table(table);
    assert!(section.is_table());
    assert!(section.as_table().is_some());
    assert_eq!(None, section.as_str());
    assert_eq!(None, section.as_bool());
    assert_eq!(Some("1"), section.get("a").unwrap().as_str());
    assert!(section.get("b").is_none());
    assert!(!text("x").is_table());
    assert!(text("x").get("a").is_none());
    assert_eq!(Some(true), ConfigValue::Boolean(true).as_bool());
    assert_eq!(None, ConfigValue::Boolean(true).as_str());
}

#[test]
fn copy_is_the_same_document() {
    let value = ConfigValue::parse("a = \"1\"\nn = 5\n[t]\nflag = true\n").unwrap();
    let copy = value.clone();
    assert_eq!(value.to_text(), copy.to_text());
    assert_eq!(Some("1"), copy.get("a").unwrap().as_str());
    assert_eq!(Some(true), copy.get("t").unwrap().get("flag").unwrap().as_bool());
}

#[test]
fn document_is_parsed_into_its_kinds() {
    let value = ConfigValue::parse("s = \"text\"\nflag = false\nn = 5\nlist = [\"a\"]\n[t]\nx = \"y\"\n").unwrap();
    assert_eq!(Some("text"), value.get("s").unwrap().as_str());
    assert_eq!(Some(false), value.get("flag").unwrap().as_bool());
    assert_eq!(Some("y"), value.get("t").unwrap().get("x").unwrap().as_str());
    let number = value.get("n").unwrap();
    assert!(number.as_str().is_none() && number.as_bool().is_none() && !number.is_table());
    assert_eq!(Some("5".to_string()), number.to_text());
    assert_eq!(Some("[\"a\"]".to_string()), value.get("list").unwrap().to_text());
    assert_eq!(vec!["flag", "list", "n", "s", "t"], keys(value.as_table().unwrap()));
}

#[test]
fn document_that_is_no_toml_gives_the_parser_message() {
    let message = ConfigValue::parse("a = ").err().unwrap();
    assert_eq!("a = ".parse::<toml::Value>().err().unwrap().to_string(), message);
    assert_ne!("a = ".to_string(), message);
}

#[test]
fn value_is_written_as_toml() {
    assert_eq!(Some("\"--help\"".to_string()), text("--help").to_text());
    assert_eq!(Some("\"a\\\"b\\\\c\\n\"".to_string()), text("a\"b\\c\n").to_text());
    assert_eq!(Some("true".to_string()), ConfigValue::Boolean(true).to_text());
    let mut table = ConfigTable::new();
    table.insert("b".to_string(), text("2"));
    table.insert("a".to_string(), ConfigValue::Boolean(false));
    assert_eq!(Some("a = false\nb = \"2\"\n".to_string()), ConfigValue::Table(table).to_text());
}

#[test]
fn table_stays_where_the_override_is_none() {
    let mut table = ConfigTable::new();
    table.insert("a".to_string(), text("1"));
    let merged = merge_values(&ConfigValue::Table(table), &text("x"));
    assert_eq!(Some("1"), merged.get("a").unwrap().as_str());
    let merged = merge_values(&text("x"), &ConfigValue::Boolean(true));
    assert_eq!(Some(true), merged.as_bool());
}

#[test]
fn text_is_cut_at_every_space() {
    assert_eq!(vec!["status", "--short"], split_on_space("status --short"));
    assert_eq!(vec!["a", "", "b"], split_on_space("a  b"));
    assert_eq!(vec![""], split_on_space(""));
    assert_eq!(vec!["", ""], split_on_space(" "));
    assert_eq!(vec!["", "a", ""], split_on_space(" a "));
    assert_eq!(vec!["a\tb"], split_on_space("a\tb"));
    assert_eq!(vec!["\u{e9}", "\u{e9}\u{e9}"], split_on_space("\u{e9} \u{e9}\u{e9}"));
}

#[test]
fn text_is_cut_as_std_cuts_it() {
    for sample in ["", " ", "a", "a b", "  a  b  ", "x y z", "\u{4e16} \u{754c}"] {
        let expected: Vec<String> = sample.split(' ').map(|t| t.to_string()).collect();
        assert_eq!(expected, split_on_space(sample));
    }
}

#[test]
fn texts_are_joined_and_appended() {
    assert_eq!("ab", join_texts("a", "b"));
    assert_eq!("b", join_texts("", "b"));
    let mut target = vec!["x".to_string()];
    append_all(&mut target, &["y".to_string(), "z".to_string()]);
    assert_eq!(vec!["x", "y", "z"], target);
}

#[test]
fn document_of_the_date_key_alone_is_no_table() {
    let value = ConfigValue::parse("\"$__toml_private_datetime\" = \"1979-05-27\"\n").unwrap();
    assert!(!value.is_table());
    assert!(value.as_str().is_none() && value.as_bool().is_none());
    assert_eq!(Some("1979-05-27".to_string()), value.to_text());
}

#[test]
fn tables_go_to_toml_and_back() {
    let text = "a = \"1\"\nflag = true\nn = 5\n\n[t]\nx = \"y\"\n\n[t.u]\nz = [1, 2]\n";
    let value = ConfigValue::parse(text).unwrap();
    assert_eq!(Some(text.to_string()), value.to_text());
    let again = ConfigValue::parse(value.to_text().unwrap().as_str()).unwrap();
    assert_eq!(Some("y"), again.get("t").unwrap().get("x").unwrap().as_str());
    assert_eq!(Some("[1, 2]".to_string()), again.get("t").unwrap().get("u").unwrap().get("z").unwrap().to_text());
}

#[test]
fn texts_are_ordered_as_std_orders_them() {
    let samples = ["", "a", "b", "ab", "abc", "B", "a ", "\u{e9}", "z", "\u{4e16}\u{754c}", "\u{1f600}", "a\u{e9}"];
    for a in samples {
        for b in samples {
            assert_eq!(a < b, str_less(a, b));
        }
    }
    assert!(str_less("a", "ab"));
    assert!(!str_less("ab", "a"));
    assert!(!str_less("a", "a"));
    assert!(str_less("Z", "a"));
}
