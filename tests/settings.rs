use yarp::config::{Alias, Builtin, ConfigError, LogConfig, LogField, YamlConfiguration};
use yarp::layout::columnize_text;

fn strings(v: &[&str]) -> Vec<String> {
    v.iter().map(|s| s.to_string()).collect()
}

#[test]
fn defaults() {
    let c = YamlConfiguration::default_config();
    assert!(c.logs_configurations.write_to_file);
    assert!(!c.logs_configurations.write_to_stdout);
    assert!(c.terminal_config.alias.is_empty());
}

#[test]
fn default_trait_matches_defaults() {
    let c: YamlConfiguration = Default::default();
    assert!(c.logs_configurations.write_to_file);
    assert!(!c.logs_configurations.write_to_stdout);
    assert!(c.terminal_config.alias.is_empty());
}

#[test]
fn set_alias_adds_and_replaces() {
    let mut a = Alias::new(YamlConfiguration::default_config());
    a.set_alias("ls", "l");
    a.set_alias("grep", "g");
    a.set_alias("ls", "ll");
    let pairs = &a.config.terminal_config.alias;
    assert_eq!(pairs.len(), 2);
    assert_eq!(pairs[0], (String::from("ls"), String::from("ll")));
    assert_eq!(pairs[1], (String::from("grep"), String::from("g")));
}

#[test]
fn alias_uniqueness_check() {
    let mut c = YamlConfiguration::default_config();
    assert!(c.aliases_unique());
    c.terminal_config.alias.push((String::from("ls"), String::from("l")));
    c.terminal_config.alias.push((String::from("cat"), String::from("c")));
    assert!(c.aliases_unique());
    c.terminal_config.alias.push((String::from("ls"), String::from("ll")));
    assert!(!c.aliases_unique());
}

#[test]
fn config_field_lookup() {
    assert_eq!(Builtin::config_field("logs_configurations", "write_to_file"), Ok(LogField::WriteToFile));
    assert_eq!(Builtin::config_field("logs_configurations", "write_to_stdout"), Ok(LogField::WriteToStdout));
    assert_eq!(Builtin::config_field("logs_configurations", "colour"), Err(ConfigError::NoSuchField));
    assert_eq!(Builtin::config_field("other", "write_to_file"), Err(ConfigError::NoSuchSection));
}

#[test]
fn flags_parse_exactly() {
    assert_eq!(Builtin::parse_flag("true"), Ok(true));
    assert_eq!(Builtin::parse_flag("false"), Ok(false));
    assert_eq!(Builtin::parse_flag("True"), Err(ConfigError::NotAFlag));
    assert_eq!(Builtin::parse_flag(""), Err(ConfigError::NotAFlag));
}

#[test]
fn config_set_changes_one_setting() {
    let mut lc = LogConfig { write_to_file: true, write_to_stdout: false };
    assert_eq!(Builtin::config_set(&mut lc, "logs_configurations", "write_to_stdout", "true"), Ok(()));
    assert_eq!(lc, LogConfig { write_to_file: true, write_to_stdout: true });
    assert_eq!(Builtin::config_set(&mut lc, "logs_configurations", "write_to_file", "false"), Ok(()));
    assert_eq!(lc, LogConfig { write_to_file: false, write_to_stdout: true });
    assert_eq!(lc.get(LogField::WriteToStdout), true);
    assert_eq!(lc.get(LogField::WriteToFile), false);
}

#[test]
fn config_set_errors_leave_settings() {
    let mut lc = LogConfig { write_to_file: true, write_to_stdout: false };
    assert_eq!(
        Builtin::config_set(&mut lc, "logs_configurations", "write_to_file", "yes"),
        Err(ConfigError::NotAFlag)
    );
    assert_eq!(Builtin::config_set(&mut lc, "logs", "write_to_file", "false"), Err(ConfigError::NoSuchSection));
    assert_eq!(
        Builtin::config_set(&mut lc, "logs_configurations", "nope", "false"),
        Err(ConfigError::NoSuchField)
    );
    assert_eq!(lc, LogConfig { write_to_file: true, write_to_stdout: false });
}

#[test]
fn columns_fill_top_to_bottom() {
    let items = strings(&["a", "bb", "c", "dd", "e"]);
    // cells are 4 wide; 10 columns of width give 2 columns and 3 rows
    let lines = columnize_text(&items, Some(10));
    assert_eq!(lines, strings(&["a   dd  ", "bb  e   ", "c   "]));
}

#[test]
fn columns_without_width_list_items() {
    let items = strings(&["x", "y"]);
    assert_eq!(columnize_text(&items, None), items);
}

#[test]
fn narrow_terminal_gets_one_column() {
    let items = strings(&["alpha", "b"]);
    assert_eq!(columnize_text(&items, Some(3)), strings(&["alpha  ", "b      "]));
}

#[test]
fn no_items_no_lines() {
    assert_eq!(columnize_text(&Vec::new(), Some(80)), Vec::<String>::new());
}
