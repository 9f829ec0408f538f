use clams::config::default_locations;
use clams::console::{answer_matches, is_confirmed};
use clams::fs::{file_name, join_path, last_line};
use clams::logging::{context_prefix, log_line, Level, ModLevel};
use clams::text::decimal_string;

#[test]
fn default_locations_okay() {
    let res = default_locations(Some("/home/someone"), "my_config.toml");
    let expected = vec![
        "/home/someone/.my_config.toml".to_string(),
        "/etc/my_config.toml".to_string(),
    ];
    assert_eq!(res, expected);
}

#[test]
fn default_locations_without_home() {
    assert_eq!(default_locations(None, "my_config.toml"), vec!["/etc/my_config.toml".to_string()]);
    assert_eq!(
        default_locations(Some("/root/"), "c.toml"),
        vec!["/root/.c.toml".to_string(), "/etc/c.toml".to_string()]
    );
}

#[test]
fn ask_for_yes_from_okay() {
    assert!(is_confirmed("yes", "yes"));
}

#[test]
fn ask_for_yes_reader_quick() {
    let samples = [
        "", "y", "ye", "no", "n", "YES", "Yes", "yeS", " ye", "es", "x", "\u{e9}", "ys", "\n", "  ",
    ];
    for x in samples.iter() {
        assert!(x.len() <= 3 && *x != "yes");
        assert!(!is_confirmed(x, "yes"));
    }
}

#[test]
fn confirmation_ignores_surrounding_whitespace_only() {
    assert!(is_confirmed("  yes\n", "yes"));
    assert!(is_confirmed("yes\r\n", "yes"));
    assert!(!is_confirmed("y e s", "yes"));
    assert!(answer_matches("yes", "yes"));
    assert!(!answer_matches(" yes", "yes"));
}

#[test]
fn file_name_is_last_segment() {
    assert_eq!(file_name("/a/b/c.avi"), Some("c.avi".to_string()));
    assert_eq!(file_name("c.avi"), Some("c.avi".to_string()));
    assert_eq!(file_name("/a/b/"), None);
    assert_eq!(file_name("/"), None);
    assert_eq!(file_name(".."), None);
    assert_eq!(file_name("a/.hidden"), Some(".hidden".to_string()));
}

#[test]
fn join_adds_one_separator() {
    assert_eq!(join_path("/tmp", "x"), "/tmp/x");
    assert_eq!(join_path("/tmp/", "x"), "/tmp/x");
    assert_eq!(join_path("", "x"), "x");
    assert_eq!(join_path("/tmp", "/etc/x"), "/etc/x");
}

#[test]
fn last_line_of_text() {
    assert_eq!(last_line("first\nsecond\n-- Marcus Marcus Aurelius\n"), "-- Marcus Marcus Aurelius");
    assert_eq!(last_line("a\r\nb\r\n"), "b");
    assert_eq!(last_line("only"), "only");
    assert_eq!(last_line(""), "");
    assert_eq!(last_line("a\n\n"), "");
}

#[test]
fn verbosity_selects_level() {
    assert_eq!(Level::from(0u64), Level::Warn);
    assert_eq!(Level::from(1u64), Level::Info);
    assert_eq!(Level::from(2u64), Level::Debug);
    assert_eq!(Level::from(3u64), Level::Trace);
    assert_eq!(Level::from(17u64), Level::Trace);
    assert!(Level::Warn < Level::Trace);
    assert!(Level::Off < Level::Error);
}

#[test]
fn module_level_holds_its_fields() {
    let m = ModLevel { module: "hyper".to_string(), level: Level::Error };
    assert_eq!(m.module, "hyper");
    assert_eq!(m.level, Level::Error);
}

#[test]
fn context_prefix_text() {
    assert_eq!(context_prefix(&Some("job 1".to_string())), "[Context: job 1] ");
    assert_eq!(context_prefix(&None), "");
}

#[test]
fn log_line_lines_up_targets() {
    assert_eq!(log_line("", "WARN", 4, "app", "hello"), "WARN  app: hello");
    assert_eq!(log_line("[Context: c] ", "ERROR", 5, "app", "x"), "[Context: c] ERROR app: x");
    assert_eq!(log_line("", "LONGER", 6, "t", "m"), "LONGER t: m");
    assert_eq!(log_line("", "\u{1b}[32mINFO\u{1b}[0m", 4, "t", "m"), "\u{1b}[32mINFO\u{1b}[0m  t: m");
}

#[test]
fn decimal_rendering() {
    assert_eq!(decimal_string(0), "0");
    assert_eq!(decimal_string(9), "9");
    assert_eq!(decimal_string(10), "10");
    assert_eq!(decimal_string(u64::MAX), "18446744073709551615");
}
