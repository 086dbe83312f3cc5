use gredit::config::Config;

fn args(items: &[&str]) -> Vec<String> {
    items.iter().map(|s| s.to_string()).collect()
}

#[test]
fn config_reads_pattern_then_file() {
    let c = Config::new(args(&["gredit", "fn main", "src/main.rs"])).unwrap();
    assert_eq!(c.pattern, "fn main");
    assert_eq!(c.file_path, "src/main.rs");
}

#[test]
fn config_ignores_extra_arguments() {
    let c = Config::new(args(&["gredit", "x", "f.txt", "more", "args"])).unwrap();
    assert_eq!(c.pattern, "x");
    assert_eq!(c.file_path, "f.txt");
}

#[test]
fn config_without_pattern_is_refused() {
    match Config::new(args(&["gredit"])) {
        Err(e) => assert_eq!(e, "No pattern provided"),
        Ok(_) => panic!("a configuration without a pattern was accepted"),
    }
}

#[test]
fn config_without_file_is_refused() {
    match Config::new(args(&["gredit", "pattern"])) {
        Err(e) => assert_eq!(e, "No filename provided"),
        Ok(_) => panic!("a configuration without a file was accepted"),
    }
}
