use gredit::highlight::{collect_highlighted, highlight_file, HighlightError, Highlighter, Region, Rgb};
use syntect::highlighting::ThemeSet;
use syntect::parsing::SyntaxSet;

fn highlight(ext: &str, text: &str) -> Vec<Vec<Region>> {
    let ss = SyntaxSet::load_defaults_newlines();
    let ts = ThemeSet::load_defaults();
    let name = ss.find_syntax_by_extension(ext).unwrap().name.clone();
    let mut h = Highlighter::new(&ss, &name, &ts.themes["base16-ocean.dark"]).unwrap();
    highlight_file(&mut h, text).unwrap()
}

fn line_text(line: &[Region]) -> String {
    line.iter().map(|r| r.text.as_str()).collect()
}

fn region(text: &str) -> Region {
    Region { fg: Rgb { r: 9, g: 8, b: 7 }, text: text.to_string() }
}

#[test]
fn highlighting_keeps_every_line() {
    let text = "fn main() {\n    let x = 1;\n}\n";
    let lines = highlight("rs", text);
    assert_eq!(lines.len(), 3);
    assert_eq!(line_text(&lines[0]), "fn main() {\n");
    assert_eq!(line_text(&lines[1]), "    let x = 1;\n");
    assert_eq!(line_text(&lines[2]), "}\n");
}

#[test]
fn highlighting_gives_back_the_text() {
    let text = "def a():\n    return 1\n# done";
    let lines = highlight("py", text);
    let joined: String = lines.iter().map(|l| line_text(l)).collect();
    assert_eq!(joined, text);
}

#[test]
fn highlighting_splits_rust_keywords_into_regions() {
    let lines = highlight("rs", "fn main() {}\n");
    assert!(lines[0].len() > 1);
}

#[test]
fn highlighting_empty_text_gives_no_lines() {
    assert!(highlight("txt", "").is_empty());
}

#[test]
fn highlighter_needs_a_known_syntax() {
    let ss = SyntaxSet::load_defaults_newlines();
    let ts = ThemeSet::load_defaults();
    assert!(Highlighter::new(&ss, "No Such Syntax", &ts.themes["base16-ocean.dark"]).is_none());
    assert!(Highlighter::new(&ss, "Plain Text", &ts.themes["base16-ocean.dark"]).is_some());
}

#[test]
fn default_syntax_names_are_unique() {
    let ss = SyntaxSet::load_defaults_newlines();
    for syntax in ss.syntaxes() {
        let found = ss.find_syntax_by_name(&syntax.name).unwrap();
        assert!(std::ptr::eq(found, syntax));
    }
}

#[test]
fn collect_gives_lines_when_all_succeeded() {
    let res = collect_highlighted(vec![Ok(vec![region("a"), region("b\n")]), Ok(vec![region("c")])]);
    let lines = res.unwrap();
    assert_eq!(lines.len(), 2);
    assert_eq!(line_text(&lines[0]), "ab\n");
    assert_eq!(line_text(&lines[1]), "c");
}

#[test]
fn collect_gives_first_failure() {
    let res = collect_highlighted(vec![Ok(vec![region("a\n")]), Err(HighlightError::Parse)]);
    assert!(matches!(res, Err(HighlightError::Parse)));
}

#[test]
fn collect_of_nothing_is_no_lines() {
    assert!(collect_highlighted(Vec::new()).unwrap().is_empty());
}

#[test]
fn highlighter_exists_for_every_syntax_of_the_set() {
    let ss = SyntaxSet::load_defaults_newlines();
    let ts = ThemeSet::load_defaults();
    for syntax in ss.syntaxes() {
        assert!(Highlighter::new(&ss, &syntax.name, &ts.themes["base16-ocean.dark"]).is_some());
    }
}
