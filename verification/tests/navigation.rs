use gredit::app::{Action, App, Input, KeyCode, Modifiers};
use gredit::highlight::{Region, Rgb};
use gredit::searcher::{FileResult, Match};

fn m(line_nr: u64, text: &str) -> Match {
    Match { match_str: text.to_string(), line_nr }
}

fn results() -> Vec<FileResult> {
    vec![
        FileResult { file_path: "a.rs".to_string(), matches: vec![m(2, "x\n"), m(5, "y\n")] },
        FileResult { file_path: "b.rs".to_string(), matches: vec![m(1, "z\n")] },
    ]
}

fn file(n: usize) -> Vec<Vec<Region>> {
    (0..n)
        .map(|i| {
            vec![
                Region { fg: Rgb { r: 1, g: 2, b: 3 }, text: format!("line {}", i + 1) },
                Region { fg: Rgb { r: 4, g: 5, b: 6 }, text: "\n".to_string() },
            ]
        })
        .collect()
}

fn key(code: KeyCode) -> Input {
    Input::Key { code, modifiers: Modifiers::Empty }
}

fn loc(app: &App) -> (usize, usize, usize) {
    (app.result_idx(), app.result_match_idx(), app.selected())
}

#[test]
fn list_has_file_entries_and_match_entries() {
    let app = App::new(results(), vec![file(3), file(2)]);
    assert_eq!(app.list_items(), &vec!["a.rs", "2: x\n", "5: y\n", "b.rs", "1: z\n"]);
}

#[test]
fn new_app_selects_first_match() {
    let app = App::new(results(), vec![file(3), file(2)]);
    assert_eq!(loc(&app), (0, 0, 1));
    assert_eq!(app.list_items()[app.selected()], "2: x\n");
}

#[test]
fn down_walks_matches_and_skips_file_entries() {
    let mut app = App::new(results(), vec![file(3), file(2)]);
    app.down();
    assert_eq!(loc(&app), (0, 1, 2));
    app.down();
    assert_eq!(loc(&app), (1, 0, 4));
    assert_eq!(app.list_items()[app.selected()], "1: z\n");
    app.down();
    assert_eq!(loc(&app), (1, 0, 4));
}

#[test]
fn up_walks_back_and_stops_at_first_match() {
    let mut app = App::new(results(), vec![file(3), file(2)]);
    app.down();
    app.down();
    app.up();
    assert_eq!(loc(&app), (0, 1, 2));
    app.up();
    assert_eq!(loc(&app), (0, 0, 1));
    app.up();
    assert_eq!(loc(&app), (0, 0, 1));
}

#[test]
fn up_undoes_down_and_down_undoes_up() {
    let mut app = App::new(results(), vec![file(3), file(2)]);
    app.down();
    let before = loc(&app);
    app.down();
    app.up();
    assert_eq!(loc(&app), before);
    app.up();
    app.down();
    assert_eq!(loc(&app), before);
}

#[test]
fn current_location_follows_selection() {
    let mut app = App::new(results(), vec![file(3), file(2)]);
    assert_eq!(app.curr_file_location().file_path, "a.rs");
    assert_eq!(app.line_nr(), 2);
    app.down();
    app.down();
    let l = app.curr_file_location();
    assert_eq!(l.file_path, "b.rs");
    assert_eq!(l.line_nr, 1);
}

#[test]
fn keys_move_and_decide() {
    let mut app = App::new(results(), vec![file(3), file(2)]);
    assert_eq!(app.handle_input(key(KeyCode::Char('j'))), Action::Redraw);
    assert_eq!(loc(&app), (0, 1, 2));
    assert_eq!(app.handle_input(key(KeyCode::Down)), Action::Redraw);
    assert_eq!(loc(&app), (1, 0, 4));
    assert_eq!(app.handle_input(key(KeyCode::Char('k'))), Action::Redraw);
    assert_eq!(loc(&app), (0, 1, 2));
    assert_eq!(app.handle_input(key(KeyCode::Up)), Action::Redraw);
    assert_eq!(loc(&app), (0, 0, 1));
}

#[test]
fn keys_that_do_not_move() {
    let mut app = App::new(results(), vec![file(3), file(2)]);
    assert_eq!(app.handle_input(key(KeyCode::Enter)), Action::OpenFile);
    assert_eq!(app.handle_input(key(KeyCode::Char('q'))), Action::Quit);
    assert_eq!(app.handle_input(key(KeyCode::Char('x'))), Action::Redraw);
    assert_eq!(app.handle_input(key(KeyCode::Other)), Action::Redraw);
    assert_eq!(app.handle_input(Input::Resize), Action::Redraw);
    assert_eq!(app.handle_input(Input::Other), Action::Ignore);
    assert_eq!(loc(&app), (0, 0, 1));
}

#[test]
fn modifiers_quit_or_ignore() {
    let mut app = App::new(results(), vec![file(3), file(2)]);
    let ctrl_j = Input::Key { code: KeyCode::Char('j'), modifiers: Modifiers::Control };
    assert_eq!(app.handle_input(ctrl_j), Action::Quit);
    let shift_j = Input::Key { code: KeyCode::Char('j'), modifiers: Modifiers::Other };
    assert_eq!(app.handle_input(shift_j), Action::Ignore);
    assert_eq!(loc(&app), (0, 0, 1));
}

#[test]
fn styled_file_marks_current_line() {
    let app = App::new(results(), vec![file(3), file(2)]);
    let lines = app.make_styled();
    assert_eq!(lines.len(), 3);
    for (i, line) in lines.iter().enumerate() {
        assert_eq!(line.len(), 2);
        assert_eq!(line[0].fg, Rgb { r: 1, g: 2, b: 3 });
        assert_eq!(line[0].text, format!("line {}", i + 1));
        assert_eq!(line[1].fg, Rgb { r: 4, g: 5, b: 6 });
        let expected = if i == 1 { Some(Rgb { r: 23, g: 30, b: 102 }) } else { None };
        assert_eq!(line[0].bg, expected);
        assert_eq!(line[1].bg, expected);
    }
}

#[test]
fn window_near_start_of_file() {
    let app = App::new(results(), vec![file(3), file(2)]);
    assert_eq!(app.visible_window(), (0, 3));
    assert_eq!(app.visible_lines().len(), 3);
}

#[test]
fn window_in_middle_of_file() {
    let items = vec![FileResult { file_path: "c".to_string(), matches: vec![m(15, "q\n")] }];
    let app = App::new(items, vec![file(40)]);
    assert_eq!(app.visible_window(), (5, 35));
    let lines = app.visible_lines();
    assert_eq!(lines.len(), 30);
    assert_eq!(lines[0][0].text, "line 6");
    assert_eq!(lines[9][0].bg, Some(Rgb { r: 23, g: 30, b: 102 }));
    assert_eq!(lines[10][0].bg, None);
}

#[test]
fn window_near_end_of_file() {
    let items = vec![FileResult { file_path: "c".to_string(), matches: vec![m(30, "q\n")] }];
    let app = App::new(items, vec![file(32)]);
    assert_eq!(app.visible_window(), (20, 32));
}

#[test]
fn shown_file_follows_current_match() {
    let first = file(3);
    let mut second = file(2);
    second[0][0].text = "other file".to_string();
    let mut app = App::new(results(), vec![first, second]);
    assert_eq!(app.file_line_count(), 3);
    app.down();
    app.down();
    assert_eq!(app.file_line_count(), 2);
    let lines = app.make_styled();
    assert_eq!(lines.len(), 2);
    assert_eq!(lines[0][0].text, "other file");
    assert_eq!(lines[0][0].bg, Some(Rgb { r: 23, g: 30, b: 102 }));
    assert_eq!(lines[1][0].bg, None);
    app.up();
    assert_eq!(app.file_line_count(), 3);
    assert_eq!(app.make_styled()[0][0].text, "line 1");
}
