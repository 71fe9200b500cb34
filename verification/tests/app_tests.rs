use tracktui::{App, ConfirmChoice, Decimal, InputField, InputMode, Intent, Point, Status, StoreError, ViewMode};

fn keys(app: &mut App, text: &str) {
    for c in text.chars() {
        app.handle_intent(Intent::Char(c));
    }
}

fn insert(app: &mut App, x: &str, y: &str) {
    assert_eq!(app.mode(), ViewMode::Graph);
    app.handle_intent(Intent::Char('i'));
    keys(app, x);
    app.handle_intent(Intent::Cycle);
    keys(app, y);
    app.handle_intent(Intent::Commit);
}

fn pt(x: i64, y: i64) -> Point {
    Point { x: Decimal { units: x * 10_000 }, y: Decimal { units: y * 10_000 } }
}

fn app_with_rows(n: i64) -> App {
    let mut app = App::new();
    for i in 0..n {
        insert(&mut app, &i.to_string(), &(i * 2).to_string());
    }
    assert_eq!(app.active_series().len() as i64, n);
    app.handle_intent(Intent::Char('t'));
    app
}

#[test]
fn a_new_app_shows_the_graph_of_the_default_series() {
    let app = App::new();
    assert_eq!(app.mode(), ViewMode::Graph);
    assert_eq!(app.input_mode(), InputMode::Normal);
    assert_eq!(app.selected_row(), None);
    assert!(!app.confirm().pending);
    assert!(!app.should_exit());
    assert!(app.status().is_idle());
    assert_eq!(app.store().len(), 1);
    assert_eq!(app.active_series().name(), "Graph");
    assert!(app.active_series().is_empty());
}

#[test]
fn mode_keys_switch_between_the_views() {
    let mut app = App::new();
    for (from_keys, key, to) in [
        ("", 'h', ViewMode::Help),
        ("", 'm', ViewMode::Menu),
        ("", 't', ViewMode::Table),
        ("t", 'g', ViewMode::Graph),
        ("t", 'm', ViewMode::Menu),
        ("t", 'h', ViewMode::Help),
        ("h", 'g', ViewMode::Graph),
        ("h", 'm', ViewMode::Menu),
        ("h", 't', ViewMode::Table),
        ("m", 'g', ViewMode::Graph),
        ("m", 't', ViewMode::Table),
        ("m", 'h', ViewMode::Help),
    ] {
        app = App::new();
        keys(&mut app, from_keys);
        app.handle_intent(Intent::Char(key));
        assert_eq!(app.mode(), to, "{:?} then {:?}", from_keys, key);
        assert!(!app.should_exit());
    }
    assert!(!app.should_exit());
}

#[test]
fn escape_leads_to_the_menu_and_stays_there() {
    for from in ["", "t", "h"] {
        let mut app = App::new();
        keys(&mut app, from);
        app.handle_intent(Intent::Escape);
        assert_eq!(app.mode(), ViewMode::Menu);
        app.handle_intent(Intent::Escape);
        assert_eq!(app.mode(), ViewMode::Menu);
    }
}

#[test]
fn quit_sets_the_exit_flag_in_every_view() {
    for from in ["", "t", "h", "m"] {
        let mut app = App::new();
        keys(&mut app, from);
        let mode = app.mode();
        app.handle_intent(Intent::Char('q'));
        assert!(app.should_exit());
        assert_eq!(app.mode(), mode);
    }
}

#[test]
fn unmapped_keys_change_nothing() {
    let mut app = App::new();
    for intent in [Intent::Other, Intent::Char('x'), Intent::Up, Intent::Left, Intent::Backspace, Intent::Commit, Intent::Cycle] {
        app.handle_intent(intent);
        assert_eq!(app.mode(), ViewMode::Graph);
        assert_eq!(app.input_mode(), InputMode::Normal);
        assert!(!app.should_exit());
        assert!(app.active_series().is_empty());
    }
    keys(&mut app, "m");
    for intent in [Intent::Other, Intent::Char('m'), Intent::Char('i'), Intent::Down, Intent::Commit] {
        app.handle_intent(intent);
        assert_eq!(app.mode(), ViewMode::Menu);
    }
}

#[test]
fn start_insert_clears_the_fields_and_the_status() {
    let mut app = App::new();
    insert(&mut app, "1", "x");
    assert_eq!(app.status().text(), "Error: enter valid numbers for x and y");
    app.handle_intent(Intent::Escape);
    app.handle_intent(Intent::Char('i'));
    assert_eq!(app.input_mode(), InputMode::Insert);
    assert_eq!(app.input().active_field(), InputField::X);
    assert_eq!(app.input().x_text(), "");
    assert_eq!(app.input().y_text(), "");
    assert!(app.status().is_idle());
}

#[test]
fn typing_fills_the_active_field() {
    let mut app = App::new();
    app.handle_intent(Intent::Char('i'));
    keys(&mut app, "q1h2.t-345");
    assert_eq!(app.input().x_text(), "12.-3");
    assert_eq!(app.mode(), ViewMode::Graph);
    assert!(!app.should_exit());
    app.handle_intent(Intent::Right);
    keys(&mut app, "7");
    app.handle_intent(Intent::Left);
    app.handle_intent(Intent::Backspace);
    assert_eq!(app.input().x_text(), "12.-");
    assert_eq!(app.input().y_text(), "7");
    app.handle_intent(Intent::Cycle);
    assert_eq!(app.input().active_field(), InputField::Y);
    app.handle_intent(Intent::Backspace);
    app.handle_intent(Intent::Backspace);
    assert_eq!(app.input().y_text(), "");
}

#[test]
fn commit_inserts_the_point_and_reports_it() {
    let mut app = App::new();
    insert(&mut app, "3", "4.5");
    assert_eq!(app.input_mode(), InputMode::Normal);
    assert_eq!(app.input().x_text(), "");
    assert_eq!(app.input().y_text(), "");
    assert_eq!(app.status().text(), "Inserted point (3.00, 4.50)");
    insert(&mut app, "-1.5", ".125");
    assert_eq!(app.status().text(), "Inserted point (-1.50, 0.13)");
    assert_eq!(
        app.active_series().data(),
        &vec![
            Point { x: Decimal { units: -15_000 }, y: Decimal { units: 1_250 } },
            Point { x: Decimal { units: 30_000 }, y: Decimal { units: 45_000 } },
        ]
    );
}

#[test]
fn commit_with_a_bad_field_changes_only_the_status() {
    for (x, y) in [("", ""), ("1", ""), ("", "2"), ("-", "2"), ("1", "."), ("1.2.3", "4"), ("1", "2-"), ("--", "1")] {
        let mut app = App::new();
        insert(&mut app, "8", "9");
        insert(&mut app, x, y);
        assert_eq!(app.input_mode(), InputMode::Insert, "{:?} {:?}", x, y);
        assert_eq!(app.mode(), ViewMode::Graph);
        assert_eq!(app.input().x_text(), x);
        assert_eq!(app.input().y_text(), y);
        assert_eq!(app.input().active_field(), InputField::Y);
        assert_eq!(app.status().text(), "Error: enter valid numbers for x and y");
        assert_eq!(app.active_series().data(), &vec![pt(8, 9)]);
        assert_eq!(app.store().len(), 1);
    }
}

#[test]
fn cancel_leaves_insert_mode_and_clears_fields_and_status() {
    let mut app = App::new();
    insert(&mut app, "1", "");
    app.handle_intent(Intent::Escape);
    assert_eq!(app.input_mode(), InputMode::Normal);
    assert_eq!(app.mode(), ViewMode::Graph);
    assert_eq!(app.input().x_text(), "");
    assert_eq!(app.input().y_text(), "");
    assert!(app.status().is_idle());
    assert_eq!(app.status().text(), "");
    assert!(app.active_series().is_empty());
}

#[test]
fn navigation_wraps_around() {
    let mut app = app_with_rows(3);
    assert_eq!(app.selected_row(), None);
    app.handle_intent(Intent::Up);
    assert_eq!(app.selected_row(), Some(0));
    app.handle_intent(Intent::Up);
    assert_eq!(app.selected_row(), Some(2));
    app.handle_intent(Intent::Up);
    assert_eq!(app.selected_row(), Some(1));
    app.handle_intent(Intent::Up);
    assert_eq!(app.selected_row(), Some(0));
    app.handle_intent(Intent::Down);
    assert_eq!(app.selected_row(), Some(1));
    app.handle_intent(Intent::Char('j'));
    assert_eq!(app.selected_row(), Some(2));
    app.handle_intent(Intent::Down);
    assert_eq!(app.selected_row(), Some(0));
    app.handle_intent(Intent::Char('k'));
    assert_eq!(app.selected_row(), Some(2));
}

#[test]
fn select_next_and_previous_move_by_one() {
    let mut app = app_with_rows(2);
    app.select_next();
    assert_eq!(app.selected_row(), Some(0));
    app.select_next();
    assert_eq!(app.selected_row(), Some(1));
    app.select_next();
    assert_eq!(app.selected_row(), Some(0));
    app.select_previous();
    assert_eq!(app.selected_row(), Some(1));
}

#[test]
fn navigation_in_an_empty_series_does_nothing() {
    let mut app = app_with_rows(0);
    for intent in [Intent::Up, Intent::Down, Intent::Char('j'), Intent::Char('k')] {
        app.handle_intent(intent);
        assert_eq!(app.selected_row(), None);
    }
}

#[test]
fn delete_needs_a_selected_row() {
    let mut app = app_with_rows(2);
    app.handle_intent(Intent::Char('d'));
    assert!(!app.confirm().pending);
    app.handle_intent(Intent::Down);
    app.handle_intent(Intent::Char('d'));
    assert!(app.confirm().pending);
    assert_eq!(app.confirm().choice, ConfirmChoice::Delete);
}

#[test]
fn confirming_delete_removes_the_selected_row() {
    let mut app = app_with_rows(3);
    app.handle_intent(Intent::Down);
    app.handle_intent(Intent::Down);
    app.handle_intent(Intent::Char('d'));
    app.handle_intent(Intent::Commit);
    assert!(!app.confirm().pending);
    assert_eq!(app.active_series().data(), &vec![pt(0, 0), pt(2, 4)]);
    assert_eq!(app.selected_row(), Some(1));
    app.handle_intent(Intent::Char('d'));
    app.handle_intent(Intent::Commit);
    assert_eq!(app.active_series().data(), &vec![pt(0, 0)]);
    assert_eq!(app.selected_row(), Some(0));
}

#[test]
fn cancelled_delete_keeps_the_store() {
    for to_cancel in [Intent::Cycle, Intent::Right] {
        let mut app = app_with_rows(3);
        app.handle_intent(Intent::Down);
        app.handle_intent(Intent::Char('d'));
        app.handle_intent(to_cancel);
        assert_eq!(app.confirm().choice, ConfirmChoice::Cancel);
        app.handle_intent(Intent::Commit);
        assert!(!app.confirm().pending);
        assert_eq!(app.active_series().data(), &vec![pt(0, 0), pt(1, 2), pt(2, 4)]);
        assert_eq!(app.selected_row(), Some(0));
        assert_eq!(app.mode(), ViewMode::Table);
    }
}

#[test]
fn escape_leaves_the_confirmation_without_deleting() {
    let mut app = app_with_rows(2);
    app.handle_intent(Intent::Down);
    app.handle_intent(Intent::Char('d'));
    app.handle_intent(Intent::Escape);
    assert!(!app.confirm().pending);
    assert_eq!(app.mode(), ViewMode::Table);
    assert_eq!(app.active_series().len(), 2);
}

#[test]
fn the_confirmation_takes_no_other_keys() {
    let mut app = app_with_rows(2);
    app.handle_intent(Intent::Down);
    app.handle_intent(Intent::Char('d'));
    for intent in [Intent::Char('q'), Intent::Char('g'), Intent::Char('m'), Intent::Up, Intent::Down, Intent::Other] {
        app.handle_intent(intent);
        assert!(app.confirm().pending);
        assert_eq!(app.mode(), ViewMode::Table);
        assert!(!app.should_exit());
        assert_eq!(app.selected_row(), Some(0));
    }
    app.handle_intent(Intent::Right);
    assert_eq!(app.confirm().choice, ConfirmChoice::Cancel);
    app.handle_intent(Intent::Right);
    assert_eq!(app.confirm().choice, ConfirmChoice::Cancel);
    app.handle_intent(Intent::Left);
    assert_eq!(app.confirm().choice, ConfirmChoice::Delete);
    app.handle_intent(Intent::Cycle);
    assert_eq!(app.confirm().choice, ConfirmChoice::Cancel);
    app.cycle_confirm_idx();
    assert_eq!(app.confirm().choice, ConfirmChoice::Delete);
}

#[test]
fn a_new_request_highlights_delete_again() {
    let mut app = app_with_rows(2);
    app.handle_intent(Intent::Down);
    app.handle_intent(Intent::Char('d'));
    app.handle_intent(Intent::Right);
    app.handle_intent(Intent::Commit);
    app.handle_intent(Intent::Char('d'));
    assert_eq!(app.confirm().choice, ConfirmChoice::Delete);
}

#[test]
fn deleting_the_only_point_leaves_nothing_to_navigate() {
    let mut app = app_with_rows(1);
    app.handle_intent(Intent::Down);
    app.handle_intent(Intent::Char('d'));
    app.handle_intent(Intent::Commit);
    assert!(app.active_series().is_empty());
    assert_eq!(app.selected_row(), None);
    for intent in [Intent::Up, Intent::Down, Intent::Char('j'), Intent::Char('k')] {
        app.handle_intent(intent);
        assert_eq!(app.selected_row(), None);
    }
    app.handle_intent(Intent::Char('d'));
    assert!(!app.confirm().pending);
    let one = Decimal { units: 10_000 };
    assert_eq!(app.active_series().get_bounds(), (one, one));
    assert_eq!(app.store().bounds(0), Ok((one, one)));
}

#[test]
fn startup_without_a_readable_file_falls_back_to_the_default_series() {
    let app = App::startup(Err("No such file or directory (os error 2)".to_string()));
    assert_eq!(app.store().len(), 1);
    assert_eq!(app.active_series().name(), "Graph");
    assert!(app.active_series().is_empty());
    assert_eq!(app.status().text(), "Could not load data.csv: No such file or directory (os error 2)");
    assert!(matches!(app.status(), Status::LoadFailed(_)));
    assert_eq!(app.mode(), ViewMode::Graph);
    assert!(!app.should_exit());
}

#[test]
fn startup_loads_what_the_file_holds() {
    let app = App::startup(Ok(b"name,x,y\nA,3,4\nB,0,0\nA,1,2\n".to_vec()));
    assert!(app.status().is_idle());
    assert_eq!(app.store().len(), 2);
    assert_eq!(app.store().selected_index(), 0);
    assert_eq!(app.active_series().name(), "A");
    assert_eq!(app.active_series().data(), &vec![pt(1, 2), pt(3, 4)]);
    assert_eq!(app.store().get(1).unwrap().data(), &vec![pt(0, 0)]);
}

#[test]
fn startup_with_an_empty_table_has_the_default_series() {
    for bytes in [&b""[..], &b"name,x,y\n"[..]] {
        let app = App::startup(Ok(bytes.to_vec()));
        assert!(app.status().is_idle());
        assert_eq!(app.store().len(), 1);
        assert_eq!(app.active_series().name(), "Graph");
        assert!(app.active_series().is_empty());
    }
}

#[test]
fn startup_with_a_bad_row_falls_back_and_reports_it() {
    let app = App::startup(Ok(b"name,x,y\nA,1,2\nA,one,2\n".to_vec()));
    assert_eq!(app.status().text(), "Could not load data.csv: Invalid x");
    assert_eq!(app.store().len(), 1);
    assert_eq!(app.active_series().name(), "Graph");
    assert!(app.active_series().is_empty());
    let app = App::startup(Ok(b"name,x,y\nA,1\n".to_vec()));
    assert!(matches!(app.status(), Status::LoadFailed(_)));
    assert!(app.active_series().is_empty());
}

#[test]
fn save_failed_sets_the_status_only() {
    let mut app = app_with_rows(2);
    app.save_failed("Permission denied".to_string());
    assert_eq!(app.status().text(), "Could not write to data.csv (Press any key to exit): Permission denied");
    assert_eq!(app.mode(), ViewMode::Table);
    assert_eq!(app.active_series().len(), 2);
}

#[test]
fn save_writes_the_table_of_the_store() {
    let mut app = App::new();
    insert(&mut app, "3", "4");
    insert(&mut app, "1", "2.5");
    assert_eq!(app.save(), Ok(b"name,x,y\nGraph,1,2.5\nGraph,3,4\n".to_vec()));
}

#[test]
fn selecting_a_series_drops_the_row_selection() {
    let mut app = app_with_rows(2);
    app.add_series("other".to_string());
    assert_eq!(app.store().len(), 2);
    app.handle_intent(Intent::Down);
    app.handle_intent(Intent::Char('d'));
    assert_eq!(app.select_series(2), Err(StoreError::IndexOutOfRange));
    assert!(app.confirm().pending);
    assert_eq!(app.selected_row(), Some(0));
    assert_eq!(app.select_series(1), Ok(()));
    assert_eq!(app.selected_row(), None);
    assert!(!app.confirm().pending);
    assert_eq!(app.active_series().name(), "other");
    app.handle_intent(Intent::Down);
    assert_eq!(app.selected_row(), None);
    app.handle_intent(Intent::Char('g'));
    insert(&mut app, "5", "5");
    assert_eq!(app.store().get(1).unwrap().data(), &vec![pt(5, 5)]);
    assert_eq!(app.store().get(0).unwrap().len(), 2);
}

#[test]
fn the_handlers_of_the_views_do_what_handle_intent_does() {
    let mut app = App::new();
    app.handle_graph_input(Intent::Char('t'));
    assert_eq!(app.mode(), ViewMode::Table);
    app.handle_table_input(Intent::Char('h'));
    assert_eq!(app.mode(), ViewMode::Help);
    app.handle_help_input(Intent::Escape);
    assert_eq!(app.mode(), ViewMode::Menu);
    app.handle_menu_input(Intent::Char('g'));
    assert_eq!(app.mode(), ViewMode::Graph);
    app.handle_graph_input(Intent::Char('i'));
    app.handle_graph_input(Intent::Char('1'));
    app.cycle_field();
    app.handle_graph_input(Intent::Char('2'));
    app.try_insert_point();
    assert_eq!(app.active_series().data(), &vec![pt(1, 2)]);
    app.handle_graph_input(Intent::Char('t'));
    app.select_next();
    app.handle_table_input(Intent::Char('d'));
    app.confirm_delete();
    assert!(app.active_series().is_empty());
}
