use tui_engine::app::classify_log_line;
use tui_engine::{
    App, ChannelClosed, Color, Direction, Event, Events, Highlight, IEmpty, IParagraph, ITable,
    Outcome, Region, Status, Style, UiError, Widget,
};

fn strings(v: Vec<&str>) -> Vec<String> {
    v.into_iter().map(|s| s.to_string()).collect()
}

fn sample_table(rows: usize) -> ITable {
    let mut t = ITable::new();
    let cells: Vec<String> = (0..rows).map(|i| format!("cell{}", i)).collect();
    t.add_column(
        "col".to_string(),
        Style::plain(),
        8,
        cells,
        Highlight::new(Style { fg: Color::Green }, Style { fg: Color::White }),
    );
    t
}

fn two_pane_app() -> App {
    let mut app = App::new();
    app.add_widget("a".to_string(), Widget::Table(sample_table(20))).unwrap();
    app.add_widget("b".to_string(), Widget::Paragraph(IParagraph::new())).unwrap();
    app.set_region("a", Region { left_pct: 0, top_pct: 0, right_pct: 50, bottom_pct: 100 })
        .unwrap();
    app.set_region("b", Region { left_pct: 50, top_pct: 0, right_pct: 100, bottom_pct: 100 })
        .unwrap();
    app
}

#[test]
fn duplicate_names_are_refused() {
    let mut app = App::new();
    app.add_widget("x".to_string(), Widget::Empty(IEmpty)).unwrap();
    assert_eq!(
        app.add_widget("x".to_string(), Widget::Empty(IEmpty)),
        Err(UiError::DuplicateName)
    );
    assert_eq!(app.widget_count(), 1);
}

#[test]
fn set_region_needs_a_known_name() {
    let mut app = App::new();
    assert_eq!(
        app.set_region("ghost", Region { left_pct: 0, top_pct: 0, right_pct: 10, bottom_pct: 10 }),
        Err(UiError::UnknownWidget)
    );
}

#[test]
fn hit_test_inside_and_on_borders() {
    let mut app = two_pane_app();
    app.draw(100, 100);
    // strictly inside each pane
    assert_eq!(app.hit_test(10, 10), Some("a".to_string()));
    assert_eq!(app.hit_test(60, 50), Some("b".to_string()));
    // the shared border at x = 50 belongs to neither
    assert_eq!(app.hit_test(50, 50), None);
    // outer borders match nothing
    assert_eq!(app.hit_test(0, 10), None);
    assert_eq!(app.hit_test(99, 99), None);
}

#[test]
fn first_click_focuses_second_click_activates() {
    let mut app = two_pane_app();
    app.draw(100, 100);
    assert_eq!(app.curr_widget, None);
    app.on_click(10, 10);
    assert_eq!(app.curr_widget, Some("a".to_string()));
    assert_eq!(app.table_state("a"), Some((20, 0, 0)));
    // the second click reaches the table: widget-local row selection
    app.on_click(10, 7);
    assert_eq!(app.table_state("a"), Some((20, 0, 5)));
    // a click on empty space changes nothing
    app.on_click(50, 50);
    assert_eq!(app.curr_widget, Some("a".to_string()));
}

#[test]
fn move_focus_follows_the_adjacency_table() {
    let mut app = two_pane_app();
    app.add_neighbor("a".to_string(), Direction::Right, "b".to_string());
    app.add_neighbor("b".to_string(), Direction::Left, "a".to_string());
    app.set_focus(Some("a".to_string()));
    app.on_event(Event::CtrlKey('l'), 0);
    assert_eq!(app.curr_widget, Some("b".to_string()));
    app.on_event(Event::CtrlKey('h'), 0);
    assert_eq!(app.curr_widget, Some("a".to_string()));
    // an unknown pair is a no-op
    app.on_event(Event::CtrlKey('k'), 0);
    assert_eq!(app.curr_widget, Some("a".to_string()));
}

#[test]
fn keys_drive_the_focused_widget() {
    let mut app = two_pane_app();
    app.set_focus(Some("a".to_string()));
    app.on_event(Event::CharKey('j'), 0);
    app.on_event(Event::CharKey('j'), 0);
    app.on_event(Event::CharKey('k'), 0);
    assert_eq!(app.table_state("a"), Some((20, 0, 1)));
    app.on_event(Event::Down, 0);
    app.on_event(Event::ScrollDown(3, 3), 0);
    assert_eq!(app.table_state("a"), Some((20, 0, 3)));
    app.on_event(Event::Up, 0);
    app.on_event(Event::ScrollUp(3, 3), 0);
    assert_eq!(app.table_state("a"), Some((20, 0, 1)));
    app.on_event(Event::CharKey('G'), 0);
    assert_eq!(app.table_state("a"), Some((20, 0, 19)));
    // no focus: navigation is a no-op
    app.set_focus(None);
    app.on_event(Event::CharKey('j'), 0);
    assert_eq!(app.table_state("a"), Some((20, 0, 19)));
}

#[test]
fn insert_mode_edits_and_commits_a_line() {
    let mut app = App::new();
    app.on_event(Event::CharKey(':'), 0);
    assert!(matches!(app.status, Status::Insert(_)));
    app.on_event(Event::CharKey('a'), 0);
    app.on_event(Event::CharKey('b'), 0);
    app.on_event(Event::Backspace, 0);
    let out = app.on_event(Event::Enter, 0);
    match out {
        Outcome::Committed(line) => assert_eq!(line, "a".to_string()),
        _ => panic!("expected a committed line"),
    }
    assert!(matches!(app.status, Status::Normal));
}

#[test]
fn insert_mode_clear_and_escape() {
    let mut app = App::new();
    app.on_event(Event::CharKey(':'), 0);
    app.on_event(Event::CharKey('x'), 0);
    app.on_event(Event::CtrlKey('w'), 0);
    app.on_event(Event::CharKey('y'), 0);
    let out = app.on_event(Event::Enter, 0);
    match out {
        Outcome::Committed(line) => assert_eq!(line, "y".to_string()),
        _ => panic!("expected a committed line"),
    }
    // Esc discards the buffer without committing
    app.on_event(Event::CharKey(':'), 0);
    app.on_event(Event::CharKey('z'), 0);
    assert!(matches!(app.on_event(Event::Esc, 0), Outcome::Done));
    assert!(matches!(app.status, Status::Normal));
    // Backspace on an empty buffer is a no-op
    app.on_event(Event::CharKey(':'), 0);
    app.on_event(Event::Backspace, 0);
    let out = app.on_event(Event::Enter, 0);
    match out {
        Outcome::Committed(line) => assert_eq!(line, "".to_string()),
        _ => panic!("expected a committed line"),
    }
}

#[test]
fn pending_g_times_out_without_jumping() {
    let mut app = two_pane_app();
    app.set_focus(Some("a".to_string()));
    for _ in 0..5 {
        app.on_event(Event::CharKey('j'), 0);
    }
    assert_eq!(app.table_state("a"), Some((20, 0, 5)));
    app.on_event(Event::CharKey('g'), 0);
    assert!(matches!(app.status, Status::WaitG(0)));
    // a tick after the timeout abandons the pending g quietly
    app.on_event(Event::Tick, 3000);
    assert!(matches!(app.status, Status::Normal));
    assert_eq!(app.table_state("a"), Some((20, 0, 5)));
}

#[test]
fn double_g_jumps_to_the_first_row() {
    let mut app = two_pane_app();
    app.set_focus(Some("a".to_string()));
    for _ in 0..5 {
        app.on_event(Event::CharKey('j'), 0);
    }
    app.on_event(Event::CharKey('g'), 1000);
    // a tick inside the window keeps waiting
    app.on_event(Event::Tick, 2500);
    assert!(matches!(app.status, Status::WaitG(1000)));
    app.on_event(Event::CharKey('g'), 2600);
    assert!(matches!(app.status, Status::Normal));
    assert_eq!(app.table_state("a"), Some((20, 0, 0)));
}

#[test]
fn unmatched_pairs_are_observable_noops() {
    let mut app = App::new();
    assert!(matches!(app.on_event(Event::Enter, 0), Outcome::Ignored));
    assert!(matches!(app.on_event(Event::CharKey('q'), 0), Outcome::Ignored));
    assert!(matches!(
        app.on_event(Event::Unsupported("odd key".to_string()), 0),
        Outcome::Ignored
    ));
    assert!(matches!(app.status, Status::Normal));
    // an unknown control key inside insert mode is ignored too
    app.on_event(Event::CharKey(':'), 0);
    assert!(matches!(app.on_event(Event::CtrlKey('q'), 0), Outcome::Ignored));
    assert!(matches!(app.status, Status::Insert(_)));
}

#[test]
fn log_lines_land_styled_in_the_log_widget() {
    let mut app = two_pane_app();
    assert_eq!(app.paragraph_state("b"), Some((0, 0)));
    app.push_log("b", "a INFO line\n").unwrap();
    app.push_log("b", "a WARN line\n").unwrap();
    // two content lines plus the open line; the view sits on the newest
    assert_eq!(app.paragraph_state("b"), Some((3, 2)));
    assert_eq!(app.push_log("ghost", "x"), Err(UiError::UnknownWidget));
    assert_eq!(app.push_log("a", "x"), Err(UiError::TypeMismatch));
    assert_eq!(app.paragraph_state("b"), Some((3, 2)));
}

#[test]
fn log_severity_picks_the_style() {
    assert_eq!(classify_log_line("x ERROR y"), Style { fg: Color::White });
    assert_eq!(classify_log_line("x WARN y"), Style { fg: Color::Yellow });
    assert_eq!(classify_log_line("x INFO y"), Style { fg: Color::Green });
    assert_eq!(classify_log_line("x DEBUG y"), Style { fg: Color::White });
    assert_eq!(classify_log_line("plain text"), Style { fg: Color::Gray });
    // the first severity word wins
    assert_eq!(classify_log_line("ERROR then WARN"), Style { fg: Color::White });
}

#[test]
fn draw_lays_widgets_out_and_reports_plans() {
    let mut app = two_pane_app();
    app.set_focus(Some("a".to_string()));
    let plans = app.draw(100, 40);
    assert_eq!(plans.len(), 2);
    assert_eq!(plans[0].name, "a".to_string());
    assert!(plans[0].focused);
    assert_eq!(plans[0].rect.left, 0);
    assert_eq!(plans[0].rect.width, 50);
    assert_eq!(plans[0].rect.height, 40);
    assert_eq!(plans[1].name, "b".to_string());
    assert!(!plans[1].focused);
    assert_eq!(plans[1].rect.left, 50);
    match &plans[0].plan {
        tui_engine::RenderPlan::Table(cols) => {
            assert_eq!(cols.len(), 1);
            // the whole table fits the 37 visible rows
            assert_eq!(cols[0].cells.len(), 20);
            assert_eq!(cols[0].cells[0].text, "cell0".to_string());
            assert_eq!(cols[0].cells[0].style, Style { fg: Color::Green });
            assert_eq!(cols[0].cells[1].style, Style { fg: Color::White });
        },
        _ => panic!("the first pane holds a table"),
    }
}

#[test]
fn every_widget_kind_is_selectable() {
    assert!(tui_engine::widget::widget_selectable(&Widget::Empty(IEmpty)));
    assert!(tui_engine::widget::widget_selectable(&Widget::Paragraph(IParagraph::new())));
    assert!(tui_engine::widget::widget_selectable(&Widget::Table(sample_table(1))));
}

#[test]
fn clicks_on_non_table_widgets_change_no_state() {
    let mut app = two_pane_app();
    app.draw(100, 100);
    app.set_focus(Some("b".to_string()));
    // the paragraph has no click capability: a safe no-op
    app.on_click(60, 50);
    assert_eq!(app.curr_widget, Some("b".to_string()));
    assert_eq!(app.paragraph_state("b"), Some((0, 0)));
}

#[test]
fn teardown_releases_everything_and_is_idempotent() {
    let mut app = two_pane_app();
    app.set_focus(Some("a".to_string()));
    app.teardown();
    assert_eq!(app.widget_count(), 0);
    assert_eq!(app.curr_widget, None);
    assert_eq!(app.table_state("a"), None);
    app.teardown();
    assert_eq!(app.widget_count(), 0);
    // dispatch after teardown reports the unknown name
    assert_eq!(app.push_log("b", "x"), Err(UiError::UnknownWidget));
}

#[test]
fn events_arrive_in_order_until_the_channel_closes() {
    let (tx, rx) = std::sync::mpsc::channel();
    let ev = Events::new(rx);
    tx.send(Event::CharKey('x')).unwrap();
    tx.send(Event::Tick).unwrap();
    assert!(matches!(ev.next(), Ok(Event::CharKey('x'))));
    assert!(matches!(ev.next(), Ok(Event::Tick)));
    drop(tx);
    assert!(matches!(ev.next(), Err(ChannelClosed)));
}
