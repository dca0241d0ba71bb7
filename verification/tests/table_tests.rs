use tui_engine::{Color, Highlight, ITable, Rect, Style, UiError};

fn plain_highlight() -> Highlight {
    Highlight::new(Style { fg: Color::Green }, Style { fg: Color::White })
}

fn strings(v: Vec<&str>) -> Vec<String> {
    v.into_iter().map(|s| s.to_string()).collect()
}

fn sample_table(rows: usize) -> ITable {
    let mut t = ITable::new();
    let left: Vec<String> = (0..rows).map(|i| format!("l{}", i)).collect();
    let right: Vec<String> = (0..rows).map(|i| format!("r{}", i)).collect();
    t.add_column("left".to_string(), Style::plain(), 8, left, plain_highlight());
    t.add_column("right".to_string(), Style::plain(), 8, right, plain_highlight());
    t
}

#[test]
fn add_column_pads_and_truncates() {
    let mut t = ITable::new();
    t.add_column("a".to_string(), Style::plain(), 4, strings(vec!["1", "2", "3"]), plain_highlight());
    assert_eq!(t.row_count(), 3);
    // too long: silently truncated to the fixed height
    t.add_column(
        "b".to_string(),
        Style::plain(),
        4,
        strings(vec!["x", "y", "z", "w", "v"]),
        plain_highlight(),
    );
    assert_eq!(t.row_count(), 3);
    assert_eq!(t.cell_text(1, 2), Some("z".to_string()));
    assert_eq!(t.cell_text(1, 3), None);
    // too short: silently padded with empty cells
    t.add_column("c".to_string(), Style::plain(), 4, strings(vec!["only"]), plain_highlight());
    assert_eq!(t.row_count(), 3);
    assert_eq!(t.cell_text(2, 0), Some("only".to_string()));
    assert_eq!(t.cell_text(2, 1), Some("".to_string()));
    assert_eq!(t.cell_text(2, 2), Some("".to_string()));
    assert_eq!(t.width(), 3);
}

#[test]
fn first_column_fixes_height() {
    let mut t = ITable::new();
    t.add_column("a".to_string(), Style::plain(), 4, Vec::new(), plain_highlight());
    assert_eq!(t.row_count(), 0);
    t.add_column("b".to_string(), Style::plain(), 4, strings(vec!["x", "y"]), plain_highlight());
    // the second column is truncated to the fixed height of zero
    assert_eq!(t.row_count(), 0);
    assert_eq!(t.cell_text(1, 0), None);
}

#[test]
fn select_down_then_up_is_inverse() {
    let mut t = sample_table(10);
    t.set_area(Rect { left: 0, top: 0, width: 20, height: 8 });
    t.select_down();
    t.select_down();
    let before = t.selection_index();
    t.select_down();
    t.select_up();
    assert_eq!(t.selection_index(), before);
}

#[test]
fn select_up_clamps_at_first_row() {
    let mut t = sample_table(4);
    assert_eq!(t.selection_index(), 0);
    t.select_up();
    assert_eq!(t.selection_index(), 0);
    t.select_down();
    t.select_up();
    t.select_up();
    assert_eq!(t.selection_index(), 0);
}

#[test]
fn select_down_clamps_at_last_row() {
    let mut t = sample_table(3);
    for _ in 0..10 {
        t.select_down();
    }
    assert_eq!(t.selection_index(), 2);
}

#[test]
fn window_follows_selection() {
    // viewport of 10 data rows (3 rows of chrome)
    let mut t = sample_table(100);
    t.set_area(Rect { left: 0, top: 0, width: 30, height: 13 });
    for _ in 0..15 {
        t.select_down();
        let page = t.page_start();
        let sel = t.selection_index();
        assert!(page <= sel);
        assert!(sel < page + 10);
    }
    // the documented scenario: 15 steps end at row 15, page 6
    assert_eq!(t.selection_index(), 15);
    assert_eq!(t.page_start(), 6);
}

#[test]
fn select_last_scrolls_page_up_never_down() {
    let mut t = sample_table(50);
    t.set_area(Rect { left: 0, top: 0, width: 30, height: 13 });
    t.select_last();
    assert_eq!(t.selection_index(), 49);
    // the selection sits on the last visible row of the page
    assert_eq!(t.page_start(), 40);
    t.select_first();
    assert_eq!(t.selection_index(), 0);
    assert_eq!(t.page_start(), 0);
}

#[test]
fn page_down_and_up_move_by_a_viewport() {
    let mut t = sample_table(100);
    t.set_area(Rect { left: 0, top: 0, width: 30, height: 13 });
    t.select_page_down();
    assert_eq!(t.page_start(), 9);
    assert_eq!(t.selection_index(), 9);
    t.select_page_down();
    assert_eq!(t.page_start(), 18);
    t.select_page_up();
    assert_eq!(t.page_start(), 8);
    let page = t.page_start();
    let sel = t.selection_index();
    assert!(page <= sel && sel < page + 10);
}

#[test]
fn table_area_is_remembered() {
    let mut t = sample_table(5);
    assert_eq!(t.area(), Rect { left: 0, top: 0, width: 0, height: 0 });
    let r = Rect { left: 2, top: 3, width: 20, height: 10 };
    t.set_area(r);
    assert_eq!(t.area(), r);
    assert_eq!(t.get_content_height(), 7);
}

#[test]
fn pagination_on_empty_viewport_is_a_noop() {
    let mut t = sample_table(20);
    // never drawn: the empty rectangle gives no visible rows
    t.select_page_down();
    assert_eq!(t.page_start(), 0);
    assert_eq!(t.selection_index(), 0);
}

#[test]
fn click_selects_a_row() {
    let mut t = sample_table(20);
    t.set_area(Rect { left: 0, top: 0, width: 30, height: 13 });
    // y = 2 is the first data row under the border and header
    t.click(5, 2);
    assert_eq!(t.selection_index(), 0);
    t.click(5, 7);
    assert_eq!(t.selection_index(), 5);
    // a click on the chrome changes nothing
    t.click(5, 1);
    assert_eq!(t.selection_index(), 5);
    // a click past the drawn height changes nothing
    t.click(5, 13);
    assert_eq!(t.selection_index(), 5);
}

#[test]
fn add_row_checks_the_width() {
    let mut t = sample_table(2);
    assert_eq!(t.add_row(strings(vec!["a"])), Err(UiError::WidthMismatch));
    assert_eq!(t.row_count(), 2);
    assert_eq!(t.add_row(strings(vec!["a", "b"])), Ok(()));
    assert_eq!(t.row_count(), 3);
    assert_eq!(t.cell_text(0, 2), Some("a".to_string()));
    assert_eq!(t.cell_text(1, 2), Some("b".to_string()));
}

#[test]
fn remove_col_checks_the_index() {
    let mut t = sample_table(2);
    assert_eq!(t.remove_col(2), Err(UiError::IndexOutOfRange));
    assert_eq!(t.remove_col(0), Ok(()));
    assert_eq!(t.width(), 1);
    assert_eq!(t.cell_text(0, 0), Some("r0".to_string()));
}

#[test]
fn remove_row_checks_the_index_and_reconciles() {
    let mut t = sample_table(3);
    assert_eq!(t.remove_row(3), Err(UiError::IndexOutOfRange));
    t.select_last();
    assert_eq!(t.selection_index(), 2);
    assert_eq!(t.remove_row(1), Ok(()));
    assert_eq!(t.row_count(), 2);
    assert_eq!(t.cell_text(0, 1), Some("l2".to_string()));
    // the selection is pulled back inside the remaining rows
    assert_eq!(t.selection_index(), 1);
}

#[test]
fn highlight_first_matching_rule_wins() {
    let mut h = Highlight::new(Style { fg: Color::Green }, Style { fg: Color::White });
    h.add_rule("Error".to_string(), false, Style { fg: Color::Red });
    h.add_rule("Error".to_string(), true, Style { fg: Color::Magenta });
    assert_eq!(h.style_for(&"Error".to_string(), false), Style { fg: Color::Red });
    assert_eq!(h.style_for(&"Error".to_string(), true), Style { fg: Color::Magenta });
    assert_eq!(h.style_for(&"Ok".to_string(), false), Style { fg: Color::White });
    assert_eq!(h.style_for(&"Ok".to_string(), true), Style { fg: Color::Green });
}

#[test]
fn visible_columns_carry_the_page_and_styles() {
    let mut t = ITable::new();
    let mut status_highlight = Highlight::new(Style { fg: Color::Green }, Style { fg: Color::White });
    status_highlight.add_rule("Error".to_string(), false, Style { fg: Color::Red });
    t.add_column(
        "status".to_string(),
        Style { fg: Color::Yellow },
        8,
        strings(vec!["Ok", "Error", "Ok", "Ok", "Ok"]),
        status_highlight,
    );
    t.set_area(Rect { left: 0, top: 0, width: 20, height: 6 });
    let cols = t.visible_columns();
    assert_eq!(cols.len(), 1);
    assert_eq!(cols[0].header, "status".to_string());
    assert_eq!(cols[0].header_style, Style { fg: Color::Yellow });
    // three data rows fit; the selected first row takes the selection
    // style, the unselected error row its rule's style
    assert_eq!(cols[0].cells.len(), 3);
    assert_eq!(cols[0].cells[0].text, "Ok".to_string());
    assert_eq!(cols[0].cells[0].style, Style { fg: Color::Green });
    assert_eq!(cols[0].cells[1].text, "Error".to_string());
    assert_eq!(cols[0].cells[1].style, Style { fg: Color::Red });
    assert_eq!(cols[0].cells[2].style, Style { fg: Color::White });
}
