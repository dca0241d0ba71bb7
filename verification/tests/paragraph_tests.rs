use tui_engine::{Color, IParagraph, Rect, Style};

#[test]
fn appends_without_break_build_one_line() {
    let mut p = IParagraph::new();
    assert_eq!(p.line_count(), 0);
    p.add("hello");
    assert_eq!(p.line_count(), 1);
    // no intervening break: the new run continues the same line
    p.add_styled(" world", Style { fg: Color::Red });
    assert_eq!(p.line_count(), 1);
    p.set_area(Rect { left: 0, top: 0, width: 42, height: 10 });
    let lines = p.visible_lines();
    assert_eq!(lines.len(), 1);
    assert_eq!(lines[0].len(), 2);
    assert_eq!(lines[0][0].text, "hello".to_string());
    assert_eq!(lines[0][0].style, Style { fg: Color::Reset });
    assert_eq!(lines[0][1].text, " world".to_string());
    assert_eq!(lines[0][1].style, Style { fg: Color::Red });
}

#[test]
fn line_breaks_split_and_a_final_break_opens_a_line() {
    let mut p = IParagraph::new();
    p.add("one\ntwo");
    assert_eq!(p.line_count(), 2);
    p.add("\n");
    // the break closed "two" and opened a fresh empty line
    assert_eq!(p.line_count(), 3);
    p.add("three");
    assert_eq!(p.line_count(), 3);
    p.set_area(Rect { left: 0, top: 0, width: 42, height: 10 });
    let lines = p.visible_lines();
    assert_eq!(lines[0][0].text, "one".to_string());
    assert_eq!(lines[1][0].text, "two".to_string());
    assert_eq!(lines[2][0].text, "three".to_string());
}

#[test]
fn carriage_return_line_feed_is_one_break() {
    let mut p = IParagraph::new();
    p.add("a\r\nb");
    assert_eq!(p.line_count(), 2);
    p.set_area(Rect { left: 0, top: 0, width: 42, height: 10 });
    let lines = p.visible_lines();
    assert_eq!(lines[0][0].text, "a".to_string());
    assert_eq!(lines[1][0].text, "b".to_string());
}

#[test]
fn paragraph_area_is_remembered() {
    let mut p = IParagraph::new();
    assert_eq!(p.area(), Rect { left: 0, top: 0, width: 0, height: 0 });
    let r = Rect { left: 1, top: 1, width: 12, height: 6 };
    p.set_area(r);
    assert_eq!(p.area(), r);
    assert_eq!(p.get_content_width(), 10);
    assert_eq!(p.get_content_height(), 4);
}

#[test]
fn empty_paragraph_navigation_is_a_noop() {
    let mut p = IParagraph::new();
    p.set_area(Rect { left: 0, top: 0, width: 20, height: 10 });
    p.select_down();
    assert_eq!(p.page_start(), 0);
    p.select_page_down();
    assert_eq!(p.page_start(), 0);
    p.select_up();
    p.select_page_up();
    p.select_last();
    assert_eq!(p.page_start(), 0);
    assert_eq!(p.line_count(), 0);
}

#[test]
fn select_down_clamps_at_the_last_line() {
    let mut p = IParagraph::new();
    p.add("a\nb\nc");
    for _ in 0..10 {
        p.select_down();
    }
    assert_eq!(p.page_start(), 2);
    p.select_up();
    assert_eq!(p.page_start(), 1);
}

#[test]
fn select_last_leaves_a_full_page() {
    let mut p = IParagraph::new();
    for i in 0..30 {
        p.add(&format!("line {}\n", i));
    }
    // 30 content lines plus the open line the final break left
    assert_eq!(p.line_count(), 31);
    // 10 content rows inside the border
    p.set_area(Rect { left: 0, top: 0, width: 42, height: 12 });
    p.select_last();
    assert_eq!(p.page_start(), 21);
    p.select_first();
    assert_eq!(p.page_start(), 0);
}

#[test]
fn repeated_page_down_settles_where_select_last_does() {
    let mut p = IParagraph::new();
    for i in 0..30 {
        p.add(&format!("line {}\n", i));
    }
    p.set_area(Rect { left: 0, top: 0, width: 42, height: 12 });
    p.select_last();
    let direct = p.page_start();
    p.select_first();
    let mut steps: usize = 0;
    loop {
        let before = p.page_start();
        p.select_page_down();
        if p.page_start() == before {
            break;
        }
        steps += 1;
        assert!(steps <= 31);
    }
    assert_eq!(p.page_start(), direct);
}

#[test]
fn page_walk_counts_wrapped_heights() {
    let mut p = IParagraph::new();
    // each line is 10 characters; at width 5 each occupies 3 display
    // lines (two wrapped plus its own), so a 7-row page walks 3 lines
    for _ in 0..10 {
        p.add("aaaaabbbbb\n");
    }
    // 11 logical lines, 7 content rows: the last page start is 4
    p.set_area(Rect { left: 0, top: 0, width: 7, height: 9 });
    p.select_page_down();
    assert_eq!(p.page_start(), 3);
    p.select_page_down();
    assert_eq!(p.page_start(), 4);
    p.select_page_up();
    assert_eq!(p.page_start(), 1);
}

#[test]
fn pagination_without_width_is_a_noop() {
    let mut p = IParagraph::new();
    for _ in 0..6 {
        p.add("text\n");
    }
    // a rectangle too small for content: no usable width
    p.set_area(Rect { left: 0, top: 0, width: 2, height: 9 });
    p.select_page_down();
    assert_eq!(p.page_start(), 0);
}

#[test]
fn visible_lines_start_at_the_page() {
    let mut p = IParagraph::new();
    for i in 0..8 {
        p.add(&format!("row{}\n", i));
    }
    p.set_area(Rect { left: 0, top: 0, width: 20, height: 5 });
    p.select_down();
    p.select_down();
    let lines = p.visible_lines();
    // the walk takes lines until their height passes the 3-row page
    assert_eq!(lines.len(), 4);
    assert_eq!(lines[0][0].text, "row2".to_string());
    assert_eq!(lines[3][0].text, "row5".to_string());
}
