use tui_engine::pagination::{line_height_capped, walk_backward, walk_forward, Run};
use tui_engine::{Color, Style};

fn line(texts: &[&str]) -> Vec<Run> {
    texts
        .iter()
        .map(|t| Run::new(t.to_string(), Style { fg: Color::Reset }))
        .collect()
}

#[test]
fn empty_line_occupies_one_display_line() {
    assert_eq!(line_height_capped(&line(&[]), 10, 100), 1);
    assert_eq!(line_height_capped(&line(&[""]), 10, 100), 1);
}

#[test]
fn height_accumulates_runs_modulo_the_width() {
    // a single run of 10 characters at width 5: two full lines spill,
    // plus the line's own display line
    assert_eq!(line_height_capped(&line(&["aaaaabbbbb"]), 5, 100), 3);
    // 5 then 7: the first run fills one line exactly, the second
    // spills one more and leaves two columns
    assert_eq!(line_height_capped(&line(&["aaaaa", "bbbbbbb"]), 5, 100), 3);
    // run boundaries carry the remainder: 3 + 3 at width 5 wraps once
    assert_eq!(line_height_capped(&line(&["aaa", "bbb"]), 5, 100), 2);
    // a short line stays on one display line
    assert_eq!(line_height_capped(&line(&["abc"]), 5, 100), 1);
}

#[test]
fn height_is_capped() {
    assert_eq!(line_height_capped(&line(&["aaaaabbbbbccccc"]), 1, 4), 4);
    assert_eq!(line_height_capped(&line(&["aaaa"]), 1, 100), 5);
}

#[test]
fn forward_walk_consumes_until_the_budget_is_passed() {
    let lines = vec![
        line(&["aaaaabbbbb"]),  // height 3 at width 5
        line(&["ccccc"]),  // height 2
        line(&["d"]),  // height 1
        line(&["e"]),  // height 1
    ];
    // budget 4: heights 3, 2 pass it at the second line
    assert_eq!(walk_forward(&lines, 0, 5, 4), 2);
    // the first line is always consumed, however tall
    assert_eq!(walk_forward(&lines, 0, 5, 0), 1);
    // from the middle, the walk sees only what follows
    assert_eq!(walk_forward(&lines, 2, 5, 4), 2);
    assert_eq!(walk_forward(&lines, 4, 5, 4), 0);
}

#[test]
fn backward_walk_mirrors_the_forward_walk() {
    let lines = vec![
        line(&["a"]),  // height 1
        line(&["b"]),  // height 1
        line(&["cccccddddd"]),  // height 3
    ];
    // walking back from the end: heights 3, 1, 1 accumulate to the
    // budget of 4 without passing it until all three are taken
    assert_eq!(walk_backward(&lines, 3, 5, 4), 3);
    assert_eq!(walk_backward(&lines, 3, 5, 0), 1);
    assert_eq!(walk_backward(&lines, 0, 5, 4), 0);
}
