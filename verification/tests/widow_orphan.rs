use zenith_scene::widow_orphan::adjust_for_widow_orphan;

/// No straddle (the boundary lines belong to different paragraphs): the cut is
/// left exactly where the greedy fit put it.
#[test]
fn no_straddle_keeps_take() {
    // take=3: line 2 is paragraph 0, line 3 is paragraph 1 -> no straddle.
    let lines = [0, 0, 0, 1, 1, 1];
    assert_eq!(adjust_for_widow_orphan(&lines, 3, 2), 3);
}

/// Orphan: box 1 would keep a lone FIRST line of paragraph 1 (take=4 keeps
/// [0,0,0,1]). With N=2 that single line is pulled down -> take=3.
#[test]
fn orphan_single_first_line_pulled_down() {
    let lines = [0, 0, 0, 1, 1, 1];
    assert_eq!(adjust_for_widow_orphan(&lines, 4, 2), 3);
}

/// Widow: the next box would start with a lone LAST line of paragraph 0.
/// With N=2 one line is pulled down so the next box starts with 2 lines of P0.
#[test]
fn widow_single_last_line_pulled_down() {
    let lines = [0, 0, 0, 0, 0, 0, 1, 1];
    assert_eq!(adjust_for_widow_orphan(&lines, 5, 2), 4);
}

/// Both sides already satisfy N -> no change.
#[test]
fn satisfied_both_sides_unchanged() {
    let lines = [0, 0, 0, 0];
    assert_eq!(adjust_for_widow_orphan(&lines, 2, 2), 2);
}

/// Degenerate: honoring the rule would empty the box -> leave the cut as-is.
#[test]
fn degenerate_would_empty_box_left_as_is() {
    let lines = [1, 1, 1];
    assert_eq!(adjust_for_widow_orphan(&lines, 1, 2), 1);
}

#[test]
fn take_zero_and_take_at_end_are_unchanged() {
    let lines = [0, 0, 0];
    assert_eq!(adjust_for_widow_orphan(&lines, 0, 2), 0);
    assert_eq!(adjust_for_widow_orphan(&lines, 3, 2), 3);
    assert_eq!(adjust_for_widow_orphan(&lines, 7, 2), 7);
    assert_eq!(adjust_for_widow_orphan(&[], 0, 2), 0);
}

#[test]
fn larger_minimum_moves_whole_short_top_chunk() {
    // Paragraph 1 spans lines 2..8; the cut at 4 keeps 2 of its lines (top),
    // carries 4 (bottom). N=3: the top side has 2 < 3 lines -> move it down.
    let lines = [0, 0, 1, 1, 1, 1, 1, 1];
    assert_eq!(adjust_for_widow_orphan(&lines, 4, 3), 2);
    // N=2: both sides already have >= 2 lines.
    assert_eq!(adjust_for_widow_orphan(&lines, 4, 2), 4);
    // Cut at 7 leaves 1 line below; N=2 pulls one down to 6 (top keeps 4).
    assert_eq!(adjust_for_widow_orphan(&lines, 7, 2), 6);
}

#[test]
fn minimum_of_one_or_zero_never_moves() {
    let lines = [0, 0, 0, 0];
    assert_eq!(adjust_for_widow_orphan(&lines, 3, 1), 3);
    assert_eq!(adjust_for_widow_orphan(&lines, 1, 0), 1);
}
