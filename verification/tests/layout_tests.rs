use fm_core::layout::{preview_size, tasks_limit};

#[test]
fn preview_size_ordinary_terminal() {
    // 80 * 3 / 8 = 30 columns for the pane, minus the border.
    let (cols, rows) = preview_size(80, 24);
    assert_eq!(cols, 28);
    assert_eq!(rows, 22);
}

#[test]
fn preview_size_saturates_narrow_terminal() {
    // 4 * 3 / 8 = 1 < border: the column budget saturates at zero.
    let (cols, rows) = preview_size(4, 1);
    assert_eq!(cols, 0);
    assert_eq!(rows, 0);
}

#[test]
fn tasks_limit_values() {
    // 24 * 80 / 100 = 19, minus the padding.
    assert_eq!(tasks_limit(24), 17);
    // 2 * 80 / 100 = 1 < padding: saturates at zero.
    assert_eq!(tasks_limit(2), 0);
    assert_eq!(tasks_limit(0), 0);
}
