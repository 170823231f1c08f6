//! Viewport partitioning: how many terminal cells the preview pane and the
//! task pane may use. All subtractions saturate at zero; the terminal can be
//! arbitrarily small.

use vstd::prelude::*;

verus! {

/// Weight of the preview pane in the horizontal split.
pub const PREVIEW_RATIO: u32 = 3;

/// Total weight of the horizontal split.
pub const ALL_RATIO: u32 = 8;

/// Columns lost to the preview pane's border.
pub const PREVIEW_BORDER: u16 = 2;

/// Rows lost to the preview pane's padding.
pub const PREVIEW_PADDING: u16 = 2;

/// Share of the terminal height granted to the task pane, in percent.
pub const TASKS_PERCENT: u32 = 80;

/// Rows lost to the task pane's chrome.
pub const TASKS_PADDING: u32 = 2;

/// Column budget of the preview pane for a terminal `cols` columns wide.
pub open spec fn spec_preview_cols(cols: u16) -> u16 {
    let shared = cols as int * PREVIEW_RATIO as int / ALL_RATIO as int;
    if shared < PREVIEW_BORDER as int {
        0
    } else {
        (shared - PREVIEW_BORDER) as u16
    }
}

/// Row budget of the preview pane for a terminal `rows` rows tall.
pub open spec fn spec_preview_rows(rows: u16) -> u16 {
    if rows < PREVIEW_PADDING {
        0
    } else {
        (rows - PREVIEW_PADDING) as u16
    }
}

/// Number of task summaries the task pane can show for a terminal `rows`
/// rows tall.
pub open spec fn spec_tasks_limit(rows: u16) -> usize {
    let share = rows as int * TASKS_PERCENT as int / 100;
    if share < TASKS_PADDING as int {
        0
    } else {
        (share - TASKS_PADDING) as usize
    }
}

/// The (columns, rows) budget of the preview pane, resampled from the
/// terminal size on every producer launch. The column share saturates at
/// zero when the pane's slice of the terminal is narrower than its border.
pub fn preview_size(cols: u16, rows: u16) -> (r: (u16, u16))
    ensures
        r.0 == spec_preview_cols(cols),
        r.1 == spec_preview_rows(rows),
        (cols as int) * (PREVIEW_RATIO as int) / (ALL_RATIO as int) < (PREVIEW_BORDER as int)
            ==> r.0 == 0,
{
    let shared: u32 = cols as u32 * PREVIEW_RATIO / ALL_RATIO;
    let col: u16 = if shared < PREVIEW_BORDER as u32 {
        0
    } else {
        (shared - PREVIEW_BORDER as u32) as u16
    };
    let row: u16 = if rows < PREVIEW_PADDING {
        0
    } else {
        rows - PREVIEW_PADDING
    };
    (col, row)
}

/// Task-pane row budget: a percentage share of the terminal height, minus
/// the pane's chrome, saturating at zero.
pub fn tasks_limit(rows: u16) -> (r: usize)
    ensures
        r == spec_tasks_limit(rows),
{
    let share: u32 = rows as u32 * TASKS_PERCENT / 100;
    if share < TASKS_PADDING {
        0
    } else {
        (share - TASKS_PADDING) as usize
    }
}

} // verus!
