//! Selection and scroll state of selectable lists and tables.

use vstd::prelude::*;
use crate::text::{push_str, repeat_char, repeated};

verus! {

/// The selection after moving one step down in a list of `len` items:
/// none for an empty list, the first item from no selection, else the next
/// item, stopping at the last.
pub open spec fn next_selection(selected: Option<usize>, len: usize) -> Option<usize> {
    if len == 0 {
        None
    } else {
        match selected {
            Some(i) => Some(if i + 1 <= len - 1 { (i + 1) as usize } else { (len - 1) as usize }),
            None => Some(0),
        }
    }
}

/// The selection after moving one step up in a list of `len` items:
/// none for an empty list, the first item from no selection, else the
/// previous item, stopping at the first.
pub open spec fn previous_selection(selected: Option<usize>, len: usize) -> Option<usize> {
    if len == 0 {
        None
    } else {
        match selected {
            Some(i) => Some(if i > 0 { (i - 1) as usize } else { 0 }),
            None => Some(0),
        }
    }
}

/// Computes the next selection; overflow of `i + 1` is left out by the caller.
pub(crate) fn step_next(selected: Option<usize>, len: usize) -> (r: Option<usize>)
    requires
        selected matches Some(i) ==> i < usize::MAX,
    ensures
        r == next_selection(selected, len),
{
    if len == 0 {
        return None;
    }
    match selected {
        Some(i) => {
            let n = i + 1;
            Some(if n < len - 1 { n } else { len - 1 })
        },
        None => Some(0),
    }
}

/// Computes the previous selection.
pub(crate) fn step_previous(selected: Option<usize>, len: usize) -> (r: Option<usize>)
    ensures
        r == previous_selection(selected, len),
{
    if len == 0 {
        return None;
    }
    match selected {
        Some(i) => Some(i.saturating_sub(1)),
        None => Some(0),
    }
}

/// List state for tracking selection and scroll.
#[derive(Debug, Clone, Copy, PartialEq, Eq, Structural)]
pub struct ListState {
    /// Currently selected index (None if nothing selected)
    pub selected: Option<usize>,
    /// Scroll offset
    pub offset: usize,
}

/// The scroll offset that keeps the selection visible in a viewport of
/// `height` rows: unchanged when the selection is visible or absent, the
/// selection itself when it lies above, and the offset that makes it the
/// last visible row when it lies below.
pub open spec fn offset_showing(selected: Option<usize>, offset: usize, height: usize) -> usize {
    match selected {
        Some(s) => if s < offset {
            s
        } else if s >= offset + height {
            if s >= height - 1 { (s - (height - 1)) as usize } else { 0 }
        } else {
            offset
        },
        None => offset,
    }
}

impl Default for ListState {
    /// Nothing selected, offset 0.
    fn default() -> (s: Self)
        ensures
            s == (ListState { selected: None, offset: 0 }),
    {
        ListState { selected: None, offset: 0 }
    }
}

impl ListState {
    /// Create a new list state: nothing selected, offset 0.
    pub fn new() -> (s: Self)
        ensures
            s == (ListState { selected: None, offset: 0 }),
    {
        ListState { selected: None, offset: 0 }
    }

    /// Create with an initial selection and offset 0.
    pub fn with_selected(selected: Option<usize>) -> (s: Self)
        ensures
            s == (ListState { selected, offset: 0 }),
    {
        ListState { selected, offset: 0 }
    }

    /// Select the next item (see `next_selection`).
    ///
    /// The selection must be below `usize::MAX`.
    pub fn select_next(&mut self, len: usize)
        requires
            old(self).selected matches Some(i) ==> i < usize::MAX,
        ensures
            *final(self) == (ListState {
                selected: next_selection(old(self).selected, len),
                ..*old(self)
            }),
    {
        self.selected = step_next(self.selected, len);
    }

    /// Select the previous item (see `previous_selection`).
    pub fn select_previous(&mut self, len: usize)
        ensures
            *final(self) == (ListState {
                selected: previous_selection(old(self).selected, len),
                ..*old(self)
            }),
    {
        self.selected = step_previous(self.selected, len);
    }

    /// Select the first item; no change for an empty list.
    pub fn select_first(&mut self, len: usize)
        ensures
            *final(self) == (if len > 0 {
                ListState { selected: Some(0), ..*old(self) }
            } else {
                *old(self)
            }),
    {
        if len > 0 {
            self.selected = Some(0);
        }
    }

    /// Select the last item; no change for an empty list.
    pub fn select_last(&mut self, len: usize)
        ensures
            *final(self) == (if len > 0 {
                ListState { selected: Some((len - 1) as usize), ..*old(self) }
            } else {
                *old(self)
            }),
    {
        if len > 0 {
            self.selected = Some(len - 1);
        }
    }

    /// Select a specific index (or none).
    pub fn select(&mut self, index: Option<usize>)
        ensures
            *final(self) == (ListState { selected: index, ..*old(self) }),
    {
        self.selected = index;
    }

    /// Adjust the scroll offset to keep the selection visible.
    ///
    /// A selection at or below the offset needs a viewport of at least one
    /// row, and the offset plus the viewport height must fit in `usize`.
    pub fn scroll_to_selected(&mut self, viewport_height: usize)
        requires
            old(self).selected matches Some(s) ==> (s >= old(self).offset ==> (old(self).offset
                + viewport_height <= usize::MAX && viewport_height > 0)),
        ensures
            *final(self) == (ListState {
                offset: offset_showing(old(self).selected, old(self).offset, viewport_height),
                ..*old(self)
            }),
    {
        if let Some(selected) = self.selected {
            if selected < self.offset {
                self.offset = selected;
            } else if selected >= self.offset + viewport_height {
                self.offset = selected.saturating_sub(viewport_height - 1);
            }
        }
    }
}

/// Table state for tracking the selected row.
#[derive(Debug, Clone, Copy, PartialEq, Eq, Structural)]
pub struct TableState {
    /// Selected row index
    pub selected: Option<usize>,
    /// Scroll offset
    pub offset: usize,
}

impl Default for TableState {
    /// Nothing selected, offset 0.
    fn default() -> (s: Self)
        ensures
            s == (TableState { selected: None, offset: 0 }),
    {
        TableState { selected: None, offset: 0 }
    }
}

impl TableState {
    /// Create a new table state: nothing selected, offset 0.
    pub fn new() -> (s: Self)
        ensures
            s == (TableState { selected: None, offset: 0 }),
    {
        TableState { selected: None, offset: 0 }
    }

    /// Create with an initial selection and offset 0.
    pub fn with_selected(selected: Option<usize>) -> (s: Self)
        ensures
            s == (TableState { selected, offset: 0 }),
    {
        TableState { selected, offset: 0 }
    }

    /// Select the next row (see `next_selection`).
    ///
    /// The selection must be below `usize::MAX`.
    pub fn select_next(&mut self, len: usize)
        requires
            old(self).selected matches Some(i) ==> i < usize::MAX,
        ensures
            *final(self) == (TableState {
                selected: next_selection(old(self).selected, len),
                ..*old(self)
            }),
    {
        self.selected = step_next(self.selected, len);
    }

    /// Select the previous row (see `previous_selection`).
    pub fn select_previous(&mut self, len: usize)
        ensures
            *final(self) == (TableState {
                selected: previous_selection(old(self).selected, len),
                ..*old(self)
            }),
    {
        self.selected = step_previous(self.selected, len);
    }

    /// Select a specific row (or none).
    pub fn select(&mut self, index: Option<usize>)
        ensures
            *final(self) == (TableState { selected: index, ..*old(self) }),
    {
        self.selected = index;
    }
}

/// Column width constraint of a table.
#[derive(Debug, Clone, Copy, PartialEq, Eq, Structural)]
pub enum Constraint {
    /// Fixed width
    Length(u16),
    /// Minimum width
    Min(u16),
    /// Maximum width
    Max(u16),
    /// Percentage of available width
    Percentage(u16),
    /// Fill remaining space with ratio
    Ratio(u16, u16),
}

impl Default for Constraint {
    /// The default constraint: at least one column.
    fn default() -> (c: Constraint)
        ensures
            c == Constraint::Min(1),
    {
        Constraint::Min(1)
    }
}

/// Moving the selection keeps it on an item: in a non-empty list, from no
/// selection or a selection on an item, both steps land on an item.
pub proof fn law_selection_stays_on_items(selected: Option<usize>, len: usize)
    requires
        len > 0,
        selected matches Some(i) ==> i < len,
    ensures
        next_selection(selected, len) matches Some(j) && j < len,
        previous_selection(selected, len) matches Some(j) && j < len,
{
}

/// A step down and a step up undo each other away from the ends of the list.
pub proof fn law_steps_undo_each_other(i: usize, len: usize)
    ensures
        i + 1 < len ==> previous_selection(next_selection(Some(i), len), len) == Some(i),
        0 < i < len ==> next_selection(previous_selection(Some(i), len), len) == Some(i),
{
}

/// After scrolling to the selection, the selected item lies within the
/// viewport.
pub proof fn law_scroll_to_selected_shows_selection(selected: usize, offset: usize, height: usize)
    requires
        height > 0,
    ensures
        offset_showing(Some(selected), offset, height) <= selected,
        selected < offset_showing(Some(selected), offset, height) + height,
{
}

/// The rows a list shows: from `offset` on, at most `height` of them, each
/// with its index and whether it is shown as selected.
pub open spec fn shown_rows(len: nat, offset: nat, height: nat, selected: Option<usize>, show_selection: bool) -> Seq<(usize, bool)> {
    let n = if offset >= len {
        0
    } else if len - offset < height {
        (len - offset) as nat
    } else {
        height
    };
    Seq::new(n, |k: int| ((offset + k) as usize, show_selection && selected == Some((offset + k) as usize)))
}

/// The rows a list of `len` items shows in a viewport of `viewport_height`
/// rows (all items when none is given), from the state's offset on (see
/// `shown_rows`).
pub fn visible_rows(len: usize, state: &ListState, viewport_height: Option<usize>, show_selection: bool) -> (v: Vec<(usize, bool)>)
    ensures
        v@ == shown_rows(
            len as nat,
            state.offset as nat,
            (match viewport_height {
                Some(h) => h,
                None => len,
            }) as nat,
            state.selected,
            show_selection,
        ),
{
    let height = match viewport_height {
        Some(h) => h,
        None => len,
    };
    let n: usize = if state.offset >= len {
        0
    } else if len - state.offset < height {
        len - state.offset
    } else {
        height
    };
    let ghost expected = shown_rows(len as nat, state.offset as nat, height as nat, state.selected, show_selection);
    let mut v: Vec<(usize, bool)> = Vec::new();
    let mut k: usize = 0;
    while k < n
        invariant
            k <= n,
            n == expected.len(),
            n > 0 ==> state.offset + n <= len,
            expected == shown_rows(len as nat, state.offset as nat, height as nat, state.selected, show_selection),
            v@ == expected.take(k as int),
        decreases n - k,
    {
        let idx = state.offset + k;
        let sel = show_selection && state.selected == Some(idx);
        v.push((idx, sel));
        k = k + 1;
        assert(v@ =~= expected.take(k as int));
    }
    assert(expected.take(n as int) =~= expected);
    v
}

/// What precedes a row when the list has a highlight symbol: the symbol on
/// the selected row, else as many spaces as the symbol has bytes.
pub open spec fn highlight_prefix_text(symbol: &str, selected: bool) -> Seq<char> {
    if selected {
        symbol@
    } else {
        repeated(' ', symbol.len() as nat)
    }
}

/// What precedes a row (see `highlight_prefix_text`).
pub fn highlight_prefix(symbol: &str, selected: bool) -> (s: String)
    ensures
        s@ == highlight_prefix_text(symbol, selected),
{
    if selected {
        let mut s = String::new();
        push_str(&mut s, symbol);
        s
    } else {
        repeat_char(' ', symbol.len())
    }
}

} // verus!
