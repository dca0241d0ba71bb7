//! The multi-column selectable table: a column store with a selected
//! row, row-granular pagination, and a scroll-follows-selection window.

use vstd::prelude::*;

use crate::errors::UiError;
use crate::geom::{spec_inner_height, spec_inner_width, inner_height, inner_width, Rect};
use crate::pagination::{Run, RunV};
use crate::style::Style;

verus! {

/// Columns spent on the table's border chrome.
pub const TABLE_W_MARGIN: u16 = 2;

/// Rows spent on the table's border chrome and header row.
pub const TABLE_H_MARGIN: u16 = 3;

/// Rows above the first data row inside the table's rectangle (the top
/// border and the header), used to map a click's `y` to a row.
pub const TABLE_HEADER_ROWS: u16 = 2;

/// One conditional styling rule of a column: a cell with exactly this
/// text, in this selection state, takes this style.
pub struct HighlightRule {
    pub text: String,
    pub selected: bool,
    pub style: Style,
}

/// The mathematical image of a [`HighlightRule`].
pub ghost struct RuleV {
    pub text: Seq<char>,
    pub selected: bool,
    pub style: Style,
}

impl View for HighlightRule {
    type V = RuleV;

    open spec fn view(&self) -> RuleV {
        RuleV { text: self.text@, selected: self.selected, style: self.style }
    }
}

/// How a column styles its cells: the first matching rule wins; a cell
/// no rule matches takes the selection style on the selected row and
/// the normal style elsewhere.
pub struct Highlight {
    pub rules: Vec<HighlightRule>,
    pub selected_style: Style,
    pub normal_style: Style,
}

/// The mathematical image of a [`Highlight`].
pub ghost struct HighlightV {
    pub rules: Seq<RuleV>,
    pub selected_style: Style,
    pub normal_style: Style,
}

impl View for Highlight {
    type V = HighlightV;

    open spec fn view(&self) -> HighlightV {
        HighlightV {
            rules: self.rules@.map_values(|r: HighlightRule| r@),
            selected_style: self.selected_style,
            normal_style: self.normal_style,
        }
    }
}

/// The style [`Highlight`] `h` gives a cell: that of the first rule
/// whose text and selection state both match, else the fallback for the
/// cell's selection state.
pub open spec fn spec_highlight_style(h: HighlightV, cell: Seq<char>, is_selected: bool) -> Style
    decreases h.rules.len(),
{
    if h.rules.len() == 0 {
        if is_selected {
            h.selected_style
        } else {
            h.normal_style
        }
    } else if h.rules.first().text == cell && h.rules.first().selected == is_selected {
        h.rules.first().style
    } else {
        spec_highlight_style(HighlightV { rules: h.rules.drop_first(), ..h }, cell, is_selected)
    }
}

impl Highlight {
    /// A highlight with no rules: plain conditional selection styling.
    pub fn new(selected_style: Style, normal_style: Style) -> (h: Highlight)
        ensures
            h@ == (HighlightV { rules: Seq::<RuleV>::empty(), selected_style, normal_style }),
    {
        let h = Highlight { rules: Vec::new(), selected_style, normal_style };
        proof {
            assert(h@.rules =~= Seq::<RuleV>::empty());
        }
        h
    }

    /// Appends a rule; earlier rules keep priority.
    pub fn add_rule(&mut self, text: String, selected: bool, style: Style)
        ensures
            final(self)@ == (HighlightV {
                rules: old(self)@.rules.push(RuleV { text: text@, selected, style }),
                ..old(self)@
            }),
    {
        let ghost t = text@;
        self.rules.push(HighlightRule { text, selected, style });
        proof {
            assert(self@.rules =~= old(self)@.rules.push(RuleV { text: t, selected, style }));
        }
    }

    /// Picks the style for a cell (see [`spec_highlight_style`]).
    pub fn style_for(&self, cell: &String, is_selected: bool) -> (s: Style)
        ensures
            s == spec_highlight_style(self@, cell@, is_selected),
    {
        let mut i: usize = 0;
        proof {
            assert(self@.rules.skip(0) =~= self@.rules);
        }
        while i < self.rules.len()
            invariant
                i <= self.rules@.len(),
                spec_highlight_style(self@, cell@, is_selected) == spec_highlight_style(
                    HighlightV { rules: self@.rules.skip(i as int), ..self@ },
                    cell@,
                    is_selected,
                ),
            decreases self.rules@.len() - i,
        {
            let ghost sub = HighlightV { rules: self@.rules.skip(i as int), ..self@ };
            proof {
                assert(sub.rules.len() > 0);
                assert(sub.rules.first() == self@.rules[i as int]);
                assert(sub.rules.drop_first() =~= self@.rules.skip(i as int + 1));
            }
            let r = &self.rules[i];
            if r.text == *cell && r.selected == is_selected {
                return r.style;
            }
            i = i + 1;
        }
        proof {
            assert(self@.rules.skip(self.rules@.len() as int) =~= Seq::<RuleV>::empty());
        }
        if is_selected {
            self.selected_style
        } else {
            self.normal_style
        }
    }
}

/// One table column: a header, a requested pixel width, the cells, and
/// the column's conditional styling.
pub struct Column {
    pub header: String,
    pub header_style: Style,
    pub px_width: usize,
    pub cells: Vec<String>,
    pub highlight: Highlight,
}

/// The mathematical image of a [`Column`].
pub ghost struct ColumnV {
    pub header: Seq<char>,
    pub header_style: Style,
    pub px_width: nat,
    pub cells: Seq<Seq<char>>,
    pub highlight: HighlightV,
}

impl View for Column {
    type V = ColumnV;

    open spec fn view(&self) -> ColumnV {
        ColumnV {
            header: self.header@,
            header_style: self.header_style,
            px_width: self.px_width as nat,
            cells: self.cells@.map_values(|c: String| c@),
            highlight: self.highlight@,
        }
    }
}

/// The mathematical image of a table widget.
pub ghost struct TableV {
    /// The columns, in insertion order.
    pub cols: Seq<ColumnV>,
    /// The common cell count of every column.
    pub height: nat,
    /// Index of the first visible row.
    pub page: nat,
    /// Index of the selected row.
    pub sel: nat,
    /// The rectangle the table was last drawn into.
    pub window: Rect,
}

/// The structural part of the table's well-formedness: every column
/// holds exactly `height` cells.
pub open spec fn table_struct_wf(t: TableV) -> bool {
    forall|i: int| 0 <= i < t.cols.len() ==> #[trigger] t.cols[i].cells.len() == t.height
}

/// The table's well-formedness: every column holds exactly `height`
/// cells, and selection and page start stay inside the rows, with the
/// page never below the selection.
pub open spec fn table_wf(t: TableV) -> bool {
    &&& forall|i: int| 0 <= i < t.cols.len() ==> #[trigger] t.cols[i].cells.len() == t.height
    &&& (t.height == 0 ==> t.sel == 0 && t.page == 0)
    &&& (t.height > 0 ==> t.sel < t.height && t.page <= t.sel)
}

/// The number of data rows the table's viewport can show.
pub open spec fn table_height(t: TableV) -> nat {
    spec_inner_height(t.window, TABLE_H_MARGIN)
}

/// The content width of the table's viewport.
pub open spec fn table_width(t: TableV) -> nat {
    spec_inner_width(t.window, TABLE_W_MARGIN)
}

/// The scroll-follows-selection window invariant: whenever any rows
/// exist and the viewport shows any, the selected row lies inside the
/// visible window `[page, page + visible)`.
pub open spec fn table_window_inv(t: TableV) -> bool {
    t.height == 0 || (t.page <= t.sel && (table_height(t) > 0 ==> t.sel < t.page + table_height(
        t,
    )))
}

/// Moves the page just far enough to contain the selection: up to the
/// selection when it moved above the page, down to put it on the last
/// visible row when it moved below — never further.
pub open spec fn spec_wrap_page(t: TableV) -> TableV {
    let h = table_height(t);
    if t.sel < t.page {
        TableV { page: t.sel, ..t }
    } else if h > 0 && t.sel >= t.page + h {
        TableV { page: (t.sel - h + 1) as nat, ..t }
    } else {
        t
    }
}

/// Moves the selection just far enough to lie inside the window after
/// the page moved: up to the page start, or down to the last visible
/// row.
pub open spec fn spec_wrap_select(t: TableV) -> TableV {
    let h = table_height(t);
    if t.sel < t.page {
        TableV { sel: t.page, ..t }
    } else if h > 0 && t.sel >= t.page + h {
        TableV { sel: (t.page + h - 1) as nat, ..t }
    } else {
        t
    }
}

/// Select one row up, clamping at the first row.
pub open spec fn spec_table_select_up(t: TableV) -> TableV {
    if t.sel > 0 {
        spec_wrap_page(TableV { sel: (t.sel - 1) as nat, ..t })
    } else {
        t
    }
}

/// Select one row down, clamping at the last row.
pub open spec fn spec_table_select_down(t: TableV) -> TableV {
    if t.height > 0 && t.sel < t.height - 1 {
        spec_wrap_page(TableV { sel: (t.sel + 1) as nat, ..t })
    } else {
        t
    }
}

/// Select the first row.
pub open spec fn spec_table_select_first(t: TableV) -> TableV {
    if t.sel != 0 {
        spec_wrap_page(TableV { sel: 0, ..t })
    } else {
        t
    }
}

/// Select the last row, re-applying the window invariant by moving the
/// page up just enough.
pub open spec fn spec_table_select_last(t: TableV) -> TableV {
    if t.height > 0 && t.sel != t.height - 1 {
        spec_wrap_page(TableV { sel: (t.height - 1) as nat, ..t })
    } else {
        t
    }
}

/// Page up by a full viewport of rows (clamped at the top), dragging
/// the selection into the window.
pub open spec fn spec_table_page_up(t: TableV) -> TableV {
    if t.page != 0 {
        let h = table_height(t);
        let shift = if h < t.page {
            h
        } else {
            t.page
        };
        spec_wrap_select(TableV { page: (t.page - shift) as nat, ..t })
    } else {
        t
    }
}

/// Page down by one viewport of rows minus one (keeping one row of
/// context), clamped to the last row, dragging the selection along.
pub open spec fn spec_table_page_down(t: TableV) -> TableV {
    let h = table_height(t);
    if h > 0 && t.height > 0 && t.page < t.height {
        let np = t.page + h - 1;
        let np = if np > t.height - 1 {
            (t.height - 1) as nat
        } else {
            np as nat
        };
        spec_wrap_select(TableV { page: np, ..t })
    } else {
        t
    }
}

/// A click selects the row under `y`, row-granularly: `y` maps to
/// `page + y - TABLE_HEADER_ROWS`, clamped into the rows; `x` plays no
/// part (column clicks are not supported).  Clicks on the chrome or
/// outside the drawn height change nothing.
pub open spec fn spec_table_click(t: TableV, x: u16, y: u16) -> TableV {
    if t.height > 0 && y >= TABLE_HEADER_ROWS && (y as int) < t.window.height {
        let row = t.page + y - TABLE_HEADER_ROWS;
        let row = if row > t.height - 1 {
            (t.height - 1) as nat
        } else {
            row as nat
        };
        spec_wrap_page(TableV { sel: row, ..t })
    } else {
        t
    }
}

/// The multi-column selectable table.
pub struct ITable {
    content: Vec<Column>,
    height: usize,
    idx_page: usize,
    idx_select: usize,
    window: Rect,
}

impl View for ITable {
    type V = TableV;

    closed spec fn view(&self) -> TableV {
        TableV {
            cols: self.content@.map_values(|c: Column| c@),
            height: self.height as nat,
            page: self.idx_page as nat,
            sel: self.idx_select as nat,
            window: self.window,
        }
    }
}

impl ITable {
    /// The table's structural invariant.
    pub open spec fn wf(self) -> bool {
        table_wf(self@)
    }

    /// An empty table: no columns, no rows, never drawn.
    pub fn new() -> (t: ITable)
        ensures
            t.wf(),
            t@ == (TableV {
                cols: Seq::<ColumnV>::empty(),
                height: 0,
                page: 0,
                sel: 0,
                window: Rect { left: 0, top: 0, width: 0, height: 0 },
            }),
    {
        let t = ITable {
            content: Vec::new(),
            height: 0,
            idx_page: 0,
            idx_select: 0,
            window: Rect::empty(),
        };
        proof {
            assert(t@.cols =~= Seq::<ColumnV>::empty());
        }
        t
    }

    /// The number of columns.
    pub fn width(&self) -> (n: usize)
        ensures
            n == self@.cols.len(),
    {
        self.content.len()
    }

    /// The number of rows.
    pub fn row_count(&self) -> (n: usize)
        ensures
            n == self@.height,
    {
        self.height
    }

    /// The index of the selected row.
    pub fn selection_index(&self) -> (n: usize)
        ensures
            n == self@.sel,
    {
        self.idx_select
    }

    /// The index of the first visible row.
    pub fn page_start(&self) -> (n: usize)
        ensures
            n == self@.page,
    {
        self.idx_page
    }

    /// The rectangle the table was last drawn into.
    pub fn area(&self) -> (r: Rect)
        ensures
            r == self@.window,
    {
        self.window
    }

    /// Records the rectangle the table is being drawn into.
    pub fn set_area(&mut self, area: Rect)
        requires
            old(self).wf(),
        ensures
            final(self).wf(),
            final(self)@ == (TableV { window: area, ..old(self)@ }),
    {
        self.window = area;
    }

    /// Content columns available inside the border.
    pub fn get_content_width(&self) -> (w: usize)
        ensures
            w == table_width(self@),
    {
        inner_width(&self.window, TABLE_W_MARGIN)
    }

    /// Data rows the viewport can show.
    pub fn get_content_height(&self) -> (h: usize)
        ensures
            h == table_height(self@),
    {
        inner_height(&self.window, TABLE_H_MARGIN)
    }

    /// Restores the window invariant after the selection moved.
    fn wrap_page(&mut self)
        requires
            table_struct_wf(old(self)@),
            old(self)@.height > 0,
            old(self)@.sel < old(self)@.height,
        ensures
            final(self).wf(),
            final(self)@ == spec_wrap_page(old(self)@),
    {
        let h = self.get_content_height();
        if self.idx_select < self.idx_page {
            self.idx_page = self.idx_select;
        } else if h > 0 && self.idx_select - self.idx_page >= h {
            self.idx_page = (self.idx_select - h) + 1;
        }
    }

    /// Restores the window invariant after the page moved.
    fn wrap_select(&mut self)
        requires
            table_struct_wf(old(self)@),
            old(self)@.height > 0,
            old(self)@.page <= old(self)@.height - 1,
            old(self)@.sel < old(self)@.height,
        ensures
            final(self).wf(),
            final(self)@ == spec_wrap_select(old(self)@),
    {
        let h = self.get_content_height();
        if self.idx_select < self.idx_page {
            self.idx_select = self.idx_page;
        } else if h > 0 && self.idx_select - self.idx_page >= h {
            self.idx_select = self.idx_page + (h - 1);
        }
    }

    /// Selects one row up; at the first row this is a no-op.
    pub fn select_up(&mut self)
        requires
            old(self).wf(),
        ensures
            final(self).wf(),
            final(self)@ == spec_table_select_up(old(self)@),
            table_window_inv(final(self)@) || final(self)@ == old(self)@,
    {
        if self.idx_select > 0 {
            self.idx_select = self.idx_select - 1;
            self.wrap_page();
        }
    }

    /// Selects one row down; at the last row this is a no-op.
    pub fn select_down(&mut self)
        requires
            old(self).wf(),
        ensures
            final(self).wf(),
            final(self)@ == spec_table_select_down(old(self)@),
            table_window_inv(final(self)@) || final(self)@ == old(self)@,
    {
        if self.height > 0 && self.idx_select < self.height - 1 {
            self.idx_select = self.idx_select + 1;
            self.wrap_page();
        }
    }

    /// Selects the first row.
    pub fn select_first(&mut self)
        requires
            old(self).wf(),
        ensures
            final(self).wf(),
            final(self)@ == spec_table_select_first(old(self)@),
            table_window_inv(final(self)@) || final(self)@ == old(self)@,
    {
        if self.idx_select != 0 {
            self.idx_select = 0;
            self.wrap_page();
        }
    }

    /// Selects the last row, scrolling the page up just enough.
    pub fn select_last(&mut self)
        requires
            old(self).wf(),
        ensures
            final(self).wf(),
            final(self)@ == spec_table_select_last(old(self)@),
            table_window_inv(final(self)@) || final(self)@ == old(self)@,
    {
        if self.height > 0 && self.idx_select != self.height - 1 {
            self.idx_select = self.height - 1;
            self.wrap_page();
        }
    }

    /// Pages up by a full viewport of rows.
    pub fn select_page_up(&mut self)
        requires
            old(self).wf(),
        ensures
            final(self).wf(),
            final(self)@ == spec_table_page_up(old(self)@),
            table_window_inv(final(self)@) || final(self)@ == old(self)@,
    {
        if self.idx_page != 0 {
            let h = self.get_content_height();
            let shift = if h < self.idx_page {
                h
            } else {
                self.idx_page
            };
            self.idx_page = self.idx_page - shift;
            self.wrap_select();
        }
    }

    /// Pages down by one viewport of rows minus one, clamped to the
    /// last row.
    pub fn select_page_down(&mut self)
        requires
            old(self).wf(),
        ensures
            final(self).wf(),
            final(self)@ == spec_table_page_down(old(self)@),
            table_window_inv(final(self)@) || final(self)@ == old(self)@,
    {
        let h = self.get_content_height();
        if h > 0 && self.height > 0 && self.idx_page < self.height {
            self.idx_page = if h - 1 > (self.height - 1) - self.idx_page {
                self.height - 1
            } else {
                self.idx_page + (h - 1)
            };
            self.wrap_select();
        }
    }

    /// Click selection (see [`spec_table_click`]).
    pub fn click(&mut self, x: u16, y: u16)
        requires
            old(self).wf(),
        ensures
            final(self).wf(),
            final(self)@ == spec_table_click(old(self)@, x, y),
            table_window_inv(final(self)@) || final(self)@ == old(self)@,
    {
        if self.height > 0 && y >= TABLE_HEADER_ROWS && y < self.window.height {
            let offset = (y - TABLE_HEADER_ROWS) as usize;
            self.idx_select = if offset > (self.height - 1) - self.idx_page {
                self.height - 1
            } else {
                self.idx_page + offset
            };
            self.wrap_page();
        }
    }
}

/// `cells` reconciled to exactly `h` entries: truncated when too long,
/// padded with empty strings when too short.
pub open spec fn spec_align(cells: Seq<Seq<char>>, h: nat) -> Seq<Seq<char>> {
    if cells.len() >= h {
        cells.take(h as int)
    } else {
        cells + Seq::new((h - cells.len()) as nat, |i: int| Seq::<char>::empty())
    }
}

/// Adding a column: the first column fixes the row count from its own
/// cells; every further column is silently reconciled (see
/// [`spec_align`]) to that count rather than rejected.  When the row
/// count changes, the selection and page are pulled back inside it.
pub open spec fn spec_add_column(
    t: TableV,
    header: Seq<char>,
    header_style: Style,
    px_width: nat,
    cells: Seq<Seq<char>>,
    highlight: HighlightV,
) -> TableV {
    let h = if t.cols.len() == 0 {
        cells.len()
    } else {
        t.height
    };
    let sel = if h == 0 {
        0nat
    } else if t.sel > h - 1 {
        (h - 1) as nat
    } else {
        t.sel
    };
    let page = if h == 0 {
        0nat
    } else if t.page > sel {
        sel
    } else {
        t.page
    };
    TableV {
        cols: t.cols.push(
            ColumnV { header, header_style, px_width, cells: spec_align(cells, h), highlight },
        ),
        height: h,
        sel,
        page,
        ..t
    }
}

/// Appending a row pushes one cell onto every column and grows the row
/// count by one.
pub open spec fn spec_add_row(t: TableV, row: Seq<Seq<char>>) -> TableV {
    TableV {
        cols: Seq::new(
            t.cols.len(),
            |i: int| ColumnV { cells: t.cols[i].cells.push(row[i]), ..t.cols[i] },
        ),
        height: (t.height + 1) as nat,
        ..t
    }
}

/// Removing a column deletes it whole; the row count is untouched.
pub open spec fn spec_remove_col(t: TableV, idx: int) -> TableV {
    TableV { cols: t.cols.remove(idx), ..t }
}

/// Removing a row deletes one cell from every column and pulls the
/// selection and the page back inside the remaining rows.
pub open spec fn spec_remove_row(t: TableV, idx: int) -> TableV {
    let cols = Seq::new(
        t.cols.len(),
        |i: int| ColumnV { cells: t.cols[i].cells.remove(idx), ..t.cols[i] },
    );
    let h = (t.height - 1) as nat;
    let sel = if h == 0 {
        0nat
    } else if t.sel > h - 1 {
        (h - 1) as nat
    } else {
        t.sel
    };
    let page = if h == 0 {
        0nat
    } else if t.page > sel {
        sel
    } else {
        t.page
    };
    TableV { cols, height: h, sel, page, ..t }
}

impl ITable {
    /// Pulls the selection and page back inside the rows after the row
    /// count changed.
    fn reconcile_selection(&mut self)
        requires
            table_struct_wf(old(self)@),
        ensures
            final(self).wf(),
            final(self)@.cols == old(self)@.cols,
            final(self)@.height == old(self)@.height,
            final(self)@.window == old(self)@.window,
            final(self)@.sel == (if old(self)@.height == 0 {
                0nat
            } else if old(self)@.sel > old(self)@.height - 1 {
                (old(self)@.height - 1) as nat
            } else {
                old(self)@.sel
            }),
            final(self)@.page == (if old(self)@.height == 0 {
                0nat
            } else if old(self)@.page > final(self)@.sel {
                final(self)@.sel
            } else {
                old(self)@.page
            }),
    {
        if self.height == 0 {
            self.idx_select = 0;
            self.idx_page = 0;
        } else {
            if self.idx_select > self.height - 1 {
                self.idx_select = self.height - 1;
            }
            if self.idx_page > self.idx_select {
                self.idx_page = self.idx_select;
            }
        }
    }

    /// Adds a column (see [`spec_add_column`]).  After any sequence of
    /// such calls, every column holds exactly `height` cells.
    pub fn add_column(
        &mut self,
        header: String,
        header_style: Style,
        px_width: usize,
        column: Vec<String>,
        highlight: Highlight,
    )
        requires
            old(self).wf(),
        ensures
            final(self).wf(),
            final(self)@ == spec_add_column(
                old(self)@,
                header@,
                header_style,
                px_width as nat,
                column@.map_values(|c: String| c@),
                highlight@,
            ),
            forall|i: int|
                0 <= i < final(self)@.cols.len() ==> #[trigger] final(self)@.cols[i].cells.len() == final(self)@.height,
    {
        let ghost origv = column@.map_values(|c: String| c@);
        let ghost headerv = header@;
        let ghost hlv = highlight@;
        let mut cells = column;
        if self.content.len() == 0 {
            self.height = cells.len();
        }
        let target_h = self.height;
        if cells.len() > target_h {
            cells.truncate(target_h);
            proof {
                assert(cells@.map_values(|c: String| c@) =~= spec_align(origv, target_h as nat));
            }
        } else {
            while cells.len() < target_h
                invariant
                    cells@.len() <= target_h,
                    cells@.len() >= origv.len(),
                    origv.len() == cells@.len() || origv.len() < cells@.len(),
                    forall|j: int| 0 <= j < origv.len() ==> (#[trigger] cells@[j])@ == origv[j],
                    forall|j: int|
                        origv.len() <= j < cells@.len() ==> (#[trigger] cells@[j])@
                            == Seq::<char>::empty(),
                decreases target_h - cells@.len(),
            {
                cells.push(String::new());
            }
            proof {
                assert(cells@.map_values(|c: String| c@) =~= spec_align(origv, target_h as nat));
            }
        }
        let ghost cellsv = cells@.map_values(|c: String| c@);
        let ghost before = self@;
        self.content.push(Column { header, header_style, px_width, cells, highlight });
        proof {
            assert(self@.cols =~= before.cols.push(
                ColumnV {
                    header: headerv,
                    header_style,
                    px_width: px_width as nat,
                    cells: cellsv,
                    highlight: hlv,
                },
            ));
            assert(spec_align(origv, target_h as nat).len() == target_h);
            assert(table_struct_wf(self@));
        }
        self.reconcile_selection();
    }

    /// Appends one row; the row must hold exactly one cell per column,
    /// else nothing changes and `WidthMismatch` comes back.
    pub fn add_row(&mut self, row: Vec<String>) -> (r: Result<(), UiError>)
        requires
            old(self).wf(),
            old(self)@.height < usize::MAX,
        ensures
            final(self).wf(),
            r is Ok <==> row@.len() == old(self)@.cols.len(),
            r is Ok ==> final(self)@ == spec_add_row(
                old(self)@,
                row@.map_values(|c: String| c@),
            ),
            r is Err ==> r == Result::<(), UiError>::Err(UiError::WidthMismatch) && final(self)@
                == old(self)@,
    {
        if row.len() != self.content.len() {
            return Err(UiError::WidthMismatch);
        }
        let ghost rowv = row@.map_values(|c: String| c@);
        let n = self.content.len();
        let mut i: usize = 0;
        while i < n
            invariant
                i <= n,
                n == self.content@.len(),
                n == old(self).content@.len(),
                n == row@.len(),
                rowv == row@.map_values(|c: String| c@),
                self.height == old(self).height,
                self.idx_page == old(self).idx_page,
                self.idx_select == old(self).idx_select,
                self.window == old(self).window,
                forall|j: int|
                    0 <= j < i ==> #[trigger] self.content@[j]@ == (ColumnV {
                        cells: old(self)@.cols[j].cells.push(rowv[j]),
                        ..old(self)@.cols[j]
                    }),
                forall|j: int| i <= j < n ==> #[trigger] self.content@[j] == old(self).content@[j],
            decreases n - i,
        {
            let ghost pre = self.content@;
            let mut col = self.content.remove(i);
            let cell = row[i].clone();
            proof {
                assert(cell@ == rowv[i as int]);
                assert(col == old(self).content@[i as int]);
                assert(col@ == old(self)@.cols[i as int]);
            }
            col.cells.push(cell);
            proof {
                assert(col@.cells =~= old(self)@.cols[i as int].cells.push(rowv[i as int]));
                assert(col@ == (ColumnV {
                    cells: old(self)@.cols[i as int].cells.push(rowv[i as int]),
                    ..old(self)@.cols[i as int]
                }));
            }
            self.content.insert(i, col);
            proof {
                assert(self.content@.len() == n);
                assert(self.content@[i as int] == col);
                assert(forall|j: int|
                    0 <= j < n && j != i ==> #[trigger] self.content@[j] == pre[j]);
            }
            i = i + 1;
        }
        self.height = self.height + 1;
        proof {
            assert(self@.cols =~= spec_add_row(old(self)@, rowv).cols);
        }
        Ok(())
    }

    /// Removes the column at `idx`; an index past the last column
    /// changes nothing and comes back as `IndexOutOfRange`.
    pub fn remove_col(&mut self, idx: usize) -> (r: Result<(), UiError>)
        requires
            old(self).wf(),
        ensures
            final(self).wf(),
            r is Ok <==> idx < old(self)@.cols.len(),
            r is Ok ==> final(self)@ == spec_remove_col(old(self)@, idx as int),
            r is Err ==> r == Result::<(), UiError>::Err(UiError::IndexOutOfRange) && final(self)@ == old(self)@,
    {
        if idx >= self.content.len() {
            return Err(UiError::IndexOutOfRange);
        }
        self.content.remove(idx);
        proof {
            assert(self@.cols =~= old(self)@.cols.remove(idx as int));
        }
        Ok(())
    }

    /// Removes the row at `idx` from every column; an index past the
    /// last row changes nothing and comes back as `IndexOutOfRange`.
    pub fn remove_row(&mut self, idx: usize) -> (r: Result<(), UiError>)
        requires
            old(self).wf(),
        ensures
            final(self).wf(),
            r is Ok <==> idx < old(self)@.height,
            r is Ok ==> final(self)@ == spec_remove_row(old(self)@, idx as int),
            r is Err ==> r == Result::<(), UiError>::Err(UiError::IndexOutOfRange) && final(self)@ == old(self)@,
    {
        if idx >= self.height {
            return Err(UiError::IndexOutOfRange);
        }
        let n = self.content.len();
        let mut i: usize = 0;
        while i < n
            invariant
                i <= n,
                idx < old(self)@.height,
                n == self.content@.len(),
                n == old(self).content@.len(),
                self.height == old(self).height,
                self.idx_page == old(self).idx_page,
                self.idx_select == old(self).idx_select,
                self.window == old(self).window,
                table_struct_wf(old(self)@),
                forall|j: int|
                    0 <= j < i ==> #[trigger] self.content@[j]@ == (ColumnV {
                        cells: old(self)@.cols[j].cells.remove(idx as int),
                        ..old(self)@.cols[j]
                    }),
                forall|j: int| i <= j < n ==> #[trigger] self.content@[j] == old(self).content@[j],
            decreases n - i,
        {
            let ghost pre = self.content@;
            let mut col = self.content.remove(i);
            proof {
                assert(col == old(self).content@[i as int]);
                assert(col@ == old(self)@.cols[i as int]);
                assert(old(self)@.cols[i as int].cells.len() == old(self)@.height);
                assert(col.cells@.len() == old(self)@.height);
            }
            col.cells.remove(idx);
            proof {
                assert(col@.cells =~= old(self)@.cols[i as int].cells.remove(idx as int));
                assert(col@ == (ColumnV {
                    cells: old(self)@.cols[i as int].cells.remove(idx as int),
                    ..old(self)@.cols[i as int]
                }));
            }
            self.content.insert(i, col);
            proof {
                assert(self.content@.len() == n);
                assert(self.content@[i as int] == col);
                assert(forall|j: int|
                    0 <= j < n && j != i ==> #[trigger] self.content@[j] == pre[j]);
            }
            i = i + 1;
        }
        self.height = self.height - 1;
        proof {
            assert(table_struct_wf(self@)) by {
                assert(forall|j: int|
                    0 <= j < self@.cols.len() ==> #[trigger] self@.cols[j].cells.len()
                        == self@.height);
            }
        }
        self.reconcile_selection();
        proof {
            assert(self@.cols =~= spec_remove_row(old(self)@, idx as int).cols);
        }
        Ok(())
    }

    /// Reads one cell, or `None` past the bounds.
    pub fn cell_text(&self, col: usize, row: usize) -> (r: Option<String>)
        requires
            self.wf(),
        ensures
            (r is Some <==> col < self@.cols.len() && row < self@.height),
            r is Some ==> r.unwrap()@ == self@.cols[col as int].cells[row as int],
    {
        if col < self.content.len() {
            let c = &self.content[col];
            proof {
                assert(c@ == self@.cols[col as int]);
                assert(self@.cols[col as int].cells.len() == self@.height);
                assert(c.cells@.len() == self@.height);
            }
            if row < c.cells.len() {
                let cell = c.cells[row].clone();
                proof {
                    assert(cell@ == self@.cols[col as int].cells[row as int]);
                }
                return Some(cell);
            }
        }
        None
    }
}

/// One column of the table's visual content: the header and the
/// styled cells of the rows on the current page.
pub struct ColumnPlan {
    pub header: String,
    pub header_style: Style,
    pub px_width: usize,
    pub cells: Vec<Run>,
}

/// The mathematical image of a [`ColumnPlan`].
pub ghost struct ColumnPlanV {
    pub header: Seq<char>,
    pub header_style: Style,
    pub px_width: nat,
    pub cells: Seq<RunV>,
}

impl View for ColumnPlan {
    type V = ColumnPlanV;

    open spec fn view(&self) -> ColumnPlanV {
        ColumnPlanV {
            header: self.header@,
            header_style: self.header_style,
            px_width: self.px_width as nat,
            cells: self.cells@.map_values(|r: Run| r@),
        }
    }
}

/// One past the last visible row: the page start plus the viewport's
/// rows, clamped to the row count.
pub open spec fn spec_visible_end(t: TableV) -> nat {
    if t.page + table_height(t) > t.height {
        t.height
    } else {
        (t.page + table_height(t)) as nat
    }
}

/// The visible cells of one column, each styled by the column's
/// highlight for its selection state.
pub open spec fn spec_column_visible(c: ColumnV, page: nat, end: nat, sel: nat) -> Seq<RunV> {
    Seq::new(
        (end - page) as nat,
        |j: int|
            RunV {
                text: c.cells[page + j],
                style: spec_highlight_style(c.highlight, c.cells[page + j], page + j == sel),
            },
    )
}

/// The table's visual content: every column with its visible rows.
pub open spec fn spec_table_visible(t: TableV) -> Seq<ColumnPlanV> {
    Seq::new(
        t.cols.len(),
        |i: int|
            ColumnPlanV {
                header: t.cols[i].header,
                header_style: t.cols[i].header_style,
                px_width: t.cols[i].px_width,
                cells: spec_column_visible(t.cols[i], t.page, spec_visible_end(t), t.sel),
            },
    )
}

impl ITable {
    /// Copies out the visual content of the current page (see
    /// [`spec_table_visible`]).
    pub fn visible_columns(&self) -> (out: Vec<ColumnPlan>)
        requires
            self.wf(),
        ensures
            out@.map_values(|c: ColumnPlan| c@) == spec_table_visible(self@),
    {
        let h = self.get_content_height();
        let page = self.idx_page;
        let end = if self.height == 0 {
            0
        } else if h < self.height - page {
            page + h
        } else {
            self.height
        };
        proof {
            assert(end == spec_visible_end(self@));
            assert(page <= end);
        }
        let mut out: Vec<ColumnPlan> = Vec::new();
        let n = self.content.len();
        let mut i: usize = 0;
        while i < n
            invariant
                i <= n,
                self.wf(),
                n == self.content@.len(),
                page == self@.page,
                page <= end <= self@.height,
                end == spec_visible_end(self@),
                out@.len() == i,
                forall|k: int| 0 <= k < i ==> #[trigger] out@[k]@ == spec_table_visible(self@)[k],
            decreases n - i,
        {
            let c = &self.content[i];
            proof {
                assert(c@ == self@.cols[i as int]);
                assert(c@.cells.len() == self@.height);
                assert(c.cells@.len() == self@.height);
            }
            let mut runs: Vec<Run> = Vec::new();
            let mut r: usize = page;
            while r < end
                invariant
                    page <= r <= end,
                    end <= c.cells@.len(),
                    c@ == self@.cols[i as int],
                    runs@.len() == r - page,
                    forall|j: int|
                        0 <= j < r - page ==> (#[trigger] runs@[j])@ == spec_column_visible(
                            c@,
                            page as nat,
                            end as nat,
                            self@.sel,
                        )[j],
                decreases end - r,
            {
                let cell = &c.cells[r];
                let style = c.highlight.style_for(cell, r == self.idx_select);
                runs.push(Run::new(cell.clone(), style));
                proof {
                    assert(cell@ == c@.cells[r as int]);
                    assert((r == self.idx_select) == (page + (r - page) == self@.sel));
                }
                r = r + 1;
            }
            let plan = ColumnPlan {
                header: c.header.clone(),
                header_style: c.header_style,
                px_width: c.px_width,
                cells: runs,
            };
            proof {
                assert(plan@.cells =~= spec_column_visible(
                    c@,
                    page as nat,
                    end as nat,
                    self@.sel,
                ));
                assert(plan@ == spec_table_visible(self@)[i as int]);
            }
            out.push(plan);
            i = i + 1;
        }
        proof {
            assert(out@.map_values(|c: ColumnPlan| c@) =~= spec_table_visible(self@));
        }
        out
    }
}

/// The scroll-follows-selection window invariant survives every
/// navigation capability: from any well-formed state satisfying it,
/// each navigation call leaves it satisfied (active moves re-establish
/// it, no-op moves keep it).
pub proof fn lemma_table_nav_keeps_window_inv(t: TableV, x: u16, y: u16)
    requires
        table_wf(t),
        table_window_inv(t),
    ensures
        table_window_inv(spec_table_select_up(t)),
        table_window_inv(spec_table_select_down(t)),
        table_window_inv(spec_table_select_first(t)),
        table_window_inv(spec_table_select_last(t)),
        table_window_inv(spec_table_page_up(t)),
        table_window_inv(spec_table_page_down(t)),
        table_window_inv(spec_table_click(t, x, y)),
{
}

/// One row down then one row up returns the selection to where it was,
/// whenever neither move clamps at a boundary (the page may move, the
/// selection may not).
pub proof fn lemma_table_down_up_inverse(t: TableV)
    requires
        table_wf(t),
        t.height > 0,
        t.sel + 1 < t.height,
    ensures
        spec_table_select_up(spec_table_select_down(t)).sel == t.sel,
{
}

/// At the boundaries the single-row moves clamp instead of wrapping:
/// down on the last row and up on the first are no-ops.
pub proof fn lemma_table_boundary_clamps(t: TableV)
    requires
        table_wf(t),
        t.height > 0,
    ensures
        t.sel == t.height - 1 ==> spec_table_select_down(t) == t,
        t.sel == 0 ==> spec_table_select_up(t) == t,
{
}

} // verus!
