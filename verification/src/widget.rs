//! The closed set of widget kinds behind one capability interface.
//!
//! A widget is a tagged value of a concrete kind; calling a capability
//! needs no knowledge of the kind at the call site — the dispatcher
//! resolves it in exactly one safe `match`.  A capability a kind does
//! not implement is a safe no-op.

use vstd::prelude::*;

use crate::pagination::{lines_v, Run, RunV};
use crate::paragraph::{
    spec_para_page_down, spec_para_page_up, spec_para_select_down, spec_para_select_first,
    spec_para_select_last, spec_para_select_up, spec_para_visible, para_wf, IParagraph, ParagraphV,
};
use crate::table::{
    spec_table_click, spec_table_page_down, spec_table_page_up, spec_table_select_down,
    spec_table_select_first, spec_table_select_last, spec_table_select_up, spec_table_visible,
    table_wf, ColumnPlan, ColumnPlanV, ITable, TableV,
};
use crate::geom::Rect;

verus! {

/// A placeholder widget: every capability is a no-op.
pub struct IEmpty;

/// One widget of some concrete kind.
pub enum Widget {
    Empty(IEmpty),
    Paragraph(IParagraph),
    Table(ITable),
}

/// The mathematical image of a [`Widget`].
pub ghost enum WidgetV {
    Empty,
    Paragraph(ParagraphV),
    Table(TableV),
}

impl View for Widget {
    type V = WidgetV;

    open spec fn view(&self) -> WidgetV {
        match self {
            Widget::Empty(_) => WidgetV::Empty,
            Widget::Paragraph(p) => WidgetV::Paragraph(p@),
            Widget::Table(t) => WidgetV::Table(t@),
        }
    }
}

/// The well-formedness of a widget of any kind.
pub open spec fn widget_wf(w: WidgetV) -> bool {
    match w {
        WidgetV::Empty => true,
        WidgetV::Paragraph(p) => para_wf(p),
        WidgetV::Table(t) => table_wf(t),
    }
}

/// A navigation capability: every widget kind accepts each of these.
#[derive(Clone, Copy, Debug, PartialEq, Eq, Structural)]
pub enum NavCap {
    Up,
    Down,
    First,
    Last,
    PageUp,
    PageDown,
}

/// What a navigation capability does to a widget: the kind's own
/// transition, or nothing for a kind without one.
pub open spec fn spec_widget_nav(w: WidgetV, cap: NavCap) -> WidgetV {
    match w {
        WidgetV::Empty => w,
        WidgetV::Paragraph(p) => WidgetV::Paragraph(
            match cap {
                NavCap::Up => spec_para_select_up(p),
                NavCap::Down => spec_para_select_down(p),
                NavCap::First => spec_para_select_first(p),
                NavCap::Last => spec_para_select_last(p),
                NavCap::PageUp => spec_para_page_up(p),
                NavCap::PageDown => spec_para_page_down(p),
            },
        ),
        WidgetV::Table(t) => WidgetV::Table(
            match cap {
                NavCap::Up => spec_table_select_up(t),
                NavCap::Down => spec_table_select_down(t),
                NavCap::First => spec_table_select_first(t),
                NavCap::Last => spec_table_select_last(t),
                NavCap::PageUp => spec_table_page_up(t),
                NavCap::PageDown => spec_table_page_down(t),
            },
        ),
    }
}

/// What a click at widget-local `(x, y)` does: only the table reacts.
pub open spec fn spec_widget_click(w: WidgetV, x: u16, y: u16) -> WidgetV {
    match w {
        WidgetV::Table(t) => WidgetV::Table(spec_table_click(t, x, y)),
        _ => w,
    }
}

/// A widget after learning the rectangle it is drawn into.
pub open spec fn spec_widget_set_area(w: WidgetV, area: Rect) -> WidgetV {
    match w {
        WidgetV::Empty => w,
        WidgetV::Paragraph(p) => WidgetV::Paragraph(ParagraphV { window: area, ..p }),
        WidgetV::Table(t) => WidgetV::Table(TableV { window: area, ..t }),
    }
}

/// Applies a navigation capability to a widget of any kind.
pub fn widget_nav(w: Widget, cap: NavCap) -> (out: Widget)
    requires
        widget_wf(w@),
    ensures
        widget_wf(out@),
        out@ == spec_widget_nav(w@, cap),
{
    match w {
        Widget::Empty(e) => Widget::Empty(e),
        Widget::Paragraph(mut p) => {
            match cap {
                NavCap::Up => p.select_up(),
                NavCap::Down => p.select_down(),
                NavCap::First => p.select_first(),
                NavCap::Last => p.select_last(),
                NavCap::PageUp => p.select_page_up(),
                NavCap::PageDown => p.select_page_down(),
            }
            Widget::Paragraph(p)
        },
        Widget::Table(mut t) => {
            match cap {
                NavCap::Up => t.select_up(),
                NavCap::Down => t.select_down(),
                NavCap::First => t.select_first(),
                NavCap::Last => t.select_last(),
                NavCap::PageUp => t.select_page_up(),
                NavCap::PageDown => t.select_page_down(),
            }
            Widget::Table(t)
        },
    }
}

/// Forwards a widget-local click to a widget of any kind.
pub fn widget_click(w: Widget, x: u16, y: u16) -> (out: Widget)
    requires
        widget_wf(w@),
    ensures
        widget_wf(out@),
        out@ == spec_widget_click(w@, x, y),
{
    match w {
        Widget::Table(mut t) => {
            t.click(x, y);
            Widget::Table(t)
        },
        other => other,
    }
}

/// Tells a widget the rectangle it is being drawn into.
pub fn widget_set_area(w: Widget, area: Rect) -> (out: Widget)
    requires
        widget_wf(w@),
    ensures
        widget_wf(out@),
        out@ == spec_widget_set_area(w@, area),
{
    match w {
        Widget::Empty(e) => Widget::Empty(e),
        Widget::Paragraph(mut p) => {
            p.set_area(area);
            Widget::Paragraph(p)
        },
        Widget::Table(mut t) => {
            t.set_area(area);
            Widget::Table(t)
        },
    }
}

/// Whether the widget takes part in selection.  Every current kind
/// does; the capability exists so a kind may opt out.
pub fn widget_selectable(w: &Widget) -> (b: bool)
    ensures
        b,
{
    match w {
        Widget::Empty(_) => true,
        Widget::Paragraph(_) => true,
        Widget::Table(_) => true,
    }
}

/// A widget's visual content under its current rectangle.
pub enum RenderPlan {
    Empty,
    Paragraph(Vec<Vec<Run>>),
    Table(Vec<ColumnPlan>),
}

/// The mathematical image of a [`RenderPlan`].
pub ghost enum RenderPlanV {
    Empty,
    Paragraph(Seq<Seq<RunV>>),
    Table(Seq<ColumnPlanV>),
}

impl View for RenderPlan {
    type V = RenderPlanV;

    open spec fn view(&self) -> RenderPlanV {
        match self {
            RenderPlan::Empty => RenderPlanV::Empty,
            RenderPlan::Paragraph(lines) => RenderPlanV::Paragraph(lines_v(*lines)),
            RenderPlan::Table(cols) => RenderPlanV::Table(
                cols@.map_values(|c: ColumnPlan| c@),
            ),
        }
    }
}

/// The visual content a widget shows: what is visible, not how it is
/// painted.
pub open spec fn spec_widget_visible(w: WidgetV) -> RenderPlanV {
    match w {
        WidgetV::Empty => RenderPlanV::Empty,
        WidgetV::Paragraph(p) => RenderPlanV::Paragraph(spec_para_visible(p)),
        WidgetV::Table(t) => RenderPlanV::Table(spec_table_visible(t)),
    }
}

/// Computes a widget's visual content (see [`spec_widget_visible`]).
pub fn widget_visible(w: &Widget) -> (plan: RenderPlan)
    requires
        widget_wf(w@),
    ensures
        plan@ == spec_widget_visible(w@),
{
    match w {
        Widget::Empty(_) => RenderPlan::Empty,
        Widget::Paragraph(p) => RenderPlan::Paragraph(p.visible_lines()),
        Widget::Table(t) => RenderPlan::Table(t.visible_columns()),
    }
}

} // verus!
