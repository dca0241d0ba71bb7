//! The engine itself: a registry of named widgets, the focus controller
//! with its configurable adjacency table, and the modal input state
//! machine that routes events to the focused widget.

use vstd::prelude::*;

use crate::errors::UiError;
use crate::events::{Event, EventV};
use crate::geom::{Direction, Rect, Region};
use crate::text::{spec_contains_seq, contains_sub, str_eq, string_pop, string_push};
use crate::style::{Color, Style};
use crate::widget::{
    spec_widget_click, spec_widget_nav, spec_widget_set_area, spec_widget_visible, widget_click,
    widget_nav, widget_set_area, widget_visible, widget_wf, NavCap, RenderPlan, RenderPlanV,
    Widget, WidgetV,
};

verus! {

/// How long a pending `g` waits for its second `g` before the mode
/// falls back to normal, in milliseconds.  The timeout is polled on
/// ticks, so it takes effect at or after this delay, not exactly at it.
pub const WAITG_TIMEOUT_MS: u64 = 2000;

/// The modal input state: plain key routing, line editing, or a pending
/// `g` with the time it was struck.  The three are mutually exclusive
/// by construction.
pub enum Status {
    Normal,
    Insert(String),
    WaitG(u64),
}

/// The mathematical image of a [`Status`].
pub ghost enum StatusV {
    Normal,
    Insert(Seq<char>),
    WaitG(u64),
}

impl View for Status {
    type V = StatusV;

    open spec fn view(&self) -> StatusV {
        match self {
            Status::Normal => StatusV::Normal,
            Status::Insert(buf) => StatusV::Insert(buf@),
            Status::WaitG(since) => StatusV::WaitG(*since),
        }
    }
}

impl Clone for Status {
    /// An exact copy of the mode.
    fn clone(&self) -> (r: Status)
        ensures
            r == *self,
    {
        match self {
            Status::Normal => Status::Normal,
            Status::Insert(buf) => Status::Insert(buf.clone()),
            Status::WaitG(since) => Status::WaitG(*since),
        }
    }
}

/// What one event did: handled, committed a typed line, or fell through
/// to the diagnostic no-op for an unmatched state/event pair (handed
/// back so the caller can log it).
pub enum Outcome {
    Done,
    Committed(String),
    Ignored,
}

/// The mathematical image of an [`Outcome`].
pub ghost enum OutcomeV {
    Done,
    Committed(Seq<char>),
    Ignored,
}

impl View for Outcome {
    type V = OutcomeV;

    open spec fn view(&self) -> OutcomeV {
        match self {
            Outcome::Done => OutcomeV::Done,
            Outcome::Committed(s) => OutcomeV::Committed(s@),
            Outcome::Ignored => OutcomeV::Ignored,
        }
    }
}

/// One registered widget: its name, the instance, its layout region,
/// and the rectangle it was last drawn into.
struct WidgetEntry {
    name: String,
    widget: Widget,
    region: Region,
    rect: Rect,
}

/// The mathematical image of a registry entry.
pub ghost struct EntryV {
    pub name: Seq<char>,
    pub widget: WidgetV,
    pub region: Region,
    pub rect: Rect,
}

impl View for WidgetEntry {
    type V = EntryV;

    closed spec fn view(&self) -> EntryV {
        EntryV { name: self.name@, widget: self.widget@, region: self.region, rect: self.rect }
    }
}

/// One edge of the focus adjacency table: from this widget, in this
/// direction, focus moves to that widget.
struct Neighbor {
    from: String,
    dir: Direction,
    to: String,
}

/// The mathematical image of an adjacency edge.
pub ghost struct NeighborV {
    pub from: Seq<char>,
    pub dir: Direction,
    pub to: Seq<char>,
}

impl View for Neighbor {
    type V = NeighborV;

    closed spec fn view(&self) -> NeighborV {
        NeighborV { from: self.from@, dir: self.dir, to: self.to@ }
    }
}

/// The mathematical image of the whole engine.
pub ghost struct AppV {
    /// Registered widgets, in registration order.
    pub entries: Seq<EntryV>,
    /// The focus adjacency table, in insertion order.
    pub adjacency: Seq<NeighborV>,
    /// The name of the focused widget, if any.
    pub focus: Option<Seq<char>>,
    /// The modal input state.
    pub status: StatusV,
}

/// The index of the first entry named `n`, or `-1`.
pub open spec fn spec_find_entry(es: Seq<EntryV>, n: Seq<char>) -> int
    decreases es.len(),
{
    if es.len() == 0 {
        -1
    } else if es[0].name == n {
        0
    } else {
        let r = spec_find_entry(es.drop_first(), n);
        if r < 0 {
            -1
        } else {
            r + 1
        }
    }
}

/// `spec_find_entry` finds exactly the first entry with the name.
pub proof fn lemma_find_entry(es: Seq<EntryV>, n: Seq<char>)
    ensures
        spec_find_entry(es, n) < 0 ==> forall|j: int| 0 <= j < es.len() ==> es[j].name != n,
        spec_find_entry(es, n) >= 0 ==> spec_find_entry(es, n) < es.len() && es[spec_find_entry(
            es,
            n,
        )].name == n && forall|j: int| 0 <= j < spec_find_entry(es, n) ==> es[j].name != n,
    decreases es.len(),
{
    if es.len() != 0 && es[0].name != n {
        lemma_find_entry(es.drop_first(), n);
        let r = spec_find_entry(es.drop_first(), n);
        if r < 0 {
            assert forall|j: int| 0 <= j < es.len() implies es[j].name != n by {
                if j > 0 {
                    assert(es.drop_first()[j - 1] == es[j]);
                }
            }
        } else {
            assert(es.drop_first()[r] == es[r + 1]);
            assert forall|j: int| 0 <= j < r + 1 implies es[j].name != n by {
                if j > 0 {
                    assert(es.drop_first()[j - 1] == es[j]);
                }
            }
        }
    }
}

/// The name of the first entry whose rectangle strictly contains the
/// point, in registration order — the documented tie-break when drawn
/// rectangles overlap.
pub open spec fn spec_hit_test(es: Seq<EntryV>, x: u16, y: u16) -> Option<Seq<char>>
    decreases es.len(),
{
    if es.len() == 0 {
        Option::None
    } else if es[0].rect.spec_contains_strict(x, y) {
        Option::Some(es[0].name)
    } else {
        spec_hit_test(es.drop_first(), x, y)
    }
}

/// A hit names an entry whose rectangle strictly contains the point.
pub proof fn lemma_hit_test_found(es: Seq<EntryV>, x: u16, y: u16)
    requires
        spec_hit_test(es, x, y) is Some,
    ensures
        exists|j: int|
            0 <= j < es.len() && (#[trigger] es[j].name) == spec_hit_test(es, x, y).unwrap()
                && es[j].rect.spec_contains_strict(x, y),
    decreases es.len(),
{
    if es.len() != 0 {
        if es[0].rect.spec_contains_strict(x, y) {
            assert(es[0].name == spec_hit_test(es, x, y).unwrap());
        } else {
            lemma_hit_test_found(es.drop_first(), x, y);
            let j = choose|j: int|
                0 <= j < es.drop_first().len() && (#[trigger] es.drop_first()[j].name)
                    == spec_hit_test(es.drop_first(), x, y).unwrap()
                    && es.drop_first()[j].rect.spec_contains_strict(x, y);
            assert(es.drop_first()[j] == es[j + 1]);
            assert(es[j + 1].name == spec_hit_test(es, x, y).unwrap());
        }
    }
}

/// A point strictly inside no entry's rectangle hits nothing.
pub proof fn lemma_hit_test_miss(es: Seq<EntryV>, x: u16, y: u16)
    requires
        forall|j: int| 0 <= j < es.len() ==> !(#[trigger] es[j].rect).spec_contains_strict(x, y),
    ensures
        spec_hit_test(es, x, y) is None,
    decreases es.len(),
{
    if es.len() != 0 {
        assert(forall|j: int|
            0 <= j < es.drop_first().len() ==> es.drop_first()[j] == es[j + 1]);
        lemma_hit_test_miss(es.drop_first(), x, y);
    }
}

/// Two rectangles with no interior point in common: one lies wholly to
/// the left of, right of, above or below the other.
pub open spec fn spec_rects_disjoint(a: Rect, b: Rect) -> bool {
    a.spec_right() <= b.left || b.spec_right() <= a.left || a.spec_bottom() <= b.top
        || b.spec_bottom() <= a.top
}

/// When the drawn rectangles are pairwise disjoint, a point strictly
/// inside one widget's rectangle hits exactly that widget, whatever the
/// registration order.
pub proof fn lemma_hit_test_disjoint(es: Seq<EntryV>, i: int, x: u16, y: u16)
    requires
        0 <= i < es.len(),
        es[i].rect.spec_contains_strict(x, y),
        forall|j: int, k: int|
            0 <= j < k < es.len() ==> spec_rects_disjoint(
                (#[trigger] es[j]).rect,
                (#[trigger] es[k]).rect,
            ),
    ensures
        spec_hit_test(es, x, y) == Option::Some(es[i].name),
    decreases es.len(),
{
    if i == 0 {
    } else {
        assert(spec_rects_disjoint(es[0].rect, es[i].rect));
        assert(!es[0].rect.spec_contains_strict(x, y));
        assert(forall|j: int|
            0 <= j < es.drop_first().len() ==> es.drop_first()[j] == es[j + 1]);
        assert(forall|j: int, k: int|
            0 <= j < k < es.drop_first().len() ==> spec_rects_disjoint(
                (#[trigger] es.drop_first()[j]).rect,
                (#[trigger] es.drop_first()[k]).rect,
            ));
        lemma_hit_test_disjoint(es.drop_first(), i - 1, x, y);
    }
}

/// The target of the first adjacency edge leaving `from` in direction
/// `dir`, or `None`: an unknown pair makes focus movement a no-op.
pub open spec fn spec_find_neighbor(adj: Seq<NeighborV>, from: Seq<char>, dir: Direction) -> Option<
    Seq<char>,
>
    decreases adj.len(),
{
    if adj.len() == 0 {
        Option::None
    } else if adj[0].from == from && adj[0].dir == dir {
        Option::Some(adj[0].to)
    } else {
        spec_find_neighbor(adj.drop_first(), from, dir)
    }
}

/// The engine: owns every widget, the focus, and the input mode.
pub struct App {
    entries: Vec<WidgetEntry>,
    adjacency: Vec<Neighbor>,
    /// The name of the focused widget; `None` makes navigation a no-op.
    pub curr_widget: Option<String>,
    /// The modal input state.
    pub status: Status,
}

impl View for App {
    type V = AppV;

    closed spec fn view(&self) -> AppV {
        AppV {
            entries: self.entries@.map_values(|e: WidgetEntry| e@),
            adjacency: self.adjacency@.map_values(|n: Neighbor| n@),
            focus: match self.curr_widget {
                Option::None => Option::None,
                Option::Some(ref s) => Option::Some(s@),
            },
            status: self.status@,
        }
    }
}

/// The engine's well-formedness: every widget is well-formed and no two
/// entries share a name.
pub open spec fn app_wf(a: AppV) -> bool {
    &&& forall|i: int| 0 <= i < a.entries.len() ==> widget_wf((#[trigger] a.entries[i]).widget)
    &&& forall|i: int, j: int|
        0 <= i < j < a.entries.len() ==> (#[trigger] a.entries[i]).name != (
        #[trigger] a.entries[j]).name
}

impl App {
    /// The engine's structural invariant.
    pub open spec fn wf(self) -> bool {
        app_wf(self@)
    }

    /// An empty engine: no widgets, no adjacency, no focus, normal mode.
    pub fn new() -> (a: App)
        ensures
            a.wf(),
            a@ == (AppV {
                entries: Seq::<EntryV>::empty(),
                adjacency: Seq::<NeighborV>::empty(),
                focus: Option::<Seq<char>>::None,
                status: StatusV::Normal,
            }),
    {
        let a = App {
            entries: Vec::new(),
            adjacency: Vec::new(),
            curr_widget: None,
            status: Status::Normal,
        };
        proof {
            assert(a@.entries =~= Seq::<EntryV>::empty());
            assert(a@.adjacency =~= Seq::<NeighborV>::empty());
        }
        a
    }

    /// The index of the entry named `name`, where there is one.
    fn find_entry(&self, name: &str) -> (r: Option<usize>)
        ensures
            r is Some <==> spec_find_entry(self@.entries, name@) >= 0,
            r is Some ==> r.unwrap() == spec_find_entry(self@.entries, name@) && r.unwrap()
                < self@.entries.len(),
    {
        proof {
            lemma_find_entry(self@.entries, name@);
        }
        let n = self.entries.len();
        let mut i: usize = 0;
        while i < n
            invariant
                i <= n,
                n == self.entries@.len(),
                forall|j: int| 0 <= j < i ==> (#[trigger] self@.entries[j]).name != name@,
            decreases n - i,
        {
            if str_eq(self.entries[i].name.as_str(), name) {
                proof {
                    assert(self@.entries[i as int].name == name@);
                    lemma_find_entry_at(self@.entries, name@, i as int);
                }
                return Some(i);
            }
            i = i + 1;
        }
        proof {
            if spec_find_entry(self@.entries, name@) >= 0 {
                assert(self@.entries[spec_find_entry(self@.entries, name@)].name == name@);
            }
        }
        None
    }

    /// Registers a widget under a name; a taken name is refused with
    /// `DuplicateName` and nothing changes.  The new widget has the
    /// empty region and rectangle until the layout places it.
    pub fn add_widget(&mut self, name: String, widget: Widget) -> (r: Result<(), UiError>)
        requires
            old(self).wf(),
            widget_wf(widget@),
        ensures
            final(self).wf(),
            r is Ok <==> spec_find_entry(old(self)@.entries, name@) < 0,
            r is Ok ==> final(self)@ == (AppV {
                entries: old(self)@.entries.push(
                    EntryV {
                        name: name@,
                        widget: widget@,
                        region: Region { left_pct: 0, top_pct: 0, right_pct: 0, bottom_pct: 0 },
                        rect: Rect { left: 0, top: 0, width: 0, height: 0 },
                    },
                ),
                ..old(self)@
            }),
            r is Err ==> r == Result::<(), UiError>::Err(UiError::DuplicateName) && final(self)@
                == old(self)@,
    {
        let ghost namev = name@;
        let ghost widgetv = widget@;
        if self.find_entry(name.as_str()).is_some() {
            return Err(UiError::DuplicateName);
        }
        proof {
            lemma_find_entry(self@.entries, namev);
        }
        self.entries.push(
            WidgetEntry {
                name,
                widget,
                region: Region { left_pct: 0, top_pct: 0, right_pct: 0, bottom_pct: 0 },
                rect: Rect::empty(),
            },
        );
        proof {
            assert(self@.entries =~= old(self)@.entries.push(
                EntryV {
                    name: namev,
                    widget: widgetv,
                    region: Region { left_pct: 0, top_pct: 0, right_pct: 0, bottom_pct: 0 },
                    rect: Rect { left: 0, top: 0, width: 0, height: 0 },
                },
            ));
        }
        Ok(())
    }

    /// Assigns the layout region of a named widget; an unknown name is
    /// refused with `UnknownWidget`.
    pub fn set_region(&mut self, name: &str, region: Region) -> (r: Result<(), UiError>)
        requires
            old(self).wf(),
        ensures
            final(self).wf(),
            r is Ok <==> spec_find_entry(old(self)@.entries, name@) >= 0,
            r is Ok ==> final(self)@ == (AppV {
                entries: old(self)@.entries.update(
                    spec_find_entry(old(self)@.entries, name@),
                    EntryV {
                        region,
                        ..old(self)@.entries[spec_find_entry(old(self)@.entries, name@)]
                    },
                ),
                ..old(self)@
            }),
            r is Err ==> r == Result::<(), UiError>::Err(UiError::UnknownWidget) && final(self)@
                == old(self)@,
    {
        let found = self.find_entry(name);
        match found {
            None => Err(UiError::UnknownWidget),
            Some(i) => {
                proof {
                    lemma_find_entry(self@.entries, name@);
                }
                let mut e = self.entries.remove(i);
                e.region = region;
                self.entries.insert(i, e);
                proof {
                    assert(self@.entries =~= old(self)@.entries.update(
                        i as int,
                        EntryV { region, ..old(self)@.entries[i as int] },
                    ));
                }
                Ok(())
            },
        }
    }

    /// Moves the focus to the given name, or clears it.  No check that
    /// the name is registered: navigation on a stranger is a no-op.
    pub fn set_focus(&mut self, name: Option<String>)
        requires
            old(self).wf(),
        ensures
            final(self).wf(),
            final(self)@ == (AppV {
                focus: match name {
                    Option::None => Option::<Seq<char>>::None,
                    Option::Some(ref s) => Option::Some(s@),
                },
                ..old(self)@
            }),
    {
        self.curr_widget = name;
    }

    /// Adds one focus adjacency edge; later edges never shadow earlier
    /// ones for the same pair.
    pub fn add_neighbor(&mut self, from: String, dir: Direction, to: String)
        requires
            old(self).wf(),
        ensures
            final(self).wf(),
            final(self)@ == (AppV {
                adjacency: old(self)@.adjacency.push(
                    NeighborV { from: from@, dir, to: to@ },
                ),
                ..old(self)@
            }),
    {
        let ghost fv = from@;
        let ghost tv = to@;
        self.adjacency.push(Neighbor { from, dir, to });
        proof {
            assert(self@.adjacency =~= old(self)@.adjacency.push(
                NeighborV { from: fv, dir, to: tv },
            ));
        }
    }

    /// Releases every owned widget, in registration order, and clears
    /// the focus.  Idempotent: a second call changes nothing more, and
    /// after it every dispatch reports `UnknownWidget`.
    pub fn teardown(&mut self)
        requires
            old(self).wf(),
        ensures
            final(self).wf(),
            final(self)@ == (AppV {
                entries: Seq::<EntryV>::empty(),
                focus: Option::<Seq<char>>::None,
                ..old(self)@
            }),
    {
        self.entries.clear();
        self.curr_widget = None;
        proof {
            assert(self@.entries =~= Seq::<EntryV>::empty());
        }
    }

    /// The name whose drawn rectangle strictly contains `(x, y)` (a
    /// border point matches nothing); with overlapping rectangles the
    /// first registered wins.
    pub fn hit_test(&self, x: u16, y: u16) -> (r: Option<String>)
        ensures
            r is Some <==> spec_hit_test(self@.entries, x, y) is Some,
            r is Some ==> Option::Some(r.unwrap()@) == spec_hit_test(self@.entries, x, y),
    {
        let n = self.entries.len();
        let mut i: usize = 0;
        proof {
            assert(self@.entries.skip(0) =~= self@.entries);
        }
        while i < n
            invariant
                i <= n,
                n == self.entries@.len(),
                spec_hit_test(self@.entries, x, y) == spec_hit_test(
                    self@.entries.skip(i as int),
                    x,
                    y,
                ),
            decreases n - i,
        {
            proof {
                assert(self@.entries.skip(i as int).len() > 0);
                assert(self@.entries.skip(i as int)[0] == self@.entries[i as int]);
                assert(self@.entries.skip(i as int).drop_first() =~= self@.entries.skip(
                    i as int + 1,
                ));
            }
            let e = &self.entries[i];
            if e.rect.contains_strict(x, y) {
                return Some(e.name.clone());
            }
            i = i + 1;
        }
        proof {
            assert(self@.entries.skip(n as int) =~= Seq::<EntryV>::empty());
        }
        None
    }
}

/// The engine after a navigation capability is dispatched to the
/// focused widget: nothing happens without a focus or when the focused
/// name is not registered.
pub open spec fn spec_dispatch_nav(a: AppV, cap: NavCap) -> AppV {
    match a.focus {
        Option::None => a,
        Option::Some(n) => {
            let i = spec_find_entry(a.entries, n);
            if i < 0 {
                a
            } else {
                AppV {
                    entries: a.entries.update(
                        i,
                        EntryV { widget: spec_widget_nav(a.entries[i].widget, cap), ..a.entries[i] },
                    ),
                    ..a
                }
            }
        },
    }
}

/// The engine after the focus moved one step in `dir` along the
/// adjacency table: unknown pairs are no-ops.
pub open spec fn spec_move_focus(a: AppV, dir: Direction) -> AppV {
    match a.focus {
        Option::None => a,
        Option::Some(n) => match spec_find_neighbor(a.adjacency, n, dir) {
            Option::None => a,
            Option::Some(t) => AppV { focus: Option::Some(t), ..a },
        },
    }
}

/// The engine after a click at screen coordinates `(x, y)`: a click on
/// the already-focused widget forwards widget-local coordinates to its
/// click capability; a click on any other widget merely focuses it
/// (first click focuses, second click activates); a click on no widget
/// changes nothing.
pub open spec fn spec_on_click(a: AppV, x: u16, y: u16) -> AppV {
    match spec_hit_test(a.entries, x, y) {
        Option::None => a,
        Option::Some(n) => {
            if a.focus == Option::Some(n) {
                let i = spec_find_entry(a.entries, n);
                if i < 0 {
                    a
                } else {
                    let rect = a.entries[i].rect;
                    AppV {
                        entries: a.entries.update(
                            i,
                            EntryV {
                                widget: spec_widget_click(
                                    a.entries[i].widget,
                                    (x - rect.left) as u16,
                                    (y - rect.top) as u16,
                                ),
                                ..a.entries[i]
                            },
                        ),
                        ..a
                    }
                }
            } else {
                AppV { focus: Option::Some(n), ..a }
            }
        },
    }
}

/// The style a log line is shown in, by the severity word it carries.
pub open spec fn spec_log_style(m: Seq<char>) -> Style {
    if spec_contains_seq(m, "ERROR"@) {
        Style { fg: Color::White }
    } else if spec_contains_seq(m, "WARN"@) {
        Style { fg: Color::Yellow }
    } else if spec_contains_seq(m, "INFO"@) {
        Style { fg: Color::Green }
    } else if spec_contains_seq(m, "DEBUG"@) {
        Style { fg: Color::White }
    } else {
        Style { fg: Color::Gray }
    }
}

/// Picks the display style of a log line (see [`spec_log_style`]).
pub fn classify_log_line(msg: &str) -> (s: Style)
    ensures
        s == spec_log_style(msg@),
{
    if contains_sub(msg, "ERROR") {
        Style::fg(Color::White)
    } else if contains_sub(msg, "WARN") {
        Style::fg(Color::Yellow)
    } else if contains_sub(msg, "INFO") {
        Style::fg(Color::Green)
    } else if contains_sub(msg, "DEBUG") {
        Style::fg(Color::White)
    } else {
        Style::fg(Color::Gray)
    }
}

impl App {
    /// Dispatches one navigation capability to the focused widget (see
    /// [`spec_dispatch_nav`]).
    fn dispatch_nav(&mut self, cap: NavCap)
        requires
            old(self).wf(),
        ensures
            final(self).wf(),
            final(self)@ == spec_dispatch_nav(old(self)@, cap),
    {
        let name = match &self.curr_widget {
            None => {
                return ;
            },
            Some(n) => n.clone(),
        };
        let i = match self.find_entry(name.as_str()) {
            None => {
                return ;
            },
            Some(i) => i,
        };
        proof {
            assert(widget_wf(self@.entries[i as int].widget));
        }
        let e = self.entries.remove(i);
        proof {
            assert(e@ == old(self)@.entries[i as int]);
        }
        let w2 = widget_nav(e.widget, cap);
        self.entries.insert(
            i,
            WidgetEntry { name: e.name, widget: w2, region: e.region, rect: e.rect },
        );
        proof {
            assert(self@.entries =~= old(self)@.entries.update(
                i as int,
                EntryV {
                    widget: spec_widget_nav(old(self)@.entries[i as int].widget, cap),
                    ..old(self)@.entries[i as int]
                },
            ));
        }
    }

    /// Scroll or selection one step up in the focused widget.
    pub fn select_up(&mut self)
        requires
            old(self).wf(),
        ensures
            final(self).wf(),
            final(self)@ == spec_dispatch_nav(old(self)@, NavCap::Up),
    {
        self.dispatch_nav(NavCap::Up)
    }

    /// Scroll or selection one step down in the focused widget.
    pub fn select_down(&mut self)
        requires
            old(self).wf(),
        ensures
            final(self).wf(),
            final(self)@ == spec_dispatch_nav(old(self)@, NavCap::Down),
    {
        self.dispatch_nav(NavCap::Down)
    }

    /// Jump to the start of the focused widget.
    pub fn select_first(&mut self)
        requires
            old(self).wf(),
        ensures
            final(self).wf(),
            final(self)@ == spec_dispatch_nav(old(self)@, NavCap::First),
    {
        self.dispatch_nav(NavCap::First)
    }

    /// Jump to the end of the focused widget.
    pub fn select_last(&mut self)
        requires
            old(self).wf(),
        ensures
            final(self).wf(),
            final(self)@ == spec_dispatch_nav(old(self)@, NavCap::Last),
    {
        self.dispatch_nav(NavCap::Last)
    }

    /// One page up in the focused widget.
    pub fn select_page_up(&mut self)
        requires
            old(self).wf(),
        ensures
            final(self).wf(),
            final(self)@ == spec_dispatch_nav(old(self)@, NavCap::PageUp),
    {
        self.dispatch_nav(NavCap::PageUp)
    }

    /// One page down in the focused widget.
    pub fn select_page_down(&mut self)
        requires
            old(self).wf(),
        ensures
            final(self).wf(),
            final(self)@ == spec_dispatch_nav(old(self)@, NavCap::PageDown),
    {
        self.dispatch_nav(NavCap::PageDown)
    }

    /// Moves the focus along the adjacency table (see
    /// [`spec_move_focus`]).
    pub fn move_focus(&mut self, dir: Direction)
        requires
            old(self).wf(),
        ensures
            final(self).wf(),
            final(self)@ == spec_move_focus(old(self)@, dir),
    {
        let name = match &self.curr_widget {
            None => {
                return ;
            },
            Some(n) => n.clone(),
        };
        let n = self.adjacency.len();
        let mut i: usize = 0;
        proof {
            assert(self@.adjacency.skip(0) =~= self@.adjacency);
        }
        while i < n
            invariant
                i <= n,
                n == self.adjacency@.len(),
                old(self).wf(),
                old(self)@.focus == Option::Some(name@),
                self == old(self),
                spec_find_neighbor(self@.adjacency, name@, dir) == spec_find_neighbor(
                    self@.adjacency.skip(i as int),
                    name@,
                    dir,
                ),
            decreases n - i,
        {
            proof {
                assert(self@.adjacency.skip(i as int).len() > 0);
                assert(self@.adjacency.skip(i as int)[0] == self@.adjacency[i as int]);
                assert(self@.adjacency.skip(i as int).drop_first() =~= self@.adjacency.skip(
                    i as int + 1,
                ));
            }
            let edge = &self.adjacency[i];
            let dir_matches = match (edge.dir, dir) {
                (Direction::Left, Direction::Left) => true,
                (Direction::Right, Direction::Right) => true,
                (Direction::Up, Direction::Up) => true,
                (Direction::Down, Direction::Down) => true,
                _ => false,
            };
            if dir_matches && str_eq(edge.from.as_str(), name.as_str()) {
                proof {
                    assert(self@.adjacency[i as int].from == name@);
                    assert(self@.adjacency[i as int].dir == dir);
                    assert(spec_find_neighbor(self@.adjacency.skip(i as int), name@, dir)
                        == Option::Some(self@.adjacency[i as int].to));
                }
                let target = edge.to.clone();
                proof {
                    assert(target@ == self@.adjacency[i as int].to);
                }
                self.curr_widget = Some(target);
                return ;
            }
            i = i + 1;
        }
        proof {
            assert(self@.adjacency.skip(n as int) =~= Seq::<NeighborV>::empty());
        }
    }

    /// Routes a click at screen coordinates (see [`spec_on_click`]).
    pub fn on_click(&mut self, x: u16, y: u16)
        requires
            old(self).wf(),
        ensures
            final(self).wf(),
            final(self)@ == spec_on_click(old(self)@, x, y),
    {
        let hit = match self.hit_test(x, y) {
            None => {
                return ;
            },
            Some(n) => n,
        };
        let focused_here = match &self.curr_widget {
            None => false,
            Some(f) => str_eq(f.as_str(), hit.as_str()),
        };
        if !focused_here {
            self.curr_widget = Some(hit);
            return ;
        }
        let i = match self.find_entry(hit.as_str()) {
            None => {
                return ;
            },
            Some(i) => i,
        };
        proof {
            lemma_hit_test_found(self@.entries, x, y);
            let j = choose|j: int|
                0 <= j < self@.entries.len() && (#[trigger] self@.entries[j].name)
                    == spec_hit_test(self@.entries, x, y).unwrap()
                    && self@.entries[j].rect.spec_contains_strict(x, y);
            lemma_find_entry(self@.entries, hit@);
            if j < i {
                assert(self@.entries[j].name != hit@);
            }
            if j > i {
                assert(self@.entries[i as int].name == hit@);
                assert(self@.entries[i as int].name != self@.entries[j].name);
            }
            assert(j == i);
            assert(self@.entries[i as int].rect.spec_contains_strict(x, y));
        }
        proof {
            assert(widget_wf(self@.entries[i as int].widget));
        }
        let e = self.entries.remove(i);
        proof {
            assert(e@ == old(self)@.entries[i as int]);
        }
        let rx = x - e.rect.left;
        let ry = y - e.rect.top;
        let w2 = widget_click(e.widget, rx, ry);
        self.entries.insert(
            i,
            WidgetEntry { name: e.name, widget: w2, region: e.region, rect: e.rect },
        );
        proof {
            assert(self@.entries =~= old(self)@.entries.update(
                i as int,
                EntryV {
                    widget: spec_widget_click(
                        old(self)@.entries[i as int].widget,
                        (x - old(self)@.entries[i as int].rect.left) as u16,
                        (y - old(self)@.entries[i as int].rect.top) as u16,
                    ),
                    ..old(self)@.entries[i as int]
                },
            ));
        }
    }

    /// Appends styled text to a named paragraph widget: the name must
    /// exist (`UnknownWidget`) and carry a paragraph (`TypeMismatch`).
    pub fn paragraph_add_styled(&mut self, name: &str, text: &str, style: Style) -> (r: Result<
        (),
        UiError,
    >)
        requires
            old(self).wf(),
        ensures
            final(self).wf(),
            r is Ok <==> spec_find_entry(old(self)@.entries, name@) >= 0 && old(self)@.entries[
                spec_find_entry(old(self)@.entries, name@)
            ].widget is Paragraph,
            r is Ok ==> final(self)@ == (AppV {
                entries: old(self)@.entries.update(
                    spec_find_entry(old(self)@.entries, name@),
                    EntryV {
                        widget: WidgetV::Paragraph(
                            crate::paragraph::spec_para_select_last(
                                crate::paragraph::ParagraphV {
                                    lines: crate::paragraph::spec_append_styled(
                                        old(self)@.entries[
                                            spec_find_entry(old(self)@.entries, name@)
                                        ].widget->Paragraph_0.lines,
                                        text@,
                                        style,
                                    ),
                                    ..old(self)@.entries[
                                        spec_find_entry(old(self)@.entries, name@)
                                    ].widget->Paragraph_0
                                },
                            ),
                        ),
                        ..old(self)@.entries[spec_find_entry(old(self)@.entries, name@)]
                    },
                ),
                ..old(self)@
            }),
            r is Err ==> final(self)@ == old(self)@ && (r
                == Result::<(), UiError>::Err(UiError::UnknownWidget) <==> spec_find_entry(
                old(self)@.entries,
                name@,
            ) < 0) && (r is Err && spec_find_entry(old(self)@.entries, name@) >= 0 ==> r
                == Result::<(), UiError>::Err(UiError::TypeMismatch)),
    {
        let i = match self.find_entry(name) {
            None => {
                return Err(UiError::UnknownWidget);
            },
            Some(i) => i,
        };
        proof {
            assert(widget_wf(self@.entries[i as int].widget));
        }
        let e = self.entries.remove(i);
        proof {
            assert(e@ == old(self)@.entries[i as int]);
        }
        match e.widget {
            Widget::Paragraph(mut p) => {
                p.add_styled(text, style);
                p.select_last();
                self.entries.insert(
                    i,
                    WidgetEntry {
                        name: e.name,
                        widget: Widget::Paragraph(p),
                        region: e.region,
                        rect: e.rect,
                    },
                );
                proof {
                    assert(self@.entries =~= old(self)@.entries.update(
                        i as int,
                        self@.entries[i as int],
                    ));
                }
                Ok(())
            },
            other => {
                self.entries.insert(
                    i,
                    WidgetEntry { name: e.name, widget: other, region: e.region, rect: e.rect },
                );
                proof {
                    assert(self@.entries =~= old(self)@.entries);
                }
                Err(UiError::TypeMismatch)
            },
        }
    }

    /// Appends one pending log message to the named log widget, styled
    /// by its severity word, and scrolls that widget to the newest
    /// entry.  The surrounding system drains its log channel on each
    /// tick and hands the lines here one by one.
    pub fn push_log(&mut self, target: &str, msg: &str) -> (r: Result<(), UiError>)
        requires
            old(self).wf(),
        ensures
            final(self).wf(),
            r is Ok <==> spec_find_entry(old(self)@.entries, target@) >= 0 && old(self)@.entries[
                spec_find_entry(old(self)@.entries, target@)
            ].widget is Paragraph,
            r is Err ==> final(self)@ == old(self)@,
            r is Ok ==> final(self)@ == (AppV {
                entries: old(self)@.entries.update(
                    spec_find_entry(old(self)@.entries, target@),
                    EntryV {
                        widget: WidgetV::Paragraph(
                            crate::paragraph::spec_para_select_last(
                                crate::paragraph::ParagraphV {
                                    lines: crate::paragraph::spec_append_styled(
                                        old(self)@.entries[
                                            spec_find_entry(old(self)@.entries, target@)
                                        ].widget->Paragraph_0.lines,
                                        msg@,
                                        spec_log_style(msg@),
                                    ),
                                    ..old(self)@.entries[
                                        spec_find_entry(old(self)@.entries, target@)
                                    ].widget->Paragraph_0
                                },
                            ),
                        ),
                        ..old(self)@.entries[spec_find_entry(old(self)@.entries, target@)]
                    },
                ),
                ..old(self)@
            }),
    {
        let style = classify_log_line(msg);
        self.paragraph_add_styled(target, msg, style)
    }
}

/// Whether a pending `g` struck at `since` has waited past the timeout
/// by time `now`.  Time running backwards counts as no wait at all.
pub open spec fn spec_waitg_expired(since: u64, now: u64) -> bool {
    now > since && now - since > WAITG_TIMEOUT_MS
}

/// The transition table of the modal input state machine: one
/// `(state, event)` pair in, the next engine state and an outcome out.
/// Unmatched pairs change nothing and come back `Ignored`, the
/// observable diagnostic no-op.
pub open spec fn spec_on_event(a: AppV, e: EventV, now: u64) -> (AppV, OutcomeV) {
    match (a.status, e) {
        (StatusV::Normal, EventV::CtrlKey(c)) => {
            if c == 'l' {
                (spec_move_focus(a, Direction::Right), OutcomeV::Done)
            } else if c == 'h' {
                (spec_move_focus(a, Direction::Left), OutcomeV::Done)
            } else if c == 'j' {
                (spec_move_focus(a, Direction::Down), OutcomeV::Done)
            } else if c == 'k' {
                (spec_move_focus(a, Direction::Up), OutcomeV::Done)
            } else if c == 'u' {
                (spec_dispatch_nav(a, NavCap::PageUp), OutcomeV::Done)
            } else if c == 'd' {
                (spec_dispatch_nav(a, NavCap::PageDown), OutcomeV::Done)
            } else {
                (a, OutcomeV::Ignored)
            }
        },
        (StatusV::Normal, EventV::CharKey(c)) => {
            if c == ':' {
                (AppV { status: StatusV::Insert(Seq::empty()), ..a }, OutcomeV::Done)
            } else if c == 'G' {
                (spec_dispatch_nav(a, NavCap::Last), OutcomeV::Done)
            } else if c == 'g' {
                (AppV { status: StatusV::WaitG(now), ..a }, OutcomeV::Done)
            } else if c == 'j' {
                (spec_dispatch_nav(a, NavCap::Down), OutcomeV::Done)
            } else if c == 'k' {
                (spec_dispatch_nav(a, NavCap::Up), OutcomeV::Done)
            } else {
                (a, OutcomeV::Ignored)
            }
        },
        (StatusV::WaitG(_), EventV::CharKey(c)) => {
            if c == 'g' {
                (
                    AppV { status: StatusV::Normal, ..spec_dispatch_nav(a, NavCap::First) },
                    OutcomeV::Done,
                )
            } else {
                (a, OutcomeV::Ignored)
            }
        },
        (StatusV::WaitG(since), EventV::Tick) => {
            if spec_waitg_expired(since, now) {
                (AppV { status: StatusV::Normal, ..a }, OutcomeV::Done)
            } else {
                (a, OutcomeV::Done)
            }
        },
        (StatusV::Normal, EventV::Tick) => (a, OutcomeV::Done),
        (StatusV::Insert(_), EventV::Tick) => (a, OutcomeV::Done),
        (StatusV::Normal, EventV::Up) => (spec_dispatch_nav(a, NavCap::Up), OutcomeV::Done),
        (StatusV::Normal, EventV::Down) => (spec_dispatch_nav(a, NavCap::Down), OutcomeV::Done),
        (StatusV::Normal, EventV::ScrollUp(_, _)) => (
            spec_dispatch_nav(a, NavCap::Up),
            OutcomeV::Done,
        ),
        (StatusV::Normal, EventV::ScrollDown(_, _)) => (
            spec_dispatch_nav(a, NavCap::Down),
            OutcomeV::Done,
        ),
        (StatusV::Normal, EventV::Press(x, y)) => (spec_on_click(a, x, y), OutcomeV::Done),
        (StatusV::Insert(buf), EventV::CharKey(c)) => (
            AppV { status: StatusV::Insert(buf.push(c)), ..a },
            OutcomeV::Done,
        ),
        (StatusV::Insert(buf), EventV::Enter) => (
            AppV { status: StatusV::Normal, ..a },
            OutcomeV::Committed(buf),
        ),
        (StatusV::Insert(buf), EventV::Backspace) => (
            AppV {
                status: StatusV::Insert(
                    if buf.len() > 0 {
                        buf.drop_last()
                    } else {
                        buf
                    },
                ),
                ..a
            },
            OutcomeV::Done,
        ),
        (StatusV::Insert(_), EventV::CtrlKey(c)) => {
            if c == 'w' {
                (AppV { status: StatusV::Insert(Seq::empty()), ..a }, OutcomeV::Done)
            } else {
                (a, OutcomeV::Ignored)
            }
        },
        (StatusV::Insert(_), EventV::Esc) => (AppV { status: StatusV::Normal, ..a }, OutcomeV::Done),
        _ => (a, OutcomeV::Ignored),
    }
}

impl App {
    /// Feeds one event through the modal state machine at time
    /// `now_ms` (see [`spec_on_event`]).  Exactly one event is handled
    /// at a time, to completion.
    pub fn on_event(&mut self, event: Event, now_ms: u64) -> (r: Outcome)
        requires
            old(self).wf(),
        ensures
            final(self).wf(),
            final(self)@ == spec_on_event(old(self)@, event@, now_ms).0,
            r@ == spec_on_event(old(self)@, event@, now_ms).1,
    {
        let st = self.status.clone();
        match (st, event) {
            (Status::Normal, Event::CtrlKey(c)) => {
                if c == 'l' {
                    self.move_focus(Direction::Right);
                    Outcome::Done
                } else if c == 'h' {
                    self.move_focus(Direction::Left);
                    Outcome::Done
                } else if c == 'j' {
                    self.move_focus(Direction::Down);
                    Outcome::Done
                } else if c == 'k' {
                    self.move_focus(Direction::Up);
                    Outcome::Done
                } else if c == 'u' {
                    self.dispatch_nav(NavCap::PageUp);
                    Outcome::Done
                } else if c == 'd' {
                    self.dispatch_nav(NavCap::PageDown);
                    Outcome::Done
                } else {
                    Outcome::Ignored
                }
            },
            (Status::Normal, Event::CharKey(c)) => {
                if c == ':' {
                    self.status = Status::Insert(String::new());
                    Outcome::Done
                } else if c == 'G' {
                    self.dispatch_nav(NavCap::Last);
                    Outcome::Done
                } else if c == 'g' {
                    self.status = Status::WaitG(now_ms);
                    Outcome::Done
                } else if c == 'j' {
                    self.dispatch_nav(NavCap::Down);
                    Outcome::Done
                } else if c == 'k' {
                    self.dispatch_nav(NavCap::Up);
                    Outcome::Done
                } else {
                    Outcome::Ignored
                }
            },
            (Status::WaitG(_), Event::CharKey(c)) => {
                if c == 'g' {
                    self.dispatch_nav(NavCap::First);
                    self.status = Status::Normal;
                    Outcome::Done
                } else {
                    Outcome::Ignored
                }
            },
            (Status::WaitG(since), Event::Tick) => {
                if now_ms > since && now_ms - since > WAITG_TIMEOUT_MS {
                    self.status = Status::Normal;
                }
                Outcome::Done
            },
            (Status::Normal, Event::Tick) => Outcome::Done,
            (Status::Insert(_), Event::Tick) => Outcome::Done,
            (Status::Normal, Event::Up) => {
                self.dispatch_nav(NavCap::Up);
                Outcome::Done
            },
            (Status::Normal, Event::Down) => {
                self.dispatch_nav(NavCap::Down);
                Outcome::Done
            },
            (Status::Normal, Event::ScrollUp(_, _)) => {
                self.dispatch_nav(NavCap::Up);
                Outcome::Done
            },
            (Status::Normal, Event::ScrollDown(_, _)) => {
                self.dispatch_nav(NavCap::Down);
                Outcome::Done
            },
            (Status::Normal, Event::Press(x, y)) => {
                self.on_click(x, y);
                Outcome::Done
            },
            (Status::Insert(mut buf), Event::CharKey(c)) => {
                string_push(&mut buf, c);
                self.status = Status::Insert(buf);
                Outcome::Done
            },
            (Status::Insert(buf), Event::Enter) => {
                self.status = Status::Normal;
                Outcome::Committed(buf)
            },
            (Status::Insert(mut buf), Event::Backspace) => {
                string_pop(&mut buf);
                self.status = Status::Insert(buf);
                Outcome::Done
            },
            (Status::Insert(_), Event::CtrlKey(c)) => {
                if c == 'w' {
                    self.status = Status::Insert(String::new());
                    Outcome::Done
                } else {
                    Outcome::Ignored
                }
            },
            (Status::Insert(_), Event::Esc) => {
                self.status = Status::Normal;
                Outcome::Done
            },
            _ => Outcome::Ignored,
        }
    }
}

/// One widget's part of a draw pass: where it sits and what it shows.
pub struct WidgetPlan {
    pub name: String,
    pub rect: Rect,
    pub focused: bool,
    pub plan: RenderPlan,
}

/// The mathematical image of a [`WidgetPlan`].
pub ghost struct WidgetPlanV {
    pub name: Seq<char>,
    pub rect: Rect,
    pub focused: bool,
    pub plan: RenderPlanV,
}

impl View for WidgetPlan {
    type V = WidgetPlanV;

    open spec fn view(&self) -> WidgetPlanV {
        WidgetPlanV {
            name: self.name@,
            rect: self.rect,
            focused: self.focused,
            plan: self.plan@,
        }
    }
}

/// One entry after a draw pass in a `w` by `h` frame: its rectangle is
/// recomputed from its region, and the widget learns it.
pub open spec fn spec_layout_entry(e: EntryV, w: u16, h: u16) -> EntryV {
    let rect = e.region.spec_to_rect(w, h);
    EntryV { rect, widget: spec_widget_set_area(e.widget, rect), ..e }
}

/// The engine after a draw pass: every entry laid out; focus, mode and
/// adjacency untouched.
pub open spec fn spec_draw(a: AppV, w: u16, h: u16) -> AppV {
    AppV { entries: a.entries.map_values(|e: EntryV| spec_layout_entry(e, w, h)), ..a }
}

/// What one laid-out entry shows.
pub open spec fn spec_plan_of(e: EntryV, focus: Option<Seq<char>>) -> WidgetPlanV {
    WidgetPlanV {
        name: e.name,
        rect: e.rect,
        focused: focus == Option::Some(e.name),
        plan: spec_widget_visible(e.widget),
    }
}

/// The visual content of a whole draw pass, per widget in registration
/// order.
pub open spec fn spec_draw_plans(a: AppV, w: u16, h: u16) -> Seq<WidgetPlanV> {
    spec_draw(a, w, h).entries.map_values(|e: EntryV| spec_plan_of(e, a.focus))
}

/// Learning a rectangle never breaks a widget's well-formedness.
proof fn lemma_set_area_wf(w: WidgetV, r: Rect)
    requires
        widget_wf(w),
    ensures
        widget_wf(spec_widget_set_area(w, r)),
{
}

impl App {
    /// Runs a draw pass over a `frame_w` by `frame_h` frame: computes
    /// every widget's rectangle from its region, records it for
    /// hit-testing, tells the widget, and returns what each widget
    /// shows (see [`spec_draw`] and [`spec_draw_plans`]).  The engine
    /// computes what is visible; painting it stays outside.
    pub fn draw(&mut self, frame_w: u16, frame_h: u16) -> (plans: Vec<WidgetPlan>)
        requires
            old(self).wf(),
        ensures
            final(self).wf(),
            final(self)@ == spec_draw(old(self)@, frame_w, frame_h),
            plans@.map_values(|p: WidgetPlan| p@) == spec_draw_plans(
                old(self)@,
                frame_w,
                frame_h,
            ),
    {
        let n = self.entries.len();
        let mut plans: Vec<WidgetPlan> = Vec::new();
        let mut done: Vec<WidgetEntry> = Vec::new();
        let mut i: usize = 0;
        proof {
            assert(self.entries@.skip(0) =~= self.entries@);
        }
        while i < n
            invariant
                i <= n,
                n == old(self).entries@.len(),
                old(self).wf(),
                done@.len() == i,
                plans@.len() == i,
                self.entries@ == old(self).entries@.skip(i as int),
                self.curr_widget == old(self).curr_widget,
                self.status == old(self).status,
                self.adjacency == old(self).adjacency,
                forall|j: int|
                    0 <= j < i ==> (#[trigger] done@[j])@ == spec_layout_entry(
                        old(self)@.entries[j],
                        frame_w,
                        frame_h,
                    ),
                forall|j: int|
                    0 <= j < i ==> (#[trigger] plans@[j])@ == spec_plan_of(
                        spec_layout_entry(old(self)@.entries[j], frame_w, frame_h),
                        old(self)@.focus,
                    ),
            decreases n - i,
        {
            proof {
                assert(old(self).entries@.skip(i as int)[0] == old(self).entries@[i as int]);
                assert(old(self).entries@.skip(i as int).drop_first() =~= old(
                    self,
                ).entries@.skip(i as int + 1));
                assert(widget_wf(old(self)@.entries[i as int].widget));
            }
            let e = self.entries.remove(0);
            proof {
                assert(e == old(self).entries@[i as int]);
                assert(e@ == old(self)@.entries[i as int]);
            }
            let rect = e.region.to_rect(frame_w, frame_h);
            let wdg = widget_set_area(e.widget, rect);
            let focused = match &self.curr_widget {
                None => false,
                Some(f) => str_eq(f.as_str(), e.name.as_str()),
            };
            proof {
                assert(focused == (old(self)@.focus == Option::Some(e.name@)));
            }
            let plan = widget_visible(&wdg);
            plans.push(WidgetPlan { name: e.name.clone(), rect, focused, plan });
            done.push(WidgetEntry { name: e.name, widget: wdg, region: e.region, rect });
            i = i + 1;
        }
        self.entries = done;
        proof {
            assert(self@.entries =~= spec_draw(old(self)@, frame_w, frame_h).entries);
            assert forall|j: int| 0 <= j < self@.entries.len() implies widget_wf(
                (#[trigger] self@.entries[j]).widget,
            ) by {
                lemma_set_area_wf(
                    old(self)@.entries[j].widget,
                    old(self)@.entries[j].region.spec_to_rect(frame_w, frame_h),
                );
            }
            assert(plans@.map_values(|p: WidgetPlan| p@) =~= spec_draw_plans(
                old(self)@,
                frame_w,
                frame_h,
            ));
        }
        plans
    }
}

impl App {
    /// Observes a named table: its row count, page start and selected
    /// row.  `None` when the name is unknown or not a table.
    pub fn table_state(&self, name: &str) -> (r: Option<(usize, usize, usize)>)
        requires
            self.wf(),
        ensures
            r is Some <==> spec_find_entry(self@.entries, name@) >= 0 && self@.entries[
                spec_find_entry(self@.entries, name@)
            ].widget is Table,
            r is Some ==> {
                let t = self@.entries[spec_find_entry(self@.entries, name@)].widget->Table_0;
                r.unwrap().0 == t.height && r.unwrap().1 == t.page && r.unwrap().2 == t.sel
            },
    {
        let i = match self.find_entry(name) {
            None => {
                return None;
            },
            Some(i) => i,
        };
        let e = &self.entries[i];
        proof {
            assert(e@ == self@.entries[i as int]);
        }
        match &e.widget {
            Widget::Table(t) => Some((t.row_count(), t.page_start(), t.selection_index())),
            _ => None,
        }
    }

    /// Observes a named paragraph: its line count and page start.
    /// `None` when the name is unknown or not a paragraph.
    pub fn paragraph_state(&self, name: &str) -> (r: Option<(usize, usize)>)
        requires
            self.wf(),
        ensures
            r is Some <==> spec_find_entry(self@.entries, name@) >= 0 && self@.entries[
                spec_find_entry(self@.entries, name@)
            ].widget is Paragraph,
            r is Some ==> {
                let p = self@.entries[spec_find_entry(self@.entries, name@)].widget->Paragraph_0;
                r.unwrap().0 == p.lines.len() && r.unwrap().1 == p.page
            },
    {
        let i = match self.find_entry(name) {
            None => {
                return None;
            },
            Some(i) => i,
        };
        let e = &self.entries[i];
        proof {
            assert(e@ == self@.entries[i as int]);
        }
        match &e.widget {
            Widget::Paragraph(p) => Some((p.line_count(), p.page_start())),
            _ => None,
        }
    }

    /// The number of registered widgets.
    pub fn widget_count(&self) -> (n: usize)
        ensures
            n == self@.entries.len(),
    {
        self.entries.len()
    }
}

/// `spec_find_entry` stops at a matching name with none before it.
pub proof fn lemma_find_entry_at(es: Seq<EntryV>, n: Seq<char>, k: int)
    requires
        0 <= k < es.len(),
        es[k].name == n,
        forall|j: int| 0 <= j < k ==> (#[trigger] es[j]).name != n,
    ensures
        spec_find_entry(es, n) == k,
    decreases es.len(),
{
    if k > 0 {
        assert(forall|j: int|
            0 <= j < es.drop_first().len() ==> es.drop_first()[j] == es[j + 1]);
        lemma_find_entry_at(es.drop_first(), n, k - 1);
    }
}

} // verus!
