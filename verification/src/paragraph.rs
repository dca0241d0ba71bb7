//! The styled multi-line text panel: an append-only buffer of logical
//! lines with soft-wrap pagination.

use vstd::prelude::*;

use crate::geom::{spec_inner_height, spec_inner_width, inner_height, inner_width, Rect};
use crate::pagination::{
    duplicate_line, line_v, lines_v, spec_heights, spec_walk_count, walk_backward, walk_forward,
    Run, RunV,
};
use crate::style::Style;
use crate::text::{spec_split_lines, split_into_lines, strings_v};

verus! {

/// Rows and columns spent on the panel's border chrome.
pub const PARA_MARGIN: u16 = 2;

/// The mathematical image of a paragraph widget.
pub ghost struct ParagraphV {
    /// The logical lines, each an ordered sequence of styled runs.
    pub lines: Seq<Seq<RunV>>,
    /// Index of the first logical line currently visible.
    pub page: nat,
    /// The rectangle the panel was last drawn into.
    pub window: Rect,
}

/// The well-formedness of a paragraph: the page start stays on an
/// existing line, or at zero while the buffer is empty.
pub open spec fn para_wf(p: ParagraphV) -> bool {
    if p.lines.len() == 0 {
        p.page == 0
    } else {
        p.page < p.lines.len()
    }
}

/// The content width of the panel's viewport.
pub open spec fn para_width(p: ParagraphV) -> nat {
    spec_inner_width(p.window, PARA_MARGIN)
}

/// The content height of the panel's viewport.
pub open spec fn para_height(p: ParagraphV) -> nat {
    spec_inner_height(p.window, PARA_MARGIN)
}

/// The greatest useful page start: the last index at which a full page
/// still fits, so a jump to the end does not show a near-empty page.
/// With no usable height it degrades to the last line itself.
pub open spec fn spec_last_start(len: nat, h: nat) -> nat {
    if len == 0 {
        0
    } else if h == 0 {
        (len - 1) as nat
    } else if len > h {
        (len - h) as nat
    } else {
        0
    }
}

/// Scroll one line up, clamping at the top.
pub open spec fn spec_para_select_up(p: ParagraphV) -> ParagraphV {
    if p.page > 0 {
        ParagraphV { page: (p.page - 1) as nat, ..p }
    } else {
        p
    }
}

/// Scroll one line down, clamping at the last line.
pub open spec fn spec_para_select_down(p: ParagraphV) -> ParagraphV {
    if p.lines.len() > 0 && p.page < p.lines.len() - 1 {
        ParagraphV { page: (p.page + 1) as nat, ..p }
    } else {
        p
    }
}

/// Jump to the first line.
pub open spec fn spec_para_select_first(p: ParagraphV) -> ParagraphV {
    ParagraphV { page: 0, ..p }
}

/// Jump to the last page start (see [`spec_last_start`]).
pub open spec fn spec_para_select_last(p: ParagraphV) -> ParagraphV {
    ParagraphV { page: spec_last_start(p.lines.len(), para_height(p)), ..p }
}

/// Walk one page forward: consume wrapped line heights until the page
/// budget is passed, and advance the page start by the number of lines
/// consumed, never past the last page start.  With no usable width the
/// walk cannot be computed and the call is a no-op, as is a page start
/// already at or past the last page start.
pub open spec fn spec_para_page_down(p: ParagraphV) -> ParagraphV {
    let w = para_width(p);
    let h = para_height(p);
    let last = spec_last_start(p.lines.len(), h);
    if w == 0 || p.lines.len() == 0 || p.page >= last {
        p
    } else {
        let count = spec_walk_count(spec_heights(p.lines, w).skip(p.page as int), h as int);
        let np = p.page + count;
        ParagraphV {
            page: if np > last {
                last
            } else {
                np as nat
            },
            ..p
        }
    }
}

/// Walk one page backward: the symmetric walk over the lines above the
/// page start, taken in reverse.
pub open spec fn spec_para_page_up(p: ParagraphV) -> ParagraphV {
    let w = para_width(p);
    let h = para_height(p);
    if w == 0 || p.page == 0 {
        p
    } else {
        let count = spec_walk_count(
            spec_heights(p.lines, w).take(p.page as int).reverse(),
            h as int,
        );
        ParagraphV { page: (p.page - count) as nat, ..p }
    }
}

/// A buffer with no lines becomes one open empty line; anything else is
/// left as it is.  Appending always lands on the resulting last line.
pub open spec fn spec_ensure_open(lines: Seq<Seq<RunV>>) -> Seq<Seq<RunV>> {
    if lines.len() == 0 {
        seq![Seq::<RunV>::empty()]
    } else {
        lines
    }
}

/// The line buffer after appending `text` in `style`: the first split
/// segment continues the open last line, every further segment opens a
/// line of its own, and a final line break leaves a fresh open line, so
/// consecutive appends without a break build one multi-styled line.
pub open spec fn spec_append_styled(lines: Seq<Seq<RunV>>, text: Seq<char>, style: Style) -> Seq<
    Seq<RunV>,
> {
    let base = spec_ensure_open(lines);
    let segs = spec_split_lines(text);
    if segs.len() == 0 {
        base
    } else {
        let merged = base.update(
            base.len() - 1,
            base.last().push(RunV { text: segs[0], style }),
        );
        let tail = segs.skip(1).map_values(|s: Seq<char>| seq![RunV { text: s, style }]);
        let opened: Seq<Seq<RunV>> = if text.len() > 0 && text.last() == '\n' {
            seq![Seq::<RunV>::empty()]
        } else {
            Seq::empty()
        };
        merged + tail + opened
    }
}

/// The lines visible on the current page: from the page start, as many
/// lines as the page walk consumes.  Nothing is visible at width zero.
pub open spec fn spec_para_visible(p: ParagraphV) -> Seq<Seq<RunV>> {
    let w = para_width(p);
    let h = para_height(p);
    if w == 0 {
        Seq::empty()
    } else {
        let count = spec_walk_count(spec_heights(p.lines, w).skip(p.page as int), h as int);
        p.lines.subrange(p.page as int, p.page + count as int)
    }
}

/// The styled multi-line text panel.
pub struct IParagraph {
    content: Vec<Vec<Run>>,
    idx_page: usize,
    window: Rect,
}

impl View for IParagraph {
    type V = ParagraphV;

    closed spec fn view(&self) -> ParagraphV {
        ParagraphV {
            lines: lines_v(self.content),
            page: self.idx_page as nat,
            window: self.window,
        }
    }
}

impl IParagraph {
    /// The paragraph's structural invariant.
    pub open spec fn wf(self) -> bool {
        para_wf(self@)
    }

    /// An empty panel: no lines, page start zero, never drawn.
    pub fn new() -> (p: IParagraph)
        ensures
            p.wf(),
            p@ == (ParagraphV {
                lines: Seq::<Seq<RunV>>::empty(),
                page: 0,
                window: Rect { left: 0, top: 0, width: 0, height: 0 },
            }),
    {
        let p = IParagraph {
            content: Vec::new(),
            idx_page: 0,
            window: Rect::empty(),
        };
        proof {
            assert(lines_v(p.content) =~~= Seq::<Seq<RunV>>::empty());
        }
        p
    }

    /// The number of logical lines held.
    pub fn line_count(&self) -> (n: usize)
        ensures
            n == self@.lines.len(),
    {
        self.content.len()
    }

    /// The current page start.
    pub fn page_start(&self) -> (n: usize)
        ensures
            n == self@.page,
    {
        self.idx_page
    }

    /// The rectangle the panel was last drawn into.
    pub fn area(&self) -> (r: Rect)
        ensures
            r == self@.window,
    {
        self.window
    }

    /// Records the rectangle the panel is being drawn into.
    pub fn set_area(&mut self, area: Rect)
        requires
            old(self).wf(),
        ensures
            final(self).wf(),
            final(self)@ == (ParagraphV { window: area, ..old(self)@ }),
    {
        self.window = area;
    }

    /// Content columns available inside the border.
    pub fn get_content_width(&self) -> (w: usize)
        ensures
            w == para_width(self@),
    {
        inner_width(&self.window, PARA_MARGIN)
    }

    /// Content rows available inside the border.
    pub fn get_content_height(&self) -> (h: usize)
        ensures
            h == para_height(self@),
    {
        inner_height(&self.window, PARA_MARGIN)
    }

    /// Appends plainly styled text (see [`IParagraph::add_styled`]).
    pub fn add(&mut self, text: &str)
        requires
            old(self).wf(),
        ensures
            final(self).wf(),
            final(self)@ == (ParagraphV {
                lines: spec_append_styled(
                    old(self)@.lines,
                    text@,
                    Style { fg: crate::style::Color::Reset },
                ),
                ..old(self)@
            }),
    {
        self.add_styled(text, Style::plain())
    }

    /// Appends `text` in `style`, splitting on line breaks so that no
    /// run spans a break (see [`spec_append_styled`]).
    pub fn add_styled(&mut self, text: &str, style: Style)
        requires
            old(self).wf(),
        ensures
            final(self).wf(),
            final(self)@ == (ParagraphV {
                lines: spec_append_styled(old(self)@.lines, text@, style),
                ..old(self)@
            }),
    {
        let ghost base = spec_ensure_open(lines_v(self.content));
        if self.content.len() == 0 {
            self.content.push(Vec::new());
            proof {
                assert(line_v(self.content@.last()) =~= Seq::<RunV>::empty());
                assert(lines_v(self.content) =~~= base);
            }
        }
        proof {
            assert(lines_v(self.content) =~~= base);
        }
        let segs = split_into_lines(text);
        let ghost segsv = spec_split_lines(text@);
        if segs.len() == 0 {
            return ;
        }
        // merge the first segment into the open last line
        let first_run = Run::new(segs[0].clone(), style);
        let merged_opt = self.content.pop();
        match merged_opt {
            Some(mut last_line) => {
                last_line.push(first_run);
                self.content.push(last_line);
            },
            None => {
                // the buffer was made non-empty above
                assert(false);
            },
        }
        let ghost merged = base.update(
            base.len() - 1,
            base.last().push(RunV { text: segsv[0], style }),
        );
        proof {
            assert(lines_v(self.content) =~~= merged);
        }
        proof {
            assert(self.content@.len() == merged.len()) by {
                assert(lines_v(self.content).len() == self.content@.len());
            }
            assert(forall|j: int|
                0 <= j < merged.len() ==> #[trigger] line_v(self.content@[j]) == merged[j]);
        }
        // each further segment opens a line of its own
        let mut k: usize = 1;
        while k < segs.len()
            invariant
                1 <= k <= segs@.len(),
                segsv == strings_v(segs),
                segsv.len() == segs@.len(),
                merged.len() >= 1,
                self.idx_page == old(self).idx_page,
                self.window == old(self).window,
                self.content@.len() == merged.len() + k - 1,
                forall|j: int|
                    0 <= j < merged.len() ==> #[trigger] line_v(self.content@[j]) == merged[j],
                forall|j: int|
                    merged.len() <= j < self.content@.len() ==> #[trigger] line_v(
                        self.content@[j],
                    ) == seq![RunV { text: segsv[j - merged.len() + 1], style }],
            decreases segs@.len() - k,
        {
            let mut nl: Vec<Run> = Vec::new();
            nl.push(Run::new(segs[k].clone(), style));
            proof {
                assert(line_v(nl) =~= seq![RunV { text: segsv[k as int], style }]);
            }
            self.content.push(nl);
            k = k + 1;
        }
        // a final line break leaves a fresh open line
        let n = text.unicode_len();
        let opened_line = n > 0 && text.get_char(n - 1) == '\n';
        if opened_line {
            self.content.push(Vec::new());
            proof {
                assert(line_v(self.content@.last()) =~= Seq::<RunV>::empty());
            }
        }
        proof {
            let tail = segsv.skip(1).map_values(|s: Seq<char>| seq![RunV { text: s, style }]);
            let opened: Seq<Seq<RunV>> = if text@.len() > 0 && text@.last() == '\n' {
                seq![Seq::<RunV>::empty()]
            } else {
                Seq::<Seq<RunV>>::empty()
            };
            assert(opened_line <==> (text@.len() > 0 && text@.last() == '\n'));
            assert(tail.len() == segsv.len() - 1);
            assert(forall|j: int|
                0 <= j < tail.len() ==> #[trigger] tail[j] == seq![
                    RunV { text: segsv[j + 1], style },
                ]);
            assert(self.content@.len() == merged.len() + tail.len() + opened.len());
            assert(lines_v(self.content) =~~= merged + tail + opened);
            assert(spec_append_styled(old(self)@.lines, text@, style) == merged + tail + opened);
        }
    }

    /// Scrolls one line up; at the top this is a no-op.
    pub fn select_up(&mut self)
        requires
            old(self).wf(),
        ensures
            final(self).wf(),
            final(self)@ == spec_para_select_up(old(self)@),
    {
        if self.idx_page > 0 {
            self.idx_page = self.idx_page - 1;
        }
    }

    /// Scrolls one line down; at the last line this is a no-op.
    pub fn select_down(&mut self)
        requires
            old(self).wf(),
        ensures
            final(self).wf(),
            final(self)@ == spec_para_select_down(old(self)@),
    {
        if self.content.len() > 0 && self.idx_page < self.content.len() - 1 {
            self.idx_page = self.idx_page + 1;
        }
    }

    /// Jumps to the first line.
    pub fn select_first(&mut self)
        requires
            old(self).wf(),
        ensures
            final(self).wf(),
            final(self)@ == spec_para_select_first(old(self)@),
    {
        self.idx_page = 0;
    }

    /// Jumps to the last page start (see [`spec_last_start`]).
    pub fn select_last(&mut self)
        requires
            old(self).wf(),
        ensures
            final(self).wf(),
            final(self)@ == spec_para_select_last(old(self)@),
    {
        let len = self.content.len();
        let h = self.get_content_height();
        self.idx_page = if len == 0 {
            0
        } else if h == 0 {
            len - 1
        } else if len > h {
            len - h
        } else {
            0
        };
    }

    /// Walks one page up (see [`spec_para_page_up`]).
    pub fn select_page_up(&mut self)
        requires
            old(self).wf(),
        ensures
            final(self).wf(),
            final(self)@ == spec_para_page_up(old(self)@),
    {
        let w = self.get_content_width();
        if w == 0 || self.idx_page == 0 {
            return ;
        }
        let h = self.get_content_height();
        let count = walk_backward(&self.content, self.idx_page, w, h);
        self.idx_page = self.idx_page - count;
    }

    /// Walks one page down (see [`spec_para_page_down`]).
    pub fn select_page_down(&mut self)
        requires
            old(self).wf(),
        ensures
            final(self).wf(),
            final(self)@ == spec_para_page_down(old(self)@),
    {
        let w = self.get_content_width();
        if w == 0 {
            return ;
        }
        let len = self.content.len();
        if len == 0 {
            return ;
        }
        let h = self.get_content_height();
        let last = if h == 0 {
            len - 1
        } else if len > h {
            len - h
        } else {
            0
        };
        if self.idx_page >= last {
            return ;
        }
        let count = walk_forward(&self.content, self.idx_page, w, h);
        let np = self.idx_page + count;
        self.idx_page = if np > last {
            last
        } else {
            np
        };
    }

    /// Copies out the lines visible on the current page (see
    /// [`spec_para_visible`]).
    pub fn visible_lines(&self) -> (out: Vec<Vec<Run>>)
        requires
            self.wf(),
        ensures
            lines_v(out) == spec_para_visible(self@),
    {
        let mut out: Vec<Vec<Run>> = Vec::new();
        let w = self.get_content_width();
        if w == 0 {
            proof {
                assert(lines_v(out) =~~= spec_para_visible(self@));
            }
            return out;
        }
        let h = self.get_content_height();
        let count = walk_forward(&self.content, self.idx_page, w, h);
        let n = self.content.len();
        let mut i: usize = 0;
        while i < count
            invariant
                i <= count,
                n == self.content@.len(),
                self.idx_page + count <= n,
                out@.len() == i,
                forall|j: int|
                    0 <= j < i ==> line_v(out@[j]) == line_v(
                        self.content@[self.idx_page + j],
                    ),
            decreases count - i,
        {
            out.push(duplicate_line(&self.content[self.idx_page + i]));
            i = i + 1;
        }
        proof {
            assert(lines_v(out) =~~= spec_para_visible(self@));
        }
        out
    }
}

/// How many page-down walks a paragraph needs before its page start
/// settles, and where it settles.
pub open spec fn spec_iter_page_down(p: ParagraphV, n: nat) -> ParagraphV
    decreases n,
{
    if n == 0 {
        p
    } else {
        spec_iter_page_down(spec_para_page_down(p), (n - 1) as nat)
    }
}

/// One page-down walk from before the last page start makes strict
/// progress and never overshoots it.
pub proof fn lemma_page_down_progress(p: ParagraphV)
    requires
        para_wf(p),
        para_width(p) >= 1,
        p.page < spec_last_start(p.lines.len(), para_height(p)),
    ensures
        para_wf(spec_para_page_down(p)),
        spec_para_page_down(p).page > p.page,
        spec_para_page_down(p).page <= spec_last_start(p.lines.len(), para_height(p)),
        spec_para_page_down(p).lines == p.lines,
        spec_para_page_down(p).window == p.window,
{
    let w = para_width(p);
    let h = para_height(p);
    let hs = spec_heights(p.lines, w).skip(p.page as int);
    assert(hs.len() > 0);
    assert(spec_walk_count(hs, h as int) >= 1);
}

/// At or past the last page start a page-down walk is a fixpoint.
pub proof fn lemma_page_down_fixpoint(p: ParagraphV)
    requires
        p.page >= spec_last_start(p.lines.len(), para_height(p)),
    ensures
        spec_para_page_down(p) == p,
{
}

/// Starting at or before the last page start, enough page-down walks
/// settle the page start exactly there — the same place a direct jump
/// to the end reaches.  Together with `spec_para_select_last` and
/// `spec_para_select_first` this makes repeated paging an idempotent
/// route to the end of the buffer.
pub proof fn lemma_page_down_reaches_last(p: ParagraphV, n: nat)
    requires
        para_wf(p),
        para_width(p) >= 1,
        p.page <= spec_last_start(p.lines.len(), para_height(p)),
        n >= spec_last_start(p.lines.len(), para_height(p)) - p.page,
    ensures
        spec_iter_page_down(p, n).page == spec_last_start(p.lines.len(), para_height(p)),
    decreases n,
{
    let last = spec_last_start(p.lines.len(), para_height(p));
    if n == 0 {
        assert(p.page == last);
    } else {
        if p.page == last {
            lemma_page_down_fixpoint(p);
            lemma_page_down_reaches_last(p, (n - 1) as nat);
        } else {
            lemma_page_down_progress(p);
            let q = spec_para_page_down(p);
            assert(spec_last_start(q.lines.len(), para_height(q)) == last);
            lemma_page_down_reaches_last(q, (n - 1) as nat);
        }
    }
}

/// Jumping to the end, then to the start, then paging down repeatedly
/// reaches the same stable page start as the direct jump to the end.
pub proof fn lemma_paging_idempotent_end(p: ParagraphV, n: nat)
    requires
        para_wf(p),
        para_width(p) >= 1,
        n >= spec_last_start(p.lines.len(), para_height(p)),
    ensures
        spec_iter_page_down(spec_para_select_first(spec_para_select_last(p)), n).page
            == spec_para_select_last(p).page,
{
    let q = spec_para_select_first(spec_para_select_last(p));
    assert(para_wf(q));
    lemma_page_down_reaches_last(q, n);
}

} // verus!
