//! Soft-wrap height and paging math shared by the text and table widgets.
//!
//! A logical line is a sequence of styled text runs.  Its wrapped height
//! under a viewport width `w` is found by accumulating run lengths into a
//! running column counter modulo `w` — each run adds `total / w` full
//! display lines and leaves `total % w` columns behind — plus one display
//! line for the row itself.  Lengths are counted in characters, not
//! display columns; that matches the stored content, not a width-aware
//! renderer.

use vstd::prelude::*;

use crate::style::Style;

verus! {

/// One styled run of text inside a logical line.
pub struct Run {
    pub text: String,
    pub style: Style,
}

/// The mathematical image of a [`Run`].
pub ghost struct RunV {
    pub text: Seq<char>,
    pub style: Style,
}

impl View for Run {
    type V = RunV;

    open spec fn view(&self) -> RunV {
        RunV { text: self.text@, style: self.style }
    }
}

impl Run {
    /// Builds a run from owned text and a style.
    pub fn new(text: String, style: Style) -> (r: Run)
        ensures
            r@ == (RunV { text: text@, style: style }),
    {
        Run { text, style }
    }

    /// An exact copy of the run.
    pub fn duplicate(&self) -> (r: Run)
        ensures
            r@ == self@,
    {
        Run { text: self.text.clone(), style: self.style }
    }
}

/// The mathematical image of a logical line.
pub open spec fn line_v(l: Vec<Run>) -> Seq<RunV> {
    l@.map_values(|r: Run| r@)
}

/// The mathematical image of a line buffer.
pub open spec fn lines_v(ls: Vec<Vec<Run>>) -> Seq<Seq<RunV>> {
    ls@.map_values(|l: Vec<Run>| line_v(l))
}

/// Copies a logical line run by run.
pub fn duplicate_line(l: &Vec<Run>) -> (r: Vec<Run>)
    ensures
        line_v(r) == line_v(*l),
{
    let mut out: Vec<Run> = Vec::new();
    let mut i: usize = 0;
    while i < l.len()
        invariant
            i <= l@.len(),
            out@.len() == i,
            forall|j: int| 0 <= j < i ==> out@[j]@ == l@[j]@,
        decreases l@.len() - i,
    {
        out.push(l[i].duplicate());
        i = i + 1;
    }
    assert(line_v(out) =~= line_v(*l));
    out
}

/// Folds the runs of a line into `(full display lines, columns left)`:
/// the running column counter absorbs each run's length, spills
/// `total / w` complete display lines and keeps the remainder.
pub open spec fn spec_wrap_accum(runs: Seq<RunV>, w: nat) -> (nat, nat)
    recommends
        w >= 1,
    decreases runs.len(),
{
    if runs.len() == 0 {
        (0nat, 0nat)
    } else {
        let prev = spec_wrap_accum(runs.drop_last(), w);
        let total = prev.1 + runs.last().text.len();
        (
            ((prev.0 + (total as int) / (w as int)) as nat),
            (((total as int) % (w as int)) as nat),
        )
    }
}

/// The number of display lines a logical line occupies at width `w`:
/// its spilled full lines plus the line's own terminal display line.
/// An empty line still occupies one display line.
pub open spec fn spec_line_height(runs: Seq<RunV>, w: nat) -> nat
    recommends
        w >= 1,
{
    spec_wrap_accum(runs, w).0 + 1
}

/// The wrapped heights of a whole line buffer.
pub open spec fn spec_heights(lines: Seq<Seq<RunV>>, w: nat) -> Seq<nat> {
    lines.map_values(|l: Seq<RunV>| spec_line_height(l, w))
}

/// How many rows a page walk consumes: rows are taken one after another
/// as long as the height already consumed has not passed the budget, so
/// at least one row is always taken when any remain.
pub open spec fn spec_walk_count(hs: Seq<nat>, budget: int) -> nat
    decreases hs.len(),
{
    if hs.len() == 0 || budget < 0 {
        0
    } else {
        1 + spec_walk_count(hs.drop_first(), budget - hs.first())
    }
}

/// Walking sees no difference between true heights and heights capped
/// just above the budget: a row too tall to fit is too tall either way.
pub proof fn lemma_walk_count_capped(hs: Seq<nat>, chs: Seq<nat>, cap: nat, budget: int)
    requires
        budget < cap,
        hs.len() == chs.len(),
        forall|i: int|
            0 <= i < hs.len() ==> chs[i] == if hs[i] < cap {
                hs[i]
            } else {
                cap
            },
    ensures
        spec_walk_count(hs, budget) == spec_walk_count(chs, budget),
    decreases hs.len(),
{
    if hs.len() != 0 && budget >= 0 {
        assert(hs.drop_first().len() == chs.drop_first().len());
        assert(forall|i: int|
            0 <= i < hs.drop_first().len() ==> chs.drop_first()[i] == if hs.drop_first()[i] < cap {
                hs.drop_first()[i]
            } else {
                cap
            });
        if hs.first() < cap {
            lemma_walk_count_capped(hs.drop_first(), chs.drop_first(), cap, budget - hs.first());
        } else {
            // both residual budgets are negative, so both walks stop here
            assert(budget - hs.first() < 0);
            assert(chs.first() == cap);
            assert(budget - chs.first() < 0);
            assert(spec_walk_count(hs.drop_first(), budget - hs.first()) == 0);
            assert(spec_walk_count(chs.drop_first(), budget - chs.first()) == 0);
            assert(spec_walk_count(hs, budget) == 1);
            assert(spec_walk_count(chs, budget) == 1);
        }
    }
}

/// Extending a line can only increase its spilled full lines.
pub proof fn lemma_wrap_accum_prefix_le(runs: Seq<RunV>, k: int, w: nat)
    requires
        w >= 1,
        0 <= k <= runs.len(),
    ensures
        spec_wrap_accum(runs.take(k), w).0 <= spec_wrap_accum(runs, w).0,
    decreases runs.len(),
{
    if k == runs.len() {
        assert(runs.take(k) =~= runs);
    } else {
        assert(runs.len() > 0);
        lemma_wrap_accum_prefix_le(runs.drop_last(), k, w);
        assert(runs.drop_last().take(k) =~= runs.take(k));
        assert(spec_wrap_accum(runs, w).0 >= spec_wrap_accum(runs.drop_last(), w).0);
    }
}

/// Splitting `curr + len` by `w` one run at a time agrees with dividing
/// the run's length first and carrying at most one extra spill line.
proof fn lemma_div_step(curr: int, len: int, w: int)
    requires
        w >= 1,
        0 <= curr < w,
        0 <= len,
    ensures
        (curr + len) / w == len / w + if curr + len % w >= w {
            1int
        } else {
            0int
        },
        (curr + len) % w == if curr + len % w >= w {
            curr + len % w - w
        } else {
            curr + len % w
        },
{
    let q = len / w;
    let r = len % w;
    assert(len == q * w + r && 0 <= r < w) by (nonlinear_arith)
        requires
            w >= 1 && len >= 0 && q == len / w && r == len % w,
    ;
    if curr + r >= w {
        assert((curr + len) == (q + 1) * w + (curr + r - w)) by (nonlinear_arith)
            requires
                len == q * w + r,
        ;
        assert((curr + len) / w == q + 1 && (curr + len) % w == curr + r - w) by (nonlinear_arith)
            requires
                w >= 1 && curr + len == (q + 1) * w + (curr + r - w) && 0 <= curr + r - w < w,
        ;
    } else {
        assert((curr + len) == q * w + (curr + r)) by (nonlinear_arith)
            requires
                len == q * w + r,
        ;
        assert((curr + len) / w == q && (curr + len) % w == curr + r) by (nonlinear_arith)
            requires
                w >= 1 && curr + len == q * w + (curr + r) && 0 <= curr + r < w,
        ;
    }
}

/// The wrapped height of one line at width `w`, capped at `cap`: the
/// result is the true height where that is below the cap, and `cap`
/// otherwise, so callers can budget with small numbers.
pub fn line_height_capped(line: &Vec<Run>, w: usize, cap: usize) -> (h: usize)
    requires
        1 <= w <= 65535,
        1 <= cap <= 131072,
    ensures
        h == if spec_line_height(line_v(*line), w as nat) < cap {
            spec_line_height(line_v(*line), w as nat)
        } else {
            cap as nat
        },
{
    let ghost runs = line_v(*line);
    if cap == 1 {
        // a line always occupies at least one display line
        return 1;
    }
    let mut h: usize = 1;
    let mut curr: usize = 0;
    let mut i: usize = 0;
    while i < line.len()
        invariant
            1 <= w <= 65535,
            1 <= cap <= 131072,
            i <= line@.len(),
            runs == line_v(*line),
            h < cap,
            curr < w,
            h - 1 == spec_wrap_accum(runs.take(i as int), w as nat).0,
            curr == spec_wrap_accum(runs.take(i as int), w as nat).1,
        decreases line@.len() - i,
    {
        let ghost prefix = runs.take(i as int);
        let ghost next_prefix = runs.take(i + 1 as int);
        proof {
            assert(next_prefix.drop_last() =~= prefix);
            assert(next_prefix.last() == runs[i as int]);
            assert(runs[i as int] == line@[i as int]@);
        }
        let len = line[i].text.as_str().unicode_len();
        proof {
            lemma_div_step(curr as int, len as int, w as int);
        }
        let q = len / w;
        let rm = len % w;
        if q >= cap - h {
            // the true height already reaches the cap inside this run
            proof {
                assert(spec_wrap_accum(next_prefix, w as nat).0 >= h - 1 + q);
                lemma_wrap_accum_prefix_le(runs, i + 1 as int, w as nat);
                assert(spec_line_height(runs, w as nat) >= cap);
            }
            return cap;
        }
        h = h + q;
        curr = curr + rm;
        if curr >= w {
            h = h + 1;
            curr = curr - w;
        }
        if h >= cap {
            proof {
                lemma_wrap_accum_prefix_le(runs, i + 1 as int, w as nat);
                assert(spec_line_height(runs, w as nat) >= cap);
            }
            return cap;
        }
        i = i + 1;
    }
    proof {
        assert(runs.take(line@.len() as int) =~= runs);
    }
    h
}

/// `hs` with every height clamped to `cap`.
pub open spec fn spec_capped(hs: Seq<nat>, cap: nat) -> Seq<nat> {
    hs.map_values(
        |h: nat|
            if h < cap {
                h
            } else {
                cap
            },
    )
}

/// Counts how many lines fit a page walked forward from `start`:
/// lines are consumed while the accumulated wrapped height has not
/// passed `budget`, so the first line is always consumed.
pub fn walk_forward(lines: &Vec<Vec<Run>>, start: usize, w: usize, budget: usize) -> (count: usize)
    requires
        1 <= w <= 65535,
        budget <= 65535,
        start <= lines@.len(),
    ensures
        count == spec_walk_count(
            spec_heights(lines_v(*lines), w as nat).skip(start as int),
            budget as int,
        ),
        start + count <= lines@.len(),
{
    let ghost hs = spec_heights(lines_v(*lines), w as nat).skip(start as int);
    let ghost chs = spec_capped(hs, (budget + 1) as nat);
    let mut count: usize = 0;
    let mut shift: usize = 0;
    proof {
        assert(chs.skip(0) =~= chs);
    }
    let n = lines.len();
    while shift <= budget && count < n - start
        invariant
            1 <= w <= 65535,
            budget <= 65535,
            n == lines@.len(),
            start <= n,
            start + count <= lines@.len(),
            shift <= 2 * budget + 1,
            hs == spec_heights(lines_v(*lines), w as nat).skip(start as int),
            chs == spec_capped(hs, (budget + 1) as nat),
            count <= hs.len(),
            spec_walk_count(chs, budget as int) == count + spec_walk_count(
                chs.skip(count as int),
                budget - shift,
            ),
        decreases lines@.len() - (start + count),
    {
        let h = line_height_capped(&lines[start + count], w, budget + 1);
        proof {
            assert(lines_v(*lines)[start + count] == line_v(lines@[start + count as int]));
            assert(hs[count as int] == spec_line_height(lines_v(*lines)[start + count], w as nat));
            assert(chs[count as int] == h);
            assert(chs.skip(count as int).len() > 0);
            assert(chs.skip(count as int).first() == chs[count as int]);
            assert(chs.skip(count as int).drop_first() =~= chs.skip(count as int + 1));
            assert(spec_walk_count(chs.skip(count as int), budget - shift) == 1 + spec_walk_count(
                chs.skip(count as int + 1),
                budget - shift - h,
            ));
        }
        shift = shift + h;
        count = count + 1;
    }
    proof {
        if start + count == lines@.len() {
            assert(chs.skip(count as int) =~= Seq::<nat>::empty());
        }
        assert(spec_walk_count(chs.skip(count as int), budget - shift) == 0);
        assert(hs.len() == chs.len());
        lemma_walk_count_capped(hs, chs, (budget + 1) as nat, budget as int);
    }
    count
}

/// Counts how many lines fit a page walked backward from `end`: the
/// same walk as [`walk_forward`], taken over the lines before `end` in
/// reverse order.
pub fn walk_backward(lines: &Vec<Vec<Run>>, end: usize, w: usize, budget: usize) -> (count: usize)
    requires
        1 <= w <= 65535,
        budget <= 65535,
        end <= lines@.len(),
    ensures
        count == spec_walk_count(
            spec_heights(lines_v(*lines), w as nat).take(end as int).reverse(),
            budget as int,
        ),
        count <= end,
{
    let ghost hs = spec_heights(lines_v(*lines), w as nat).take(end as int).reverse();
    let ghost chs = spec_capped(hs, (budget + 1) as nat);
    let mut count: usize = 0;
    let mut shift: usize = 0;
    proof {
        assert(chs.skip(0) =~= chs);
        assert(hs.len() == end);
    }
    while shift <= budget && count < end
        invariant
            1 <= w <= 65535,
            budget <= 65535,
            end <= lines@.len(),
            count <= end,
            shift <= 2 * budget + 1,
            hs == spec_heights(lines_v(*lines), w as nat).take(end as int).reverse(),
            chs == spec_capped(hs, (budget + 1) as nat),
            spec_walk_count(chs, budget as int) == count + spec_walk_count(
                chs.skip(count as int),
                budget - shift,
            ),
        decreases end - count,
    {
        let h = line_height_capped(&lines[end - 1 - count], w, budget + 1);
        proof {
            assert(hs[count as int] == spec_heights(lines_v(*lines), w as nat).take(end as int)[end
                - 1 - count]);
            assert(lines_v(*lines)[end - 1 - count] == line_v(lines@[end - 1 - count as int]));
            assert(hs[count as int] == spec_line_height(
                lines_v(*lines)[end - 1 - count],
                w as nat,
            ));
            assert(chs[count as int] == h);
            assert(chs.skip(count as int).len() > 0);
            assert(chs.skip(count as int).first() == chs[count as int]);
            assert(chs.skip(count as int).drop_first() =~= chs.skip(count as int + 1));
            assert(spec_walk_count(chs.skip(count as int), budget - shift) == 1 + spec_walk_count(
                chs.skip(count as int + 1),
                budget - shift - h,
            ));
        }
        shift = shift + h;
        count = count + 1;
    }
    proof {
        if count == end {
            assert(chs.skip(count as int) =~= Seq::<nat>::empty());
        }
        assert(spec_walk_count(chs.skip(count as int), budget - shift) == 0);
        assert(hs.len() == chs.len());
        lemma_walk_count_capped(hs, chs, (budget + 1) as nat, budget as int);
    }
    count
}

} // verus!
