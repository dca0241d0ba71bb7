//! Verified text helpers: splitting on line breaks and substring search.

use vstd::prelude::*;

verus! {

/// The index of the first `'\n'` in `t`, or `-1` when there is none.
pub open spec fn spec_find_nl(t: Seq<char>) -> int
    decreases t.len(),
{
    if t.len() == 0 {
        -1
    } else if t[0] == '\n' {
        0
    } else {
        let r = spec_find_nl(t.drop_first());
        if r < 0 {
            -1
        } else {
            r + 1
        }
    }
}

/// `spec_find_nl` finds exactly the first newline.
pub proof fn lemma_find_nl(t: Seq<char>)
    ensures
        spec_find_nl(t) < 0 ==> forall|j: int| 0 <= j < t.len() ==> t[j] != '\n',
        spec_find_nl(t) >= 0 ==> spec_find_nl(t) < t.len() && t[spec_find_nl(t)] == '\n' && forall|
            j: int,
        | 0 <= j < spec_find_nl(t) ==> t[j] != '\n',
    decreases t.len(),
{
    if t.len() != 0 && t[0] != '\n' {
        lemma_find_nl(t.drop_first());
        let r = spec_find_nl(t.drop_first());
        if r < 0 {
            assert(spec_find_nl(t) == -1);
            assert forall|j: int| 0 <= j < t.len() implies t[j] != '\n' by {
                if j > 0 {
                    assert(t.drop_first()[j - 1] == t[j]);
                }
            }
        } else {
            assert(spec_find_nl(t) == r + 1);
            assert(t.drop_first()[r] == t[r + 1]);
            assert forall|j: int| 0 <= j < r + 1 implies t[j] != '\n' by {
                if j > 0 {
                    assert(t.drop_first()[j - 1] == t[j]);
                }
            }
        }
    }
}

/// A newline at `k` with none before it pins `spec_find_nl` down to `k`.
pub proof fn lemma_find_nl_at(t: Seq<char>, k: int)
    requires
        0 <= k < t.len(),
        t[k] == '\n',
        forall|j: int| 0 <= j < k ==> t[j] != '\n',
    ensures
        spec_find_nl(t) == k,
    decreases t.len(),
{
    if k > 0 {
        assert(forall|j: int| 0 <= j < t.drop_first().len() ==> t.drop_first()[j] == t[j + 1]);
        lemma_find_nl_at(t.drop_first(), k - 1);
    }
}

/// Drops a final carriage return, as the `\r\n` line break demands.
pub open spec fn spec_strip_cr(t: Seq<char>) -> Seq<char> {
    if t.len() > 0 && t.last() == '\r' {
        t.drop_last()
    } else {
        t
    }
}

/// The logical lines of `t`: segments between line breaks, where a break
/// is `'\n'` or `"\r\n"`.  A final break ends the last line without
/// opening an empty one, and a lone final `'\r'` stays part of its line.
pub open spec fn spec_split_lines(t: Seq<char>) -> Seq<Seq<char>>
    decreases t.len(),
{
    if t.len() == 0 {
        Seq::empty()
    } else {
        let i = spec_find_nl(t);
        if 0 <= i < t.len() {
            seq![spec_strip_cr(t.take(i))] + spec_split_lines(t.skip(i + 1))
        } else {
            seq![t]
        }
    }
}

/// The views of a vector of owned strings.
pub open spec fn strings_v(v: Vec<String>) -> Seq<Seq<char>> {
    v@.map_values(|s: String| s@)
}

/// Splits `s` into its logical lines, as [`spec_split_lines`] describes.
pub fn split_into_lines(s: &str) -> (out: Vec<String>)
    ensures
        strings_v(out) == spec_split_lines(s@),
{
    let n = s.unicode_len();
    let mut out: Vec<String> = Vec::new();
    let mut start: usize = 0;
    let mut i: usize = 0;
    proof {
        assert(s@.skip(0) =~= s@);
        assert(strings_v(out) =~= Seq::<Seq<char>>::empty());
        assert(strings_v(out) + spec_split_lines(s@) =~= spec_split_lines(s@));
    }
    while i < n
        invariant
            start <= i <= n,
            n == s@.len(),
            forall|j: int| start <= j < i ==> s@[j] != '\n',
            spec_split_lines(s@) == strings_v(out) + spec_split_lines(s@.skip(start as int)),
        decreases n - i,
    {
        let c = s.get_char(i);
        if c == '\n' {
            let end = if i > start && s.get_char(i - 1) == '\r' {
                i - 1
            } else {
                i
            };
            let seg = String::from_str(s.substring_char(start, end));
            let ghost t = s@.skip(start as int);
            proof {
                assert(forall|j: int| 0 <= j < t.len() ==> t[j] == s@[j + start]);
                lemma_find_nl_at(t, i - start);
                assert(t.take(i - start) =~= s@.subrange(start as int, i as int));
                assert(spec_strip_cr(t.take(i - start)) =~= s@.subrange(
                    start as int,
                    end as int,
                ));
                assert(t.skip(i - start + 1) =~= s@.skip(i + 1));
                assert(spec_split_lines(t) == seq![spec_strip_cr(t.take(i - start))]
                    + spec_split_lines(t.skip(i - start + 1)));
            }
            out.push(seg);
            proof {
                assert(strings_v(out) =~= strings_v(out).take(strings_v(out).len() - 1) + seq![
                    s@.subrange(start as int, end as int),
                ]);
                assert(spec_split_lines(s@) =~= strings_v(out) + spec_split_lines(
                    s@.skip(i + 1),
                ));
            }
            start = i + 1;
        }
        i = i + 1;
    }
    let ghost t = s@.skip(start as int);
    proof {
        assert(forall|j: int| 0 <= j < t.len() ==> t[j] == s@[j + start]);
        lemma_find_nl(t);
    }
    if start < n {
        let seg = String::from_str(s.substring_char(start, n));
        proof {
            assert(t.len() > 0);
            assert(spec_find_nl(t) < 0);
            assert(spec_split_lines(t) == seq![t]);
            assert(t =~= s@.subrange(start as int, n as int));
        }
        out.push(seg);
        proof {
            assert(spec_split_lines(s@) =~= strings_v(out));
        }
    } else {
        proof {
            assert(t =~= Seq::<char>::empty());
            assert(spec_split_lines(t) == Seq::<Seq<char>>::empty());
            assert(spec_split_lines(s@) =~= strings_v(out));
        }
    }
    out
}

/// Whether `needle` occurs contiguously inside `hay`.
pub open spec fn spec_contains_seq(hay: Seq<char>, needle: Seq<char>) -> bool {
    exists|k: int|
        0 <= k && k + needle.len() <= hay.len() && #[trigger] hay.subrange(k, k + needle.len())
            == needle
}

/// Substring search, character by character.
pub fn contains_sub(hay: &str, needle: &str) -> (found: bool)
    ensures
        found == spec_contains_seq(hay@, needle@),
{
    let hl = hay.unicode_len();
    let nl = needle.unicode_len();
    if nl > hl {
        assert(!spec_contains_seq(hay@, needle@));
        return false;
    }
    let mut k: usize = 0;
    while k <= hl - nl
        invariant
            nl <= hl,
            hl == hay@.len(),
            nl == needle@.len(),
            k <= hl - nl + 1,
            forall|k2: int|
                0 <= k2 < k ==> #[trigger] hay@.subrange(k2, k2 + needle@.len()) != needle@,
        decreases hl - nl - k + 1,
    {
        let mut j: usize = 0;
        let mut matches = true;
        while j < nl && matches
            invariant
                j <= nl,
                k + nl <= hl,
                hl == hay@.len(),
                nl == needle@.len(),
                matches ==> forall|j2: int| 0 <= j2 < j ==> hay@[k + j2] == needle@[j2],
                !matches ==> exists|j2: int|
                    0 <= j2 < needle@.len() && hay@[k + j2] != needle@[j2],
            decreases nl - j, (if matches {
                1int
            } else {
                0int
            }),
        {
            if hay.get_char(k + j) != needle.get_char(j) {
                matches = false;
            } else {
                j = j + 1;
            }
        }
        if matches {
            assert(hay@.subrange(k as int, k + needle@.len()) =~= needle@);
            return true;
        }
        assert(exists|j2: int| 0 <= j2 < needle@.len() && hay@[k + j2] != needle@[j2]);
        assert(hay@.subrange(k as int, k + needle@.len()) != needle@) by {
            let j2 = choose|j2: int| 0 <= j2 < needle@.len() && hay@[k + j2] != needle@[j2];
            assert(hay@.subrange(k as int, k + needle@.len())[j2] == hay@[k + j2]);
        }
        k = k + 1;
    }
    assert(forall|k2: int|
        0 <= k2 && k2 + needle@.len() <= hay@.len() ==> #[trigger] hay@.subrange(
            k2,
            k2 + needle@.len(),
        ) != needle@);
    false
}

/// Character-by-character string equality.
pub fn str_eq(a: &str, b: &str) -> (r: bool)
    ensures
        r == (a@ == b@),
{
    let al = a.unicode_len();
    let bl = b.unicode_len();
    if al != bl {
        proof {
            assert(a@ != b@) by {
                if a@ == b@ {
                    assert(a@.len() == b@.len());
                }
            }
        }
        return false;
    }
    let mut i: usize = 0;
    while i < al
        invariant
            i <= al,
            al == a@.len(),
            al == b@.len(),
            forall|j: int| 0 <= j < i ==> a@[j] == b@[j],
        decreases al - i,
    {
        if a.get_char(i) != b.get_char(i) {
            proof {
                assert(a@ != b@) by {
                    if a@ == b@ {
                        assert(a@[i as int] == b@[i as int]);
                    }
                }
            }
            return false;
        }
        i = i + 1;
    }
    proof {
        assert(a@ =~= b@);
    }
    true
}

/// Relies on `String::push`: appends exactly the given character.
#[verifier::external_body]
pub fn string_push(s: &mut String, c: char)
    ensures
        final(s)@ == old(s)@.push(c),
{
    s.push(c);
}

/// Relies on `String::pop`: removes and returns the last character,
/// and leaves an empty string unchanged, returning `None`.
#[verifier::external_body]
pub fn string_pop(s: &mut String) -> (r: Option<char>)
    ensures
        old(s)@.len() == 0 ==> r is None && final(s)@ == old(s)@,
        old(s)@.len() > 0 ==> r == Some(old(s)@.last()) && final(s)@ == old(s)@.drop_last(),
{
    s.pop()
}

} // verus!
