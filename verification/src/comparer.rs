//! The output comparator: line-by-line equivalence with trailing-blank
//! tolerance.
//!
//! Both sides are given as the sequence of chunks a buffered line reader
//! yields, each chunk holding its terminating newline if the file had one.
//! Two lines are equal when they match after stripping trailing newlines.
//! When one side ends early, the other side is equivalent to end-of-file
//! only if it has exactly one line left and that line is blank: a single
//! trailing blank line is tolerated, trailing content is not.

use vstd::prelude::*;

use crate::text::is_ascii_ws;
use crate::text::char_is_ascii_ws;
use crate::text::str_eq;

verus! {

/// Outcome of a comparison: equivalent, or different at a 1-based line
/// number with the two offending lines (empty at an end-of-file mismatch).
#[derive(Debug, PartialEq, Eq)]
pub enum ComparerResult {
    Consistent,
    Inconsistent(usize, String, String),
}

/// What can go wrong around a comparison: a side could not be opened, or
/// reading it failed. Both arise at the file boundary, before the verified
/// comparison runs.
#[derive(Debug, PartialEq, Eq)]
pub enum Error {
    FileSystemError,
    IOError,
}

/// `s` without its trailing newlines.
pub open spec fn strip_nl(s: Seq<char>) -> Seq<char>
    decreases s.len(),
{
    if s.len() > 0 && s.last() == '\n' {
        strip_nl(s.drop_last())
    } else {
        s
    }
}

/// Two line chunks are equal when they match after stripping the
/// terminating newline.
pub open spec fn lines_match(a: Seq<char>, b: Seq<char>) -> bool {
    strip_nl(a) == strip_nl(b)
}

/// A line that right-trims to nothing.
pub open spec fn is_blank(s: Seq<char>) -> bool {
    forall|j: int| 0 <= j < s.len() ==> is_ascii_ws(s[j])
}

/// The lines one side may still hold when the other side has ended:
/// nothing, or one single blank line.
pub open spec fn tail_ok(rest: Seq<Seq<char>>) -> bool {
    rest.len() == 0 || (rest.len() == 1 && is_blank(rest[0]))
}

/// Equivalence of two files given as line sequences: the common prefix
/// matches line by line, and whatever remains on either side is at most one
/// blank line.
pub open spec fn spec_consistent(lhs: Seq<Seq<char>>, rhs: Seq<Seq<char>>) -> bool {
    let n = if lhs.len() <= rhs.len() {
        lhs.len() as int
    } else {
        rhs.len() as int
    };
    &&& forall|i: int| 0 <= i < n ==> lines_match(lhs[i], rhs[i])
    &&& tail_ok(lhs.skip(n))
    &&& tail_ok(rhs.skip(n))
}

/// The first position in the common prefix where the two sides differ, or
/// the length of the common prefix when it matches throughout.
pub open spec fn first_mismatch(lhs: Seq<Seq<char>>, rhs: Seq<Seq<char>>, i: int) -> int
    decreases (if lhs.len() <= rhs.len() {
        lhs.len() as int
    } else {
        rhs.len() as int
    }) - i,
{
    let n = if lhs.len() <= rhs.len() {
        lhs.len() as int
    } else {
        rhs.len() as int
    };
    if i < 0 || i >= n {
        n
    } else if !lines_match(lhs[i], rhs[i]) {
        i
    } else {
        first_mismatch(lhs, rhs, i + 1)
    }
}

/// Strip the trailing newlines of a string slice.
fn strip_nl_exec<'a>(s: &'a str) -> (r: &'a str)
    ensures
        r@ == strip_nl(s@),
{
    let n: usize = s.unicode_len();
    let mut e: usize = n;
    while e > 0 && s.get_char(e - 1) == '\n'
        invariant
            e <= n,
            n == s@.len(),
            forall|j: int| e <= j < n ==> s@[j] == '\n',
        decreases e,
    {
        e = e - 1;
    }
    proof {
        lemma_strip_nl_subrange(s@, e as int);
    }
    s.substring_char(0, e)
}

/// Stripping trailing newlines keeps exactly the prefix that ends at the
/// last character that is not a newline.
proof fn lemma_strip_nl_subrange(s: Seq<char>, e: int)
    requires
        0 <= e <= s.len(),
        forall|j: int| e <= j < s.len() ==> s[j] == '\n',
        e > 0 ==> s[e - 1] != '\n',
    ensures
        strip_nl(s) == s.subrange(0, e),
    decreases s.len(),
{
    if s.len() == e {
        assert(s.subrange(0, e) =~= s);
    } else {
        assert(s.last() == '\n');
        assert(forall|j: int| e <= j < s.drop_last().len() ==> s.drop_last()[j] == '\n');
        assert(e > 0 ==> s.drop_last()[e - 1] != '\n');
        lemma_strip_nl_subrange(s.drop_last(), e);
        assert(s.drop_last().subrange(0, e) =~= s.subrange(0, e));
    }
}

/// Whether a line right-trims to nothing.
fn is_blank_exec(s: &str) -> (r: bool)
    ensures
        r == is_blank(s@),
{
    let n: usize = s.unicode_len();
    let mut i: usize = 0;
    while i < n
        invariant
            i <= n,
            n == s@.len(),
            forall|j: int| 0 <= j < i ==> is_ascii_ws(s@[j]),
        decreases n - i,
    {
        if !char_is_ascii_ws(s.get_char(i)) {
            return false;
        }
        i = i + 1;
    }
    true
}

/// Compare two outputs, given as the line sequences read from them. The
/// result is `Consistent` exactly when the two sides are equivalent; a
/// difference inside the common prefix is reported at its 1-based line
/// number with both lines stripped of their newlines, and trailing content
/// beyond the tolerated single blank line is reported at the line after the
/// common prefix.
pub fn compare_lines(lhs: &Vec<String>, rhs: &Vec<String>) -> (res: ComparerResult)
    ensures
        (res is Consistent) == spec_consistent(lhs.deep_view(), rhs.deep_view()),
        (res matches ComparerResult::Inconsistent(line, a, b) ==> {
            let ldv = lhs.deep_view();
            let rdv = rhs.deep_view();
            let m = first_mismatch(ldv, rdv, 0);
            let n = if ldv.len() <= rdv.len() {
                ldv.len() as int
            } else {
                rdv.len() as int
            };
            &&& line == m + 1
            &&& (m < n ==> a@ == strip_nl(ldv[m]) && b@ == strip_nl(rdv[m]))
            &&& (m == n ==> a@ == Seq::<char>::empty() && b@ == Seq::<char>::empty())
        }),
{
    let ghost ldv = lhs.deep_view();
    let ghost rdv = rhs.deep_view();
    let n: usize = if lhs.len() <= rhs.len() {
        lhs.len()
    } else {
        rhs.len()
    };
    let mut i: usize = 0;
    while i < n
        invariant
            i <= n,
            ldv == lhs.deep_view(),
            rdv == rhs.deep_view(),
            n == (if ldv.len() <= rdv.len() {
                ldv.len() as int
            } else {
                rdv.len() as int
            }),
            forall|j: int| 0 <= j < i ==> lines_match(ldv[j], rdv[j]),
            first_mismatch(ldv, rdv, 0) == first_mismatch(ldv, rdv, i as int),
        decreases n - i,
    {
        let left_line = strip_nl_exec(lhs[i].as_str());
        let right_line = strip_nl_exec(rhs[i].as_str());
        proof {
            assert(ldv[i as int] == lhs@[i as int]@);
            assert(rdv[i as int] == rhs@[i as int]@);
        }
        if !str_eq(left_line, right_line) {
            assert(first_mismatch(ldv, rdv, i as int) == i);
            assert(!spec_consistent(ldv, rdv));
            return ComparerResult::Inconsistent(
                i + 1,
                left_line.to_owned(),
                right_line.to_owned(),
            );
        }
        i = i + 1;
    }
    assert(first_mismatch(ldv, rdv, n as int) == n);
    let lhs_rest_ok: bool = tail_ok_exec(lhs, n);
    let rhs_rest_ok: bool = tail_ok_exec(rhs, n);
    if lhs_rest_ok && rhs_rest_ok {
        assert(spec_consistent(ldv, rdv));
        ComparerResult::Consistent
    } else {
        assert(!spec_consistent(ldv, rdv));
        ComparerResult::Inconsistent(n + 1, String::new(), String::new())
    }
}

/// Whether the lines of `v` from position `n` on are tolerable at
/// end-of-file: none, or exactly one blank line.
fn tail_ok_exec(v: &Vec<String>, n: usize) -> (r: bool)
    requires
        n <= v@.len(),
    ensures
        r == tail_ok(v.deep_view().skip(n as int)),
{
    let len: usize = v.len();
    if len == n {
        assert(v.deep_view().skip(n as int).len() == 0);
        return true;
    }
    if len == n + 1 {
        let blank = is_blank_exec(v[n].as_str());
        assert(v.deep_view().skip(n as int)[0] == v@[n as int]@);
        assert(v.deep_view().skip(n as int).len() == 1);
        return blank;
    }
    assert(v.deep_view().skip(n as int).len() >= 2);
    false
}

/// Any output is equivalent to itself.
pub proof fn lemma_compare_self(f: Seq<Seq<char>>)
    ensures
        spec_consistent(f, f),
{
    assert(f.skip(f.len() as int).len() == 0);
}

/// Appending one blank line to an output keeps it equivalent to the
/// original.
pub proof fn lemma_compare_trailing_blank(f: Seq<Seq<char>>, b: Seq<char>)
    requires
        is_blank(b),
    ensures
        spec_consistent(f, f.push(b)),
        spec_consistent(f.push(b), f),
{
    let g = f.push(b);
    assert(forall|i: int| 0 <= i < f.len() ==> g[i] == f[i]);
    assert(f.skip(f.len() as int).len() == 0);
    assert(g.skip(f.len() as int) =~= seq![b]);
}

/// Appending a non-blank line to an output breaks the equivalence, on
/// either side.
pub proof fn lemma_compare_extra_content(f: Seq<Seq<char>>, b: Seq<char>)
    requires
        !is_blank(b),
    ensures
        !spec_consistent(f, f.push(b)),
        !spec_consistent(f.push(b), f),
{
    let g = f.push(b);
    assert(g.skip(f.len() as int) =~= seq![b]);
}

} // verus!
