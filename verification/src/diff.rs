//! The line differ: a whole-content comparison that ignores empty lines.
//!
//! Both sides are split into lines beforehand; the differ walks them in
//! step, skipping empty lines anywhere, and records the first difference:
//! two unequal lines, or a line left over when the other side has ended.
//! Two contents are equivalent exactly when their non-empty lines agree.

use vstd::prelude::*;

use crate::runner::RunnerErr;
use crate::testcases::TestcaseFile;
use crate::text::str_eq;

verus! {

/// How a judgement can fail.
#[derive(Debug, PartialEq, PartialOrd, Eq, Ord, Clone)]
pub enum JudgeErr {
    /// Wrong answer: the number of passed testcases and the total.
    WrongAnswer(usize, usize),
    RuntimeError(String),
    CompilationError(String),
    InternalError(RunnerErr),
}

/// The marker recorded for the side that reached its end first.
pub open spec fn eof_marker() -> Seq<char> {
    "(eof)"@
}

/// The differences between two line sequences, walked from positions `i`
/// and `j`: empty lines are skipped on both sides, the first pair of
/// unequal lines is recorded, and a non-empty line left over when the other
/// side has ended is recorded against the end-of-file marker.
pub open spec fn spec_diffs(lhs: Seq<Seq<char>>, rhs: Seq<Seq<char>>, i: int, j: int) -> Seq<
    (int, Seq<char>, int, Seq<char>),
>
    decreases lhs.len() - i + rhs.len() - j,
{
    if i < 0 || j < 0 || i > lhs.len() || j > rhs.len() {
        seq![]
    } else if i >= lhs.len() && j >= rhs.len() {
        seq![]
    } else if i < lhs.len() && lhs[i].len() == 0 {
        spec_diffs(lhs, rhs, i + 1, j)
    } else if j < rhs.len() && rhs[j].len() == 0 {
        spec_diffs(lhs, rhs, i, j + 1)
    } else if i >= lhs.len() {
        seq![(i, eof_marker(), j, rhs[j])]
    } else if j >= rhs.len() {
        seq![(i, lhs[i], j, eof_marker())]
    } else if lhs[i] != rhs[j] {
        seq![(i, lhs[i], j, rhs[j])]
    } else {
        spec_diffs(lhs, rhs, i + 1, j + 1)
    }
}

/// The non-empty lines of `v` from position `i` on.
pub open spec fn nonempty_lines(v: Seq<Seq<char>>, i: int) -> Seq<Seq<char>>
    decreases v.len() - i,
{
    if i < 0 || i >= v.len() {
        seq![]
    } else if v[i].len() == 0 {
        nonempty_lines(v, i + 1)
    } else {
        seq![v[i]] + nonempty_lines(v, i + 1)
    }
}

/// The differ records nothing exactly when the non-empty lines of the two
/// sides agree.
pub proof fn lemma_diffs_empty_iff_equal(lhs: Seq<Seq<char>>, rhs: Seq<Seq<char>>, i: int, j: int)
    requires
        0 <= i <= lhs.len(),
        0 <= j <= rhs.len(),
    ensures
        (spec_diffs(lhs, rhs, i, j).len() == 0) == (nonempty_lines(lhs, i) == nonempty_lines(
            rhs,
            j,
        )),
    decreases lhs.len() - i + rhs.len() - j,
{
    if i >= lhs.len() && j >= rhs.len() {
        assert(nonempty_lines(lhs, i) =~= nonempty_lines(rhs, j));
    } else if i < lhs.len() && lhs[i].len() == 0 {
        lemma_diffs_empty_iff_equal(lhs, rhs, i + 1, j);
    } else if j < rhs.len() && rhs[j].len() == 0 {
        lemma_diffs_empty_iff_equal(lhs, rhs, i, j + 1);
    } else if i >= lhs.len() {
        assert(nonempty_lines(rhs, j)[0] == rhs[j]);
        assert(nonempty_lines(lhs, i).len() == 0);
    } else if j >= rhs.len() {
        assert(nonempty_lines(lhs, i)[0] == lhs[i]);
        assert(nonempty_lines(rhs, j).len() == 0);
    } else if lhs[i] != rhs[j] {
        assert(nonempty_lines(lhs, i)[0] == lhs[i]);
        assert(nonempty_lines(rhs, j)[0] == rhs[j]);
    } else {
        lemma_diffs_empty_iff_equal(lhs, rhs, i + 1, j + 1);
        if nonempty_lines(lhs, i + 1) == nonempty_lines(rhs, j + 1) {
            assert(nonempty_lines(lhs, i) =~= nonempty_lines(rhs, j));
        } else {
            assert(nonempty_lines(lhs, i) =~= seq![lhs[i]] + nonempty_lines(lhs, i + 1));
            assert(nonempty_lines(rhs, j) =~= seq![rhs[j]] + nonempty_lines(rhs, j + 1));
            if nonempty_lines(lhs, i) == nonempty_lines(rhs, j) {
                assert(nonempty_lines(lhs, i).skip(1) =~= nonempty_lines(lhs, i + 1));
                assert(nonempty_lines(rhs, j).skip(1) =~= nonempty_lines(rhs, j + 1));
            }
        }
    }
}

/// The recorded differences of two contents given as line lists.
fn compute_diffs(lhs: &Vec<&str>, rhs: &Vec<&str>) -> (r: Vec<(usize, String, usize, String)>)
    ensures
        r@.len() == spec_diffs(lhs.deep_view(), rhs.deep_view(), 0, 0).len(),
        forall|k: int|
            0 <= k < r@.len() ==> {
                let entry = spec_diffs(lhs.deep_view(), rhs.deep_view(), 0, 0)[k];
                &&& (#[trigger] r@[k]).0 == entry.0
                &&& r@[k].1@ == entry.1
                &&& r@[k].2 == entry.2
                &&& r@[k].3@ == entry.3
            },
{
    let ghost ldv = lhs.deep_view();
    let ghost rdv = rhs.deep_view();
    let llen: usize = lhs.len();
    let rlen: usize = rhs.len();
    let mut i: usize = 0;
    let mut j: usize = 0;
    let mut diffs: Vec<(usize, String, usize, String)> = Vec::new();
    while !(i >= llen && j >= rlen)
        invariant
            i <= llen,
            j <= rlen,
            llen == ldv.len(),
            rlen == rdv.len(),
            ldv == lhs.deep_view(),
            rdv == rhs.deep_view(),
            diffs@.len() == 0,
            spec_diffs(ldv, rdv, 0, 0) == spec_diffs(ldv, rdv, i as int, j as int),
        decreases llen - i + rlen - j,
    {
        proof {
            if i < llen {
                assert(ldv[i as int] == lhs@[i as int]@);
            }
            if j < rlen {
                assert(rdv[j as int] == rhs@[j as int]@);
            }
        }
        if i < llen && lhs[i].is_empty() {
            i = i + 1;
        } else if j < rlen && rhs[j].is_empty() {
            j = j + 1;
        } else if i >= llen {
            diffs.push((i, "(eof)".to_owned(), j, rhs[j].to_owned()));
            return diffs;
        } else if j >= rlen {
            diffs.push((i, lhs[i].to_owned(), j, "(eof)".to_owned()));
            return diffs;
        } else if !str_eq(lhs[i], rhs[j]) {
            diffs.push((i, lhs[i].to_owned(), j, rhs[j].to_owned()));
            return diffs;
        } else {
            i = i + 1;
            j = j + 1;
        }
    }
    diffs
}

/// The first difference between two contents, with the paths they came
/// from.
pub struct Differ {
    pub lhs_path: String,
    pub rhs_path: String,
    pub diffs: Vec<(usize, String, usize, String)>,
}

impl Differ {
    /// Diff two contents, given as line lists together with the paths they
    /// were read from.
    pub fn new(lhs_path: &str, lhs: Vec<&str>, rhs_path: &str, rhs: Vec<&str>) -> (r: Self)
        ensures
            r.lhs_path@ == lhs_path@,
            r.rhs_path@ == rhs_path@,
            r.diffs@.len() == spec_diffs(lhs.deep_view(), rhs.deep_view(), 0, 0).len(),
            forall|k: int|
                0 <= k < r.diffs@.len() ==> {
                    let entry = spec_diffs(lhs.deep_view(), rhs.deep_view(), 0, 0)[k];
                    &&& (#[trigger] r.diffs@[k]).0 == entry.0
                    &&& r.diffs@[k].1@ == entry.1
                    &&& r.diffs@[k].2 == entry.2
                    &&& r.diffs@[k].3@ == entry.3
                },
            (r.diffs@.len() == 0) == (nonempty_lines(lhs.deep_view(), 0) == nonempty_lines(
                rhs.deep_view(),
                0,
            )),
    {
        let diffs = compute_diffs(&lhs, &rhs);
        proof {
            lemma_diffs_empty_iff_equal(lhs.deep_view(), rhs.deep_view(), 0, 0);
        }
        Differ { lhs_path: lhs_path.to_owned(), rhs_path: rhs_path.to_owned(), diffs }
    }
}

/// The whole-content judgement over the differ.
pub struct Judge {}

impl Judge {
    /// Whether the produced output agrees with the preset output, both
    /// given as line lists: true exactly when their non-empty lines agree.
    pub fn judge(
        stdout_file: &TestcaseFile,
        preset_output_file: &TestcaseFile,
        stdout_lines: Vec<&str>,
        preset_lines: Vec<&str>,
    ) -> (r: bool)
        ensures
            r == (nonempty_lines(stdout_lines.deep_view(), 0) == nonempty_lines(
                preset_lines.deep_view(),
                0,
            )),
    {
        let differ = Differ::new(
            stdout_file.get_path(),
            stdout_lines,
            preset_output_file.get_path(),
            preset_lines,
        );
        differ.diffs.is_empty()
    }
}

} // verus!
