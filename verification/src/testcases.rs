//! Testcases: the files a problem directory offers and their pairing.
//!
//! A testcase is a matched pair of an input file and an expected-output
//! file. Files pair up by stem: `x.in` belongs to `x.out`. Files with any
//! other name are ignored; when several files share a stem on the same
//! side, the one seen last wins, as repeated insertion into a map would
//! have it. The pairs come out ordered by stem.

use vstd::prelude::*;

use crate::text::has_suffix;
use crate::text::ends_with_str;
use crate::text::lex_le;
use crate::text::lex_lt;
use crate::text::lemma_lex_le_antisymmetric;
use crate::text::lemma_lex_le_total;
use crate::text::lemma_lex_le_transitive;
use crate::text::str_eq;
use crate::text::str_lex_le;
use crate::verdict::JudgeStatus;

verus! {

/// A deferred comparison unit. The full diff task is carried by the
/// callers; this stub reports a halted judgement.
#[derive(Default)]
pub struct DiffTask {}

impl DiffTask {
    /// Report the status of this diff unit.
    pub fn do_diff(self) -> (r: JudgeStatus)
        ensures
            r is Halt,
    {
        JudgeStatus::Halt
    }
}

/// One file of a problem directory: its name inside the directory and its
/// full path.
#[derive(Clone)]
pub struct TestcaseFile {
    pub filename: String,
    pub path: String,
}

/// What can go wrong while gathering testcase files.
pub enum Error {
    FileNotFound(String),
    ParseError(String),
}

impl TestcaseFile {
    /// A testcase file under `path`, named `filename` inside its directory.
    pub fn new(filename: &str, path: &str) -> (r: Self)
        ensures
            r.filename@ == filename@,
            r.path@ == path@,
    {
        TestcaseFile { filename: filename.to_owned(), path: path.to_owned() }
    }

    /// The name of the file inside its directory.
    pub fn get_name(&self) -> (r: &str)
        ensures
            r@ == self.filename@,
    {
        self.filename.as_str()
    }

    /// The full path of the file.
    pub fn get_path(&self) -> (r: &str)
        ensures
            r@ == self.path@,
    {
        self.path.as_str()
    }

    /// An equal copy.
    pub fn duplicate(&self) -> (r: Self)
        ensures
            r == *self,
    {
        TestcaseFile { filename: self.filename.clone(), path: self.path.clone() }
    }
}

/// A matched pair: the input handed to the run and the expected output.
#[derive(Clone)]
pub struct Testcase {
    pub input_file: TestcaseFile,
    pub output_file: TestcaseFile,
}

impl Testcase {
    /// Pair an input file with its expected output.
    pub fn new(input_file: TestcaseFile, output_file: TestcaseFile) -> (r: Self)
        ensures
            r.input_file == input_file,
            r.output_file == output_file,
    {
        Testcase { input_file, output_file }
    }
}

/// The suffix that marks an input file.
pub open spec fn in_suffix() -> Seq<char> {
    seq!['.', 'i', 'n']
}

/// The suffix that marks an expected-output file.
pub open spec fn out_suffix() -> Seq<char> {
    seq!['.', 'o', 'u', 't']
}

/// Whether a filename names an input file.
pub open spec fn is_in_name(n: Seq<char>) -> bool {
    has_suffix(n, in_suffix())
}

/// Whether a filename names an expected-output file.
pub open spec fn is_out_name(n: Seq<char>) -> bool {
    has_suffix(n, out_suffix())
}

/// The stem of an input filename.
pub open spec fn in_stem(n: Seq<char>) -> Seq<char> {
    n.subrange(0, n.len() - in_suffix().len())
}

/// The stem of an expected-output filename.
pub open spec fn out_stem(n: Seq<char>) -> Seq<char> {
    n.subrange(0, n.len() - out_suffix().len())
}

/// Whether `f` is the input file (`input_side`) or the output file of the
/// stem `s`.
pub open spec fn file_matches(f: TestcaseFile, s: Seq<char>, input_side: bool) -> bool {
    if input_side {
        is_in_name(f.filename@) && in_stem(f.filename@) == s
    } else {
        is_out_name(f.filename@) && out_stem(f.filename@) == s
    }
}

/// The index of the last file in `files` that serves stem `s` on the given
/// side, if there is one.
pub open spec fn spec_last_match(files: Seq<TestcaseFile>, s: Seq<char>, input_side: bool) -> Option<
    int,
>
    decreases files.len(),
{
    if files.len() == 0 {
        Option::None
    } else if file_matches(files.last(), s, input_side) {
        Option::Some(files.len() - 1)
    } else {
        spec_last_match(files.drop_last(), s, input_side)
    }
}

/// A last match is a valid index and matches.
pub proof fn lemma_last_match_valid(files: Seq<TestcaseFile>, s: Seq<char>, input_side: bool)
    ensures
        spec_last_match(files, s, input_side) matches Option::Some(i) ==> 0 <= i < files.len()
            && file_matches(files[i], s, input_side),
    decreases files.len(),
{
    if files.len() > 0 && !file_matches(files.last(), s, input_side) {
        lemma_last_match_valid(files.drop_last(), s, input_side);
        if spec_last_match(files.drop_last(), s, input_side) is Some {
            let i = spec_last_match(files.drop_last(), s, input_side)->0;
            assert(files.drop_last()[i] == files[i]);
        }
    }
}

/// Whether some pair in `r` pairs up the stem `s`.
pub open spec fn has_pair_for(r: Seq<Testcase>, s: Seq<char>) -> bool {
    exists|k: int| 0 <= k < r.len() && in_stem(#[trigger] r[k].input_file.filename@) == s
}

/// Pair input files with output files by stem.
///
/// Each returned pair serves one stem: its input file is the last `.in`
/// file of that stem, its output file the last `.out` file of that stem.
/// Exactly the stems that have a file on both sides come out, ordered by
/// stem; every other file is ignored.
pub fn get_pairwise_testcase_files(testcase_files: Vec<TestcaseFile>) -> (r: Vec<Testcase>)
    ensures
        forall|k1: int, k2: int|
            0 <= k1 < k2 < r@.len() ==> lex_lt(
                in_stem(#[trigger] r@[k1].input_file.filename@),
                in_stem(#[trigger] r@[k2].input_file.filename@),
            ),
        forall|k: int|
            0 <= k < r@.len() ==> {
                let s = in_stem(#[trigger] r@[k].input_file.filename@);
                &&& is_in_name(r@[k].input_file.filename@)
                &&& spec_last_match(testcase_files@, s, true) matches Option::Some(p)
                    && r@[k].input_file == testcase_files@[p]
                &&& spec_last_match(testcase_files@, s, false) matches Option::Some(q)
                    && r@[k].output_file == testcase_files@[q]
            },
        forall|s: Seq<char>|
            #[trigger] has_pair_for(r@, s) == (spec_last_match(testcase_files@, s, true) is Some
                && spec_last_match(testcase_files@, s, false) is Some),
{
    let files = &testcase_files;
    let n: usize = files.len();
    let mut in_table = StemTable::new();
    let mut out_table = StemTable::new();
    let mut i: usize = 0;
    proof {
        assert(files@.subrange(0, 0) =~= Seq::<TestcaseFile>::empty());
    }
    while i < n
        invariant
            i <= n,
            n == files@.len(),
            in_table.wf(),
            out_table.wf(),
            forall|s: Seq<char>|
                #[trigger] stem_lookup(in_table.entries@, s) == spec_last_match(
                    files@.subrange(0, i as int),
                    s,
                    true,
                ),
            forall|s: Seq<char>|
                #[trigger] stem_lookup(out_table.entries@, s) == spec_last_match(
                    files@.subrange(0, i as int),
                    s,
                    false,
                ),
            forall|p: int|
                0 <= p < in_table.entries@.len() ==> (#[trigger] in_table.entries@[p].1) < n,
            forall|p: int|
                0 <= p < out_table.entries@.len() ==> (#[trigger] out_table.entries@[p].1) < n,
        decreases n - i,
    {
        let name: &String = &files[i].filename;
        let ghost fpre = files@.subrange(0, i as int);
        let ghost fpost = files@.subrange(0, i as int + 1);
        proof {
            assert(fpost.drop_last() =~= fpre);
            assert(fpost.last() == files@[i as int]);
            lemma_suffixes_disjoint(name@);
            lemma_suffix_literals();
        }
        if ends_with_str(name.as_str(), ".in") {
            let m: usize = name.unicode_len();
            let stem: String = name.substring_char(0, m - 3).to_owned();
            proof {
                lemma_suffix_literals();
                assert(stem@ == in_stem(name@));
            }
            in_table.insert_last_wins(stem, i);
        } else if ends_with_str(name.as_str(), ".out") {
            let m: usize = name.unicode_len();
            let stem: String = name.substring_char(0, m - 4).to_owned();
            proof {
                lemma_suffix_literals();
                assert(stem@ == out_stem(name@));
            }
            out_table.insert_last_wins(stem, i);
        } else {
            proof {
                lemma_suffix_literals();
            }
        }
        proof {
            assert forall|s: Seq<char>| #[trigger]
                stem_lookup(in_table.entries@, s) == spec_last_match(fpost, s, true) by {}
            assert forall|s: Seq<char>| #[trigger]
                stem_lookup(out_table.entries@, s) == spec_last_match(fpost, s, false) by {}
        }
        i = i + 1;
    }
    proof {
        assert(files@.subrange(0, n as int) =~= files@);
    }

    let mut ret: Vec<Testcase> = Vec::new();
    let cnt: usize = in_table.entries.len();
    let mut j: usize = 0;
    while j < cnt
        invariant
            j <= cnt,
            cnt == in_table.entries@.len(),
            n == files@.len(),
            in_table.wf(),
            out_table.wf(),
            forall|s: Seq<char>|
                #[trigger] stem_lookup(in_table.entries@, s) == spec_last_match(files@, s, true),
            forall|s: Seq<char>|
                #[trigger] stem_lookup(out_table.entries@, s) == spec_last_match(files@, s, false),
            forall|p: int|
                0 <= p < in_table.entries@.len() ==> (#[trigger] in_table.entries@[p].1) < n,
            forall|p: int|
                0 <= p < out_table.entries@.len() ==> (#[trigger] out_table.entries@[p].1) < n,
            forall|k: int|
                0 <= k < ret@.len() ==> {
                    let s = in_stem(#[trigger] ret@[k].input_file.filename@);
                    &&& is_in_name(ret@[k].input_file.filename@)
                    &&& spec_last_match(files@, s, true) matches Option::Some(p)
                        && ret@[k].input_file == files@[p]
                    &&& spec_last_match(files@, s, false) matches Option::Some(q)
                        && ret@[k].output_file == files@[q]
                },
            forall|k: int, m: int|
                0 <= k < ret@.len() && j <= m < cnt ==> lex_lt(
                    in_stem(#[trigger] ret@[k].input_file.filename@),
                    (#[trigger] in_table.entries@[m].0)@,
                ),
            forall|k1: int, k2: int|
                0 <= k1 < k2 < ret@.len() ==> lex_lt(
                    in_stem(#[trigger] ret@[k1].input_file.filename@),
                    in_stem(#[trigger] ret@[k2].input_file.filename@),
                ),
            forall|p: int|
                0 <= p < j ==> (#[trigger] has_pair_for(ret@, in_table.entries@[p].0@)) == (
                stem_lookup(out_table.entries@, in_table.entries@[p].0@) is Some),
            forall|s: Seq<char>|
                #[trigger] has_pair_for(ret@, s) ==> stem_lookup(in_table.entries@, s) is Some,
        decreases cnt - j,
    {
        let key: &String = &in_table.entries[j].0;
        let in_idx: usize = in_table.entries[j].1;
        proof {
            lemma_lookup_at_position(in_table.entries@, j as int);
            lemma_last_match_valid(files@, key@, true);
            lemma_last_match_valid(files@, key@, false);
        }
        let ghost old_ret = ret@;
        match out_table.get(key.as_str()) {
            Option::Some(out_idx) => {
                let pair = Testcase::new(files[in_idx].duplicate(), files[out_idx].duplicate());
                proof {
                    assert(file_matches(files@[in_idx as int], key@, true));
                    assert(in_stem(pair.input_file.filename@) == key@);
                }
                ret.push(pair);
                proof {
                    assert forall|s: Seq<char>| #[trigger]
                        has_pair_for(ret@, s) == (has_pair_for(old_ret, s) || s == key@) by {
                        lemma_has_pair_push(old_ret, ret@[old_ret.len() as int], s);
                        assert(ret@ == old_ret.push(ret@[old_ret.len() as int]));
                    }
                }
            },
            Option::None => {
                proof {
                    assert forall|p: int|
                        0 <= p < j + 1 implies (#[trigger] has_pair_for(ret@, in_table.entries@[p].0@))
                        == (stem_lookup(out_table.entries@, in_table.entries@[p].0@) is Some) by {
                        if p == j {
                            assert(!has_pair_for(ret@, in_table.entries@[p].0@)) by {
                                if has_pair_for(ret@, key@) {
                                    let k = choose|k: int|
                                        0 <= k < ret@.len() && in_stem(
                                            #[trigger] ret@[k].input_file.filename@,
                                        ) == key@;
                                    assert(lex_lt(key@, in_table.entries@[j as int].0@));
                                }
                            }
                        }
                    }
                }
            },
        }
        j = j + 1;
    }
    proof {
        assert forall|s: Seq<char>| #[trigger]
            has_pair_for(ret@, s) == (spec_last_match(files@, s, true) is Some && spec_last_match(
            files@,
            s,
            false,
        ) is Some) by {
            if spec_last_match(files@, s, true) is Some {
                lemma_lookup_some_position(in_table.entries@, s);
            }
        }
    }
    ret
}

/// The two filename suffixes as string literals.
proof fn lemma_suffix_literals()
    ensures
        ".in"@ == in_suffix(),
        ".out"@ == out_suffix(),
{
    reveal_strlit(".in");
    reveal_strlit(".out");
    assert(".in"@ =~= in_suffix());
    assert(".out"@ =~= out_suffix());
}

/// No filename is an input name and an output name at once.
proof fn lemma_suffixes_disjoint(n: Seq<char>)
    ensures
        !(is_in_name(n) && is_out_name(n)),
{
    if is_in_name(n) && is_out_name(n) {
        assert(n.subrange(n.len() - 3, n.len() as int)[2] == n[n.len() - 1]);
        assert(n.subrange(n.len() - 4, n.len() as int)[3] == n[n.len() - 1]);
        assert(in_suffix()[2] == 'n');
        assert(out_suffix()[3] == 't');
    }
}

/// Pushing a pair extends the served stems by exactly its stem.
proof fn lemma_has_pair_push(r: Seq<Testcase>, t: Testcase, s: Seq<char>)
    ensures
        has_pair_for(r.push(t), s) == (has_pair_for(r, s) || in_stem(t.input_file.filename@) == s),
{
    let rp = r.push(t);
    if has_pair_for(r, s) {
        let k = choose|k: int| 0 <= k < r.len() && in_stem(#[trigger] r[k].input_file.filename@) == s;
        assert(rp[k] == r[k]);
        assert(in_stem(rp[k].input_file.filename@) == s);
    }
    if in_stem(t.input_file.filename@) == s {
        assert(rp[r.len() as int] == t);
        assert(in_stem(rp[r.len() as int].input_file.filename@) == s);
    }
    if has_pair_for(rp, s) {
        let k = choose|k: int|
            0 <= k < rp.len() && in_stem(#[trigger] rp[k].input_file.filename@) == s;
        if k < r.len() {
            assert(rp[k] == r[k]);
            assert(in_stem(r[k].input_file.filename@) == s);
        } else {
            assert(rp[k] == t);
        }
    }
}

/// An ordered table from stems to file indices: the replacement for a
/// string-keyed ordered map, with its invariant written out.
pub struct StemTable {
    pub entries: Vec<(String, usize)>,
}

/// First-match lookup of a stem among table entries.
pub open spec fn stem_lookup(entries: Seq<(String, usize)>, s: Seq<char>) -> Option<int>
    decreases entries.len(),
{
    if entries.len() == 0 {
        Option::None
    } else if entries[0].0@ == s {
        Option::Some(entries[0].1 as int)
    } else {
        stem_lookup(entries.skip(1), s)
    }
}

/// In a strictly ordered table, the slot at any position answers the lookup
/// of its own key.
proof fn lemma_lookup_at_position(entries: Seq<(String, usize)>, j: int)
    requires
        0 <= j < entries.len(),
        forall|p: int, q: int| 0 <= p < q < entries.len() ==> lex_lt(
            (#[trigger] entries[p].0)@,
            (#[trigger] entries[q].0)@,
        ),
    ensures
        stem_lookup(entries, entries[j].0@) == Option::Some(entries[j].1 as int),
    decreases j,
{
    if j == 0 {
    } else {
        assert(lex_lt(entries[0].0@, entries[j].0@));
        assert forall|p: int, q: int| 0 <= p < q < entries.skip(1).len() implies lex_lt(
            (#[trigger] entries.skip(1)[p].0)@,
            (#[trigger] entries.skip(1)[q].0)@,
        ) by {
            assert(entries.skip(1)[p] == entries[p + 1]);
            assert(entries.skip(1)[q] == entries[q + 1]);
        }
        assert(entries.skip(1)[j - 1] == entries[j]);
        lemma_lookup_at_position(entries.skip(1), j - 1);
    }
}

/// A successful lookup names the key of some slot.
proof fn lemma_lookup_some_position(entries: Seq<(String, usize)>, s: Seq<char>)
    requires
        stem_lookup(entries, s) is Some,
    ensures
        exists|p: int| 0 <= p < entries.len() && (#[trigger] entries[p].0)@ == s,
    decreases entries.len(),
{
    if entries.len() > 0 && entries[0].0@ != s {
        lemma_lookup_some_position(entries.skip(1), s);
        let p = choose|p: int| 0 <= p < entries.skip(1).len() && (#[trigger] entries.skip(1)[p].0)@ == s;
        assert(entries[p + 1] == entries.skip(1)[p]);
        assert((entries[p + 1].0)@ == s);
    }
}

impl StemTable {
    /// Strict ordering of the slots by stem.
    pub open spec fn wf(self) -> bool {
        forall|p: int, q: int| 0 <= p < q < self.entries@.len() ==> lex_lt(
            (#[trigger] self.entries@[p].0)@,
            (#[trigger] self.entries@[q].0)@,
        )
    }

    /// An empty table.
    pub fn new() -> (r: Self)
        ensures
            r.wf(),
            r.entries@.len() == 0,
            forall|s: Seq<char>| #[trigger] stem_lookup(r.entries@, s) is None,
    {
        StemTable { entries: Vec::new() }
    }

    /// Look a stem up.
    pub fn get(&self, s: &str) -> (r: Option<usize>)
        ensures
            match r {
                Option::Some(v) => stem_lookup(self.entries@, s@) == Option::Some(v as int),
                Option::None => stem_lookup(self.entries@, s@) is None,
            },
    {
        let n: usize = self.entries.len();
        let mut i: usize = 0;
        proof {
            assert(self.entries@.skip(0) =~= self.entries@);
        }
        while i < n
            invariant
                i <= n,
                n == self.entries@.len(),
                stem_lookup(self.entries@.skip(i as int), s@) == stem_lookup(self.entries@, s@),
            decreases n - i,
        {
            proof {
                assert(self.entries@.skip(i as int)[0] == self.entries@[i as int]);
                assert(self.entries@.skip(i as int).skip(1) =~= self.entries@.skip(i as int + 1));
            }
            if str_eq(self.entries[i].0.as_str(), s) {
                return Option::Some(self.entries[i].1);
            }
            i = i + 1;
        }
        assert(self.entries@.skip(n as int).len() == 0);
        Option::None
    }

    /// The first position whose stem is not strictly below `key`, walking
    /// the slots in order.
    fn lower_bound(&self, key: &str) -> (p: usize)
        ensures
            p <= self.entries@.len(),
            forall|q: int| 0 <= q < p ==> lex_lt((#[trigger] self.entries@[q].0)@, key@),
            p < self.entries@.len() ==> !lex_lt(self.entries@[p as int].0@, key@),
    {
        let n: usize = self.entries.len();
        let mut p: usize = 0;
        while p < n
            invariant
                p <= n,
                n == self.entries@.len(),
                forall|q: int| 0 <= q < p ==> lex_lt((#[trigger] self.entries@[q].0)@, key@),
            decreases n - p,
        {
            let cur: &String = &self.entries[p].0;
            let below = str_lex_le(cur.as_str(), key);
            let same = str_eq(cur.as_str(), key);
            if !(below && !same) {
                return p;
            }
            p = p + 1;
        }
        p
    }

    /// Bind a stem to a file index; a stem already present is re-bound.
    pub fn insert_last_wins(&mut self, key: String, val: usize)
        requires
            old(self).wf(),
        ensures
            final(self).wf(),
            forall|s: Seq<char>|
                #[trigger] stem_lookup(final(self).entries@, s) == (if s == key@ {
                    Option::Some(val as int)
                } else {
                    stem_lookup(old(self).entries@, s)
                }),
            forall|p: int|
                0 <= p < final(self).entries@.len() ==> (#[trigger] final(self).entries@[p].1)
                    == val || exists|q: int|
                    0 <= q < old(self).entries@.len() && (#[trigger] old(self).entries@[q].1)
                        == final(self).entries@[p].1,
    {
        let n: usize = self.entries.len();
        let p: usize = self.lower_bound(key.as_str());
        let ghost old_entries = self.entries@;
        if p < n && str_eq(self.entries[p].0.as_str(), key.as_str()) {
            let ghost slot_snap = (key@, val);
            self.entries[p] = (key, val);
            proof {
                assert forall|m: int|
                    0 <= m < self.entries@.len() ==> (#[trigger] self.entries@[m].0)@ == (
                    old_entries[m].0)@ by {}
                assert forall|s: Seq<char>| #[trigger]
                    stem_lookup(self.entries@, s) == (if s == key@ {
                        Option::Some(val as int)
                    } else {
                        stem_lookup(old_entries, s)
                    }) by {
                    lemma_stem_update(old_entries, p as int, self.entries@[p as int], s);
                }
            }
        } else {
            proof {
                if p < n {
                    lemma_lex_strict(self.entries@[p as int].0@, key@);
                }
                assert forall|q: int| p <= q < n implies lex_lt(
                    key@,
                    (#[trigger] old_entries[q].0)@,
                ) by {
                    if q > p {
                        assert(lex_lt(old_entries[p as int].0@, old_entries[q].0@));
                        lemma_lex_lt_transitive(key@, old_entries[p as int].0@, old_entries[q].0@);
                    }
                }
                assert forall|q: int| 0 <= q < n implies (#[trigger] old_entries[q].0)@ != key@ by {
                }
            }
            self.entries.insert(p, (key, val));
            proof {
                assert(self.entries@ =~= old_entries.take(p as int) + seq![
                    self.entries@[p as int],
                ] + old_entries.skip(p as int));
                lemma_stem_insert(old_entries, p as int, self.entries@[p as int]);
                assert forall|p2: int, q2: int|
                    0 <= p2 < q2 < self.entries@.len() implies lex_lt(
                    (#[trigger] self.entries@[p2].0)@,
                    (#[trigger] self.entries@[q2].0)@,
                ) by {
                    let e = self.entries@;
                    if q2 < p {
                        assert(e[p2] == old_entries[p2] && e[q2] == old_entries[q2]);
                    } else if q2 == p {
                        assert(e[p2] == old_entries[p2]);
                    } else if p2 < p {
                        assert(e[p2] == old_entries[p2] && e[q2] == old_entries[q2 - 1]);
                        if q2 - 1 == p {
                            assert(lex_lt(e[p2].0@, key@) && lex_lt(key@, e[q2].0@));
                        }
                        if q2 - 1 > p {
                            assert(lex_lt(old_entries[p2].0@, old_entries[q2 - 1].0@));
                        }
                    } else if p2 == p {
                        assert(e[q2] == old_entries[q2 - 1]);
                    } else {
                        assert(e[p2] == old_entries[p2 - 1] && e[q2] == old_entries[q2 - 1]);
                    }
                }
            }
        }
    }
}

/// Two comparable, distinct sequences order strictly one way or the other.
proof fn lemma_lex_strict(a: Seq<char>, b: Seq<char>)
    requires
        a != b,
    ensures
        lex_lt(a, b) || lex_lt(b, a),
{
    lemma_lex_le_total(a, b);
}

/// Strict lexicographic order is transitive.
proof fn lemma_lex_lt_transitive(a: Seq<char>, b: Seq<char>, c: Seq<char>)
    requires
        lex_lt(a, b),
        lex_lt(b, c),
    ensures
        lex_lt(a, c),
{
    lemma_lex_le_transitive(a, b, c);
    if a == c {
        lemma_lex_le_antisymmetric(a, b);
    }
}

/// Re-binding the slot that owns a stem changes the lookup of that stem
/// alone.
proof fn lemma_stem_update(entries: Seq<(String, usize)>, idx: int, slot: (String, usize), s: Seq<char>)
    requires
        0 <= idx < entries.len(),
        slot.0@ == entries[idx].0@,
        forall|j: int| 0 <= j < idx ==> (#[trigger] entries[j].0)@ != entries[idx].0@,
    ensures
        stem_lookup(entries.update(idx, slot), s) == (if s == slot.0@ {
            Option::Some(slot.1 as int)
        } else {
            stem_lookup(entries, s)
        }),
    decreases entries.len(),
{
    let upd = entries.update(idx, slot);
    if idx == 0 {
        assert(upd[0] == slot);
        assert(upd.skip(1) =~= entries.skip(1));
    } else {
        assert(upd[0] == entries[0]);
        assert(upd.skip(1) =~= entries.skip(1).update(idx - 1, slot));
        assert forall|j: int| 0 <= j < idx - 1 implies (#[trigger] entries.skip(1)[j].0)@
            != entries.skip(1)[idx - 1].0@ by {
            assert(entries.skip(1)[j] == entries[j + 1]);
            assert(entries.skip(1)[idx - 1] == entries[idx]);
        }
        assert(entries.skip(1)[idx - 1] == entries[idx]);
        lemma_stem_update(entries.skip(1), idx - 1, slot, s);
    }
}

/// Inserting a slot for a new stem adds its binding and keeps every other
/// lookup.
proof fn lemma_stem_insert(entries: Seq<(String, usize)>, p: int, slot: (String, usize))
    requires
        0 <= p <= entries.len(),
        forall|q: int| 0 <= q < entries.len() ==> (#[trigger] entries[q].0)@ != slot.0@,
    ensures
        forall|s: Seq<char>|
            #[trigger] stem_lookup(entries.take(p) + seq![slot] + entries.skip(p), s) == (if s
                == slot.0@ {
                Option::Some(slot.1 as int)
            } else {
                stem_lookup(entries, s)
            }),
    decreases p,
{
    let merged = entries.take(p) + seq![slot] + entries.skip(p);
    if p == 0 {
        assert forall|s: Seq<char>| #[trigger]
            stem_lookup(merged, s) == (if s == slot.0@ {
                Option::Some(slot.1 as int)
            } else {
                stem_lookup(entries, s)
            }) by {
            assert(merged[0] == slot);
            assert(merged.skip(1) =~= entries);
        }
    } else {
        assert forall|q: int| 0 <= q < entries.skip(1).len() implies (#[trigger] entries.skip(
            1,
        )[q].0)@ != slot.0@ by {
            assert(entries.skip(1)[q] == entries[q + 1]);
        }
        lemma_stem_insert(entries.skip(1), p - 1, slot);
        assert forall|s: Seq<char>| #[trigger]
            stem_lookup(merged, s) == (if s == slot.0@ {
                Option::Some(slot.1 as int)
            } else {
                stem_lookup(entries, s)
            }) by {
            assert(merged[0] == entries[0]);
            assert(merged.skip(1) =~= entries.skip(1).take(p - 1) + seq![slot] + entries.skip(
                1,
            ).skip(p - 1));
            assert(stem_lookup(entries.skip(1).take(p - 1) + seq![slot] + entries.skip(1).skip(
                p - 1,
            ), s) == (if s == slot.0@ {
                Option::Some(slot.1 as int)
            } else {
                stem_lookup(entries.skip(1), s)
            }));
            if entries[0].0@ == s {
                assert(s != slot.0@);
            }
        }
    }
}

} // verus!
