//! The per-submission aggregation record.
//!
//! Every testcase execution of one submission reports into a single shared
//! record: counters for finished and wrong testcases, cumulative time and
//! memory, and a one-shot finalizer slot. The slot has take-once semantics:
//! the first observer of a completed record that takes the slot runs the
//! finalizer, all later observers short-circuit.

use vstd::prelude::*;

use crate::verdict::JudgeStatus;

verus! {

/// Shared aggregation record for the fan-out testcase executions of one
/// submission. The callers hold the actual finalizer closure; the record
/// tracks whether the one-shot slot is still occupied.
pub struct RunnerJobSharedData {
    /// Number of testcases of the submission: the fan-out width.
    pub cnt_testcases: usize,
    /// Number of testcases that have finished and reported in.
    pub cnt_checked: usize,
    /// Number of finished testcases whose output differed from the reference.
    pub cnt_wrong_answer: usize,
    /// Number of finished testcases that wrote to their error stream.
    pub cnt_runtime_error: usize,
    /// The first captured error-stream content, if any run produced one.
    pub runtime_error_log: Option<String>,
    /// Cumulative memory cost over the finished testcases.
    pub mem_cost: u64,
    /// Cumulative time cost over the finished testcases.
    pub time_cost: u64,
    /// Whether the one-shot finalizer slot is still occupied.
    pub defer_present: bool,
    /// The resolved path of the binary under test.
    pub executable_path: String,
    /// The resolved command that runs one testcase.
    pub command: Vec<String>,
}

impl RunnerJobSharedData {
    /// Well-formedness: a record never counts more reports than testcases,
    /// per-kind counters never exceed the reports, and an error log is held
    /// exactly when an erroring run was counted.
    pub open spec fn inv(self) -> bool {
        &&& self.cnt_checked <= self.cnt_testcases
        &&& self.cnt_wrong_answer <= self.cnt_checked
        &&& self.cnt_runtime_error <= self.cnt_checked
        &&& (self.cnt_runtime_error > 0 <==> self.runtime_error_log is Some)
    }

    /// The abstract completion state of this record.
    pub open spec fn model(self) -> AggModel {
        AggModel {
            total: self.cnt_testcases as nat,
            checked: self.cnt_checked as nat,
            present: self.defer_present,
        }
    }

    /// A fresh record for `cnt_testcases` fan-out executions of `command`,
    /// with all counters zero and the finalizer slot occupied.
    pub fn new(cnt_testcases: usize, executable_path: String, command: Vec<String>) -> (r: Self)
        ensures
            r.inv(),
            r.cnt_testcases == cnt_testcases,
            r.cnt_checked == 0,
            r.cnt_wrong_answer == 0,
            r.cnt_runtime_error == 0,
            r.runtime_error_log is None,
            r.mem_cost == 0,
            r.time_cost == 0,
            r.defer_present,
            r.executable_path == executable_path,
            r.command == command,
            r.model() == init_model(cnt_testcases as nat),
    {
        RunnerJobSharedData {
            cnt_testcases,
            cnt_checked: 0,
            cnt_wrong_answer: 0,
            cnt_runtime_error: 0,
            runtime_error_log: None,
            mem_cost: 0,
            time_cost: 0,
            defer_present: true,
            executable_path,
            command,
        }
    }

    /// Report one finished testcase: whether its output was wrong, the
    /// captured error-stream content if it produced one, and its measured
    /// costs. Costs accumulate with wraparound, as a machine counter does.
    pub fn record_testcase(
        &mut self,
        is_wrong: bool,
        runtime_log: Option<String>,
        mem_used: u64,
        time_elapsed: u64,
    )
        requires
            old(self).inv(),
            old(self).cnt_checked < old(self).cnt_testcases,
        ensures
            final(self).inv(),
            final(self).cnt_testcases == old(self).cnt_testcases,
            final(self).cnt_checked == old(self).cnt_checked + 1,
            final(self).cnt_wrong_answer == old(self).cnt_wrong_answer + (if is_wrong {
                1int
            } else {
                0int
            }),
            final(self).cnt_runtime_error == old(self).cnt_runtime_error + (match runtime_log {
                Option::Some(_) => 1int,
                Option::None => 0int,
            }),
            final(self).runtime_error_log == (if old(self).runtime_error_log is Some {
                old(self).runtime_error_log
            } else {
                runtime_log
            }),
            final(self).mem_cost == vstd::wrapping::u64_specs::wrapping_add(
                old(self).mem_cost,
                mem_used,
            ),
            final(self).time_cost == vstd::wrapping::u64_specs::wrapping_add(
                old(self).time_cost,
                time_elapsed,
            ),
            final(self).defer_present == old(self).defer_present,
            final(self).executable_path == old(self).executable_path,
            final(self).command == old(self).command,
            final(self).model() == step_record(old(self).model()),
    {
        if is_wrong {
            self.cnt_wrong_answer = self.cnt_wrong_answer + 1;
        }
        match runtime_log {
            Option::Some(log) => {
                self.cnt_runtime_error = self.cnt_runtime_error + 1;
                if self.runtime_error_log.is_none() {
                    self.runtime_error_log = Option::Some(log);
                }
            },
            Option::None => {},
        }
        self.mem_cost = self.mem_cost.wrapping_add(mem_used);
        self.time_cost = self.time_cost.wrapping_add(time_elapsed);
        self.cnt_checked = self.cnt_checked + 1;
    }

    /// Try to take the one-shot finalizer slot. Succeeds exactly when every
    /// testcase has reported in and the slot is still occupied; taking it
    /// empties the slot, so over the whole life of the record at most one
    /// call succeeds.
    pub fn is_complete(&mut self) -> (took: bool)
        ensures
            took == (old(self).cnt_checked >= old(self).cnt_testcases
                && old(self).defer_present),
            final(self).defer_present == (old(self).defer_present && !took),
            final(self).cnt_testcases == old(self).cnt_testcases,
            final(self).cnt_checked == old(self).cnt_checked,
            final(self).cnt_wrong_answer == old(self).cnt_wrong_answer,
            final(self).cnt_runtime_error == old(self).cnt_runtime_error,
            final(self).runtime_error_log == old(self).runtime_error_log,
            final(self).mem_cost == old(self).mem_cost,
            final(self).time_cost == old(self).time_cost,
            final(self).executable_path == old(self).executable_path,
            final(self).command == old(self).command,
            old(self).inv() ==> final(self).inv(),
            final(self).model() == step_take(old(self).model()),
            took == take_fires(old(self).model()),
    {
        if self.cnt_checked < self.cnt_testcases {
            return false;
        }
        if self.defer_present {
            self.defer_present = false;
            true
        } else {
            false
        }
    }

    /// Number of testcases of the submission.
    pub fn get_cnt_testcases(&self) -> (r: usize)
        ensures
            r == self.cnt_testcases,
    {
        self.cnt_testcases
    }

    /// Number of testcases that have reported in.
    pub fn get_cnt_checked(&self) -> (r: usize)
        ensures
            r == self.cnt_checked,
    {
        self.cnt_checked
    }

    /// Number of testcases counted as wrong answers.
    pub fn get_cnt_wrong_answer(&self) -> (r: usize)
        ensures
            r == self.cnt_wrong_answer,
    {
        self.cnt_wrong_answer
    }

    /// Cumulative memory cost.
    pub fn get_mem_cost(&self) -> (r: u64)
        ensures
            r == self.mem_cost,
    {
        self.mem_cost
    }

    /// Cumulative time cost.
    pub fn get_time_cost(&self) -> (r: u64)
        ensures
            r == self.time_cost,
    {
        self.time_cost
    }
}

/// The verdict the finalizer derives from a completed record: a run that
/// wrote to its error stream overrides wrong-answer accounting; otherwise
/// any wrong testcase yields `WrongAnswer(passed, total)`; otherwise the
/// submission is accepted.
pub open spec fn spec_verdict(s: RunnerJobSharedData) -> JudgeStatus {
    if s.cnt_runtime_error > 0 {
        JudgeStatus::RuntimeError(s.runtime_error_log->0)
    } else if s.cnt_wrong_answer > 0 {
        JudgeStatus::WrongAnswer((s.cnt_testcases - s.cnt_wrong_answer) as usize, s.cnt_testcases)
    } else {
        JudgeStatus::Accepted
    }
}

/// Map a completed aggregation record to its verdict.
pub fn verdict_of(s: &RunnerJobSharedData) -> (j: JudgeStatus)
    requires
        s.inv(),
    ensures
        j == spec_verdict(*s),
        (j matches JudgeStatus::WrongAnswer(p, n) ==> p + s.cnt_wrong_answer == n),
{
    if s.cnt_runtime_error > 0 {
        match &s.runtime_error_log {
            Option::Some(log) => JudgeStatus::RuntimeError(log.clone()),
            Option::None => JudgeStatus::RuntimeError(String::new()),
        }
    } else if s.cnt_wrong_answer > 0 {
        JudgeStatus::WrongAnswer(s.cnt_testcases - s.cnt_wrong_answer, s.cnt_testcases)
    } else {
        JudgeStatus::Accepted
    }
}

/// Abstract completion state of an aggregation record: the fan-out width,
/// how many executions have reported in, and whether the finalizer slot is
/// still occupied.
pub struct AggModel {
    pub total: nat,
    pub checked: nat,
    pub present: bool,
}

/// The state of a fresh record.
pub open spec fn init_model(total: nat) -> AggModel {
    AggModel { total, checked: 0, present: true }
}

/// One testcase reports in.
pub open spec fn step_record(m: AggModel) -> AggModel {
    AggModel { total: m.total, checked: m.checked + 1, present: m.present }
}

/// Whether an attempt to take the finalizer slot succeeds in state `m`.
pub open spec fn take_fires(m: AggModel) -> bool {
    m.checked >= m.total && m.present
}

/// An attempt to take the finalizer slot; on success the slot empties.
pub open spec fn step_take(m: AggModel) -> AggModel {
    AggModel { total: m.total, checked: m.checked, present: m.present && !take_fires(m) }
}

/// One interaction with the record: either a testcase reports in, or a
/// caller attempts to take the finalizer slot.
pub enum AggEvent {
    Record,
    TakeDefer,
}

/// Apply one event to the abstract state.
pub open spec fn agg_step(m: AggModel, e: AggEvent) -> AggModel {
    match e {
        AggEvent::Record => step_record(m),
        AggEvent::TakeDefer => step_take(m),
    }
}

/// Whether one event fires the finalizer in state `m`.
pub open spec fn agg_fires(m: AggModel, e: AggEvent) -> bool {
    e is TakeDefer && take_fires(m)
}

/// Apply a sequence of events, front to back.
pub open spec fn agg_run(m: AggModel, t: Seq<AggEvent>) -> AggModel
    decreases t.len(),
{
    if t.len() == 0 {
        m
    } else {
        agg_run(agg_step(m, t[0]), t.subrange(1, t.len() as int))
    }
}

/// How often the finalizer fires along a sequence of events.
pub open spec fn agg_fire_count(m: AggModel, t: Seq<AggEvent>) -> nat
    decreases t.len(),
{
    if t.len() == 0 {
        0
    } else {
        (if agg_fires(m, t[0]) {
            1nat
        } else {
            0nat
        }) + agg_fire_count(agg_step(m, t[0]), t.subrange(1, t.len() as int))
    }
}

/// Number of record events in a sequence.
pub open spec fn agg_record_count(t: Seq<AggEvent>) -> nat
    decreases t.len(),
{
    if t.len() == 0 {
        0
    } else {
        (if t[0] is Record {
            1nat
        } else {
            0nat
        }) + agg_record_count(t.subrange(1, t.len() as int))
    }
}

/// The slot stays occupied exactly as long as the finalizer has not fired.
pub proof fn lemma_present_iff_unfired(m: AggModel, t: Seq<AggEvent>)
    ensures
        agg_run(m, t).present == (m.present && agg_fire_count(m, t) == 0),
    decreases t.len(),
{
    if t.len() > 0 {
        lemma_present_iff_unfired(agg_step(m, t[0]), t.subrange(1, t.len() as int));
    }
}

/// Taking the slot never changes the report counter, and a report raises it
/// by exactly one: the counter after a run is the counter before plus the
/// number of record events.
pub proof fn lemma_checked_counts_records(m: AggModel, t: Seq<AggEvent>)
    ensures
        agg_run(m, t).checked == m.checked + agg_record_count(t),
        agg_run(m, t).total == m.total,
    decreases t.len(),
{
    if t.len() > 0 {
        lemma_checked_counts_records(agg_step(m, t[0]), t.subrange(1, t.len() as int));
    }
}

/// Take-once: whatever the events, the finalizer fires at most once.
pub proof fn lemma_finalizer_at_most_once(m: AggModel, t: Seq<AggEvent>)
    ensures
        agg_fire_count(m, t) <= 1,
        !m.present ==> agg_fire_count(m, t) == 0,
    decreases t.len(),
{
    if t.len() > 0 {
        let m1 = agg_step(m, t[0]);
        lemma_finalizer_at_most_once(m1, t.subrange(1, t.len() as int));
        if agg_fires(m, t[0]) {
            assert(!m1.present);
        }
    }
}

/// Splitting a run: the fires over a concatenation are the fires over the
/// first part plus the fires over the second part from the reached state.
pub proof fn lemma_agg_run_split(m: AggModel, a: Seq<AggEvent>, b: Seq<AggEvent>)
    ensures
        agg_run(m, a + b) == agg_run(agg_run(m, a), b),
        agg_fire_count(m, a + b) == agg_fire_count(m, a) + agg_fire_count(agg_run(m, a), b),
    decreases a.len(),
{
    if a.len() == 0 {
        assert(a + b =~= b);
    } else {
        let t = a + b;
        assert(t[0] == a[0]);
        assert(t.subrange(1, t.len() as int) =~= a.subrange(1, a.len() as int) + b);
        lemma_agg_run_split(agg_step(m, a[0]), a.subrange(1, a.len() as int), b);
    }
}

/// The completion law for one submission: start from a fresh record for
/// `total` testcases, let every testcase report in, and let some caller
/// attempt to take the finalizer slot once all reports are in (every run
/// does attempt after its own report). Then the report counter reaches
/// exactly `total` and the finalizer fires exactly once.
pub proof fn lemma_finalizer_exactly_once(total: nat, t: Seq<AggEvent>, k: int)
    requires
        agg_record_count(t) == total,
        0 <= k < t.len(),
        t[k] is TakeDefer,
        agg_record_count(t.subrange(0, k)) == total,
    ensures
        agg_run(init_model(total), t).checked == total,
        agg_fire_count(init_model(total), t) == 1,
{
    let m0 = init_model(total);
    lemma_checked_counts_records(m0, t);
    lemma_finalizer_at_most_once(m0, t);

    let a = t.subrange(0, k);
    let e = t.subrange(k, k + 1);
    let b = t.subrange(k + 1, t.len() as int);
    assert(t =~= a + (e + b));
    lemma_agg_run_split(m0, a, e + b);
    lemma_agg_run_split(agg_run(m0, a), e, b);
    lemma_checked_counts_records(m0, a);
    let mk = agg_run(m0, a);
    assert(mk.checked == total);
    assert(e[0] == t[k]);
    if mk.present {
        assert(agg_fires(mk, e[0]));
        assert(agg_fire_count(mk, e) >= 1);
    } else {
        lemma_present_iff_unfired(m0, a);
        assert(agg_fire_count(m0, a) >= 1);
    }
}

} // verus!
