//! Batched dispatch: the task list is cut into contiguous batches of at most
//! `max_batch_size` tasks; batches run one after another, the tasks of a
//! batch concurrently. The decisions live here; the caller performs each
//! batch and hands back one outcome per task.

use crate::amount::Amount;
use crate::error::{ConfigIssue, DtpError};
use vstd::prelude::*;

verus! {

/// The task indices `start .. end` of one batch.
#[derive(Clone, Copy, Debug, PartialEq, Eq)]
pub struct Batch {
    pub start: usize,
    pub end: usize,
}

/// Number of batches for `len` tasks: `ceil(len / b)`.
pub open spec fn batch_count(len: nat, b: nat) -> nat
    recommends
        b > 0,
{
    ((len + b - 1) as nat / b) as nat
}

/// First task index of batch `i`.
pub open spec fn batch_start(len: nat, b: nat, i: nat) -> nat {
    i * b
}

/// One past the last task index of batch `i`.
pub open spec fn batch_end(len: nat, b: nat, i: nat) -> nat {
    if (i + 1) * b <= len {
        (i + 1) * b
    } else {
        len
    }
}

/// `plan` is the batching of `len` tasks by at most `b` tasks a batch.
pub open spec fn is_plan(plan: Seq<Batch>, len: nat, b: nat) -> bool {
    &&& plan.len() == batch_count(len, b)
    &&& forall|i: int|
        0 <= i < plan.len() ==> (#[trigger] plan[i]).start == batch_start(len, b, i as nat)
            && plan[i].end == batch_end(len, b, i as nat)
}

/// Cuts `num_tasks` tasks into batches of `max_batch_size` tasks, the last
/// one possibly shorter, in task order.
pub fn batch_plan(num_tasks: usize, max_batch_size: usize) -> (r: Result<Vec<Batch>, DtpError>)
    ensures
        max_batch_size == 0 ==> r == Err::<Vec<Batch>, DtpError>(
            DtpError::Configuration(ConfigIssue::ZeroBatchSize),
        ),
        max_batch_size > 0 ==> (r matches Ok(plan) && is_plan(
            plan@,
            num_tasks as nat,
            max_batch_size as nat,
        )),
{
    if max_batch_size == 0 {
        return Err(DtpError::Configuration(ConfigIssue::ZeroBatchSize));
    }
    let ghost len = num_tasks as nat;
    let ghost b = max_batch_size as nat;
    let mut plan: Vec<Batch> = Vec::new();
    let mut start: usize = 0;
    assert(plan@.len() * b == 0) by (nonlinear_arith)
        requires
            plan@.len() == 0,
    ;
    while start < num_tasks
        invariant
            b > 0,
            len == num_tasks,
            b == max_batch_size,
            start == plan@.len() * b,
            start < num_tasks || plan@.len() == 0,
            forall|i: int|
                0 <= i < plan@.len() ==> (#[trigger] plan@[i]).start == batch_start(len, b, i as nat)
                    && plan@[i].end == batch_end(len, b, i as nat),
        decreases num_tasks - start,
    {
        let end: usize = if num_tasks - start > max_batch_size {
            start + max_batch_size
        } else {
            num_tasks
        };
        proof {
            assert((plan@.len() + 1) * b == plan@.len() * b + b) by (nonlinear_arith);
        }
        plan.push(Batch { start, end });
        if end == num_tasks {
            proof {
                lemma_count_when_last(len, b, (plan@.len() - 1) as nat);
            }
            return Ok(plan);
        }
        start = end;
    }
    assert(batch_count(len, b) == 0) by (nonlinear_arith)
        requires
            b > 0,
            len == 0,
    ;
    Ok(plan)
}

/// Where batch `i` starts before `len` and ends at or past it, there are
/// `i + 1` batches.
proof fn lemma_count_when_last(len: nat, b: nat, i: nat)
    requires
        b > 0,
        i * b < len,
        len <= (i + 1) * b,
    ensures
        batch_count(len, b) == i + 1,
{
    assert((len + b - 1) as nat / b == i + 1) by (nonlinear_arith)
        requires
            b > 0,
            i * b < len,
            len <= (i + 1) * b,
    {
        let q = i + 1;
        assert(q * b <= len + b - 1);
        assert(len + b - 1 < (q + 1) * b);
        vstd::arithmetic::div_mod::lemma_fundamental_div_mod_converse(
            (len + b - 1) as int,
            b as int,
            q as int,
            (len + b - 1 - q * b) as int,
        );
    }
}

/// Batch `i` exists exactly when it starts before the last task.
proof fn lemma_batch_exists(len: nat, b: nat, i: nat)
    requires
        b > 0,
    ensures
        i < batch_count(len, b) <==> i * b < len,
{
    let c = batch_count(len, b);
    assert(c * b <= len + b - 1 && len + b - 1 < (c + 1) * b) by (nonlinear_arith)
        requires
            b > 0,
            c == (len + b - 1) as nat / b,
    ;
    if i < c {
        assert(i * b < len) by (nonlinear_arith)
            requires
                i + 1 <= c,
                c * b <= len + b - 1,
                b > 0,
        ;
    }
    if i * b < len {
        assert(i < c) by (nonlinear_arith)
            requires
                i * b < len,
                len + b - 1 < (c + 1) * b,
                b > 0,
        ;
    }
}

/// The tasks of batches `0 .. k`, batch after batch.
pub open spec fn joined<T>(tasks: Seq<T>, b: nat, k: nat) -> Seq<T>
    decreases k,
{
    if k == 0 {
        Seq::empty()
    } else {
        joined(tasks, b, (k - 1) as nat) + tasks.subrange(
            batch_start(tasks.len(), b, (k - 1) as nat) as int,
            batch_end(tasks.len(), b, (k - 1) as nat) as int,
        )
    }
}

proof fn lemma_joined_prefix<T>(tasks: Seq<T>, b: nat, k: nat)
    requires
        b > 0,
        k <= batch_count(tasks.len(), b),
    ensures
        joined(tasks, b, k) == tasks.subrange(0, batch_end(tasks.len(), b, (k - 1) as nat) as int)
            || k == 0,
    decreases k,
{
    let len = tasks.len();
    if k > 0 {
        let i = (k - 1) as nat;
        lemma_batch_exists(len, b, i);
        assert((i + 1) * b == i * b + b) by (nonlinear_arith);
        if k > 1 {
            lemma_joined_prefix(tasks, b, i);
            let j = (k - 2) as nat;
            assert(i * b == (j + 1) * b);
            assert(batch_end(len, b, j) == batch_start(len, b, i));
        } else {
            assert(i * b == 0) by (nonlinear_arith)
                requires
                    i == 0,
            ;
        }
        let prev = joined(tasks, b, i);
        let s0 = batch_start(len, b, i) as int;
        let e0 = batch_end(len, b, i) as int;
        assert(0 <= s0 <= e0 <= len);
        assert(prev =~= tasks.subrange(0, s0));
        assert(joined(tasks, b, k) == prev + tasks.subrange(s0, e0));
        assert(joined(tasks, b, k) =~= tasks.subrange(0, e0));
    }
}

/// Batching `tasks` by at most `b` (`b > 0`) gives `ceil(len / b)` batches;
/// every batch but the last holds exactly `b` tasks, the last between one and
/// `b`; and the batches, joined in order, give back the task list.
pub proof fn lemma_batches_partition<T>(tasks: Seq<T>, b: nat)
    requires
        b > 0,
    ensures
        batch_count(tasks.len(), b) * b >= tasks.len(),
        batch_count(tasks.len(), b) > 0 ==> (batch_count(tasks.len(), b) - 1) * b < tasks.len(),
        forall|i: nat|
            i + 1 < batch_count(tasks.len(), b) ==> #[trigger] batch_end(tasks.len(), b, i) - batch_start(
                tasks.len(),
                b,
                i,
            ) == b,
        forall|i: nat|
            i < batch_count(tasks.len(), b) ==> 0 < #[trigger] batch_end(tasks.len(), b, i) - batch_start(
                tasks.len(),
                b,
                i,
            ) <= b,
        joined(tasks, b, batch_count(tasks.len(), b)) == tasks,
{
    let len = tasks.len();
    let c = batch_count(len, b);
    assert(c * b <= len + b - 1 && len + b - 1 < (c + 1) * b) by (nonlinear_arith)
        requires
            b > 0,
            c == (len + b - 1) as nat / b,
    ;
    assert(c * b >= len) by (nonlinear_arith)
        requires
            len + b - 1 < (c + 1) * b,
            b > 0,
    ;
    assert forall|i: nat| i < c implies 0 < #[trigger] batch_end(len, b, i) - batch_start(len, b, i)
        <= b && (i + 1 < c ==> batch_end(len, b, i) - batch_start(len, b, i) == b) by {
        lemma_batch_exists(len, b, i);
        lemma_batch_exists(len, b, i + 1);
        assert((i + 1) * b == i * b + b) by (nonlinear_arith);
    }
    if c > 0 {
        lemma_batch_exists(len, b, (c - 1) as nat);
        lemma_joined_prefix(tasks, b, c);
        assert(batch_end(len, b, (c - 1) as nat) == len);
        assert(tasks.subrange(0, len as int) =~= tasks);
    } else {
        assert(len == 0) by (nonlinear_arith)
            requires
                c * b >= len,
                c == 0,
        ;
        assert(tasks =~= Seq::<T>::empty());
    }
}

/// What became of one task.
#[derive(Clone, Copy, Debug, PartialEq, Eq)]
pub enum TaskOutcome {
    Confirmed,
    Failed(DtpError),
}

/// What the caller is to do next.
#[derive(Clone, Copy, Debug, PartialEq, Eq)]
pub enum DispatchStep {
    /// Run the tasks of this batch concurrently and report their outcomes.
    Run(Batch),
    /// Every batch has run.
    Finished,
}

/// Drives the batches in order and collects one outcome per task. A failed
/// task is recorded against its index and does not stop the others.
#[derive(Debug)]
pub struct Dispatcher {
    plan: Vec<Batch>,
    num_tasks: usize,
    max_batch_size: usize,
    next: usize,
    outcomes: Vec<TaskOutcome>,
}

impl Dispatcher {
    pub closed spec fn plan_view(&self) -> Seq<Batch> {
        self.plan@
    }

    pub closed spec fn num_tasks_view(&self) -> nat {
        self.num_tasks as nat
    }

    pub closed spec fn max_batch_size_view(&self) -> nat {
        self.max_batch_size as nat
    }

    /// How many batches have run.
    pub closed spec fn batches_done(&self) -> nat {
        self.next as nat
    }

    /// The outcomes so far, by task index.
    pub closed spec fn outcomes_view(&self) -> Seq<TaskOutcome> {
        self.outcomes@
    }

    /// Tasks that have an outcome: all those of the batches that ran.
    pub open spec fn tasks_done(&self) -> nat {
        if self.batches_done() == 0 {
            0
        } else {
            self.plan_view()[self.batches_done() - 1].end as nat
        }
    }

    pub open spec fn wf(&self) -> bool {
        &&& self.max_batch_size_view() > 0
        &&& is_plan(self.plan_view(), self.num_tasks_view(), self.max_batch_size_view())
        &&& self.batches_done() <= self.plan_view().len()
        &&& self.outcomes_view().len() == self.tasks_done()
    }

    /// A dispatcher for `num_tasks` tasks, none of them run yet.
    pub fn new(num_tasks: usize, max_batch_size: usize) -> (r: Result<Dispatcher, DtpError>)
        ensures
            max_batch_size == 0 ==> r == Err::<Dispatcher, DtpError>(
                DtpError::Configuration(ConfigIssue::ZeroBatchSize),
            ),
            max_batch_size > 0 ==> (r matches Ok(d) && d.wf() && d.num_tasks_view() == num_tasks
                && d.max_batch_size_view() == max_batch_size && d.batches_done() == 0
                && d.outcomes_view().len() == 0),
    {
        let plan = batch_plan(num_tasks, max_batch_size)?;
        Ok(Dispatcher { plan, num_tasks, max_batch_size, next: 0, outcomes: Vec::new() })
    }

    /// The next batch to run, or `Finished` once all have run.
    pub fn next_step(&self) -> (r: DispatchStep)
        requires
            self.wf(),
        ensures
            self.batches_done() < self.plan_view().len() ==> r == DispatchStep::Run(
                self.plan_view()[self.batches_done() as int],
            ),
            self.batches_done() == self.plan_view().len() ==> r == DispatchStep::Finished,
    {
        if self.next < self.plan.len() {
            DispatchStep::Run(self.plan[self.next])
        } else {
            DispatchStep::Finished
        }
    }

    /// Records the outcomes of the batch that `next_step` handed out, one per
    /// task in task order, and moves on to the following batch.
    pub fn record_batch(&mut self, results: &Vec<TaskOutcome>)
        requires
            old(self).wf(),
            old(self).batches_done() < old(self).plan_view().len(),
            results@.len() == old(self).plan_view()[old(self).batches_done() as int].end
                - old(self).plan_view()[old(self).batches_done() as int].start,
        ensures
            final(self).wf(),
            final(self).plan_view() == old(self).plan_view(),
            final(self).num_tasks_view() == old(self).num_tasks_view(),
            final(self).max_batch_size_view() == old(self).max_batch_size_view(),
            final(self).batches_done() == old(self).batches_done() + 1,
            final(self).outcomes_view() == old(self).outcomes_view() + results@,
    {
        proof {
            let n = self.num_tasks as nat;
            let b = self.max_batch_size as nat;
            let i = self.next as nat;
            if i > 0 {
                assert(batch_end(n, b, (i - 1) as nat) == batch_start(n, b, i)) by {
                    lemma_batch_exists(n, b, i);
                    assert(((i - 1) as nat + 1) * b == i * b);
                }
            } else {
                assert(batch_start(n, b, i) == 0) by (nonlinear_arith)
                    requires
                        i == 0,
                ;
            }
        }
        let ghost before = self.outcomes@;
        let mut k: usize = 0;
        while k < results.len()
            invariant
                k <= results@.len(),
                self.outcomes@ == before + results@.subrange(0, k as int),
                self.plan@ == old(self).plan@,
                self.next == old(self).next,
                self.next < self.plan@.len(),
                self.num_tasks == old(self).num_tasks,
                self.max_batch_size == old(self).max_batch_size,
            decreases results@.len() - k,
        {
            self.outcomes.push(results[k]);
            k += 1;
            assert(self.outcomes@ =~= before + results@.subrange(0, k as int));
        }
        assert(results@.subrange(0, k as int) =~= results@);
        let total = self.plan.len();
        assert(self.next < total);
        self.next = self.next + 1;
    }

    pub fn is_finished(&self) -> (r: bool)
        requires
            self.wf(),
        ensures
            r == (self.batches_done() == self.plan_view().len()),
    {
        self.next == self.plan.len()
    }

    /// The outcomes so far, by task index.
    pub fn outcomes(&self) -> (r: &Vec<TaskOutcome>)
        ensures
            r@ == self.outcomes_view(),
    {
        &self.outcomes
    }

    /// Indices of the tasks that failed, in increasing order.
    pub fn failed_tasks(&self) -> (r: Vec<usize>)
        ensures
            forall|a: int, c: int| 0 <= a < c < r@.len() ==> r@[a] < r@[c],
            forall|a: int|
                0 <= a < r@.len() ==> r@[a] < self.outcomes_view().len()
                    && self.outcomes_view()[r@[a] as int] is Failed,
            forall|t: int|
                0 <= t < self.outcomes_view().len() && self.outcomes_view()[t] is Failed
                    ==> r@.contains(t as usize),
    {
        let mut r: Vec<usize> = Vec::new();
        let mut t: usize = 0;
        while t < self.outcomes.len()
            invariant
                t <= self.outcomes@.len(),
                forall|a: int, c: int| 0 <= a < c < r@.len() ==> r@[a] < r@[c],
                forall|a: int| 0 <= a < r@.len() ==> r@[a] < t && self.outcomes@[r@[a] as int] is Failed,
                forall|u: int| 0 <= u < t && self.outcomes@[u] is Failed ==> r@.contains(u as usize),
            decreases self.outcomes@.len() - t,
        {
            if let TaskOutcome::Failed(_) = self.outcomes[t] {
                let ghost old_r = r@;
                r.push(t);
                assert forall|u: int|
                    0 <= u < t + 1 && self.outcomes@[u] is Failed implies r@.contains(u as usize) by {
                    if u < t {
                        let a = choose|a: int| 0 <= a < old_r.len() && old_r[a] == u as usize;
                        assert(r@[a] == u as usize);
                    } else {
                        assert(r@[r@.len() - 1] == t);
                    }
                }
            }
            t += 1;
        }
        r
    }
}

/// How far the shared counter moved between the readings taken before and
/// after a light workload, or `None` where it went down.
pub fn counter_advance(before: &Amount, after: &Amount) -> (r: Option<Amount>)
    ensures
        match r {
            Some(d) => d.value() == after.value() - before.value(),
            None => after.value() < before.value(),
        },
{
    after.checked_sub(before)
}

} // verus!
