//! The cooperative executor: tasks that are polled when they are woken.
//!
//! A task is a future in a slot. A worker that takes a task off the run
//! queue takes the future out of the slot, polls it once, and puts it back
//! if it is not complete. The task then rests until somebody wakes it, which
//! puts it on the run queue again. A slot found empty is skipped; that is
//! what keeps two workers from polling one future at the same time. A wake
//! that arrives while the future is out is not lost for that: the slot
//! remembers it, and the task goes back on the run queue when the future
//! goes back into the slot.

use vstd::prelude::*;
use crate::SpawnError;
use crate::channel::{queued, RunQueue};

verus! {

/// The number of a task: the place of its slot.
pub type TaskId = u64;

/// The slot of a task.
pub enum Slot<F> {
    /// The future rests in the slot, not complete.
    Parked(F),
    /// A worker has taken the future out to poll it.
    Polling,
    /// A worker has taken the future out to poll it, and the task has come
    /// off the run queue once more since.
    Notified,
    /// The future has completed and is gone.
    Finished,
}

/// What a worker does after one step of its loop.
pub enum TaskAction<F> {
    /// Poll the future once, with a waker that wakes `task`, then hand the
    /// outcome to [`IoThreadPool::finish_poll`].
    Poll { task: TaskId, future: F },
    /// The task was on the run queue but its slot was empty: leave it.
    Skip(TaskId),
    /// The run queue is empty: wait for a signal, then step again.
    Wait,
    /// Leave the loop: the worker is done.
    Exit,
}

/// How a poll ended.
pub enum Polled<F> {
    /// The future is not complete; here it is back.
    Pending(F),
    /// The future is complete.
    Ready,
}

/// What an executor holds, as mathematics.
#[verifier::ext_equal]
pub struct ExecutorState<F> {
    /// The slot of each task, by its number.
    pub slots: Seq<Slot<F>>,
    /// The tasks that wait to be polled, oldest first.
    pub run_queue: Seq<TaskId>,
    /// Whether the executor has been shut down.
    pub closed: bool,
    /// The number of workers.
    pub threads: nat,
}

impl<F> ExecutorState<F> {
    /// An executor of `threads` workers without tasks.
    pub open spec fn fresh(threads: nat) -> Self {
        ExecutorState { slots: Seq::empty(), run_queue: Seq::empty(), closed: false, threads }
    }

    /// Whether the executor has a task `task`.
    pub open spec fn knows(self, task: TaskId) -> bool {
        task < self.slots.len()
    }

    /// Whether a worker is polling the future of `task`.
    pub open spec fn polling(self, task: TaskId) -> bool {
        self.knows(task) && (self.slots[task as int] is Polling || self.slots[task as int]
            is Notified)
    }

    /// The executor after `future` has been submitted: it rests in a new
    /// slot, and its task waits to be polled.
    pub open spec fn spawn(self, future: F) -> Self {
        ExecutorState {
            slots: self.slots.push(Slot::Parked(future)),
            run_queue: self.run_queue.push(self.slots.len() as TaskId),
            ..self
        }
    }

    /// The executor after `task` has been woken: a task that the executor
    /// has is put on the run queue.
    pub open spec fn wake(self, task: TaskId) -> Self {
        if self.knows(task) {
            ExecutorState { run_queue: self.run_queue.push(task), ..self }
        } else {
            self
        }
    }

    /// The executor after it has been shut down.
    pub open spec fn close(self) -> Self {
        ExecutorState { closed: true, ..self }
    }

    /// What a worker does at its next step.
    pub open spec fn action(self) -> TaskAction<F> {
        if self.run_queue.len() == 0 {
            if self.closed {
                TaskAction::Exit
            } else {
                TaskAction::Wait
            }
        } else {
            let task = self.run_queue[0];
            if self.knows(task) {
                match self.slots[task as int] {
                    Slot::Parked(future) => TaskAction::Poll { task, future },
                    _ => TaskAction::Skip(task),
                }
            } else {
                TaskAction::Skip(task)
            }
        }
    }

    /// The slot of a task after the task has come off the run queue: a
    /// future that rests there is taken out, and a slot whose future is out
    /// remembers that the task was asked for.
    pub open spec fn visited(slot: Slot<F>) -> Slot<F> {
        match slot {
            Slot::Parked(_) => Slot::Polling,
            Slot::Polling => Slot::Notified,
            Slot::Notified => Slot::Notified,
            Slot::Finished => Slot::Finished,
        }
    }

    /// The executor after that step: the task has left the run queue, and
    /// its slot has been visited.
    pub open spec fn step(self) -> Self {
        if self.run_queue.len() == 0 {
            self
        } else {
            let task = self.run_queue[0];
            ExecutorState {
                run_queue: self.run_queue.drop_first(),
                slots: if self.knows(task) {
                    self.slots.update(task as int, Self::visited(self.slots[task as int]))
                } else {
                    self.slots
                },
                ..self
            }
        }
    }

    /// The executor after the poll of `task` has ended with `outcome`.
    ///
    /// A future that is not complete goes back into its slot. The task is
    /// put on the run queue only if it came off the run queue while its
    /// future was out, that is, if it was woken during the poll; otherwise
    /// it rests until its next wake. A future that is complete leaves its
    /// slot empty for good. An outcome for a task that is not being polled
    /// changes nothing.
    pub open spec fn finish_poll(self, task: TaskId, outcome: Polled<F>) -> Self {
        if self.polling(task) {
            ExecutorState {
                slots: self.slots.update(
                    task as int,
                    match outcome {
                        Polled::Pending(future) => Slot::Parked(future),
                        Polled::Ready => Slot::Finished,
                    },
                ),
                run_queue: if self.slots[task as int] is Notified && outcome is Pending {
                    self.run_queue.push(task)
                } else {
                    self.run_queue
                },
                ..self
            }
        } else {
            self
        }
    }

    /// The executor after `n` worker steps.
    pub open spec fn after(self, n: nat) -> Self
        decreases n,
    {
        if n == 0 {
            self
        } else {
            self.step().after((n - 1) as nat)
        }
    }
}

/// An executor for futures of type `F`.
pub struct IoThreadPool<F> {
    slots: Vec<Slot<F>>,
    run_queue: RunQueue,
    closed: bool,
    num_threads: usize,
}

impl<F> View for IoThreadPool<F> {
    type V = ExecutorState<F>;

    closed spec fn view(&self) -> ExecutorState<F> {
        ExecutorState {
            slots: self.slots@,
            run_queue: queued(self.run_queue),
            closed: self.closed,
            threads: self.num_threads as nat,
        }
    }
}

/// Visits `slot` for a task that has come off the run queue, and returns
/// what was in it.
fn visit_slot<F>(slot: &mut Slot<F>) -> (found: Slot<F>)
    ensures
        found == *old(slot),
        *final(slot) == ExecutorState::<F>::visited(*old(slot)),
{
    let mut found = Slot::Notified;
    core::mem::swap(slot, &mut found);
    match found {
        Slot::Parked(_) => {
            *slot = Slot::Polling;
        },
        Slot::Finished => {
            *slot = Slot::Finished;
        },
        _ => {},
    }
    found
}

impl<F> IoThreadPool<F> {
    /// Creates an executor for `num_threads` workers.
    pub fn new(num_threads: usize) -> (pool: Self)
        ensures
            pool@ == ExecutorState::<F>::fresh(num_threads as nat),
    {
        IoThreadPool { slots: Vec::new(), run_queue: RunQueue::new(), closed: false, num_threads }
    }

    /// Submits `future` as a new task and puts the task on the run queue.
    /// Returns the task's number. An executor that has been shut down
    /// refuses the future and stays as it is.
    pub fn spawn(&mut self, future: F) -> (r: Result<TaskId, SpawnError>)
        ensures
            old(self)@.closed ==> r == Err::<TaskId, SpawnError>(SpawnError::Closed) && final(
                self)@ == old(self)@,
            !old(self)@.closed ==> r == Ok::<TaskId, SpawnError>(old(self)@.slots.len() as TaskId)
                && final(self)@ == old(self)@.spawn(future),
    {
        if self.closed {
            return Err(SpawnError::Closed);
        }
        let task = self.slots.len() as u64;
        self.run_queue.send(task);
        self.slots.push(Slot::Parked(future));
        Ok(task)
    }

    /// Wakes `task`: puts it on the run queue, to be polled again. Waking a
    /// task twice puts it there twice. A task that the executor does not
    /// have is not put there; the result says whether the task is known.
    pub fn wake(&mut self, task: TaskId) -> (woken: bool)
        ensures
            woken == old(self)@.knows(task),
            final(self)@ == old(self)@.wake(task),
    {
        if task >= self.slots.len() as u64 {
            return false;
        }
        self.run_queue.send(task);
        true
    }

    /// One turn of a worker's loop. The worker takes the oldest task off the
    /// run queue and, if the task's future rests in its slot, takes the
    /// future out to poll it. A task whose slot is empty is skipped; if its
    /// future is out to be polled, the slot remembers the visit. With
    /// nothing on the run queue the worker waits, or leaves if the executor
    /// has been shut down.
    pub fn worker_step(&mut self) -> (action: TaskAction<F>)
        ensures
            action == old(self)@.action(),
            final(self)@ == old(self)@.step(),
    {
        match self.run_queue.try_recv() {
            None => {
                if self.closed {
                    TaskAction::Exit
                } else {
                    TaskAction::Wait
                }
            },
            Some(task) => {
                if task >= self.slots.len() as u64 {
                    return TaskAction::Skip(task);
                }
                let found = visit_slot(&mut self.slots[task as usize]);
                assert(self@ =~~= old(self)@.step());
                match found {
                    Slot::Parked(future) => TaskAction::Poll { task, future },
                    _ => TaskAction::Skip(task),
                }
            },
        }
    }

    /// Takes the outcome of the poll of `task`. A future that is not
    /// complete goes back into its slot; the task is put on the run queue
    /// again if it was woken while its future was out, and otherwise rests
    /// until its next [`Self::wake`]. A future that is complete leaves the
    /// slot empty for good. An outcome for a task that is not being polled
    /// changes nothing.
    pub fn finish_poll(&mut self, task: TaskId, outcome: Polled<F>)
        ensures
            final(self)@ == old(self)@.finish_poll(task, outcome),
    {
        if task >= self.slots.len() as u64 {
            return ;
        }
        let index = task as usize;
        let notified = match self.slots[index] {
            Slot::Polling => false,
            Slot::Notified => true,
            _ => {
                return ;
            },
        };
        match outcome {
            Polled::Pending(future) => {
                self.slots.set(index, Slot::Parked(future));
                if notified {
                    self.run_queue.send(task);
                }
            },
            Polled::Ready => {
                self.slots.set(index, Slot::Finished);
            },
        }
        assert(self@ =~~= old(self)@.finish_poll(task, outcome));
    }

    /// Shuts the executor down: nothing more is accepted, and a worker that
    /// finds the run queue empty leaves. Tasks that rest in their slots are
    /// abandoned.
    pub fn shutdown(&mut self)
        ensures
            final(self)@ == old(self)@.close(),
    {
        self.closed = true;
    }

    /// The number of workers.
    pub fn threads(&self) -> (n: usize)
        ensures
            n == self@.threads,
    {
        self.num_threads
    }

    /// The number of tasks submitted so far.
    pub fn tasks(&self) -> (n: usize)
        ensures
            n == self@.slots.len(),
    {
        self.slots.len()
    }

    /// Whether `task` has completed.
    pub fn is_finished(&self, task: TaskId) -> (b: bool)
        ensures
            b == (self@.knows(task) && self@.slots[task as int] is Finished),
    {
        if task >= self.slots.len() as u64 {
            return false;
        }
        match self.slots[task as usize] {
            Slot::Finished => true,
            _ => false,
        }
    }
}

impl<F> ExecutorState<F> {
    /// The executor after `futures` have been submitted, one after another.
    pub open spec fn spawn_all(self, futures: Seq<F>) -> Self
        decreases futures.len(),
    {
        if futures.len() == 0 {
            self
        } else {
            self.spawn_all(futures.drop_last()).spawn(futures.last())
        }
    }

    /// The executor after `n` worker steps in which every future that is
    /// polled completes at once.
    pub open spec fn run_ready(self, n: nat) -> Self
        decreases n,
    {
        if n == 0 {
            self
        } else {
            let polled = match self.action() {
                TaskAction::Poll { task, future } => self.step().finish_poll(task, Polled::Ready),
                _ => self.step(),
            };
            polled.run_ready((n - 1) as nat)
        }
    }

    /// An executor in which the first `done` of the tasks made from
    /// `futures` have completed and the others wait to be polled for the
    /// first time, in their order.
    pub open spec fn staged(threads: nat, futures: Seq<F>, done: nat) -> Self {
        ExecutorState {
            slots: Seq::new(
                futures.len(),
                |i: int|
                    if i < done {
                        Slot::Finished
                    } else {
                        Slot::Parked(futures[i])
                    },
            ),
            run_queue: Seq::new((futures.len() - done) as nat, |i: int| (done + i) as TaskId),
            closed: false,
            threads,
        }
    }

    /// Not re-queued: a future that is found not complete goes back into
    /// its slot, and unless the task was woken during the poll the run queue
    /// stays as it is.
    pub proof fn lemma_pending_task_rests(self, task: TaskId, future: F)
        requires
            self.knows(task),
            self.slots[task as int] is Polling,
        ensures
            self.finish_poll(task, Polled::Pending(future)).slots[task as int] == Slot::Parked(
                future,
            ),
            self.finish_poll(task, Polled::Pending(future)).run_queue == self.run_queue,
    {
    }

    /// Never woken, never polled: while nothing is put on the run queue,
    /// no step hands out a future, and the executor stays as it is however
    /// many steps are taken.
    pub proof fn lemma_never_woken_never_polled(self, n: nat)
        requires
            self.run_queue.len() == 0,
        ensures
            self.action() == (if self.closed {
                TaskAction::<F>::Exit
            } else {
                TaskAction::<F>::Wait
            }),
            self.after(n) == self,
        decreases n,
    {
        if n > 0 {
            self.lemma_never_woken_never_polled((n - 1) as nat);
        }
    }

    /// Woken once, polled once: one wake of a resting task leads to exactly
    /// one poll of its future. The step that follows the wake hands the
    /// future out and leaves the slot empty and the run queue as it was
    /// before the wake.
    pub proof fn lemma_woken_once_polled_once(self, task: TaskId, future: F)
        requires
            self.knows(task),
            self.slots[task as int] == Slot::Parked(future),
            self.run_queue.len() == 0,
        ensures
            self.wake(task).action() == (TaskAction::Poll { task, future }),
            self.wake(task).step().slots == self.slots.update(task as int, Slot::Polling),
            self.wake(task).step().run_queue == self.run_queue,
    {
        assert(self.wake(task).step().run_queue =~= self.run_queue);
    }

    /// Never polled concurrently: a task that comes off the run queue while
    /// its slot is empty, because a worker is polling its future or because
    /// the future has completed, is skipped. No future is handed out, and
    /// a task that is being polled is still being polled afterwards.
    pub proof fn lemma_empty_slot_is_skipped(self)
        requires
            self.run_queue.len() > 0,
            self.knows(self.run_queue[0]),
            !(self.slots[self.run_queue[0] as int] is Parked),
        ensures
            self.action() == TaskAction::<F>::Skip(self.run_queue[0]),
            forall|task: TaskId| self.polling(task) ==> self.step().polling(task),
            forall|task: TaskId|
                self.knows(task) && task != self.run_queue[0] ==> self.step().slots[task as int]
                    == self.slots[task as int],
    {
    }

    /// No wake is lost: a task that is woken while a worker polls its future
    /// is skipped by the worker that takes it off the run queue, and is back
    /// on the run queue, its future in the slot, as soon as the poll has
    /// ended without completing.
    pub proof fn lemma_wake_during_poll_is_kept(self, task: TaskId, future: F)
        requires
            self.knows(task),
            self.slots[task as int] is Polling,
            self.run_queue.len() == 0,
        ensures
            ({
                let woken = self.wake(task);
                let skipped = woken.step();
                let parked = skipped.finish_poll(task, Polled::Pending(future));
                &&& woken.action() == TaskAction::<F>::Skip(task)
                &&& skipped.polling(task)
                &&& parked.slots[task as int] == Slot::Parked(future)
                &&& parked.run_queue == seq![task]
                &&& parked.action() == (TaskAction::Poll { task, future })
            }),
    {
        let woken = self.wake(task);
        let skipped = woken.step();
        let parked = skipped.finish_poll(task, Polled::Pending(future));
        assert(woken.run_queue =~= seq![task]);
        assert(skipped.run_queue =~= Seq::empty());
        assert(parked.run_queue =~= seq![task]);
    }

    /// Completes once: a task that has completed stays so, whatever is
    /// submitted, woken, stepped or finished afterwards.
    pub proof fn lemma_finished_stays_finished(
        self,
        task: TaskId,
        future: F,
        other: TaskId,
        outcome: Polled<F>,
    )
        requires
            self.knows(task),
            self.slots[task as int] is Finished,
        ensures
            self.spawn(future).slots[task as int] is Finished,
            self.wake(other).slots[task as int] is Finished,
            self.step().slots[task as int] is Finished,
            self.finish_poll(other, outcome).slots[task as int] is Finished,
    {
    }

    /// Futures submitted to a new executor become the tasks numbered from
    /// zero, each resting in its slot and waiting on the run queue in the
    /// order of submission.
    pub proof fn lemma_spawn_all(threads: nat, futures: Seq<F>)
        requires
            futures.len() <= u64::MAX,
        ensures
            Self::fresh(threads).spawn_all(futures) == Self::staged(threads, futures, 0),
        decreases futures.len(),
    {
        if futures.len() > 0 {
            Self::lemma_spawn_all(threads, futures.drop_last());
        }
        assert(Self::fresh(threads).spawn_all(futures) =~~= Self::staged(threads, futures, 0));
    }

    /// One step on tasks that wait for their first poll polls the oldest of
    /// them, and that one completes.
    proof fn lemma_staged_step(threads: nat, futures: Seq<F>, done: nat)
        requires
            done < futures.len() <= u64::MAX,
        ensures
            Self::staged(threads, futures, done).run_ready(1) == Self::staged(
                threads,
                futures,
                done + 1,
            ),
            Self::staged(threads, futures, done).action() == (TaskAction::Poll {
                task: done as TaskId,
                future: futures[done as int],
            }),
    {
        let s = Self::staged(threads, futures, done);
        assert(s.run_queue[0] == done as TaskId);
        let polled = s.step().finish_poll(done as TaskId, Polled::Ready);
        assert(polled =~~= Self::staged(threads, futures, done + 1));
        assert(polled.run_ready(0) == polled);
    }

    /// Tasks that wait for their first poll are polled in their order, and
    /// if each completes at once all have completed after one step each.
    proof fn lemma_run_ready(threads: nat, futures: Seq<F>, done: nat)
        requires
            done <= futures.len() <= u64::MAX,
        ensures
            Self::staged(threads, futures, done).run_ready((futures.len() - done) as nat)
                == Self::staged(threads, futures, futures.len()),
        decreases futures.len() - done,
    {
        if done < futures.len() {
            Self::lemma_staged_step(threads, futures, done);
            Self::lemma_run_ready(threads, futures, done + 1);
            let s = Self::staged(threads, futures, done);
            let next = Self::staged(threads, futures, done + 1);
            assert(s.run_ready(1) == next);
            reveal_with_fuel(ExecutorState::run_ready, 2);
            assert(s.run_ready((futures.len() - done) as nat) == next.run_ready(
                (futures.len() - done - 1) as nat,
            ));
        }
    }

    /// Completion: whatever the number of workers, the futures submitted to
    /// a new executor are polled in the order of submission, and if each
    /// completes at its first poll then after as many worker steps as there
    /// are futures every task has completed and the run queue is empty.
    pub proof fn lemma_completion_count(threads: nat, futures: Seq<F>)
        requires
            futures.len() <= u64::MAX,
        ensures
            ({
                let end = Self::fresh(threads).spawn_all(futures).run_ready(futures.len());
                &&& end.slots.len() == futures.len()
                &&& forall|task: int| 0 <= task < futures.len() ==> (#[trigger] end.slots[task]) is Finished
                &&& end.run_queue.len() == 0
            }),
    {
        Self::lemma_spawn_all(threads, futures);
        Self::lemma_run_ready(threads, futures, 0);
    }
}

} // verus!
