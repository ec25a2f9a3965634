//! Hand-written futures as state machines: each `poll` either finishes with
//! a value or changes the state and asks to be polled again. An executor
//! loop polls until the value comes.
use vstd::prelude::*;
use vstd::string::*;
use crate::text::{decimal, push_decimal};

verus! {

/// The outcome of one poll.
#[derive(Debug, Clone, Copy, PartialEq, Eq, Structural)]
pub enum Progress<T> {
    Ready(T),
    Pending,
}

/// Counts up to one: pending while below one, then ready with its value.
#[derive(Debug)]
pub struct ValueFuture {
    pub value: i32,
}

impl ValueFuture {
    pub fn poll(&mut self) -> (r: Progress<i32>)
        requires
            old(self).value < i32::MAX,
        ensures
            old(self).value == 1 ==> r == Progress::Ready(1i32) && final(self).value == 1,
            old(self).value != 1 ==> r == Progress::<i32>::Pending && final(self).value
                == old(self).value + 1,
    {
        if self.value == 1 {
            Progress::Ready(self.value)
        } else {
            self.value = self.value + 1;
            Progress::Pending
        }
    }
}

/// Polls a `ValueFuture` that starts at or below one until it is ready;
/// answers its value and how many polls were pending.
pub fn run_value_future(f: &mut ValueFuture) -> (r: (i32, u64))
    requires
        old(f).value <= 1,
    ensures
        r.0 == 1,
        r.1 == 1 - old(f).value,
        final(f).value == 1,
{
    let mut pending: u64 = 0;
    loop
        invariant
            f.value <= 1,
            pending == f.value - old(f).value,
        decreases 1 - f.value,
    {
        match f.poll() {
            Progress::Ready(v) => {
                return (v, pending);
            },
            Progress::Pending => {
                pending = pending + 1;
            },
        }
    }
}

/// Ready at once with its value.
#[derive(Debug)]
pub struct ReadyFuture {
    pub value: i32,
}

impl ReadyFuture {
    pub fn poll(&mut self) -> (r: Progress<i32>)
        ensures
            r == Progress::Ready(old(self).value),
            final(self).value == old(self).value,
    {
        Progress::Ready(self.value)
    }
}

/// The future of `val * 2`, ready on its first poll.
pub fn create_boxed_future(val: i32) -> (f: ReadyFuture)
    requires
        i32::MIN <= 2 * val <= i32::MAX,
    ensures
        f.value == 2 * val,
{
    ReadyFuture { value: val * 2 }
}

/// Counts down to zero, pending once per step, then ready with a message.
#[derive(Debug)]
pub struct CountdownFuture {
    count: u32,
}

/// The message a countdown finishes with.
pub open spec fn countdown_done() -> Seq<char> {
    "¡Completado!"@
}

impl CountdownFuture {
    /// Steps left before it is ready.
    pub closed spec fn remaining(&self) -> nat {
        self.count as nat
    }

    pub fn new(start: u32) -> (f: Self)
        ensures
            f.remaining() == start,
    {
        CountdownFuture { count: start }
    }

    pub fn poll(&mut self) -> (r: Progress<&'static str>)
        ensures
            old(self).remaining() == 0 ==> final(self).remaining() == 0 && (r matches Progress::Ready(
                m,
            ) && m@ == countdown_done()),
            old(self).remaining() > 0 ==> r is Pending && final(self).remaining()
                == old(self).remaining() - 1,
    {
        if self.count == 0 {
            Progress::Ready("¡Completado!")
        } else {
            self.count = self.count - 1;
            Progress::Pending
        }
    }
}

/// Polls a countdown until it is ready; answers its message and how many
/// polls were pending.
pub fn run_countdown(f: &mut CountdownFuture) -> (r: (&'static str, u64))
    ensures
        r.0@ == countdown_done(),
        r.1 == old(f).remaining(),
        final(f).remaining() == 0,
{
    let mut pending: u64 = 0;
    loop
        invariant
            pending + f.remaining() == old(f).remaining(),
            old(f).remaining() <= u32::MAX,
        decreases f.remaining(),
    {
        match f.poll() {
            Progress::Ready(m) => {
                return (m, pending);
            },
            Progress::Pending => {
                pending = pending + 1;
            },
        }
    }
}

/// `Task-<id>: done`.
pub open spec fn task_report(id: u32) -> Seq<char> {
    "Task-"@ + decimal(id as nat) + ": done"@
}

/// The report of the task with `id`.
pub fn process_data(id: u32) -> (r: String)
    ensures
        r@ == task_report(id),
{
    let mut r = String::from_str("Task-");
    push_decimal(&mut r, id as u64);
    r.append(": done");
    r
}

/// Tasks waiting to run, in the order they were scheduled.
pub struct Scheduler {
    tasks: Vec<u32>,
}

impl Scheduler {
    /// The ids of the scheduled tasks, in order.
    pub closed spec fn scheduled(&self) -> Seq<u32> {
        self.tasks@
    }

    pub fn new() -> (s: Self)
        ensures
            s.scheduled() == Seq::<u32>::empty(),
    {
        Scheduler { tasks: Vec::new() }
    }

    /// Schedules the task with `id` after the ones already waiting.
    pub fn schedule(&mut self, id: u32)
        ensures
            final(self).scheduled() == old(self).scheduled().push(id),
    {
        self.tasks.push(id);
    }

    pub fn task_count(&self) -> (r: usize)
        ensures
            r == self.scheduled().len(),
    {
        self.tasks.len()
    }

    /// Runs every scheduled task in order and collects the reports.
    pub fn run_all(&self) -> (r: Vec<String>)
        ensures
            r@.len() == self.scheduled().len(),
            forall|i: int|
                0 <= i < r@.len() ==> #[trigger] r@[i]@ == task_report(self.scheduled()[i]),
    {
        let mut out: Vec<String> = Vec::new();
        let mut i: usize = 0;
        while i < self.tasks.len()
            invariant
                i <= self.tasks@.len(),
                out@.len() == i,
                forall|j: int| 0 <= j < i ==> #[trigger] out@[j]@ == task_report(self.tasks@[j]),
            decreases self.tasks@.len() - i,
        {
            out.push(process_data(self.tasks[i]));
            i = i + 1;
        }
        out
    }
}

} // verus!
