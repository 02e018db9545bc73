//! State of a task, and cooperative yield.

use core::future::Future;
use core::pin::Pin;
use core::task::{Context, Poll, Waker};
use std::sync::atomic::{AtomicUsize, Ordering};
use std::sync::Arc;
use std::task::Wake;

use nanorun::task::raw::{Core, JoinPoll, Stage};
use nanorun::task::yield_now;

struct Count(AtomicUsize);

impl Wake for Count {
    fn wake(self: Arc<Self>) {
        self.0.fetch_add(1, Ordering::SeqCst);
    }
}

#[test]
fn pending_then_ready() {
    let mut fut = Box::pin(yield_now());
    let count = Arc::new(Count(AtomicUsize::new(0)));
    let waker = Waker::from(Arc::clone(&count));
    let mut cx = Context::from_waker(&waker);
    assert!(matches!(fut.as_mut().poll(&mut cx), Poll::Pending));
    assert!(matches!(fut.as_mut().poll(&mut cx), Poll::Ready(())));
    assert_eq!(count.0.load(Ordering::SeqCst), 1);
}

#[test]
fn yield_steps_once() {
    let mut yielding = yield_now();
    assert_eq!(yielding.step('a'), (Poll::Pending, Some('a')));
    assert_eq!(yielding.step('b'), (Poll::Ready(()), None));
    assert_eq!(yielding.step('c'), (Poll::Ready(()), None));
    let boxed: Pin<Box<dyn Future<Output = ()>>> = Box::pin(yield_now());
    drop(boxed);
}

type Task = Core<&'static str, u32, char>;

#[test]
fn task_is_born_queued() {
    let mut task: Task = Core::new("future");
    assert!(!task.wake(), "a wake of a queued task pushes nothing");
    assert_eq!(task.start(), Some("future"));
    assert_eq!(task.start(), None, "a running task is not started again");
    assert!(task.state.running && !task.state.notified);
}

#[test]
fn wake_while_running_reschedules() {
    let mut task: Task = Core::new("future");
    task.start();
    assert!(!task.wake());
    assert!(task.suspend("future"), "the wake is answered");
    assert_eq!(task.start(), Some("future"));
    assert!(!task.suspend("future"), "no wake, no push");
    assert_eq!(task.start(), None);
    assert!(task.wake());
    assert!(!task.wake(), "wakes coalesce");
}

#[test]
fn completion_wakes_the_join_handle() {
    let mut task: Task = Core::new("future");
    task.start();
    assert!(matches!(task.poll_join('a'), JoinPoll::Parked(None)));
    assert!(matches!(task.poll_join('b'), JoinPoll::Parked(Some('a'))));
    assert_eq!(task.finish(9), (Some('b'), None));
    assert!(!task.wake(), "a complete task is not woken");
    assert!(matches!(task.poll_join('c'), JoinPoll::Ready(9)));
    assert!(matches!(task.poll_join('d'), JoinPoll::Taken));
    assert!(matches!(task.stage, Stage::Consumed));
}

#[test]
fn output_is_taken_once() {
    let mut task: Task = Core::new("future");
    assert_eq!(task.try_take_output(), None);
    task.start();
    task.finish(3);
    assert_eq!(task.try_take_output(), Some(3));
    assert_eq!(task.try_take_output(), None);
}

#[test]
fn detached_task_drops_its_output() {
    let mut before: Task = Core::new("future");
    before.start();
    before.poll_join('w');
    assert_eq!(before.drop_join_interest(), (None, Some('w')));
    assert_eq!(before.finish(4), (None, Some(4)));
    assert!(matches!(before.stage, Stage::Consumed));

    let mut after: Task = Core::new("future");
    after.start();
    after.finish(5);
    assert_eq!(after.drop_join_interest(), (Some(5), None));
    assert!(matches!(after.stage, Stage::Consumed));
}

#[test]
fn poll_is_settled_by_what_it_came_to() {
    let mut task: Task = Core::new("future");
    task.start();
    task.wake();
    let woken = task.settle(Err("rest"));
    assert!(woken.again && woken.join_waker.is_none());
    assert_eq!(task.start(), Some("rest"));
    assert!(!task.settle(Err("rest")).again);

    let stray = task.settle(Err("stray"));
    assert_eq!((stray.again, stray.future), (false, Some("stray")), "no poll is going on");
    assert_eq!(task.settle(Ok(1)).output, Some(1));

    task.wake();
    task.start();
    task.poll_join('w');
    let done = task.settle(Ok(8));
    assert_eq!((done.again, done.join_waker, done.output), (false, Some('w'), None));
    assert!(matches!(task.poll_join('x'), JoinPoll::Ready(8)));
}

#[test]
fn handle_that_is_gone_gets_nothing() {
    let mut task: Task = Core::new("future");
    task.drop_join_interest();
    assert!(matches!(task.poll_join('a'), JoinPoll::Taken));
    task.start();
    assert_eq!(task.settle(Ok(2)).output, Some(2));
}
