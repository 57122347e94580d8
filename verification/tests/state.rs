use std::cell::Cell;
use std::future::Future;
use std::pin::Pin;
use std::rc::Rc;
use std::sync::atomic::{AtomicUsize, Ordering};
use std::sync::{Arc, Mutex};
use std::task::{Context, Poll, Wake, Waker};

use async_task::Runnable;
use bevy_tasks::runnable::PriorityRunnable;
use bevy_tasks::state::{
    yields_lock_after, Search, Snapshot, State, SPAWNS_PER_LOCK, TICKS_PER_YIELD,
};
use bevy_tasks::ticker::Ticker;

struct Gong(AtomicUsize);

impl Wake for Gong {
    fn wake(self: Arc<Self>) {
        self.0.fetch_add(1, Ordering::SeqCst);
    }
}

fn gong() -> (Arc<Gong>, Waker) {
    let gong = Arc::new(Gong(AtomicUsize::new(0)));
    let waker = Waker::from(gong.clone());
    (gong, waker)
}

fn strikes(gong: &Arc<Gong>) -> usize {
    gong.0.load(Ordering::SeqCst)
}

type Inbox = Arc<Mutex<Vec<Runnable>>>;

fn inbox() -> Inbox {
    Arc::new(Mutex::new(Vec::new()))
}

fn logging_task(label: usize, log: &Arc<Mutex<Vec<usize>>>, inbox: &Inbox) -> Runnable {
    let log = log.clone();
    let inbox = inbox.clone();
    let (runnable, task) = async_task::spawn(
        async move {
            log.lock().unwrap().push(label);
        },
        move |r| inbox.lock().unwrap().push(r),
    );
    task.detach();
    runnable
}

struct Never(Arc<AtomicUsize>);

impl Future for Never {
    type Output = ();

    fn poll(self: Pin<&mut Self>, _cx: &mut Context<'_>) -> Poll<()> {
        self.0.fetch_add(1, Ordering::SeqCst);
        Poll::Pending
    }
}

fn consistent(state: &State) -> bool {
    state.notified == state.sleepers.is_notified()
}

#[test]
fn new_state_is_idle() {
    let mut state = State::new();
    assert!(state.is_empty());
    assert!(state.notified);
    assert_eq!(state.snapshot(), Snapshot { active: 0, tasks: 0, sleepers: 0 });
    assert!(state.try_tick().is_none());
    assert!(state.notify().is_none());
    assert_eq!(TICKS_PER_YIELD, 200);
}

#[test]
fn three_spawns_tick_by_priority() {
    let mut state = State::new();
    let log = Arc::new(Mutex::new(Vec::new()));
    let inbox = inbox();
    let priorities = [5isize, 1, 5];
    for (label, p) in priorities.iter().enumerate() {
        let (slot, wake) = state.spawn(*p, logging_task(label, &log, &inbox));
        assert_eq!(slot, label);
        assert!(wake.is_none());
    }
    assert_eq!(state.snapshot(), Snapshot { active: 3, tasks: 3, sleepers: 0 });
    let mut seen = Vec::new();
    for _ in 0..3 {
        let tick = state.try_tick().expect("a task is queued");
        assert!(tick.wake.is_none());
        seen.push(tick.task.priority());
        tick.task.into_runnable().run();
    }
    assert_eq!(seen, vec![5, 5, 1]);
    assert!(state.try_tick().is_none());
    let order = log.lock().unwrap().clone();
    assert_eq!(order.len(), 3);
    assert_eq!(order[2], 1);
    assert!(order[..2].contains(&0) && order[..2].contains(&2));
    assert!(inbox.lock().unwrap().is_empty());
}

#[test]
fn spawned_task_is_polled_once_without_a_wakeup() {
    let mut state = State::new();
    let polls = Arc::new(AtomicUsize::new(0));
    let inbox = inbox();
    let sink = inbox.clone();
    let (runnable, task) = async_task::spawn(Never(polls.clone()), move |r| sink.lock().unwrap().push(r));
    let (slot, _) = state.spawn(0, runnable);
    assert!(!state.is_empty());
    let tick = state.try_tick().expect("the spawned task is queued");
    assert!(!tick.task.into_runnable().run());
    assert_eq!(polls.load(Ordering::SeqCst), 1);
    assert!(state.try_tick().is_none());
    assert!(inbox.lock().unwrap().is_empty());
    assert!(state.complete(slot).is_some());
    assert!(state.complete(slot).is_none());
    assert!(state.is_empty());
    drop(task);
}

#[test]
fn local_task_completes_on_one_tick() {
    let mut state = State::new();
    let done = Rc::new(Cell::new(false));
    let flag = done.clone();
    let inbox = inbox();
    let sink = inbox.clone();
    let (runnable, task) = async_task::spawn_local(
        async move {
            flag.set(true);
            7
        },
        move |r| sink.lock().unwrap().push(r),
    );
    state.spawn(3, runnable);
    let tick = state.try_tick().expect("the spawned task is queued");
    tick.task.into_runnable().run();
    assert!(done.get());
    assert!(task.is_finished());
    assert!(state.try_tick().is_none());
}

#[test]
fn registered_waker_reschedules_the_task() {
    let mut state = State::new();
    let polls = Arc::new(AtomicUsize::new(0));
    let inbox = inbox();
    let sink = inbox.clone();
    let (runnable, task) = async_task::spawn(Never(polls.clone()), move |r| sink.lock().unwrap().push(r));
    let (slot, _) = state.spawn(0, runnable);
    state.try_tick().expect("queued").task.into_runnable().run();
    let waker = state.complete(slot).expect("the task is registered");
    waker.wake();
    let again = inbox.lock().unwrap().pop().expect("waking schedules the task");
    assert!(state.schedule(PriorityRunnable::new(0, again)).is_none());
    state.try_tick().expect("queued again").task.into_runnable().run();
    assert_eq!(polls.load(Ordering::SeqCst), 2);
    drop(task);
}

#[test]
fn one_notification_wakes_one_of_many() {
    let mut state = State::new();
    let mut tickers = Vec::new();
    let mut gongs = Vec::new();
    for _ in 0..4 {
        let mut ticker = Ticker::new();
        let (g, w) = gong();
        assert!(matches!(state.search(&mut ticker, w), Search::Retry));
        let (g2, w2) = gong();
        assert!(matches!(state.search(&mut ticker, w2), Search::Parked));
        drop(g);
        gongs.push(g2);
        tickers.push(ticker);
    }
    assert!(!state.notified);
    assert_eq!(state.snapshot().sleepers, 4);
    let log = Arc::new(Mutex::new(Vec::new()));
    let inbox = inbox();
    let (_, wake) = state.spawn(0, logging_task(0, &log, &inbox));
    wake.expect("a ticker is owed a wakeup").wake();
    let total: usize = gongs.iter().map(strikes).sum();
    assert_eq!(total, 1);
    assert_eq!(strikes(&gongs[3]), 1);
    assert!(state.notified && consistent(&state));
    let (_, wake) = state.spawn(0, logging_task(1, &log, &inbox));
    assert!(wake.is_none());
    let total: usize = gongs.iter().map(strikes).sum();
    assert_eq!(total, 1);
}

#[test]
fn woken_ticker_finds_the_task_and_passes_the_word() {
    let mut state = State::new();
    let mut a = Ticker::new();
    let mut b = Ticker::new();
    let (ga, wa) = gong();
    let (gb, wb) = gong();
    state.search(&mut a, wa);
    state.search(&mut b, wb);
    let log = Arc::new(Mutex::new(Vec::new()));
    let inbox = inbox();
    let (_, wake) = state.spawn(2, logging_task(0, &log, &inbox));
    wake.expect("b is notified").wake();
    assert_eq!((strikes(&ga), strikes(&gb)), (0, 1));
    state.spawn(9, logging_task(1, &log, &inbox));
    match state.search(&mut b, gong().1) {
        Search::Found(tick) => {
            assert_eq!(tick.task.priority(), 9);
            tick.wake.expect("a is notified in turn").wake();
            tick.task.into_runnable().run();
        }
        _ => panic!("a task was queued"),
    }
    assert!(!b.is_sleeping());
    assert_eq!((strikes(&ga), strikes(&gb)), (1, 1));
    assert!(consistent(&state));
    match state.search(&mut a, gong().1) {
        Search::Found(tick) => {
            assert_eq!(tick.task.priority(), 2);
            assert!(tick.wake.is_none());
            tick.task.into_runnable().run();
        }
        _ => panic!("a task was queued"),
    }
    assert_eq!(state.snapshot(), Snapshot { active: 2, tasks: 0, sleepers: 0 });
    assert_eq!(*log.lock().unwrap(), vec![1, 0]);
}

#[test]
fn released_ticker_passes_its_notification_on() {
    let mut state = State::new();
    let mut a = Ticker::new();
    let mut b = Ticker::new();
    let (ga, wa) = gong();
    let (gb, wb) = gong();
    state.search(&mut a, wa);
    state.search(&mut b, wb);
    state.notify().expect("b is notified").wake();
    assert_eq!((strikes(&ga), strikes(&gb)), (0, 1));
    let passed = state.release(&mut b);
    passed.expect("the notification goes to a").wake();
    assert_eq!((strikes(&ga), strikes(&gb)), (1, 1));
    assert!(!b.is_sleeping());
    assert!(state.notified && consistent(&state));
    assert!(state.release(&mut b).is_none());
    assert!(state.release(&mut a).is_none());
    assert_eq!(state.snapshot().sleepers, 0);
    assert!(state.notified);
}

#[test]
fn released_unnotified_ticker_owes_nothing() {
    let mut state = State::new();
    let mut a = Ticker::new();
    let mut b = Ticker::new();
    let (ga, wa) = gong();
    state.search(&mut a, wa);
    state.search(&mut b, gong().1);
    assert!(state.release(&mut b).is_none());
    assert!(!state.notified && consistent(&state));
    state.notify().expect("a is still owed a wakeup").wake();
    assert_eq!(strikes(&ga), 1);
}

#[test]
fn teardown_hands_out_every_waker_and_empties_the_queue() {
    let mut state = State::new();
    let inbox = inbox();
    let polls = Arc::new(AtomicUsize::new(0));
    let mut tasks = Vec::new();
    for p in 0..3isize {
        let sink = inbox.clone();
        let (runnable, task) =
            async_task::spawn(Never(polls.clone()), move |r| sink.lock().unwrap().push(r));
        state.spawn(p, runnable);
        tasks.push(task);
    }
    state.try_tick().expect("queued").task.into_runnable().run();
    assert_eq!(polls.load(Ordering::SeqCst), 1);
    assert_eq!(state.snapshot(), Snapshot { active: 3, tasks: 2, sleepers: 0 });
    let wakers = state.retire();
    assert_eq!(wakers.len(), 3);
    assert!(state.is_empty());
    assert_eq!(state.snapshot(), Snapshot { active: 0, tasks: 2, sleepers: 0 });
    for waker in wakers {
        waker.wake();
    }
    let woken: Vec<Runnable> = inbox.lock().unwrap().drain(..).collect();
    assert_eq!(woken.len(), 1);
    for runnable in woken {
        state.schedule(PriorityRunnable::new(2, runnable));
    }
    assert_eq!(state.snapshot().tasks, 3);
    let mut dropped: Vec<isize> = state.discard().iter().map(|t| t.priority()).collect();
    dropped.sort();
    assert_eq!(dropped, vec![0, 1, 2]);
    assert_eq!(state.snapshot(), Snapshot { active: 0, tasks: 0, sleepers: 0 });
    assert!(state.try_tick().is_none());
    assert_eq!(polls.load(Ordering::SeqCst), 1);
    drop(tasks);
}

#[test]
fn random_steps_never_lose_a_wakeup() {
    let mut state = State::new();
    let log = Arc::new(Mutex::new(Vec::new()));
    let inbox = inbox();
    let mut tickers: Vec<Ticker> = (0..5).map(|_| Ticker::new()).collect();
    let mut seed: u64 = 0x9e37_79b9_7f4a_7c15;
    let mut spawned = 0usize;
    let mut ran = 0usize;
    for _ in 0..4000 {
        seed = seed.wrapping_mul(6364136223846793005).wrapping_add(1442695040888963407);
        let pick = ((seed >> 33) % 5) as usize;
        let action = (seed >> 40) % 4;
        match action {
            0 => {
                let p = ((seed >> 45) % 7) as isize - 3;
                state.spawn(p, logging_task(spawned, &log, &inbox));
                spawned += 1;
            }
            1 | 2 => match state.search(&mut tickers[pick], gong().1) {
                Search::Found(tick) => {
                    assert!(!tickers[pick].is_sleeping());
                    tick.task.into_runnable().run();
                    ran += 1;
                }
                Search::Retry | Search::Parked => {
                    assert!(tickers[pick].is_sleeping());
                    assert_eq!(state.snapshot().tasks, 0);
                }
            },
            _ => {
                state.release(&mut tickers[pick]);
                assert!(!tickers[pick].is_sleeping());
            }
        }
        assert!(consistent(&state));
        let sleeping = tickers.iter().filter(|t| t.is_sleeping()).count();
        assert_eq!(state.snapshot().sleepers, sleeping);
        if state.snapshot().tasks > 0 && sleeping > 0 {
            assert!(state.notified);
        }
    }
    while let Some(tick) = state.try_tick() {
        tick.task.into_runnable().run();
        ran += 1;
    }
    assert_eq!(ran, spawned);
    assert_eq!(log.lock().unwrap().len(), spawned);
}

#[test]
fn panicking_task_does_not_stop_the_others() {
    let mut state = State::new();
    let log = Arc::new(Mutex::new(Vec::new()));
    let inbox = inbox();
    state.spawn(1, logging_task(0, &log, &inbox));
    let sink = inbox.clone();
    let (runnable, task) = async_task::Builder::new().propagate_panic(true).spawn(
        |()| async {
            panic!("the task fails");
        },
        move |r| sink.lock().unwrap().push(r),
    );
    let (slot, _) = state.spawn(2, runnable);
    state.spawn(3, logging_task(2, &log, &inbox));
    let mut seen = Vec::new();
    while let Some(tick) = state.try_tick() {
        seen.push(tick.task.priority());
        tick.task.into_runnable().run();
    }
    assert_eq!(seen, vec![3, 2, 1]);
    assert_eq!(*log.lock().unwrap(), vec![2, 0]);
    assert!(task.is_finished());
    assert!(state.complete(slot).is_some());
    assert_eq!(state.snapshot(), Snapshot { active: 2, tasks: 0, sleepers: 0 });
    std::mem::forget(task);
}

#[test]
fn batch_is_spawned_in_order_and_wakes_one_ticker() {
    let mut state = State::new();
    let log = Arc::new(Mutex::new(Vec::new()));
    let inbox = inbox();
    for label in 100..103 {
        state.spawn(0, logging_task(label, &log, &inbox));
    }
    assert!(state.complete(1).is_some());
    while let Some(tick) = state.try_tick() {
        tick.task.into_runnable().run();
    }
    log.lock().unwrap().clear();
    let mut a = Ticker::new();
    let mut b = Ticker::new();
    let (ga, wa) = gong();
    let (gb, wb) = gong();
    assert!(matches!(state.search(&mut a, wa), Search::Retry));
    assert!(matches!(state.search(&mut b, wb), Search::Retry));
    assert!(!state.notified);
    let batch: Vec<PriorityRunnable> = [4isize, 9, 6, 9]
        .iter()
        .enumerate()
        .map(|(label, p)| PriorityRunnable::new(*p, logging_task(label, &log, &inbox)))
        .collect();
    let (slots, wake) = state.spawn_many(batch);
    assert_eq!(slots, vec![1, 3, 4, 5]);
    wake.expect("one ticker is notified").wake();
    assert_eq!((strikes(&ga), strikes(&gb)), (0, 1));
    assert!(state.notified && consistent(&state));
    assert_eq!(state.snapshot(), Snapshot { active: 6, tasks: 4, sleepers: 2 });
    let mut seen = Vec::new();
    while let Some(tick) = state.try_tick() {
        assert!(tick.wake.is_none());
        seen.push(tick.task.priority());
        tick.task.into_runnable().run();
    }
    assert_eq!(seen, vec![9, 9, 6, 4]);
    assert_eq!(log.lock().unwrap().len(), 4);
    let (slots, wake) = state.spawn_many(Vec::new());
    assert!(slots.is_empty());
    assert!(wake.is_none());
}

#[test]
fn batch_lock_is_given_up_after_the_second_task_and_every_500() {
    assert_eq!(SPAWNS_PER_LOCK, 500);
    assert!(!yields_lock_after(0));
    assert!(yields_lock_after(1));
    assert!(!yields_lock_after(2));
    assert!(!yields_lock_after(500));
    assert!(yields_lock_after(501));
    assert!(yields_lock_after(1001));
    assert!(!yields_lock_after(usize::MAX));
    let count = (0..5000usize).filter(|i| yields_lock_after(*i)).count();
    assert_eq!(count, 10);
}
