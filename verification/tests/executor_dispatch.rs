//! The cooperative executor and request dispatch.

use leptos_wasi::executor::{Executor, Mode, SchedulerAction};
use leptos_wasi::handler::{route, RouteDecision};
use leptos_wasi::request::{Method, Request};
use leptos_wasi::body::Body;
use leptos_wasi::headers::HeaderMap;

#[test]
fn rpc_counter_increments_then_reads_in_schedule_order() {
    // one render issues an increment call (task 1) and then a read call
    // (task 2); the executor runs them in the order they were scheduled
    let mut ex = Executor::new(Mode::Stalled);
    ex.schedule(1);
    ex.schedule(2);

    let mut counter: u64 = 3;
    let mut read_back: Option<u64> = None;
    while let Some(task) = ex.take_next() {
        match task {
            1 => counter += 1,
            2 => read_back = Some(counter),
            _ => unreachable!(),
        }
    }
    assert_eq!(counter, 4);
    assert_eq!(read_back, Some(4));
}

#[test]
fn duplicate_rpc_calls_lose_no_count() {
    // two concurrent duplicate increments during one render, then a read:
    // FIFO scheduling resolves them in order, no stale read overwrites
    let mut ex = Executor::new(Mode::Stalled);
    ex.schedule(1);
    ex.schedule(1);
    ex.schedule(2);

    let mut counter: u64 = 3;
    let mut read_back: Option<u64> = None;
    while let Some(task) = ex.take_next() {
        match task {
            1 => counter += 1,
            2 => read_back = Some(counter),
            _ => unreachable!(),
        }
    }
    assert_eq!(counter, 5);
    assert_eq!(read_back, Some(5));
}

#[test]
fn woken_tasks_rejoin_the_queue_in_parking_order() {
    let mut ex = Executor::new(Mode::Stalled);
    ex.schedule(10);
    ex.suspend(20, 7);
    ex.suspend(30, 8);
    ex.suspend(40, 7);

    ex.wake(7);
    assert_eq!(ex.take_next(), Some(10));
    assert_eq!(ex.take_next(), Some(20));
    assert_eq!(ex.take_next(), Some(40));
    assert_eq!(ex.take_next(), None);

    ex.wake(8);
    assert_eq!(ex.take_next(), Some(30));
    assert_eq!(ex.take_next(), None);
}

#[test]
fn stalled_executor_waits_on_all_outstanding_handles() {
    let mut ex = Executor::new(Mode::Stalled);
    ex.suspend(1, 100);
    ex.suspend(2, 200);
    match ex.next_action() {
        SchedulerAction::WaitAny(handles) => assert_eq!(handles, vec![100, 200]),
        _ => panic!("with nothing runnable, a stalled executor waits on every handle"),
    }
}

#[test]
fn polling_executor_checks_each_handle() {
    let mut ex = Executor::new(Mode::Polling);
    ex.suspend(1, 100);
    match ex.next_action() {
        SchedulerAction::PollEach(handles) => assert_eq!(handles, vec![100]),
        _ => panic!("with nothing runnable, a polling executor re-checks each handle"),
    }
}

#[test]
fn runnable_task_runs_before_any_wait() {
    let mut ex = Executor::new(Mode::Stalled);
    ex.schedule(5);
    ex.suspend(6, 1);
    assert!(matches!(ex.next_action(), SchedulerAction::Run(5)));
}

#[test]
fn executor_with_no_tasks_is_idle() {
    let ex = Executor::new(Mode::Polling);
    assert!(matches!(ex.next_action(), SchedulerAction::Idle));
}

#[test]
fn request_target_splits_at_the_first_question_mark() {
    let req = Request::build(
        Method::Get,
        b"/api/count?from=3&again?yes",
        HeaderMap::new(),
        Body::Sync(Vec::new()),
    );
    assert_eq!(req.path, b"/api/count".to_vec());
    assert_eq!(req.query, b"from=3&again?yes".to_vec());
    assert!(matches!(req.method, Method::Get));
}

#[test]
fn request_target_without_query_is_all_path() {
    let req = Request::build(
        Method::Post,
        b"/api/increment",
        HeaderMap::new(),
        Body::Sync(Vec::new()),
    );
    assert_eq!(req.path, b"/api/increment".to_vec());
    assert_eq!(req.query, Vec::<u8>::new());
}

#[test]
fn route_prefers_static_prefix() {
    let fns = vec![b"/pkg/app.css".to_vec()];
    match route(b"/pkg/app.css", b"/pkg", &fns) {
        RouteDecision::StaticAsset(suffix) => assert_eq!(suffix, b"/app.css".to_vec()),
        _ => panic!("the static prefix wins over an exact remote-procedure match"),
    }
}

#[test]
fn route_matches_the_first_registered_server_fn() {
    let fns = vec![b"/api/a".to_vec(), b"/api/b".to_vec(), b"/api/b".to_vec()];
    match route(b"/api/b", b"/pkg", &fns) {
        RouteDecision::ServerFn(i) => assert_eq!(i, 1),
        _ => panic!("an exact path match dispatches to the remote-procedure handler"),
    }
}

#[test]
fn unmatched_path_goes_to_the_renderer() {
    let fns = vec![b"/api/a".to_vec()];
    assert!(matches!(
        route(b"/some/page", b"/pkg", &fns),
        RouteDecision::Render
    ));
}
