use clip_preparer::pool::{Pool, PoolAction, PoolEvent, TaskState, MAX_CONCURRENT_DOWNLOADS};

#[test]
fn the_download_limit_is_three() {
    assert_eq!(MAX_CONCURRENT_DOWNLOADS, 3);
    assert_eq!(Pool::for_downloads(10).limit(), 3);
    assert_eq!(Pool::sequential(10).limit(), 1);
}

#[test]
fn an_empty_pool_is_done_at_once() {
    let mut pool = Pool::for_downloads(0);
    assert_eq!(pool.total(), 0);
    assert!(pool.is_done());
    assert_eq!(pool.step(PoolEvent::Poll), PoolAction::Done);
    assert!(pool.is_done());
}

#[test]
fn three_tasks_start_and_then_the_pool_waits() {
    let mut pool = Pool::for_downloads(5);
    assert_eq!(pool.step(PoolEvent::Poll), PoolAction::Start(0));
    assert_eq!(pool.step(PoolEvent::Poll), PoolAction::Start(1));
    assert_eq!(pool.step(PoolEvent::Poll), PoolAction::Start(2));
    assert_eq!(pool.step(PoolEvent::Poll), PoolAction::Wait);
    assert_eq!(pool.in_flight(), 3);
    assert_eq!(pool.state(0), Some(TaskState::InFlight));
    assert_eq!(pool.state(2), Some(TaskState::InFlight));
    assert_eq!(pool.state(3), Some(TaskState::Queued));
    assert_eq!(pool.state(5), None);
}

#[test]
fn a_finished_task_makes_room_for_the_next() {
    let mut pool = Pool::for_downloads(5);
    pool.step(PoolEvent::Poll);
    pool.step(PoolEvent::Poll);
    pool.step(PoolEvent::Poll);
    assert_eq!(
        pool.step(PoolEvent::Finished { task: 1, success: true }),
        PoolAction::Start(3)
    );
    assert_eq!(pool.state(1), Some(TaskState::Succeeded));
    assert_eq!(pool.state(3), Some(TaskState::InFlight));
    assert_eq!(pool.in_flight(), 3);
    assert_eq!(pool.succeeded(), 1);
    assert_eq!(pool.completed(), 1);
}

#[test]
fn never_more_than_three_in_flight() {
    let total = 25;
    let mut pool = Pool::for_downloads(total);
    let mut running: Vec<usize> = Vec::new();
    let mut action = pool.step(PoolEvent::Poll);
    let mut turn = 0usize;
    loop {
        assert!(pool.in_flight() <= 3);
        assert_eq!(pool.in_flight(), running.len() + if let PoolAction::Start(_) = action { 1 } else { 0 });
        match action {
            PoolAction::Start(task) => {
                running.push(task);
                action = pool.step(PoolEvent::Poll);
            }
            PoolAction::Wait => {
                turn += 1;
                let task = running.remove(turn % running.len());
                action = pool.step(PoolEvent::Finished { task, success: turn % 4 != 0 });
            }
            PoolAction::Done => break,
        }
    }
    assert!(running.is_empty());
    assert!(pool.is_done());
    assert_eq!(pool.completed(), total);
    assert_eq!(pool.succeeded() + pool.failed(), total);
    assert_eq!(pool.in_flight(), 0);
    assert!(pool.failed() > 0);
}

#[test]
fn one_failing_task_leaves_the_others_alone() {
    let mut pool = Pool::for_downloads(3);
    pool.step(PoolEvent::Poll);
    pool.step(PoolEvent::Poll);
    pool.step(PoolEvent::Poll);
    assert_eq!(pool.step(PoolEvent::Finished { task: 1, success: false }), PoolAction::Wait);
    assert_eq!(pool.state(0), Some(TaskState::InFlight));
    assert_eq!(pool.state(1), Some(TaskState::Failed));
    assert_eq!(pool.state(2), Some(TaskState::InFlight));
    assert_eq!(pool.step(PoolEvent::Finished { task: 0, success: true }), PoolAction::Wait);
    assert_eq!(pool.step(PoolEvent::Finished { task: 2, success: true }), PoolAction::Done);
    assert_eq!(pool.state(0), Some(TaskState::Succeeded));
    assert_eq!(pool.state(1), Some(TaskState::Failed));
    assert_eq!(pool.state(2), Some(TaskState::Succeeded));
    assert_eq!(pool.succeeded(), 2);
    assert_eq!(pool.failed(), 1);
    assert_eq!(pool.completed(), 3);
    assert!(pool.is_done());
}

#[test]
fn every_task_may_fail_and_the_pool_still_ends() {
    let mut pool = Pool::for_downloads(4);
    let mut action = pool.step(PoolEvent::Poll);
    let mut running: Vec<usize> = Vec::new();
    loop {
        match action {
            PoolAction::Start(task) => {
                running.push(task);
                action = pool.step(PoolEvent::Poll);
            }
            PoolAction::Wait => {
                let task = running.remove(0);
                action = pool.step(PoolEvent::Finished { task, success: false });
            }
            PoolAction::Done => break,
        }
    }
    assert_eq!(pool.failed(), 4);
    assert_eq!(pool.succeeded(), 0);
    assert!(pool.is_done());
}

#[test]
fn counts_of_ended_tasks_never_go_down() {
    let mut pool = Pool::for_downloads(6);
    let mut action = pool.step(PoolEvent::Poll);
    let mut running: Vec<usize> = Vec::new();
    let mut last_completed = 0;
    let mut last_succeeded = 0;
    loop {
        assert!(pool.completed() >= last_completed);
        assert!(pool.succeeded() >= last_succeeded);
        last_completed = pool.completed();
        last_succeeded = pool.succeeded();
        match action {
            PoolAction::Start(task) => {
                running.push(task);
                action = pool.step(PoolEvent::Poll);
            }
            PoolAction::Wait => {
                let task = running.pop().unwrap();
                action = pool.step(PoolEvent::Finished { task, success: task % 2 == 0 });
            }
            PoolAction::Done => break,
        }
    }
    assert_eq!(pool.completed(), 6);
    assert_eq!(pool.succeeded(), 3);
}

#[test]
fn reports_about_tasks_not_in_flight_change_nothing() {
    let mut pool = Pool::for_downloads(5);
    pool.step(PoolEvent::Poll);
    pool.step(PoolEvent::Poll);
    pool.step(PoolEvent::Poll);
    assert_eq!(pool.step(PoolEvent::Finished { task: 4, success: true }), PoolAction::Wait);
    assert_eq!(pool.state(4), Some(TaskState::Queued));
    assert_eq!(pool.step(PoolEvent::Finished { task: 99, success: true }), PoolAction::Wait);
    assert_eq!(pool.step(PoolEvent::Finished { task: 0, success: false }), PoolAction::Start(3));
    assert_eq!(pool.step(PoolEvent::Finished { task: 0, success: true }), PoolAction::Wait);
    assert_eq!(pool.state(0), Some(TaskState::Failed));
    assert_eq!(pool.completed(), 1);
    assert_eq!(pool.in_flight(), 3);
}

#[test]
fn a_sequential_pool_runs_one_task_at_a_time_in_order() {
    let mut pool = Pool::sequential(3);
    assert_eq!(pool.step(PoolEvent::Poll), PoolAction::Start(0));
    assert_eq!(pool.step(PoolEvent::Poll), PoolAction::Wait);
    assert_eq!(pool.in_flight(), 1);
    assert_eq!(
        pool.step(PoolEvent::Finished { task: 0, success: false }),
        PoolAction::Start(1)
    );
    assert_eq!(pool.step(PoolEvent::Poll), PoolAction::Wait);
    assert_eq!(
        pool.step(PoolEvent::Finished { task: 1, success: true }),
        PoolAction::Start(2)
    );
    assert_eq!(pool.step(PoolEvent::Finished { task: 2, success: true }), PoolAction::Done);
    assert_eq!(pool.state(0), Some(TaskState::Failed));
    assert_eq!(pool.state(1), Some(TaskState::Succeeded));
    assert_eq!(pool.state(2), Some(TaskState::Succeeded));
}
