use ky_sync::scheduler::{DownloadScheduler, N_WORKERS};

#[test]
fn worker_limit_is_four() {
    assert_eq!(N_WORKERS, 4);
}

#[test]
fn new_scheduler_has_started_nothing() {
    let scheduler = DownloadScheduler::new(5, 2);
    assert_eq!(scheduler.total(), 5);
    assert_eq!(scheduler.limit(), 2);
    assert_eq!(scheduler.admitted(), 0);
    assert_eq!(scheduler.completed(), 0);
    assert_eq!(scheduler.in_flight(), 0);
    assert!(!scheduler.is_done());
}

#[test]
fn admission_stops_at_the_limit() {
    let mut scheduler = DownloadScheduler::new(5, 2);
    assert_eq!(scheduler.start_next(), Some(0));
    assert_eq!(scheduler.start_next(), Some(1));
    assert_eq!(scheduler.start_next(), None);
    assert_eq!(scheduler.in_flight(), 2);
    assert_eq!(scheduler.admitted(), 2);
}

#[test]
fn completion_frees_a_slot_for_the_next_in_the_queue() {
    let mut scheduler = DownloadScheduler::new(5, 2);
    scheduler.start_next();
    scheduler.start_next();
    assert!(scheduler.complete(1));
    assert_eq!(scheduler.in_flight(), 1);
    assert_eq!(scheduler.start_next(), Some(2));
    assert_eq!(scheduler.start_next(), None);
}

#[test]
fn item_completes_once() {
    let mut scheduler = DownloadScheduler::new(3, 3);
    scheduler.start_next();
    assert!(scheduler.complete(0));
    assert!(!scheduler.complete(0));
    assert_eq!(scheduler.completed(), 1);
}

#[test]
fn item_that_has_not_started_cannot_complete() {
    let mut scheduler = DownloadScheduler::new(3, 1);
    scheduler.start_next();
    assert!(!scheduler.complete(1));
    assert!(!scheduler.complete(2));
    assert!(!scheduler.complete(3));
    assert!(!scheduler.complete(usize::MAX));
    assert_eq!(scheduler.completed(), 0);
    assert!(scheduler.is_in_flight(0));
    assert!(!scheduler.is_in_flight(1));
}

#[test]
fn done_after_as_many_completions_as_items() {
    let total = 7;
    let mut scheduler = DownloadScheduler::new(total, 3);
    let mut flying: Vec<usize> = Vec::new();
    let mut completions = 0;
    let mut most = 0;
    while !scheduler.is_done() {
        while let Some(index) = scheduler.start_next() {
            flying.push(index);
        }
        most = most.max(scheduler.in_flight());
        assert!(scheduler.in_flight() <= 3);
        assert!(!flying.is_empty());
        let index = flying.pop().unwrap();
        assert!(scheduler.complete(index));
        completions += 1;
        assert_eq!(scheduler.completed(), completions);
        assert_eq!(scheduler.is_done(), completions == total);
    }
    assert_eq!(completions, total);
    assert_eq!(most, 3);
    assert_eq!(scheduler.start_next(), None);
    assert_eq!(scheduler.in_flight(), 0);
}

#[test]
fn single_worker_fetches_in_queue_order() {
    let mut scheduler = DownloadScheduler::new(3, 1);
    let mut order = Vec::new();
    while let Some(index) = scheduler.start_next() {
        order.push(index);
        assert_eq!(scheduler.start_next(), None);
        assert!(scheduler.complete(index));
    }
    assert_eq!(order, vec![0, 1, 2]);
    assert!(scheduler.is_done());
}

#[test]
fn empty_queue_is_done_at_once() {
    let mut scheduler = DownloadScheduler::new(0, 4);
    assert!(scheduler.is_done());
    assert_eq!(scheduler.start_next(), None);
    assert!(!scheduler.complete(0));
}

#[test]
fn limit_above_the_queue_starts_everything() {
    let mut scheduler = DownloadScheduler::new(2, 10);
    assert_eq!(scheduler.start_next(), Some(0));
    assert_eq!(scheduler.start_next(), Some(1));
    assert_eq!(scheduler.start_next(), None);
    assert_eq!(scheduler.in_flight(), 2);
}

#[test]
fn no_worker_starts_nothing() {
    let mut scheduler = DownloadScheduler::new(2, 0);
    assert_eq!(scheduler.start_next(), None);
    assert_eq!(scheduler.in_flight(), 0);
    assert!(!scheduler.is_done());
}
