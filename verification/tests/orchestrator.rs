use bytes::Bytes;
use ky_sync::api::{Book, FetchError};
use ky_sync::inventory::LocalInventory;
use ky_sync::orchestrator::{DownloadResult, ItemState, Orchestrator, Refusal, Step, Verdict};
use ky_sync::planner::plan;

fn book(name: &str) -> Book {
    Book { path: format!("/{}", name), name: name.to_string(), size: 100 }
}

fn books(count: usize) -> Vec<Book> {
    (0..count).map(|i| book(&format!("book-{}.epub", i))).collect()
}

fn network_error() -> reqwest::Error {
    reqwest::Client::builder().user_agent("two\nlines").build().expect_err("a builder that cannot build")
}

fn write_error() -> std::io::Error {
    std::io::Error::new(std::io::ErrorKind::PermissionDenied, "read-only destination")
}

fn fetched(index: usize, content: &'static [u8]) -> DownloadResult {
    DownloadResult { index, outcome: Ok(Bytes::from_static(content)) }
}

fn failed(index: usize) -> DownloadResult {
    DownloadResult { index, outcome: Err(FetchError::Transport(network_error())) }
}

#[test]
fn one_missing_book_is_fetched_once_and_written_once() {
    let catalog = vec![Book { path: "/a.epub".to_string(), name: "a.epub".to_string(), size: 100 }];
    let pending = plan(&catalog, &LocalInventory::from_entries(Vec::new()));
    let mut run = Orchestrator::new(pending, 4);
    assert_eq!(run.total(), 1);
    assert_eq!(run.start_next(), Some(0));
    assert_eq!(run.book(0).map(|b| b.path.clone()), Some("/a.epub".to_string()));
    assert_eq!(run.start_next(), None);
    match run.deliver(fetched(0, b"the bytes of a")) {
        Ok(Step::Persist { index, name, content }) => {
            assert_eq!(index, 0);
            assert_eq!(name, "a.epub");
            assert_eq!(content, Bytes::from_static(b"the bytes of a"));
        },
        other => panic!("expected a write, got {:?}", other),
    }
    assert_eq!(run.state(0), Some(ItemState::Persisting));
    match run.persisted(Ok(())) {
        Ok(Verdict::Progress { completed, total }) => {
            assert_eq!(completed, 1);
            assert_eq!(total, 1);
        },
        other => panic!("expected progress, got {:?}", other),
    }
    assert_eq!(run.state(0), Some(ItemState::Persisted));
    assert!(run.is_finished());
    assert!(!run.is_aborted());
    assert_eq!(run.start_next(), None);
}

#[test]
fn failed_fetch_is_skipped_and_the_run_goes_on() {
    let mut run = Orchestrator::new(books(2), 4);
    assert_eq!(run.start_next(), Some(0));
    assert_eq!(run.start_next(), Some(1));
    match run.deliver(failed(0)) {
        Ok(Step::Skip { index, name, error }) => {
            assert_eq!(index, 0);
            assert_eq!(name, "book-0.epub");
            assert!(matches!(error, FetchError::Transport(ref cause) if cause.is_builder()));
        },
        other => panic!("expected a skip, got {:?}", other),
    }
    assert_eq!(run.state(0), Some(ItemState::FetchFailed));
    assert_eq!(run.state(1), Some(ItemState::Fetching));
    assert!(!run.is_aborted());
    assert!(!run.is_finished());
    match run.deliver(fetched(1, b"second")) {
        Ok(Step::Persist { index, name, content }) => {
            assert_eq!(index, 1);
            assert_eq!(name, "book-1.epub");
            assert_eq!(content, Bytes::from_static(b"second"));
        },
        other => panic!("expected a write, got {:?}", other),
    }
    assert!(matches!(run.persisted(Ok(())), Ok(Verdict::Progress { completed: 2, total: 2 })));
    assert_eq!(run.state(0), Some(ItemState::FetchFailed));
    assert_eq!(run.state(1), Some(ItemState::Persisted));
    assert!(run.is_finished());
    assert!(!run.is_aborted());
}

#[test]
fn failed_write_ends_the_run_at_once() {
    let mut run = Orchestrator::new(books(4), 2);
    assert_eq!(run.start_next(), Some(0));
    assert_eq!(run.start_next(), Some(1));
    assert!(matches!(run.deliver(fetched(1, b"one")), Ok(Step::Persist { index: 1, .. })));
    match run.persisted(Err(write_error())) {
        Ok(Verdict::Abort { index, error }) => {
            assert_eq!(index, 1);
            assert_eq!(error.kind(), std::io::ErrorKind::PermissionDenied);
        },
        other => panic!("expected the run to end, got {:?}", other),
    }
    assert!(run.is_aborted());
    assert!(run.is_finished());
    assert_eq!(run.state(1), Some(ItemState::PersistFailed));
    assert_eq!(run.start_next(), None);
    assert_eq!(run.state(2), Some(ItemState::Pending));
    assert_eq!(run.state(3), Some(ItemState::Pending));
    assert!(matches!(run.deliver(fetched(0, b"late")), Err(Refusal::Aborted)));
    assert_eq!(run.state(0), Some(ItemState::Fetching));
    assert!(matches!(run.persisted(Ok(())), Err(Refusal::Aborted)));
}

#[test]
fn result_for_a_book_outside_the_plan_is_refused() {
    let mut run = Orchestrator::new(books(2), 4);
    run.start_next();
    assert!(matches!(run.deliver(fetched(2, b"x")), Err(Refusal::UnknownItem)));
    assert!(matches!(run.deliver(failed(usize::MAX)), Err(Refusal::UnknownItem)));
    assert_eq!(run.completed(), 0);
}

#[test]
fn result_for_a_book_that_is_not_being_fetched_is_refused() {
    let mut run = Orchestrator::new(books(3), 1);
    assert_eq!(run.start_next(), Some(0));
    assert!(matches!(run.deliver(fetched(1, b"x")), Err(Refusal::NotFetching)));
    assert_eq!(run.state(1), Some(ItemState::Pending));
    assert!(matches!(run.deliver(failed(0)), Ok(Step::Skip { index: 0, .. })));
    assert!(matches!(run.deliver(failed(0)), Err(Refusal::NotFetching)));
    assert!(matches!(run.deliver(fetched(0, b"x")), Err(Refusal::NotFetching)));
    assert_eq!(run.completed(), 1);
}

#[test]
fn second_result_waits_for_the_write_in_progress() {
    let mut run = Orchestrator::new(books(2), 2);
    run.start_next();
    run.start_next();
    assert!(matches!(run.deliver(fetched(0, b"first")), Ok(Step::Persist { index: 0, .. })));
    assert!(matches!(run.deliver(fetched(1, b"second")), Err(Refusal::WriterBusy)));
    assert!(matches!(run.deliver(failed(1)), Err(Refusal::WriterBusy)));
    assert_eq!(run.state(1), Some(ItemState::Fetching));
    assert!(!run.is_finished());
    assert!(matches!(run.persisted(Ok(())), Ok(Verdict::Progress { completed: 1, total: 2 })));
    assert!(matches!(run.deliver(fetched(1, b"second")), Ok(Step::Persist { index: 1, .. })));
}

#[test]
fn outcome_without_a_write_is_refused() {
    let mut run = Orchestrator::new(books(1), 1);
    assert!(matches!(run.persisted(Ok(())), Err(Refusal::NotWriting)));
    run.start_next();
    assert!(matches!(run.persisted(Err(write_error())), Err(Refusal::NotWriting)));
    assert!(!run.is_aborted());
    assert!(matches!(run.deliver(failed(0)), Ok(Step::Skip { .. })));
    assert!(matches!(run.persisted(Ok(())), Err(Refusal::NotWriting)));
}

#[test]
fn progress_counts_skipped_books_too() {
    let mut run = Orchestrator::new(books(3), 3);
    run.start_next();
    run.start_next();
    run.start_next();
    assert!(matches!(run.deliver(failed(2)), Ok(Step::Skip { index: 2, .. })));
    assert!(matches!(run.deliver(failed(0)), Ok(Step::Skip { index: 0, .. })));
    assert!(matches!(run.deliver(fetched(1, b"only")), Ok(Step::Persist { index: 1, .. })));
    assert!(matches!(run.persisted(Ok(())), Ok(Verdict::Progress { completed: 3, total: 3 })));
    assert!(run.is_finished());
}

#[test]
fn results_are_taken_in_any_order() {
    let mut run = Orchestrator::new(books(3), 3);
    run.start_next();
    run.start_next();
    run.start_next();
    for (count, index) in [2usize, 0, 1].into_iter().enumerate() {
        match run.deliver(fetched(index, b"content")) {
            Ok(Step::Persist { index: told, name, .. }) => {
                assert_eq!(told, index);
                assert_eq!(name, format!("book-{}.epub", index));
            },
            other => panic!("expected a write, got {:?}", other),
        }
        match run.persisted(Ok(())) {
            Ok(Verdict::Progress { completed, total }) => {
                assert_eq!(completed, count + 1);
                assert_eq!(total, 3);
            },
            other => panic!("expected progress, got {:?}", other),
        }
    }
    assert!(run.is_finished());
}

#[test]
fn never_more_fetches_in_flight_than_workers() {
    let mut run = Orchestrator::new(books(6), 2);
    let mut flying: Vec<usize> = Vec::new();
    let mut started = 0;
    let mut delivered = 0;
    while !run.is_finished() {
        while let Some(index) = run.start_next() {
            assert_eq!(index, started);
            started += 1;
            flying.push(index);
        }
        assert!(run.in_flight() <= 2);
        assert_eq!(run.in_flight(), flying.len());
        let index = flying.remove(0);
        let result = if index % 2 == 0 { fetched(index, b"even") } else { failed(index) };
        match run.deliver(result) {
            Ok(Step::Persist { .. }) => {
                assert!(run.persisted(Ok(())).is_ok());
            },
            Ok(Step::Skip { .. }) => {},
            Err(refusal) => panic!("refused: {:?}", refusal),
        }
        delivered += 1;
    }
    assert_eq!(started, 6);
    assert_eq!(delivered, 6);
    for index in 0..6 {
        let expected = if index % 2 == 0 { ItemState::Persisted } else { ItemState::FetchFailed };
        assert_eq!(run.state(index), Some(expected));
    }
}

#[test]
fn empty_plan_is_over_before_it_starts() {
    let mut run = Orchestrator::new(Vec::new(), 4);
    assert!(run.is_finished());
    assert!(!run.is_aborted());
    assert_eq!(run.start_next(), None);
    assert_eq!(run.total(), 0);
    assert_eq!(run.completed(), 0);
    assert!(run.book(0).is_none());
    assert_eq!(run.state(0), None);
}

#[test]
fn rerun_against_a_synchronised_destination_fetches_nothing() {
    let catalog = vec![book("a.epub"), book("b.epub")];
    let mut present: Vec<String> = Vec::new();
    let mut run = Orchestrator::new(plan(&catalog, &LocalInventory::from_names(present.clone())), 4);
    while let Some(index) = run.start_next() {
        match run.deliver(fetched(index, b"content")) {
            Ok(Step::Persist { name, .. }) => {
                present.push(name);
                assert!(run.persisted(Ok(())).is_ok());
            },
            other => panic!("expected a write, got {:?}", other),
        }
    }
    assert!(run.is_finished());
    let mut again = Orchestrator::new(plan(&catalog, &LocalInventory::from_names(present)), 4);
    assert_eq!(again.total(), 0);
    assert_eq!(again.start_next(), None);
    assert!(again.is_finished());
}

#[test]
fn books_of_one_name_are_handled_independently() {
    let mut run = Orchestrator::new(vec![book("same.epub"), book("same.epub")], 2);
    run.start_next();
    run.start_next();
    assert!(matches!(run.deliver(fetched(0, b"first")), Ok(Step::Persist { index: 0, .. })));
    assert!(matches!(run.persisted(Ok(())), Ok(Verdict::Progress { completed: 1, total: 2 })));
    assert_eq!(run.state(1), Some(ItemState::Fetching));
    assert!(!run.is_finished());
    match run.deliver(fetched(1, b"second")) {
        Ok(Step::Persist { index, name, content }) => {
            assert_eq!(index, 1);
            assert_eq!(name, "same.epub");
            assert_eq!(content, Bytes::from_static(b"second"));
        },
        other => panic!("expected a write, got {:?}", other),
    }
}

#[test]
fn answer_that_is_no_success_is_skipped_with_its_status() {
    let mut run = Orchestrator::new(books(2), 2);
    run.start_next();
    run.start_next();
    match run.deliver(DownloadResult { index: 1, outcome: Err(FetchError::Status(304)) }) {
        Ok(Step::Skip { index, name, error }) => {
            assert_eq!(index, 1);
            assert_eq!(name, "book-1.epub");
            assert!(matches!(error, FetchError::Status(304)));
        },
        other => panic!("expected a skip, got {:?}", other),
    }
    assert_eq!(run.state(1), Some(ItemState::FetchFailed));
    assert_eq!(run.state(0), Some(ItemState::Fetching));
    assert!(!run.is_aborted());
}
