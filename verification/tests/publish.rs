use indexer::catalog::Catalog;
use indexer::document::Document;
use indexer::entry::{FileEntry, FolderEntry};
use indexer::ident::identify;
use indexer::publish::{
    Policy, PublishError, Publisher, Request, Response, Unexpected, FILES_INDEX,
};

fn docs(count: usize) -> Vec<Document> {
    (0..count)
        .map(|i| Document {
            id: i as u64,
            path: format!("/d/{}", i),
            size: if i % 2 == 0 { Some(i as u64) } else { None },
            parent_id: None,
        })
        .collect()
}

fn policy(batch_size: usize, max_retries: u32, base_delay_ms: u64) -> Policy {
    Policy { batch_size, max_retries, base_delay_ms }
}

fn publisher(count: usize, batch_size: usize, max_retries: u32, base_delay_ms: u64) -> Publisher {
    Publisher::new(String::from("files_index"), docs(count), policy(batch_size, max_retries, base_delay_ms))
        .unwrap()
}

fn ids(documents: &[Document]) -> Vec<u64> {
    documents.iter().map(|d| d.id).collect()
}

/// Answers the index request, then accepts every batch. Returns the ids of
/// each batch that was submitted.
fn upload_all(count: usize, batch_size: usize) -> Vec<Vec<u64>> {
    let mut publisher = publisher(count, batch_size, 1, 0);
    assert!(matches!(publisher.request(), Request::EnsureIndex { .. }));
    publisher.respond(Response::IndexCreated).unwrap();
    let mut sent = Vec::new();
    loop {
        match publisher.request() {
            Request::Submit { batch, attempt, delay_ms, documents } => {
                assert_eq!(batch, sent.len());
                assert_eq!(attempt, 1);
                assert_eq!(delay_ms, 0);
                sent.push(ids(&documents));
                publisher.respond(Response::BatchAccepted).unwrap();
            }
            Request::Stop => break,
            Request::EnsureIndex { .. } => unreachable!(),
        }
    }
    assert_eq!(publisher.outcome(), Some(Ok(())));
    sent
}

#[test]
fn the_index_is_asked_for_first() {
    let publisher = publisher(3, 2, 1, 0);
    match publisher.request() {
        Request::EnsureIndex { name } => assert_eq!(name, "files_index"),
        _ => panic!("the index comes first"),
    }
    assert!(!publisher.is_over());
    assert_eq!(publisher.outcome(), None);
}

#[test]
fn batches_are_the_count_divided_by_the_size_rounded_up() {
    for (count, size, batches) in [
        (0, 1, 0),
        (0, 500, 0),
        (1, 1, 1),
        (1, 500, 1),
        (10, 3, 4),
        (9, 3, 3),
        (10, 10, 1),
        (11, 10, 2),
        (10, 1, 10),
        (1000, 7, 143),
    ] {
        assert_eq!(upload_all(count, size).len(), batches);
    }
}

#[test]
fn batches_hold_every_document_once_and_in_order() {
    assert_eq!(upload_all(10, 3), vec![vec![0, 1, 2], vec![3, 4, 5], vec![6, 7, 8], vec![9]]);
    assert_eq!(upload_all(4, 2), vec![vec![0, 1], vec![2, 3]]);
    assert_eq!(upload_all(2, 5), vec![vec![0, 1]]);
    let all: Vec<u64> = upload_all(1000, 7).into_iter().flatten().collect();
    assert_eq!(all, (0..1000).collect::<Vec<u64>>());
}

#[test]
fn no_batch_is_larger_than_the_batch_size() {
    for batch in upload_all(1000, 64) {
        assert!(!batch.is_empty());
        assert!(batch.len() <= 64);
    }
}

#[test]
fn a_submitted_document_is_the_document_that_was_given() {
    let mut publisher = publisher(3, 2, 1, 0);
    publisher.respond(Response::IndexExists).unwrap();
    match publisher.request() {
        Request::Submit { documents, .. } => assert_eq!(documents, docs(3)[..2]),
        _ => panic!("a batch is due"),
    }
}

#[test]
fn an_index_that_exists_is_no_failure() {
    let mut publisher = publisher(1, 1, 1, 0);
    assert_eq!(publisher.respond(Response::IndexExists), Ok(()));
    assert!(matches!(publisher.request(), Request::Submit { batch: 0, .. }));
    assert_eq!(publisher.outcome(), None);
}

#[test]
fn an_index_that_is_refused_fails_the_upload() {
    let mut publisher = publisher(5, 2, 3, 10);
    assert_eq!(publisher.respond(Response::IndexRefused { cause: String::from("read-only") }), Ok(()));
    assert!(publisher.is_over());
    assert!(matches!(publisher.request(), Request::Stop));
    assert_eq!(
        publisher.outcome(),
        Some(Err(PublishError::Index { cause: String::from("read-only") }))
    );
}

#[test]
fn nothing_to_upload_is_done_after_the_index() {
    let mut publisher = publisher(0, 10, 1, 0);
    publisher.respond(Response::IndexCreated).unwrap();
    assert!(matches!(publisher.request(), Request::Stop));
    assert_eq!(publisher.outcome(), Some(Ok(())));
}

#[test]
fn a_rejected_batch_is_sent_again() {
    let mut publisher = publisher(5, 2, 2, 100);
    publisher.respond(Response::IndexCreated).unwrap();
    publisher.respond(Response::BatchAccepted).unwrap();
    let first = match publisher.request() {
        Request::Submit { batch, attempt, delay_ms, documents } => {
            assert_eq!((batch, attempt, delay_ms), (1, 1, 0));
            documents
        }
        _ => panic!("a batch is due"),
    };
    publisher.respond(Response::BatchRejected { cause: String::from("busy") }).unwrap();
    assert!(!publisher.is_over());
    match publisher.request() {
        Request::Submit { batch, attempt, delay_ms, documents } => {
            assert_eq!((batch, attempt, delay_ms), (1, 2, 100));
            assert_eq!(documents, first);
            assert_eq!(ids(&documents), vec![2, 3]);
        }
        _ => panic!("the batch is due again"),
    }
    publisher.respond(Response::BatchAccepted).unwrap();
    assert!(matches!(publisher.request(), Request::Submit { batch: 2, attempt: 1, delay_ms: 0, .. }));
    publisher.respond(Response::BatchAccepted).unwrap();
    assert_eq!(publisher.outcome(), Some(Ok(())));
}

#[test]
fn the_delay_doubles_with_every_retry() {
    let mut publisher = publisher(1, 1, 5, 100);
    publisher.respond(Response::IndexCreated).unwrap();
    let mut delays = Vec::new();
    let mut attempts = Vec::new();
    while let Request::Submit { attempt, delay_ms, .. } = publisher.request() {
        attempts.push(attempt);
        delays.push(delay_ms);
        publisher.respond(Response::BatchRejected { cause: String::from("no") }).unwrap();
    }
    assert_eq!(attempts, vec![1, 2, 3, 4, 5, 6]);
    assert_eq!(delays, vec![0, 100, 200, 400, 800, 1600]);
}

#[test]
fn the_delay_stops_at_the_largest_number() {
    let mut publisher = publisher(1, 1, 4, u64::MAX / 2 - 1);
    publisher.respond(Response::IndexCreated).unwrap();
    let mut delays = Vec::new();
    while let Request::Submit { delay_ms, .. } = publisher.request() {
        delays.push(delay_ms);
        publisher.respond(Response::BatchRejected { cause: String::from("no") }).unwrap();
    }
    assert_eq!(delays, vec![0, u64::MAX / 2 - 1, u64::MAX - 3, u64::MAX, u64::MAX]);
}

#[test]
fn a_base_delay_of_zero_stays_zero() {
    let mut publisher = publisher(1, 1, 3, 0);
    publisher.respond(Response::IndexCreated).unwrap();
    let mut delays = Vec::new();
    while let Request::Submit { delay_ms, .. } = publisher.request() {
        delays.push(delay_ms);
        publisher.respond(Response::BatchRejected { cause: String::from("no") }).unwrap();
    }
    assert_eq!(delays, vec![0, 0, 0, 0]);
}

#[test]
fn the_upload_fails_when_the_retries_are_used_up() {
    let mut publisher = publisher(5, 2, 2, 50);
    publisher.respond(Response::IndexCreated).unwrap();
    publisher.respond(Response::BatchAccepted).unwrap();
    publisher.respond(Response::BatchAccepted).unwrap();
    let mut submissions = 0;
    while let Request::Submit { batch, documents, .. } = publisher.request() {
        assert_eq!(batch, 2);
        assert_eq!(ids(&documents), vec![4]);
        submissions += 1;
        let cause = format!("timeout {}", submissions);
        publisher.respond(Response::BatchRejected { cause }).unwrap();
    }
    assert_eq!(submissions, 3);
    assert!(publisher.is_over());
    assert_eq!(
        publisher.outcome(),
        Some(Err(PublishError::Batch {
            batch: 2,
            size: 1,
            attempts: 3,
            cause: String::from("timeout 3")
        }))
    );
}

#[test]
fn a_failure_names_the_batch_and_its_size() {
    let mut publisher = publisher(10, 4, 1, 0);
    publisher.respond(Response::IndexCreated).unwrap();
    publisher.respond(Response::BatchRejected { cause: String::from("a") }).unwrap();
    publisher.respond(Response::BatchRejected { cause: String::from("b") }).unwrap();
    let error = publisher.outcome().unwrap().unwrap_err();
    assert_eq!(
        error,
        PublishError::Batch { batch: 0, size: 4, attempts: 2, cause: String::from("b") }
    );
    assert_eq!(error.clone(), error);
}

#[test]
fn retries_start_afresh_with_every_batch() {
    let mut publisher = publisher(2, 1, 1, 7);
    publisher.respond(Response::IndexCreated).unwrap();
    publisher.respond(Response::BatchRejected { cause: String::from("x") }).unwrap();
    publisher.respond(Response::BatchAccepted).unwrap();
    assert!(matches!(publisher.request(), Request::Submit { batch: 1, attempt: 1, delay_ms: 0, .. }));
    publisher.respond(Response::BatchRejected { cause: String::from("x") }).unwrap();
    assert!(matches!(publisher.request(), Request::Submit { batch: 1, attempt: 2, delay_ms: 7, .. }));
    publisher.respond(Response::BatchAccepted).unwrap();
    assert_eq!(publisher.outcome(), Some(Ok(())));
}

#[test]
fn an_answer_that_does_not_fit_is_refused() {
    let mut publisher = publisher(2, 1, 1, 0);
    assert_eq!(publisher.respond(Response::BatchAccepted), Err(Unexpected));
    assert_eq!(publisher.respond(Response::BatchRejected { cause: String::new() }), Err(Unexpected));
    assert!(matches!(publisher.request(), Request::EnsureIndex { .. }));
    publisher.respond(Response::IndexCreated).unwrap();
    assert_eq!(publisher.respond(Response::IndexCreated), Err(Unexpected));
    assert_eq!(publisher.respond(Response::IndexExists), Err(Unexpected));
    assert_eq!(publisher.respond(Response::IndexRefused { cause: String::new() }), Err(Unexpected));
    assert!(matches!(publisher.request(), Request::Submit { batch: 0, attempt: 1, .. }));
}

#[test]
fn no_answer_is_taken_once_the_upload_is_over() {
    let mut done = publisher(1, 1, 1, 0);
    done.respond(Response::IndexCreated).unwrap();
    done.respond(Response::BatchAccepted).unwrap();
    assert_eq!(done.respond(Response::BatchAccepted), Err(Unexpected));
    assert_eq!(done.respond(Response::IndexCreated), Err(Unexpected));
    assert_eq!(done.outcome(), Some(Ok(())));

    let mut failed = publisher(1, 1, 1, 0);
    failed.respond(Response::IndexRefused { cause: String::from("down") }).unwrap();
    assert_eq!(failed.respond(Response::IndexCreated), Err(Unexpected));
    assert_eq!(failed.respond(Response::BatchAccepted), Err(Unexpected));
    assert_eq!(failed.outcome(), Some(Err(PublishError::Index { cause: String::from("down") })));
}

#[test]
fn no_upload_with_empty_batches_or_without_a_retry() {
    assert!(Publisher::new(String::from("i"), docs(3), policy(0, 1, 0)).is_none());
    assert!(Publisher::new(String::from("i"), docs(3), policy(1, 0, 0)).is_none());
    assert!(Publisher::new(String::from("i"), docs(3), policy(0, 0, 0)).is_none());
    assert!(Publisher::new(String::from("i"), docs(0), policy(1, 1, 0)).is_some());
    assert!(Publisher::new(String::new(), docs(3), policy(usize::MAX, u32::MAX, u64::MAX)).is_some());
}

#[test]
fn the_most_retries_there_can_be_do_not_overflow() {
    let mut publisher =
        Publisher::new(String::from("i"), docs(3), policy(usize::MAX, u32::MAX, u64::MAX)).unwrap();
    publisher.respond(Response::IndexCreated).unwrap();
    publisher.respond(Response::BatchRejected { cause: String::new() }).unwrap();
    match publisher.request() {
        Request::Submit { batch, attempt, delay_ms, documents } => {
            assert_eq!((batch, attempt, delay_ms), (0, 2, u64::MAX));
            assert_eq!(documents.len(), 3);
        }
        _ => panic!("the batch is due again"),
    }
}

#[test]
fn a_catalog_goes_into_the_index_of_files() {
    let mut catalog = Catalog::new();
    catalog.add_file(FileEntry::new(String::from("/data/a/x.txt"), 10, Some(identify("/data/a"))));
    catalog.add_folder(FolderEntry::new(String::from("/data/a"), None));
    let mut publisher = Publisher::for_catalog(&catalog, policy(10, 1, 0)).unwrap();
    assert_eq!(FILES_INDEX, "files_index");
    match publisher.request() {
        Request::EnsureIndex { name } => assert_eq!(name, "files_index"),
        _ => panic!("the index comes first"),
    }
    publisher.respond(Response::IndexCreated).unwrap();
    match publisher.request() {
        Request::Submit { batch, documents, .. } => {
            assert_eq!(batch, 0);
            assert_eq!(
                documents,
                vec![
                    Document {
                        id: identify("/data/a"),
                        path: String::from("/data/a"),
                        size: None,
                        parent_id: None
                    },
                    Document {
                        id: identify("/data/a/x.txt"),
                        path: String::from("/data/a/x.txt"),
                        size: Some(10),
                        parent_id: Some(identify("/data/a"))
                    },
                ]
            );
        }
        _ => panic!("a batch is due"),
    }
    assert!(Publisher::for_catalog(&catalog, policy(0, 1, 0)).is_none());
}
