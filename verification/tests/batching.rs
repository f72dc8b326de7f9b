use purge_scheduler::batching::{BatchDeleter, DeleteChunkError, DeletionReport};
use purge_scheduler::message_deletion::delete_messages_test;

fn ids(count: u64) -> Vec<u64> {
    let mut ids: Vec<u64> = Vec::new();
    for id in 0..count {
        ids.push(1000 + id);
    }
    ids
}

/// Runs a deletion to its end, failing the requests whose numbers are given, and
/// hands back the chunks that were asked for together with the report.
fn run(messages: Vec<u64>, failing: &[(usize, DeleteChunkError)]) -> (Vec<Vec<u64>>, DeletionReport) {
    let mut deleter = BatchDeleter::new(messages);
    let mut asked: Vec<Vec<u64>> = Vec::new();
    while let Some(chunk) = deleter.next_chunk() {
        let number = asked.len();
        asked.push(chunk);
        let outcome = match failing.iter().find(|(at, _)| *at == number) {
            Some((_, error)) => Err(*error),
            None => Ok(()),
        };
        deleter = deleter.record(outcome);
    }
    (asked, deleter.finish())
}

#[test]
fn test_iter() {
    let message_count = [0, 1, 2, 99, 100, 101, 200, 201];
    let expected_calls = [0, 1, 1, 1, 1, 2, 2, 3];
    for i in 0..message_count.len() {
        let message_count = message_count[i];
        let expected_calls = expected_calls[i];
        let mut some_data: Vec<i32> = Vec::new();
        for data in 0..message_count {
            some_data.push(data);
        }
        let result = delete_messages_test(some_data);
        assert_eq!(
            result, expected_calls,
            "Message count = {} expected calls = {}",
            message_count, expected_calls
        );
    }
}

#[test]
fn deleter_makes_as_many_requests_as_the_count_says() {
    for count in [0u64, 1, 2, 99, 100, 101, 200, 201, 1000] {
        let (asked, report) = run(ids(count), &[]);
        let mut numbers: Vec<i32> = Vec::new();
        for n in 0..count {
            numbers.push(n as i32);
        }
        assert_eq!(asked.len() as i32, delete_messages_test(numbers));
        assert_eq!(asked.len() as u64, (count + 99) / 100);
        assert_eq!(report.deleted_count as u64, count);
        assert!(report.failed_chunks.is_empty());
    }
}

#[test]
fn no_messages_take_no_request() {
    let deleter = BatchDeleter::new(Vec::new());
    assert_eq!(deleter.next_chunk(), None);
    let report = deleter.finish();
    assert_eq!(report, DeletionReport { deleted_count: 0, failed_chunks: vec![] });
}

#[test]
fn chunks_keep_the_order_and_hold_at_most_a_hundred() {
    let messages = ids(250);
    let (asked, _) = run(messages.clone(), &[]);
    assert_eq!(asked.len(), 3);
    assert_eq!(asked[0], messages[0..100].to_vec());
    assert_eq!(asked[1], messages[100..200].to_vec());
    assert_eq!(asked[2], messages[200..250].to_vec());
    let mut joined: Vec<u64> = Vec::new();
    for chunk in &asked {
        assert!(chunk.len() <= 100 && !chunk.is_empty());
        joined.extend_from_slice(chunk);
    }
    assert_eq!(joined, messages);
}

#[test]
fn a_full_last_chunk_is_not_followed_by_an_empty_one() {
    let (asked, report) = run(ids(200), &[]);
    assert_eq!(asked.len(), 2);
    assert_eq!(asked[1].len(), 100);
    assert_eq!(report.deleted_count, 200);
}

#[test]
fn a_failed_chunk_does_not_stop_the_next() {
    let (asked, report) = run(ids(250), &[(1, DeleteChunkError::RateLimited)]);
    assert_eq!(asked.len(), 3);
    assert_eq!(report.deleted_count, 150);
    assert_eq!(report.failed_chunks, vec![DeleteChunkError::RateLimited]);
}

#[test]
fn failures_are_listed_in_the_order_of_the_requests() {
    let (asked, report) = run(
        ids(301),
        &[
            (0, DeleteChunkError::MissingPermission),
            (2, DeleteChunkError::NotFound),
            (3, DeleteChunkError::Other),
        ],
    );
    assert_eq!(asked.len(), 4);
    assert_eq!(report.deleted_count, 100);
    assert_eq!(
        report.failed_chunks,
        vec![DeleteChunkError::MissingPermission, DeleteChunkError::NotFound, DeleteChunkError::Other]
    );
}

#[test]
fn every_chunk_failing_deletes_nothing() {
    let (asked, report) = run(
        ids(150),
        &[(0, DeleteChunkError::MissingPermission), (1, DeleteChunkError::MissingPermission)],
    );
    assert_eq!(asked.len(), 2);
    assert_eq!(report.deleted_count, 0);
    assert_eq!(report.failed_chunks.len(), 2);
}

#[test]
fn an_answer_that_nothing_asked_for_is_not_recorded() {
    let mut deleter = BatchDeleter::new(ids(5));
    deleter = deleter.record(Ok(()));
    assert_eq!(deleter.next_chunk(), None);
    deleter = deleter.record(Ok(()));
    deleter = deleter.record(Err(DeleteChunkError::Other));
    assert_eq!(deleter.deleted_count(), 5);
    assert_eq!(deleter.failed_count(), 0);
    assert_eq!(deleter.finish(), DeletionReport { deleted_count: 5, failed_chunks: vec![] });
}

#[test]
fn counts_are_kept_while_the_deletion_runs() {
    let mut deleter = BatchDeleter::new(ids(120));
    assert_eq!(deleter.deleted_count(), 0);
    assert_eq!(deleter.next_chunk().map(|chunk| chunk.len()), Some(100));
    deleter = deleter.record(Err(DeleteChunkError::NotFound));
    assert_eq!(deleter.deleted_count(), 0);
    assert_eq!(deleter.failed_count(), 1);
    assert_eq!(deleter.next_chunk().map(|chunk| chunk.len()), Some(20));
    deleter = deleter.record(Ok(()));
    assert_eq!(deleter.deleted_count(), 20);
    assert_eq!(deleter.failed_count(), 1);
    assert_eq!(deleter.next_chunk(), None);
}

#[test]
fn a_failure_is_told_by_its_status() {
    assert_eq!(DeleteChunkError::from_status(Some(403)), DeleteChunkError::MissingPermission);
    assert_eq!(DeleteChunkError::from_status(Some(404)), DeleteChunkError::NotFound);
    assert_eq!(DeleteChunkError::from_status(Some(429)), DeleteChunkError::RateLimited);
    assert_eq!(DeleteChunkError::from_status(Some(500)), DeleteChunkError::Other);
    assert_eq!(DeleteChunkError::from_status(Some(400)), DeleteChunkError::Other);
    assert_eq!(DeleteChunkError::from_status(Some(0)), DeleteChunkError::Other);
    assert_eq!(DeleteChunkError::from_status(None), DeleteChunkError::Other);
}
