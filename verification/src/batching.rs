//! Deleting a list of messages in bounded batches.
//!
//! The platform takes at most a hundred ids in one bulk-delete request. The ids
//! are cut into chunks of that size, in order, and one request is made per chunk.
//! A request that fails is put on record and the next chunk is tried all the same.

use vstd::prelude::*;

verus! {

/// The largest number of ids that one bulk-delete request may carry.
pub const MAX_DELETION_COUNT: usize = 100;

/// Why a bulk-delete request failed.
#[derive(Clone, Copy, Debug, PartialEq, Eq)]
pub enum DeleteChunkError {
    /// The platform refused the request for want of permission.
    MissingPermission,
    /// The platform refused the request because too many were made.
    RateLimited,
    /// A message of the chunk is no longer there.
    NotFound,
    /// The request failed for another reason.
    Other,
}

/// The failure that an answer with the HTTP status `status` stands for: 403 is
/// a missing permission, 404 a message that is not there, 429 a rate limit. Any
/// other status, and a failure that came without one, is of another kind.
pub open spec fn failure_of_status(status: Option<u16>) -> DeleteChunkError {
    match status {
        Some(code) => if code == 403 {
            DeleteChunkError::MissingPermission
        } else if code == 404 {
            DeleteChunkError::NotFound
        } else if code == 429 {
            DeleteChunkError::RateLimited
        } else {
            DeleteChunkError::Other
        },
        None => DeleteChunkError::Other,
    }
}

impl DeleteChunkError {
    /// Tells the kind of a failed request by the HTTP status of its answer, if it had one.
    pub fn from_status(status: Option<u16>) -> (error: DeleteChunkError)
        ensures
            error == failure_of_status(status),
    {
        match status {
            Some(403) => DeleteChunkError::MissingPermission,
            Some(404) => DeleteChunkError::NotFound,
            Some(429) => DeleteChunkError::RateLimited,
            _ => DeleteChunkError::Other,
        }
    }
}

/// What a request for one chunk came to.
pub type ChunkOutcome = Result<(), DeleteChunkError>;

/// The result of deleting a list of messages.
#[derive(Debug, PartialEq, Eq)]
pub struct DeletionReport {
    /// How many messages the requests that succeeded carried.
    pub deleted_count: usize,
    /// The failures, one for each request that failed, in the order of the requests.
    pub failed_chunks: Vec<DeleteChunkError>,
}

/// The number of requests that `count` ids take: `count / 100`, rounded up.
pub open spec fn chunk_count(count: nat) -> nat {
    ((count + MAX_DELETION_COUNT - 1) / (MAX_DELETION_COUNT as int)) as nat
}

/// Where chunk number `index` begins among `count` ids.
pub open spec fn chunk_start(count: nat, index: nat) -> nat {
    if index * MAX_DELETION_COUNT <= count {
        (index * MAX_DELETION_COUNT) as nat
    } else {
        count
    }
}

/// Chunk number `index` of `messages`, counted from zero.
pub open spec fn chunk_at(messages: Seq<u64>, index: nat) -> Seq<u64> {
    messages.subrange(
        chunk_start(messages.len(), index) as int,
        chunk_start(messages.len(), (index + 1) as nat) as int,
    )
}

/// The mathematical content of a [`BatchDeleter`].
pub struct Batching {
    /// The ids to delete.
    pub messages: Seq<u64>,
    /// How many requests have been answered.
    pub answered: nat,
    /// How many messages the requests that succeeded carried.
    pub deleted: nat,
    /// The failures so far, in the order of the requests.
    pub failed: Seq<DeleteChunkError>,
}

/// The state in which nothing has been asked for yet.
pub open spec fn batching_of(messages: Seq<u64>) -> Batching {
    Batching { messages, answered: 0, deleted: 0, failed: Seq::empty() }
}

/// Whether every chunk has been asked for and answered.
pub open spec fn all_answered(state: Batching) -> bool {
    state.answered >= chunk_count(state.messages.len())
}

/// The state after the request for the next chunk was answered with `outcome`.
/// Where every chunk has been answered already there is nothing to put on record.
pub open spec fn recorded(state: Batching, outcome: ChunkOutcome) -> Batching {
    if all_answered(state) {
        state
    } else {
        match outcome {
            Ok(_) => Batching {
                messages: state.messages,
                answered: (state.answered + 1) as nat,
                deleted: (state.deleted + chunk_at(state.messages, state.answered).len()) as nat,
                failed: state.failed,
            },
            Err(error) => Batching {
                messages: state.messages,
                answered: (state.answered + 1) as nat,
                deleted: state.deleted,
                failed: state.failed.push(error),
            },
        }
    }
}

/// A deletion in progress. The caller asks for the next chunk, makes the request
/// and reports what came of it, until no chunk is left.
pub struct BatchDeleter {
    messages: Vec<u64>,
    answered: usize,
    report: DeletionReport,
}

impl View for BatchDeleter {
    type V = Batching;

    closed spec fn view(&self) -> Batching {
        Batching {
            messages: self.messages@,
            answered: self.answered as nat,
            deleted: self.report.deleted_count as nat,
            failed: self.report.failed_chunks@,
        }
    }
}

impl BatchDeleter {
    #[verifier::type_invariant]
    spec fn well_formed(self) -> bool {
        &&& self.answered <= chunk_count(self.messages@.len())
        &&& self.report.deleted_count <= chunk_start(self.messages@.len(), self.answered as nat)
    }

    /// A deletion of `messages` of which nothing has been asked for yet.
    pub fn new(messages: Vec<u64>) -> (deleter: BatchDeleter)
        ensures
            deleter@ == batching_of(messages@),
    {
        BatchDeleter {
            messages,
            answered: 0,
            report: DeletionReport { deleted_count: 0, failed_chunks: Vec::new() },
        }
    }

    /// The ids of the next request, or nothing once every chunk has been answered.
    pub fn next_chunk(&self) -> (next: Option<Vec<u64>>)
        ensures
            match next {
                Some(chunk) => !all_answered(self@) && chunk@ == chunk_at(self@.messages, self@.answered),
                None => all_answered(self@),
            },
    {
        proof {
            use_type_invariant(self);
        }
        let (start, end) = self.next_range();
        if start == end {
            return None;
        }
        let mut chunk: Vec<u64> = Vec::new();
        let mut i: usize = start;
        while i < end
            invariant
                start <= i <= end <= self.messages.len(),
                chunk@ == self.messages@.subrange(start as int, i as int),
            decreases end - i,
        {
            chunk.push(self.messages[i]);
            assert(self.messages@.subrange(start as int, i + 1) == self.messages@.subrange(
                start as int,
                i as int,
            ).push(self.messages@[i as int]));
            i += 1;
        }
        Some(chunk)
    }

    /// Where the next chunk begins and ends; the two are equal once no chunk is left.
    fn next_range(&self) -> (range: (usize, usize))
        ensures
            range.0 == chunk_start(self.messages@.len(), self.answered as nat),
            range.1 == chunk_start(self.messages@.len(), (self.answered + 1) as nat),
            range.0 <= range.1 <= self.messages@.len(),
            range.0 == range.1 <==> self.answered == chunk_count(self.messages@.len()),
    {
        proof {
            use_type_invariant(self);
        }
        let len: usize = self.messages.len();
        if self.answered > len / MAX_DELETION_COUNT {
            return (len, len);
        }
        let start: usize = self.answered * MAX_DELETION_COUNT;
        let end: usize = if len - start > MAX_DELETION_COUNT {
            start + MAX_DELETION_COUNT
        } else {
            len
        };
        (start, end)
    }

    /// Puts on record what the request for the next chunk came to. A success adds
    /// the chunk's size to the count of deleted messages; a failure is added to
    /// the list of failures. Either way the next chunk is up.
    pub fn record(self, outcome: ChunkOutcome) -> (next: BatchDeleter)
        ensures
            next@ == recorded(self@, outcome),
    {
        proof {
            use_type_invariant(&self);
        }
        let (start, end) = self.next_range();
        if start == end {
            return self;
        }
        let BatchDeleter { messages, answered, report } = self;
        let DeletionReport { deleted_count, failed_chunks } = report;
        let mut failed_chunks = failed_chunks;
        let deleted_count: usize = match outcome {
            Ok(_) => deleted_count + (end - start),
            Err(error) => {
                failed_chunks.push(error);
                deleted_count
            },
        };
        BatchDeleter {
            messages,
            answered: answered + 1,
            report: DeletionReport { deleted_count, failed_chunks },
        }
    }

    /// How many messages the requests that succeeded so far carried.
    pub fn deleted_count(&self) -> (count: usize)
        ensures
            count == self@.deleted,
    {
        self.report.deleted_count
    }

    /// How many requests failed so far.
    pub fn failed_count(&self) -> (count: usize)
        ensures
            count == self@.failed.len(),
    {
        self.report.failed_chunks.len()
    }

    /// Ends the deletion and hands back its report.
    pub fn finish(self) -> (report: DeletionReport)
        ensures
            report.deleted_count == self@.deleted,
            report.failed_chunks@ == self@.failed,
    {
        self.report
    }
}

/// The state of a deletion of `messages` after its first requests were answered
/// with `outcomes`, in that order.
pub open spec fn after_outcomes(messages: Seq<u64>, outcomes: Seq<ChunkOutcome>) -> Batching
    decreases outcomes.len(),
{
    if outcomes.len() == 0 {
        batching_of(messages)
    } else {
        recorded(after_outcomes(messages, outcomes.drop_last()), outcomes.last())
    }
}

/// The number of ids in the chunks whose requests succeeded (or, with
/// `succeeded` false, failed), where request number `k` was answered with `outcomes[k]`.
pub open spec fn answered_size(messages: Seq<u64>, outcomes: Seq<ChunkOutcome>, succeeded: bool) -> nat
    decreases outcomes.len(),
{
    if outcomes.len() == 0 {
        0
    } else {
        let before = answered_size(messages, outcomes.drop_last(), succeeded);
        if outcomes.last() is Ok == succeeded {
            before + chunk_at(messages, (outcomes.len() - 1) as nat).len()
        } else {
            before
        }
    }
}

/// The failures among `outcomes`, in their order.
pub open spec fn failures(outcomes: Seq<ChunkOutcome>) -> Seq<DeleteChunkError> {
    outcomes.filter_map(
        |outcome: ChunkOutcome|
            match outcome {
                Ok(_) => None,
                Err(error) => Some(error),
            },
    )
}

/// The number of requests is the number of ids divided by a hundred, rounded
/// up: none for no ids, and otherwise the least number of hundreds that holds them all.
pub proof fn lemma_chunk_count_is_ceiling(count: nat)
    ensures
        count == 0 ==> chunk_count(count) == 0,
        count > 0 ==> MAX_DELETION_COUNT * (chunk_count(count) - 1) < count <= MAX_DELETION_COUNT
            * chunk_count(count),
{
}

/// The chunks cut the list without loss and in order: the id at position `i` is
/// the id at position `i % 100` of chunk `i / 100`. Each of the chunks that are
/// asked for holds at least one id and at most a hundred.
pub proof fn lemma_chunks_partition(messages: Seq<u64>)
    ensures
        forall|k: nat|
            k < chunk_count(messages.len()) ==> 1 <= (#[trigger] chunk_at(messages, k)).len()
                <= MAX_DELETION_COUNT,
        forall|i: int|
            0 <= i < messages.len() ==> #[trigger] messages[i] == chunk_at(
                messages,
                (i / MAX_DELETION_COUNT as int) as nat,
            )[i % MAX_DELETION_COUNT as int],
{
}

/// A deletion asks for every chunk, whatever came of the requests before it:
/// each outcome, success or failure, answers one request, and the deletion is
/// over exactly when as many requests were answered as there are chunks. The
/// report then counts the ids of the chunks that succeeded and lists the failures
/// in order; the chunks that succeeded and those that failed together hold every id.
pub proof fn lemma_every_chunk_is_requested(messages: Seq<u64>, outcomes: Seq<ChunkOutcome>)
    requires
        outcomes.len() <= chunk_count(messages.len()),
    ensures
        ({
            let state = after_outcomes(messages, outcomes);
            &&& state.messages == messages
            &&& state.answered == outcomes.len()
            &&& all_answered(state) <==> outcomes.len() == chunk_count(messages.len())
            &&& state.failed == failures(outcomes)
            &&& state.deleted == answered_size(messages, outcomes, true)
            &&& answered_size(messages, outcomes, true) + answered_size(messages, outcomes, false)
                == chunk_start(messages.len(), outcomes.len())
            &&& outcomes.len() == chunk_count(messages.len()) ==> chunk_start(messages.len(), outcomes.len())
                == messages.len()
        }),
    decreases outcomes.len(),
{
    if outcomes.len() > 0 {
        lemma_every_chunk_is_requested(messages, outcomes.drop_last());
    }
}

} // verus!
