use vstd::prelude::*;
use crate::error::UploadError;
use crate::state::{
    after_complete, after_ingest, all_chunks_received, complete_outcome, SessionView,
};

verus! {

/// The registry after the chunks `indices` of upload `id` were recorded, in that order.
pub open spec fn ingest_all(reg: Map<Seq<char>, SessionView>, id: Seq<char>, indices: Seq<usize>) -> Map<
    Seq<char>,
    SessionView,
>
    decreases indices.len(),
{
    if indices.len() == 0 {
        reg
    } else {
        after_ingest(ingest_all(reg, id, indices.drop_last()), id, indices.last())
    }
}

/// The indices below `n`.
pub open spec fn index_range(n: usize) -> Set<usize> {
    Set::new(|i: usize| i < n)
}

proof fn lemma_index_range_len(n: usize)
    ensures
        index_range(n).finite(),
        index_range(n).len() == n,
    decreases n,
{
    if n == 0 {
        assert(index_range(n) =~= Set::<usize>::empty());
    } else {
        let m = (n - 1) as usize;
        lemma_index_range_len(m);
        assert(index_range(n) =~= index_range(m).insert(m));
    }
}

/// Recording chunks changes nothing but the received set of the one session,
/// which gains exactly the recorded indices.
pub proof fn lemma_ingest_all_received(
    reg: Map<Seq<char>, SessionView>,
    id: Seq<char>,
    indices: Seq<usize>,
)
    requires
        reg.contains_key(id),
    ensures
        ingest_all(reg, id, indices).dom() == reg.dom(),
        ingest_all(reg, id, indices)[id] == (SessionView {
            received: ingest_all(reg, id, indices)[id].received,
            ..reg[id]
        }),
        forall|i: usize|
            #[trigger] ingest_all(reg, id, indices)[id].received.contains(i) <==> (
            reg[id].received.contains(i) || indices.contains(i)),
    decreases indices.len(),
{
    if indices.len() > 0 {
        let prev = indices.drop_last();
        lemma_ingest_all_received(reg, id, prev);
        let before = ingest_all(reg, id, prev);
        assert(ingest_all(reg, id, indices).dom() =~= reg.dom());
        assert forall|i: usize| indices.contains(i) <==> (prev.contains(i) || indices.last() == i) by {
            if indices.contains(i) {
                let j = choose|j: int| 0 <= j < indices.len() && indices[j] == i;
                if j < indices.len() - 1 {
                    assert(prev[j] == i);
                }
            }
            if prev.contains(i) {
                let j = choose|j: int| 0 <= j < prev.len() && prev[j] == i;
                assert(indices[j] == i);
            }
            if indices.last() == i {
                assert(indices[indices.len() - 1] == i);
            }
        }
        assert(before.contains_key(id));
    }
}

/// Recording the same chunk a second time changes nothing: the received set,
/// and so its size, stay as the first recording left them.
pub proof fn lemma_repeat_chunk_idempotent(
    reg: Map<Seq<char>, SessionView>,
    id: Seq<char>,
    index: usize,
)
    ensures
        after_ingest(after_ingest(reg, id, index), id, index) == after_ingest(reg, id, index),
        reg.contains_key(id) ==> after_ingest(after_ingest(reg, id, index), id, index)[id].received.len()
            == after_ingest(reg, id, index)[id].received.len(),
{
    if reg.contains_key(id) {
        let once = after_ingest(reg, id, index);
        assert(once[id].received.insert(index) =~= once[id].received);
        assert(after_ingest(once, id, index) =~= once);
    }
}

/// Completing too early fails with `Incomplete`, reporting the received and
/// expected counts, and leaves the registry as it was; once the missing chunks
/// are recorded, completion succeeds.
pub proof fn lemma_incomplete_then_retry(
    reg: Map<Seq<char>, SessionView>,
    id: Seq<char>,
    missing: Seq<usize>,
)
    requires
        reg.contains_key(id),
        !all_chunks_received(reg[id]),
        forall|i: usize|
            i < reg[id].total_chunks && !reg[id].received.contains(i) ==> missing.contains(i),
    ensures
        complete_outcome(reg, id) == Err::<SessionView, UploadError>(
            UploadError::Incomplete {
                received: reg[id].received.len() as usize,
                total: reg[id].total_chunks,
            },
        ),
        after_complete(reg, id) == reg,
        complete_outcome(ingest_all(reg, id, missing), id) is Ok,
{
    lemma_ingest_all_received(reg, id, missing);
    let done = ingest_all(reg, id, missing);
    assert(done.contains_key(id));
    assert(all_chunks_received(done[id]));
}

/// Recording every index below the chunk count, in any order and with any
/// repeats, makes the upload complete. When no index outside that range was
/// ever recorded, exactly `total_chunks` distinct indices have then arrived.
pub proof fn lemma_all_chunks_converge(
    reg: Map<Seq<char>, SessionView>,
    id: Seq<char>,
    indices: Seq<usize>,
)
    requires
        reg.contains_key(id),
        forall|i: usize| i < reg[id].total_chunks ==> indices.contains(i),
    ensures
        all_chunks_received(ingest_all(reg, id, indices)[id]),
        complete_outcome(ingest_all(reg, id, indices), id) is Ok,
        (forall|i: usize| #[trigger] reg[id].received.contains(i) ==> i < reg[id].total_chunks)
            && (forall|j: int| 0 <= j < indices.len() ==> #[trigger] indices[j] < reg[id].total_chunks)
            ==> ingest_all(reg, id, indices)[id].received.len() == reg[id].total_chunks,
{
    lemma_ingest_all_received(reg, id, indices);
    let done = ingest_all(reg, id, indices);
    assert(done.contains_key(id));
    let n = reg[id].total_chunks;
    if (forall|i: usize| #[trigger] reg[id].received.contains(i) ==> i < n) && (forall|j: int|
        0 <= j < indices.len() ==> #[trigger] indices[j] < n) {
        assert forall|i: usize| done[id].received.contains(i) implies i < n by {
            if indices.contains(i) {
                let j = choose|j: int| 0 <= j < indices.len() && indices[j] == i;
                assert(indices[j] < n);
            }
        }
        assert(done[id].received =~= index_range(n));
        lemma_index_range_len(n);
    }
}

/// A completion happens at most once: an id that is not in the registry (never
/// opened, or completed already) gets `NotFound`, and after a successful
/// completion a second request for the same id gets `NotFound`.
pub proof fn lemma_complete_at_most_once(reg: Map<Seq<char>, SessionView>, id: Seq<char>)
    ensures
        !reg.contains_key(id) ==> complete_outcome(reg, id) == Err::<SessionView, UploadError>(
            UploadError::NotFound,
        ),
        complete_outcome(reg, id) is Ok ==> complete_outcome(after_complete(reg, id), id) == Err::<
            SessionView,
            UploadError,
        >(UploadError::NotFound),
{
}

/// Of two completion requests for a fully received upload, exactly one
/// succeeds: the first is handed the session, the second gets `NotFound`.
pub proof fn lemma_two_completes_one_succeeds(reg: Map<Seq<char>, SessionView>, id: Seq<char>)
    requires
        reg.contains_key(id),
        all_chunks_received(reg[id]),
    ensures
        complete_outcome(reg, id) == Ok::<SessionView, UploadError>(reg[id]),
        complete_outcome(after_complete(reg, id), id) == Err::<SessionView, UploadError>(
            UploadError::NotFound,
        ),
{
}

} // verus!
