//! The lifecycle laws of the write-stream protocol, proved over the model.
//!
//! Each law is a public proof function; its statement is the contract, over
//! the spec transitions of [`crate::model`] that the executable service is
//! verified against.

use vstd::prelude::*;

use crate::model::commit_one_err;
use crate::model::commit_one_state;
use crate::model::create_ok;
use crate::model::lemma_commit_one_frame;
use crate::model::lemma_spec_append_frame;
use crate::model::lemma_spec_commit_len;
use crate::model::lemma_stream_index_props;
use crate::model::lemma_visible_rows_push;
use crate::model::lemma_visible_rows_update_same;
use crate::model::new_stream_model;
use crate::model::spec_append;
use crate::model::spec_append_all;
use crate::model::spec_append_err;
use crate::model::spec_commit;
use crate::model::spec_create;
use crate::model::spec_finalize;
use crate::model::spec_finalize_err;
use crate::model::stream_index;
use crate::model::stream_name_spec;
use crate::model::visible_rows_of;
use crate::model::ServiceModel;
use crate::model::StreamModel;
use crate::types::AppendRowsRequest;
use crate::types::AppendRowsResponse;
use crate::types::StreamType;

verus! {

/// One protocol request, as the service sees it.
pub enum ProtocolEvent {
    /// Open a stream of the given type against the given table.
    CreateStream { parent: Seq<char>, stream_type: StreamType },
    /// Append one batch of rows to the named stream.
    AppendRows { name: Seq<char>, rows: Seq<Seq<u8>> },
    /// Finalize the named stream.
    FinalizeStream { name: Seq<char> },
    /// Commit the named streams.
    CommitStreams { names: Seq<Seq<char>> },
}

/// The service state after one event.
pub open spec fn step_model(m: ServiceModel, e: ProtocolEvent) -> ServiceModel {
    match e {
        ProtocolEvent::CreateStream { parent, stream_type } => spec_create(m, parent, stream_type),
        ProtocolEvent::AppendRows { name, rows } => spec_append(m, name, rows),
        ProtocolEvent::FinalizeStream { name } => spec_finalize(m, name),
        ProtocolEvent::CommitStreams { names } => ServiceModel {
            streams: spec_commit(m.streams, names).0,
            next_id: m.next_id,
        },
    }
}

/// The service state after a sequence of events, first event first.
pub open spec fn run_model(m: ServiceModel, es: Seq<ProtocolEvent>) -> ServiceModel
    decreases es.len(),
{
    if es.len() == 0 {
        m
    } else {
        run_model(step_model(m, es[0]), es.skip(1))
    }
}

/// Every stream of the service is a pending stream.
pub open spec fn all_pending(streams: Seq<StreamModel>) -> bool {
    forall|i: int|
        0 <= i < streams.len() ==> (#[trigger] streams[i]).stream_type == StreamType::Pending
}

/// The events open only pending streams and commit nothing.
pub open spec fn pending_events_without_commit(es: Seq<ProtocolEvent>) -> bool {
    forall|k: int|
        0 <= k < es.len() ==> match #[trigger] es[k] {
            ProtocolEvent::CreateStream { stream_type, .. } => stream_type
                == StreamType::Pending,
            ProtocolEvent::CommitStreams { .. } => false,
            _ => true,
        }
}

/// On a service whose streams are all pending, any single event other than a
/// commit leaves every table's visible rows unchanged.
proof fn lemma_step_preserves_visible(m: ServiceModel, e: ProtocolEvent, table: Seq<char>)
    requires
        all_pending(m.streams),
        !(e is CommitStreams),
        e matches ProtocolEvent::CreateStream { stream_type, .. } ==> stream_type
            == StreamType::Pending,
    ensures
        all_pending(step_model(m, e).streams),
        visible_rows_of(step_model(m, e).streams, table) == visible_rows_of(m.streams, table),
{
    match e {
        ProtocolEvent::CreateStream { parent, stream_type } => {
            if create_ok(m) {
                let s = new_stream_model(stream_name_spec(m.next_id), parent, stream_type);
                lemma_visible_rows_push(m.streams, s, table);
                assert(visible_rows_of(m.streams, table) + Seq::<Seq<u8>>::empty()
                    =~= visible_rows_of(m.streams, table));
                let ns = step_model(m, e).streams;
                assert forall|i: int| 0 <= i < ns.len() implies (#[trigger] ns[i]).stream_type
                    == StreamType::Pending by {
                    if i < m.streams.len() {
                        assert(ns[i] == m.streams[i]);
                    }
                }
            }
        },
        ProtocolEvent::AppendRows { name, rows } => {
            if spec_append_err(m, name) is None {
                let i = stream_index(m.streams, name);
                lemma_stream_index_props(m.streams, name);
                let s = m.streams[i];
                assert(s.stream_type == StreamType::Pending);
                let s2 = StreamModel { buffered: s.buffered + rows, ..s };
                lemma_visible_rows_update_same(m.streams, i, s2, table);
                let ns = step_model(m, e).streams;
                assert forall|k: int| 0 <= k < ns.len() implies (#[trigger] ns[k]).stream_type
                    == StreamType::Pending by {
                    assert(m.streams[k].stream_type == StreamType::Pending);
                }
            }
        },
        ProtocolEvent::FinalizeStream { name } => {
            if spec_finalize_err(m, name) is None {
                let i = stream_index(m.streams, name);
                lemma_stream_index_props(m.streams, name);
                let s = m.streams[i];
                let s2 = StreamModel { finalized: true, ..s };
                lemma_visible_rows_update_same(m.streams, i, s2, table);
                let ns = step_model(m, e).streams;
                assert forall|k: int| 0 <= k < ns.len() implies (#[trigger] ns[k]).stream_type
                    == StreamType::Pending by {
                    assert(m.streams[k].stream_type == StreamType::Pending);
                }
            }
        },
        ProtocolEvent::CommitStreams { .. } => {
            assert(false);
        },
    }
}

/// For all streams of type pending, appended rows are not visible in the
/// table until a commit: any run of creates (of pending streams), appends
/// and finalizes — with no commit — leaves every table's visible rows
/// exactly as they were, however many rows were appended or streams
/// finalized in between.
pub proof fn lemma_pending_rows_invisible_before_commit(
    m: ServiceModel,
    es: Seq<ProtocolEvent>,
    table: Seq<char>,
)
    requires
        all_pending(m.streams),
        pending_events_without_commit(es),
    ensures
        all_pending(run_model(m, es).streams),
        visible_rows_of(run_model(m, es).streams, table) == visible_rows_of(m.streams, table),
    decreases es.len(),
{
    if es.len() > 0 {
        lemma_step_preserves_visible(m, es[0], table);
        assert forall|k: int| 0 <= k < es.skip(1).len() implies match #[trigger] es.skip(1)[k] {
            ProtocolEvent::CreateStream { stream_type, .. } => stream_type
                == StreamType::Pending,
            ProtocolEvent::CommitStreams { .. } => false,
            _ => true,
        } by {
            assert(es.skip(1)[k] == es[k + 1]);
        }
        lemma_pending_rows_invisible_before_commit(step_model(m, es[0]), es.skip(1), table);
    }
}

/// The other half of the pending ordering: once a pending stream is
/// finalized, committing it succeeds and moves exactly its buffered rows
/// across the visibility boundary.
pub proof fn lemma_commit_reveals_buffered_rows(streams: Seq<StreamModel>, name: Seq<char>)
    requires
        stream_index(streams, name) >= 0,
        streams[stream_index(streams, name)].stream_type == StreamType::Pending,
        streams[stream_index(streams, name)].finalized,
        !streams[stream_index(streams, name)].committed,
    ensures
        commit_one_err(streams, name) is None,
        commit_one_state(streams, name)[stream_index(streams, name)].visible == streams[
            stream_index(streams, name)].visible + streams[stream_index(streams, name)].buffered,
        commit_one_state(streams, name)[stream_index(streams, name)].buffered == Seq::<
            Seq<u8>,
        >::empty(),
    decreases streams.len(),
{
    lemma_stream_index_props(streams, name);
}

/// A run of accepted appends on a pending stream buffers exactly the
/// appended rows, in submission order, and changes nothing else: not the
/// stream's visible rows, not its lifecycle marks, and no other stream.
/// Together with `lemma_pending_rows_invisible_before_commit` and
/// `lemma_commit_reveals_buffered_rows` this pins the pending ordering down:
/// the rows wait, invisible, until finalize and commit move all of them
/// across at once.
pub proof fn lemma_pending_appends_buffer_exactly(
    m: ServiceModel,
    name: Seq<char>,
    batches: Seq<Seq<Seq<u8>>>,
)
    requires
        spec_append_err(m, name) is None,
        m.streams[stream_index(m.streams, name)].stream_type == StreamType::Pending,
    ensures
        ({
            let i = stream_index(m.streams, name);
            let post = spec_append_all(m, name, batches);
            &&& post.streams.len() == m.streams.len()
            &&& stream_index(post.streams, name) == i
            &&& post.streams[i].buffered == m.streams[i].buffered + batches.flatten()
            &&& post.streams[i].visible == m.streams[i].visible
            &&& post.streams[i].stream_type == StreamType::Pending
            &&& post.streams[i].finalized == m.streams[i].finalized
            &&& post.streams[i].committed == m.streams[i].committed
            &&& post.streams[i].parent == m.streams[i].parent
            &&& (forall|j: int|
                0 <= j < m.streams.len() && j != i ==> post.streams[j] == m.streams[j])
        }),
    decreases batches.len(),
{
    let i = stream_index(m.streams, name);
    lemma_stream_index_props(m.streams, name);
    if batches.len() == 0 {
        assert(batches.flatten() =~= Seq::<Seq<u8>>::empty());
        assert(m.streams[i].buffered + batches.flatten() =~= m.streams[i].buffered);
    } else {
        let m1 = spec_append(m, name, batches[0]);
        lemma_spec_append_frame(m, name, batches[0], name);
        lemma_pending_appends_buffer_exactly(m1, name, batches.skip(1));
        let post = spec_append_all(m, name, batches);
        assert(batches.drop_first() =~= batches.skip(1));
        assert(batches.flatten() == batches[0] + batches.skip(1).flatten());
        assert((m.streams[i].buffered + batches[0]) + batches.skip(1).flatten() =~= m.streams[
            i].buffered + (batches[0] + batches.skip(1).flatten()));
    }
}

/// For streams of type default or committed, appended rows are visible
/// immediately after the acknowledged append itself, with no finalize and no
/// commit: the accepted append moves them straight into the stream's visible
/// rows and buffers nothing.
pub proof fn lemma_append_immediately_visible(m: ServiceModel, name: Seq<char>, rows: Seq<Seq<u8>>)
    requires
        spec_append_err(m, name) is None,
        m.streams[stream_index(m.streams, name)].stream_type != StreamType::Pending,
    ensures
        spec_append(m, name, rows).streams[stream_index(m.streams, name)].visible == m.streams[
            stream_index(m.streams, name)].visible + rows,
        spec_append(m, name, rows).streams[stream_index(m.streams, name)].buffered == m.streams[
            stream_index(m.streams, name)].buffered,
{
    lemma_stream_index_props(m.streams, name);
}

/// For any sequence of N append batches submitted on one stream handle, the
/// acknowledgements arrive in submission order: acknowledgement q carries
/// the offset batch q was stamped with, and the offsets grow strictly along
/// the sequence.
pub proof fn lemma_acks_in_submission_order(
    reqs: Seq<AppendRowsRequest>,
    acks: Seq<AppendRowsResponse>,
    first: u64,
)
    requires
        reqs.len() >= 1,
        acks.len() == reqs.len(),
        forall|q: int| 0 <= q < reqs.len() ==> (#[trigger] reqs[q]).offset == first + q,
        forall|q: int| 0 <= q < acks.len() ==> (#[trigger] acks[q]).offset == reqs[q].offset,
    ensures
        forall|q: int| 0 <= q < acks.len() ==> (#[trigger] acks[q]).offset == first + q,
        forall|p: int, q: int|
            0 <= p < q < acks.len() ==> (#[trigger] acks[p]).offset < (#[trigger] acks[q]).offset,
{
}

/// Committing a set of K stream names yields an error list index-aligned
/// with the K names; when the names are distinct, each entry is decided by
/// its own stream's prior state alone, so one name's failure neither
/// prevents nor alters the outcome reported for the others.
pub proof fn lemma_commit_errors_aligned_and_independent(
    streams: Seq<StreamModel>,
    names: Seq<Seq<char>>,
)
    requires
        forall|p: int, q: int| 0 <= p < q < names.len() ==> names[p] != names[q],
    ensures
        spec_commit(streams, names).1.len() == names.len(),
        forall|q: int|
            0 <= q < names.len() ==> spec_commit(streams, names).1[q] == commit_one_err(
                streams,
                #[trigger] names[q],
            ),
    decreases names.len(),
{
    lemma_spec_commit_len(streams, names);
    if names.len() > 0 {
        let s1 = commit_one_state(streams, names[0]);
        assert forall|p: int, q: int| 0 <= p < q < names.skip(1).len() implies names.skip(1)[p]
            != names.skip(1)[q] by {
            assert(names.skip(1)[p] == names[p + 1]);
            assert(names.skip(1)[q] == names[q + 1]);
        }
        lemma_commit_errors_aligned_and_independent(s1, names.skip(1));
        lemma_spec_commit_len(s1, names.skip(1));
        assert forall|q: int| 0 <= q < names.len() implies spec_commit(streams, names).1[q]
            == commit_one_err(streams, names[q]) by {
            if q > 0 {
                assert(spec_commit(streams, names).1[q] == spec_commit(s1, names.skip(1)).1[q - 1]);
                assert(names.skip(1)[q - 1] == names[q]);
                assert(spec_commit(s1, names.skip(1)).1[q - 1] == commit_one_err(s1, names[q]));
                lemma_commit_one_frame(streams, names[0], names[q]);
            }
        }
    }
}

} // verus!
