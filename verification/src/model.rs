//! Mathematical model of the service-side stream state.
//!
//! The service holds a sequence of write streams, each with a name, a parent
//! table, a fixed type, buffered rows (appended but not yet visible) and
//! visible rows.  The spec functions here are the transitions of the
//! protocol: creating a stream, appending a batch, finalizing a stream, and
//! committing a set of named streams.  The executable
//! [`crate::service::StorageService`] is verified against these transitions,
//! and the lifecycle laws in [`crate::laws`] are proved over them.

use vstd::prelude::*;

use crate::types::CommitError;
use crate::types::Status;
use crate::types::StreamType;

verus! {

/// State of one server-side write stream.
pub struct StreamModel {
    /// Server-assigned, unique within the service.
    pub name: Seq<char>,
    /// The table the stream writes into.
    pub parent: Seq<char>,
    /// Visibility policy, fixed at creation.
    pub stream_type: StreamType,
    /// Rows appended but not yet visible: pending streams buffer rows here
    /// until they are committed.
    pub buffered: Seq<Seq<u8>>,
    /// Rows visible in the parent table through this stream.
    pub visible: Seq<Seq<u8>>,
    pub finalized: bool,
    pub committed: bool,
}

/// State of the whole service: its streams and the counter its fresh stream
/// names are drawn from.
pub struct ServiceModel {
    pub streams: Seq<StreamModel>,
    pub next_id: nat,
}

/// Index of the first stream named `name`, or -1 when there is none.
pub open spec fn stream_index(streams: Seq<StreamModel>, name: Seq<char>) -> int
    decreases streams.len(),
{
    if streams.len() == 0 {
        -1
    } else if streams[0].name == name {
        0
    } else {
        let rest = stream_index(streams.skip(1), name);
        if rest == -1 {
            -1
        } else {
            rest + 1
        }
    }
}

pub proof fn lemma_stream_index_props(streams: Seq<StreamModel>, name: Seq<char>)
    ensures
        -1 <= stream_index(streams, name) < streams.len(),
        stream_index(streams, name) >= 0 ==> streams[stream_index(streams, name)].name == name,
        stream_index(streams, name) == -1 ==> forall|j: int|
            0 <= j < streams.len() ==> (#[trigger] streams[j]).name != name,
        forall|j: int| 0 <= j < stream_index(streams, name) ==> (#[trigger] streams[j]).name != name,
    decreases streams.len(),
{
    if streams.len() > 0 && streams[0].name != name {
        lemma_stream_index_props(streams.skip(1), name);
        assert(forall|j: int|
            1 <= j < streams.len() ==> (#[trigger] streams[j]) == streams.skip(1)[j - 1]);
    }
}

/// The stream found by a forward search that matched at `k` after ruling
/// out every earlier index is the stream `stream_index` names.
pub proof fn lemma_stream_index_first(streams: Seq<StreamModel>, name: Seq<char>, k: int)
    requires
        0 <= k < streams.len(),
        streams[k].name == name,
        forall|j: int| 0 <= j < k ==> (#[trigger] streams[j]).name != name,
    ensures
        stream_index(streams, name) == k,
{
    lemma_stream_index_props(streams, name);
}

/// Replacing a stream without changing its name leaves every lookup as it
/// was.
pub proof fn lemma_stream_index_update(
    streams: Seq<StreamModel>,
    i: int,
    s: StreamModel,
    name: Seq<char>,
)
    requires
        0 <= i < streams.len(),
        s.name == streams[i].name,
    ensures
        stream_index(streams.update(i, s), name) == stream_index(streams, name),
    decreases streams.len(),
{
    if i == 0 {
        assert(streams.update(0, s).skip(1) =~= streams.skip(1));
    } else {
        assert(streams.update(i, s).skip(1) =~= streams.skip(1).update(i - 1, s));
        lemma_stream_index_update(streams.skip(1), i - 1, s, name);
    }
}

/// Internal consistency of one stream: rows sit on exactly one side of the
/// visibility boundary for its type and phase, and only finalized streams
/// are committed.
pub open spec fn stream_wf(s: StreamModel) -> bool {
    &&& (s.stream_type != StreamType::Pending ==> s.buffered.len() == 0)
    &&& (s.stream_type != StreamType::Pending ==> !s.committed)
    &&& (s.stream_type == StreamType::Default ==> !s.finalized)
    &&& (s.stream_type == StreamType::Pending && !s.committed ==> s.visible.len() == 0)
    &&& (s.committed ==> s.finalized)
}

/// Service invariant: stream names are unique and every stream is
/// internally consistent.
pub open spec fn service_wf(m: ServiceModel) -> bool {
    &&& (forall|i: int, j: int|
        0 <= i < j < m.streams.len() ==> (#[trigger] m.streams[i]).name != (
        #[trigger] m.streams[j]).name)
    &&& (forall|i: int| 0 <= i < m.streams.len() ==> stream_wf(#[trigger] m.streams[i]))
}

/// The character for one decimal digit.
pub open spec fn digit_char(d: nat) -> char {
    if d == 0 {
        '0'
    } else if d == 1 {
        '1'
    } else if d == 2 {
        '2'
    } else if d == 3 {
        '3'
    } else if d == 4 {
        '4'
    } else if d == 5 {
        '5'
    } else if d == 6 {
        '6'
    } else if d == 7 {
        '7'
    } else if d == 8 {
        '8'
    } else {
        '9'
    }
}

/// Decimal rendering of a number, most significant digit first.
pub open spec fn dec_seq(n: nat) -> Seq<char>
    decreases n,
{
    if n < 10 {
        seq![digit_char(n)]
    } else {
        dec_seq(n / 10).push(digit_char(n % 10))
    }
}

/// The name the service assigns to the stream created while its counter
/// stands at `id`.
pub open spec fn stream_name_spec(id: nat) -> Seq<char> {
    "streams/"@ + dec_seq(id)
}

/// A freshly created stream: empty on both sides of the visibility
/// boundary, neither finalized nor committed.
pub open spec fn new_stream_model(
    name: Seq<char>,
    parent: Seq<char>,
    stream_type: StreamType,
) -> StreamModel {
    StreamModel {
        name,
        parent,
        stream_type,
        buffered: Seq::empty(),
        visible: Seq::empty(),
        finalized: false,
        committed: false,
    }
}

/// Creation succeeds exactly when the name the counter yields is fresh.
pub open spec fn create_ok(m: ServiceModel) -> bool {
    stream_index(m.streams, stream_name_spec(m.next_id)) == -1
}

/// Creating a stream appends it, empty, and advances the name counter.
pub open spec fn spec_create(
    m: ServiceModel,
    parent: Seq<char>,
    stream_type: StreamType,
) -> ServiceModel {
    if create_ok(m) {
        ServiceModel {
            streams: m.streams.push(
                new_stream_model(stream_name_spec(m.next_id), parent, stream_type),
            ),
            next_id: m.next_id + 1,
        }
    } else {
        m
    }
}

/// Why an append to `name` fails, or `None` when it is accepted.
pub open spec fn spec_append_err(m: ServiceModel, name: Seq<char>) -> Option<Status> {
    let i = stream_index(m.streams, name);
    if i == -1 {
        Some(Status::StreamNotFound)
    } else if m.streams[i].finalized {
        Some(Status::AppendAfterFinalize)
    } else {
        None
    }
}

/// An accepted append buffers the rows on a pending stream and makes them
/// visible at once on any other; a rejected one changes nothing.
pub open spec fn spec_append(m: ServiceModel, name: Seq<char>, rows: Seq<Seq<u8>>) -> ServiceModel {
    if spec_append_err(m, name) is None {
        let i = stream_index(m.streams, name);
        let s = m.streams[i];
        let s2 = if s.stream_type == StreamType::Pending {
            StreamModel { buffered: s.buffered + rows, ..s }
        } else {
            StreamModel { visible: s.visible + rows, ..s }
        };
        ServiceModel { streams: m.streams.update(i, s2), ..m }
    } else {
        m
    }
}

/// A whole sequence of append batches on one stream, in submission order.
pub open spec fn spec_append_all(
    m: ServiceModel,
    name: Seq<char>,
    batches: Seq<Seq<Seq<u8>>>,
) -> ServiceModel
    decreases batches.len(),
{
    if batches.len() == 0 {
        m
    } else {
        spec_append_all(spec_append(m, name, batches[0]), name, batches.skip(1))
    }
}

/// An append moves no lookups and decides nothing anew: whether a later
/// append is accepted does not change.
pub proof fn lemma_spec_append_frame(
    m: ServiceModel,
    name: Seq<char>,
    rows: Seq<Seq<u8>>,
    n: Seq<char>,
)
    ensures
        stream_index(spec_append(m, name, rows).streams, n) == stream_index(m.streams, n),
        spec_append(m, name, rows).next_id == m.next_id,
        spec_append_err(spec_append(m, name, rows), n) == spec_append_err(m, n),
{
    if spec_append_err(m, name) is None {
        let i = stream_index(m.streams, name);
        lemma_stream_index_props(m.streams, name);
        lemma_stream_index_props(m.streams, n);
        let s = m.streams[i];
        let s2 = if s.stream_type == StreamType::Pending {
            StreamModel { buffered: s.buffered + rows, ..s }
        } else {
            StreamModel { visible: s.visible + rows, ..s }
        };
        lemma_stream_index_update(m.streams, i, s2, n);
    }
}

/// Unfolds a batch sequence of appends at its last batch.
pub proof fn lemma_spec_append_all_push(
    m: ServiceModel,
    name: Seq<char>,
    batches: Seq<Seq<Seq<u8>>>,
    b: Seq<Seq<u8>>,
)
    ensures
        spec_append_all(m, name, batches.push(b)) == spec_append(
            spec_append_all(m, name, batches),
            name,
            b,
        ),
    decreases batches.len(),
{
    if batches.len() == 0 {
        assert(batches.push(b)[0] == b);
        assert(batches.push(b).skip(1) =~= Seq::<Seq<Seq<u8>>>::empty());
        assert(spec_append_all(spec_append(m, name, b), name, Seq::<Seq<Seq<u8>>>::empty())
            == spec_append(m, name, b));
        assert(spec_append_all(m, name, Seq::<Seq<Seq<u8>>>::empty()) == m);
    } else {
        assert(batches.push(b)[0] == batches[0]);
        assert(batches.push(b).skip(1) =~= batches.skip(1).push(b));
        lemma_spec_append_all_push(spec_append(m, name, batches[0]), name, batches.skip(1), b);
    }
}

/// Why a finalize of `name` fails, or `None` when it is accepted.
pub open spec fn spec_finalize_err(m: ServiceModel, name: Seq<char>) -> Option<Status> {
    let i = stream_index(m.streams, name);
    if i == -1 {
        Some(Status::StreamNotFound)
    } else if m.streams[i].stream_type == StreamType::Default {
        Some(Status::FinalizeNotSupported)
    } else if m.streams[i].finalized {
        Some(Status::AlreadyFinalized)
    } else {
        None
    }
}

/// An accepted finalize marks the stream; nothing crosses the visibility
/// boundary.
pub open spec fn spec_finalize(m: ServiceModel, name: Seq<char>) -> ServiceModel {
    if spec_finalize_err(m, name) is None {
        let i = stream_index(m.streams, name);
        let s = m.streams[i];
        ServiceModel { streams: m.streams.update(i, StreamModel { finalized: true, ..s }), ..m }
    } else {
        m
    }
}

/// The row count a finalize reports: every row the stream holds, on either
/// side of the visibility boundary.
pub open spec fn spec_finalize_row_count(m: ServiceModel, name: Seq<char>) -> nat {
    let s = m.streams[stream_index(m.streams, name)];
    s.buffered.len() + s.visible.len()
}

/// Why one stream of a batch commit is not committed, or `None` when it is.
pub open spec fn commit_one_err(streams: Seq<StreamModel>, name: Seq<char>) -> Option<CommitError> {
    let i = stream_index(streams, name);
    if i == -1 {
        Some(CommitError::StreamNotFound)
    } else if streams[i].stream_type != StreamType::Pending {
        Some(CommitError::NotPending)
    } else if streams[i].committed {
        Some(CommitError::AlreadyCommitted)
    } else if !streams[i].finalized {
        Some(CommitError::NotFinalized)
    } else {
        None
    }
}

/// Committing one stream moves its buffered rows across the visibility
/// boundary; a failed entry changes nothing.
pub open spec fn commit_one_state(streams: Seq<StreamModel>, name: Seq<char>) -> Seq<StreamModel> {
    if commit_one_err(streams, name) is None {
        let i = stream_index(streams, name);
        let s = streams[i];
        streams.update(
            i,
            StreamModel {
                visible: s.visible + s.buffered,
                buffered: Seq::empty(),
                committed: true,
                ..s
            },
        )
    } else {
        streams
    }
}

/// A batch commit processes its names in order.  The error list is
/// index-aligned with the names; an entry that fails leaves its stream as it
/// was and the remaining entries are still processed.
pub open spec fn spec_commit(streams: Seq<StreamModel>, names: Seq<Seq<char>>) -> (
    Seq<StreamModel>,
    Seq<Option<CommitError>>,
)
    decreases names.len(),
{
    if names.len() == 0 {
        (streams, Seq::empty())
    } else {
        let e = commit_one_err(streams, names[0]);
        let s1 = commit_one_state(streams, names[0]);
        let r = spec_commit(s1, names.skip(1));
        (r.0, seq![e] + r.1)
    }
}

/// Unfolds a batch commit at its last name.
pub proof fn lemma_spec_commit_push(
    streams: Seq<StreamModel>,
    names: Seq<Seq<char>>,
    name: Seq<char>,
)
    ensures
        spec_commit(streams, names.push(name)).0 == commit_one_state(
            spec_commit(streams, names).0,
            name,
        ),
        spec_commit(streams, names.push(name)).1 == spec_commit(streams, names).1.push(
            commit_one_err(spec_commit(streams, names).0, name),
        ),
    decreases names.len(),
{
    let whole = spec_commit(streams, names.push(name));
    let pre = spec_commit(streams, names);
    if names.len() == 0 {
        let e = commit_one_err(streams, name);
        let s1 = commit_one_state(streams, name);
        assert(names.push(name)[0] == name);
        assert(names.push(name).skip(1) =~= Seq::<Seq<char>>::empty());
        assert(spec_commit(s1, Seq::<Seq<char>>::empty()).0 == s1);
        assert(spec_commit(s1, Seq::<Seq<char>>::empty()).1 == Seq::<Option<CommitError>>::empty());
        assert(whole.1 =~= seq![e]);
        assert(pre.1.push(e) =~= seq![e]);
    } else {
        let e0 = commit_one_err(streams, names[0]);
        let s1 = commit_one_state(streams, names[0]);
        assert(names.push(name)[0] == names[0]);
        assert(names.push(name).skip(1) =~= names.skip(1).push(name));
        lemma_spec_commit_push(s1, names.skip(1), name);
        let rec = spec_commit(s1, names.skip(1));
        assert(whole.0 == spec_commit(s1, names.skip(1).push(name)).0);
        assert(spec_commit(s1, names.skip(1).push(name)).0 == commit_one_state(rec.0, name));
        assert(pre.0 == rec.0);
        assert(whole.1 == seq![e0] + spec_commit(s1, names.skip(1).push(name)).1);
        assert(spec_commit(s1, names.skip(1).push(name)).1 == rec.1.push(
            commit_one_err(rec.0, name),
        ));
        assert(pre.1 == seq![e0] + rec.1);
        assert(seq![e0] + rec.1.push(commit_one_err(rec.0, name)) =~= (seq![e0] + rec.1).push(
            commit_one_err(rec.0, name),
        ));
    }
}

/// The error list of a batch commit always has one entry per name.
pub proof fn lemma_spec_commit_len(streams: Seq<StreamModel>, names: Seq<Seq<char>>)
    ensures
        spec_commit(streams, names).1.len() == names.len(),
    decreases names.len(),
{
    if names.len() > 0 {
        lemma_spec_commit_len(commit_one_state(streams, names[0]), names.skip(1));
    }
}

/// Committing one name never moves lookups, and leaves every stream of a
/// different name untouched.
pub proof fn lemma_commit_one_frame(streams: Seq<StreamModel>, name: Seq<char>, n: Seq<char>)
    ensures
        stream_index(commit_one_state(streams, name), n) == stream_index(streams, n),
        n != name && stream_index(streams, n) >= 0 ==> commit_one_state(streams, name)[stream_index(
            streams,
            n,
        )] == streams[stream_index(streams, n)],
        n != name ==> commit_one_err(commit_one_state(streams, name), n) == commit_one_err(
            streams,
            n,
        ),
{
    lemma_stream_index_props(streams, name);
    lemma_stream_index_props(streams, n);
    if commit_one_err(streams, name) is None {
        let i = stream_index(streams, name);
        let s = streams[i];
        let s2 = StreamModel {
            visible: s.visible + s.buffered,
            buffered: Seq::empty(),
            committed: true,
            ..s
        };
        lemma_stream_index_update(streams, i, s2, n);
        lemma_stream_index_update(streams, i, s2, name);
    }
}

/// The service invariant survives replacing one stream by a consistent
/// stream of the same name.
pub proof fn lemma_service_wf_update(m: ServiceModel, i: int, s: StreamModel, m2: ServiceModel)
    requires
        service_wf(m),
        0 <= i < m.streams.len(),
        s.name == m.streams[i].name,
        stream_wf(s),
        m2.streams == m.streams.update(i, s),
    ensures
        service_wf(m2),
{
    assert forall|a: int, b: int| 0 <= a < b < m2.streams.len() implies (
    #[trigger] m2.streams[a]).name != (#[trigger] m2.streams[b]).name by {
        assert(m.streams[a].name != m.streams[b].name);
    }
}

/// The service invariant survives adding a consistent stream under a fresh
/// name.
pub proof fn lemma_service_wf_push(m: ServiceModel, s: StreamModel, m2: ServiceModel)
    requires
        service_wf(m),
        stream_wf(s),
        stream_index(m.streams, s.name) == -1,
        m2.streams == m.streams.push(s),
    ensures
        service_wf(m2),
{
    lemma_stream_index_props(m.streams, s.name);
    assert forall|a: int, b: int| 0 <= a < b < m2.streams.len() implies (
    #[trigger] m2.streams[a]).name != (#[trigger] m2.streams[b]).name by {
        if b < m.streams.len() {
            assert(m.streams[a].name != m.streams[b].name);
        } else {
            assert(m2.streams[b] == s);
            assert(m.streams[a].name != s.name);
        }
    }
}

/// The rows visible in `table`: the concatenation, in stream order, of each
/// of its streams' visible rows.
pub open spec fn visible_rows_of(streams: Seq<StreamModel>, table: Seq<char>) -> Seq<Seq<u8>>
    decreases streams.len(),
{
    if streams.len() == 0 {
        Seq::empty()
    } else {
        (if streams[0].parent == table {
            streams[0].visible
        } else {
            Seq::empty()
        }) + visible_rows_of(streams.skip(1), table)
    }
}

/// A new stream contributes its visible rows at the end of its table.
pub proof fn lemma_visible_rows_push(streams: Seq<StreamModel>, s: StreamModel, table: Seq<char>)
    ensures
        visible_rows_of(streams.push(s), table) == visible_rows_of(streams, table) + (
        if s.parent == table {
            s.visible
        } else {
            Seq::<Seq<u8>>::empty()
        }),
    decreases streams.len(),
{
    let tail = if s.parent == table {
        s.visible
    } else {
        Seq::<Seq<u8>>::empty()
    };
    if streams.len() == 0 {
        assert(streams.push(s).skip(1) =~= Seq::<StreamModel>::empty());
        assert(visible_rows_of(Seq::<StreamModel>::empty(), table) == Seq::<Seq<u8>>::empty());
        assert(streams.push(s)[0] == s);
        assert(visible_rows_of(streams.push(s), table) =~= tail);
        assert(visible_rows_of(streams, table) + tail =~= tail);
    } else {
        assert(streams.push(s).skip(1) =~= streams.skip(1).push(s));
        lemma_visible_rows_push(streams.skip(1), s, table);
        assert(streams.push(s)[0] == streams[0]);
        let head = if streams[0].parent == table {
            streams[0].visible
        } else {
            Seq::<Seq<u8>>::empty()
        };
        assert(visible_rows_of(streams.push(s), table) == head + (visible_rows_of(
            streams.skip(1),
            table,
        ) + tail));
        assert(head + (visible_rows_of(streams.skip(1), table) + tail) =~= (head + visible_rows_of(
            streams.skip(1),
            table,
        )) + tail);
    }
}

/// Replacing a stream without changing its parent or its visible rows
/// changes no table's visible rows.
pub proof fn lemma_visible_rows_update_same(
    streams: Seq<StreamModel>,
    i: int,
    s: StreamModel,
    table: Seq<char>,
)
    requires
        0 <= i < streams.len(),
        s.parent == streams[i].parent,
        s.visible == streams[i].visible,
    ensures
        visible_rows_of(streams.update(i, s), table) == visible_rows_of(streams, table),
    decreases streams.len(),
{
    if i == 0 {
        assert(streams.update(0, s).skip(1) =~= streams.skip(1));
    } else {
        assert(streams.update(i, s).skip(1) =~= streams.skip(1).update(i - 1, s));
        lemma_visible_rows_update_same(streams.skip(1), i - 1, s, table);
    }
}

} // verus!
