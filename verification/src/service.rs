//! Executable model of the storage service's stream-lifecycle semantics.
//!
//! [`StorageService`] keeps the streams that were opened against it, each
//! with its buffered and visible rows, and answers the four protocol
//! requests.  Every operation is verified against the spec transitions of
//! [`crate::model`], so the visibility rules of the three stream types —
//! pending rows stay buffered until commit, default and committed rows are
//! visible on acknowledgement — hold of every run.  Tests drive the writers
//! and handles against this service in place of a remote endpoint.

use vstd::prelude::*;
use vstd::string::StringExecFns;

use crate::model::commit_one_err;
use crate::model::commit_one_state;
use crate::model::create_ok;
use crate::model::dec_seq;
use crate::model::digit_char;
use crate::model::lemma_service_wf_push;
use crate::model::lemma_service_wf_update;
use crate::model::lemma_spec_commit_push;
use crate::model::lemma_stream_index_first;
use crate::model::lemma_stream_index_props;
use crate::model::lemma_visible_rows_push;
use crate::model::new_stream_model;
use crate::model::service_wf;
use crate::model::spec_append;
use crate::model::spec_append_err;
use crate::model::spec_commit;
use crate::model::spec_create;
use crate::model::spec_finalize;
use crate::model::spec_finalize_err;
use crate::model::spec_finalize_row_count;
use crate::model::stream_index;
use crate::model::stream_name_spec;
use crate::model::visible_rows_of;
use crate::model::ServiceModel;
use crate::model::StreamModel;
use crate::types::AppendRowsRequest;
use crate::types::AppendRowsResponse;
use crate::types::BatchCommitWriteStreamsRequest;
use crate::types::BatchCommitWriteStreamsResponse;
use crate::types::CommitError;
use crate::types::CreateWriteStreamRequest;
use crate::types::FinalizeWriteStreamRequest;
use crate::types::FinalizeWriteStreamResponse;
use crate::types::Status;
use crate::types::StreamType;
use crate::types::WriteStream;

verus! {

broadcast use vstd::std_specs::vec::vec_clone_deep_view_proof;

/// The string for one decimal digit.
fn digit_str(d: u64) -> (r: &'static str)
    requires
        d < 10,
    ensures
        r@ == seq![digit_char(d as nat)],
{
    proof {
        reveal_strlit("0");
        reveal_strlit("1");
        reveal_strlit("2");
        reveal_strlit("3");
        reveal_strlit("4");
        reveal_strlit("5");
        reveal_strlit("6");
        reveal_strlit("7");
        reveal_strlit("8");
        reveal_strlit("9");
    }
    let r: &'static str = if d == 0 {
        "0"
    } else if d == 1 {
        "1"
    } else if d == 2 {
        "2"
    } else if d == 3 {
        "3"
    } else if d == 4 {
        "4"
    } else if d == 5 {
        "5"
    } else if d == 6 {
        "6"
    } else if d == 7 {
        "7"
    } else if d == 8 {
        "8"
    } else {
        "9"
    };
    proof {
        assert(r@ =~= seq![digit_char(d as nat)]);
    }
    r
}

/// Decimal rendering of a number.
fn u64_to_dec(n: u64) -> (r: String)
    ensures
        r@ == dec_seq(n as nat),
    decreases n,
{
    if n < 10 {
        digit_str(n).to_owned()
    } else {
        let mut s = u64_to_dec(n / 10);
        s.append(digit_str(n % 10));
        proof {
            assert(dec_seq((n as nat) / 10).push(digit_char((n as nat) % 10)) =~= dec_seq(
                (n as nat) / 10,
            ) + seq![digit_char((n as nat) % 10)]);
        }
        s
    }
}

/// The name the service assigns to the stream created at counter `id`.
fn stream_name_string(id: u64) -> (r: String)
    ensures
        r@ == stream_name_spec(id as nat),
{
    let mut s = "streams/".to_owned();
    let digits = u64_to_dec(id);
    s.append(digits.as_str());
    s
}

/// One write stream as the service holds it.
pub struct ServerStream {
    pub name: String,
    pub parent: String,
    pub stream_type: StreamType,
    pub buffered: Vec<Vec<u8>>,
    pub visible: Vec<Vec<u8>>,
    pub finalized: bool,
    pub committed: bool,
}

impl View for ServerStream {
    type V = StreamModel;

    open spec fn view(&self) -> StreamModel {
        StreamModel {
            name: self.name@,
            parent: self.parent@,
            stream_type: self.stream_type,
            buffered: self.buffered.deep_view(),
            visible: self.visible.deep_view(),
            finalized: self.finalized,
            committed: self.committed,
        }
    }
}

/// The service: its streams, and the counter fresh stream names are drawn
/// from.
pub struct StorageService {
    streams: Vec<ServerStream>,
    next_id: u64,
}

impl View for StorageService {
    type V = ServiceModel;

    closed spec fn view(&self) -> ServiceModel {
        ServiceModel {
            streams: self.streams@.map_values(|s: ServerStream| s@),
            next_id: self.next_id as nat,
        }
    }
}

impl StorageService {
    /// A service with no streams.
    pub fn new() -> (r: StorageService)
        ensures
            r@.streams == Seq::<StreamModel>::empty(),
            r@.next_id == 0,
            service_wf(r@),
    {
        let r = StorageService { streams: Vec::new(), next_id: 0 };
        proof {
            assert(r@.streams =~= Seq::<StreamModel>::empty());
        }
        r
    }

    /// Index of the stream named `name`, if the service holds one.
    fn find_index(&self, name: &String) -> (r: Option<usize>)
        ensures
            match r {
                Some(i) => stream_index(self@.streams, name@) == i && i < self@.streams.len(),
                None => stream_index(self@.streams, name@) == -1,
            },
    {
        let mut i: usize = 0;
        while i < self.streams.len()
            invariant
                i <= self.streams.len(),
                forall|j: int| 0 <= j < i ==> (#[trigger] self@.streams[j]).name != name@,
            decreases self.streams.len() - i,
        {
            if self.streams[i].name == *name {
                proof {
                    lemma_stream_index_first(self@.streams, name@, i as int);
                }
                return Some(i);
            }
            i = i + 1;
        }
        proof {
            lemma_stream_index_props(self@.streams, name@);
        }
        None
    }

    /// Opens a new write stream of the requested type against the requested
    /// parent table.  The server assigns the name; creation fails only when
    /// the assigned name is not fresh.
    pub fn create_write_stream(&mut self, req: CreateWriteStreamRequest) -> (r: Result<
        WriteStream,
        Status,
    >)
        requires
            service_wf(old(self)@),
            old(self)@.next_id < u64::MAX,
        ensures
            service_wf(final(self)@),
            final(self)@ == spec_create(old(self)@, req.parent@, req.stream_type),
            create_ok(old(self)@) ==> (r matches Ok(ws) && ws.name@ == stream_name_spec(
                old(self)@.next_id,
            ) && ws.stream_type == req.stream_type),
            !create_ok(old(self)@) ==> (r matches Err(e) && e == Status::NameCollision),
    {
        let name = stream_name_string(self.next_id);
        match self.find_index(&name) {
            Some(_) => Err(Status::NameCollision),
            None => {
                let ws = WriteStream { name: name.clone(), stream_type: req.stream_type };
                let entry = ServerStream {
                    name,
                    parent: req.parent,
                    stream_type: req.stream_type,
                    buffered: Vec::new(),
                    visible: Vec::new(),
                    finalized: false,
                    committed: false,
                };
                proof {
                    assert(entry@.buffered =~= Seq::<Seq<u8>>::empty());
                    assert(entry@.visible =~= Seq::<Seq<u8>>::empty());
                }
                let ghost pre = self@;
                self.streams.push(entry);
                self.next_id = self.next_id + 1;
                proof {
                    assert(self@.streams =~= pre.streams.push(entry@));
                    assert(entry@ == new_stream_model(
                        stream_name_spec(pre.next_id),
                        req.parent@,
                        req.stream_type,
                    ));
                    lemma_service_wf_push(pre, entry@, self@);
                }
                Ok(ws)
            },
        }
    }

    /// Accepts one append batch for the named stream.  On a pending stream
    /// the rows are buffered; on a default or committed stream they become
    /// visible at once.  The acknowledgement echoes the batch's offset and
    /// carries its (empty) per-row error list.
    pub fn append_rows(&mut self, req: AppendRowsRequest) -> (r: Result<AppendRowsResponse, Status>)
        requires
            service_wf(old(self)@),
        ensures
            service_wf(final(self)@),
            final(self)@ == spec_append(old(self)@, req.write_stream@, req.rows.deep_view()),
            spec_append_err(old(self)@, req.write_stream@) is None ==> (r matches Ok(ack)
                && ack.offset == req.offset && ack.row_errors@.len() == 0),
            spec_append_err(old(self)@, req.write_stream@) matches Some(e) ==> (r matches Err(e2)
                && e2 == e),
    {
        proof {
            lemma_stream_index_props(old(self)@.streams, req.write_stream@);
        }
        match self.find_index(&req.write_stream) {
            None => Err(Status::StreamNotFound),
            Some(i) => {
                let ghost pre = self@;
                let mut entry = self.streams.remove(i);
                let ghost pre_entry = entry@;
                if entry.finalized {
                    self.streams.insert(i, entry);
                    proof {
                        assert(self@.streams =~= pre.streams);
                    }
                    Err(Status::AppendAfterFinalize)
                } else {
                    let mut rows = req.rows;
                    let ghost rows_view = rows.deep_view();
                    if entry.stream_type == StreamType::Pending {
                        entry.buffered.append(&mut rows);
                        proof {
                            assert(entry@.buffered =~= pre_entry.buffered + rows_view);
                        }
                    } else {
                        entry.visible.append(&mut rows);
                        proof {
                            assert(entry@.visible =~= pre_entry.visible + rows_view);
                        }
                    }
                    self.streams.insert(i, entry);
                    proof {
                        assert(self@.streams =~= pre.streams.update(i as int, entry@));
                        lemma_service_wf_update(pre, i as int, entry@, self@);
                        assert(self@ == spec_append(pre, req.write_stream@, rows_view));
                    }
                    Ok(AppendRowsResponse { row_errors: Vec::new(), offset: req.offset })
                }
            },
        }
    }

    /// Marks the named stream finalized and reports the total number of rows
    /// it holds.  Finalize is rejected on a default stream, and on a stream
    /// that was already finalized.
    pub fn finalize(&mut self, req: FinalizeWriteStreamRequest) -> (r: Result<
        FinalizeWriteStreamResponse,
        Status,
    >)
        requires
            service_wf(old(self)@),
        ensures
            service_wf(final(self)@),
            final(self)@ == spec_finalize(old(self)@, req.name@),
            spec_finalize_err(old(self)@, req.name@) is None ==> (r matches Ok(resp)
                && resp.row_count == spec_finalize_row_count(old(self)@, req.name@)),
            spec_finalize_err(old(self)@, req.name@) matches Some(e) ==> (r matches Err(e2) && e2
                == e),
    {
        proof {
            lemma_stream_index_props(old(self)@.streams, req.name@);
        }
        match self.find_index(&req.name) {
            None => Err(Status::StreamNotFound),
            Some(i) => {
                let ghost pre = self@;
                let mut entry = self.streams.remove(i);
                if entry.stream_type == StreamType::Default {
                    self.streams.insert(i, entry);
                    proof {
                        assert(self@.streams =~= pre.streams);
                    }
                    Err(Status::FinalizeNotSupported)
                } else if entry.finalized {
                    self.streams.insert(i, entry);
                    proof {
                        assert(self@.streams =~= pre.streams);
                    }
                    Err(Status::AlreadyFinalized)
                } else {
                    let count: u64 = (entry.buffered.len() as u64) + (entry.visible.len() as u64);
                    entry.finalized = true;
                    self.streams.insert(i, entry);
                    proof {
                        assert(self@.streams =~= pre.streams.update(i as int, entry@));
                        lemma_service_wf_update(pre, i as int, entry@, self@);
                        assert(self@ == spec_finalize(pre, req.name@));
                    }
                    Ok(FinalizeWriteStreamResponse { row_count: count })
                }
            },
        }
    }

    /// Commits one named stream; reports why it was not committed, if it was
    /// not.
    fn commit_one(&mut self, name: &String) -> (r: Option<CommitError>)
        requires
            service_wf(old(self)@),
        ensures
            service_wf(final(self)@),
            final(self)@.streams == commit_one_state(old(self)@.streams, name@),
            final(self)@.next_id == old(self)@.next_id,
            r == commit_one_err(old(self)@.streams, name@),
    {
        proof {
            lemma_stream_index_props(old(self)@.streams, name@);
        }
        match self.find_index(name) {
            None => Some(CommitError::StreamNotFound),
            Some(i) => {
                let ghost pre = self@;
                let mut entry = self.streams.remove(i);
                let ghost pre_entry = entry@;
                if !matches!(entry.stream_type, StreamType::Pending) {
                    self.streams.insert(i, entry);
                    proof {
                        assert(self@.streams =~= pre.streams);
                    }
                    Some(CommitError::NotPending)
                } else if entry.committed {
                    self.streams.insert(i, entry);
                    proof {
                        assert(self@.streams =~= pre.streams);
                    }
                    Some(CommitError::AlreadyCommitted)
                } else if !entry.finalized {
                    self.streams.insert(i, entry);
                    proof {
                        assert(self@.streams =~= pre.streams);
                    }
                    Some(CommitError::NotFinalized)
                } else {
                    let mut moved = entry.buffered;
                    entry.buffered = Vec::new();
                    entry.visible.append(&mut moved);
                    entry.committed = true;
                    self.streams.insert(i, entry);
                    proof {
                        assert(entry@.visible =~= pre_entry.visible + pre_entry.buffered);
                        assert(entry@.buffered =~= Seq::<Seq<u8>>::empty());
                        assert(self@.streams =~= pre.streams.update(i as int, entry@));
                        lemma_service_wf_update(pre, i as int, entry@, self@);
                        assert(self@.streams == commit_one_state(pre.streams, name@));
                    }
                    None
                }
            },
        }
    }

    /// Commits the named streams of one request, in order.  The returned
    /// error list is index-aligned with the request's names: entry `i` is
    /// `None` exactly when stream `i` was committed, and a failing entry
    /// neither stops the commit nor hides the outcome of the other entries.
    pub fn batch_commit(&mut self, req: &BatchCommitWriteStreamsRequest) -> (r:
        BatchCommitWriteStreamsResponse)
        requires
            service_wf(old(self)@),
        ensures
            service_wf(final(self)@),
            final(self)@.streams == spec_commit(
                old(self)@.streams,
                req.write_streams.deep_view(),
            ).0,
            final(self)@.next_id == old(self)@.next_id,
            r.stream_errors@ == spec_commit(old(self)@.streams, req.write_streams.deep_view()).1,
    {
        let ghost names = req.write_streams.deep_view();
        let ghost pre = self@;
        let mut errors: Vec<Option<CommitError>> = Vec::new();
        let mut k: usize = 0;
        while k < req.write_streams.len()
            invariant
                service_wf(self@),
                k <= req.write_streams.len(),
                names == req.write_streams.deep_view(),
                names.len() == req.write_streams.len(),
                self@.streams == spec_commit(pre.streams, names.take(k as int)).0,
                self@.next_id == pre.next_id,
                errors@ == spec_commit(pre.streams, names.take(k as int)).1,
            decreases req.write_streams.len() - k,
        {
            let ghost mid = self@;
            let e = self.commit_one(&req.write_streams[k]);
            errors.push(e);
            proof {
                assert(names.take(k as int).push(names[k as int]) =~= names.take(k as int + 1));
                lemma_spec_commit_push(pre.streams, names.take(k as int), names[k as int]);
            }
            k = k + 1;
        }
        proof {
            assert(names.take(names.len() as int) =~= names);
        }
        BatchCommitWriteStreamsResponse { stream_errors: errors }
    }

    /// The rows visible in `table`, in stream order: what a read of the
    /// table would return.
    pub fn visible_rows(&self, table: &String) -> (r: Vec<Vec<u8>>)
        ensures
            r.deep_view() == visible_rows_of(self@.streams, table@),
    {
        let mut out: Vec<Vec<u8>> = Vec::new();
        proof {
            assert(out.deep_view() =~= visible_rows_of(self@.streams.take(0), table@));
        }
        let mut i: usize = 0;
        while i < self.streams.len()
            invariant
                i <= self.streams.len(),
                out.deep_view() == visible_rows_of(self@.streams.take(i as int), table@),
            decreases self.streams.len() - i,
        {
            let ghost seen = visible_rows_of(self@.streams.take(i as int), table@);
            if self.streams[i].parent == *table {
                let mut j: usize = 0;
                while j < self.streams[i].visible.len()
                    invariant
                        i < self.streams.len(),
                        j <= self@.streams[i as int].visible.len(),
                        self@.streams[i as int].parent == table@,
                        seen == visible_rows_of(self@.streams.take(i as int), table@),
                        out.deep_view() == seen + self@.streams[i as int].visible.take(j as int),
                    decreases self@.streams[i as int].visible.len() - j,
                {
                    let row = self.streams[i].visible[j].clone();
                    proof {
                        let orig = self.streams@[i as int].visible@[j as int];
                        assert(forall|k: int|
                            0 <= k < orig@.len() ==> cloned::<u8>(orig@[k], #[trigger] row@[k]));
                        assert(row@ =~= orig@);
                        assert(row.deep_view() =~= orig.deep_view());
                    }
                    let ghost prev = out.deep_view();
                    let ghost prev_len = out@.len();
                    out.push(row);
                    proof {
                        assert(out@.len() == prev_len + 1);
                        assert forall|k: int| 0 <= k < out@.len() implies #[trigger] out.deep_view()[k]
                            == prev.push(row.deep_view())[k] by {
                            assert(out.deep_view()[k] == out@[k].deep_view());
                            if k < prev_len {
                                assert(prev[k] == out@[k].deep_view());
                            }
                        }
                        assert(out.deep_view() =~= prev.push(row.deep_view()));
                        assert(out.deep_view() =~= seen + self@.streams[i as int].visible.take(
                            j as int + 1,
                        ));
                    }
                    j = j + 1;
                }
                proof {
                    assert(self@.streams[i as int].visible.take(
                        self@.streams[i as int].visible.len() as int,
                    ) =~= self@.streams[i as int].visible);
                }
            } else {
                proof {
                    assert(out.deep_view() =~= seen + Seq::<Seq<u8>>::empty());
                }
            }
            proof {
                assert(self@.streams.take(i as int).push(self@.streams[i as int]) =~= self@
                    .streams.take(i as int + 1));
                lemma_visible_rows_push(
                    self@.streams.take(i as int),
                    self@.streams[i as int],
                    table@,
                );
            }
            i = i + 1;
        }
        proof {
            assert(self@.streams.take(self@.streams.len() as int) =~= self@.streams);
        }
        out
    }
}

} // verus!
