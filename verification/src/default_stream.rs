//! The default-stream writer and its stream handle.
//!
//! A default [`Writer`] opens write streams whose rows become visible
//! immediately on acknowledgement.  A default stream is never finalized and
//! takes no part in a batch commit; its handle exposes append alone, with
//! explicit offsets available for de-duplication.

use vstd::prelude::*;

use crate::model::create_ok;
use crate::model::service_wf;
use crate::model::spec_append_all;
use crate::model::spec_append_err;
use crate::model::spec_create;
use crate::model::stream_name_spec;
use crate::service::StorageService;
use crate::stream::Stream;
use crate::types::AppendRowsResponse;
use crate::types::CreateWriteStreamRequest;
use crate::types::Status;
use crate::types::StreamType;

verus! {

/// Opens default write streams against one table.
pub struct Writer {
    max_insert_count: usize,
    table: String,
    streams: Vec<String>,
}

impl Writer {
    /// The table every stream of this writer writes into.
    pub closed spec fn spec_table(self) -> Seq<char> {
        self.table@
    }

    /// The names of the streams this writer has opened, in creation order.
    pub closed spec fn spec_streams(self) -> Seq<Seq<char>> {
        self.streams.deep_view()
    }

    /// The batch-size setting handed to every stream the writer opens.
    pub closed spec fn spec_max_insert_count(self) -> usize {
        self.max_insert_count
    }

    /// A writer for `table` that has opened no streams yet.
    pub fn new(max_insert_count: usize, table: String) -> (r: Writer)
        ensures
            r.spec_table() == table@,
            r.spec_streams() == Seq::<Seq<char>>::empty(),
            r.spec_max_insert_count() == max_insert_count,
    {
        let r = Writer { max_insert_count, table, streams: Vec::new() };
        proof {
            assert(r.spec_streams() =~= Seq::<Seq<char>>::empty());
        }
        r
    }

    /// The create request this writer issues: always a default stream
    /// against its table.
    pub fn create_write_stream_request(&self) -> (r: CreateWriteStreamRequest)
        ensures
            r.parent@ == self.spec_table(),
            r.stream_type == StreamType::Default,
    {
        CreateWriteStreamRequest { parent: self.table.clone(), stream_type: StreamType::Default }
    }

    /// Opens a new default stream, records the server-assigned name, and
    /// hands the caller the wrapped handle, bound to the given connection
    /// slot.
    pub fn create_write_stream(&mut self, service: &mut StorageService, conn_id: usize) -> (r:
        Result<DefaultStream, Status>)
        requires
            service_wf(old(service)@),
            old(service)@.next_id < u64::MAX,
        ensures
            service_wf(final(service)@),
            final(service)@ == spec_create(
                old(service)@,
                old(self).spec_table(),
                StreamType::Default,
            ),
            final(self).spec_table() == old(self).spec_table(),
            final(self).spec_max_insert_count() == old(self).spec_max_insert_count(),
            create_ok(old(service)@) ==> (r matches Ok(ds)
                && ds.spec_inner().spec_name() == stream_name_spec(old(service)@.next_id)
                && ds.spec_inner().spec_type() == StreamType::Default
                && ds.spec_inner().spec_conn_id() == conn_id
                && ds.spec_inner().spec_max_insert_count() == old(self).spec_max_insert_count()
                && ds.spec_inner().spec_sent() == 0
                && !ds.spec_inner().spec_finalized()
                && final(self).spec_streams() == old(self).spec_streams().push(
                stream_name_spec(old(service)@.next_id),
            )),
            !create_ok(old(service)@) ==> (r matches Err(e) && e == Status::NameCollision
                && final(self).spec_streams() == old(self).spec_streams()),
    {
        let req = self.create_write_stream_request();
        match service.create_write_stream(req) {
            Err(e) => Err(e),
            Ok(ws) => {
                let ghost pre = self.streams.deep_view();
                let ghost pre_len = self.streams@.len();
                let name = ws.name.clone();
                self.streams.push(name);
                proof {
                    assert(self.streams@.len() == pre_len + 1);
                    assert forall|k: int| 0 <= k < self.streams@.len() implies #[trigger] self
                        .streams.deep_view()[k] == pre.push(ws.name@)[k] by {
                        assert(self.streams.deep_view()[k] == self.streams@[k]@);
                        if k < pre_len {
                            assert(pre[k] == self.streams@[k]@);
                        }
                    }
                    assert(self.streams.deep_view() =~= pre.push(ws.name@));
                }
                Ok(DefaultStream::new(Stream::new(ws, conn_id, self.max_insert_count)))
            },
        }
    }
}

/// Handle of one default write stream: rows appended through it are visible
/// as soon as they are acknowledged; it exposes no finalize and cannot be
/// batch-committed.
pub struct DefaultStream {
    inner: Stream,
}

impl DefaultStream {
    /// The underlying stream handle.
    pub closed spec fn spec_inner(self) -> Stream {
        self.inner
    }

    /// Wraps an opened stream handle.
    pub fn new(inner: Stream) -> (r: DefaultStream)
        ensures
            r.spec_inner() == inner,
    {
        DefaultStream { inner }
    }

    /// The underlying stream handle.
    pub fn as_ref(&self) -> (r: &Stream)
        ensures
            *r == self.spec_inner(),
    {
        &self.inner
    }

    /// Submits the row batches in order and collects one acknowledgement per
    /// submitted batch, in submission order.
    pub fn append_rows(&mut self, service: &mut StorageService, batches: Vec<Vec<Vec<u8>>>) -> (r:
        Result<Vec<AppendRowsResponse>, Status>)
        requires
            service_wf(old(service)@),
            old(self).spec_inner().spec_sent() + batches@.len() <= u64::MAX,
        ensures
            service_wf(final(service)@),
            old(self).spec_inner().spec_finalized() ==> (r matches Err(e)
                && e == Status::AppendAfterFinalize
                && final(service)@ == old(service)@
                && *final(self) == *old(self)),
            !old(self).spec_inner().spec_finalized() ==> ({
                let name = old(self).spec_inner().spec_name();
                &&& final(self).spec_inner().spec_sent() == old(self).spec_inner().spec_sent()
                    + batches@.len()
                &&& final(self).spec_inner().spec_name() == name
                &&& !final(self).spec_inner().spec_finalized()
                &&& (spec_append_err(old(service)@, name) is None || batches@.len() == 0 ==> (
                r matches Ok(acks)
                    && acks@.len() == batches@.len()
                    && (forall|q: int| 0 <= q < acks@.len()
                        ==> (#[trigger] acks@[q]).offset == old(self).spec_inner().spec_sent() + q
                            && acks@[q].row_errors@.len() == 0)
                    && final(service)@ == spec_append_all(old(service)@, name, batches.deep_view())))
                &&& (batches@.len() > 0 && spec_append_err(old(service)@, name) is Some ==> (
                r matches Err(e2)
                    && Some(e2) == spec_append_err(old(service)@, name)
                    && final(service)@ == old(service)@))
            }),
    {
        self.inner.append_rows(service, batches)
    }
}

} // verus!
