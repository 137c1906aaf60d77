//! The handle that owns one server-side write stream.
//!
//! A [`Stream`] serializes the caller's interaction with its stream: it
//! stamps every append batch with the stream's name and with the batch's
//! position in the submission order, and it remembers whether the stream was
//! finalized, after which it accepts no further appends.  The typed wrappers
//! around it expose the capability set of each stream type.

use vstd::prelude::*;

use crate::model::lemma_spec_append_all_push;
use crate::model::lemma_spec_append_frame;
use crate::model::service_wf;
use crate::model::spec_append_all;
use crate::model::spec_append_err;
use crate::model::spec_finalize;
use crate::model::spec_finalize_err;
use crate::model::spec_finalize_row_count;
use crate::service::StorageService;
use crate::types::AppendRowsRequest;
use crate::types::AppendRowsResponse;
use crate::types::FinalizeWriteStreamRequest;
use crate::types::Status;
use crate::types::StreamType;
use crate::types::WriteStream;

verus! {

/// One opened write stream: its server-assigned identity, the pool slot its
/// traffic is bound to, the writer's batch-size setting, and the handle's
/// submission state.
pub struct Stream {
    write_stream: WriteStream,
    conn_id: usize,
    max_insert_count: usize,
    sent: u64,
    finalized: bool,
}

impl Stream {
    /// The stream's server-assigned name.
    pub closed spec fn spec_name(self) -> Seq<char> {
        self.write_stream.name@
    }

    /// The stream's fixed type.
    pub closed spec fn spec_type(self) -> StreamType {
        self.write_stream.stream_type
    }

    /// The connection slot the stream's traffic is bound to.
    pub closed spec fn spec_conn_id(self) -> usize {
        self.conn_id
    }

    /// The writer's batch-size setting, carried for the transport layer.
    pub closed spec fn spec_max_insert_count(self) -> usize {
        self.max_insert_count
    }

    /// How many append batches were stamped so far; also the offset the next
    /// batch will carry.
    pub closed spec fn spec_sent(self) -> u64 {
        self.sent
    }

    /// Whether the handle was finalized.
    pub closed spec fn spec_finalized(self) -> bool {
        self.finalized
    }

    /// Wraps a freshly created write stream.
    pub fn new(write_stream: WriteStream, conn_id: usize, max_insert_count: usize) -> (r: Stream)
        ensures
            r.spec_name() == write_stream.name@,
            r.spec_type() == write_stream.stream_type,
            r.spec_conn_id() == conn_id,
            r.spec_max_insert_count() == max_insert_count,
            r.spec_sent() == 0,
            !r.spec_finalized(),
    {
        Stream { write_stream, conn_id, max_insert_count, sent: 0, finalized: false }
    }

    /// The stream's server-assigned name.
    pub fn name(&self) -> (r: &String)
        ensures
            r@ == self.spec_name(),
    {
        &self.write_stream.name
    }

    /// The connection slot the stream is bound to.
    pub fn conn_id(&self) -> (r: usize)
        ensures
            r == self.spec_conn_id(),
    {
        self.conn_id
    }

    /// Whether the handle was finalized.
    pub fn is_finalized(&self) -> (r: bool)
        ensures
            r == self.spec_finalized(),
    {
        self.finalized
    }

    /// How many append batches were stamped so far.
    pub fn sent_batches(&self) -> (r: u64)
        ensures
            r == self.spec_sent(),
    {
        self.sent
    }

    /// Builds the append requests for a sequence of row batches: one request
    /// per batch, stamped with the stream's name and with consecutive
    /// offsets in submission order.  A finalized stream accepts no further
    /// appends.
    pub fn append_requests(&mut self, batches: Vec<Vec<Vec<u8>>>) -> (r: Result<
        Vec<AppendRowsRequest>,
        Status,
    >)
        requires
            old(self).spec_sent() + batches@.len() <= u64::MAX,
        ensures
            old(self).spec_finalized() ==> (r matches Err(e) && e == Status::AppendAfterFinalize
                && *final(self) == *old(self)),
            !old(self).spec_finalized() ==> (r matches Ok(reqs)
                && reqs@.len() == batches@.len()
                && (forall|q: int| 0 <= q < reqs@.len()
                    ==> (#[trigger] reqs@[q]).write_stream@ == old(self).spec_name()
                        && reqs@[q].offset == old(self).spec_sent() + q
                        && reqs@[q].rows == batches@[q])
                && final(self).spec_sent() == old(self).spec_sent() + batches@.len()
                && final(self).spec_name() == old(self).spec_name()
                && final(self).spec_type() == old(self).spec_type()
                && final(self).spec_conn_id() == old(self).spec_conn_id()
                && final(self).spec_max_insert_count() == old(self).spec_max_insert_count()
                && !final(self).spec_finalized()),
    {
        if self.finalized {
            return Err(Status::AppendAfterFinalize);
        }
        let mut reqs: Vec<AppendRowsRequest> = Vec::new();
        let mut rest = batches;
        let ghost all = rest@;
        while rest.len() > 0
            invariant
                !self.finalized,
                self.write_stream == old(self).write_stream,
                self.conn_id == old(self).conn_id,
                self.max_insert_count == old(self).max_insert_count,
                reqs@.len() + rest@.len() == all.len(),
                rest@ == all.skip(reqs@.len() as int),
                self.sent == old(self).spec_sent() + reqs@.len(),
                old(self).spec_sent() + all.len() <= u64::MAX,
                forall|q: int|
                    0 <= q < reqs@.len() ==> (#[trigger] reqs@[q]).write_stream@ == old(
                        self,
                    ).spec_name() && reqs@[q].offset == old(self).spec_sent() + q && reqs@[q].rows
                        == all[q],
            decreases rest@.len(),
        {
            let ghost k = reqs@.len() as int;
            let rows = rest.remove(0);
            proof {
                assert(all.skip(k)[0] == all[k]);
                assert(all.skip(k).remove(0) =~= all.skip(k + 1));
            }
            let req = AppendRowsRequest {
                write_stream: self.write_stream.name.clone(),
                offset: self.sent,
                rows,
            };
            self.sent = self.sent + 1;
            reqs.push(req);
        }
        Ok(reqs)
    }

    /// Submits the row batches in order and collects one acknowledgement per
    /// submitted batch, in submission order.  A failure terminates the
    /// sequence at the point it occurred; earlier batches stay submitted.
    pub fn append_rows(&mut self, service: &mut StorageService, batches: Vec<Vec<Vec<u8>>>) -> (r:
        Result<Vec<AppendRowsResponse>, Status>)
        requires
            service_wf(old(service)@),
            old(self).spec_sent() + batches@.len() <= u64::MAX,
        ensures
            service_wf(final(service)@),
            old(self).spec_finalized() ==> (r matches Err(e) && e == Status::AppendAfterFinalize
                && final(service)@ == old(service)@
                && *final(self) == *old(self)),
            !old(self).spec_finalized() ==> ({
                let name = old(self).spec_name();
                &&& final(self).spec_sent() == old(self).spec_sent() + batches@.len()
                &&& final(self).spec_name() == name
                &&& final(self).spec_type() == old(self).spec_type()
                &&& !final(self).spec_finalized()
                &&& (spec_append_err(old(service)@, name) is None || batches@.len() == 0 ==> (
                r matches Ok(acks)
                    && acks@.len() == batches@.len()
                    && (forall|q: int| 0 <= q < acks@.len()
                        ==> (#[trigger] acks@[q]).offset == old(self).spec_sent() + q
                            && acks@[q].row_errors@.len() == 0)
                    && final(service)@ == spec_append_all(old(service)@, name, batches.deep_view())))
                &&& (batches@.len() > 0 && spec_append_err(old(service)@, name) is Some ==> (
                r matches Err(e2)
                    && Some(e2) == spec_append_err(old(service)@, name)
                    && final(service)@ == old(service)@))
            }),
    {
        let ghost all = batches.deep_view();
        let ghost name = self.spec_name();
        let ghost base = self.spec_sent();
        let ghost pre_service = service@;
        let mut reqs = match self.append_requests(batches) {
            Err(e) => {
                return Err(e);
            },
            Ok(v) => v,
        };
        let ghost reqs_all = reqs@;
        let mut acks: Vec<AppendRowsResponse> = Vec::new();
        proof {
            assert(all.take(0) =~= Seq::<Seq<Seq<u8>>>::empty());
            assert(forall|q: int| 0 <= q < all.len() ==> (#[trigger] reqs_all[q].rows).deep_view()
                == all[q]);
        }
        #[verifier::loop_isolation(false)]
        while reqs.len() > 0
            invariant
                service_wf(service@),
                acks@.len() + reqs@.len() == reqs_all.len(),
                reqs_all.len() == all.len(),
                reqs@ == reqs_all.skip(acks@.len() as int),
                forall|q: int|
                    0 <= q < reqs_all.len() ==> (#[trigger] reqs_all[q]).write_stream@ == name
                        && reqs_all[q].offset == base + q && reqs_all[q].rows.deep_view() == all[q],
                forall|q: int|
                    0 <= q < acks@.len() ==> (#[trigger] acks@[q]).offset == base + q
                        && acks@[q].row_errors@.len() == 0,
                service@ == spec_append_all(pre_service, name, all.take(acks@.len() as int)),
                spec_append_err(service@, name) == spec_append_err(pre_service, name),
                acks@.len() > 0 ==> spec_append_err(pre_service, name) is None,
            decreases reqs@.len(),
        {
            let ghost k = acks@.len() as int;
            let ghost mid = service@;
            let req = reqs.remove(0);
            proof {
                assert(reqs_all.skip(k)[0] == reqs_all[k]);
                assert(reqs_all.skip(k).remove(0) =~= reqs_all.skip(k + 1));
            }
            match service.append_rows(req) {
                Err(e) => {
                    proof {
                        assert(spec_append_err(mid, name) matches Some(x) && x == e);
                        assert(k == 0) by {
                            if k > 0 {
                                assert(spec_append_err(pre_service, name) is None);
                            }
                        }
                        assert(all.take(0) =~= Seq::<Seq<Seq<u8>>>::empty());
                        assert(service@ == pre_service);
                    }
                    return Err(e);
                },
                Ok(ack) => {
                    acks.push(ack);
                    proof {
                        lemma_spec_append_all_push(pre_service, name, all.take(k), all[k]);
                        assert(all.take(k).push(all[k]) =~= all.take(k + 1));
                        lemma_spec_append_frame(mid, name, all[k], name);
                    }
                },
            }
        }
        proof {
            assert(all.take(all.len() as int) =~= all);
            if all.len() > 0 {
                assert(spec_append_err(pre_service, name) is None);
            }
        }
        Ok(acks)
    }

    /// Signals that no further rows will be appended and reports the total
    /// row count the service holds for the stream.  Valid once per stream:
    /// the second call fails with a protocol error and changes nothing.
    pub fn finalize(&mut self, service: &mut StorageService) -> (r: Result<u64, Status>)
        requires
            service_wf(old(service)@),
        ensures
            service_wf(final(service)@),
            old(self).spec_finalized() ==> (r matches Err(e) && e == Status::AlreadyFinalized
                && *final(self) == *old(self)
                && final(service)@ == old(service)@),
            !old(self).spec_finalized() ==> ({
                let name = old(self).spec_name();
                &&& final(service)@ == spec_finalize(old(service)@, name)
                &&& (spec_finalize_err(old(service)@, name) is None ==> (r matches Ok(c)
                    && c == spec_finalize_row_count(old(service)@, name)
                    && final(self).spec_finalized()
                    && final(self).spec_name() == name
                    && final(self).spec_sent() == old(self).spec_sent()))
                &&& (spec_finalize_err(old(service)@, name) matches Some(e) ==> (r matches Err(e2)
                    && e2 == e && *final(self) == *old(self)))
            }),
    {
        if self.is_finalized() {
            return Err(Status::AlreadyFinalized);
        }
        let req = self.finalize_request();
        match service.finalize(req) {
            Err(e) => Err(e),
            Ok(resp) => {
                self.mark_finalized();
                Ok(resp.row_count)
            },
        }
    }

    /// The request that closes the stream.
    pub fn finalize_request(&self) -> (r: FinalizeWriteStreamRequest)
        ensures
            r.name@ == self.spec_name(),
    {
        FinalizeWriteStreamRequest { name: self.write_stream.name.clone() }
    }

    /// Records that the stream was finalized; valid once per stream.
    pub fn mark_finalized(&mut self)
        requires
            !old(self).spec_finalized(),
        ensures
            final(self).spec_finalized(),
            final(self).spec_name() == old(self).spec_name(),
            final(self).spec_type() == old(self).spec_type(),
            final(self).spec_conn_id() == old(self).spec_conn_id(),
            final(self).spec_max_insert_count() == old(self).spec_max_insert_count(),
            final(self).spec_sent() == old(self).spec_sent(),
    {
        self.finalized = true;
    }
}

} // verus!
