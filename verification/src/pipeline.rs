//! The streaming pipeline that turns a cursor over stored documents
//! into a bounded sequence of list results.
//!
//! A cursor that opens yields documents one by one; each well-formed
//! document becomes a record on the stream, each malformed one is
//! dropped silently, and one bad record never aborts a list of many
//! good ones.  A cursor that fails to open yields exactly one error
//! item.  A consumer that stops reading ends the stream gracefully.

use crate::error::ServiceError;
use crate::native::NativeDocument;
use crate::query::{matches_spec, Predicate, PredicateView};
use crate::record::{from_document, from_document_spec, HelloWorld, RecordView};
use vstd::prelude::*;

verus! {

/// The bound of the delivery channel: at most this many buffered
/// results between the pipeline and the consumer.
pub const CHANNEL_CAPACITY: usize = 100;

/// The records a cursor's yield decodes to, in order: a fetch error or
/// a malformed document contributes nothing.
pub open spec fn decoded_records(items: Seq<Result<NativeDocument, String>>) -> Seq<RecordView>
    decreases items.len(),
{
    if items.len() == 0 {
        Seq::empty()
    } else {
        let rest = decoded_records(items.drop_last());
        match items.last() {
            Ok(d) => match from_document_spec(d@) {
                Some(rv) => rest.push(rv),
                None => rest,
            },
            Err(_) => rest,
        }
    }
}

/// Decodes a cursor's whole yield, dropping what does not decode.
pub fn collect_records(items: &Vec<Result<NativeDocument, String>>) -> (out: Vec<HelloWorld>)
    ensures
        out@.map_values(|r: HelloWorld| r@) == decoded_records(items@),
{
    let mut out: Vec<HelloWorld> = Vec::new();
    let mut i: usize = 0;
    while i < items.len()
        invariant
            i <= items@.len(),
            out@.map_values(|r: HelloWorld| r@) == decoded_records(items@.take(i as int)),
        decreases items@.len() - i,
    {
        proof {
            assert(items@.take(i as int + 1).drop_last() =~= items@.take(i as int));
            assert(items@.take(i as int + 1).last() == items@[i as int]);
        }
        match &items[i] {
            Ok(d) => {
                match from_document(d) {
                    Ok(rec) => {
                        out.push(rec);
                        proof {
                            assert(out@.map_values(|r: HelloWorld| r@) =~= decoded_records(
                                items@.take(i as int + 1),
                            ));
                        }
                    },
                    Err(_) => {
                    },
                }
            },
            Err(_) => {
            },
        }
        i += 1;
    }
    proof {
        assert(items@.take(items@.len() as int) =~= items@);
    }
    out
}

/// What the whole stream carries, given how the cursor opened: one
/// database error when it failed, with the store's message attached,
/// else every decoded record in order and nothing else.
pub fn stream(open_result: Result<Vec<Result<NativeDocument, String>>, String>) -> (out: Vec<
    Result<HelloWorld, ServiceError>,
>)
    ensures
        open_result matches Err(m) ==> out@.len() == 1 && (out@[0] matches Err(e) && e matches
            ServiceError::DatabaseError(mm) && mm@ == m@),
        open_result matches Ok(items) ==> {
            &&& out@.len() == decoded_records(items@).len()
            &&& forall|i: int|
                0 <= i < out@.len() ==> ((#[trigger] out@[i]) matches Ok(r) && r@
                    == decoded_records(items@)[i])
        },
{
    match open_result {
        Err(m) => {
            let mut out: Vec<Result<HelloWorld, ServiceError>> = Vec::new();
            out.push(Err(ServiceError::DatabaseError(m)));
            out
        },
        Ok(items) => {
            let records = collect_records(&items);
            let mut out: Vec<Result<HelloWorld, ServiceError>> = Vec::new();
            let ghost decoded = decoded_records(items@);
            let mut i: usize = 0;
            while i < records.len()
                invariant
                    records@.map_values(|r: HelloWorld| r@) == decoded,
                    i <= records@.len(),
                    out@.len() == i as int,
                    forall|k: int|
                        0 <= k < i as int ==> ((#[trigger] out@[k]) matches Ok(r) && r@
                            == decoded[k]),
                decreases records@.len() - i,
            {
                proof {
                    assert(records@.map_values(|r: HelloWorld| r@)[i as int] == decoded[i as int]);
                }
                out.push(Ok(records[i].duplicate()));
                i += 1;
            }
            out
        },
    }
}

// ---------------------------------------------------------------------
// The pipeline's state machine
// ---------------------------------------------------------------------

/// Where the pipeline stands.
#[derive(PartialEq, Eq, Structural, Clone, Copy, Debug)]
pub enum PipelineState {
    OpenCursor,
    Iterate,
    Closed,
}

/// What the outside world hands the pipeline next.
pub enum PipelineEvent {
    OpenFailed(String),
    Opened,
    Fetched(Result<NativeDocument, String>),
    Exhausted,
    ReceiverClosed,
}

/// What the pipeline asks its runner to do next.
pub enum PipelineAction {
    PublishError(ServiceError),
    Publish(HelloWorld),
    Continue,
    Stop,
}

/// One decision of the pipeline.  A cursor that fails to open yields
/// exactly one database error carrying the store's message; a fetched
/// document that decodes is published; one that does not, or a fetch
/// error, is dropped and iteration goes on; an exhausted cursor closes
/// the stream; and a consumer that went away closes it just as
/// gracefully, never as a failure.
pub fn pipeline_step(state: PipelineState, event: PipelineEvent) -> (r: (
    PipelineState,
    PipelineAction,
))
    ensures
        event is ReceiverClosed ==> r.0 is Closed && r.1 is Stop,
        state is OpenCursor && event is OpenFailed ==> (r.0 is Closed && (r.1 matches
        PipelineAction::PublishError(e) && e matches ServiceError::DatabaseError(mm) && mm@ == (
        event->OpenFailed_0)@)),
        state is OpenCursor && event is Opened ==> r.0 is Iterate && r.1 is Continue,
        state is Iterate && event is Fetched && event->Fetched_0 is Ok && from_document_spec(
            (event->Fetched_0->Ok_0)@,
        ) is Some ==> (r.0 is Iterate && (r.1 matches PipelineAction::Publish(rec) && rec@
            == from_document_spec((event->Fetched_0->Ok_0)@)->Some_0)),
        state is Iterate && event is Fetched && event->Fetched_0 is Ok && from_document_spec(
            (event->Fetched_0->Ok_0)@,
        ) is None ==> (r.0 is Iterate && r.1 is Continue),
        state is Iterate && event is Fetched && event->Fetched_0 is Err ==> (r.0 is Iterate
            && r.1 is Continue),
        state is Iterate && event is Exhausted ==> r.0 is Closed && r.1 is Stop,
        state is Closed ==> r.0 is Closed && r.1 is Stop,
{
    match event {
        PipelineEvent::ReceiverClosed => (PipelineState::Closed, PipelineAction::Stop),
        PipelineEvent::OpenFailed(m) => {
            if let PipelineState::OpenCursor = state {
                (
                    PipelineState::Closed,
                    PipelineAction::PublishError(ServiceError::DatabaseError(m)),
                )
            } else {
                (PipelineState::Closed, PipelineAction::Stop)
            }
        },
        PipelineEvent::Opened => {
            if let PipelineState::OpenCursor = state {
                (PipelineState::Iterate, PipelineAction::Continue)
            } else {
                (PipelineState::Closed, PipelineAction::Stop)
            }
        },
        PipelineEvent::Fetched(item) => {
            if let PipelineState::Iterate = state {
                match item {
                    Ok(d) => match from_document(&d) {
                        Ok(rec) => (PipelineState::Iterate, PipelineAction::Publish(rec)),
                        Err(_) => (PipelineState::Iterate, PipelineAction::Continue),
                    },
                    Err(_) => (PipelineState::Iterate, PipelineAction::Continue),
                }
            } else {
                (PipelineState::Closed, PipelineAction::Stop)
            }
        },
        PipelineEvent::Exhausted => (PipelineState::Closed, PipelineAction::Stop),
    }
}

// ---------------------------------------------------------------------
// The window the store serves
// ---------------------------------------------------------------------

/// The records of `rs` that satisfy the predicate, in order.
pub open spec fn matching_records(rs: Seq<RecordView>, p: PredicateView) -> Seq<RecordView>
    decreases rs.len(),
{
    if rs.len() == 0 {
        Seq::empty()
    } else {
        let rest = matching_records(rs.drop_last(), p);
        if matches_spec(p, rs.last()) {
            rest.push(rs.last())
        } else {
            rest
        }
    }
}

/// The window of matching records the store serves for a skip and a
/// limit: the matches, the first `skip` of them left out, at most
/// `limit` of them kept.
pub open spec fn window_spec(
    rs: Seq<RecordView>,
    p: PredicateView,
    skip: nat,
    limit: nat,
) -> Seq<RecordView> {
    let m = matching_records(rs, p);
    let s = if skip > m.len() {
        m.len() as int
    } else {
        skip as int
    };
    let rest = m.skip(s);
    rest.take(
        if limit > rest.len() {
            rest.len() as int
        } else {
            limit as int
        },
    )
}

/// The reference meaning of a filtered, paginated find over ordered
/// records: what the store returns for a predicate, a skip and a limit.
pub fn find_window(records: &Vec<HelloWorld>, p: &Predicate, skip: usize, limit: usize) -> (out:
    Vec<HelloWorld>)
    ensures
        out@.map_values(|r: HelloWorld| r@) == window_spec(
            records@.map_values(|r: HelloWorld| r@),
            p@,
            skip as nat,
            limit as nat,
        ),
{
    let ghost rs = records@.map_values(|r: HelloWorld| r@);
    let mut out: Vec<HelloWorld> = Vec::new();
    let mut seen: usize = 0;
    let mut i: usize = 0;
    while i < records.len()
        invariant
            rs == records@.map_values(|r: HelloWorld| r@),
            i <= records@.len(),
            seen <= i,
            seen as int == matching_records(rs.take(i as int), p@).len(),
            out@.map_values(|r: HelloWorld| r@) == window_spec(
                rs.take(i as int),
                p@,
                skip as nat,
                limit as nat,
            ),
            out@.len() <= limit,
        decreases records@.len() - i,
    {
        let ghost m = matching_records(rs.take(i as int), p@);
        proof {
            assert(rs.take(i as int + 1).drop_last() =~= rs.take(i as int));
            assert(rs.take(i as int + 1).last() == rs[i as int]);
            assert(rs[i as int] == records@[i as int]@);
        }
        if crate::query::matches(p, &records[i]) {
            let ghost m1 = matching_records(rs.take(i as int + 1), p@);
            proof {
                assert(m1 == m.push(records@[i as int]@));
            }
            if seen >= skip && out.len() < limit {
                proof {
                    let rest = m.skip(skip as int);
                    assert(out@.map_values(|r: HelloWorld| r@).len() == out@.len());
                    assert(rest.len() < limit as int);
                    assert(rest.take(rest.len() as int) =~= rest);
                }
                out.push(records[i].duplicate());
                proof {
                    let rest = m.skip(skip as int);
                    let rest1 = m1.skip(skip as int);
                    assert(rest1 =~= rest.push(records@[i as int]@));
                    assert(rest1.take(rest1.len() as int) =~= rest1);
                    assert(out@.map_values(|r: HelloWorld| r@) =~= window_spec(
                        rs.take(i as int + 1),
                        p@,
                        skip as nat,
                        limit as nat,
                    ));
                }
            } else {
                proof {
                    if seen < skip {
                        assert(out@.map_values(|r: HelloWorld| r@) =~= window_spec(
                            rs.take(i as int + 1),
                            p@,
                            skip as nat,
                            limit as nat,
                        ));
                    } else {
                        assert(m1.skip(skip as int) =~= m.skip(skip as int).push(
                            records@[i as int]@,
                        ));
                        assert(out@.map_values(|r: HelloWorld| r@) =~= window_spec(
                            rs.take(i as int + 1),
                            p@,
                            skip as nat,
                            limit as nat,
                        ));
                    }
                }
            }
            seen += 1;
        }
        i += 1;
    }
    proof {
        assert(rs.take(rs.len() as int) =~= rs);
    }
    out
}

} // verus!
