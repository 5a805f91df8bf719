//! The decisions of the single-shot ingestion bridge: which requests it
//! answers and how, and when it stops listening. The listener itself, the
//! reading of bodies and their decoding belong to the program around it.

use vstd::prelude::*;

use crate::aggregate::{grouping, process_people};
use crate::grouping::Payload;
use crate::records::Person;

verus! {

pub open spec fn ingest_method() -> Seq<char> {
    "POST"@
}

pub open spec fn ingest_path() -> Seq<char> {
    "/receive"@
}

/// Whether a request goes to the ingestion route: `POST /receive`.
pub fn is_ingestion_route(method: &str, url: &str) -> (r: bool)
    ensures
        r == (method@ == ingest_method() && url@ == ingest_path()),
{
    String::from_str(url) == String::from_str("/receive") && String::from_str(method)
        == String::from_str("POST")
}

/// The body of a request on the ingestion route.
pub enum Delivery {
    /// The body could not be read.
    Unreadable,
    /// The body is not a batch of records in the expected encoding.
    Malformed,
    /// The decoded batch.
    Batch(Vec<Person>),
}

/// A request as the bridge sees it.
pub enum Incoming {
    OtherRoute,
    Ingest(Delivery),
}

pub enum IncomingView {
    OtherRoute,
    Unreadable,
    Malformed,
    Batch(Seq<Person>),
}

impl View for Incoming {
    type V = IncomingView;

    open spec fn view(&self) -> IncomingView {
        match self {
            Incoming::OtherRoute => IncomingView::OtherRoute,
            Incoming::Ingest(Delivery::Unreadable) => IncomingView::Unreadable,
            Incoming::Ingest(Delivery::Malformed) => IncomingView::Malformed,
            Incoming::Ingest(Delivery::Batch(people)) => IncomingView::Batch(people@),
        }
    }
}

/// What to do with a request.
pub enum Reply {
    /// The bridge has delivered already: the request is not served.
    Closed,
    /// Answer with this status and text, and keep listening.
    Respond { status: u16, text: String },
    /// Answer with this status and text, publish the payload, and stop.
    Deliver { status: u16, text: String, payload: Payload },
}

pub enum ReplyView {
    Closed,
    Respond(u16, Seq<char>),
    Deliver(u16, Seq<char>, Map<Seq<char>, Map<Seq<char>, Seq<Seq<char>>>>),
}

impl View for Reply {
    type V = ReplyView;

    open spec fn view(&self) -> ReplyView {
        match self {
            Reply::Closed => ReplyView::Closed,
            Reply::Respond { status, text } => ReplyView::Respond(*status, text@),
            Reply::Deliver { status, text, payload } => ReplyView::Deliver(*status, text@, payload@),
        }
    }
}

/// The reply of a bridge (`completed` tells whether it has delivered) to a
/// request, judged at instant `now`.
pub open spec fn reply_to(completed: bool, request: IncomingView, now: i64) -> ReplyView {
    if completed {
        ReplyView::Closed
    } else {
        match request {
            IncomingView::OtherRoute => ReplyView::Respond(404, "Not Found"@),
            IncomingView::Unreadable => ReplyView::Respond(400, "Bad Request"@),
            IncomingView::Malformed => ReplyView::Respond(400, "Invalid MsgPack"@),
            IncomingView::Batch(people) => ReplyView::Deliver(200, "OK"@, grouping(people, now)),
        }
    }
}

/// Whether the bridge has delivered once a request has been handled.
pub open spec fn completed_after(completed: bool, request: IncomingView) -> bool {
    completed || request is Batch
}

/// The replies to a run of requests, from a bridge in state `completed`.
pub open spec fn replies(completed: bool, requests: Seq<IncomingView>, now: i64) -> Seq<ReplyView>
    decreases requests.len(),
{
    if requests.len() == 0 {
        Seq::empty()
    } else {
        seq![reply_to(completed, requests[0], now)] + replies(
            completed_after(completed, requests[0]),
            requests.drop_first(),
            now,
        )
    }
}

/// The bridge state: whether the one delivery has happened.
pub struct IngestionBridge {
    completed: bool,
}

impl View for IngestionBridge {
    type V = bool;

    closed spec fn view(&self) -> bool {
        self.completed
    }
}

impl IngestionBridge {
    /// A listening bridge.
    pub fn new() -> (r: IngestionBridge)
        ensures
            r@ == false,
    {
        IngestionBridge { completed: false }
    }

    /// Whether the bridge has delivered; the accept loop stops when it has.
    pub fn is_completed(&self) -> (r: bool)
        ensures
            r == self@,
    {
        self.completed
    }

    /// Handles one request at instant `now_ms` (milliseconds since the epoch).
    pub fn handle(&mut self, request: Incoming, now_ms: i64) -> (r: Reply)
        ensures
            r@ == reply_to(old(self)@, request@, now_ms),
            final(self)@ == completed_after(old(self)@, request@),
    {
        if self.completed {
            return Reply::Closed;
        }
        match request {
            Incoming::OtherRoute => Reply::Respond { status: 404, text: String::from_str("Not Found") },
            Incoming::Ingest(Delivery::Unreadable) => Reply::Respond {
                status: 400,
                text: String::from_str("Bad Request"),
            },
            Incoming::Ingest(Delivery::Malformed) => Reply::Respond {
                status: 400,
                text: String::from_str("Invalid MsgPack"),
            },
            Incoming::Ingest(Delivery::Batch(people)) => {
                let payload = process_people(people, now_ms);
                self.completed = true;
                Reply::Deliver { status: 200, text: String::from_str("OK"), payload }
            },
        }
    }
}

proof fn lemma_replies_shape(completed: bool, requests: Seq<IncomingView>, now: i64)
    ensures
        replies(completed, requests, now).len() == requests.len(),
        forall|i: int|
            0 <= i < requests.len() ==> #[trigger] replies(completed, requests, now)[i] == reply_to(
                completed || exists|k: int| 0 <= k < i && (#[trigger] requests[k]) is Batch,
                requests[i],
                now,
            ),
    decreases requests.len(),
{
    if requests.len() > 0 {
        let rest = requests.drop_first();
        let next = completed_after(completed, requests[0]);
        lemma_replies_shape(next, rest, now);
        let rs = replies(completed, requests, now);
        assert forall|i: int| 0 <= i < requests.len() implies #[trigger] rs[i] == reply_to(
            completed || exists|k: int| 0 <= k < i && (#[trigger] requests[k]) is Batch,
            requests[i],
            now,
        ) by {
            if i > 0 {
                assert(rs[i] == replies(next, rest, now)[i - 1]);
                assert(rest[i - 1] == requests[i]);
                let before = exists|k: int| 0 <= k < i && (#[trigger] requests[k]) is Batch;
                let before_rest = exists|k: int| 0 <= k < i - 1 && (#[trigger] rest[k]) is Batch;
                if before_rest {
                    let k = choose|k: int| 0 <= k < i - 1 && (#[trigger] rest[k]) is Batch;
                    assert(requests[k + 1] is Batch);
                }
                if before && !(requests[0] is Batch) {
                    let k = choose|k: int| 0 <= k < i && (#[trigger] requests[k]) is Batch;
                    assert(rest[k - 1] is Batch);
                }
                assert((next || before_rest) == (completed || before));
            } else {
                assert(!exists|k: int| 0 <= k < 0 && (#[trigger] requests[k]) is Batch);
            }
        }
    }
}

/// Single-shot delivery. On a listening bridge, requests before the first
/// decoded batch are answered and the bridge keeps listening (an unreadable
/// or malformed body gets 400); the first decoded batch is delivered, with
/// 200 and its grouping; every request after it, valid or not, is left
/// unserved, so at most one delivery ever happens.
pub proof fn lemma_single_delivery(requests: Seq<IncomingView>, now: i64)
    ensures
        replies(false, requests, now).len() == requests.len(),
        forall|i: int|
            0 <= i < requests.len() && (forall|k: int| 0 <= k < i ==> !((#[trigger] requests[k]) is Batch))
                ==> #[trigger] replies(false, requests, now)[i] == reply_to(false, requests[i], now),
        forall|i: int|
            0 <= i < requests.len() && (forall|k: int| 0 <= k < i ==> !((#[trigger] requests[k]) is Batch))
                && (requests[i] is Unreadable || requests[i] is Malformed)
                ==> (#[trigger] replies(false, requests, now)[i]) is Respond
                    && replies(false, requests, now)[i]->Respond_0 == 400,
        forall|i: int, j: int|
            0 <= i < j < requests.len() && (#[trigger] requests[i]) is Batch
                ==> #[trigger] replies(false, requests, now)[j] == ReplyView::Closed,
        forall|i: int, j: int|
            0 <= i < j < requests.len() && (#[trigger] replies(false, requests, now)[i]) is Deliver
                ==> !((#[trigger] replies(false, requests, now)[j]) is Deliver),
{
    lemma_replies_shape(false, requests, now);
    let rs = replies(false, requests, now);
    assert forall|i: int|
        0 <= i < requests.len() && (forall|k: int| 0 <= k < i ==> !((#[trigger] requests[k]) is Batch))
            implies #[trigger] rs[i] == reply_to(false, requests[i], now) by {
        assert(!exists|k: int| 0 <= k < i && (#[trigger] requests[k]) is Batch);
    }
    assert forall|i: int, j: int|
        0 <= i < j < requests.len() && (#[trigger] requests[i]) is Batch implies #[trigger] rs[j]
            == ReplyView::Closed by {
        assert(exists|k: int| 0 <= k < j && (#[trigger] requests[k]) is Batch);
    }
    assert forall|i: int, j: int|
        0 <= i < j < requests.len() && (#[trigger] rs[i]) is Deliver implies !((#[trigger] rs[j]) is Deliver) by {
        assert(requests[i] is Batch);
        assert(exists|k: int| 0 <= k < j && (#[trigger] requests[k]) is Batch);
    }
}

} // verus!
