use crate::http::{
    header_values, lemma_known_names, uri_path_and_query, uri_path_and_query_of, uri_show,
    uri_shown, HeaderField, HeaderFieldValue, RequestParts, RequestValue,
};
use crate::sequences::lemma_filter_push;
use crate::text::{names_match, same_name};
use crate::third_wheel::error::{Error, ErrorValue};
use vstd::prelude::*;
use vstd::utf8::is_ascii_chars;

verus! {

/// Whether a header field travels on to the origin: every field does, but the
/// hop-by-hop `proxy-connection`.
pub open spec fn forwardable(field: HeaderFieldValue) -> bool {
    !same_name(field.name, "proxy-connection"@)
}

/// The header fields that travel on to the origin, in their order.
pub open spec fn forwarded_headers(headers: Seq<HeaderFieldValue>) -> Seq<HeaderFieldValue> {
    headers.filter(|f: HeaderFieldValue| forwardable(f))
}

/// What is sent upstream for a request: the same request with its target in
/// origin form and without the `proxy-connection` field, or the reason why
/// nothing can be sent.
pub open spec fn relativized(request: RequestValue) -> Result<RequestValue, ErrorValue> {
    match origin_form(request.uri) {
        Ok(target) => Ok(retargeted(request, target)),
        Err(e) => Err(e),
    }
}

/// The value of the outcome of preparing a request.
pub open spec fn prepared_value(r: Result<RequestParts, Error>) -> Result<
    RequestValue,
    ErrorValue,
> {
    match r {
        Ok(q) => Ok(q@),
        Err(e) => Err(e@),
    }
}

/// No forwarded header field is named `proxy-connection`, and the forwarded
/// fields are exactly the others.
pub proof fn lemma_forwarded_headers(headers: Seq<HeaderFieldValue>)
    ensures
        forall|i: int|
            0 <= i < forwarded_headers(headers).len() ==>
            !same_name((#[trigger] forwarded_headers(headers)[i]).name, "proxy-connection"@),
        forall|i: int|
            0 <= i < headers.len() && !same_name(headers[i].name, "proxy-connection"@)
                ==> forwarded_headers(headers).contains(#[trigger] headers[i]),
        forall|i: int|
            0 <= i < forwarded_headers(headers).len() ==> headers.contains(
                #[trigger] forwarded_headers(headers)[i],
            ),
{
    let pred = |f: HeaderFieldValue| forwardable(f);
    assert forall|i: int| 0 <= i < headers.filter(pred).len() implies !same_name(
        (#[trigger] headers.filter(pred)[i]).name,
        "proxy-connection"@,
    ) by {
        headers.lemma_filter_pred(pred, i);
    }
    assert forall|i: int|
        0 <= i < headers.len() && !same_name(
            headers[i].name,
            "proxy-connection"@,
        ) implies headers.filter(pred).contains(#[trigger] headers[i]) by {
        headers.lemma_filter_contains(pred, i);
    }
    assert forall|i: int| 0 <= i < headers.filter(pred).len() implies headers.contains(
        #[trigger] headers.filter(pred)[i],
    ) by {
        let e = headers.filter(pred)[i];
        assert(headers.filter(pred).contains(e));
        headers.lemma_filter_contains_rev(pred, e);
    }
}

/// Drops the `proxy-connection` fields from a run of header fields.
pub fn strip_proxy_connection(headers: &Vec<HeaderField>) -> (kept: Vec<HeaderField>)
    ensures
        header_values(kept@) == forwarded_headers(header_values(headers@)),
{
    let mut kept: Vec<HeaderField> = Vec::new();
    let mut i: usize = 0;
    proof {
        reveal(Seq::filter);
        lemma_known_names();
        assert(header_values(headers@).take(0) =~= Seq::empty());
        assert(header_values(kept@) =~= Seq::empty());
    }
    while i < headers.len()
        invariant
            i <= headers.len(),
            is_ascii_chars("proxy-connection"@),
            header_values(kept@) == forwarded_headers(header_values(headers@).take(i as int)),
        decreases headers.len() - i,
    {
        let field = &headers[i];
        let ghost before = header_values(headers@).take(i as int);
        let ghost old_kept = kept@;
        proof {
            assert(header_values(headers@).take(i + 1) =~= before.push(field@));
            lemma_filter_push(before, field@, |f: HeaderFieldValue| forwardable(f));
        }
        if !names_match(field.name.as_str(), "proxy-connection") {
            kept.push(field.duplicate());
            assert(header_values(kept@) =~= header_values(old_kept).push(field@));
        }
        i = i + 1;
    }
    assert(header_values(headers@).take(headers.len() as int) =~= header_values(headers@));
    kept
}

/// The request with another target and without the `proxy-connection` field.
pub open spec fn retargeted(request: RequestValue, target: Seq<char>) -> RequestValue {
    RequestValue {
        method: request.method,
        uri: target,
        headers: forwarded_headers(request.headers),
    }
}

/// Gives a request another target and drops its `proxy-connection` field.
pub fn retarget(request: RequestParts, target: String) -> (sent: RequestParts)
    ensures
        sent@ == retargeted(request@, target@),
{
    let headers = strip_proxy_connection(&request.headers);
    RequestParts { method: request.method, uri: target, headers }
}

/// The origin form of a target: its path and query, as a target of its own;
/// or the reason why it has none.
pub open spec fn origin_form(uri: Seq<char>) -> Result<Seq<char>, ErrorValue> {
    match uri_path_and_query_of(uri) {
        None => Err(ErrorValue::RequestError("URI did not contain a path"@)),
        Some(path) => match uri_shown(path) {
            None => Err(ErrorValue::RequestError("Given URI was invalid"@)),
            Some(target) => Ok(target),
        },
    }
}

/// Rewrites a target to origin form.
///
/// Fails with a request error where the target has no path and query, or
/// where the path is not accepted as a target of its own.
pub fn relativize_uri(uri: &str) -> (r: Result<String, Error>)
    ensures
        match r {
            Ok(target) => origin_form(uri@) == Ok::<Seq<char>, ErrorValue>(target@),
            Err(e) => origin_form(uri@) == Err::<Seq<char>, ErrorValue>(e@),
        },
{
    match uri_path_and_query(uri) {
        None => Err(Error::request("URI did not contain a path")),
        Some(path) => match uri_show(path.as_str()) {
            None => Err(Error::request("Given URI was invalid")),
            Some(target) => Ok(target),
        },
    }
}

/// Prepares a request for the origin: rewrites its target to origin form and
/// drops the `proxy-connection` field.
///
/// Fails with a request error where the target has no path and query, or
/// where the path is not accepted as a target of its own.
pub fn relativize(request: RequestParts) -> (r: Result<RequestParts, Error>)
    ensures
        prepared_value(r) == relativized(request@),
{
    match relativize_uri(request.uri.as_str()) {
        Ok(target) => Ok(retarget(request, target)),
        Err(e) => Err(e),
    }
}

/// A request that waits for its turn, with the ticket under which its reply
/// will be delivered.
pub struct PendingRequest {
    pub ticket: u64,
    pub request: RequestParts,
}

/// What the synchronizer asks of its driver next.
pub enum Step {
    /// Nothing can be done now: a response is awaited, or no request waits.
    Wait,
    /// Send this request upstream and report its outcome with `complete`.
    Dispatch { ticket: u64, request: RequestParts },
    /// Deliver this error as the reply of the ticket; nothing was sent.
    Reject { ticket: u64, error: Error },
    /// The input is closed and every reply is delivered: release the
    /// upstream session.
    Finished,
}

/// Serializes the requests of one tunnel onto its upstream connection.
///
/// Requests are taken in the order in which they were enqueued; the next one
/// is sent only when the reply of the one before is delivered; every request
/// gets one reply.
pub struct RequestSendingSynchronizer {
    waiting: Vec<PendingRequest>,
    in_flight: Option<u64>,
    next_ticket: u64,
    closed: bool,
    accepted: Ghost<Seq<RequestValue>>,
    sent: Ghost<Seq<u64>>,
    resolved: Ghost<Seq<u64>>,
}

/// Whether something is sent upstream for a request.
pub open spec fn is_forwarded(request: RequestValue) -> bool {
    relativized(request) is Ok
}

/// The tickets below `bound` whose requests are sent upstream, in rising
/// order.
pub open spec fn forwarded_tickets(accepted: Seq<RequestValue>, bound: int) -> Seq<u64>
    recommends
        0 <= bound <= accepted.len(),
{
    Seq::new(bound as nat, |t: int| t as u64).filter(
        |t: u64| t < accepted.len() && is_forwarded(accepted[t as int]),
    )
}

impl RequestSendingSynchronizer {
    /// Every request enqueued so far, in the order of enqueueing; the ticket
    /// of a request is its place in this sequence.
    pub closed spec fn accepted(&self) -> Seq<RequestValue> {
        self.accepted@
    }

    /// The tickets of the requests sent upstream so far, in the order of
    /// sending.
    pub closed spec fn sent(&self) -> Seq<u64> {
        self.sent@
    }

    /// The tickets whose reply has been handed out so far, in the order of
    /// delivery.
    pub closed spec fn resolved(&self) -> Seq<u64> {
        self.resolved@
    }

    /// The ticket of the request whose response is awaited, if any.
    pub closed spec fn in_flight(&self) -> Option<u64> {
        self.in_flight
    }

    /// The number of requests that wait for their turn.
    pub closed spec fn waiting_len(&self) -> nat {
        self.waiting@.len()
    }

    /// Whether the input has been closed.
    pub closed spec fn is_closed(&self) -> bool {
        self.closed
    }

    /// The first ticket that has not been taken from the queue.
    pub open spec fn frontier(&self) -> int {
        self.accepted().len() - self.waiting_len()
    }

    /// The invariant of the synchronizer.
    pub closed spec fn wf(&self) -> bool {
        &&& self.next_ticket == self.accepted@.len()
        &&& self.waiting@.len() <= self.accepted@.len()
        &&& forall|i: int|
            0 <= i < self.waiting@.len() ==> {
                &&& (#[trigger] self.waiting@[i]).ticket == self.frontier() + i
                &&& self.waiting@[i].request@ == self.accepted@[self.frontier() + i]
            }
        &&& self.sent@ == forwarded_tickets(self.accepted@, self.frontier())
        &&& match self.in_flight {
            Some(t) => {
                &&& t + 1 == self.frontier()
                &&& is_forwarded(self.accepted@[t as int])
                &&& self.resolved@ == Seq::new(t as nat, |k: int| k as u64)
            },
            None => self.resolved@ == Seq::new(self.frontier() as nat, |k: int| k as u64),
        }
    }

    /// A synchronizer that has seen no request.
    pub fn new() -> (s: Self)
        ensures
            s.wf(),
            s.accepted() == Seq::<RequestValue>::empty(),
            s.sent() == Seq::<u64>::empty(),
            s.resolved() == Seq::<u64>::empty(),
            s.in_flight() is None,
            s.waiting_len() == 0,
            !s.is_closed(),
    {
        let s = RequestSendingSynchronizer {
            waiting: Vec::new(),
            in_flight: None,
            next_ticket: 0,
            closed: false,
            accepted: Ghost(Seq::empty()),
            sent: Ghost(Seq::empty()),
            resolved: Ghost(Seq::empty()),
        };
        proof {
            reveal(Seq::filter);
            assert(s.resolved@ =~= Seq::new(0, |k: int| k as u64));
            assert(Seq::new(0, |t: int| t as u64) =~= Seq::<u64>::empty());
        }
        s
    }

    /// Takes a request into the queue and returns its ticket.
    ///
    /// Fails, and changes nothing, once the input is closed.
    pub fn enqueue(&mut self, request: RequestParts) -> (r: Result<u64, Error>)
        requires
            old(self).wf(),
            old(self).accepted().len() < u64::MAX,
        ensures
            final(self).wf(),
            final(self).sent() == old(self).sent(),
            final(self).resolved() == old(self).resolved(),
            final(self).in_flight() == old(self).in_flight(),
            final(self).is_closed() == old(self).is_closed(),
            match r {
                Ok(ticket) => {
                    &&& !old(self).is_closed()
                    &&& ticket == old(self).accepted().len()
                    &&& final(self).accepted() == old(self).accepted().push(request@)
                    &&& final(self).waiting_len() == old(self).waiting_len() + 1
                },
                Err(e) => {
                    &&& old(self).is_closed()
                    &&& e@ == ErrorValue::ServerError("Failed to connect to server correctly"@)
                    &&& final(self).accepted() == old(self).accepted()
                    &&& final(self).waiting_len() == old(self).waiting_len()
                },
            },
    {
        if self.closed {
            return Err(Error::server("Failed to connect to server correctly"));
        }
        let ticket = self.next_ticket;
        let ghost value = request@;
        let ghost before = self.accepted@;
        let ghost frontier = self.frontier();
        self.waiting.push(PendingRequest { ticket, request });
        self.next_ticket = ticket + 1;
        self.accepted = Ghost(before.push(value));
        proof {
            assert(self.frontier() == frontier);
            lemma_forwarded_tickets_extend(before, value, frontier);
        }
        Ok(ticket)
    }

    /// Decides what to do next.
    ///
    /// The oldest waiting request is taken only when no response is awaited.
    /// It is sent upstream in the form that `relativized` gives, or rejected
    /// with the error that `relativized` gives; a rejected request has its
    /// reply at once.
    pub fn next(&mut self) -> (step: Step)
        requires
            old(self).wf(),
        ensures
            final(self).wf(),
            final(self).accepted() == old(self).accepted(),
            final(self).is_closed() == old(self).is_closed(),
            match step {
                Step::Wait => {
                    &&& old(self).in_flight() is Some || (old(self).waiting_len() == 0
                        && !old(self).is_closed())
                    &&& final(self).sent() == old(self).sent()
                    &&& final(self).resolved() == old(self).resolved()
                    &&& final(self).in_flight() == old(self).in_flight()
                    &&& final(self).waiting_len() == old(self).waiting_len()
                },
                Step::Finished => {
                    &&& old(self).in_flight() is None
                    &&& old(self).waiting_len() == 0
                    &&& old(self).is_closed()
                    &&& final(self).sent() == old(self).sent()
                    &&& final(self).resolved() == old(self).resolved()
                    &&& final(self).in_flight() == old(self).in_flight()
                    &&& final(self).waiting_len() == old(self).waiting_len()
                },
                Step::Dispatch { ticket, request } => {
                    &&& old(self).in_flight() is None
                    &&& old(self).waiting_len() > 0
                    &&& ticket == old(self).frontier()
                    &&& relativized(old(self).accepted()[ticket as int]) == Ok::<
                        RequestValue,
                        ErrorValue,
                    >(request@)
                    &&& final(self).in_flight() == Some(ticket)
                    &&& final(self).sent() == old(self).sent().push(ticket)
                    &&& final(self).resolved() == old(self).resolved()
                    &&& final(self).waiting_len() == old(self).waiting_len() - 1
                },
                Step::Reject { ticket, error } => {
                    &&& old(self).in_flight() is None
                    &&& old(self).waiting_len() > 0
                    &&& ticket == old(self).frontier()
                    &&& relativized(old(self).accepted()[ticket as int]) == Err::<
                        RequestValue,
                        ErrorValue,
                    >(error@)
                    &&& final(self).in_flight() is None
                    &&& final(self).sent() == old(self).sent()
                    &&& final(self).resolved() == old(self).resolved().push(ticket)
                    &&& final(self).waiting_len() == old(self).waiting_len() - 1
                },
            },
    {
        if self.in_flight.is_some() {
            return Step::Wait;
        }
        if self.waiting.len() == 0 {
            if self.closed {
                return Step::Finished;
            }
            return Step::Wait;
        }
        let ghost frontier = self.frontier();
        let ghost old_waiting = self.waiting@;
        let ghost range = Seq::new(frontier as nat, |t: int| t as u64);
        let ghost accepted = self.accepted@;
        let pending = self.waiting.remove(0);
        let ticket = pending.ticket;
        proof {
            assert(pending == old_waiting[0]);
            assert(ticket == frontier);
            assert(self.frontier() == frontier + 1);
            assert forall|i: int| 0 <= i < self.waiting@.len() implies {
                &&& (#[trigger] self.waiting@[i]).ticket == self.frontier() + i
                &&& self.waiting@[i].request@ == self.accepted@[self.frontier() + i]
            } by {
                assert(self.waiting@[i] == old_waiting[i + 1]);
            }
            assert(Seq::new((frontier + 1) as nat, |t: int| t as u64) =~= range.push(ticket));
            lemma_filter_push(
                range,
                ticket,
                |t: u64| t < accepted.len() && is_forwarded(accepted[t as int]),
            );
        }
        match relativize(pending.request) {
            Ok(request) => {
                self.in_flight = Some(ticket);
                self.sent = Ghost(self.sent@.push(ticket));
                Step::Dispatch { ticket, request }
            },
            Err(error) => {
                self.resolved = Ghost(self.resolved@.push(ticket));
                proof {
                    assert(self.resolved@ =~= Seq::new((frontier + 1) as nat, |k: int| k as u64));
                }
                Step::Reject { ticket, error }
            },
        }
    }

    /// Takes the outcome of the request that was sent upstream and hands it
    /// out as the reply of its ticket, unchanged.
    ///
    /// Returns nothing, and changes nothing, where no response is awaited.
    pub fn complete<R>(&mut self, outcome: Result<R, Error>) -> (r: Option<(u64, Result<R, Error>)>)
        requires
            old(self).wf(),
        ensures
            final(self).wf(),
            final(self).accepted() == old(self).accepted(),
            final(self).is_closed() == old(self).is_closed(),
            final(self).sent() == old(self).sent(),
            final(self).waiting_len() == old(self).waiting_len(),
            final(self).in_flight() is None,
            match old(self).in_flight() {
                Some(ticket) => {
                    &&& r == Some((ticket, outcome))
                    &&& final(self).resolved() == old(self).resolved().push(ticket)
                },
                None => {
                    &&& r is None
                    &&& final(self).resolved() == old(self).resolved()
                },
            },
    {
        match self.in_flight {
            Some(ticket) => {
                self.in_flight = None;
                self.resolved = Ghost(self.resolved@.push(ticket));
                proof {
                    assert(self.resolved@ =~= Seq::new(
                        self.frontier() as nat,
                        |k: int| k as u64,
                    ));
                }
                Some((ticket, outcome))
            },
            None => None,
        }
    }

    /// Closes the input: no request is taken from now on, and those that wait
    /// are still served.
    pub fn close(&mut self)
        requires
            old(self).wf(),
        ensures
            final(self).wf(),
            final(self).is_closed(),
            final(self).accepted() == old(self).accepted(),
            final(self).sent() == old(self).sent(),
            final(self).resolved() == old(self).resolved(),
            final(self).in_flight() == old(self).in_flight(),
            final(self).waiting_len() == old(self).waiting_len(),
    {
        self.closed = true;
    }
}

/// A request enqueued later does not change which earlier tickets are sent
/// upstream.
pub proof fn lemma_forwarded_tickets_extend(accepted: Seq<RequestValue>, next: RequestValue, bound: int)
    requires
        0 <= bound <= accepted.len(),
    ensures
        forwarded_tickets(accepted.push(next), bound) == forwarded_tickets(accepted, bound),
    decreases bound,
{
    reveal(Seq::filter);
    let longer = accepted.push(next);
    let short_pred = |t: u64| t < accepted.len() && is_forwarded(accepted[t as int]);
    let long_pred = |t: u64| t < longer.len() && is_forwarded(longer[t as int]);
    if bound == 0 {
        assert(Seq::new(0, |t: int| t as u64) =~= Seq::<u64>::empty());
    } else {
        let shorter = Seq::new((bound - 1) as nat, |t: int| t as u64);
        let all = Seq::new(bound as nat, |t: int| t as u64);
        assert(all =~= shorter.push((bound - 1) as u64));
        lemma_filter_push(shorter, (bound - 1) as u64, short_pred);
        lemma_filter_push(shorter, (bound - 1) as u64, long_pred);
        lemma_forwarded_tickets_extend(accepted, next, bound - 1);
        assert(longer[bound - 1] == accepted[bound - 1]);
    }
}

/// The tickets that are sent upstream rise strictly, each belongs to a request
/// that is forwarded, and no forwarded request below the bound is left out.
pub proof fn lemma_forwarded_tickets(accepted: Seq<RequestValue>, bound: int)
    requires
        0 <= bound <= accepted.len(),
        accepted.len() <= u64::MAX,
    ensures
        forall|i: int, j: int|
            0 <= i < j < forwarded_tickets(accepted, bound).len() ==> forwarded_tickets(
                accepted,
                bound,
            )[i] < forwarded_tickets(accepted, bound)[j],
        forall|i: int|
            0 <= i < forwarded_tickets(accepted, bound).len() ==> {
                &&& (#[trigger] forwarded_tickets(accepted, bound)[i]) < bound
                &&& is_forwarded(accepted[forwarded_tickets(accepted, bound)[i] as int])
            },
        forall|t: u64|
            t < bound && is_forwarded(accepted[t as int]) ==> #[trigger] forwarded_tickets(
                accepted,
                bound,
            ).contains(t),
    decreases bound,
{
    reveal(Seq::filter);
    let pred = |t: u64| t < accepted.len() && is_forwarded(accepted[t as int]);
    if bound == 0 {
        assert(Seq::new(0, |t: int| t as u64) =~= Seq::<u64>::empty());
    } else {
        let shorter = Seq::new((bound - 1) as nat, |t: int| t as u64);
        let all = Seq::new(bound as nat, |t: int| t as u64);
        let last = (bound - 1) as u64;
        assert(all =~= shorter.push(last));
        lemma_filter_push(shorter, last, pred);
        lemma_forwarded_tickets(accepted, bound - 1);
        let before = forwarded_tickets(accepted, bound - 1);
        let now = forwarded_tickets(accepted, bound);
        if pred(last) {
            assert(now == before.push(last));
            assert(now[before.len() as int] == last);
            assert forall|t: u64| t < bound && is_forwarded(accepted[t as int]) implies now.contains(
                t,
            ) by {
                if t == last {
                    assert(now[before.len() as int] == t);
                } else {
                    assert(before.contains(t));
                    let k = choose|k: int| 0 <= k < before.len() && before[k] == t;
                    assert(now[k] == t);
                }
            }
        } else {
            assert(now == before);
        }
    }
}

/// Requests reach the origin in the order in which they were enqueued: the
/// tickets sent upstream rise strictly, every one of them is the ticket of an
/// enqueued request that is forwarded, and every forwarded request that has
/// left the queue was sent.
pub proof fn lemma_fifo_preservation(s: &RequestSendingSynchronizer)
    requires
        s.wf(),
    ensures
        forall|i: int, j: int| 0 <= i < j < s.sent().len() ==> s.sent()[i] < s.sent()[j],
        forall|i: int|
            0 <= i < s.sent().len() ==> {
                &&& (#[trigger] s.sent()[i]) < s.frontier()
                &&& is_forwarded(s.accepted()[s.sent()[i] as int])
            },
        forall|t: u64|
            t < s.frontier() && is_forwarded(s.accepted()[t as int]) ==> #[trigger] s.sent().contains(
                t,
            ),
{
    lemma_forwarded_tickets(s.accepted(), s.frontier());
}

/// At most one request is outstanding upstream: the one in flight, if any, is
/// the last that was sent, and every request sent before it has its reply.
pub proof fn lemma_one_outstanding(s: &RequestSendingSynchronizer)
    requires
        s.wf(),
    ensures
        match s.in_flight() {
            Some(t) => {
                &&& s.sent().len() > 0
                &&& s.sent().last() == t
                &&& !s.resolved().contains(t)
                &&& forall|i: int|
                    0 <= i < s.sent().len() - 1 ==> s.resolved().contains(#[trigger] s.sent()[i])
            },
            None => forall|i: int|
                0 <= i < s.sent().len() ==> s.resolved().contains(#[trigger] s.sent()[i]),
        },
{
    lemma_forwarded_tickets(s.accepted(), s.frontier());
    let sent = s.sent();
    let resolved = s.resolved();
    match s.in_flight() {
        Some(t) => {
            assert(sent.contains(t));
            let k = choose|k: int| 0 <= k < sent.len() && sent[k] == t;
            if k < sent.len() - 1 {
                assert(sent[k] < sent[sent.len() - 1]);
            }
            assert forall|i: int| 0 <= i < sent.len() - 1 implies resolved.contains(
                #[trigger] sent[i],
            ) by {
                assert(sent[i] < sent[sent.len() - 1]);
                assert(resolved[sent[i] as int] == sent[i]);
            }
        },
        None => {
            assert forall|i: int| 0 <= i < sent.len() implies resolved.contains(
                #[trigger] sent[i],
            ) by {
                assert(resolved[sent[i] as int] == sent[i]);
            }
        },
    }
}

/// Every enqueued request gets one reply and no more: no ticket is delivered
/// twice, every delivered ticket belongs to an enqueued request, replies come
/// in the order of enqueueing, and once nothing waits and nothing is in flight
/// every enqueued request has its reply.
pub proof fn lemma_single_delivery(s: &RequestSendingSynchronizer)
    requires
        s.wf(),
    ensures
        forall|i: int, j: int|
            0 <= i < j < s.resolved().len() ==> s.resolved()[i] != s.resolved()[j],
        forall|i: int| 0 <= i < s.resolved().len() ==> #[trigger] s.resolved()[i] == i,
        s.resolved().len() <= s.accepted().len(),
        s.in_flight() is None && s.waiting_len() == 0 ==> s.resolved().len()
            == s.accepted().len(),
{
}

/// What is sent upstream carries no `proxy-connection` field, and its target
/// is the path and query of the request's target, as the `http` crate writes
/// it.
pub proof fn lemma_header_hygiene(request: RequestValue)
    ensures
        relativized(request) matches Ok(sent) ==> {
            &&& forall|i: int|
                0 <= i < sent.headers.len() ==> !same_name(
                    (#[trigger] sent.headers[i]).name,
                    "proxy-connection"@,
                )
            &&& uri_path_and_query_of(request.uri) matches Some(path) && uri_shown(path) == Some(
                sent.uri,
            )
            &&& sent.method == request.method
            &&& forall|i: int|
                0 <= i < request.headers.len() && !same_name(
                    request.headers[i].name,
                    "proxy-connection"@,
                ) ==> sent.headers.contains(#[trigger] request.headers[i])
        },
{
    lemma_forwarded_headers(request.headers);
}

/// The service that a policy calls to forward a request to the origin.
///
/// It enqueues the request on the synchronizer of its tunnel and later takes
/// the reply. It also knows the address of the client whose tunnel it serves.
pub struct ThirdWheel {
    client_ip: String,
}

impl Clone for ThirdWheel {
    fn clone(&self) -> (copy: Self)
        ensures
            copy.client_ip() == self.client_ip(),
    {
        ThirdWheel { client_ip: self.client_ip.clone() }
    }
}

impl ThirdWheel {
    /// The address of the client, as text.
    pub closed spec fn client_ip(&self) -> Seq<char> {
        self.client_ip@
    }

    /// The service of a tunnel whose client has the given address.
    pub fn new(client_ip: String) -> (service: Self)
        ensures
            service.client_ip() == client_ip@,
    {
        ThirdWheel { client_ip }
    }

    /// The address of the client.
    pub fn get_client_ip(&self) -> (address: String)
        ensures
            address@ == self.client_ip(),
    {
        self.client_ip.clone()
    }

    /// The service is always ready to take a request: its queue has no bound.
    pub fn poll_ready(&self) -> (ready: Result<(), Error>)
        ensures
            ready is Ok,
    {
        Ok(())
    }

    /// Hands a request to the synchronizer and returns the ticket under which
    /// the reply will come.
    ///
    /// Fails with a server error where the synchronizer no longer takes
    /// requests.
    pub fn call(&self, synchronizer: &mut RequestSendingSynchronizer, request: RequestParts) -> (r:
        Result<u64, Error>)
        requires
            old(synchronizer).wf(),
            old(synchronizer).accepted().len() < u64::MAX,
        ensures
            final(synchronizer).wf(),
            final(synchronizer).sent() == old(synchronizer).sent(),
            final(synchronizer).resolved() == old(synchronizer).resolved(),
            final(synchronizer).in_flight() == old(synchronizer).in_flight(),
            final(synchronizer).is_closed() == old(synchronizer).is_closed(),
            match r {
                Ok(ticket) => {
                    &&& !old(synchronizer).is_closed()
                    &&& ticket == old(synchronizer).accepted().len()
                    &&& final(synchronizer).accepted() == old(synchronizer).accepted().push(
                        request@,
                    )
                    &&& final(synchronizer).waiting_len() == old(synchronizer).waiting_len() + 1
                },
                Err(e) => {
                    &&& old(synchronizer).is_closed()
                    &&& e@ == ErrorValue::ServerError("Failed to connect to server correctly"@)
                    &&& final(synchronizer).accepted() == old(synchronizer).accepted()
                    &&& final(synchronizer).waiting_len() == old(synchronizer).waiting_len()
                },
            },
    {
        synchronizer.enqueue(request)
    }

    /// Turns what came over the reply channel into the result of the call: the
    /// reply itself, or a server error where the channel was dropped before a
    /// reply came.
    pub fn reply<R>(&self, answer: Option<Result<R, Error>>) -> (r: Result<R, Error>)
        ensures
            match answer {
                Some(outcome) => r == outcome,
                None => r matches Err(e) && e@ == ErrorValue::ServerError(
                    "Failed to get response from server"@,
                ),
            },
    {
        match answer {
            Some(outcome) => outcome,
            None => Err(Error::server("Failed to get response from server")),
        }
    }
}

/// A policy together with the service that it forwards to.
#[derive(Clone)]
pub struct MitmService<F: Clone, S: Clone> {
    f: F,
    inner: S,
}

impl<F: Clone, S: Clone> MitmService<F, S> {
    /// The policy.
    pub closed spec fn policy(&self) -> F {
        self.f
    }

    /// The service that the policy forwards to.
    pub closed spec fn inner(&self) -> S {
        self.inner
    }

    /// Serves a request: calls the policy with the request and a clone of the
    /// inner service, and returns what the policy returns.
    pub fn call<T>(&self, request: RequestParts) -> (r: Result<T, Error>) where
        F: Fn(RequestParts, S) -> Result<T, Error>,

        requires
            forall|inner: S|
                cloned(self.inner(), inner) ==> call_requires(self.policy(), (request, inner)),
        ensures
            exists|inner: S|
                cloned(self.inner(), inner) && call_ensures(self.policy(), (request, inner), r),
    {
        let inner = self.inner.clone();
        assert(cloned(self.inner(), inner));
        (self.f)(request, inner)
    }
}

/// Wraps services in a policy.
#[derive(Clone)]
pub struct MitmLayer<F: Clone> {
    f: F,
}

impl<F: Clone> MitmLayer<F> {
    /// The policy.
    pub closed spec fn policy(&self) -> F {
        self.f
    }

    /// Wraps `inner` in a clone of the policy.
    pub fn layer<S: Clone>(&self, inner: S) -> (service: MitmService<F, S>)
        ensures
            service.inner() == inner,
            cloned(self.policy(), service.policy()),
    {
        MitmService { f: self.f.clone(), inner }
    }
}

/// A layer that puts the policy `f` in front of a service.
pub fn mitm_layer<F: Clone>(f: F) -> (layer: MitmLayer<F>)
    ensures
        layer.policy() == f,
{
    MitmLayer { f }
}

} // verus!
