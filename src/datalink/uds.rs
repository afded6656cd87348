use vstd::prelude::*;

use crate::datalink::isotp::{Isotp, IsotpError};

verus! {

/// A raw UDS response message.
pub struct Response {
    pub data: Vec<u8>,
}

// Request SIDs
pub const UDS_REQ_SESSION: u8 = 0x10;
pub const UDS_REQ_SECURITY: u8 = 0x27;
pub const UDS_REQ_READMEM: u8 = 0x23;
pub const UDS_REQ_REQUESTDOWNLOAD: u8 = 0x34;
pub const UDS_REQ_REQUESTUPLOAD: u8 = 0x35;
pub const UDS_REQ_TRANSFERDATA: u8 = 0x36;
pub const UDS_REQ_READDATABYID: u8 = 0x22;

/// Leading byte of every negative response.
pub const UDS_NEGATIVE_RESPONSE: u8 = 0x7F;

/// Added to the request SID to form the leading byte of a positive response.
pub const UDS_POSITIVE_OFFSET: u8 = 0x40;

// Negative response codes
// requestCorrectlyReceivedResponsePending
pub const UDS_NRES_RCRRP: u8 = 0x78;

/// Security access sub-functions.
pub const UDS_SECURITY_REQUEST_SEED: u8 = 0x01;
pub const UDS_SECURITY_SEND_KEY: u8 = 0x02;

/// Number of response-pending replies that `request` waits through before
/// giving up. It is large enough to never be reached in practice.
pub const UDS_DEFAULT_MAX_PENDING: u64 = 0xFFFF_FFFF_FFFF_FFFF;

#[derive(Clone, Copy, Debug, PartialEq, Eq, Structural)]
pub enum UdsError {
    /// The transport beneath failed.
    Isotp(IsotpError),
    /// The ECU refused the request with this negative response code.
    NegativeResponse(u8),
    /// The ECU answered with an empty message.
    EmptyResponse,
    /// The leading byte is neither a negative nor the matching positive response id.
    InvalidResponseId,
    /// The response payload does not echo the request's parameters.
    InvalidResponse,
    /// The ECU kept answering "response pending" beyond the allowed number of times.
    PendingLimitExceeded,
}

impl From<IsotpError> for UdsError {
    fn from(e: IsotpError) -> (r: UdsError)
        ensures
            r == UdsError::Isotp(e),
    {
        UdsError::Isotp(e)
    }
}

impl vstd::std_specs::convert::FromSpecImpl<IsotpError> for UdsError {
    open spec fn obeys_from_spec() -> bool {
        true
    }

    open spec fn from_spec(e: IsotpError) -> UdsError {
        UdsError::Isotp(e)
    }
}

/// Leading byte of a positive response to a request with `request_sid`.
/// From SID 0xC0 on it exceeds a byte, so no response can carry it.
pub open spec fn positive_response_sid(request_sid: u8) -> int {
    request_sid as int + UDS_POSITIVE_OFFSET as int
}

/// What one response message means for an outstanding request.
pub ghost enum ReplyModel {
    Pending,
    Positive(Seq<u8>),
    Failed(UdsError),
}

/// How one response message to a request with `request_sid` is read.
pub open spec fn reply_model(request_sid: u8, response: Seq<u8>) -> ReplyModel {
    if response.len() == 0 {
        ReplyModel::Failed(UdsError::EmptyResponse)
    } else if response[0] == UDS_NEGATIVE_RESPONSE {
        if response.len() > 1 {
            if response[1] == UDS_NRES_RCRRP {
                ReplyModel::Pending
            } else {
                ReplyModel::Failed(UdsError::NegativeResponse(response[1]))
            }
        } else {
            ReplyModel::Failed(UdsError::NegativeResponse(0))
        }
    } else if response[0] as int != positive_response_sid(request_sid) {
        ReplyModel::Failed(UdsError::InvalidResponseId)
    } else {
        ReplyModel::Positive(response.drop_first())
    }
}

/// One response message, classified.
pub enum Reply {
    /// The ECU asks to keep waiting for the real answer.
    Pending,
    /// A positive response; holds the bytes after the response id.
    Positive(Vec<u8>),
    /// The request failed.
    Failed(UdsError),
}

impl View for Reply {
    type V = ReplyModel;

    open spec fn view(&self) -> ReplyModel {
        match self {
            Reply::Pending => ReplyModel::Pending,
            Reply::Positive(v) => ReplyModel::Positive(v@),
            Reply::Failed(e) => ReplyModel::Failed(*e),
        }
    }
}

/// Copies `data[start..]` into a new vector.
pub fn copy_from(data: &[u8], start: usize) -> (r: Vec<u8>)
    requires
        start <= data@.len(),
    ensures
        r@ == data@.subrange(start as int, data@.len() as int),
{
    let mut r: Vec<u8> = Vec::with_capacity(data.len() - start);
    let mut i: usize = start;
    while i < data.len()
        invariant
            start <= i <= data@.len(),
            r@ == data@.subrange(start as int, i as int),
        decreases data@.len() - i,
    {
        r.push(data[i]);
        i = i + 1;
    }
    r
}

/// Classifies one response message to a request with `request_sid`.
pub fn classify_response(request_sid: u8, response: &[u8]) -> (r: Reply)
    ensures
        r@ == reply_model(request_sid, response@),
{
    if response.len() == 0 {
        return Reply::Failed(UdsError::EmptyResponse);
    }
    if response[0] == UDS_NEGATIVE_RESPONSE {
        if response.len() > 1 {
            if response[1] == UDS_NRES_RCRRP {
                return Reply::Pending;
            }
            return Reply::Failed(UdsError::NegativeResponse(response[1]));
        }
        return Reply::Failed(UdsError::NegativeResponse(0));
    }
    if request_sid >= 0xC0 || response[0] != request_sid + UDS_POSITIVE_OFFSET {
        return Reply::Failed(UdsError::InvalidResponseId);
    }
    let payload = copy_from(response, 1);
    assert(payload@ =~= response@.drop_first());
    Reply::Positive(payload)
}

/// What a request has come to after the ECU sent `responses`, when at most
/// `max_pending` response-pending replies are waited through: `None` while
/// the answer is still to come.
pub open spec fn exchange_outcome(
    request_sid: u8,
    max_pending: nat,
    responses: Seq<Seq<u8>>,
) -> Option<Result<Seq<u8>, UdsError>>
    decreases responses.len(),
{
    if responses.len() == 0 {
        None
    } else {
        match reply_model(request_sid, responses[0]) {
            ReplyModel::Pending => if max_pending == 0 {
                Some(Err(UdsError::PendingLimitExceeded))
            } else {
                exchange_outcome(request_sid, (max_pending - 1) as nat, responses.drop_first())
            },
            ReplyModel::Positive(p) => Some(Ok(p)),
            ReplyModel::Failed(e) => Some(Err(e)),
        }
    }
}

/// The view of an executable exchange result.
pub open spec fn outcome_view(r: Option<Result<Vec<u8>, UdsError>>) -> Option<Result<Seq<u8>, UdsError>> {
    match r {
        None => None,
        Some(Ok(v)) => Some(Ok(v@)),
        Some(Err(e)) => Some(Err(e)),
    }
}

/// The view of an executable request result.
pub open spec fn result_view(r: Result<Vec<u8>, UdsError>) -> Result<Seq<u8>, UdsError> {
    match r {
        Ok(v) => Ok(v@),
        Err(e) => Err(e),
    }
}

/// An exchange is still open exactly when every response so far was a
/// pending reply, and there were no more of them than allowed.
pub proof fn lemma_open_exchange(request_sid: u8, max_pending: nat, responses: Seq<Seq<u8>>)
    ensures
        exchange_outcome(request_sid, max_pending, responses) is None <==> (
        responses.len() <= max_pending && forall|i: int|
            0 <= i < responses.len() ==> reply_model(request_sid, #[trigger] responses[i])
                is Pending),
    decreases responses.len(),
{
    if responses.len() > 0 {
        lemma_open_exchange(request_sid, (max_pending - 1) as nat, responses.drop_first());
        if max_pending > 0 && reply_model(request_sid, responses[0]) is Pending {
            assert forall|i: int| 0 < i < responses.len() implies #[trigger] responses[i]
                == responses.drop_first()[i - 1] by {}
        }
        if exchange_outcome(request_sid, max_pending, responses) is None {
            assert forall|i: int|
                0 <= i < responses.len() implies reply_model(request_sid, #[trigger] responses[i])
                is Pending by {
                if i > 0 {
                    assert(responses[i] == responses.drop_first()[i - 1]);
                }
            }
        }
    }
}

/// Appending one response to an open exchange: a pending reply keeps it
/// open within the allowance, anything else decides it.
pub proof fn lemma_exchange_push(
    request_sid: u8,
    max_pending: nat,
    responses: Seq<Seq<u8>>,
    response: Seq<u8>,
)
    requires
        exchange_outcome(request_sid, max_pending, responses) is None,
    ensures
        exchange_outcome(request_sid, max_pending, responses.push(response)) == match reply_model(
            request_sid,
            response,
        ) {
            ReplyModel::Pending => if responses.len() == max_pending {
                Some(Err(UdsError::PendingLimitExceeded))
            } else {
                None
            },
            ReplyModel::Positive(p) => Some(Ok(p)),
            ReplyModel::Failed(e) => Some(Err(e)),
        },
    decreases responses.len(),
{
    if responses.len() > 0 {
        assert(responses.push(response)[0] == responses[0]);
        assert(responses.push(response).drop_first() =~= responses.drop_first().push(response));
        lemma_exchange_push(request_sid, (max_pending - 1) as nat, responses.drop_first(), response);
    } else {
        assert(responses.push(response)[0] == response);
        assert(responses.push(response).drop_first() =~= Seq::<Seq<u8>>::empty());
        assert(exchange_outcome(request_sid, (max_pending - 1) as nat, Seq::<Seq<u8>>::empty()) is None);
    }
}

/// The state of one request awaiting its response: the request's SID, how
/// many response-pending replies may still be waited through, and the
/// responses received so far.
pub struct Exchange {
    request_sid: u8,
    max_pending: u64,
    pending_seen: u64,
    responses: Ghost<Seq<Seq<u8>>>,
}

impl Exchange {
    pub closed spec fn request_sid(&self) -> u8 {
        self.request_sid
    }

    pub closed spec fn max_pending(&self) -> nat {
        self.max_pending as nat
    }

    /// The responses received so far.
    pub closed spec fn responses(&self) -> Seq<Seq<u8>> {
        self.responses@
    }

    /// The exchange still waits for its answer.
    pub open spec fn is_open(&self) -> bool {
        exchange_outcome(self.request_sid(), self.max_pending(), self.responses()) is None
    }

    pub closed spec fn wf(&self) -> bool {
        self.is_open() ==> self.pending_seen as nat == self.responses@.len()
    }

    /// Opens an exchange for a request with `request_sid` that waits through
    /// at most `max_pending` response-pending replies.
    pub fn new(request_sid: u8, max_pending: u64) -> (r: Exchange)
        ensures
            r.wf(),
            r.request_sid() == request_sid,
            r.max_pending() == max_pending,
            r.responses() == Seq::<Seq<u8>>::empty(),
    {
        Exchange { request_sid, max_pending, pending_seen: 0, responses: Ghost(Seq::empty()) }
    }

    /// Pending replies that may still come before the exchange gives up.
    pub fn pending_left(&self) -> (r: u64)
        requires
            self.wf(),
            self.is_open(),
        ensures
            r == self.max_pending() - self.responses().len(),
    {
        proof {
            lemma_open_exchange(self.request_sid, self.max_pending as nat, self.responses@);
        }
        self.max_pending - self.pending_seen
    }

    /// Takes in the next response message. Returns `None` while the answer is
    /// still pending, else the result of the request.
    pub fn on_response(&mut self, response: &[u8]) -> (r: Option<Result<Vec<u8>, UdsError>>)
        requires
            old(self).wf(),
            old(self).is_open(),
        ensures
            final(self).wf(),
            final(self).request_sid() == old(self).request_sid(),
            final(self).max_pending() == old(self).max_pending(),
            final(self).responses() == old(self).responses().push(response@),
            outcome_view(r) == exchange_outcome(
                final(self).request_sid(),
                final(self).max_pending(),
                final(self).responses(),
            ),
    {
        proof {
            lemma_open_exchange(self.request_sid, self.max_pending as nat, self.responses@);
            lemma_exchange_push(self.request_sid, self.max_pending as nat, self.responses@, response@);
        }
        let reply = classify_response(self.request_sid, response);
        let ghost old_responses = self.responses@;
        self.responses = Ghost(old_responses.push(response@));
        match reply {
            Reply::Pending => {
                if self.pending_seen == self.max_pending {
                    Some(Err(UdsError::PendingLimitExceeded))
                } else {
                    self.pending_seen = self.pending_seen + 1;
                    None
                }
            },
            Reply::Positive(p) => Some(Ok(p)),
            Reply::Failed(e) => Some(Err(e)),
        }
    }
}

/// A request message on the wire: the SID, then the parameters.
pub fn encode_request(request_sid: u8, data: &[u8]) -> (r: Vec<u8>)
    ensures
        r@ == seq![request_sid] + data@,
{
    let mut r: Vec<u8> = Vec::new();
    r.push(request_sid);
    let mut i: usize = 0;
    while i < data.len()
        invariant
            i <= data@.len(),
            r@ == seq![request_sid] + data@.subrange(0, i as int),
        decreases data@.len() - i,
    {
        r.push(data[i]);
        i = i + 1;
        assert(r@ =~= seq![request_sid] + data@.subrange(0, i as int));
    }
    assert(data@.subrange(0, data@.len() as int) =~= data@);
    r
}

/// Sends one request over `transport` and waits for its answer, through at
/// most `max_pending` response-pending replies. Whatever the transport
/// hands back, a result that is not a transport failure is what the
/// exchange comes to on the responses that were received.
pub fn run_exchange<T: Isotp + ?Sized>(transport: &T, request_sid: u8, data: &[u8], max_pending: u64) -> (r:
    Result<Vec<u8>, UdsError>)
    ensures
        !(r matches Err(UdsError::Isotp(_))) ==> exists|responses: Seq<Seq<u8>>|
            #[trigger] exchange_outcome(request_sid, max_pending as nat, responses) == Some(
                result_view(r),
            ),
{
    let request = encode_request(request_sid, data);
    match transport.write_isotp(request.as_slice()) {
        Ok(()) => {},
        Err(e) => {
            return Err(UdsError::Isotp(e));
        },
    }
    let mut exchange = Exchange::new(request_sid, max_pending);
    loop
        invariant
            exchange.wf(),
            exchange.is_open(),
            exchange.request_sid() == request_sid,
            exchange.max_pending() == max_pending,
            exchange.responses().len() <= max_pending,
        decreases max_pending - exchange.responses().len(),
    {
        let response = match transport.read_isotp() {
            Ok(v) => v,
            Err(e) => {
                return Err(UdsError::Isotp(e));
            },
        };
        match exchange.on_response(response.as_slice()) {
            None => {
                proof {
                    lemma_open_exchange(request_sid, max_pending as nat, exchange.responses());
                }
            },
            Some(r) => {
                assert(exchange_outcome(request_sid, max_pending as nat, exchange.responses())
                    == Some(result_view(r)));
                return r;
            },
        }
    }
}

/// A positive response whose first byte echoes `echo`: the bytes after it.
pub open spec fn echo_model(echo: u8, response: Seq<u8>) -> Result<Seq<u8>, UdsError> {
    if response.len() == 0 {
        Err(UdsError::EmptyResponse)
    } else if response[0] != echo {
        Err(UdsError::InvalidResponse)
    } else {
        Ok(response.drop_first())
    }
}

/// Checks that a positive response payload starts with `echo` and strips it.
pub fn strip_echo(echo: u8, response: &[u8]) -> (r: Result<Vec<u8>, UdsError>)
    ensures
        result_view(r) == echo_model(echo, response@),
{
    if response.len() == 0 {
        return Err(UdsError::EmptyResponse);
    }
    if response[0] != echo {
        return Err(UdsError::InvalidResponse);
    }
    let rest = copy_from(response, 1);
    assert(rest@ =~= response@.drop_first());
    Ok(rest)
}

/// Big-endian bytes of a 16-bit value.
pub open spec fn be_u16_bytes(x: u16) -> Seq<u8> {
    seq![(x / 0x100) as u8, (x % 0x100) as u8]
}

/// Big-endian bytes of a 32-bit value.
pub open spec fn be_u32_bytes(x: u32) -> Seq<u8> {
    seq![
        (x / 0x100_0000) as u8,
        (x / 0x1_0000 % 0x100) as u8,
        (x / 0x100 % 0x100) as u8,
        (x % 0x100) as u8,
    ]
}

/// Parameters of a ReadMemoryByAddress request: the 4-byte address, then
/// the 2-byte length, both big-endian.
pub fn read_memory_request(address: u32, length: u16) -> (r: Vec<u8>)
    ensures
        r@ == be_u32_bytes(address) + be_u16_bytes(length),
{
    let mut r: Vec<u8> = Vec::with_capacity(6);
    r.push((address / 0x100_0000) as u8);
    r.push((address / 0x1_0000 % 0x100) as u8);
    r.push((address / 0x100 % 0x100) as u8);
    r.push((address % 0x100) as u8);
    r.push((length / 0x100) as u8);
    r.push((length % 0x100) as u8);
    assert(r@ =~= be_u32_bytes(address) + be_u16_bytes(length));
    r
}

/// Parameters of a ReadDataByIdentifier request: the identifier, big-endian.
pub fn data_identifier_request(id: u16) -> (r: Vec<u8>)
    ensures
        r@ == be_u16_bytes(id),
{
    let mut r: Vec<u8> = Vec::with_capacity(2);
    r.push((id / 0x100) as u8);
    r.push((id % 0x100) as u8);
    assert(r@ =~= be_u16_bytes(id));
    r
}

/// A ReadDataByIdentifier response payload that echoes `id`: the data after it.
pub open spec fn data_identifier_model(id: u16, response: Seq<u8>) -> Result<Seq<u8>, UdsError> {
    if response.len() < 2 || response.subrange(0, 2) != be_u16_bytes(id) {
        Err(UdsError::InvalidResponse)
    } else {
        Ok(response.subrange(2, response.len() as int))
    }
}

/// Checks that a ReadDataByIdentifier response payload echoes `id` and strips it.
pub fn strip_data_identifier(id: u16, response: &[u8]) -> (r: Result<Vec<u8>, UdsError>)
    ensures
        result_view(r) == data_identifier_model(id, response@),
{
    let request = data_identifier_request(id);
    if response.len() < 2 {
        return Err(UdsError::InvalidResponse);
    }
    if response[0] != request[0] || response[1] != request[1] {
        assert(response@.subrange(0, 2)[0] != be_u16_bytes(id)[0] || response@.subrange(0, 2)[1]
            != be_u16_bytes(id)[1]);
        return Err(UdsError::InvalidResponse);
    }
    assert(response@.subrange(0, 2) =~= be_u16_bytes(id));
    Ok(copy_from(response, 2))
}

/// Parameters of a SecurityAccess send-key request: the sub-function, then the key.
pub fn security_key_request(key: &[u8]) -> (r: Vec<u8>)
    ensures
        r@ == seq![UDS_SECURITY_SEND_KEY] + key@,
{
    encode_request(UDS_SECURITY_SEND_KEY, key)
}

/// What a request handed to the exchange engine, waiting through at most
/// `UDS_DEFAULT_MAX_PENDING` pending replies, may return: a transport
/// failure, or what the exchange comes to on the responses the ECU sent.
pub open spec fn exchange_may_return(request_sid: u8, result: Result<Seq<u8>, UdsError>) -> bool {
    result matches Err(UdsError::Isotp(_)) || exists|responses: Seq<Seq<u8>>|
        #[trigger] exchange_outcome(request_sid, UDS_DEFAULT_MAX_PENDING as nat, responses) == Some(
            result,
        )
}

/// A service whose positive response starts with an echo byte, given what
/// the request returned: the engine's error unchanged, or the checked and
/// stripped payload.
pub open spec fn echo_outcome(echo: u8, x: Result<Seq<u8>, UdsError>) -> Result<Seq<u8>, UdsError> {
    match x {
        Ok(v) => echo_model(echo, v),
        Err(e) => Err(e),
    }
}

/// Checks the echo byte of what a request returned; hands on its error unchanged.
pub fn echo_result(echo: u8, x: Result<Vec<u8>, UdsError>) -> (r: Result<Vec<u8>, UdsError>)
    ensures
        result_view(r) == echo_outcome(echo, result_view(x)),
{
    match x {
        Ok(v) => strip_echo(echo, v.as_slice()),
        Err(e) => Err(e),
    }
}

/// ReadDataByIdentifier given what the request returned: the engine's error
/// unchanged, or the checked payload without the identifier.
pub open spec fn data_identifier_outcome(id: u16, x: Result<Seq<u8>, UdsError>) -> Result<
    Seq<u8>,
    UdsError,
> {
    match x {
        Ok(v) => data_identifier_model(id, v),
        Err(e) => Err(e),
    }
}

/// Checks the echoed identifier of what a request returned; hands on its
/// error unchanged.
pub fn data_identifier_result(id: u16, x: Result<Vec<u8>, UdsError>) -> (r: Result<Vec<u8>, UdsError>)
    ensures
        result_view(r) == data_identifier_outcome(id, result_view(x)),
{
    match x {
        Ok(v) => strip_data_identifier(id, v.as_slice()),
        Err(e) => Err(e),
    }
}

/// A request whose positive payload is not examined: `Ok(())` on any
/// success, the engine's error unchanged.
pub open spec fn unit_outcome(x: Result<Seq<u8>, UdsError>) -> Result<(), UdsError> {
    match x {
        Ok(_) => Ok(()),
        Err(e) => Err(e),
    }
}

/// Drops the payload of what a request returned; hands on its error unchanged.
pub fn unit_result(x: Result<Vec<u8>, UdsError>) -> (r: Result<(), UdsError>)
    ensures
        r == unit_outcome(result_view(x)),
{
    match x {
        Ok(_) => Ok(()),
        Err(e) => Err(e),
    }
}

/// Parameters of a DiagnosticSessionControl request: the session type.
pub fn session_request(session_type: u8) -> (r: Vec<u8>)
    ensures
        r@ == seq![session_type],
{
    let r = vec![session_type];
    assert(r@ =~= seq![session_type]);
    r
}

/// Parameters of a SecurityAccess seed request: the sub-function.
pub fn security_seed_request() -> (r: Vec<u8>)
    ensures
        r@ == seq![UDS_SECURITY_REQUEST_SEED],
{
    let r = vec![UDS_SECURITY_REQUEST_SEED];
    assert(r@ =~= seq![UDS_SECURITY_REQUEST_SEED]);
    r
}

/// Requests with UDS services. `request` carries one request and returns
/// the positive response's payload; the services are built on it.
pub trait UdsInterface {
    /// Holds when `result` is a possible result of `request(request_sid, data)`.
    spec fn answers(&self, request_sid: u8, data: Seq<u8>, result: Result<Seq<u8>, UdsError>) -> bool;

    fn request(&self, request_sid: u8, data: &[u8]) -> (r: Result<Vec<u8>, UdsError>)
        ensures
            self.answers(request_sid, data@, result_view(r)),
    ;

    /// Sends a DiagnosticSessionControl request (SID 0x10 with the session
    /// type). Returns parameter record.
    fn request_session(&self, session_type: u8) -> (r: Result<Vec<u8>, UdsError>)
        ensures
            exists|x: Result<Seq<u8>, UdsError>|
                #[trigger] self.answers(UDS_REQ_SESSION, seq![session_type], x) && result_view(r)
                    == echo_outcome(session_type, x),
    {
        let params = session_request(session_type);
        let x = self.request(UDS_REQ_SESSION, params.as_slice());
        let ghost xv = result_view(x);
        let r = echo_result(session_type, x);
        assert(self.answers(UDS_REQ_SESSION, seq![session_type], xv));
        r
    }

    /// Asks for a security access seed (SID 0x27 with sub-function 0x01).
    /// Returns the seed.
    fn request_security_seed(&self) -> (r: Result<Vec<u8>, UdsError>)
        ensures
            exists|x: Result<Seq<u8>, UdsError>|
                #[trigger] self.answers(UDS_REQ_SECURITY, seq![UDS_SECURITY_REQUEST_SEED], x)
                    && result_view(r) == echo_outcome(UDS_SECURITY_REQUEST_SEED, x),
    {
        let params = security_seed_request();
        let x = self.request(UDS_REQ_SECURITY, params.as_slice());
        let ghost xv = result_view(x);
        let r = echo_result(UDS_SECURITY_REQUEST_SEED, x);
        assert(self.answers(UDS_REQ_SECURITY, seq![UDS_SECURITY_REQUEST_SEED], xv));
        r
    }

    /// Sends the key computed from a seed (SID 0x27 with sub-function 0x02,
    /// then the key). The response payload is not examined.
    fn request_security_key(&self, key: &[u8]) -> (r: Result<(), UdsError>)
        ensures
            exists|x: Result<Seq<u8>, UdsError>|
                #[trigger] self.answers(UDS_REQ_SECURITY, seq![UDS_SECURITY_SEND_KEY] + key@, x)
                    && r == unit_outcome(x),
    {
        let params = security_key_request(key);
        let x = self.request(UDS_REQ_SECURITY, params.as_slice());
        let ghost xv = result_view(x);
        let r = unit_result(x);
        assert(self.answers(UDS_REQ_SECURITY, seq![UDS_SECURITY_SEND_KEY] + key@, xv));
        r
    }

    /// Reads `length` bytes of ECU memory at `address` (SID 0x23 with the
    /// big-endian address and length). The request's result is returned as
    /// it came; the payload's length is not checked.
    fn request_read_memory_address(&self, address: u32, length: u16) -> (r: Result<Vec<u8>, UdsError>)
        ensures
            self.answers(
                UDS_REQ_READMEM,
                be_u32_bytes(address) + be_u16_bytes(length),
                result_view(r),
            ),
    {
        let params = read_memory_request(address, length);
        self.request(UDS_REQ_READMEM, params.as_slice())
    }

    /// Reads the record with data identifier `id` (SID 0x22 with the
    /// big-endian identifier).
    fn read_data_by_identifier(&self, id: u16) -> (r: Result<Vec<u8>, UdsError>)
        ensures
            exists|x: Result<Seq<u8>, UdsError>|
                #[trigger] self.answers(UDS_REQ_READDATABYID, be_u16_bytes(id), x) && result_view(r)
                    == data_identifier_outcome(id, x),
    {
        let params = data_identifier_request(id);
        let x = self.request(UDS_REQ_READDATABYID, params.as_slice());
        let ghost xv = result_view(x);
        let r = data_identifier_result(id, x);
        assert(self.answers(UDS_REQ_READDATABYID, be_u16_bytes(id), xv));
        r
    }
}

impl<T: Isotp + ?Sized> UdsInterface for T {
    /// Whatever the data, a transport failure or what the exchange comes to
    /// on the responses received.
    open spec fn answers(&self, request_sid: u8, data: Seq<u8>, result: Result<Seq<u8>, UdsError>) -> bool {
        exchange_may_return(request_sid, result)
    }

    /// Waits through response-pending replies for as long as the ECU sends them.
    fn request(&self, request_sid: u8, data: &[u8]) -> (r: Result<Vec<u8>, UdsError>) {
        run_exchange(self, request_sid, data, UDS_DEFAULT_MAX_PENDING)
    }
}

/// A positive response, `[request_sid + 0x40] ++ payload`, ends the request
/// with exactly `payload`. (Only SIDs below 0xC0 have a positive response id
/// that fits a byte; the one SID whose positive response id is the negative
/// response marker is left out.)
pub proof fn lemma_positive_response_returns_payload(
    request_sid: u8,
    max_pending: nat,
    payload: Seq<u8>,
)
    requires
        request_sid < 0xC0,
        positive_response_sid(request_sid) != UDS_NEGATIVE_RESPONSE as int,
    ensures
        exchange_outcome(request_sid, max_pending, seq![seq![positive_response_sid(request_sid) as u8] + payload])
            == Some(Ok::<Seq<u8>, UdsError>(payload)),
{
    let response = seq![positive_response_sid(request_sid) as u8] + payload;
    assert(response.drop_first() =~= payload);
    assert(seq![response].drop_first() =~= Seq::<Seq<u8>>::empty());
}

/// Response-pending replies (`[0x7F, 0x78, ..]`) are waited through: when no
/// more of them come than allowed, and a positive response follows, the
/// request ends with that response's payload.
pub proof fn lemma_pending_replies_are_skipped(
    request_sid: u8,
    max_pending: nat,
    pending: Seq<Seq<u8>>,
    payload: Seq<u8>,
)
    requires
        request_sid < 0xC0,
        positive_response_sid(request_sid) != UDS_NEGATIVE_RESPONSE as int,
        pending.len() <= max_pending,
        forall|i: int|
            0 <= i < pending.len() ==> (#[trigger] pending[i]).len() >= 2 && pending[i][0]
                == UDS_NEGATIVE_RESPONSE && pending[i][1] == UDS_NRES_RCRRP,
    ensures
        exchange_outcome(
            request_sid,
            max_pending,
            pending.push(seq![positive_response_sid(request_sid) as u8] + payload),
        ) == Some(Ok::<Seq<u8>, UdsError>(payload)),
{
    let response = seq![positive_response_sid(request_sid) as u8] + payload;
    assert(response.drop_first() =~= payload);
    assert forall|i: int| 0 <= i < pending.len() implies reply_model(
        request_sid,
        #[trigger] pending[i],
    ) is Pending by {}
    lemma_open_exchange(request_sid, max_pending, pending);
    lemma_exchange_push(request_sid, max_pending, pending, response);
}

/// A negative response `[0x7F, nrc]` with any code but response-pending ends
/// the request with a negative response error carrying exactly `nrc`.
pub proof fn lemma_negative_response_carries_code(request_sid: u8, max_pending: nat, nrc: u8)
    requires
        nrc != UDS_NRES_RCRRP,
    ensures
        exchange_outcome(request_sid, max_pending, seq![seq![UDS_NEGATIVE_RESPONSE, nrc]]) == Some(
            Err::<Seq<u8>, UdsError>(UdsError::NegativeResponse(nrc)),
        ),
{
}

/// An empty response ends the request with the empty response error.
pub proof fn lemma_empty_response_fails(request_sid: u8, max_pending: nat)
    ensures
        exchange_outcome(request_sid, max_pending, seq![Seq::<u8>::empty()]) == Some(
            Err::<Seq<u8>, UdsError>(UdsError::EmptyResponse),
        ),
{
}

/// A response whose leading byte is neither the negative response marker nor
/// the request's positive response id ends the request with the invalid
/// response id error.
pub proof fn lemma_foreign_response_id_fails(
    request_sid: u8,
    max_pending: nat,
    lead: u8,
    rest: Seq<u8>,
)
    requires
        lead != UDS_NEGATIVE_RESPONSE,
        lead as int != positive_response_sid(request_sid),
    ensures
        exchange_outcome(request_sid, max_pending, seq![seq![lead] + rest]) == Some(
            Err::<Seq<u8>, UdsError>(UdsError::InvalidResponseId),
        ),
{
    assert((seq![lead] + rest)[0] == lead);
}

} // verus!
