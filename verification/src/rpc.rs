//! The messages between nodes, and how they are sealed.

use crate::clock::now_ms;
use crate::crypto;
use crate::crypto::random_bytes;
use crate::encoding;
use crate::model::{MeshSnapshot, Service, ServiceView, SnapshotView};
use crate::number;
use crate::number::signed_text;
use crate::security;
use crate::security::{decrypt_string, encrypt_with_nonce, nonce, sign, verify};
use crate::text;
use crate::text::trim;
use crate::urls;
use vstd::prelude::*;
use vstd::utf8;

verus! {

/// What one node asks of another.
#[derive(Debug)]
pub enum RpcRequest {
    Ping,
    NodeInfo,
    ExportSnapshot,
    ImportSnapshot { snapshot: MeshSnapshot },
    DeployImage {
        image: String,
        service: String,
        container: String,
        port: Option<String>,
        env: Vec<(String, String)>,
        command: Vec<String>,
    },
    ContainerStatus { container: String },
    Logs { container: String, follow: bool },
    Exec { command: Vec<String> },
    Stop { container: String },
    Restart { container: String },
    Remove { container: String },
    DockerCheck,
}

/// What a node answers.
#[derive(Debug)]
pub enum RpcResponse {
    Done,
    Pong,
    NodeInfo { iroh_addr: Option<String> },
    Snapshot { snapshot: MeshSnapshot },
    Service { service: Service },
    ContainerStatus { status: String },
    Logs { output: String },
    Exec { output: String },
    Error { message: String },
}

/// A sealed message: its encrypted payload, and a signature over all the rest.
#[derive(Debug)]
pub struct RpcEnvelope {
    pub version: u8,
    pub timestamp_ms: i64,
    pub nonce: String,
    pub payload: String,
    pub signature: String,
}

/// A request whose seal was found good. Without a mesh key there is no seal, and no
/// nonce.
#[derive(Debug)]
pub struct VerifiedRpcRequest {
    pub request: RpcRequest,
    pub nonce: Option<String>,
}

/// What is sent for a message: the message, or its envelope.
#[derive(Debug)]
pub enum Frame {
    Plain(String),
    Sealed(RpcEnvelope),
}

/// A line that came in, with the envelope that it holds if it holds one.
#[derive(Debug)]
pub struct Line {
    pub text: String,
    pub envelope: Option<RpcEnvelope>,
}

/// The message in a line, and the nonce of its envelope.
#[derive(Debug)]
pub struct Opened {
    pub message: String,
    pub nonce: Option<String>,
}

/// How old or how far ahead a message may be, in milliseconds.
pub const WINDOW_MS: i128 = 300_000;

// ---------------------------------------------------------------------------
// Models.

#[verifier::ext_equal]
pub enum RequestView {
    Ping,
    NodeInfo,
    ExportSnapshot,
    ImportSnapshot { snapshot: SnapshotView },
    DeployImage {
        image: Seq<char>,
        service: Seq<char>,
        container: Seq<char>,
        port: Option<Seq<char>>,
        env: Seq<(Seq<char>, Seq<char>)>,
        command: Seq<Seq<char>>,
    },
    ContainerStatus { container: Seq<char> },
    Logs { container: Seq<char>, follow: bool },
    Exec { command: Seq<Seq<char>> },
    Stop { container: Seq<char> },
    Restart { container: Seq<char> },
    Remove { container: Seq<char> },
    DockerCheck,
}

#[verifier::ext_equal]
pub enum ResponseView {
    Done,
    Pong,
    NodeInfo { iroh_addr: Option<Seq<char>> },
    Snapshot { snapshot: SnapshotView },
    Service { service: ServiceView },
    ContainerStatus { status: Seq<char> },
    Logs { output: Seq<char> },
    Exec { output: Seq<char> },
    Error { message: Seq<char> },
}

#[verifier::ext_equal]
pub struct EnvelopeView {
    pub version: u8,
    pub timestamp_ms: i64,
    pub nonce: Seq<char>,
    pub payload: Seq<char>,
    pub signature: Seq<char>,
}

#[verifier::ext_equal]
pub enum FrameView {
    Plain(Seq<char>),
    Sealed(EnvelopeView),
}

impl View for Frame {
    type V = FrameView;

    open spec fn view(&self) -> FrameView {
        match self {
            Frame::Plain(m) => FrameView::Plain(m@),
            Frame::Sealed(e) => FrameView::Sealed(e@),
        }
    }
}

impl View for RpcRequest {
    type V = RequestView;

    open spec fn view(&self) -> RequestView {
        match self {
            RpcRequest::Ping => RequestView::Ping,
            RpcRequest::NodeInfo => RequestView::NodeInfo,
            RpcRequest::ExportSnapshot => RequestView::ExportSnapshot,
            RpcRequest::ImportSnapshot { snapshot } => RequestView::ImportSnapshot {
                snapshot: snapshot@,
            },
            RpcRequest::DeployImage { image, service, container, port, env, command } => {
                RequestView::DeployImage {
                    image: image@,
                    service: service@,
                    container: container@,
                    port: text::opt_text(*port),
                    env: urls::pairs_view(env@),
                    command: text::texts(command@),
                }
            },
            RpcRequest::ContainerStatus { container } => RequestView::ContainerStatus {
                container: container@,
            },
            RpcRequest::Logs { container, follow } => RequestView::Logs {
                container: container@,
                follow: *follow,
            },
            RpcRequest::Exec { command } => RequestView::Exec { command: text::texts(command@) },
            RpcRequest::Stop { container } => RequestView::Stop { container: container@ },
            RpcRequest::Restart { container } => RequestView::Restart { container: container@ },
            RpcRequest::Remove { container } => RequestView::Remove { container: container@ },
            RpcRequest::DockerCheck => RequestView::DockerCheck,
        }
    }
}

impl View for RpcResponse {
    type V = ResponseView;

    open spec fn view(&self) -> ResponseView {
        match self {
            RpcResponse::Done => ResponseView::Done,
            RpcResponse::Pong => ResponseView::Pong,
            RpcResponse::NodeInfo { iroh_addr } => ResponseView::NodeInfo {
                iroh_addr: text::opt_text(*iroh_addr),
            },
            RpcResponse::Snapshot { snapshot } => ResponseView::Snapshot { snapshot: snapshot@ },
            RpcResponse::Service { service } => ResponseView::Service { service: service@ },
            RpcResponse::ContainerStatus { status } => ResponseView::ContainerStatus {
                status: status@,
            },
            RpcResponse::Logs { output } => ResponseView::Logs { output: output@ },
            RpcResponse::Exec { output } => ResponseView::Exec { output: output@ },
            RpcResponse::Error { message } => ResponseView::Error { message: message@ },
        }
    }
}

impl View for RpcEnvelope {
    type V = EnvelopeView;

    open spec fn view(&self) -> EnvelopeView {
        EnvelopeView {
            version: self.version,
            timestamp_ms: self.timestamp_ms,
            nonce: self.nonce@,
            payload: self.payload@,
            signature: self.signature@,
        }
    }
}

/// The contents of an optional envelope.
pub open spec fn opt_envelope(o: Option<RpcEnvelope>) -> Option<EnvelopeView> {
    match o {
        Some(e) => Some(e@),
        None => None,
    }
}

// ---------------------------------------------------------------------------
// Sealing.

/// What the signature of a message is over.
pub open spec fn signed_text_of(
    kind: Seq<char>,
    timestamp_ms: i64,
    nonce: Seq<char>,
    payload: Seq<char>,
) -> Seq<char> {
    "via-rpc-v1\n"@ + kind + "\n"@ + number::decimal(timestamp_ms as int) + "\n"@ + nonce + "\n"@
        + payload
}

/// The bytes that the signature of a message is over.
pub open spec fn signed_bytes(
    kind: Seq<char>,
    timestamp_ms: i64,
    nonce: Seq<char>,
    payload: Seq<char>,
) -> Seq<u8> {
    utf8::encode_utf8(signed_text_of(kind, timestamp_ms, nonce, payload))
}

/// What comes of checking an envelope of a kind at the time `now`.
pub open spec fn envelope_outcome(key: Seq<u8>, kind: Seq<char>, e: EnvelopeView, now: i64) -> Result<
    (),
    Seq<char>,
> {
    if e.version != 1 {
        Err("unsupported RPC envelope version"@)
    } else if now - e.timestamp_ms > WINDOW_MS || e.timestamp_ms - now > WINDOW_MS {
        Err("RPC request timestamp is outside the accepted window"@)
    } else {
        security::verify_outcome(
            key,
            signed_bytes(kind, e.timestamp_ms, e.nonce, e.payload),
            e.signature,
        )
    }
}

/// The message in an envelope of a kind, or what is said of it.
pub open spec fn message_outcome(key: Seq<u8>, kind: Seq<char>, e: EnvelopeView, now: i64) -> Result<
    Seq<char>,
    Seq<char>,
> {
    match envelope_outcome(key, kind, e, now) {
        Err(e) => Err(e),
        Ok(()) => security::decrypt_outcome(key, e.payload),
    }
}

/// The message in a line of a kind and the nonce of its envelope, or what is said
/// of the line. With a mesh key every message has to be sealed.
pub open spec fn line_outcome(
    key: Option<Seq<u8>>,
    kind: Seq<char>,
    line: Seq<char>,
    envelope: Option<EnvelopeView>,
    now: i64,
) -> Result<(Seq<char>, Option<Seq<char>>), Seq<char>> {
    match key {
        None => Ok((line, None)),
        Some(k) => match envelope {
            None => Err("encrypted RPC envelope required once mesh auth is initialized"@),
            Some(e) => match message_outcome(k, kind, e, now) {
                Ok(m) => Ok((m, Some(e.nonce))),
                Err(x) => Err(x),
            },
        },
    }
}

/// The bytes that the signature of a message is over.
pub fn signed_payload(kind: &str, timestamp_ms: i64, nonce: &str, payload: &str) -> (r: Vec<u8>)
    ensures
        r@ == signed_bytes(kind@, timestamp_ms, nonce@, payload@),
{
    let text = "via-rpc-v1\n".to_owned().concat(kind).concat("\n").concat(
        signed_text(timestamp_ms).as_str(),
    ).concat("\n").concat(nonce).concat("\n").concat(payload);
    text.as_str().as_bytes_vec()
}

/// Seals a message with a nonce for its signature and one for its encryption. The
/// envelope is accepted for its kind while the time is within the window, and the
/// message is read back from it.
pub fn seal_envelope(
    key: &Vec<u8>,
    kind: &str,
    message: &str,
    now: i64,
    nonce: String,
    iv: &Vec<u8>,
) -> (r: Result<RpcEnvelope, String>)
    requires
        iv@.len() == 12,
    ensures
        match r {
            Err(e) => security::encrypt_outcome(key@, iv@, message@) == Err::<
                Seq<char>,
                Seq<char>,
            >(e@),
            Ok(e) => sealed_as(key@, kind@, message@, now, nonce@, e@)
                && security::encrypt_outcome(key@, iv@, message@) == Ok::<Seq<char>, Seq<char>>(
                e.payload@,
            ),
        },
{
    match encrypt_with_nonce(key, iv, message) {
        Err(e) => Err(e),
        Ok(payload) => finish_envelope(key, kind, now, nonce, payload),
    }
}

/// That an envelope is what sealing a message makes, with some nonce for its
/// encryption.
pub open spec fn sealed_as(
    key: Seq<u8>,
    kind: Seq<char>,
    message: Seq<char>,
    now: i64,
    nonce: Seq<char>,
    e: EnvelopeView,
) -> bool {
    &&& e.version == 1
    &&& e.timestamp_ms == now
    &&& e.nonce == nonce
    &&& e.signature == security::signature(key, signed_bytes(kind, now, nonce, e.payload))
    &&& security::decrypt_outcome(key, e.payload) == Ok::<Seq<char>, Seq<char>>(message)
    &&& security::verify_outcome(
        key,
        signed_bytes(kind, now, nonce, e.payload),
        e.signature,
    ) is Ok
}

/// That a frame is what may be sent for a message of a kind: the message itself only where
/// there is no key, and else what sealing it with the key makes.
pub open spec fn is_frame_for(
    frame: FrameView,
    key: Option<Seq<u8>>,
    kind: Seq<char>,
    message: Seq<char>,
) -> bool {
    match key {
        None => frame == FrameView::Plain(message),
        Some(k) => frame matches FrameView::Sealed(e) && sealed_as(
            k,
            kind,
            message,
            e.timestamp_ms,
            e.nonce,
            e,
        ) && security::is_nonce(e.nonce) && !e.nonce.contains('\n'),
    }
}

/// Signs an encrypted message.
fn finish_envelope(key: &Vec<u8>, kind: &str, now: i64, nonce: String, payload: String) -> (r:
    Result<RpcEnvelope, String>)
    ensures
        r matches Ok(e) && e.version == 1 && e.timestamp_ms == now && e.nonce@ == nonce@
            && e.payload@ == payload@ && e.signature@ == security::signature(
            key@,
            signed_bytes(kind@, now, nonce@, payload@),
        ) && security::verify_outcome(
            key@,
            signed_bytes(kind@, now, nonce@, payload@),
            e.signature@,
        ) is Ok,
{
    let signed = signed_payload(kind, now, nonce.as_str(), payload.as_str());
    match sign(key, &signed) {
        Err(e) => Err(e),
        Ok(signature) => Ok(
            RpcEnvelope { version: 1, timestamp_ms: now, nonce, payload, signature },
        ),
    }
}

/// What is sent for a message of a kind. Without a mesh key that is the message
/// itself; with one it is sealed, at the time that the clock shows and with fresh
/// nonces.
pub fn encode_frame(key: &Option<Vec<u8>>, kind: &str, message: String) -> (r: Result<
    Frame,
    String,
>)
    ensures
        key is None ==> (r matches Ok(Frame::Plain(m)) && m@ == message@),
        key is Some && r is Ok ==> r->Ok_0 is Sealed,
        key is Some && key->Some_0@.len() != 32 ==> (r is Err && r->Err_0@ == "Invalid Length"@),
        key is Some && utf8::encode_utf8(message@).len() > crypto::LONGEST_PLAINTEXT ==> r is Err,
        r matches Ok(Frame::Sealed(e)) ==> key is Some && sealed_as(
            key->Some_0@,
            kind@,
            message@,
            e.timestamp_ms,
            e.nonce@,
            e@,
        ) && security::is_nonce(e.nonce@) && !e.nonce@.contains('\n'),
{
    match key {
        None => Ok(Frame::Plain(message)),
        Some(k) => {
            if k.len() != 32 {
                return Err("Invalid Length".to_owned());
            }
            let iv = match random_bytes(12) {
                Ok(bytes) => bytes,
                Err(e) => return Err(e),
            };
            let n = match nonce() {
                Ok(n) => n,
                Err(e) => return Err(e),
            };
            match seal_envelope(k, kind, message.as_str(), now_ms(), n, &iv) {
                Ok(e) => Ok(Frame::Sealed(e)),
                Err(e) => Err(e),
            }
        },
    }
}

/// What is sent for a request.
pub fn encode_request(key: &Option<Vec<u8>>, request: String) -> (r: Result<Frame, String>)
    ensures
        key is None ==> (r matches Ok(Frame::Plain(m)) && m@ == request@),
        key is Some && r is Ok ==> r->Ok_0 is Sealed,
        key is Some && key->Some_0@.len() != 32 ==> (r is Err && r->Err_0@ == "Invalid Length"@),
        key is Some && utf8::encode_utf8(request@).len() > crypto::LONGEST_PLAINTEXT ==> r is Err,
        r matches Ok(Frame::Sealed(e)) ==> key is Some && sealed_as(
            key->Some_0@,
            "rpc.request"@,
            request@,
            e.timestamp_ms,
            e.nonce@,
            e@,
        ) && security::is_nonce(e.nonce@) && !e.nonce@.contains('\n'),
{
    encode_frame(key, "rpc.request", request)
}

/// What is sent for a response.
pub fn encode_response(key: &Option<Vec<u8>>, response: String) -> (r: Result<Frame, String>)
    ensures
        key is None ==> (r matches Ok(Frame::Plain(m)) && m@ == response@),
        key is Some && r is Ok ==> r->Ok_0 is Sealed,
        key is Some && key->Some_0@.len() != 32 ==> (r is Err && r->Err_0@ == "Invalid Length"@),
        key is Some && utf8::encode_utf8(response@).len() > crypto::LONGEST_PLAINTEXT ==> r is Err,
        r matches Ok(Frame::Sealed(e)) ==> key is Some && sealed_as(
            key->Some_0@,
            "rpc.response"@,
            response@,
            e.timestamp_ms,
            e.nonce@,
            e@,
        ) && security::is_nonce(e.nonce@) && !e.nonce@.contains('\n'),
{
    encode_frame(key, "rpc.response", response)
}

/// Checks an envelope of a kind at the time `now`.
pub fn verify_envelope(key: &Vec<u8>, kind: &str, envelope: &RpcEnvelope, now: i64) -> (r: Result<
    (),
    String,
>)
    ensures
        text::unit_outcome(r) == envelope_outcome(key@, kind@, envelope@, now),
{
    if envelope.version != 1 {
        return Err("unsupported RPC envelope version".to_owned());
    }
    let age: i128 = now as i128 - envelope.timestamp_ms as i128;
    if age > WINDOW_MS || age < -WINDOW_MS {
        return Err("RPC request timestamp is outside the accepted window".to_owned());
    }
    let signed = signed_payload(
        kind,
        envelope.timestamp_ms,
        envelope.nonce.as_str(),
        envelope.payload.as_str(),
    );
    verify(key, &signed, envelope.signature.as_str())
}

/// The contents of what was opened.
pub open spec fn opened_view(r: Result<Opened, String>) -> Result<
    (Seq<char>, Option<Seq<char>>),
    Seq<char>,
> {
    match r {
        Ok(o) => Ok((o.message@, text::opt_text(o.nonce))),
        Err(e) => Err(e@),
    }
}

/// The bytes of an optional key.
pub open spec fn opt_key(key: Option<Vec<u8>>) -> Option<Seq<u8>> {
    match key {
        Some(k) => Some(k@),
        None => None,
    }
}

/// The message in a line of a kind.
pub fn decode_frame(key: &Option<Vec<u8>>, kind: &str, line: &Line, now: i64) -> (r: Result<
    Opened,
    String,
>)
    ensures
        opened_view(r) == line_outcome(
            opt_key(*key),
            kind@,
            line.text@,
            opt_envelope(line.envelope),
            now,
        ),
{
    match key {
        None => Ok(Opened { message: line.text.clone(), nonce: None }),
        Some(k) => match &line.envelope {
            None => Err(
                "encrypted RPC envelope required once mesh auth is initialized".to_owned(),
            ),
            Some(e) => match verify_envelope(k, kind, e, now) {
                Err(x) => Err(x),
                Ok(()) => match decrypt_string(k, e.payload.as_str()) {
                    Err(x) => Err(x),
                    Ok(message) => Ok(Opened { message, nonce: Some(e.nonce.clone()) }),
                },
            },
        },
    }
}

/// The request in a line, and the nonce of its envelope.
pub fn verify_request(key: &Option<Vec<u8>>, line: &Line, now: i64) -> (r: Result<Opened, String>)
    ensures
        opened_view(r) == line_outcome(
            opt_key(*key),
            "rpc.request"@,
            line.text@,
            opt_envelope(line.envelope),
            now,
        ),
{
    decode_frame(key, "rpc.request", line, now)
}

/// The response in a line.
pub fn decode_response(key: &Option<Vec<u8>>, line: &Line, now: i64) -> (r: Result<String, String>)
    ensures
        text::text_outcome(r) == (match line_outcome(
            opt_key(*key),
            "rpc.response"@,
            line.text@,
            opt_envelope(line.envelope),
            now,
        ) {
            Ok(m) => Ok::<Seq<char>, Seq<char>>(m.0),
            Err(e) => Err(e),
        }),
{
    match decode_frame(key, "rpc.response", line, now) {
        Ok(o) => Ok(o.message),
        Err(e) => Err(e),
    }
}

// ---------------------------------------------------------------------------
// Laws of sealing.

/// A sealed message is read back by whoever has the key, at any time within the
/// window.
pub proof fn law_sealed_message_is_read_back(
    key: Seq<u8>,
    kind: Seq<char>,
    message: Seq<char>,
    sent: i64,
    nonce: Seq<char>,
    e: EnvelopeView,
    line: Seq<char>,
    now: i64,
)
    requires
        sealed_as(key, kind, message, sent, nonce, e),
        -WINDOW_MS <= now - sent <= WINDOW_MS,
    ensures
        line_outcome(Some(key), kind, line, Some(e), now) == Ok::<
            (Seq<char>, Option<Seq<char>>),
            Seq<char>,
        >((message, Some(nonce))),
{
}

/// A message from outside the window is refused, whatever its signature.
pub proof fn law_stale_messages_are_refused(
    key: Seq<u8>,
    kind: Seq<char>,
    e: EnvelopeView,
    line: Seq<char>,
    now: i64,
)
    requires
        now - e.timestamp_ms > WINDOW_MS || e.timestamp_ms - now > WINDOW_MS,
    ensures
        line_outcome(Some(key), kind, line, Some(e), now) is Err,
{
}

proof fn lemma_split_at_newline(a: Seq<char>, b: Seq<char>, x: Seq<char>, y: Seq<char>)
    requires
        !a.contains('\n'),
        !b.contains('\n'),
        a + "\n"@ + x == b + "\n"@ + y,
    ensures
        a == b,
        x == y,
{
    reveal_strlit("\n");
    let s = a + "\n"@ + x;
    assert forall|j: int| 0 <= j < a.len() implies #[trigger] s[j] != '\n' by {
        assert(a.contains(a[j]));
    }
    assert forall|j: int| 0 <= j < b.len() implies #[trigger] s[j] != '\n' by {
        assert(s[j] == b[j]);
        assert(b.contains(b[j]));
    }
    assert(s[a.len() as int] == '\n');
    assert(s[b.len() as int] == '\n');
    text::lemma_first_at(s, '\n', a.len() as int);
    text::lemma_first_at(s, '\n', b.len() as int);
    assert(a == s.take(a.len() as int));
    assert(b == s.take(b.len() as int));
    assert(x == s.skip(a.len() as int + 1));
    assert(y == s.skip(b.len() as int + 1));
}

proof fn lemma_decimal_no_newline(n: i64)
    ensures
        !number::decimal(n as int).contains('\n'),
{
    number::lemma_decimal_chars(n as int);
    let d = number::decimal(n as int);
    if d.contains('\n') {
        let i = choose|i: int| 0 <= i < d.len() && d[i] == '\n';
        assert(number::is_digit(d[i]) || d[i] == '-');
    }
}

/// What signed bytes say behind their first line.
spec fn signed_lines(bytes: Seq<u8>) -> Seq<char> {
    encoding::text_in(bytes)->Ok_0.skip("via-rpc-v1\n"@.len() as int)
}

/// A line with a time, and what follows it.
spec fn timed(time: i64, rest: Seq<char>) -> Seq<char> {
    number::decimal(time as int) + "\n"@ + rest
}

#[verifier::spinoff_prover]
proof fn lemma_split_at_time(time1: i64, time2: i64, rest1: Seq<char>, rest2: Seq<char>)
    requires
        timed(time1, rest1) == timed(time2, rest2),
    ensures
        time1 == time2,
        rest1 == rest2,
{
    lemma_decimal_no_newline(time1);
    lemma_decimal_no_newline(time2);
    lemma_split_at_newline(
        number::decimal(time1 as int),
        number::decimal(time2 as int),
        rest1,
        rest2,
    );
    number::lemma_decimal_injective(time1, time2);
}

/// The bytes that are signed tell the lines behind the first.
#[verifier::spinoff_prover]
proof fn lemma_signed_text_lines(kind: Seq<char>, time: i64, nonce: Seq<char>, payload: Seq<char>)
    ensures
        signed_lines(signed_bytes(kind, time, nonce, payload)) == kind + "\n"@ + timed(
            time,
            nonce + "\n"@ + payload,
        ),
{
    let p = "via-rpc-v1\n"@;
    let lines = kind + "\n"@ + timed(time, nonce + "\n"@ + payload);
    let text = signed_text_of(kind, time, nonce, payload);
    encoding::lemma_text_round_trip(text);
    assert(text =~= p + lines);
    assert(text.skip(p.len() as int) =~= lines);
}

/// What is signed tells the kind, the time, the nonce and the payload of the
/// message apart: no two messages are signed over the same text. In particular a
/// response is never signed over what a request is signed over.
#[verifier::spinoff_prover]
pub proof fn law_signed_text_tells_all(
    kind1: Seq<char>,
    time1: i64,
    nonce1: Seq<char>,
    payload1: Seq<char>,
    kind2: Seq<char>,
    time2: i64,
    nonce2: Seq<char>,
    payload2: Seq<char>,
)
    requires
        !kind1.contains('\n'),
        !kind2.contains('\n'),
        !nonce1.contains('\n'),
        !nonce2.contains('\n'),
        signed_bytes(kind1, time1, nonce1, payload1) == signed_bytes(
            kind2,
            time2,
            nonce2,
            payload2,
        ),
    ensures
        kind1 == kind2,
        time1 == time2,
        nonce1 == nonce2,
        payload1 == payload2,
{
    lemma_signed_text_lines(kind1, time1, nonce1, payload1);
    lemma_signed_text_lines(kind2, time2, nonce2, payload2);
    let rest1 = nonce1 + "\n"@ + payload1;
    let rest2 = nonce2 + "\n"@ + payload2;
    lemma_split_at_newline(kind1, kind2, timed(time1, rest1), timed(time2, rest2));
    lemma_split_at_time(time1, time2, rest1, rest2);
    lemma_split_at_newline(nonce1, nonce2, payload1, payload2);
}

/// The kinds of requests and responses differ, and neither holds a line break.
pub proof fn law_kinds_differ()
    ensures
        "rpc.request"@ != "rpc.response"@,
        !"rpc.request"@.contains('\n'),
        !"rpc.response"@.contains('\n'),
{
    reveal_strlit("rpc.request");
    reveal_strlit("rpc.response");
    assert("rpc.request"@.len() != "rpc.response"@.len());
    assert forall|i: int| 0 <= i < "rpc.request"@.len() implies #[trigger] "rpc.request"@[i]
        != '\n' by {}
    assert forall|i: int| 0 <= i < "rpc.response"@.len() implies #[trigger] "rpc.response"@[i]
        != '\n' by {}
}

/// Once there is a key, a message that is not sealed is refused.
pub proof fn law_bare_messages_are_refused(
    key: Seq<u8>,
    kind: Seq<char>,
    line: Seq<char>,
    now: i64,
)
    ensures
        line_outcome(Some(key), kind, line, None, now) is Err,
{
}

/// A sealed message that was altered after it was signed, or that is taken for one of
/// another kind, is refused, unless the text that it would have been signed over has the
/// same HMAC as the one that it was signed over; and these texts differ.
pub proof fn law_altered_messages_are_refused(
    key: Seq<u8>,
    kind: Seq<char>,
    message: Seq<char>,
    sent: i64,
    nonce: Seq<char>,
    e: EnvelopeView,
    taken: Seq<char>,
    altered: EnvelopeView,
    line: Seq<char>,
    now: i64,
)
    requires
        sealed_as(key, kind, message, sent, nonce, e),
        altered.signature == e.signature,
    ensures
        ({
            let signed = signed_bytes(kind, sent, nonce, e.payload);
            let read = signed_bytes(taken, altered.timestamp_ms, altered.nonce, altered.payload);
            &&& line_outcome(Some(key), taken, line, Some(altered), now) is Ok
                ==> crypto::hmac_sha256(key, read) == crypto::hmac_sha256(key, signed)
            &&& !kind.contains('\n') && !taken.contains('\n') && !nonce.contains('\n')
                && !altered.nonce.contains('\n') && (taken != kind || altered.timestamp_ms != sent
                || altered.nonce != nonce || altered.payload != e.payload) ==> read != signed
        }),
{
    let signed = signed_bytes(kind, sent, nonce, e.payload);
    let read = signed_bytes(taken, altered.timestamp_ms, altered.nonce, altered.payload);
    security::law_signatures_tell_payloads_by_their_hmac(key, signed, key, read, e.signature);
    if read == signed && !kind.contains('\n') && !taken.contains('\n') && !nonce.contains('\n')
        && !altered.nonce.contains('\n') {
        law_signed_text_tells_all(
            taken,
            altered.timestamp_ms,
            altered.nonce,
            altered.payload,
            kind,
            sent,
            nonce,
            e.payload,
        );
    }
}

/// A sealed response is refused where a request is expected, unless the text that a
/// request with the same parts is signed over, which differs from the one that the
/// response was signed over, has the same HMAC.
pub proof fn law_responses_are_no_requests(
    key: Seq<u8>,
    message: Seq<char>,
    sent: i64,
    nonce: Seq<char>,
    e: EnvelopeView,
    line: Seq<char>,
    now: i64,
)
    requires
        sealed_as(key, "rpc.response"@, message, sent, nonce, e),
        !nonce.contains('\n'),
    ensures
        ({
            let signed = signed_bytes("rpc.response"@, sent, nonce, e.payload);
            let read = signed_bytes("rpc.request"@, sent, nonce, e.payload);
            &&& read != signed
            &&& line_outcome(Some(key), "rpc.request"@, line, Some(e), now) is Ok
                ==> crypto::hmac_sha256(key, read) == crypto::hmac_sha256(key, signed)
        }),
{
    law_kinds_differ();
    law_altered_messages_are_refused(
        key,
        "rpc.response"@,
        message,
        sent,
        nonce,
        e,
        "rpc.request"@,
        e,
        line,
        now,
    );
}

// ---------------------------------------------------------------------------
// Calling a node.

/// A line from a daemon has to hold something.
pub fn check_line(addr: &str, line: &str) -> (r: Result<(), String>)
    ensures
        text::unit_outcome(r) == (if text::trimmed(line@).len() == 0 {
            Err::<(), Seq<char>>("Via daemon at "@ + addr@ + " returned an empty response"@)
        } else {
            Ok(())
        }),
{
    if trim(line).is_empty() {
        Err("Via daemon at ".to_owned().concat(addr).concat(" returned an empty response"))
    } else {
        Ok(())
    }
}

/// What a caller gets for a response: an error that the node reports is an error
/// here.
pub open spec fn accepted(r: ResponseView) -> Result<ResponseView, Seq<char>> {
    match r {
        ResponseView::Error { message } => Err(message),
        _ => Ok(r),
    }
}

/// The contents of what a call gave.
pub open spec fn call_view(r: Result<RpcResponse, String>) -> Result<ResponseView, Seq<char>> {
    match r {
        Ok(x) => Ok(x@),
        Err(e) => Err(e@),
    }
}

/// What a caller gets for a response.
pub fn accept_response(response: RpcResponse) -> (r: Result<RpcResponse, String>)
    ensures
        call_view(r) == accepted(response@),
{
    match response {
        RpcResponse::Error { message } => Err(message),
        other => Ok(other),
    }
}

/// The answer to a ping, or the response that came instead.
pub fn expect_pong(response: RpcResponse) -> (r: Result<(), RpcResponse>)
    ensures
        match r {
            Ok(()) => response@ is Pong,
            Err(x) => !(response@ is Pong) && x@ == response@,
        },
{
    match response {
        RpcResponse::Pong => Ok(()),
        other => Err(other),
    }
}

/// The output of a command, or the response that came instead.
pub fn expect_exec(response: RpcResponse) -> (r: Result<String, RpcResponse>)
    ensures
        match r {
            Ok(o) => response@ == (ResponseView::Exec { output: o@ }),
            Err(x) => !(response@ is Exec) && x@ == response@,
        },
{
    match response {
        RpcResponse::Exec { output } => Ok(output),
        other => Err(other),
    }
}

/// The log of a container, or the response that came instead.
pub fn expect_logs(response: RpcResponse) -> (r: Result<String, RpcResponse>)
    ensures
        match r {
            Ok(o) => response@ == (ResponseView::Logs { output: o@ }),
            Err(x) => !(response@ is Logs) && x@ == response@,
        },
{
    match response {
        RpcResponse::Logs { output } => Ok(output),
        other => Err(other),
    }
}

/// The status of a container, or the response that came instead.
pub fn expect_status(response: RpcResponse) -> (r: Result<String, RpcResponse>)
    ensures
        match r {
            Ok(s) => response@ == (ResponseView::ContainerStatus { status: s@ }),
            Err(x) => !(response@ is ContainerStatus) && x@ == response@,
        },
{
    match response {
        RpcResponse::ContainerStatus { status } => Ok(status),
        other => Err(other),
    }
}

/// The service that was deployed, or the response that came instead.
pub fn expect_service(response: RpcResponse) -> (r: Result<Service, RpcResponse>)
    ensures
        match r {
            Ok(s) => response@ == (ResponseView::Service { service: s@ }),
            Err(x) => !(response@ is Service) && x@ == response@,
        },
{
    match response {
        RpcResponse::Service { service } => Ok(service),
        other => Err(other),
    }
}

/// How often a daemon is tried before it is given up.
pub const READY_ATTEMPTS: u32 = 50;

/// How long to wait between two tries, in milliseconds.
pub const READY_PAUSE_MS: u64 = 100;

/// Waiting for a daemon to answer.
#[derive(Debug)]
pub struct ReadyWait {
    pub tried: u32,
    pub last_error: Option<String>,
}

/// What to do next while waiting for a daemon.
#[derive(Debug)]
pub enum ReadyStep {
    /// The daemon has answered.
    Ready,
    /// Pause and try once more.
    Retry(ReadyWait),
    /// Pause, and give up with this message.
    GiveUp(String),
}

/// What is said of a daemon that did not answer.
pub open spec fn not_ready_text(addr: Seq<char>, error: Seq<char>) -> Seq<char> {
    "Via daemon at "@ + addr + " did not become ready: "@ + error
}

impl ReadyWait {
    /// Before the first try.
    pub fn new() -> (r: ReadyWait)
        ensures
            r.tried == 0,
            r.last_error is None,
    {
        ReadyWait { tried: 0, last_error: None }
    }
}

/// What to do after a try to reach the daemon at `addr`: each failure is followed by
/// a pause, and the last of fifty ends the wait.
pub fn wait_until_ready(addr: &str, wait: ReadyWait, outcome: Result<(), String>) -> (r: ReadyStep)
    requires
        wait.tried < READY_ATTEMPTS,
    ensures
        match outcome {
            Ok(()) => r is Ready,
            Err(e) => if wait.tried + 1 < READY_ATTEMPTS {
                r matches ReadyStep::Retry(w) && w.tried == wait.tried + 1 && text::opt_text(
                    w.last_error,
                ) == Some(e@)
            } else {
                r matches ReadyStep::GiveUp(m) && m@ == not_ready_text(addr@, e@)
            },
        },
{
    match outcome {
        Ok(()) => ReadyStep::Ready,
        Err(e) => if wait.tried + 1 < READY_ATTEMPTS {
            ReadyStep::Retry(ReadyWait { tried: wait.tried + 1, last_error: Some(e) })
        } else {
            ReadyStep::GiveUp(
                "Via daemon at ".to_owned().concat(addr).concat(
                    " did not become ready: ",
                ).concat(e.as_str()),
            )
        },
    }
}

} // verus!
