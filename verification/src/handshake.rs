//! PIN-based handshake and the line framing of the signaling channel.
//!
//! The host generates a 4-digit PIN shown in its interface; the client sends
//! that PIN, and the host admits it only when the PIN matches. The channel
//! then carries one JSON message per line.
use vstd::prelude::*;
use crate::protocol::{
    PinRequestPayload, PinResponsePayload, SessionControlPayload, SignalingMessage,
};
use crate::text::{
    all_digits, chars_of, decimal, decimal_value, is_digit, is_whitespace, lemma_decimal_digits,
    lemma_leading_zeros, push_decimal, string_from_chars, to_string,
};

verus! {

// ---------------------------------------------------------------------
// The PIN.
/// `rand::random_range(0..bound)`: a value drawn uniformly below `bound`.
/// Which value comes out is chance; only its range is stated.
#[verifier::external_body]
fn random_below(bound: u32) -> (n: u32)
    requires
        bound > 0,
    ensures
        n < bound,
{
    rand::random_range(0..bound)
}

/// A PIN: exactly four ASCII digits.
pub open spec fn is_pin(s: Seq<char>) -> bool {
    s.len() == 4 && all_digits(s)
}

/// `n` written with four digits, zeros in front (`format!("{:04}", n)`).
pub open spec fn pin_text(n: nat) -> Seq<char> {
    Seq::new((4 - decimal(n).len()) as nat, |i: int| '0') + decimal(n)
}

/// Writes a number below 10000 as a PIN; the PIN reads back as the number.
pub fn format_pin(n: u32) -> (pin: String)
    requires
        n < 10000,
    ensures
        pin@ == pin_text(n as nat),
        is_pin(pin@),
        decimal_value(pin@) == n,
{
    let mut out: Vec<char> = Vec::new();
    proof {
        lemma_decimal_digits(n as nat);
    }
    if n < 10 {
        out.push('0');
        out.push('0');
        out.push('0');
    } else if n < 100 {
        out.push('0');
        out.push('0');
    } else if n < 1000 {
        out.push('0');
    }
    let ghost zeros = out@;
    assert(zeros =~= Seq::new((4 - decimal(n as nat).len()) as nat, |i: int| '0'));
    push_decimal(&mut out, n);
    proof {
        lemma_leading_zeros((4 - decimal(n as nat).len()) as nat, decimal(n as nat));
        assert(out@ =~= pin_text(n as nat));
        assert forall|i: int| 0 <= i < out@.len() implies crate::text::is_digit(#[trigger] out@[i]) by {
            if i >= zeros.len() {
                assert(out@[i] == decimal(n as nat)[i - zeros.len()]);
            }
        }
    }
    string_from_chars(out.as_slice())
}

/// A fresh random PIN.
pub fn generate_pin() -> (pin: String)
    ensures
        is_pin(pin@),
{
    format_pin(random_below(10000))
}


/// Whether a PIN typed by the user is a PIN, four ASCII digits (the client
/// refuses to connect otherwise).
pub fn typed_pin_is_valid(pin: &str) -> (b: bool)
    ensures
        b == is_pin(pin@),
{
    let c = chars_of(pin);
    if c.len() != 4 {
        return false;
    }
    for i in 0..4usize
        invariant
            c@ == pin@,
            c@.len() == 4,
            forall|j: int| 0 <= j < i ==> is_digit(#[trigger] c@[j]),
    {
        let d: u32 = c[i] as u32;
        if !(48 <= d && d <= 57) {
            assert(!is_digit(pin@[i as int]));
            return false;
        }
    }
    true
}

// ---------------------------------------------------------------------
// The host's side.
/// The reply that admits a client.
pub open spec fn is_grant(m: SignalingMessage) -> bool {
    m matches SignalingMessage::PinResponse(p) && p.accepted && p.reason is None
}

/// The reply that turns a client away.
pub open spec fn is_refusal(m: SignalingMessage) -> bool {
    &&& m matches SignalingMessage::PinResponse(p)
    &&& !p.accepted
    &&& p.reason matches Some(r) && r@ == "Invalid PIN"@
}

/// What the host answers to a message that it receives while it waits for
/// a client: nothing, unless the message is a PIN request.
#[derive(Debug, Clone)]
pub enum ServerAnswer {
    /// The PIN matches: send this reply and keep the connection.
    Grant(SignalingMessage),
    /// The PIN does not match: send this reply and wait for another client.
    Refuse(SignalingMessage),
    /// Not a PIN request: wait for another client.
    Ignore,
}

/// The host answers `msg` with `reply` when it holds `pin`.
pub open spec fn answers(pin: Seq<char>, msg: SignalingMessage, reply: ServerAnswer) -> bool {
    match msg {
        SignalingMessage::PinRequest(req) => if req.pin@ == pin {
            reply matches ServerAnswer::Grant(r) && is_grant(r)
        } else {
            reply matches ServerAnswer::Refuse(r) && is_refusal(r)
        },
        _ => reply is Ignore,
    }
}

/// The host's PIN, and its decisions on what a connecting client sends.
pub struct PinCheck {
    pin: String,
}

impl PinCheck {
    pub closed spec fn pin_view(&self) -> Seq<char> {
        self.pin@
    }

    /// A check against a fresh random PIN.
    pub fn generate() -> (c: Self)
        ensures
            is_pin(c.pin_view()),
    {
        PinCheck { pin: generate_pin() }
    }

    /// A check against the given PIN.
    pub fn with_pin(pin: String) -> (c: Self)
        ensures
            c.pin_view() == pin@,
    {
        PinCheck { pin }
    }

    /// The PIN (to display in the UI).
    pub fn pin(&self) -> (p: &str)
        ensures
            p@ == self.pin_view(),
    {
        self.pin.as_str()
    }

    /// The host's answer to a message received from a connecting client.
    pub fn answer(&self, msg: &SignalingMessage) -> (a: ServerAnswer)
        ensures
            answers(self.pin_view(), *msg, a),
    {
        match msg {
            SignalingMessage::PinRequest(req) => {
                if req.pin == self.pin {
                    ServerAnswer::Grant(
                        SignalingMessage::PinResponse(
                            PinResponsePayload { accepted: true, reason: None },
                        ),
                    )
                } else {
                    let reason = to_string("Invalid PIN");
                    ServerAnswer::Refuse(
                        SignalingMessage::PinResponse(
                            PinResponsePayload { accepted: false, reason: Some(reason) },
                        ),
                    )
                }
            },
            _ => ServerAnswer::Ignore,
        }
    }
}

// ---------------------------------------------------------------------
// The client's side.
/// The request a client sends to authenticate.
pub fn pin_request(pin: &str, client_hostname: String) -> (m: SignalingMessage)
    ensures
        m matches SignalingMessage::PinRequest(r) && r.pin@ == pin@ && r.client_hostname@
            == client_hostname@,
{
    SignalingMessage::PinRequest(PinRequestPayload { pin: to_string(pin), client_hostname })
}

/// Why a handshake did not succeed.
#[derive(Debug, Clone)]
pub enum HandshakeError {
    /// The host refused the PIN, for this reason.
    AuthenticationFailed { reason: String },
    /// The host answered with something other than a PIN response.
    UnexpectedResponse(SignalingMessage),
}

/// The client is admitted by this reply.
pub open spec fn admits(m: SignalingMessage) -> bool {
    m matches SignalingMessage::PinResponse(p) && p.accepted
}

/// The reason that a client reports for a refusal.
pub open spec fn refusal_reason(p: PinResponsePayload) -> Seq<char> {
    match p.reason {
        Some(r) => r@,
        None => "Unknown reason"@,
    }
}

/// The text of an authentication failure.
pub open spec fn failure_text(reason: Seq<char>) -> Seq<char> {
    "Authentication failed: "@ + reason
}

impl HandshakeError {
    /// The text that describes the error, for a failed authentication.
    pub fn authentication_message(reason: &str) -> (s: String)
        ensures
            s@ == failure_text(reason@),
    {
        let mut s = to_string("Authentication failed: ");
        s.append(reason);
        s
    }
}

/// What the client makes of the host's reply to its PIN request.
pub fn evaluate_pin_response(msg: SignalingMessage) -> (r: Result<(), HandshakeError>)
    ensures
        r is Ok <==> admits(msg),
        match msg {
            SignalingMessage::PinResponse(p) => !p.accepted ==> (r matches Err(
                HandshakeError::AuthenticationFailed { reason },
            ) && reason@ == refusal_reason(p)),
            _ => r matches Err(HandshakeError::UnexpectedResponse(m)) && m == msg,
        },
{
    match msg {
        SignalingMessage::PinResponse(resp) => {
            if resp.accepted {
                Ok(())
            } else {
                let reason = match resp.reason {
                    Some(r) => r,
                    None => to_string("Unknown reason"),
                };
                Err(HandshakeError::AuthenticationFailed { reason })
            }
        },
        other => Err(HandshakeError::UnexpectedResponse(other)),
    }
}

/// A client that sends a PIN is admitted by the host's answer exactly when
/// it sent the host's PIN; a refused client reports "Invalid PIN".
pub proof fn law_admitted_iff_pin_matches(
    host_pin: Seq<char>,
    request: PinRequestPayload,
    answer: ServerAnswer,
)
    requires
        answers(host_pin, SignalingMessage::PinRequest(request), answer),
    ensures
        request.pin@ == host_pin <==> (answer matches ServerAnswer::Grant(r) && admits(r)),
        request.pin@ != host_pin ==> (answer matches ServerAnswer::Refuse(r) && !admits(r)
            && (r matches SignalingMessage::PinResponse(p) && refusal_reason(p) == "Invalid PIN"@)),
{
}

// ---------------------------------------------------------------------
// Framing: one message per line.
/// `s` without leading whitespace.
pub open spec fn trim_start(s: Seq<char>) -> Seq<char>
    decreases s.len(),
{
    if s.len() > 0 && is_whitespace(s[0]) {
        trim_start(s.drop_first())
    } else {
        s
    }
}

/// `s` without trailing whitespace.
pub open spec fn trim_end(s: Seq<char>) -> Seq<char>
    decreases s.len(),
{
    if s.len() > 0 && is_whitespace(s.last()) {
        trim_end(s.drop_last())
    } else {
        s
    }
}

/// `str::trim`: `s` without leading and trailing whitespace.
pub open spec fn trim(s: Seq<char>) -> Seq<char> {
    trim_end(trim_start(s))
}

/// Why a line could not be read from the channel.
#[derive(Debug, Clone, Copy, PartialEq, Eq, Structural)]
pub enum ChannelError {
    /// The peer closed the channel (a read gave no bytes).
    Closed,
}

/// The line that carries a message: the message's JSON and a newline.
pub fn frame_message(json: String) -> (line: String)
    ensures
        line@ == json@.push('\n'),
{
    let mut line = json;
    line.append("\n");
    proof {
        reveal_strlit("\n");
    }
    assert(line@ =~= json@.push('\n'));
    line
}

pub proof fn lemma_trim_start_suffix(s: Seq<char>)
    ensures
        exists|k: int| 0 <= k <= s.len() && trim_start(s) == s.skip(k),
    decreases s.len(),
{
    if s.len() > 0 && is_whitespace(s[0]) {
        lemma_trim_start_suffix(s.drop_first());
        let k: int = choose|k: int| 0 <= k <= s.drop_first().len() && trim_start(s.drop_first()) == s.drop_first().skip(k);
        assert(s.drop_first().skip(k) =~= s.skip(k + 1));
    } else {
        assert(s.skip(0) =~= s);
    }
}

pub proof fn lemma_trim_end_len(s: Seq<char>)
    ensures
        trim_end(s).len() <= s.len(),
        trim_end(s).len() == s.len() ==> trim_end(s) == s,
    decreases s.len(),
{
    if s.len() > 0 && is_whitespace(s.last()) {
        lemma_trim_end_len(s.drop_last());
    }
}

/// The text of a message in a line read from the channel, or `Closed`
/// when the read gave no bytes.
pub fn read_frame(bytes_read: usize, line: &str) -> (r: Result<String, ChannelError>)
    ensures
        bytes_read == 0 <==> r is Err,
        r matches Ok(text) ==> text@ == trim(line@),
{
    if bytes_read == 0 {
        return Err(ChannelError::Closed);
    }
    let s = chars_of(line);
    let n: usize = s.len();
    let mut start: usize = 0;
    assert(s@.subrange(0, n as int) =~= s@);
    while start < n && crate::text::char_is_whitespace(s[start])
        invariant
            n == s@.len(),
            start <= n,
            trim_start(s@) == trim_start(s@.subrange(start as int, n as int)),
        decreases n - start,
    {
        assert(s@.subrange(start as int, n as int).drop_first() =~= s@.subrange(
            start + 1,
            n as int,
        ));
        start = start + 1;
    }
    assert(trim_start(s@) == s@.subrange(start as int, n as int));
    let mut end: usize = n;
    while end > start && crate::text::char_is_whitespace(s[end - 1])
        invariant
            n == s@.len(),
            start <= end <= n,
            trim(s@) == trim_end(s@.subrange(start as int, end as int)),
        decreases end,
    {
        assert(s@.subrange(start as int, end as int).drop_last() =~= s@.subrange(
            start as int,
            end - 1,
        ));
        end = end - 1;
    }
    let mut out: Vec<char> = Vec::new();
    for i in start..end
        invariant
            end <= n,
            n == s@.len(),
            out@ == s@.subrange(start as int, i as int),
    {
        out.push(s[i]);
        assert(out@ =~= s@.subrange(start as int, i + 1));
    }
    Ok(string_from_chars(out.as_slice()))
}

/// A message text without surrounding whitespace (as JSON writers emit it)
/// comes back unchanged from its own line.
pub proof fn law_frame_roundtrip(json: Seq<char>)
    requires
        trim(json) == json,
    ensures
        trim(json.push('\n')) == json,
{
    let line = json.push('\n');
    assert(is_whitespace('\n'));
    if json.len() == 0 {
        assert(line[0] == '\n');
        assert(line.drop_first() =~= Seq::<char>::empty());
        assert(trim_start(line) == trim_start(line.drop_first()));
        assert(trim_start(Seq::<char>::empty()) == Seq::<char>::empty());
    } else {
        lemma_trim_end_len(trim_start(json));
        lemma_trim_start_suffix(json);
        if is_whitespace(json[0]) {
            lemma_trim_start_suffix(json.drop_first());
            assert(trim_start(json) == trim_start(json.drop_first()));
            assert(trim_start(json).len() < json.len());
            assert(false);
        }
        assert(trim_start(json) == json);
        assert(line[0] == json[0]);
        assert(trim_start(line) == line);
        assert(line.drop_last() =~= json);
        assert(trim_end(json) == json);
    }
}

/// The bytes that a sequence of sends writes: each message's line, in
/// order.
pub open spec fn framed_stream(texts: Seq<Seq<char>>) -> Seq<char>
    decreases texts.len(),
{
    if texts.len() == 0 {
        Seq::empty()
    } else {
        texts[0].push('\n') + framed_stream(texts.drop_first())
    }
}

/// What one line read takes from a stream (as `read_line` reads): all up
/// to and including the first newline, or everything when there is none;
/// and what is left.
pub open spec fn take_line(s: Seq<char>) -> (Seq<char>, Seq<char>)
    decreases s.len(),
{
    if s.len() == 0 {
        (Seq::empty(), Seq::empty())
    } else if s[0] == '\n' {
        (seq!['\n'], s.drop_first())
    } else {
        let (line, rest) = take_line(s.drop_first());
        (seq![s[0]] + line, rest)
    }
}

/// The lines that `k` successive reads take from a stream.
pub open spec fn read_lines(s: Seq<char>, k: nat) -> Seq<Seq<char>>
    decreases k,
{
    if k == 0 {
        Seq::empty()
    } else {
        seq![take_line(s).0] + read_lines(take_line(s).1, (k - 1) as nat)
    }
}

/// What a stream holds after `k` successive reads.
pub open spec fn left_after(s: Seq<char>, k: nat) -> Seq<char>
    decreases k,
{
    if k == 0 {
        s
    } else {
        left_after(take_line(s).1, (k - 1) as nat)
    }
}

proof fn lemma_take_framed_line(t: Seq<char>, rest: Seq<char>)
    requires
        !t.contains('\n'),
    ensures
        take_line(t.push('\n') + rest) == (t.push('\n'), rest),
    decreases t.len(),
{
    let s = t.push('\n') + rest;
    if t.len() == 0 {
        assert(s[0] == '\n');
        assert(s.drop_first() =~= rest);
        assert(seq!['\n'] =~= t.push('\n'));
    } else {
        let u = t.drop_first();
        assert(!u.contains('\n')) by {
            if u.contains('\n') {
                let i = choose|i: int| 0 <= i < u.len() && u[i] == '\n';
                assert(t[i + 1] == '\n');
            }
        }
        assert(t[0] != '\n');
        assert(s[0] == t[0]);
        assert(s.drop_first() =~= u.push('\n') + rest);
        lemma_take_framed_line(u, rest);
        assert(seq![t[0]] + u.push('\n') =~= t.push('\n'));
    }
}

/// Messages sent one after another on a channel are read back one per
/// read, in order: when each message text holds no newline, the `i`-th
/// line read from what the sends wrote is the `i`-th message's line, that
/// line reads back (`read_frame`) as the text when the text has no
/// surrounding whitespace, and nothing is left after the last one.
pub proof fn law_stream_roundtrip(texts: Seq<Seq<char>>)
    requires
        forall|i: int| 0 <= i < texts.len() ==> !(#[trigger] texts[i]).contains('\n'),
    ensures
        read_lines(framed_stream(texts), texts.len()).len() == texts.len(),
        forall|i: int|
            0 <= i < texts.len() ==> #[trigger] read_lines(framed_stream(texts), texts.len())[i]
                == texts[i].push('\n'),
        forall|i: int|
            0 <= i < texts.len() && trim(texts[i]) == texts[i] ==> trim(
                #[trigger] read_lines(framed_stream(texts), texts.len())[i],
            ) == texts[i],
        left_after(framed_stream(texts), texts.len()) == Seq::<char>::empty(),
    decreases texts.len(),
{
    if texts.len() > 0 {
        let tail = texts.drop_first();
        assert forall|i: int| 0 <= i < tail.len() implies !(#[trigger] tail[i]).contains('\n') by {
            assert(tail[i] == texts[i + 1]);
        }
        law_stream_roundtrip(tail);
        lemma_take_framed_line(texts[0], framed_stream(tail));
        let lines = read_lines(framed_stream(texts), texts.len());
        let tail_lines = read_lines(framed_stream(tail), tail.len());
        assert(lines =~= seq![texts[0].push('\n')] + tail_lines);
        assert forall|i: int| 0 <= i < texts.len() && trim(texts[i]) == texts[i] implies trim(
            #[trigger] lines[i],
        ) == texts[i] by {
            if i == 0 {
                law_frame_roundtrip(texts[0]);
            } else {
                assert(lines[i] == tail_lines[i - 1]);
                assert(tail[i - 1] == texts[i]);
                law_frame_roundtrip(texts[i]);
            }
        }
        assert forall|i: int| 0 <= i < texts.len() implies #[trigger] lines[i] == texts[i].push(
            '\n',
        ) by {
            if i > 0 {
                assert(lines[i] == tail_lines[i - 1]);
                assert(tail[i - 1] == texts[i]);
            }
        }
    }
}

// ---------------------------------------------------------------------
// The running session.
/// Whether a running session goes on after a read from the signaling
/// channel: it ends when the read failed (`None`) or the peer asked to
/// disconnect.
pub fn session_continues(received: Option<&SignalingMessage>) -> (go_on: bool)
    ensures
        go_on <==> (received matches Some(m) && !(*m matches SignalingMessage::SessionControl(
            SessionControlPayload::Disconnect,
        ))),
{
    match received {
        Some(SignalingMessage::SessionControl(SessionControlPayload::Disconnect)) => false,
        Some(_) => true,
        None => false,
    }
}

} // verus!
