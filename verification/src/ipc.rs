//! Protocol messages and their binary codec.
//!
//! The wire format is a tagged, self-describing binary encoding: every
//! message starts with a one-byte variant tag, integers travel
//! little-endian at fixed width, optional fields carry a presence byte,
//! and strings are length-prefixed UTF-8.  Encoding is deterministic;
//! decoding is proved to invert it exactly, and to reject every byte
//! sequence that no message encodes to.

use vstd::prelude::*;
use crate::error::CodecError;
use crate::wire::{
    dec_bool, dec_string, dec_u16, dec_u64, dec_u8, lemma_dec_bool_of_enc, lemma_dec_string_of_enc,
    lemma_dec_u16_of_enc, lemma_dec_u64_of_enc, push_bool, push_string, push_u16_le, push_u64_le,
    push_u8, read_bool, read_string, read_u16, read_u64, read_u8, spec_bool_byte,
    spec_string_bytes, spec_u16_le, spec_u64_le,
};

verus! {

/// Which of the two well-known transport roles a socket plays.
#[derive(Debug, PartialEq, Eq, Clone, Copy)]
pub enum UdsType {
    Server,
    Client,
}

/// Internal handshake message of the liveness probe.
#[derive(Debug, PartialEq, Eq, Clone, Copy)]
pub enum Message {
    Ping,
    Pong,
}

/// A request sent by a client to the daemon.
#[derive(Debug, PartialEq, Eq, Clone)]
pub enum MessageRequest {
    Create { work_time: Option<u16>, break_time: Option<u16>, description: Option<String> },
    Queue { work_time: Option<u16>, break_time: Option<u16>, description: Option<String> },
    Delete { id: u16, all: bool },
    List { show_percentage: bool },
    Test,
    History { should_clear: bool },
}

/// The outer envelope of every datagram exchange.
#[derive(Debug, PartialEq, Eq, Clone)]
pub enum UdsMessage {
    Public(MessageRequest),
    Internal(Message),
}

/// The daemon's reply: an ordered list of output lines.
#[derive(Debug, PartialEq, Eq, Clone)]
pub struct MessageResponse {
    pub body: Vec<String>,
}

// ------------------------------------------------------------------
// Mathematical views of the message types.
// ------------------------------------------------------------------

pub enum RequestView {
    Create { work_time: Option<u16>, break_time: Option<u16>, description: Option<Seq<char>> },
    Queue { work_time: Option<u16>, break_time: Option<u16>, description: Option<Seq<char>> },
    Delete { id: u16, all: bool },
    List { show_percentage: bool },
    Test,
    History { should_clear: bool },
}

pub enum UdsMessageView {
    Public(RequestView),
    Internal(Message),
}

impl View for MessageRequest {
    type V = RequestView;

    open spec fn view(&self) -> RequestView {
        match self {
            MessageRequest::Create { work_time, break_time, description } => RequestView::Create {
                work_time: *work_time,
                break_time: *break_time,
                description: description.deep_view(),
            },
            MessageRequest::Queue { work_time, break_time, description } => RequestView::Queue {
                work_time: *work_time,
                break_time: *break_time,
                description: description.deep_view(),
            },
            MessageRequest::Delete { id, all } => RequestView::Delete { id: *id, all: *all },
            MessageRequest::List { show_percentage } => RequestView::List {
                show_percentage: *show_percentage,
            },
            MessageRequest::Test => RequestView::Test,
            MessageRequest::History { should_clear } => RequestView::History {
                should_clear: *should_clear,
            },
        }
    }
}

impl View for UdsMessage {
    type V = UdsMessageView;

    open spec fn view(&self) -> UdsMessageView {
        match self {
            UdsMessage::Public(r) => UdsMessageView::Public(r@),
            UdsMessage::Internal(m) => UdsMessageView::Internal(*m),
        }
    }
}

impl View for MessageResponse {
    type V = Seq<Seq<char>>;

    open spec fn view(&self) -> Seq<Seq<char>> {
        self.body.deep_view()
    }
}

// ------------------------------------------------------------------
// Spec-level encoding.
// ------------------------------------------------------------------

pub open spec fn spec_enc_opt_u16(o: Option<u16>) -> Seq<u8> {
    match o {
        None => seq![0u8],
        Some(v) => seq![1u8] + spec_u16_le(v),
    }
}

pub open spec fn spec_enc_opt_string(o: Option<Seq<char>>) -> Seq<u8> {
    match o {
        None => seq![0u8],
        Some(s) => seq![1u8] + spec_string_bytes(s),
    }
}

pub open spec fn spec_enc_request(m: RequestView) -> Seq<u8> {
    match m {
        RequestView::Create { work_time, break_time, description } => seq![0u8]
            + spec_enc_opt_u16(work_time) + spec_enc_opt_u16(break_time) + spec_enc_opt_string(
            description,
        ),
        RequestView::Queue { work_time, break_time, description } => seq![1u8] + spec_enc_opt_u16(
            work_time,
        ) + spec_enc_opt_u16(break_time) + spec_enc_opt_string(description),
        RequestView::Delete { id, all } => seq![2u8] + spec_u16_le(id) + seq![spec_bool_byte(all)],
        RequestView::List { show_percentage } => seq![3u8] + seq![spec_bool_byte(show_percentage)],
        RequestView::Test => seq![4u8],
        RequestView::History { should_clear } => seq![5u8] + seq![spec_bool_byte(should_clear)],
    }
}

pub open spec fn spec_enc_internal(m: Message) -> Seq<u8> {
    match m {
        Message::Ping => seq![0u8],
        Message::Pong => seq![1u8],
    }
}

pub open spec fn spec_enc_message(m: UdsMessageView) -> Seq<u8> {
    match m {
        UdsMessageView::Public(r) => seq![0u8] + spec_enc_request(r),
        UdsMessageView::Internal(i) => seq![1u8] + spec_enc_internal(i),
    }
}

pub open spec fn spec_enc_lines(lines: Seq<Seq<char>>) -> Seq<u8>
    decreases lines.len(),
{
    if lines.len() == 0 {
        Seq::empty()
    } else {
        spec_string_bytes(lines[0]) + spec_enc_lines(lines.drop_first())
    }
}

pub open spec fn spec_enc_response(lines: Seq<Seq<char>>) -> Seq<u8> {
    spec_u64_le(lines.len() as u64) + spec_enc_lines(lines)
}

// ------------------------------------------------------------------
// Spec-level decoding: the model that the executable decoders are
// held to.  A message decodes only when the whole buffer is consumed.
// ------------------------------------------------------------------

pub open spec fn dec_opt_u16(b: Seq<u8>, i: int) -> Option<(Option<u16>, int)> {
    match dec_u8(b, i) {
        Some((t, j)) => if t == 0 {
            Some((None, j))
        } else if t == 1 {
            match dec_u16(b, j) {
                Some((v, k)) => Some((Some(v), k)),
                None => None,
            }
        } else {
            None
        },
        None => None,
    }
}

pub open spec fn dec_opt_string(b: Seq<u8>, i: int) -> Option<(Option<Seq<char>>, int)> {
    match dec_u8(b, i) {
        Some((t, j)) => if t == 0 {
            Some((None, j))
        } else if t == 1 {
            match dec_string(b, j) {
                Some((s, k)) => Some((Some(s), k)),
                None => None,
            }
        } else {
            None
        },
        None => None,
    }
}

pub open spec fn spec_dec_request_at(b: Seq<u8>, i: int) -> Option<(RequestView, int)> {
    match dec_u8(b, i) {
        Some((tag, j)) => if tag == 0 || tag == 1 {
            match dec_opt_u16(b, j) {
                Some((work_time, j1)) => match dec_opt_u16(b, j1) {
                    Some((break_time, j2)) => match dec_opt_string(b, j2) {
                        Some((description, j3)) => if tag == 0 {
                            Some((RequestView::Create { work_time, break_time, description }, j3))
                        } else {
                            Some((RequestView::Queue { work_time, break_time, description }, j3))
                        },
                        None => None,
                    },
                    None => None,
                },
                None => None,
            }
        } else if tag == 2 {
            match dec_u16(b, j) {
                Some((id, j1)) => match dec_bool(b, j1) {
                    Some((all, j2)) => Some((RequestView::Delete { id, all }, j2)),
                    None => None,
                },
                None => None,
            }
        } else if tag == 3 {
            match dec_bool(b, j) {
                Some((show_percentage, j1)) => Some((RequestView::List { show_percentage }, j1)),
                None => None,
            }
        } else if tag == 4 {
            Some((RequestView::Test, j))
        } else if tag == 5 {
            match dec_bool(b, j) {
                Some((should_clear, j1)) => Some((RequestView::History { should_clear }, j1)),
                None => None,
            }
        } else {
            None
        },
        None => None,
    }
}

pub open spec fn spec_dec_internal_at(b: Seq<u8>, i: int) -> Option<(Message, int)> {
    match dec_u8(b, i) {
        Some((tag, j)) => if tag == 0 {
            Some((Message::Ping, j))
        } else if tag == 1 {
            Some((Message::Pong, j))
        } else {
            None
        },
        None => None,
    }
}

pub open spec fn spec_dec_message_at(b: Seq<u8>, i: int) -> Option<(UdsMessageView, int)> {
    match dec_u8(b, i) {
        Some((tag, j)) => if tag == 0 {
            match spec_dec_request_at(b, j) {
                Some((r, k)) => Some((UdsMessageView::Public(r), k)),
                None => None,
            }
        } else if tag == 1 {
            match spec_dec_internal_at(b, j) {
                Some((m, k)) => Some((UdsMessageView::Internal(m), k)),
                None => None,
            }
        } else {
            None
        },
        None => None,
    }
}

pub open spec fn spec_dec_request(b: Seq<u8>) -> Option<RequestView> {
    match spec_dec_request_at(b, 0) {
        Some((m, j)) => if j == b.len() {
            Some(m)
        } else {
            None
        },
        None => None,
    }
}

pub open spec fn spec_dec_internal(b: Seq<u8>) -> Option<Message> {
    match spec_dec_internal_at(b, 0) {
        Some((m, j)) => if j == b.len() {
            Some(m)
        } else {
            None
        },
        None => None,
    }
}

pub open spec fn spec_dec_message(b: Seq<u8>) -> Option<UdsMessageView> {
    match spec_dec_message_at(b, 0) {
        Some((m, j)) => if j == b.len() {
            Some(m)
        } else {
            None
        },
        None => None,
    }
}

pub open spec fn spec_dec_lines(b: Seq<u8>, i: int, n: nat) -> Option<(Seq<Seq<char>>, int)>
    decreases n,
{
    if n == 0 {
        Some((Seq::empty(), i))
    } else {
        match dec_string(b, i) {
            Some((s, j)) => match spec_dec_lines(b, j, (n - 1) as nat) {
                Some((ss, k)) => Some((seq![s] + ss, k)),
                None => None,
            },
            None => None,
        }
    }
}

pub open spec fn spec_dec_response(b: Seq<u8>) -> Option<Seq<Seq<char>>> {
    match dec_u64(b, 0) {
        Some((n, j)) => match spec_dec_lines(b, j, n as nat) {
            Some((ss, k)) => if k == b.len() {
                Some(ss)
            } else {
                None
            },
            None => None,
        },
        None => None,
    }
}

// ------------------------------------------------------------------
// Well-formedness: a view is encodable when each of its strings fits
// the 64-bit length prefix.  Every value built from actual `String`s
// satisfies it.
// ------------------------------------------------------------------

pub open spec fn wf_opt_string(o: Option<Seq<char>>) -> bool {
    match o {
        None => true,
        Some(s) => vstd::utf8::encode_utf8(s).len() <= u64::MAX,
    }
}

pub open spec fn wf_request(m: RequestView) -> bool {
    match m {
        RequestView::Create { description, .. } => wf_opt_string(description),
        RequestView::Queue { description, .. } => wf_opt_string(description),
        _ => true,
    }
}

pub open spec fn wf_message(m: UdsMessageView) -> bool {
    match m {
        UdsMessageView::Public(r) => wf_request(r),
        UdsMessageView::Internal(_) => true,
    }
}

pub open spec fn wf_lines(lines: Seq<Seq<char>>) -> bool {
    &&& lines.len() <= u64::MAX
    &&& forall|i: int|
        0 <= i < lines.len() ==> vstd::utf8::encode_utf8(#[trigger] lines[i]).len() <= u64::MAX
}

// ------------------------------------------------------------------
// Round trip: decoding inverts encoding.
// ------------------------------------------------------------------

proof fn lemma_dec_opt_u16_of_enc(b: Seq<u8>, i: int, o: Option<u16>)
    requires
        0 <= i,
        i + spec_enc_opt_u16(o).len() <= b.len(),
        b.subrange(i, i + spec_enc_opt_u16(o).len()) == spec_enc_opt_u16(o),
    ensures
        dec_opt_u16(b, i) == Some((o, i + spec_enc_opt_u16(o).len())),
{
    match o {
        None => {
            assert(b[i] == spec_enc_opt_u16(o)[0]);
        },
        Some(v) => {
            let e = spec_enc_opt_u16(o);
            assert(b[i] == e[0]);
            assert(b.subrange(i + 1, i + 3) =~= spec_u16_le(v)) by {
                assert forall|k: int| 0 <= k < 2 implies b.subrange(i + 1, i + 3)[k] == spec_u16_le(
                    v,
                )[k] by {
                    assert(b.subrange(i, i + 3)[k + 1] == b[i + 1 + k]);
                    assert(e[k + 1] == spec_u16_le(v)[k]);
                }
            }
            lemma_dec_u16_of_enc(b, i + 1, v);
        },
    }
}

proof fn lemma_dec_opt_string_of_enc(b: Seq<u8>, i: int, o: Option<Seq<char>>)
    requires
        0 <= i,
        wf_opt_string(o),
        i + spec_enc_opt_string(o).len() <= b.len(),
        b.subrange(i, i + spec_enc_opt_string(o).len()) == spec_enc_opt_string(o),
    ensures
        dec_opt_string(b, i) == Some((o, i + spec_enc_opt_string(o).len())),
{
    match o {
        None => {
            assert(b[i] == spec_enc_opt_string(o)[0]);
        },
        Some(s) => {
            let e = spec_enc_opt_string(o);
            let sb = spec_string_bytes(s);
            assert(b[i] == e[0]);
            assert(b.subrange(i + 1, i + 1 + sb.len()) =~= sb) by {
                assert forall|k: int| 0 <= k < sb.len() implies b.subrange(
                    i + 1,
                    i + 1 + sb.len(),
                )[k] == sb[k] by {
                    assert(b.subrange(i, i + e.len())[k + 1] == b[i + 1 + k]);
                    assert(e[k + 1] == sb[k]);
                }
            }
            lemma_dec_string_of_enc(b, i + 1, s);
        },
    }
}

#[verifier::rlimit(100)]
proof fn lemma_dec_request_at_of_enc(b: Seq<u8>, i: int, m: RequestView)
    requires
        0 <= i,
        wf_request(m),
        i + spec_enc_request(m).len() <= b.len(),
        b.subrange(i, i + spec_enc_request(m).len()) == spec_enc_request(m),
    ensures
        spec_dec_request_at(b, i) == Some((m, i + spec_enc_request(m).len())),
{
    let e = spec_enc_request(m);
    assert(b[i] == e[0]);
    match m {
        RequestView::Create { work_time, break_time, description } => {
            let p1 = spec_enc_opt_u16(work_time);
            let p2 = spec_enc_opt_u16(break_time);
            let p3 = spec_enc_opt_string(description);
            assert(e =~= seq![0u8] + p1 + p2 + p3);
            let o1 = i + 1;
            let o2 = o1 + p1.len();
            let o3 = o2 + p2.len();
            assert(b.subrange(o1, o1 + p1.len()) =~= p1) by {
                assert forall|k: int| 0 <= k < p1.len() implies b.subrange(o1, o1 + p1.len())[k]
                    == p1[k] by {
                    assert(b.subrange(i, i + e.len())[1 + k] == b[o1 + k]);
                    assert(e[1 + k] == p1[k]);
                }
            }
            assert(b.subrange(o2, o2 + p2.len()) =~= p2) by {
                assert forall|k: int| 0 <= k < p2.len() implies b.subrange(o2, o2 + p2.len())[k]
                    == p2[k] by {
                    assert(b.subrange(i, i + e.len())[1 + p1.len() + k] == b[o2 + k]);
                    assert(e[1 + p1.len() + k] == p2[k]);
                }
            }
            assert(b.subrange(o3, o3 + p3.len()) =~= p3) by {
                assert forall|k: int| 0 <= k < p3.len() implies b.subrange(o3, o3 + p3.len())[k]
                    == p3[k] by {
                    assert(b.subrange(i, i + e.len())[1 + p1.len() + p2.len() + k] == b[o3 + k]);
                    assert(e[1 + p1.len() + p2.len() + k] == p3[k]);
                }
            }
            lemma_dec_opt_u16_of_enc(b, o1, work_time);
            lemma_dec_opt_u16_of_enc(b, o2, break_time);
            lemma_dec_opt_string_of_enc(b, o3, description);
        },
        RequestView::Queue { work_time, break_time, description } => {
            let p1 = spec_enc_opt_u16(work_time);
            let p2 = spec_enc_opt_u16(break_time);
            let p3 = spec_enc_opt_string(description);
            assert(e =~= seq![1u8] + p1 + p2 + p3);
            let o1 = i + 1;
            let o2 = o1 + p1.len();
            let o3 = o2 + p2.len();
            assert(b.subrange(o1, o1 + p1.len()) =~= p1) by {
                assert forall|k: int| 0 <= k < p1.len() implies b.subrange(o1, o1 + p1.len())[k]
                    == p1[k] by {
                    assert(b.subrange(i, i + e.len())[1 + k] == b[o1 + k]);
                    assert(e[1 + k] == p1[k]);
                }
            }
            assert(b.subrange(o2, o2 + p2.len()) =~= p2) by {
                assert forall|k: int| 0 <= k < p2.len() implies b.subrange(o2, o2 + p2.len())[k]
                    == p2[k] by {
                    assert(b.subrange(i, i + e.len())[1 + p1.len() + k] == b[o2 + k]);
                    assert(e[1 + p1.len() + k] == p2[k]);
                }
            }
            assert(b.subrange(o3, o3 + p3.len()) =~= p3) by {
                assert forall|k: int| 0 <= k < p3.len() implies b.subrange(o3, o3 + p3.len())[k]
                    == p3[k] by {
                    assert(b.subrange(i, i + e.len())[1 + p1.len() + p2.len() + k] == b[o3 + k]);
                    assert(e[1 + p1.len() + p2.len() + k] == p3[k]);
                }
            }
            lemma_dec_opt_u16_of_enc(b, o1, work_time);
            lemma_dec_opt_u16_of_enc(b, o2, break_time);
            lemma_dec_opt_string_of_enc(b, o3, description);
        },
        RequestView::Delete { id, all } => {
            assert(e =~= seq![2u8] + spec_u16_le(id) + seq![spec_bool_byte(all)]);
            assert(b.subrange(i + 1, i + 3) =~= spec_u16_le(id)) by {
                assert forall|k: int| 0 <= k < 2 implies b.subrange(i + 1, i + 3)[k] == spec_u16_le(
                    id,
                )[k] by {
                    assert(b.subrange(i, i + 4)[1 + k] == b[i + 1 + k]);
                    assert(e[1 + k] == spec_u16_le(id)[k]);
                }
            }
            lemma_dec_u16_of_enc(b, i + 1, id);
            assert(b[i + 3] == e[3]);
            lemma_dec_bool_of_enc(b, i + 3, all);
        },
        RequestView::List { show_percentage } => {
            assert(b[i + 1] == e[1]);
            lemma_dec_bool_of_enc(b, i + 1, show_percentage);
        },
        RequestView::Test => {
        },
        RequestView::History { should_clear } => {
            assert(b[i + 1] == e[1]);
            lemma_dec_bool_of_enc(b, i + 1, should_clear);
        },
    }
}

proof fn lemma_dec_internal_at_of_enc(b: Seq<u8>, i: int, m: Message)
    requires
        0 <= i,
        i + 1 <= b.len(),
        b.subrange(i, i + 1) == spec_enc_internal(m),
    ensures
        spec_dec_internal_at(b, i) == Some((m, i + 1)),
{
    assert(b[i] == spec_enc_internal(m)[0]);
}

/// The codec inverts itself: a message's encoding decodes back to it.
pub proof fn lemma_message_round_trip(m: UdsMessageView)
    requires
        wf_message(m),
    ensures
        spec_dec_message(spec_enc_message(m)) == Some(m),
{
    let b = spec_enc_message(m);
    match m {
        UdsMessageView::Public(r) => {
            let e = spec_enc_request(r);
            assert(b =~= seq![0u8] + e);
            assert(b[0] == 0u8);
            assert(b.subrange(1, 1 + e.len() as int) =~= e);
            lemma_dec_request_at_of_enc(b, 1, r);
        },
        UdsMessageView::Internal(msg) => {
            assert(b[0] == 1u8);
            assert(b.subrange(1, 2) =~= spec_enc_internal(msg));
            lemma_dec_internal_at_of_enc(b, 1, msg);
        },
    }
}

/// The request codec inverts itself.
pub proof fn lemma_request_round_trip(m: RequestView)
    requires
        wf_request(m),
    ensures
        spec_dec_request(spec_enc_request(m)) == Some(m),
{
    let b = spec_enc_request(m);
    assert(b.subrange(0, b.len() as int) =~= b);
    lemma_dec_request_at_of_enc(b, 0, m);
}

/// The handshake codec inverts itself.
pub proof fn lemma_internal_round_trip(m: Message)
    ensures
        spec_dec_internal(spec_enc_internal(m)) == Some(m),
{
    let b = spec_enc_internal(m);
    assert(b.subrange(0, 1) =~= b);
    lemma_dec_internal_at_of_enc(b, 0, m);
}

proof fn lemma_dec_lines_of_enc(b: Seq<u8>, i: int, lines: Seq<Seq<char>>)
    requires
        0 <= i,
        wf_lines(lines),
        i + spec_enc_lines(lines).len() <= b.len(),
        b.subrange(i, i + spec_enc_lines(lines).len()) == spec_enc_lines(lines),
    ensures
        spec_dec_lines(b, i, lines.len()) == Some((lines, i + spec_enc_lines(lines).len())),
    decreases lines.len(),
{
    if lines.len() == 0 {
        assert(seq![] + Seq::<Seq<char>>::empty() =~= lines);
    } else {
        let s = lines[0];
        let sb = spec_string_bytes(s);
        let rest = lines.drop_first();
        let e = spec_enc_lines(lines);
        assert(e =~= sb + spec_enc_lines(rest));
        assert(b.subrange(i, i + sb.len()) =~= sb) by {
            assert forall|k: int| 0 <= k < sb.len() implies b.subrange(i, i + sb.len())[k]
                == sb[k] by {
                assert(b.subrange(i, i + e.len())[k] == b[i + k]);
                assert(e[k] == sb[k]);
            }
        }
        lemma_dec_string_of_enc(b, i, s);
        let j = i + sb.len();
        assert(b.subrange(j, j + spec_enc_lines(rest).len()) =~= spec_enc_lines(rest)) by {
            assert forall|k: int| 0 <= k < spec_enc_lines(rest).len() implies b.subrange(
                j,
                j + spec_enc_lines(rest).len(),
            )[k] == spec_enc_lines(rest)[k] by {
                assert(b.subrange(i, i + e.len())[sb.len() + k] == b[j + k]);
                assert(e[sb.len() + k] == spec_enc_lines(rest)[k]);
            }
        }
        assert(wf_lines(rest)) by {
            assert(forall|k: int| 0 <= k < rest.len() ==> rest[k] == lines[k + 1]);
        }
        lemma_dec_lines_of_enc(b, j, rest);
        assert(seq![s] + rest =~= lines);
    }
}

/// The response codec inverts itself.
pub proof fn lemma_response_round_trip(lines: Seq<Seq<char>>)
    requires
        wf_lines(lines),
    ensures
        spec_dec_response(spec_enc_response(lines)) == Some(lines),
{
    let b = spec_enc_response(lines);
    let n = lines.len() as u64;
    let pb = spec_u64_le(n);
    let lb = spec_enc_lines(lines);
    assert(b =~= pb + lb);
    assert(b.subrange(0, 8) =~= pb);
    lemma_dec_u64_of_enc(b, 0, n);
    assert(b.subrange(8, 8 + lb.len() as int) =~= lb);
    lemma_dec_lines_of_enc(b, 8, lines);
}

// ------------------------------------------------------------------
// Executable codec.
// ------------------------------------------------------------------

fn encode_opt_u16(out: &mut Vec<u8>, o: &Option<u16>)
    ensures
        final(out)@ == old(out)@ + spec_enc_opt_u16(*o),
{
    match o {
        None => {
            push_u8(out, 0);
        },
        Some(v) => {
            push_u8(out, 1);
            push_u16_le(out, *v);
            assert(final(out)@ =~= old(out)@ + spec_enc_opt_u16(*o));
        },
    }
}

fn encode_opt_string(out: &mut Vec<u8>, o: &Option<String>)
    ensures
        final(out)@ == old(out)@ + spec_enc_opt_string(o.deep_view()),
{
    match o {
        None => {
            push_u8(out, 0);
        },
        Some(s) => {
            push_u8(out, 1);
            push_string(out, s);
            assert(final(out)@ =~= old(out)@ + spec_enc_opt_string(o.deep_view()));
        },
    }
}

fn read_opt_u16(b: &Vec<u8>, pos: usize) -> (r: Option<(Option<u16>, usize)>)
    ensures
        match r {
            Some(vj) => dec_opt_u16(b@, pos as int) == Some((vj.0, vj.1 as int)) && vj.1
                <= b@.len(),
            None => dec_opt_u16(b@, pos as int) is None,
        },
{
    match read_u8(b, pos) {
        Some((t, j)) => if t == 0 {
            Some((None, j))
        } else if t == 1 {
            match read_u16(b, j) {
                Some((v, k)) => Some((Some(v), k)),
                None => None,
            }
        } else {
            None
        },
        None => None,
    }
}

fn read_opt_string(b: &Vec<u8>, pos: usize) -> (r: Option<(Option<String>, usize)>)
    ensures
        match r {
            Some(vj) => dec_opt_string(b@, pos as int) == Some((vj.0.deep_view(), vj.1 as int))
                && vj.1 <= b@.len(),
            None => dec_opt_string(b@, pos as int) is None,
        },
{
    match read_u8(b, pos) {
        Some((t, j)) => if t == 0 {
            Some((None, j))
        } else if t == 1 {
            match read_string(b, j) {
                Some((s, k)) => Some((Some(s), k)),
                None => None,
            }
        } else {
            None
        },
        None => None,
    }
}

impl Message {
    /// Encode this handshake message to its wire bytes.
    pub fn encode(self) -> (r: Vec<u8>)
        ensures
            r@ == spec_enc_internal(self),
    {
        let mut out: Vec<u8> = Vec::new();
        match self {
            Message::Ping => push_u8(&mut out, 0),
            Message::Pong => push_u8(&mut out, 1),
        }
        assert(out@ =~= spec_enc_internal(self));
        out
    }

    /// Decode a handshake message; fails exactly on bytes that no
    /// handshake message encodes to.
    pub fn decode(byte: &Vec<u8>) -> (r: Result<Message, CodecError>)
        ensures
            match r {
                Ok(m) => spec_dec_internal(byte@) == Some(m),
                Err(e) => spec_dec_internal(byte@) is None && e == CodecError::Malformed,
            },
    {
        match read_u8(byte, 0) {
            Some((tag, j)) => {
                let m = if tag == 0 {
                    Message::Ping
                } else if tag == 1 {
                    Message::Pong
                } else {
                    return Err(CodecError::Malformed);
                };
                if j == byte.len() {
                    Ok(m)
                } else {
                    Err(CodecError::Malformed)
                }
            },
            None => Err(CodecError::Malformed),
        }
    }
}

impl MessageRequest {
    /// Encode this request to its wire bytes.
    pub fn encode(&self) -> (r: Vec<u8>)
        ensures
            r@ == spec_enc_request(self@),
    {
        let mut out: Vec<u8> = Vec::new();
        match self {
            MessageRequest::Create { work_time, break_time, description } => {
                push_u8(&mut out, 0);
                encode_opt_u16(&mut out, work_time);
                encode_opt_u16(&mut out, break_time);
                encode_opt_string(&mut out, description);
            },
            MessageRequest::Queue { work_time, break_time, description } => {
                push_u8(&mut out, 1);
                encode_opt_u16(&mut out, work_time);
                encode_opt_u16(&mut out, break_time);
                encode_opt_string(&mut out, description);
            },
            MessageRequest::Delete { id, all } => {
                push_u8(&mut out, 2);
                push_u16_le(&mut out, *id);
                push_bool(&mut out, *all);
            },
            MessageRequest::List { show_percentage } => {
                push_u8(&mut out, 3);
                push_bool(&mut out, *show_percentage);
            },
            MessageRequest::Test => {
                push_u8(&mut out, 4);
            },
            MessageRequest::History { should_clear } => {
                push_u8(&mut out, 5);
                push_bool(&mut out, *should_clear);
            },
        }
        assert(out@ =~= spec_enc_request(self@));
        out
    }

    /// Decode a request; fails exactly on bytes that no request
    /// encodes to.
    pub fn decode(byte: &Vec<u8>) -> (r: Result<MessageRequest, CodecError>)
        ensures
            match r {
                Ok(m) => spec_dec_request(byte@) == Some(m@),
                Err(e) => spec_dec_request(byte@) is None && e == CodecError::Malformed,
            },
    {
        match read_request_at(byte, 0) {
            Some((m, j)) => if j == byte.len() {
                Ok(m)
            } else {
                Err(CodecError::Malformed)
            },
            None => Err(CodecError::Malformed),
        }
    }
}

fn read_request_at(b: &Vec<u8>, pos: usize) -> (r: Option<(MessageRequest, usize)>)
    ensures
        match r {
            Some(mj) => spec_dec_request_at(b@, pos as int) == Some((mj.0@, mj.1 as int)) && mj.1
                <= b@.len(),
            None => spec_dec_request_at(b@, pos as int) is None,
        },
{
    match read_u8(b, pos) {
        Some((tag, j)) => {
            if tag == 0 || tag == 1 {
                match read_opt_u16(b, j) {
                    Some((work_time, j1)) => match read_opt_u16(b, j1) {
                        Some((break_time, j2)) => match read_opt_string(b, j2) {
                            Some((description, j3)) => {
                                if tag == 0 {
                                    Some(
                                        (
                                            MessageRequest::Create {
                                                work_time,
                                                break_time,
                                                description,
                                            },
                                            j3,
                                        ),
                                    )
                                } else {
                                    Some(
                                        (
                                            MessageRequest::Queue {
                                                work_time,
                                                break_time,
                                                description,
                                            },
                                            j3,
                                        ),
                                    )
                                }
                            },
                            None => None,
                        },
                        None => None,
                    },
                    None => None,
                }
            } else if tag == 2 {
                match read_u16(b, j) {
                    Some((id, j1)) => match read_bool(b, j1) {
                        Some((all, j2)) => Some((MessageRequest::Delete { id, all }, j2)),
                        None => None,
                    },
                    None => None,
                }
            } else if tag == 3 {
                match read_bool(b, j) {
                    Some((show_percentage, j1)) => Some(
                        (MessageRequest::List { show_percentage }, j1),
                    ),
                    None => None,
                }
            } else if tag == 4 {
                Some((MessageRequest::Test, j))
            } else if tag == 5 {
                match read_bool(b, j) {
                    Some((should_clear, j1)) => Some(
                        (MessageRequest::History { should_clear }, j1),
                    ),
                    None => None,
                }
            } else {
                None
            }
        },
        None => None,
    }
}

impl UdsMessage {
    /// Encode this envelope to its wire bytes.
    pub fn encode(&self) -> (r: Vec<u8>)
        ensures
            r@ == spec_enc_message(self@),
    {
        let mut out: Vec<u8> = Vec::new();
        match self {
            UdsMessage::Public(req) => {
                push_u8(&mut out, 0);
                let body = req.encode();
                crate::wire::push_bytes(&mut out, &body);
            },
            UdsMessage::Internal(msg) => {
                push_u8(&mut out, 1);
                match msg {
                    Message::Ping => push_u8(&mut out, 0),
                    Message::Pong => push_u8(&mut out, 1),
                }
            },
        }
        assert(out@ =~= spec_enc_message(self@));
        out
    }

    /// Decode an envelope; fails exactly on bytes that no envelope
    /// encodes to.
    pub fn decode(byte: &Vec<u8>) -> (r: Result<UdsMessage, CodecError>)
        ensures
            match r {
                Ok(m) => spec_dec_message(byte@) == Some(m@),
                Err(e) => spec_dec_message(byte@) is None && e == CodecError::Malformed,
            },
    {
        match read_u8(byte, 0) {
            Some((tag, j)) => {
                if tag == 0 {
                    match read_request_at(byte, j) {
                        Some((m, k)) => if k == byte.len() {
                            Ok(UdsMessage::Public(m))
                        } else {
                            Err(CodecError::Malformed)
                        },
                        None => Err(CodecError::Malformed),
                    }
                } else if tag == 1 {
                    match read_u8(byte, j) {
                        Some((t2, k)) => {
                            let m = if t2 == 0 {
                                Message::Ping
                            } else if t2 == 1 {
                                Message::Pong
                            } else {
                                return Err(CodecError::Malformed);
                            };
                            if k == byte.len() {
                                Ok(UdsMessage::Internal(m))
                            } else {
                                Err(CodecError::Malformed)
                            }
                        },
                        None => Err(CodecError::Malformed),
                    }
                } else {
                    Err(CodecError::Malformed)
                }
            },
            None => Err(CodecError::Malformed),
        }
    }
}

impl MessageResponse {
    pub fn new(body: Vec<String>) -> (r: Self)
        ensures
            r.body == body,
    {
        MessageResponse { body }
    }

    pub fn get_body(&self) -> (r: &Vec<String>)
        ensures
            r == &self.body,
    {
        &self.body
    }

    /// Encode this response to its wire bytes.
    pub fn encode(&self) -> (r: Vec<u8>)
        ensures
            r@ == spec_enc_response(self@),
    {
        let mut out: Vec<u8> = Vec::new();
        push_u64_le(&mut out, self.body.len() as u64);
        let ghost all = self.body.deep_view();
        let mut i: usize = 0;
        while i < self.body.len()
            invariant
                i <= self.body@.len(),
                all == self.body.deep_view(),
                all.len() == self.body@.len(),
                out@ == spec_u64_le(all.len() as u64) + spec_enc_lines(all.subrange(0, i as int)),
            decreases self.body@.len() - i,
        {
            let ghost prefix = all.subrange(0, i as int);
            push_string(&mut out, &self.body[i]);
            proof {
                let prefix2 = all.subrange(0, i + 1 as int);
                assert(self.body[i as int]@ == all[i as int]);
                lemma_enc_lines_snoc(prefix, all[i as int]);
                assert(prefix.push(all[i as int]) =~= prefix2);
                assert(out@ =~= spec_u64_le(all.len() as u64) + spec_enc_lines(prefix2));
            }
            i = i + 1;
        }
        proof {
            assert(all.subrange(0, all.len() as int) =~= all);
        }
        out
    }

    /// Decode a response; fails exactly on bytes that no response
    /// encodes to.
    pub fn decode(byte: &Vec<u8>) -> (r: Result<MessageResponse, CodecError>)
        ensures
            match r {
                Ok(m) => spec_dec_response(byte@) == Some(m@),
                Err(e) => spec_dec_response(byte@) is None && e == CodecError::Malformed,
            },
    {
        let n = match read_u64(byte, 0) {
            Some((n, j)) => n,
            None => {
                return Err(CodecError::Malformed);
            },
        };
        let mut pos: usize = 8;
        let mut body: Vec<String> = Vec::new();
        let mut k: u64 = 0;
        proof {
            lemma_prepend_nil(spec_dec_lines(byte@, 8, n as nat));
        }
        while k < n
            invariant
                k <= n,
                pos <= byte@.len(),
                dec_u64(byte@, 0) == Some((n, 8int)),
                body.deep_view().len() == k,
                spec_dec_lines(byte@, 8, n as nat) == prepend_lines(
                    body.deep_view(),
                    spec_dec_lines(byte@, pos as int, (n - k) as nat),
                ),
            decreases n - k,
        {
            let ghost before = body.deep_view();
            match read_string(byte, pos) {
                Some((s, j)) => {
                    body.push(s);
                    proof {
                        assert(body.deep_view() =~= before.push(s@));
                        lemma_prepend_lines_step(byte@, before, s@, pos as int, j as int, (n
                            - k) as nat);
                    }
                    pos = j;
                    k = k + 1;
                },
                None => {
                    proof {
                        assert(spec_dec_lines(byte@, pos as int, (n - k) as nat) is None);
                    }
                    return Err(CodecError::Malformed);
                },
            }
        }
        proof {
            assert(spec_dec_lines(byte@, pos as int, 0) == Some(
                (Seq::<Seq<char>>::empty(), pos as int),
            ));
            assert(body.deep_view() + Seq::<Seq<char>>::empty() =~= body.deep_view());
        }
        if pos == byte.len() {
            Ok(MessageResponse { body })
        } else {
            Err(CodecError::Malformed)
        }
    }
}

/// Prepending no lines to a partial parse leaves it unchanged.
proof fn lemma_prepend_nil(rest: Option<(Seq<Seq<char>>, int)>)
    ensures
        prepend_lines(Seq::empty(), rest) == rest,
{
    match rest {
        Some((ss, j)) => {
            assert(Seq::<Seq<char>>::empty() + ss =~= ss);
        },
        None => {
        },
    }
}

/// Appending one line to a prefix extends its encoding at the end.
proof fn lemma_enc_lines_snoc(lines: Seq<Seq<char>>, s: Seq<char>)
    ensures
        spec_enc_lines(lines.push(s)) == spec_enc_lines(lines) + spec_string_bytes(s),
    decreases lines.len(),
{
    if lines.len() == 0 {
        let p = lines.push(s);
        assert(p.len() == 1);
        assert(p[0] == s);
        assert(p.drop_first() =~= lines);
        assert(spec_enc_lines(p) == spec_string_bytes(s) + spec_enc_lines(lines));
        assert(spec_enc_lines(lines) == Seq::<u8>::empty());
        assert(spec_string_bytes(s) + Seq::<u8>::empty() =~= spec_string_bytes(s));
        assert(Seq::<u8>::empty() + spec_string_bytes(s) =~= spec_string_bytes(s));
    } else {
        assert(lines.push(s).drop_first() =~= lines.drop_first().push(s));
        lemma_enc_lines_snoc(lines.drop_first(), s);
        assert(spec_enc_lines(lines.push(s)) =~= spec_enc_lines(lines) + spec_string_bytes(s));
    }
}

/// How a partial parse composes with the lines already read.
pub open spec fn prepend_lines(
    done: Seq<Seq<char>>,
    rest: Option<(Seq<Seq<char>>, int)>,
) -> Option<(Seq<Seq<char>>, int)> {
    match rest {
        Some((ss, j)) => Some((done + ss, j)),
        None => None,
    }
}

proof fn lemma_prepend_lines_step(
    b: Seq<u8>,
    done: Seq<Seq<char>>,
    s: Seq<char>,
    i: int,
    j: int,
    remaining: nat,
)
    requires
        remaining > 0,
        dec_string(b, i) == Some((s, j)),
    ensures
        prepend_lines(done, spec_dec_lines(b, i, remaining)) == prepend_lines(
            done.push(s),
            spec_dec_lines(b, j, (remaining - 1) as nat),
        ),
{
    match spec_dec_lines(b, j, (remaining - 1) as nat) {
        Some((ss, k)) => {
            assert(spec_dec_lines(b, i, remaining) == Some((seq![s] + ss, k)));
            assert(done + (seq![s] + ss) =~= done.push(s) + ss);
        },
        None => {
            assert(spec_dec_lines(b, i, remaining) is None);
        },
    }
}

} // verus!
