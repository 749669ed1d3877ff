//! Messages over Bluetooth: cut into small writes on one side, put together again on the other,
//! and the answer to an offer that travels that way.

use crate::bytes::{
    append, be_bytes, be_value, copy_range, joined, law_be_round_trip, lemma_be_bytes_len,
    lemma_pow256, push_be, read_be,
};
use crate::error::AirError;
use crate::text::{from_utf8_lossy, lemma_text_survives, lossy_text};
use crate::transport::{
    frame_header, frame_length, framed, law_nothing_is_lost, law_stream_keeps_messages, take_frame,
};
use vstd::prelude::*;
use vstd::slice::slice_subrange;
use vstd::utf8::encode_utf8;

verus! {

/// The size of a single GATT write. A hundred bytes get through even where no larger packet size
/// was negotiated.
pub const CHUNK_SIZE: usize = 100;

/// `data` in pieces of `size` bytes; the last one may be shorter.
pub open spec fn chunks_of(data: Seq<u8>, size: nat) -> Seq<Seq<u8>>
    recommends
        size > 0,
{
    Seq::new(
        (data.len() + size - 1) as nat / size,
        |i: int|
            data.subrange(
                i * size,
                if (i + 1) * size <= data.len() {
                    (i + 1) * size
                } else {
                    data.len() as int
                },
            ),
    )
}

proof fn lemma_chunk_bounds(len: nat, size: nat, i: nat)
    requires
        size > 0,
    ensures
        i < (len + size - 1) as nat / size <==> i * size < len,
{
    let n = (len + size - 1) as nat / size;
    vstd::arithmetic::div_mod::lemma_fundamental_div_mod((len + size - 1) as int, size as int);
    assert(n * size <= len + size - 1 < n * size + size) by (nonlinear_arith)
        requires
            len + size - 1 == size * n + (len + size - 1) % (size as int),
            0 <= (len + size - 1) % (size as int) < size,
    ;
    if i < n {
        assert(i * size + size <= n * size) by (nonlinear_arith)
            requires
                i + 1 <= n,
        ;
    } else {
        assert(n * size <= i * size) by (nonlinear_arith)
            requires
                n <= i,
        ;
    }
}

/// The pieces of a message as it is written over Bluetooth: its length, then the message, in
/// writes of at most [`CHUNK_SIZE`] bytes.
pub fn frame_chunks(data: &[u8]) -> (chunks: Vec<Vec<u8>>)
    ensures
        chunks@.len() == chunks_of(framed(data@), CHUNK_SIZE as nat).len(),
        forall|i: int|
            0 <= i < chunks@.len() ==> (#[trigger] chunks@[i])@ == chunks_of(
                framed(data@),
                CHUNK_SIZE as nat,
            )[i],
{
    let mut message: Vec<u8> = frame_header(data);
    append(&mut message, data);
    let mut chunks: Vec<Vec<u8>> = Vec::new();
    let mut from: usize = 0;
    let ghost whole = framed(data@);
    while from < message.len()
        invariant
            message@ == whole,
            from == chunks@.len() * CHUNK_SIZE || (from == whole.len() && chunks@.len()
                * CHUNK_SIZE >= whole.len()),
            from <= whole.len(),
            chunks@.len() <= chunks_of(whole, CHUNK_SIZE as nat).len(),
            forall|i: int|
                0 <= i < chunks@.len() ==> (#[trigger] chunks@[i])@ == chunks_of(
                    whole,
                    CHUNK_SIZE as nat,
                )[i],
        decreases whole.len() - from,
    {
        let to: usize = if message.len() - from >= CHUNK_SIZE {
            from + CHUNK_SIZE
        } else {
            message.len()
        };
        proof {
            lemma_chunk_bounds(whole.len(), CHUNK_SIZE as nat, chunks@.len());
        }
        chunks.push(copy_range(message.as_slice(), from, to));
        from = to;
    }
    proof {
        lemma_chunk_bounds(whole.len(), CHUNK_SIZE as nat, chunks@.len());
    }
    chunks
}

/// Nothing is lost in cutting a message up: the pieces, put together, are the message, none is
/// empty, and none is too long for a single write.
pub proof fn law_chunks_join(data: Seq<u8>, size: nat)
    requires
        size > 0,
    ensures
        joined(chunks_of(data, size)) == data,
        forall|i: int|
            0 <= i < chunks_of(data, size).len() ==> 0 < (#[trigger] chunks_of(
                data,
                size,
            )[i]).len() <= size,
{
    let chunks = chunks_of(data, size);
    let n = chunks.len();
    lemma_chunk_bounds(data.len(), size, n);
    lemma_joined_prefix(data, size, n);
    assert(chunks.take(n as int) =~= chunks);
    assert(data.take(data.len() as int) =~= data);
    assert forall|i: int| 0 <= i < n implies 0 < (#[trigger] chunks[i]).len() <= size by {
        lemma_chunk_bounds(data.len(), size, i as nat);
        assert((i + 1) * size == i * size + size) by (nonlinear_arith);
    }
}

spec fn least(a: int, b: int) -> int {
    if a <= b {
        a
    } else {
        b
    }
}

proof fn lemma_joined_prefix(data: Seq<u8>, size: nat, k: nat)
    requires
        size > 0,
        k <= chunks_of(data, size).len(),
    ensures
        joined(chunks_of(data, size).take(k as int)) == data.take(
            least((k * size) as int, data.len() as int),
        ),
    decreases k,
{
    let chunks = chunks_of(data, size);
    let end = least((k * size) as int, data.len() as int);
    if k == 0 {
        assert(k * size == 0) by (nonlinear_arith)
            requires
                k == 0,
        ;
        assert(chunks.take(0) =~= Seq::<Seq<u8>>::empty());
        assert(data.take(0) =~= Seq::<u8>::empty());
        assert(end == 0);
    } else {
        let j = (k - 1) as nat;
        let from = (j * size) as int;
        lemma_joined_prefix(data, size, j);
        lemma_chunk_bounds(data.len(), size, j);
        assert(k * size == j * size + size) by (nonlinear_arith)
            requires
                k == j + 1,
        ;
        assert((j as int + 1) * size == k * size);
        assert(0 <= from < data.len());
        assert(chunks[j as int] == data.subrange(from, end));
        assert(data.take(from) + data.subrange(from, end) =~= data.take(end));
        let front = chunks.take(k as int);
        assert(front.len() == k);
        assert(front.drop_last() =~= chunks.take(j as int));
        assert(front.last() == chunks[j as int]);
        assert(joined(front) == joined(front.drop_last()) + front.last());
    }
}

/// What a buffer gives after a push: the first message, once it is complete, and the rest.
pub open spec fn reassembled(buffer: Seq<u8>) -> (Option<Seq<u8>>, Seq<u8>) {
    match take_frame(buffer, u32::MAX as nat) {
        Some((frame, rest)) => (Some(frame), rest),
        None => (None, buffer),
    }
}

/// An optional byte string in view.
pub open spec fn bytes_view(b: Option<Vec<u8>>) -> Option<Seq<u8>> {
    match b {
        Some(v) => Some(v@),
        None => None,
    }
}

/// Puts messages together again that came in pieces. Its view is what has arrived and not been
/// handed out.
pub struct FrameReassembler {
    buffer: Vec<u8>,
}

impl View for FrameReassembler {
    type V = Seq<u8>;

    closed spec fn view(&self) -> Seq<u8> {
        self.buffer@
    }
}

impl FrameReassembler {
    pub fn new() -> (r: FrameReassembler)
        ensures
            r@ == Seq::<u8>::empty(),
    {
        FrameReassembler { buffer: Vec::new() }
    }

    /// Adds a piece, and hands out the first message if it is complete.
    pub fn push(&mut self, chunk: &[u8]) -> (frame: Option<Vec<u8>>)
        ensures
            (bytes_view(frame), final(self)@) == reassembled(old(self)@ + chunk@),
    {
        append(&mut self.buffer, chunk);
        match first_field(self.buffer.as_slice(), 0) {
            Some(end) => {
                let ghost buffer = self.buffer@;
                let frame = copy_range(self.buffer.as_slice(), 4, end);
                self.buffer = copy_range(self.buffer.as_slice(), end, self.buffer.len());
                proof {
                    assert(buffer.skip(0) =~= buffer);
                    assert(buffer.subrange(end as int, buffer.len() as int) =~= buffer.skip(
                        end as int,
                    ));
                }
                Some(frame)
            },
            None => {
                proof {
                    assert(self.buffer@.skip(0) =~= self.buffer@);
                }
                None
            },
        }
    }
}

/// What a buffer gives after a push where messages over `max_len` are refused: an error as soon as
/// the length of one is there.
pub open spec fn reassembled_within(buffer: Seq<u8>, max_len: u32) -> Result<
    (Option<Seq<u8>>, Seq<u8>),
    AirError,
> {
    if buffer.len() >= 4 && be_value(buffer.take(4)) > max_len {
        Err(AirError::FrameTooLarge)
    } else {
        Ok(reassembled(buffer))
    }
}

impl FrameReassembler {
    /// Adds a piece, and hands out the first message if it is complete. A message that announces
    /// more than `max_len` bytes is refused before it has arrived, and so is all that comes after.
    pub fn push_within(&mut self, chunk: &[u8], max_len: u32) -> (r: Result<
        Option<Vec<u8>>,
        AirError,
    >)
        ensures
            match reassembled_within(old(self)@ + chunk@, max_len) {
                Ok((frame, rest)) => (r matches Ok(got) && bytes_view(got) == frame)
                    && final(self)@ == rest,
                Err(e) => r == Err::<Option<Vec<u8>>, AirError>(e) && final(self)@ == old(self)@
                    + chunk@,
            },
    {
        append(&mut self.buffer, chunk);
        if self.buffer.len() >= 4 {
            let header: &[u8] = slice_subrange(self.buffer.as_slice(), 0, 4);
            proof {
                assert(header@ =~= self.buffer@.take(4));
            }
            if let Err(e) = frame_length(header, max_len) {
                return Err(e);
            }
        }
        let nothing: Vec<u8> = Vec::new();
        proof {
            assert(self@ + nothing@ =~= self@);
        }
        Ok(self.push(nothing.as_slice()))
    }
}

/// No message over the limit comes out, and a message is refused for its length alone: one within
/// the limit comes out as it would without one.
pub proof fn law_limit_refuses_long_messages_only(data: Seq<u8>, arrived: nat, max_len: u32)
    requires
        data.len() < 0x1_0000_0000,
        arrived <= framed(data).len(),
    ensures
        ({
            let buffer = framed(data).take(arrived as int);
            reassembled_within(buffer, max_len) == if arrived >= 4 && data.len() > max_len {
                Err(AirError::FrameTooLarge)
            } else {
                Ok(reassembled(buffer))
            }
        }),
{
    lemma_be_bytes_len(data.len(), 4);
    if arrived >= 4 {
        lemma_pow256();
        law_be_round_trip(data.len(), 4);
        assert(framed(data).take(arrived as int).take(4) =~= be_bytes(data.len(), 4));
    }
}

/// Whatever arrives, no message over the limit is handed out.
pub proof fn law_no_message_over_the_limit(buffer: Seq<u8>, max_len: u32)
    ensures
        reassembled_within(buffer, max_len) matches Ok((frame, rest)) ==> (frame matches Some(data)
            ==> data.len() <= max_len),
{
}

/// Where the field ends that begins at `pos` with its length in four bytes.
fn first_field(bytes: &[u8], pos: usize) -> (end: Option<usize>)
    requires
        pos <= bytes@.len(),
    ensures
        end is Some <==> take_frame(bytes@.skip(pos as int), u32::MAX as nat) is Some,
        end matches Some(e) ==> pos + 4 <= e <= bytes@.len() && take_frame(
            bytes@.skip(pos as int),
            u32::MAX as nat,
        ) == Some((bytes@.subrange(pos + 4, e as int), bytes@.skip(e as int))),
{
    if bytes.len() - pos < 4 {
        return None;
    }
    let header: &[u8] = slice_subrange(bytes, pos, pos + 4);
    let len: u128 = read_be(header);
    proof {
        lemma_pow256();
        assert(header@ =~= bytes@.skip(pos as int).take(4));
    }
    if ((bytes.len() - pos - 4) as u128) < len {
        return None;
    }
    let end: usize = pos + 4 + len as usize;
    proof {
        let s = bytes@.skip(pos as int);
        assert(s.subrange(4, 4 + len as int) =~= bytes@.subrange(pos + 4, end as int));
        assert(s.skip(4 + len as int) =~= bytes@.skip(end as int));
    }
    Some(end)
}

/// All messages that come out when pieces are pushed one after the other, and what is left.
pub open spec fn pushed_all(buffer: Seq<u8>, pieces: Seq<Seq<u8>>) -> (Seq<Seq<u8>>, Seq<u8>)
    decreases pieces.len(),
{
    if pieces.len() == 0 {
        (Seq::empty(), buffer)
    } else {
        let (frames, rest) = pushed_all(buffer, pieces.drop_last());
        match reassembled(rest + pieces.last()) {
            (Some(frame), left) => (frames.push(frame), left),
            (None, left) => (frames, left),
        }
    }
}

pub(crate) proof fn lemma_incomplete_frame(data: Seq<u8>, part: Seq<u8>)
    requires
        data.len() < 0x1_0000_0000,
        part.len() < framed(data).len(),
        part == framed(data).take(part.len() as int),
    ensures
        take_frame(part, u32::MAX as nat) is None,
{
    lemma_be_bytes_len(data.len(), 4);
    if part.len() >= 4 {
        lemma_pow256();
        law_be_round_trip(data.len(), 4);
        assert(part.take(4) =~= be_bytes(data.len(), 4));
    }
}

proof fn lemma_push_prefixes(data: Seq<u8>, pieces: Seq<Seq<u8>>)
    requires
        data.len() < 0x1_0000_0000,
        joined(pieces).len() <= framed(data).len(),
        joined(pieces) == framed(data).take(joined(pieces).len() as int),
    ensures
        joined(pieces).len() < framed(data).len() ==> pushed_all(Seq::empty(), pieces) == (
            Seq::<Seq<u8>>::empty(),
            joined(pieces),
        ),
        joined(pieces).len() == framed(data).len() ==> pushed_all(Seq::empty(), pieces) == (
            seq![data],
            Seq::<u8>::empty(),
        ),
    decreases pieces.len(),
{
    lemma_be_bytes_len(data.len(), 4);
    let all = joined(pieces);
    let whole = framed(data);
    if pieces.len() > 0 {
        let before = joined(pieces.drop_last());
        assert(before =~= whole.take(before.len() as int)) by {
            assert(before =~= all.take(before.len() as int));
        }
        lemma_push_prefixes(data, pieces.drop_last());
        if before.len() < whole.len() {
            if all.len() < whole.len() {
                lemma_incomplete_frame(data, all);
            } else {
                assert(all =~= whole);
                law_stream_keeps_messages(data, Seq::empty(), u32::MAX as nat);
                assert(whole + Seq::<u8>::empty() =~= whole);
                assert(Seq::<Seq<u8>>::empty().push(data) =~= seq![data]);
            }
        } else {
            assert(Seq::<u8>::empty() + pieces.last() =~= Seq::<u8>::empty());
        }
    }
}

/// However a message is cut up on the way, it comes out once, whole, and nothing is left behind.
pub proof fn law_frame_survives_any_split(data: Seq<u8>, pieces: Seq<Seq<u8>>)
    requires
        data.len() < 0x1_0000_0000,
        joined(pieces) == framed(data),
    ensures
        pushed_all(Seq::empty(), pieces) == (seq![data], Seq::<u8>::empty()),
{
    assert(framed(data).take(framed(data).len() as int) =~= framed(data));
    lemma_push_prefixes(data, pieces);
}

/// The writes that carry messages one after the other.
pub open spec fn all_chunks(messages: Seq<Seq<u8>>) -> Seq<Seq<u8>>
    decreases messages.len(),
{
    if messages.len() == 0 {
        Seq::empty()
    } else {
        all_chunks(messages.drop_last()) + chunks_of(framed(messages.last()), CHUNK_SIZE as nat)
    }
}

proof fn lemma_pushed_all_concat(buffer: Seq<u8>, first: Seq<Seq<u8>>, second: Seq<Seq<u8>>)
    ensures
        ({
            let (a, mid) = pushed_all(buffer, first);
            let (b, rest) = pushed_all(mid, second);
            pushed_all(buffer, first + second) == (a + b, rest)
        }),
    decreases second.len(),
{
    let (a, mid) = pushed_all(buffer, first);
    if second.len() == 0 {
        assert(first + second =~= first);
        assert(a + Seq::<Seq<u8>>::empty() =~= a);
    } else {
        lemma_pushed_all_concat(buffer, first, second.drop_last());
        assert((first + second).drop_last() =~= first + second.drop_last());
        let (b, rest) = pushed_all(mid, second.drop_last());
        if let Some(frame) = reassembled(rest + second.last()).0 {
            assert((a + b).push(frame) =~= a + b.push(frame));
        }
    }
}

/// Messages that are written one after the other come out in that order, each of them whole.
pub proof fn law_messages_arrive_over_bluetooth(messages: Seq<Seq<u8>>)
    requires
        forall|i: int| 0 <= i < messages.len() ==> (#[trigger] messages[i]).len() < 0x1_0000_0000,
    ensures
        pushed_all(Seq::empty(), all_chunks(messages)) == (messages, Seq::<u8>::empty()),
    decreases messages.len(),
{
    if messages.len() > 0 {
        let front = messages.drop_last();
        let last = messages.last();
        assert forall|i: int| 0 <= i < front.len() implies (#[trigger] front[i]).len()
            < 0x1_0000_0000 by {
            assert(messages[i].len() < 0x1_0000_0000);
        }
        assert(messages[messages.len() - 1].len() < 0x1_0000_0000);
        law_messages_arrive_over_bluetooth(front);
        let tail = chunks_of(framed(last), CHUNK_SIZE as nat);
        law_chunks_join(framed(last), CHUNK_SIZE as nat);
        law_frame_survives_any_split(last, tail);
        lemma_pushed_all_concat(Seq::empty(), all_chunks(front), tail);
        assert(front + seq![last] =~= messages);
    } else {
        assert(messages =~= Seq::<Seq<u8>>::empty());
    }
}

/// Messages as they stand on a stream, one after the other.
pub open spec fn all_framed(messages: Seq<Seq<u8>>) -> Seq<u8>
    decreases messages.len(),
{
    if messages.len() == 0 {
        Seq::empty()
    } else {
        all_framed(messages.drop_last()) + framed(messages.last())
    }
}

/// Whatever is pushed, nothing is lost and nothing made up: the messages that came out, and what
/// is left, are what went in.
pub proof fn law_reassembler_keeps_every_byte(pieces: Seq<Seq<u8>>)
    ensures
        ({
            let (frames, rest) = pushed_all(Seq::empty(), pieces);
            all_framed(frames) + rest == joined(pieces)
        }),
    decreases pieces.len(),
{
    let (frames, rest) = pushed_all(Seq::empty(), pieces);
    if pieces.len() == 0 {
        assert(all_framed(frames) + rest =~= joined(pieces));
    } else {
        law_reassembler_keeps_every_byte(pieces.drop_last());
        let (before, held) = pushed_all(Seq::empty(), pieces.drop_last());
        let buffer = held + pieces.last();
        law_nothing_is_lost(buffer, u32::MAX as nat);
        match take_frame(buffer, u32::MAX as nat) {
            Some((frame, left)) => {
                assert(frames == before.push(frame) && rest == left);
                assert(frames.drop_last() =~= before);
                assert(all_framed(before) + framed(frame) + left =~= all_framed(before) + (framed(
                    frame,
                ) + left));
                assert(all_framed(before) + buffer =~= (all_framed(before) + held)
                    + pieces.last());
            },
            None => {
                assert(all_framed(before) + buffer =~= (all_framed(before) + held)
                    + pieces.last());
            },
        }
    }
}

/// The receiver's answer to an offer: the network to join, or no.
#[derive(Debug, Clone)]
pub enum HotspotResponse {
    Accepted { ssid: String, password: String },
    Rejected,
}

/// A [`HotspotResponse`] with its texts in view.
pub enum ResponseView {
    Accepted { ssid: Seq<char>, password: Seq<char> },
    Rejected,
}

impl View for HotspotResponse {
    type V = ResponseView;

    open spec fn view(&self) -> ResponseView {
        match self {
            HotspotResponse::Accepted { ssid, password } => ResponseView::Accepted {
                ssid: ssid@,
                password: password@,
            },
            HotspotResponse::Rejected => ResponseView::Rejected,
        }
    }
}

/// An optional answer in view.
pub open spec fn response_view(r: Option<HotspotResponse>) -> Option<ResponseView> {
    match r {
        Some(response) => Some(response@),
        None => None,
    }
}

/// An answer on the wire: a zero for no; else a one, and name and password of the network, each
/// with its length in front.
pub open spec fn response_bytes(response: ResponseView) -> Seq<u8> {
    match response {
        ResponseView::Rejected => seq![0u8],
        ResponseView::Accepted { ssid, password } => seq![1u8] + framed(encode_utf8(ssid))
            + framed(encode_utf8(password)),
    }
}

/// The answer that bytes stand for. Anything but a zero in front is a yes; what stands behind the
/// second field does not count.
pub open spec fn response_of(bytes: Seq<u8>) -> Option<ResponseView> {
    if bytes.len() == 0 {
        None
    } else if bytes[0] == 0 {
        Some(ResponseView::Rejected)
    } else {
        match take_frame(bytes.skip(1), u32::MAX as nat) {
            Some((ssid, rest)) => match take_frame(rest, u32::MAX as nat) {
                Some((password, _)) => Some(
                    ResponseView::Accepted {
                        ssid: lossy_text(ssid),
                        password: lossy_text(password),
                    },
                ),
                None => None,
            },
            None => None,
        }
    }
}

fn push_field(out: &mut Vec<u8>, field: &str)
    ensures
        final(out)@ == old(out)@ + framed(encode_utf8(field@)),
{
    let bytes: &[u8] = field.as_bytes();
    push_be(out, bytes.len() as u128, 4);
    append(out, bytes);
    proof {
        assert(out@ =~= old(out)@ + framed(encode_utf8(field@)));
    }
}

/// Writes an answer.
pub fn encode_response(response: &HotspotResponse) -> (bytes: Vec<u8>)
    ensures
        bytes@ == response_bytes(response@),
{
    match response {
        HotspotResponse::Rejected => vec![0u8],
        HotspotResponse::Accepted { ssid, password } => {
            let mut out: Vec<u8> = vec![1u8];
            push_field(&mut out, ssid.as_str());
            push_field(&mut out, password.as_str());
            out
        },
    }
}

/// Reads an answer.
pub fn decode_response(bytes: &[u8]) -> (r: Option<HotspotResponse>)
    ensures
        response_view(r) == response_of(bytes@),
{
    if bytes.len() == 0 {
        return None;
    }
    if bytes[0] == 0 {
        return Some(HotspotResponse::Rejected);
    }
    let ssid_end: usize = match first_field(bytes, 1) {
        Some(end) => end,
        None => return None,
    };
    let password_end: usize = match first_field(bytes, ssid_end) {
        Some(end) => end,
        None => return None,
    };
    Some(
        HotspotResponse::Accepted {
            ssid: from_utf8_lossy(slice_subrange(bytes, 5, ssid_end)),
            password: from_utf8_lossy(slice_subrange(bytes, ssid_end + 4, password_end)),
        },
    )
}

/// An answer is read as it was written, if its texts are of less than four gigabytes, whatever
/// follows it.
pub proof fn law_response_round_trip(response: ResponseView, rest: Seq<u8>)
    requires
        response matches ResponseView::Accepted { ssid, password } ==> encode_utf8(ssid).len()
            < 0x1_0000_0000 && encode_utf8(password).len() < 0x1_0000_0000,
    ensures
        response_of(response_bytes(response) + rest) == Some(response),
{
    if let ResponseView::Accepted { ssid, password } = response {
        let bytes = response_bytes(response) + rest;
        let after = framed(encode_utf8(password)) + rest;
        assert(bytes.skip(1) =~= framed(encode_utf8(ssid)) + after);
        law_stream_keeps_messages(encode_utf8(ssid), after, u32::MAX as nat);
        law_stream_keeps_messages(encode_utf8(password), rest, u32::MAX as nat);
        lemma_text_survives(ssid);
        lemma_text_survives(password);
    }
}

} // verus!
