//! Laws of messages over Bluetooth: frames, writes, and the answer to an offer.

use crate::ble_transport::{
    decode_response, encode_response, frame_chunks, law_response_round_trip,
    lemma_incomplete_frame, FrameReassembler, HotspotResponse,
};
use crate::bytes::be_value;
use crate::error::AirError;
use crate::laws::files::lemma_value_of_four;
use crate::text::lossy_text;
use crate::transport::{frame_header, frame_length, framed, law_stream_keeps_messages};
use vstd::prelude::*;
use vstd::utf8::encode_utf8;

verus! {

/// The length that four bytes announce, with the most significant byte in front.
pub open spec fn announced(s: Seq<u8>) -> int {
    s[0] * 0x100_0000 + s[1] * 0x1_0000 + s[2] * 0x100 + s[3]
}

proof fn lemma_announced(s: Seq<u8>)
    requires
        s.len() >= 4,
    ensures
        be_value(s.take(4)) == announced(s),
{
    lemma_value_of_four(s.take(4));
}

proof fn lemma_framed(data: Seq<u8>)
    requires
        data.len() < 0x1_0000_0000,
    ensures
        framed(data).len() == 4 + data.len(),
        announced(framed(data)) == data.len(),
        framed(data).skip(4) == data,
{
    crate::bytes::lemma_be_bytes_len(data.len(), 4);
    crate::bytes::lemma_pow256();
    crate::bytes::law_be_round_trip(data.len(), 4);
    lemma_announced(framed(data));
    assert(framed(data).take(4) =~= crate::bytes::be_bytes(data.len(), 4));
    assert(framed(data).skip(4) =~= data);
}

/// The four bytes in front of a message announce its length, and are read so; a length over the
/// limit is refused.
pub proof fn law_header_announces_the_length(
    data: &[u8],
    header: Vec<u8>,
    read: &[u8],
    max_len: u32,
    r: Result<u32, AirError>,
)
    requires
        call_ensures(frame_header, (data,), header),
        call_ensures(frame_length, (read, max_len), r),
        read@ == header@,
        data@.len() < 0x1_0000_0000,
    ensures
        header@.len() == 4,
        announced(header@) == data@.len(),
        data@.len() <= max_len ==> r == Ok::<u32, AirError>(data@.len() as u32),
        data@.len() > max_len ==> r == Err::<u32, AirError>(AirError::FrameTooLarge),
{
    lemma_framed(data@);
    assert(header@ =~= framed(data@).take(4));
    lemma_announced(header@);
    assert(header@.take(4) =~= header@);
    assert(forall|i: int| 0 <= i < 4 ==> #[trigger] header@[i] == framed(data@)[i]);
}

/// Byte number `k` of a message as it travels: of its length first, then of the message.
pub open spec fn on_the_way(header: Seq<u8>, data: Seq<u8>, k: int) -> u8 {
    if k < 4 {
        header[k]
    } else {
        data[k - 4]
    }
}

/// A message goes out in writes of a hundred bytes, of which the last may be shorter, and every
/// byte is in its place.
pub proof fn law_writes_hold_every_byte(data: &[u8], header: Vec<u8>, chunks: Vec<Vec<u8>>)
    requires
        call_ensures(frame_chunks, (data,), chunks),
        call_ensures(frame_header, (data,), header),
    ensures
        (chunks@.len() - 1) * 100 < data@.len() + 4 <= chunks@.len() * 100,
        forall|i: int|
            0 <= i < chunks@.len() - 1 ==> (#[trigger] chunks@[i])@.len() == 100,
        chunks@.len() > 0,
        chunks@.last()@.len() == data@.len() + 4 - (chunks@.len() - 1) * 100,
        forall|i: int, j: int|
            0 <= i < chunks@.len() && 0 <= j < chunks@[i]@.len() ==> #[trigger] chunks@[i]@[j]
                == on_the_way(header@, data@, i * 100 + j),
{
    let whole = framed(data@);
    assert(whole == header@ + data@);
    let n = chunks@.len();
    assert(n == (whole.len() + 99) / 100);
    assert forall|i: int, j: int|
        0 <= i < n && 0 <= j < chunks@[i]@.len() implies #[trigger] chunks@[i]@[j] == on_the_way(
        header@,
        data@,
        i * 100 + j,
    ) by {
        assert(chunks@[i]@ == crate::ble_transport::chunks_of(whole, 100)[i]);
    }
    assert forall|i: int| 0 <= i < n - 1 implies (#[trigger] chunks@[i])@.len() == 100 by {
        assert(chunks@[i]@ == crate::ble_transport::chunks_of(whole, 100)[i]);
    }
    assert(chunks@[n - 1]@ == crate::ble_transport::chunks_of(whole, 100)[n - 1]);
}

/// What has arrived holds a whole message.
pub open spec fn has_message(s: Seq<u8>) -> bool {
    s.len() >= 4 && s.len() >= 4 + announced(s)
}

/// The first message comes out as soon as it has arrived whole, and not before; what came behind
/// it is kept.
pub proof fn law_message_comes_out_when_whole(
    buffer: &mut FrameReassembler,
    chunk: &[u8],
    frame: Option<Vec<u8>>,
)
    requires
        call_ensures(FrameReassembler::push, (buffer, chunk), frame),
    ensures
        has_message(old(buffer)@ + chunk@) ==> (frame matches Some(data) && data@.len()
            == announced(old(buffer)@ + chunk@) && old(buffer)@ + chunk@ == (old(buffer)@
            + chunk@).take(4) + data@ + final(buffer)@),
        !has_message(old(buffer)@ + chunk@) ==> frame is None && final(buffer)@ == old(buffer)@
            + chunk@,
{
    let s = old(buffer)@ + chunk@;
    if s.len() >= 4 {
        lemma_announced(s);
        crate::bytes::lemma_be_value_bound(s.take(4));
        crate::bytes::lemma_pow256();
        if has_message(s) {
            let n = announced(s);
            assert(s =~= s.take(4) + s.subrange(4, 4 + n) + s.skip(4 + n));
        }
    }
}

/// A message over the limit is refused as soon as its length is there; any other comes out as it
/// would without a limit.
pub proof fn law_limit_is_on_the_announced_length(
    buffer: &mut FrameReassembler,
    chunk: &[u8],
    max_len: u32,
    r: Result<Option<Vec<u8>>, AirError>,
)
    requires
        call_ensures(FrameReassembler::push_within, (buffer, chunk, max_len), r),
    ensures
        r is Err <==> (old(buffer)@ + chunk@).len() >= 4 && announced(old(buffer)@ + chunk@)
            > max_len,
        r matches Err(e) ==> e is FrameTooLarge && final(buffer)@ == old(buffer)@ + chunk@,
        r matches Ok(frame) ==> (frame is Some <==> has_message(old(buffer)@ + chunk@)) && (
        frame is None ==> final(buffer)@ == old(buffer)@ + chunk@) && (frame matches Some(data)
            ==> data@.len() <= max_len && old(buffer)@ + chunk@ == (old(buffer)@ + chunk@).take(4)
            + data@ + final(buffer)@),
{
    let s = old(buffer)@ + chunk@;
    if s.len() >= 4 {
        lemma_announced(s);
        crate::bytes::lemma_be_value_bound(s.take(4));
        crate::bytes::lemma_pow256();
        if has_message(s) {
            let n = announced(s);
            assert(s =~= s.take(4) + s.subrange(4, 4 + n) + s.skip(4 + n));
        }
    }
}

/// Written and pushed, one write after the other, a message comes out with the last of them, as it
/// was, and nothing is left behind.
pub proof fn law_message_arrives_with_its_last_write(
    data: &[u8],
    chunks: Vec<Vec<u8>>,
    start: FrameReassembler,
    calls: Seq<&mut FrameReassembler>,
    pushed: Seq<&[u8]>,
    frames: Seq<Option<Vec<u8>>>,
    i: int,
)
    requires
        data@.len() < 0x1_0000_0000,
        call_ensures(frame_chunks, (data,), chunks),
        call_ensures(FrameReassembler::new, (), start),
        calls.len() == pushed.len() == frames.len() == chunks@.len(),
        calls.len() > 0 ==> *calls[0] == start,
        forall|k: int|
            0 <= k < calls.len() ==> pushed[k]@ == chunks@[k]@ && call_ensures(
                FrameReassembler::push,
                (#[trigger] calls[k], pushed[k]),
                frames[k],
            ),
        forall|k: int| 0 <= k < calls.len() - 1 ==> *final(#[trigger] calls[k]) == *calls[k + 1],
        0 <= i < calls.len(),
    ensures
        i < calls.len() - 1 ==> frames[i] is None,
        i == calls.len() - 1 ==> (frames[i] matches Some(got) && got@ == data@)
            && (*final(calls[i]))@.len() == 0,
{
    let whole = framed(data@);
    lemma_framed(data@);
    lemma_pushed_so_far(data, chunks, start, calls, pushed, frames, i);
    lemma_write(data, chunks, i);
    let s = (*calls[i])@ + pushed[i]@;
    law_message_comes_out_when_whole(calls[i], pushed[i], frames[i]);
    if s.len() >= 4 {
        assert(announced(s) == announced(whole)) by {
            assert(forall|k: int| 0 <= k < 4 ==> #[trigger] s[k] == whole[k]);
        }
    }
    if i == calls.len() - 1 {
        assert(s =~= whole);
        if let Some(got) = frames[i] {
            assert(got@ =~= data@) by {
                assert forall|k: int| 0 <= k < got@.len() implies got@[k] == data@[k] by {
                    assert(whole[4 + k] == (whole.take(4) + got@ + (*final(calls[i]))@)[4 + k]);
                    assert(whole[4 + k] == whole.skip(4)[k]);
                }
            }
        }
    }
}

/// A write holds its part of the message.
proof fn lemma_write(data: &[u8], chunks: Vec<Vec<u8>>, i: int)
    requires
        call_ensures(frame_chunks, (data,), chunks),
        0 <= i < chunks@.len(),
    ensures
        ({
            let whole = framed(data@);
            let from = i * 100;
            let to = if i == chunks@.len() - 1 {
                whole.len() as int
            } else {
                (i + 1) * 100
            };
            &&& 0 <= from < to <= whole.len()
            &&& chunks@[i]@ == whole.subrange(from, to)
            &&& i < chunks@.len() - 1 ==> to < whole.len()
        }),
{
    let whole = framed(data@);
    crate::bytes::lemma_be_bytes_len(data@.len(), 4);
    assert(chunks@.len() == (whole.len() + 99) / 100);
    assert(chunks@[i]@ == crate::ble_transport::chunks_of(whole, 100)[i]);
}

proof fn lemma_pushed_so_far(
    data: &[u8],
    chunks: Vec<Vec<u8>>,
    start: FrameReassembler,
    calls: Seq<&mut FrameReassembler>,
    pushed: Seq<&[u8]>,
    frames: Seq<Option<Vec<u8>>>,
    i: int,
)
    requires
        data@.len() < 0x1_0000_0000,
        call_ensures(frame_chunks, (data,), chunks),
        call_ensures(FrameReassembler::new, (), start),
        calls.len() == pushed.len() == frames.len() == chunks@.len(),
        calls.len() > 0 ==> *calls[0] == start,
        forall|k: int|
            0 <= k < calls.len() ==> pushed[k]@ == chunks@[k]@ && call_ensures(
                FrameReassembler::push,
                (#[trigger] calls[k], pushed[k]),
                frames[k],
            ),
        forall|k: int| 0 <= k < calls.len() - 1 ==> *final(#[trigger] calls[k]) == *calls[k + 1],
        0 <= i < calls.len(),
    ensures
        (*calls[i])@ == framed(data@).take(i * 100),
    decreases i,
{
    let whole = framed(data@);
    lemma_framed(data@);
    if i == 0 {
        assert((*calls[0])@ =~= whole.take(0));
    } else {
        lemma_pushed_so_far(data, chunks, start, calls, pushed, frames, i - 1);
        lemma_write(data, chunks, i - 1);
        lemma_write(data, chunks, i);
        let s = (*calls[i - 1])@ + pushed[i - 1]@;
        law_message_comes_out_when_whole(calls[i - 1], pushed[i - 1], frames[i - 1]);
        assert(s =~= whole.take(i * 100));
        assert(announced(s) == announced(whole)) by {
            assert(forall|k: int| 0 <= k < 4 ==> #[trigger] s[k] == whole[k]);
        }
        assert(*final(calls[i - 1]) == *calls[i - 1 + 1]);
    }
}

/// The texts of an answer are short enough for their lengths to be written in four bytes.
pub open spec fn short_texts(response: HotspotResponse) -> bool {
    response matches HotspotResponse::Accepted { ssid, password } ==> encode_utf8(ssid@).len()
        < 0x1_0000_0000 && encode_utf8(password@).len() < 0x1_0000_0000
}

/// Two answers say the same.
pub open spec fn same_answer(a: HotspotResponse, b: HotspotResponse) -> bool {
    match a {
        HotspotResponse::Accepted { ssid, password } => b matches HotspotResponse::Accepted {
            ssid: s,
            password: p,
        } && s@ == ssid@ && p@ == password@,
        HotspotResponse::Rejected => b is Rejected,
    }
}

/// What one side answers, the other reads, whatever follows it.
pub proof fn law_answer_is_read_as_written(
    response: &HotspotResponse,
    bytes: Vec<u8>,
    received: &[u8],
    r: Option<HotspotResponse>,
)
    requires
        call_ensures(encode_response, (response,), bytes),
        call_ensures(decode_response, (received,), r),
        short_texts(*response),
        bytes@.len() <= received@.len(),
        received@.take(bytes@.len() as int) == bytes@,
    ensures
        r matches Some(got) && same_answer(*response, got),
{
    let rest = received@.skip(bytes@.len() as int);
    law_response_round_trip(response@, rest);
    assert(received@ =~= bytes@ + rest);
}

/// The bytes of an answer: a zero alone is a no. A yes begins with a one; behind it stand name and
/// password of the network, each with its length in four bytes in front.
pub proof fn law_answer_has_its_layout(response: &HotspotResponse, bytes: Vec<u8>)
    requires
        call_ensures(encode_response, (response,), bytes),
        short_texts(*response),
    ensures
        *response is Rejected ==> bytes@ == seq![0u8],
        *response matches HotspotResponse::Accepted { ssid, password } ==> {
            let (n, m) = (encode_utf8(ssid@), encode_utf8(password@));
            &&& bytes@.len() == 9 + n.len() + m.len()
            &&& bytes@[0] == 1
            &&& announced(bytes@.skip(1)) == n.len()
            &&& bytes@.subrange(5, 5 + n.len() as int) == n
            &&& announced(bytes@.skip(5 + n.len() as int)) == m.len()
            &&& bytes@.skip(9 + n.len() as int) == m
        },
{
    if let HotspotResponse::Accepted { ssid, password } = *response {
        let (n, m) = (encode_utf8(ssid@), encode_utf8(password@));
        lemma_framed(n);
        lemma_framed(m);
        let (f, g) = (framed(n), framed(m));
        assert(bytes@ == seq![1u8] + f + g);
        assert(forall|k: int| 0 <= k < 4 ==> #[trigger] bytes@.skip(1)[k] == f[k]);
        assert(forall|k: int| 0 <= k < 4 ==> #[trigger] bytes@.skip(5 + n.len() as int)[k] == g[k]);
        assert(bytes@.subrange(5, 5 + n.len() as int) =~= f.skip(4));
        assert(bytes@.skip(9 + n.len() as int) =~= g.skip(4));
    }
}

/// An answer is a no if and only if it begins with a zero, and nothing at all is no answer.
pub proof fn law_zero_means_no(bytes: &[u8], r: Option<HotspotResponse>)
    requires
        call_ensures(decode_response, (bytes,), r),
    ensures
        bytes@.len() == 0 ==> r is None,
        bytes@.len() > 0 ==> (bytes@[0] == 0 <==> (r matches Some(got) && got is Rejected)),
{
}

/// A yes that was cut off is no answer.
pub proof fn law_cut_answer_is_not_read(
    response: &HotspotResponse,
    bytes: Vec<u8>,
    received: &[u8],
    r: Option<HotspotResponse>,
)
    requires
        call_ensures(encode_response, (response,), bytes),
        call_ensures(decode_response, (received,), r),
        short_texts(*response),
        received@.len() < bytes@.len(),
        received@ == bytes@.take(received@.len() as int),
    ensures
        r is None,
{
    if let HotspotResponse::Accepted { ssid, password } = *response {
        let (n, m) = (encode_utf8(ssid@), encode_utf8(password@));
        let (f, g) = (framed(n), framed(m));
        lemma_framed(n);
        lemma_framed(m);
        assert(bytes@ == seq![1u8] + f + g);
        if received@.len() > 0 {
            let s = received@.skip(1);
            assert(received@[0] == 1);
            if s.len() < f.len() {
                assert(s =~= f.take(s.len() as int));
                lemma_incomplete_frame(n, s);
            } else {
                let t = s.skip(f.len() as int);
                assert(s =~= f + t);
                assert(t =~= g.take(t.len() as int));
                law_stream_keeps_messages(n, t, u32::MAX as nat);
                lemma_incomplete_frame(m, t);
            }
        }
    }
}

/// Whatever bytes an answer is read from: one that does not begin with a zero is a yes if both its
/// fields are as long as their lengths say, and then name and password are what those bytes are as
/// text.
pub proof fn law_answer_is_read_field_by_field(
    bytes: &[u8],
    r: Option<HotspotResponse>,
    n: int,
    m: int,
)
    requires
        call_ensures(decode_response, (bytes,), r),
        bytes@.len() > 0,
        bytes@[0] != 0,
        bytes@.len() >= 5 ==> n == announced(bytes@.skip(1)),
        bytes@.len() >= 9 + n ==> m == announced(bytes@.skip(5 + n)),
    ensures
        r is Some <==> bytes@.len() >= 5 && bytes@.len() >= 9 + n && bytes@.len() >= 9 + n + m,
        r matches Some(got) ==> (got matches HotspotResponse::Accepted { ssid, password } && ssid@
            == lossy_text(bytes@.subrange(5, 5 + n)) && password@ == lossy_text(
            bytes@.subrange(9 + n, 9 + n + m),
        )),
{
    let s = bytes@.skip(1);
    if s.len() >= 4 {
        lemma_announced(s);
        crate::bytes::lemma_be_value_bound(s.take(4));
        crate::bytes::lemma_pow256();
        if s.len() >= 4 + n {
            let t = s.skip(4 + n);
            assert(t =~= bytes@.skip(5 + n));
            assert(s.subrange(4, 4 + n) =~= bytes@.subrange(5, 5 + n));
            if t.len() >= 4 {
                lemma_announced(t);
                crate::bytes::lemma_be_value_bound(t.take(4));
                if t.len() >= 4 + m {
                    assert(t.subrange(4, 4 + m) =~= bytes@.subrange(9 + n, 9 + n + m));
                }
            }
        }
    }
}

} // verus!
