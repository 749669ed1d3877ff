//! Laws of the two halves of a transfer: the pieces of a file and the digest at its end.

use crate::crypto::SecureChannel;
use crate::digest::sha256;
use crate::error::AirError;
use crate::laws::channel::{brings, failed_with, gave, one_more, only_received, only_sent, took};
use crate::noise::noise_open;
use crate::transfer::{FileReceiver, FileSender};
use crate::transport::{Transport, TransportEvent};
use vstd::prelude::*;

verus! {

/// A sender begins with nothing sent.
pub proof fn law_sender_begins_empty(s: FileSender)
    requires
        call_ensures(FileSender::new, (), s),
    ensures
        s@.len() == 0,
{
}

/// What was read goes out as it is, in one message, and counts as sent; where nothing was read, the
/// digest of all that was sent goes out, and that is the end.
pub proof fn law_sender_sends_what_was_read<T: Transport>(
    s: FileSender,
    c: &mut SecureChannel<T>,
    read: &[u8],
    r: Result<Option<FileSender>, AirError>,
)
    requires
        call_ensures(FileSender::step::<T>, (s, c, read), r),
        read@.len() <= 65535 - 16,
        old(c)@.session.send_nonce < 0xffff_ffff_ffff_ffff,
    ensures
        one_more(old(c)@.trace, final(c)@.trace),
        only_sent(old(c)@.session, final(c)@.session),
        final(c)@.hash == old(c)@.hash,
        final(c)@.trace.last() matches TransportEvent::Send { frame, error } && noise_open(
            old(c)@.session.send_key,
            old(c)@.session.send_nonce,
            frame,
        ) == Some(
            if read@.len() == 0 {
                sha256(s@)
            } else {
                read@
            },
        ) && (r matches Err(e) ==> (e matches AirError::Io(io) && error == Some(io))) && (r is Ok
            ==> error is None),
        read@.len() == 0 ==> (r matches Ok(next) ==> next is None),
        read@.len() > 0 ==> (r matches Ok(next) ==> (next matches Some(s2) && s2@ == s@ + read@)),
{
    assert(final(c)@.trace.drop_last() =~= old(c)@.trace);
}

/// A piece that cannot be encrypted is not sent.
pub proof fn law_oversized_piece_is_refused<T: Transport>(
    s: FileSender,
    c: &mut SecureChannel<T>,
    read: &[u8],
    r: Result<Option<FileSender>, AirError>,
)
    requires
        call_ensures(FileSender::step::<T>, (s, c, read), r),
        read@.len() > 65535 - 16 || old(c)@.session.send_nonce == 0xffff_ffff_ffff_ffff,
    ensures
        r matches Err(e) && e is Noise,
        final(c)@ == old(c)@,
{
}

/// A file is read and sent in pieces of eight kilobytes.
pub proof fn law_pieces_are_of_eight_kilobytes()
    ensures
        crate::transfer::PIECE_SIZE == 8192,
{
}

/// A receiver begins with nothing, and waits for as many bytes as were announced.
pub proof fn law_receiver_begins_empty(size: u64, v: FileReceiver)
    requires
        call_ensures(FileReceiver::new, (size,), v),
    ensures
        v@.got.len() == 0,
        v@.remaining == size,
{
}

/// A piece is taken in if it has any bytes and no more than are missing; then it is added to what
/// was got, and that many fewer bytes are missing. Any other is refused and changes nothing.
pub proof fn law_receiver_takes_what_is_missing(
    v: &mut FileReceiver,
    piece: &[u8],
    r: Result<(), AirError>,
)
    requires
        call_ensures(FileReceiver::accept, (v, piece), r),
    ensures
        r is Ok <==> 1 <= piece@.len() <= old(v)@.remaining,
        r is Ok ==> final(v)@.got == old(v)@.got + piece@ && final(v)@.remaining
            == old(v)@.remaining - piece@.len(),
        r is Err ==> final(v)@ == old(v)@,
        r matches Err(e) ==> e is UnexpectedChunk,
{
}

/// While bytes are missing, one message is waited for. It is handed out as it came and added to
/// what was got, if it has any bytes and no more than are missing; any other is refused. The
/// transport's error is passed on. Once nothing is missing, nothing is waited for.
pub proof fn law_receiver_hands_out_what_came<T: Transport>(
    v: &mut FileReceiver,
    c: &mut SecureChannel<T>,
    r: Result<Option<Vec<u8>>, AirError>,
    piece: Seq<u8>,
    io: std::io::Error,
)
    requires
        call_ensures(FileReceiver::recv_chunk::<T>, (v, c), r),
    ensures
        old(v)@.remaining == 0 ==> (r matches Ok(p) && p is None) && final(c)@ == old(c)@
            && final(v)@ == old(v)@,
        old(v)@.remaining > 0 ==> one_more(old(c)@.trace, final(c)@.trace) && (
        final(c)@.trace.last() matches TransportEvent::Recv { max_len, answer } && max_len
            == 70_000),
        old(v)@.remaining > 0 && brings(old(c)@.session, final(c)@.trace.last(), piece)
            ==> only_received(old(c)@.session, final(c)@.session) && if 1 <= piece.len()
            <= old(v)@.remaining {
            &&& r matches Ok(p) && (p matches Some(bytes) && bytes@ == piece)
            &&& final(v)@.got == old(v)@.got + piece
            &&& final(v)@.remaining == old(v)@.remaining - piece.len()
        } else {
            (r matches Err(e) && e is UnexpectedChunk) && final(v)@ == old(v)@
        },
        old(v)@.remaining > 0 && failed_with(final(c)@.trace.last(), io) ==> r == Err::<
            Option<Vec<u8>>,
            AirError,
        >(AirError::Io(io)),
        r is Err ==> final(v)@ == old(v)@,
        r matches Ok(Some(bytes)) ==> brings(old(c)@.session, final(c)@.trace.last(), bytes@)
            && final(v)@.got == old(v)@.got + bytes@,
        final(v)@.got.len() + final(v)@.remaining == old(v)@.got.len() + old(v)@.remaining,
{
}

/// The verdict on a file is given on the message that came, of up to 64 bytes: it is a yes if the
/// message is, byte for byte, the SHA-256 of what was got, and a no whatever else it is. Where no
/// message came there is no verdict.
pub proof fn law_verdict_is_on_every_byte<T: Transport>(
    v: FileReceiver,
    c: &mut SecureChannel<T>,
    r: Result<bool, AirError>,
    message: Seq<u8>,
    io: std::io::Error,
)
    requires
        call_ensures(FileReceiver::recv_digest::<T>, (v, c), r),
    ensures
        one_more(old(c)@.trace, final(c)@.trace),
        final(c)@.trace.last() matches TransportEvent::Recv { max_len, answer } && max_len == 64,
        brings(old(c)@.session, final(c)@.trace.last(), message) ==> r is Ok && only_received(
            old(c)@.session,
            final(c)@.session,
        ),
        brings(old(c)@.session, final(c)@.trace.last(), message) && r == Ok::<bool, AirError>(true)
            ==> message.len() == sha256(v@.got).len() && forall|i: int|
            0 <= i < message.len() ==> #[trigger] message[i] == sha256(v@.got)[i],
        brings(old(c)@.session, final(c)@.trace.last(), message) && message != sha256(v@.got) ==> r
            == Ok::<bool, AirError>(false),
        brings(old(c)@.session, final(c)@.trace.last(), message) && message == sha256(v@.got) ==> r
            == Ok::<bool, AirError>(true),
        failed_with(final(c)@.trace.last(), io) ==> r == Err::<bool, AirError>(AirError::Io(io)),
        r is Ok ==> exists|m: Seq<u8>| brings(old(c)@.session, final(c)@.trace.last(), m),
{
    if let TransportEvent::Recv { max_len, answer } = final(c)@.trace.last() {
        if let Ok(frame) = answer {
            if let Some(m) = noise_open(
                old(c)@.session.recv_key,
                old(c)@.session.recv_nonce,
                frame,
            ) {
                if frame.len() <= 65535 && old(c)@.session.recv_nonce < 0xffff_ffff_ffff_ffff {
                    assert(brings(old(c)@.session, final(c)@.trace.last(), m));
                }
            }
        }
    }
}

/// A piece that one half sends is what the other hands out.
pub proof fn law_piece_arrives<T: Transport, U: Transport>(
    s: FileSender,
    a: &mut SecureChannel<T>,
    read: &[u8],
    sent: Result<Option<FileSender>, AirError>,
    v: &mut FileReceiver,
    b: &mut SecureChannel<U>,
    r: Result<Option<Vec<u8>>, AirError>,
    frame: Seq<u8>,
)
    requires
        call_ensures(FileSender::step::<T>, (s, a, read), sent),
        call_ensures(FileReceiver::recv_chunk::<U>, (v, b), r),
        1 <= read@.len() <= old(v)@.remaining,
        read@.len() <= 65535 - 16,
        old(a)@.session.send_nonce < 0xffff_ffff_ffff_ffff,
        old(a)@.session.send_key == old(b)@.session.recv_key,
        old(a)@.session.send_nonce == old(b)@.session.recv_nonce,
        took(final(a)@.trace.last(), frame),
        gave(final(b)@.trace.last(), frame),
    ensures
        sent matches Ok(Some(next)) && next@ == s@ + read@,
        r matches Ok(Some(bytes)) && bytes@ == read@,
        final(v)@.got == old(v)@.got + read@,
        old(v)@.got == s@ ==> (sent matches Ok(Some(next)) && final(v)@.got == next@),
        final(a)@.session.send_nonce == final(b)@.session.recv_nonce,
{
    law_sender_sends_what_was_read(s, a, read, sent);
    assert(frame.len() <= 65535);
    assert(brings(old(b)@.session, final(b)@.trace.last(), read@));
    law_receiver_hands_out_what_came(v, b, r, read@, arbitrary());
}

/// Once one half sent its digest and the other got it, the verdict is a yes if and only if the
/// digests of what was sent and of what was got are the same; so it is a yes where all arrived.
pub proof fn law_verdict_compares_both_halves<T: Transport, U: Transport>(
    s: FileSender,
    a: &mut SecureChannel<T>,
    read: &[u8],
    sent: Result<Option<FileSender>, AirError>,
    v: FileReceiver,
    b: &mut SecureChannel<U>,
    r: Result<bool, AirError>,
    frame: Seq<u8>,
)
    requires
        call_ensures(FileSender::step::<T>, (s, a, read), sent),
        call_ensures(FileReceiver::recv_digest::<U>, (v, b), r),
        read@.len() == 0,
        old(a)@.session.send_nonce < 0xffff_ffff_ffff_ffff,
        old(a)@.session.send_key == old(b)@.session.recv_key,
        old(a)@.session.send_nonce == old(b)@.session.recv_nonce,
        took(final(a)@.trace.last(), frame),
        gave(final(b)@.trace.last(), frame),
    ensures
        sha256(s@).len() == 32,
        r == Ok::<bool, AirError>(sha256(s@) == sha256(v@.got)),
        s@ == v@.got ==> r == Ok::<bool, AirError>(true),
{
    law_sender_sends_what_was_read(s, a, read, sent);
    assert(frame.len() == 48);
    assert(brings(old(b)@.session, final(b)@.trace.last(), sha256(s@)));
    law_verdict_is_on_every_byte(v, b, r, sha256(s@), arbitrary());
}

} // verus!
