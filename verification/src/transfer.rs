//! Files on their way: safe names, the description that precedes a file, and the pieces that
//! carry it.

use crate::bytes::{
    append, be_bytes, be_value, joined, law_be_round_trip, lemma_be_bytes_len, lemma_pow256,
    push_be, read_be, same_bytes,
};
use crate::crypto::{
    channel_received, channel_sent, delivered, law_received_as_sent, paired, plaintext_view,
    ChannelView, SecureChannel, MAX_FRAME_LEN,
};
use crate::digest::{absorb, finish, hashed_bytes, new_hasher, sha256, DIGEST_LEN};
use crate::error::AirError;
use crate::noise::can_seal;
use crate::paths::{
    choose_name, file_name, law_safe_name_is_unique, offered_as, sanitized, DEFAULT_FILE_NAME,
};
use crate::text::{from_utf8_lossy, lemma_text_survives, lossy_text};
use crate::transport::{Transport, TransportEvent};
use vstd::prelude::*;
use vstd::slice::slice_subrange;
use vstd::utf8::encode_utf8;

verus! {

/// The largest file that is ever accepted: ten gigabytes. Whoever announces more is turned away
/// before anything is written to disk.
pub const MAX_FILE_SIZE: u64 = 10_737_418_240;

/// Makes a file name that somebody else sent safe to save under: only the last component of the
/// path counts, so that nothing lands outside the folder for downloads.
pub fn sanitize_filename(name: &str) -> (safe: String)
    ensures
        sanitized(name@, safe@),
{
    let (rules, component) = file_name(name);
    choose_name(rules, component)
}

/// The name under which the file at `path` is offered.
pub fn offered_name(path: &str) -> (name: String)
    ensures
        offered_as(path@, name@),
{
    let (_rules, component) = file_name(path);
    match component {
        Some(n) => n,
        None => DEFAULT_FILE_NAME.to_owned(),
    }
}

/// The description of a file: the length of its name in four bytes, the name in UTF-8, and the
/// size in eight bytes.
pub open spec fn metadata_bytes(file_name: Seq<char>, file_size: u64) -> Seq<u8> {
    be_bytes(encode_utf8(file_name).len(), 4) + encode_utf8(file_name) + be_bytes(
        file_size as nat,
        8,
    )
}

/// Name and size as a description has them. `None` where it is shorter than it says; what stands
/// behind the size does not count.
pub open spec fn metadata_fields(meta: Seq<u8>) -> Option<(Seq<char>, u64)> {
    if meta.len() < 12 {
        None
    } else {
        let n = be_value(meta.take(4));
        if meta.len() < 12 + n {
            None
        } else {
            Some(
                (
                    lossy_text(meta.subrange(4, 4 + n as int)),
                    be_value(meta.subrange(4 + n as int, 12 + n as int)) as u64,
                ),
            )
        }
    }
}

/// Writes the description of a file.
pub fn encode_metadata(file_name: &str, file_size: u64) -> (meta: Vec<u8>)
    ensures
        meta@ == metadata_bytes(file_name@, file_size),
{
    let name_bytes: &[u8] = file_name.as_bytes();
    let mut meta: Vec<u8> = Vec::new();
    push_be(&mut meta, name_bytes.len() as u128, 4);
    append(&mut meta, name_bytes);
    push_be(&mut meta, file_size as u128, 8);
    proof {
        assert(meta@ =~= metadata_bytes(file_name@, file_size));
    }
    meta
}

/// Reads the description of a file. The name comes out safe to save under.
pub fn decode_metadata(meta: &[u8]) -> (r: Option<(String, u64)>)
    ensures
        r is Some <==> metadata_fields(meta@) is Some,
        r matches Some(got) ==> (metadata_fields(meta@) matches Some(fields) && sanitized(
            fields.0,
            got.0@,
        ) && got.1 == fields.1),
{
    if meta.len() < 12 {
        return None;
    }
    let head: &[u8] = slice_subrange(meta, 0, 4);
    let announced: u128 = read_be(head);
    proof {
        assert(head@ =~= meta@.take(4));
    }
    if ((meta.len() - 12) as u128) < announced {
        return None;
    }
    let name_len: usize = announced as usize;
    let raw_name = from_utf8_lossy(slice_subrange(meta, 4, 4 + name_len));
    proof {
        lemma_pow256();
    }
    let file_size: u128 = read_be(slice_subrange(meta, 4 + name_len, 12 + name_len));
    Some((sanitize_filename(raw_name.as_str()), file_size as u64))
}

/// A description is read as it was written, if the name is of less than four gigabytes, whatever
/// follows it.
pub proof fn law_metadata_round_trip(file_name: Seq<char>, file_size: u64, rest: Seq<u8>)
    requires
        encode_utf8(file_name).len() < 0x1_0000_0000,
    ensures
        metadata_fields(metadata_bytes(file_name, file_size) + rest) == Some(
            (file_name, file_size),
        ),
{
    let raw = encode_utf8(file_name);
    let n = raw.len();
    let meta = metadata_bytes(file_name, file_size) + rest;
    lemma_pow256();
    lemma_be_bytes_len(n, 4);
    lemma_be_bytes_len(file_size as nat, 8);
    law_be_round_trip(n, 4);
    law_be_round_trip(file_size as nat, 8);
    lemma_text_survives(file_name);
    assert(meta.take(4) =~= be_bytes(n, 4));
    assert(meta.subrange(4, 4 + n as int) =~= raw);
    assert(meta.subrange(4 + n as int, 12 + n as int) =~= be_bytes(file_size as nat, 8));
}

/// The name that a description is read with is the very one that the written name is made safe as;
/// so that a name that is safe already is read as it was written.
pub proof fn law_decoded_name_is_the_safe_one(
    file_name: Seq<char>,
    file_size: u64,
    decoded: Seq<char>,
    safe: Seq<char>,
)
    requires
        encode_utf8(file_name).len() < 0x1_0000_0000,
        metadata_fields(metadata_bytes(file_name, file_size)) matches Some(fields) && sanitized(
            fields.0,
            decoded,
        ),
        sanitized(file_name, safe),
    ensures
        decoded == safe,
        safe == file_name ==> decoded == file_name,
{
    law_metadata_round_trip(file_name, file_size, Seq::empty());
    assert(metadata_bytes(file_name, file_size) + Seq::<u8>::empty() =~= metadata_bytes(
        file_name,
        file_size,
    ));
    law_safe_name_is_unique(file_name, decoded, safe);
}

/// The longest message with a digest that is asked for.
pub const MAX_DIGEST_MESSAGE: u32 = 64;

/// How much of a file is read and sent at once.
pub const PIECE_SIZE: usize = 8192;

/// A piece of the usual size can always be encrypted, and so can a digest, as long as the channel
/// has nonces left.
pub proof fn law_piece_can_be_sent(channel: ChannelView, piece: Seq<u8>)
    requires
        piece.len() <= PIECE_SIZE || piece.len() == DIGEST_LEN,
        channel.session.send_nonce < u64::MAX,
    ensures
        can_seal(channel.session, piece.len()),
{
}

/// One half of a transfer: sends a file piece by piece, and at its end the digest of it all. Its
/// view is what was sent so far.
pub struct FileSender {
    hasher: sha2::Sha256,
}

impl View for FileSender {
    type V = Seq<u8>;

    closed spec fn view(&self) -> Seq<u8> {
        hashed_bytes(self.hasher)
    }
}

/// A step of a sender that went well, with what it had sent before and, if there is a sender left,
/// after.
pub open spec fn sender_stepped(
    sent: Seq<u8>,
    pre: ChannelView,
    read: Seq<u8>,
    post: ChannelView,
    next: Option<Seq<u8>>,
) -> bool {
    if read.len() > 0 {
        channel_sent(pre, read, post, Ok(())) && next == Some(sent + read)
    } else {
        channel_sent(pre, sha256(sent), post, Ok(())) && next is None
    }
}

/// A sender, if there is one left, in view.
pub open spec fn sender_view(s: Option<FileSender>) -> Option<Seq<u8>> {
    match s {
        Some(sender) => Some(sender@),
        None => None,
    }
}

impl FileSender {
    pub fn new() -> (sender: FileSender)
        ensures
            sender@ == Seq::<u8>::empty(),
    {
        FileSender { hasher: new_hasher() }
    }

    /// Sends what was read next from the file. Nothing read is the end of the file: the digest
    /// goes out, and there is no sender left.
    pub fn step<T: Transport>(self, channel: &mut SecureChannel<T>, chunk: &[u8]) -> (r: Result<
        Option<FileSender>,
        AirError,
    >)
        requires
            old(channel)@.wf(),
        ensures
            final(channel)@.wf(),
            match r {
                Ok(next) => sender_stepped(
                    self@,
                    old(channel)@,
                    chunk@,
                    final(channel)@,
                    sender_view(next),
                ),
                Err(e) => channel_sent(
                    old(channel)@,
                    if chunk@.len() > 0 {
                        chunk@
                    } else {
                        sha256(self@)
                    },
                    final(channel)@,
                    Err(e),
                ),
            },
            chunk@.len() == 0 ==> sha256(self@).len() == DIGEST_LEN,
    {
        let mut hasher = self.hasher;
        if chunk.len() == 0 {
            let digest = finish(hasher);
            return match channel.send(digest.as_slice()) {
                Ok(_) => Ok(None),
                Err(e) => Err(e),
            };
        }
        match channel.send(chunk) {
            Ok(_) => {
                absorb(&mut hasher, chunk);
                Ok(Some(FileSender { hasher }))
            },
            Err(e) => Err(e),
        }
    }
}

/// What a receiver has got so far, and how many bytes are still to come.
#[verifier::ext_equal]
pub struct ReceiverView {
    pub got: Seq<u8>,
    pub remaining: u64,
}

/// A piece taken in: `None` if it is empty or longer than what is still to come.
pub open spec fn taken(v: ReceiverView, chunk: Seq<u8>) -> Option<ReceiverView> {
    if chunk.len() == 0 || chunk.len() > v.remaining {
        None
    } else {
        Some(ReceiverView { got: v.got + chunk, remaining: (v.remaining - chunk.len()) as u64 })
    }
}

/// The other half of a transfer: takes in the pieces of a file whose size is known, and in the
/// end holds its digest against the one that was sent.
pub struct FileReceiver {
    hasher: sha2::Sha256,
    remaining: u64,
}

impl View for FileReceiver {
    type V = ReceiverView;

    closed spec fn view(&self) -> ReceiverView {
        ReceiverView { got: hashed_bytes(self.hasher), remaining: self.remaining }
    }
}

/// How waiting for the next piece goes, once the message is there.
pub open spec fn chunk_outcome(
    pre: ReceiverView,
    message: Result<Seq<u8>, AirError>,
    post: ReceiverView,
    r: Result<Option<Seq<u8>>, AirError>,
) -> bool {
    match message {
        Err(e) => r == Err::<Option<Seq<u8>>, AirError>(e) && post == pre,
        Ok(chunk) => match taken(pre, chunk) {
            Some(next) => r == Ok::<Option<Seq<u8>>, AirError>(Some(chunk)) && post == next,
            None => r == Err::<Option<Seq<u8>>, AirError>(AirError::UnexpectedChunk) && post == pre,
        },
    }
}

/// A step of a receiver: nothing once the file is complete, else a message is waited for.
pub open spec fn receiver_stepped(
    v: ReceiverView,
    pre: ChannelView,
    post: ChannelView,
    next: ReceiverView,
    r: Result<Option<Seq<u8>>, AirError>,
) -> bool {
    if v.remaining == 0 {
        r == Ok::<Option<Seq<u8>>, AirError>(None) && next == v && post == pre
    } else {
        exists|message: Result<Seq<u8>, AirError>| #[trigger]
            channel_received(pre, MAX_FRAME_LEN, post, message) && chunk_outcome(
                v,
                message,
                next,
                r,
            )
    }
}

/// How the digest is checked: the message that is waited for is held against what arrived.
pub open spec fn digest_checked(
    v: ReceiverView,
    pre: ChannelView,
    post: ChannelView,
    r: Result<bool, AirError>,
) -> bool {
    exists|message: Result<Seq<u8>, AirError>| #[trigger]
        channel_received(pre, MAX_DIGEST_MESSAGE, post, message) && match message {
            Ok(digest) => r == Ok::<bool, AirError>(digest == sha256(v.got)),
            Err(e) => r == Err::<bool, AirError>(e),
        }
}

/// A received piece with its bytes in view.
pub open spec fn chunk_view(r: Result<Option<Vec<u8>>, AirError>) -> Result<
    Option<Seq<u8>>,
    AirError,
> {
    match r {
        Ok(Some(chunk)) => Ok(Some(chunk@)),
        Ok(None) => Ok(None),
        Err(e) => Err(e),
    }
}

impl FileReceiver {
    pub fn new(file_size: u64) -> (receiver: FileReceiver)
        ensures
            receiver@ == (ReceiverView { got: Seq::empty(), remaining: file_size }),
    {
        FileReceiver { hasher: new_hasher(), remaining: file_size }
    }

    /// Takes in one piece. A piece that cannot be part of the file is refused, and changes
    /// nothing.
    pub fn accept(&mut self, chunk: &[u8]) -> (r: Result<(), AirError>)
        ensures
            taken(old(self)@, chunk@) matches Some(next) ==> r is Ok && final(self)@ == next,
            taken(old(self)@, chunk@) is None ==> r == Err::<(), AirError>(
                AirError::UnexpectedChunk,
            ) && final(self)@ == old(self)@,
    {
        if chunk.len() == 0 || chunk.len() as u64 > self.remaining {
            return Err(AirError::UnexpectedChunk);
        }
        absorb(&mut self.hasher, chunk);
        self.remaining = self.remaining - chunk.len() as u64;
        Ok(())
    }

    /// Waits for the next piece and hands it out, to be written to the file; `None` once the file
    /// is complete.
    pub fn recv_chunk<T: Transport>(&mut self, channel: &mut SecureChannel<T>) -> (r: Result<
        Option<Vec<u8>>,
        AirError,
    >)
        requires
            old(channel)@.wf(),
        ensures
            final(channel)@.wf(),
            receiver_stepped(
                old(self)@,
                old(channel)@,
                final(channel)@,
                final(self)@,
                chunk_view(r),
            ),
    {
        if self.remaining == 0 {
            return Ok(None);
        }
        let received = channel.recv(MAX_FRAME_LEN);
        let ghost message = plaintext_view(received);
        assert(channel_received(old(channel)@, MAX_FRAME_LEN, channel@, message));
        match received {
            Ok(chunk) => match self.accept(chunk.as_slice()) {
                Ok(_) => Ok(Some(chunk)),
                Err(e) => Err(e),
            },
            Err(e) => Err(e),
        }
    }

    /// Once the file is complete, waits for the digest that the sender took, and tells whether it
    /// is that of what arrived.
    pub fn recv_digest<T: Transport>(self, channel: &mut SecureChannel<T>) -> (r: Result<
        bool,
        AirError,
    >)
        requires
            self@.remaining == 0,
            old(channel)@.wf(),
        ensures
            final(channel)@.wf(),
            digest_checked(self@, old(channel)@, final(channel)@, r),
    {
        let received = channel.recv(MAX_DIGEST_MESSAGE);
        let ghost message = plaintext_view(received);
        assert(channel_received(old(channel)@, MAX_DIGEST_MESSAGE, channel@, message));
        match received {
            Ok(digest) => {
                let computed = finish(self.hasher);
                Ok(same_bytes(digest.as_slice(), computed.as_slice()))
            },
            Err(e) => Err(e),
        }
    }
}

/// Pieces taken in one after the other; `None` as soon as one is refused.
pub open spec fn taken_all(v: ReceiverView, chunks: Seq<Seq<u8>>) -> Option<ReceiverView>
    decreases chunks.len(),
{
    if chunks.len() == 0 {
        Some(v)
    } else {
        match taken_all(v, chunks.drop_last()) {
            Some(mid) => taken(mid, chunks.last()),
            None => None,
        }
    }
}

/// What a receiver has got and what is still to come always make up the announced size, and what
/// it has got is what it was sent.
pub proof fn law_receiver_keeps_count(file_size: u64, chunks: Seq<Seq<u8>>)
    ensures
        taken_all(
            ReceiverView { got: Seq::empty(), remaining: file_size },
            chunks,
        ) matches Some(v) ==> v.got == joined(chunks) && v.got.len() + v.remaining == file_size,
    decreases chunks.len(),
{
    if chunks.len() > 0 {
        law_receiver_keeps_count(file_size, chunks.drop_last());
    }
}

/// A file cut into pieces that are not empty is taken in whole, and nothing is left to come.
pub proof fn law_whole_file_is_taken(chunks: Seq<Seq<u8>>, file_size: u64)
    requires
        forall|i: int| 0 <= i < chunks.len() ==> (#[trigger] chunks[i]).len() > 0,
        joined(chunks).len() <= file_size,
    ensures
        taken_all(ReceiverView { got: Seq::empty(), remaining: file_size }, chunks) == Some(
            ReceiverView {
                got: joined(chunks),
                remaining: (file_size - joined(chunks).len()) as u64,
            },
        ),
    decreases chunks.len(),
{
    if chunks.len() > 0 {
        assert forall|i: int| 0 <= i < chunks.len() - 1 implies (
        #[trigger] chunks.drop_last()[i]).len() > 0 by {
            assert(chunks[i].len() > 0);
        }
        assert(chunks[chunks.len() - 1].len() > 0);
        law_whole_file_is_taken(chunks.drop_last(), file_size);
    }
}

/// A sender after a number of reads, each of which was sent: what went over its channel, and what
/// it has sent, if there is a sender left.
pub open spec fn sender_after(
    pre: ChannelView,
    reads: Seq<Seq<u8>>,
    post: ChannelView,
    sender: Option<Seq<u8>>,
) -> bool
    decreases reads.len(),
{
    if reads.len() == 0 {
        post == pre && sender == Some(Seq::<u8>::empty())
    } else {
        exists|mid: ChannelView, sent: Seq<u8>|
            sender_after(pre, reads.drop_last(), mid, Some(sent)) && #[trigger] sender_stepped(
                sent,
                mid,
                reads.last(),
                post,
                sender,
            )
    }
}

/// A receiver of a file after a number of steps.
pub open spec fn receiver_after(
    pre: ChannelView,
    file_size: u64,
    results: Seq<Result<Option<Seq<u8>>, AirError>>,
    post: ChannelView,
    v: ReceiverView,
) -> bool
    decreases results.len(),
{
    if results.len() == 0 {
        post == pre && v == (ReceiverView { got: Seq::empty(), remaining: file_size })
    } else {
        exists|mid: ChannelView, before: ReceiverView|
            receiver_after(pre, file_size, results.drop_last(), mid, before)
                && #[trigger] receiver_stepped(before, mid, post, v, results.last())
    }
}

/// While there is a sender left, it has sent all that was read, piece by piece.
proof fn lemma_sender_after(
    pre: ChannelView,
    reads: Seq<Seq<u8>>,
    post: ChannelView,
    sent: Seq<u8>,
)
    requires
        sender_after(pre, reads, post, Some(sent)),
    ensures
        sent == joined(reads),
        post.trace.len() == pre.trace.len() + reads.len(),
        forall|i: int| 0 <= i < reads.len() ==> (#[trigger] reads[i]).len() > 0,
    decreases reads.len(),
{
    if reads.len() > 0 {
        let (mid, before) = choose|mid: ChannelView, before: Seq<u8>|
            sender_after(pre, reads.drop_last(), mid, Some(before)) && #[trigger] sender_stepped(
                before,
                mid,
                reads.last(),
                post,
                Some(sent),
            );
        lemma_sender_after(pre, reads.drop_last(), mid, before);
        assert forall|i: int| 0 <= i < reads.len() implies (#[trigger] reads[i]).len() > 0 by {
            if i < reads.len() - 1 {
                assert(reads.drop_last()[i].len() > 0);
            }
        }
    }
}

/// `part` is where a record stood before it came to `whole`.
spec fn leads_to(part: Seq<TransportEvent>, whole: Seq<TransportEvent>) -> bool {
    part.len() <= whole.len() && whole.take(part.len() as int) == part
}

/// As long as pieces come, sender and receiver go hand in hand.
proof fn lemma_pieces_arrive(
    reads: Seq<Seq<u8>>,
    file_size: u64,
    a: ChannelView,
    a_mid: ChannelView,
    sent: Seq<u8>,
    sent_trace: Seq<TransportEvent>,
    b: ChannelView,
    results: Seq<Result<Option<Seq<u8>>, AirError>>,
    b_mid: ChannelView,
    v: ReceiverView,
    got_trace: Seq<TransportEvent>,
)
    requires
        paired(a.session, b.session),
        sender_after(a, reads, a_mid, Some(sent)),
        receiver_after(b, file_size, results, b_mid, v),
        results.len() == reads.len(),
        joined(reads).len() <= file_size,
        leads_to(a_mid.trace, sent_trace),
        leads_to(b_mid.trace, got_trace),
        forall|i: int|
            0 <= i < reads.len() ==> delivered(
                #[trigger] sent_trace[a.trace.len() + i],
                got_trace[b.trace.len() + i],
            ),
    ensures
        b_mid.trace.len() == b.trace.len() + reads.len(),
        v == (ReceiverView {
            got: joined(reads),
            remaining: (file_size - joined(reads).len()) as u64,
        }),
        forall|i: int|
            0 <= i < reads.len() ==> #[trigger] results[i] == Ok::<Option<Seq<u8>>, AirError>(
                Some(reads[i]),
            ),
        paired(a_mid.session, b_mid.session),
    decreases reads.len(),
{
    if reads.len() > 0 {
        let n = reads.len() - 1;
        let (am, before) = choose|mid: ChannelView, before: Seq<u8>|
            sender_after(a, reads.drop_last(), mid, Some(before)) && #[trigger] sender_stepped(
                before,
                mid,
                reads.last(),
                a_mid,
                Some(sent),
            );
        let (bm, vm) = choose|mid: ChannelView, vm: ReceiverView|
            receiver_after(b, file_size, results.drop_last(), mid, vm)
                && #[trigger] receiver_stepped(vm, mid, b_mid, v, results.last());
        lemma_sender_after(a, reads.drop_last(), am, before);
        lemma_sender_after(a, reads, a_mid, sent);
        assert(reads[n].len() > 0);
        assert(am.trace =~= a_mid.trace.drop_last());
        assert(leads_to(am.trace, sent_trace)) by {
            assert(sent_trace.take(am.trace.len() as int) =~= am.trace);
        }
        assert(leads_to(bm.trace, got_trace)) by {
            if vm.remaining > 0 {
                assert(bm.trace == b_mid.trace.drop_last());
            }
            assert(got_trace.take(bm.trace.len() as int) =~= bm.trace);
        }
        lemma_pieces_arrive(
            reads.drop_last(),
            file_size,
            a,
            am,
            before,
            sent_trace,
            b,
            results.drop_last(),
            bm,
            vm,
            got_trace,
        );
        assert(vm.remaining > 0);
        let message = choose|message: Result<Seq<u8>, AirError>| #[trigger]
            channel_received(bm, MAX_FRAME_LEN, b_mid, message) && chunk_outcome(
                vm,
                message,
                v,
                results.last(),
            );
        assert(delivered(sent_trace[a.trace.len() + n], got_trace[b.trace.len() + n]));
        assert(a_mid.trace.last() == sent_trace[a.trace.len() + n]);
        assert(b_mid.trace.last() == got_trace[b.trace.len() + n]);
        law_received_as_sent(am, reads.last(), a_mid, bm, MAX_FRAME_LEN, b_mid, message);
        assert forall|i: int| 0 <= i < reads.len() implies #[trigger] results[i] == Ok::<
            Option<Seq<u8>>,
            AirError,
        >(Some(reads[i])) by {
            if i < n {
                assert(results.drop_last()[i] == results[i]);
            }
        }
    }
}

/// A file that is read piece by piece and sent, up to the read that finds nothing more, arrives
/// whole at the other end of the session, if the frames arrive as they left: the receiver hands out
/// the pieces as they were read, they make up the file, nothing is missing after the last, and the
/// digest is found right.
pub proof fn law_file_arrives(
    pieces: Seq<Seq<u8>>,
    end: Seq<u8>,
    file_size: u64,
    a: ChannelView,
    a_post: ChannelView,
    b: ChannelView,
    results: Seq<Result<Option<Seq<u8>>, AirError>>,
    b_mid: ChannelView,
    v: ReceiverView,
    b_post: ChannelView,
    verdict: Result<bool, AirError>,
)
    requires
        paired(a.session, b.session),
        joined(pieces).len() == file_size,
        sender_after(a, pieces.push(end), a_post, None),
        receiver_after(b, file_size, results, b_mid, v),
        results.len() == pieces.len(),
        digest_checked(v, b_mid, b_post, verdict),
        forall|i: int|
            0 <= i <= pieces.len() ==> delivered(
                #[trigger] a_post.trace[a.trace.len() + i],
                b_post.trace[b.trace.len() + i],
            ),
    ensures
        end.len() == 0,
        forall|i: int|
            0 <= i < pieces.len() ==> #[trigger] results[i] == Ok::<Option<Seq<u8>>, AirError>(
                Some(pieces[i]),
            ),
        v == (ReceiverView { got: joined(pieces), remaining: 0 }),
        verdict == Ok::<bool, AirError>(true),
        paired(a_post.session, b_post.session),
{
    let reads = pieces.push(end);
    let (am, sent) = choose|mid: ChannelView, sent: Seq<u8>|
        sender_after(a, reads.drop_last(), mid, Some(sent)) && #[trigger] sender_stepped(
            sent,
            mid,
            reads.last(),
            a_post,
            None,
        );
    assert(reads.drop_last() =~= pieces);
    lemma_sender_after(a, pieces, am, sent);
    assert(am.trace =~= a_post.trace.drop_last());
    assert(leads_to(am.trace, a_post.trace));
    assert(leads_to(b_mid.trace, b_post.trace)) by {
        assert(b_post.trace.take(b_mid.trace.len() as int) =~= b_post.trace.drop_last());
    }
    lemma_pieces_arrive(
        pieces,
        file_size,
        a,
        am,
        sent,
        a_post.trace,
        b,
        results,
        b_mid,
        v,
        b_post.trace,
    );
    let message = choose|message: Result<Seq<u8>, AirError>| #[trigger]
        channel_received(b_mid, MAX_DIGEST_MESSAGE, b_post, message) && match message {
            Ok(digest) => verdict == Ok::<bool, AirError>(digest == sha256(v.got)),
            Err(e) => verdict == Err::<bool, AirError>(e),
        };
    let n = pieces.len() as int;
    assert(delivered(a_post.trace[a.trace.len() + n], b_post.trace[b.trace.len() + n]));
    law_received_as_sent(
        am,
        sha256(sent),
        a_post,
        b_mid,
        MAX_DIGEST_MESSAGE,
        b_post,
        message,
    );
}

} // verus!
