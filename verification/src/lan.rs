//! Finding a receiver on the local network: a question to everybody, and the answer of whoever is
//! receiving.

use crate::text::{join, text_is};
use vstd::prelude::*;
use vstd::utf8::encode_utf8;

verus! {

/// The question that a sender broadcasts.
pub const PROBE: &'static str = "BUSCANDO_AIR_RECEIVER";

/// The answer of a receiver.
pub const PROBE_REPLY: &'static str = "ESTOY_AQUI_AIR_RECEIVER";

/// What the address of the file service of a receiver ends in.
pub const TRANSFER_PORT_SUFFIX: &'static str = ":5000";

/// The answer to a datagram: [`PROBE_REPLY`] if it is a probe, else none.
pub fn probe_reply(datagram: &[u8]) -> (reply: Option<&'static str>)
    ensures
        datagram@ == encode_utf8(PROBE@) ==> (reply matches Some(text) && text@ == PROBE_REPLY@),
        datagram@ != encode_utf8(PROBE@) ==> reply is None,
{
    proof {
        reveal_strlit("BUSCANDO_AIR_RECEIVER");
    }
    if text_is(datagram, PROBE) {
        Some(PROBE_REPLY)
    } else {
        None
    }
}

/// Whether a datagram is the answer of a receiver.
pub fn is_receiver_reply(datagram: &[u8]) -> (yes: bool)
    ensures
        yes == (datagram@ == encode_utf8(PROBE_REPLY@)),
{
    proof {
        reveal_strlit("ESTOY_AQUI_AIR_RECEIVER");
    }
    text_is(datagram, PROBE_REPLY)
}

/// Where the receiver at `ip` takes files.
pub fn transfer_address(ip: &str) -> (address: String)
    ensures
        address@ == ip@ + TRANSFER_PORT_SUFFIX@,
{
    join(ip, TRANSFER_PORT_SUFFIX)
}

/// No datagram is both a question and an answer, so that receivers do not answer each other.
pub proof fn law_no_reply_is_a_probe(datagram: Seq<u8>)
    ensures
        !(datagram == encode_utf8(PROBE@) && datagram == encode_utf8(PROBE_REPLY@)),
{
    reveal_strlit("BUSCANDO_AIR_RECEIVER");
    reveal_strlit("ESTOY_AQUI_AIR_RECEIVER");
    crate::text::lemma_text_survives(PROBE@);
    crate::text::lemma_text_survives(PROBE_REPLY@);
    assert(PROBE@[0] != PROBE_REPLY@[0]);
}

} // verus!
