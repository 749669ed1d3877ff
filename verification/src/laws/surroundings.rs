//! Laws of what is around: devices, networks, and whoever answers on them.

use crate::bytes::{be_bytes, be_value, lemma_be_bytes_len, lemma_pow256};
use crate::discovery::{
    advert_name, advert_payload, collect_peers, first_adapter, is_aircore_advert, uuid_to_guid,
    DiscoveredPeer, GuidParts, Peripheral,
};
use crate::error::AirError;
use crate::hotspot::{find_network, generate_hotspot_credentials};
use crate::lan::{is_receiver_reply, probe_reply, transfer_address};
use crate::laws::channel::{digit_value, digits_value, lemma_padded_digits_value};
use crate::laws::files::lemma_value_of_eight;
use vstd::prelude::*;
use vstd::utf8::encode_utf8;

verus! {

/// The number that the bytes of a byte string stand for, taken in front of another.
proof fn lemma_value_in_front(a: Seq<u8>, b: Seq<u8>)
    ensures
        be_value(a + b) == be_value(a) * vstd::arithmetic::power::pow(256, b.len()) + be_value(b),
    decreases b.len(),
{
    if b.len() == 0 {
        vstd::arithmetic::power::lemma_pow0(256);
        assert(a + b =~= a);
    } else {
        lemma_value_in_front(a, b.drop_last());
        assert((a + b).drop_last() =~= a + b.drop_last());
        reveal(vstd::arithmetic::power::pow);
        let p = vstd::arithmetic::power::pow(256, (b.len() - 1) as nat);
        assert(vstd::arithmetic::power::pow(256, b.len()) == 256 * p);
        let (x, y) = (be_value(a) as int, be_value(b.drop_last()) as int);
        assert((x * p + y) * 256 == x * (256 * p) + y * 256) by (nonlinear_arith);
    }
}

/// The parts of a GUID, one behind the other, read as the number of the UUID: 32 bits, twice 16,
/// and eight bytes.
pub proof fn law_guid_reads_as_the_uuid(u: u128, g: GuidParts)
    requires
        call_ensures(uuid_to_guid, (u,), g),
    ensures
        u == g.data1 * 0x1_0000_0000_0000_0000_0000_0000 + g.data2 * 0x1_0000_0000_0000_0000_0000
            + g.data3 * 0x1_0000_0000_0000_0000 + g.data4@[0] * 0x100_0000_0000_0000 + g.data4@[1]
            * 0x1_0000_0000_0000 + g.data4@[2] * 0x100_0000_0000 + g.data4@[3] * 0x1_0000_0000
            + g.data4@[4] * 0x100_0000 + g.data4@[5] * 0x1_0000 + g.data4@[6] * 0x100
            + g.data4@[7],
{
    lemma_pow256();
    crate::bytes::law_be_round_trip(u as nat, 16);
    crate::bytes::law_be_round_trip(g.data1 as nat, 4);
    crate::bytes::law_be_round_trip(g.data2 as nat, 2);
    crate::bytes::law_be_round_trip(g.data3 as nat, 2);
    let a = be_bytes(g.data1 as nat, 4);
    let b = be_bytes(g.data2 as nat, 2);
    let c = be_bytes(g.data3 as nat, 2);
    lemma_be_bytes_len(g.data2 as nat, 2);
    lemma_be_bytes_len(g.data3 as nat, 2);
    lemma_value_in_front(a, b);
    lemma_value_in_front(a + b, c);
    lemma_value_in_front(a + b + c, g.data4@);
    assert(g.data4@.len() == 8);
    lemma_value_of_eight(g.data4@);
    assert(be_value(a + b) == g.data1 * 0x1_0000 + g.data2);
    assert(be_value(a + b + c) == (g.data1 * 0x1_0000 + g.data2) * 0x1_0000 + g.data3);
    assert(u == ((g.data1 * 0x1_0000 + g.data2) * 0x1_0000 + g.data3) * 0x1_0000_0000_0000_0000
        + be_value(g.data4@));
}

/// What a receiver announces is the UUID of AirCore, of sixteen bytes; an entry of an announcement
/// is taken for that of a receiver if it stands under the company number for tests and begins with
/// those bytes, and not otherwise.
pub proof fn law_receivers_are_known_by_their_advert(
    payload: Vec<u8>,
    company_id: u16,
    data: &[u8],
    yes: bool,
)
    requires
        call_ensures(advert_payload, (), payload),
        call_ensures(is_aircore_advert, (company_id, data), yes),
    ensures
        payload@.len() == 16,
        be_value(payload@) == 0x8a51ec22_8f74_4d2e_9e29_9f1e2b9d5c31,
        yes <==> company_id == 0xffff && data@.len() >= 16 && forall|i: int|
            0 <= i < 16 ==> #[trigger] data@[i] == payload@[i],
{
    lemma_pow256();
    lemma_be_bytes_len(crate::discovery::AIRCORE_SERVICE_UUID as nat, 16);
    crate::bytes::law_be_round_trip(crate::discovery::AIRCORE_SERVICE_UUID as nat, 16);
    if data@.len() >= 16 {
        let head = data@.take(16);
        assert(forall|i: int| 0 <= i < 16 ==> head[i] == #[trigger] data@[i]);
        if forall|i: int| 0 <= i < 16 ==> #[trigger] data@[i] == payload@[i] {
            assert(head =~= payload@);
        }
    }
}

/// The two characteristics are numbered behind the service that they belong to.
pub proof fn law_characteristics_follow_the_service()
    ensures
        crate::discovery::OFFER_CHARACTERISTIC_UUID == crate::discovery::AIRCORE_SERVICE_UUID + 1,
        crate::discovery::CREDENTIALS_CHARACTERISTIC_UUID
            == crate::discovery::AIRCORE_SERVICE_UUID + 2,
{
}

/// A device that announces itself is shown under the name it gives, or a common one.
pub proof fn law_advert_name_is_the_given_one(local_name: Option<String>, name: String)
    requires
        call_ensures(advert_name, (local_name,), name),
    ensures
        local_name matches Some(n) ==> name@ == n@,
        local_name is None ==> name@ == "AirCore-Receiver"@,
{
}

/// Of each device that could be asked there is one report, with its name, its address and its
/// signal, in the order in which they were found; the others are left out. Here for the last
/// device of a scan, given what is reported of the scan without it.
pub proof fn law_scan_reports_each_device(
    found: &Vec<Peripheral>,
    peers: Vec<DiscoveredPeer>,
    earlier: &Vec<Peripheral>,
    before: Vec<DiscoveredPeer>,
)
    requires
        call_ensures(collect_peers, (found,), peers),
        call_ensures(collect_peers, (earlier,), before),
        found@.len() > 0,
        earlier@ == found@.drop_last(),
    ensures
        earlier@.len() == 0 ==> before@.len() == 0,
        forall|i: int|
            0 <= i < before@.len() ==> (#[trigger] peers@[i]).name@ == before@[i].name@
                && peers@[i].address@ == before@[i].address@ && peers@[i].signal_strength
                == before@[i].signal_strength,
        found@.last().properties is None ==> peers@.len() == before@.len(),
        found@.last().properties matches Some(p) ==> {
            &&& peers@.len() == before@.len() + 1
            &&& peers@.last().address@ == found@.last().address@
            &&& peers@.last().signal_strength == p.rssi
            &&& match p.local_name {
                Some(n) => peers@.last().name@ == n@,
                None => peers@.last().name@ == "(sin nombre)"@,
            }
        },
{
    let (v, w) = (
        crate::discovery::peer_views(peers@),
        crate::discovery::peer_views(before@),
    );
    assert(v.len() == peers@.len() && w.len() == before@.len());
    assert(forall|i: int| 0 <= i < peers@.len() ==> v[i] == (#[trigger] peers@[i])@);
    assert(forall|i: int| 0 <= i < before@.len() ==> w[i] == (#[trigger] before@[i])@);
    assert forall|i: int| 0 <= i < before@.len() implies (#[trigger] peers@[i]).name@
        == before@[i].name@ && peers@[i].address@ == before@[i].address@
        && peers@[i].signal_strength == before@[i].signal_strength by {
        assert(v[i] == w[i]);
        assert(w[i] == before@[i]@);
    }
    if found@.last().properties is Some {
        assert(v.last() == peers@[peers@.len() - 1]@);
    }
}

/// The first adapter there is is used.
pub proof fn law_first_adapter_is_used<A>(adapters: Vec<A>, r: Result<A, AirError>)
    requires
        call_ensures(first_adapter::<A>, (adapters,), r),
    ensures
        adapters@.len() > 0 ==> (r matches Ok(a) && a == adapters@[0]),
        adapters@.len() == 0 ==> (r matches Err(e) && e is NoBluetoothAdapter),
{
}

/// A network has a password of sixteen hexadecimal digits, which read as the time and the number
/// of the process; its name ends in the last six of them.
pub proof fn law_credentials_read_as_their_seed(nanos: u128, pid: u32, r: (String, String))
    requires
        call_ensures(generate_hotspot_credentials, (nanos, pid), r),
    ensures
        r.0@.len() == 14,
        r.0@.take(8) == "AirCore-"@,
        r.1@.len() == 16,
        forall|i: int| 0 <= i < 16 ==> digit_value(#[trigger] r.1@[i]) >= 0,
        digits_value(r.1@, 16) == ((nanos % 0x1_0000_0000_0000_0000) as u64) ^ ((pid as u64) << 32),
        digits_value(r.0@.skip(8), 16) == digits_value(r.1@, 16) % 0x100_0000,
{
    let seed = crate::hotspot::credential_seed(nanos, pid);
    crate::hotspot::law_credentials_fit(seed);
    lemma_padded_digits_value(seed as nat, 16, 16);
    lemma_padded_digits_value(seed as nat % 0x100_0000, 16, 6);
    reveal_strlit("AirCore-");
    assert(r.0@.take(8) =~= "AirCore-"@);
    assert(r.0@.skip(8) =~= crate::text::padded_digits(seed as nat % 0x100_0000, 16, 6));
}

/// The network that is joined is the first in range of that very name; if there is none, that name
/// is reported.
pub proof fn law_network_is_found_by_its_name(
    names: &Vec<Option<String>>,
    ssid: &str,
    r: Result<usize, AirError>,
)
    requires
        call_ensures(find_network, (names, ssid), r),
    ensures
        r matches Ok(i) ==> i < names@.len() && (names@[i as int] matches Some(n) && n@ == ssid@)
            && forall|j: int|
            0 <= j < i ==> (#[trigger] names@[j] matches Some(n) ==> n@ != ssid@),
        r matches Err(e) ==> (e matches AirError::NetworkNotFound { ssid: s } && s@ == ssid@)
            && forall|j: int|
            0 <= j < names@.len() ==> (#[trigger] names@[j] matches Some(n) ==> n@ != ssid@),
{
    match r {
        Ok(i) => {
            assert forall|j: int| 0 <= j < i implies (#[trigger] names@[j] matches Some(n) ==> n@
                != ssid@) by {
                assert(!crate::hotspot::is_network(names@, j, ssid@));
            }
        },
        Err(_) => {
            assert(crate::hotspot::no_network(names@, ssid@));
            assert forall|j: int| 0 <= j < names@.len() implies (
            #[trigger] names@[j] matches Some(n) ==> n@ != ssid@) by {
                assert(!crate::hotspot::is_network(names@, j, ssid@));
            }
        },
    }
}

/// A question is answered, and the answer is known as one; nothing else is answered, so that no
/// answer is answered in turn.
pub proof fn law_question_is_answered(
    datagram: &[u8],
    reply: Option<&'static str>,
    answer: &[u8],
    known: bool,
    answered: Option<&'static str>,
)
    requires
        call_ensures(probe_reply, (datagram,), reply),
        call_ensures(is_receiver_reply, (answer,), known),
        call_ensures(probe_reply, (answer,), answered),
    ensures
        reply is Some <==> datagram@ == encode_utf8("BUSCANDO_AIR_RECEIVER"@),
        reply matches Some(text) ==> (answer@ == encode_utf8(text@) ==> known),
        known <==> answer@ == encode_utf8("ESTOY_AQUI_AIR_RECEIVER"@),
        known ==> answered is None,
{
    crate::lan::law_no_reply_is_a_probe(answer@);
}

/// Files are taken on port 5000 of a receiver.
pub proof fn law_files_are_taken_on_one_port(ip: &str, address: String)
    requires
        call_ensures(transfer_address, (ip,), address),
    ensures
        address@.len() == ip@.len() + 5,
        address@.take(ip@.len() as int) == ip@,
        address@.skip(ip@.len() as int) == seq![':', '5', '0', '0', '0'],
{
    reveal_strlit(":5000");
    assert(address@.take(ip@.len() as int) =~= ip@);
    assert(address@.skip(ip@.len() as int) =~= seq![':', '5', '0', '0', '0']);
}

} // verus!
