//! Finding other devices over Bluetooth, and what a platform has to offer for it.

use crate::bytes::{
    be_bytes, law_be_unique, lemma_be_bytes_len, lemma_pow256, read_be, same_bytes,
};
use crate::error::AirError;
use vstd::prelude::*;
use vstd::slice::slice_subrange;

verus! {

/// The UUID by which AirCore devices know each other.
pub const AIRCORE_SERVICE_UUID: u128 = 0x8a51ec22_8f74_4d2e_9e29_9f1e2b9d5c31;

/// The characteristic that an offer is written to.
pub const OFFER_CHARACTERISTIC_UUID: u128 = 0x8a51ec22_8f74_4d2e_9e29_9f1e2b9d5c32;

/// The characteristic that the answer is read from.
pub const CREDENTIALS_CHARACTERISTIC_UUID: u128 = 0x8a51ec22_8f74_4d2e_9e29_9f1e2b9d5c33;

/// The company number that Bluetooth reserves for tests, under which AirCore announces itself.
pub const TEST_COMPANY_ID: u16 = 0xFFFF;

/// The length of a UUID.
pub const UUID_LEN: usize = 16;

/// The name of a device that announces itself without one.
pub const UNNAMED_RECEIVER: &'static str = "AirCore-Receiver";

/// The name of a device that was found without one.
pub const UNNAMED_PEER: &'static str = "(sin nombre)";

/// Calls `uuid::Uuid::from_u128` and `uuid::Uuid::as_bytes`: the bytes of a UUID are those of its
/// number, most significant first.
#[verifier::external_body]
fn uuid_bytes(u: u128) -> (bytes: Vec<u8>)
    ensures
        bytes@ == be_bytes(u as nat, 16),
{
    uuid::Uuid::from_u128(u).as_bytes().to_vec()
}

/// A UUID in the parts of a Windows GUID.
pub struct GuidParts {
    pub data1: u32,
    pub data2: u16,
    pub data3: u16,
    pub data4: [u8; 8],
}

impl GuidParts {
    /// The bytes of the UUID: each part most significant byte first, one after the other.
    pub open spec fn bytes(self) -> Seq<u8> {
        be_bytes(self.data1 as nat, 4) + be_bytes(self.data2 as nat, 2) + be_bytes(
            self.data3 as nat,
            2,
        ) + self.data4@
    }
}

/// Takes a UUID apart into the four parts of a GUID, field by field: a GUID does not hold its
/// bytes in the order of a UUID, and treating it as one large number would mix them up.
pub fn uuid_to_guid(u: u128) -> (guid: GuidParts)
    ensures
        guid.bytes() == be_bytes(u as nat, 16),
{
    let b: Vec<u8> = uuid_bytes(u);
    proof {
        lemma_pow256();
        lemma_be_bytes_len(u as nat, 16);
        law_be_unique(b@.subrange(0, 4));
        law_be_unique(b@.subrange(4, 6));
        law_be_unique(b@.subrange(6, 8));
    }
    let data1: u128 = read_be(slice_subrange(b.as_slice(), 0, 4));
    let data2: u128 = read_be(slice_subrange(b.as_slice(), 4, 6));
    let data3: u128 = read_be(slice_subrange(b.as_slice(), 6, 8));
    let data4: [u8; 8] = [b[8], b[9], b[10], b[11], b[12], b[13], b[14], b[15]];
    let guid = GuidParts {
        data1: data1 as u32,
        data2: data2 as u16,
        data3: data3 as u16,
        data4,
    };
    proof {
        assert(data4@ =~= b@.subrange(8, 16));
        assert(guid.bytes() =~= b@);
    }
    guid
}

/// Two UUIDs with the same GUID are the same.
pub proof fn law_guid_is_unique(u: u128, v: u128, g: GuidParts)
    requires
        g.bytes() == be_bytes(u as nat, 16),
        g.bytes() == be_bytes(v as nat, 16),
    ensures
        u == v,
{
    lemma_pow256();
    crate::bytes::law_be_round_trip(u as nat, 16);
    crate::bytes::law_be_round_trip(v as nat, 16);
}

/// What a receiver puts into its announcement under [`TEST_COMPANY_ID`].
pub fn advert_payload() -> (payload: Vec<u8>)
    ensures
        payload@ == be_bytes(AIRCORE_SERVICE_UUID as nat, 16),
{
    uuid_bytes(AIRCORE_SERVICE_UUID)
}

/// Whether an entry of an announcement is that of an AirCore device: under the right company
/// number, the UUID in front.
pub open spec fn aircore_entry(company_id: u16, data: Seq<u8>) -> bool {
    &&& company_id == TEST_COMPANY_ID
    &&& data.len() >= 16
    &&& data.take(16) == be_bytes(AIRCORE_SERVICE_UUID as nat, 16)
}

/// Whether an entry of an announcement is that of an AirCore device.
pub fn is_aircore_advert(company_id: u16, data: &[u8]) -> (yes: bool)
    ensures
        yes == aircore_entry(company_id, data@),
{
    if company_id != TEST_COMPANY_ID || data.len() < UUID_LEN {
        return false;
    }
    let head: &[u8] = slice_subrange(data, 0, UUID_LEN);
    proof {
        assert(head@ =~= data@.take(16));
    }
    let payload = advert_payload();
    same_bytes(head, payload.as_slice())
}

/// What a receiver announces is recognised, whatever else the entry holds behind it.
pub proof fn law_own_advert_is_recognised(rest: Seq<u8>)
    ensures
        aircore_entry(TEST_COMPANY_ID, be_bytes(AIRCORE_SERVICE_UUID as nat, 16) + rest),
{
    lemma_be_bytes_len(AIRCORE_SERVICE_UUID as nat, 16);
    let payload = be_bytes(AIRCORE_SERVICE_UUID as nat, 16);
    assert((payload + rest).take(16) =~= payload);
}

/// The name to show for a device that announces itself.
pub fn advert_name(local_name: Option<String>) -> (name: String)
    ensures
        local_name matches Some(n) ==> name@ == n@,
        local_name is None ==> name@ == UNNAMED_RECEIVER@,
{
    match local_name {
        Some(n) => n,
        None => UNNAMED_RECEIVER.to_owned(),
    }
}

/// A device that was found by a scan.
#[derive(Debug, Clone)]
pub struct DiscoveredPeer {
    pub name: String,
    pub address: String,
    /// How strong its signal is; closer to zero is closer by.
    pub signal_strength: Option<i16>,
}

/// A [`DiscoveredPeer`] with its texts in view.
pub struct PeerView {
    pub name: Seq<char>,
    pub address: Seq<char>,
    pub signal_strength: Option<i16>,
}

impl View for DiscoveredPeer {
    type V = PeerView;

    open spec fn view(&self) -> PeerView {
        PeerView {
            name: self.name@,
            address: self.address@,
            signal_strength: self.signal_strength,
        }
    }
}

/// What a device tells about itself.
pub struct PeripheralProperties {
    pub local_name: Option<String>,
    pub rssi: Option<i16>,
}

/// A device in range, and what it tells about itself if it could be asked.
pub struct Peripheral {
    pub address: String,
    pub properties: Option<PeripheralProperties>,
}

/// What is reported of a device that could be asked.
pub open spec fn peer_of(address: Seq<char>, properties: PeripheralProperties) -> PeerView {
    PeerView {
        name: match properties.local_name {
            Some(n) => n@,
            None => UNNAMED_PEER@,
        },
        address,
        signal_strength: properties.rssi,
    }
}

/// What is reported of a scan: the devices that could be asked, in order.
pub open spec fn peers_of(found: Seq<Peripheral>) -> Seq<PeerView>
    decreases found.len(),
{
    if found.len() == 0 {
        Seq::empty()
    } else {
        let before = peers_of(found.drop_last());
        match found.last().properties {
            Some(properties) => before.push(peer_of(found.last().address@, properties)),
            None => before,
        }
    }
}

/// Peers with their texts in view.
pub open spec fn peer_views(peers: Seq<DiscoveredPeer>) -> Seq<PeerView> {
    Seq::new(peers.len(), |i: int| peers[i]@)
}

/// Reports what a scan found. Devices that could not be asked are left out.
pub fn collect_peers(found: &Vec<Peripheral>) -> (peers: Vec<DiscoveredPeer>)
    ensures
        peer_views(peers@) == peers_of(found@),
{
    let mut peers: Vec<DiscoveredPeer> = Vec::new();
    let mut i: usize = 0;
    proof {
        assert(found@.take(0) =~= Seq::<Peripheral>::empty());
        assert(peer_views(peers@) =~= Seq::<PeerView>::empty());
    }
    while i < found.len()
        invariant
            i <= found@.len(),
            peer_views(peers@) == peers_of(found@.take(i as int)),
        decreases found@.len() - i,
    {
        let ghost before = peers@;
        proof {
            assert(found@.take(i + 1).drop_last() =~= found@.take(i as int));
        }
        if let Some(properties) = &found[i].properties {
            let name = match &properties.local_name {
                Some(n) => n.as_str().to_owned(),
                None => UNNAMED_PEER.to_owned(),
            };
            let peer = DiscoveredPeer {
                name,
                address: found[i].address.as_str().to_owned(),
                signal_strength: properties.rssi,
            };
            peers.push(peer);
            proof {
                assert(peer_views(peers@) =~= peer_views(before).push(peer@));
            }
        }
        i += 1;
    }
    proof {
        assert(found@.take(found@.len() as int) =~= found@);
    }
    peers
}

/// The Bluetooth adapter to use: the first there is.
pub fn first_adapter<A>(adapters: Vec<A>) -> (r: Result<A, AirError>)
    ensures
        adapters@.len() > 0 ==> r == Ok::<A, AirError>(adapters@[0]),
        adapters@.len() == 0 ==> r == Err::<A, AirError>(AirError::NoBluetoothAdapter),
{
    let mut adapters = adapters;
    if adapters.len() == 0 {
        return Err(AirError::NoBluetoothAdapter);
    }
    Ok(adapters.remove(0))
}

/// Announcing oneself over Bluetooth.
pub trait BleAdvertiser: Send {
    fn start_advertising(&mut self, device_name: &str) -> std::io::Result<()>;

    fn stop_advertising(&mut self) -> std::io::Result<()>;
}

/// Looking for devices nearby over Bluetooth.
pub trait BleScanner: Send {
    fn scan(&mut self, timeout_secs: u64) -> std::io::Result<Vec<DiscoveredPeer>>;
}

/// Opening and closing a temporary Wi-Fi network, and joining one.
pub trait HotspotManager: Send {
    fn start_hotspot(&mut self, ssid: &str, password: &str) -> std::io::Result<String>;

    fn stop_hotspot(&mut self) -> std::io::Result<()>;

    fn join_network(&mut self, ssid: &str, password: &str) -> std::io::Result<()>;
}

/// The scanner that works on every system.
pub struct BtleplugScanner;

impl BtleplugScanner {
    pub fn new() -> (scanner: BtleplugScanner)
        ensures
            scanner == BtleplugScanner,
    {
        BtleplugScanner
    }
}

} // verus!
