use aircore::ble_transport::{
    decode_response, encode_response, frame_chunks, FrameReassembler, HotspotResponse, CHUNK_SIZE,
};
use aircore::discovery::{
    advert_name, advert_payload, collect_peers, first_adapter, is_aircore_advert, uuid_to_guid,
    BtleplugScanner, Peripheral, PeripheralProperties, AIRCORE_SERVICE_UUID,
    CREDENTIALS_CHARACTERISTIC_UUID, OFFER_CHARACTERISTIC_UUID, TEST_COMPANY_ID,
};
use aircore::error::AirError;
use aircore::session::SessionPhase;

#[test]
fn a_message_is_cut_into_writes_of_a_hundred_bytes() {
    let chunks = frame_chunks(&[7u8; 250]);
    let lens: Vec<usize> = chunks.iter().map(|c| c.len()).collect();
    assert_eq!(lens, vec![100, 100, 54]);
    assert_eq!(&chunks[0][..5], &[0, 0, 0, 250, 7]);
    assert_eq!(frame_chunks(&[]), vec![vec![0, 0, 0, 0]]);
    let exact: Vec<usize> = frame_chunks(&[1u8; 96]).iter().map(|c| c.len()).collect();
    assert_eq!(exact, vec![CHUNK_SIZE]);
    let over: Vec<usize> = frame_chunks(&[1u8; 97]).iter().map(|c| c.len()).collect();
    assert_eq!(over, vec![100, 1]);
}

#[test]
fn messages_arrive_over_bluetooth() {
    let messages: Vec<Vec<u8>> =
        vec![vec![], vec![1], vec![2u8; 96], vec![3u8; 97], (0..255).collect(), vec![9u8; 3000]];
    let mut reassembler = FrameReassembler::new();
    for message in &messages {
        let chunks = frame_chunks(message);
        for (i, chunk) in chunks.iter().enumerate() {
            assert!(chunk.len() <= CHUNK_SIZE);
            let got = reassembler.push(chunk);
            if i + 1 == chunks.len() {
                assert_eq!(got.as_ref(), Some(message));
            } else {
                assert_eq!(got, None);
            }
        }
    }
}

#[test]
fn a_message_survives_any_split() {
    let whole: Vec<u8> = frame_chunks(b"hola mundo").concat();
    for size in 1..whole.len() + 1 {
        let mut reassembler = FrameReassembler::new();
        let got: Vec<Vec<u8>> = whole.chunks(size).filter_map(|c| reassembler.push(c)).collect();
        assert_eq!(got, vec![b"hola mundo".to_vec()]);
    }
}

#[test]
fn one_push_hands_out_one_message() {
    let mut both = frame_chunks(b"uno").concat();
    both.extend_from_slice(&frame_chunks(b"dos").concat());
    let mut reassembler = FrameReassembler::new();
    assert_eq!(reassembler.push(&both), Some(b"uno".to_vec()));
    assert_eq!(reassembler.push(&[]), Some(b"dos".to_vec()));
    assert_eq!(reassembler.push(&[]), None);
}

#[test]
fn an_incomplete_message_waits() {
    let mut reassembler = FrameReassembler::new();
    assert_eq!(reassembler.push(&[0, 0, 0]), None);
    assert_eq!(reassembler.push(&[2]), None);
    assert_eq!(reassembler.push(&[5]), None);
    assert_eq!(reassembler.push(&[6, 7]), Some(vec![5, 6]));
    assert_eq!(reassembler.push(&[0, 0, 0]), None);
}

#[test]
fn a_message_over_the_limit_is_refused_at_its_length() {
    let mut reassembler = FrameReassembler::new();
    assert_eq!(reassembler.push_within(&[0, 0, 0], 5).ok(), Some(None));
    assert!(matches!(reassembler.push_within(&[6], 5), Err(AirError::FrameTooLarge)));
    assert!(matches!(reassembler.push_within(&[1; 6], 5), Err(AirError::FrameTooLarge)));
    let mut reassembler = FrameReassembler::new();
    assert!(matches!(reassembler.push_within(&[0xff; 4], 70_000), Err(AirError::FrameTooLarge)));
}

#[test]
fn messages_within_the_limit_come_out_as_without_one() {
    let mut with = FrameReassembler::new();
    let mut without = FrameReassembler::new();
    for message in [vec![], vec![1u8], vec![2u8; 97], vec![3u8; 300]] {
        for chunk in frame_chunks(&message) {
            assert_eq!(with.push_within(&chunk, 300).ok().unwrap(), without.push(&chunk));
        }
    }
}

fn accepted(ssid: &str, password: &str) -> HotspotResponse {
    HotspotResponse::Accepted { ssid: ssid.to_string(), password: password.to_string() }
}

#[test]
fn an_answer_has_its_layout() {
    assert_eq!(encode_response(&HotspotResponse::Rejected), vec![0]);
    assert_eq!(
        encode_response(&accepted("ab", "c")),
        vec![1, 0, 0, 0, 2, b'a', b'b', 0, 0, 0, 1, b'c']
    );
}

#[test]
fn an_answer_is_read_as_it_was_written() {
    for (s, p) in [("AirCore-00AB12", "0123456789ABCDEF"), ("", ""), ("ñ", "é")] {
        let mut bytes = encode_response(&accepted(s, p));
        for _ in 0..2 {
            match decode_response(&bytes) {
                Some(HotspotResponse::Accepted { ssid, password }) => {
                    assert_eq!(ssid, s);
                    assert_eq!(password, p);
                }
                _ => panic!("not accepted"),
            }
            bytes.push(9);
        }
    }
    assert!(matches!(decode_response(&[0]), Some(HotspotResponse::Rejected)));
    assert!(matches!(decode_response(&[0, 1, 2]), Some(HotspotResponse::Rejected)));
}

#[test]
fn anything_but_a_zero_is_a_yes() {
    let mut bytes = encode_response(&accepted("a", "b"));
    bytes[0] = 77;
    assert!(matches!(decode_response(&bytes), Some(HotspotResponse::Accepted { .. })));
}

#[test]
fn an_answer_that_is_cut_short_is_none() {
    let bytes = encode_response(&accepted("abc", "defg"));
    for len in 0..bytes.len() {
        assert!(decode_response(&bytes[..len]).is_none());
    }
    assert!(decode_response(&[1, 0xff, 0xff, 0xff, 0xff, 0, 0, 0, 0]).is_none());
}

#[test]
fn texts_that_are_not_utf8_are_mended() {
    let bytes = [1, 0, 0, 0, 1, 0xfe, 0, 0, 0, 2, b'o', b'k'];
    match decode_response(&bytes) {
        Some(HotspotResponse::Accepted { ssid, password }) => {
            assert_eq!(ssid, "\u{FFFD}");
            assert_eq!(password, "ok");
        }
        _ => panic!("not accepted"),
    }
}

#[test]
fn a_guid_is_made_field_by_field() {
    let guid = uuid_to_guid(AIRCORE_SERVICE_UUID);
    assert_eq!(guid.data1, 0x8a51ec22);
    assert_eq!(guid.data2, 0x8f74);
    assert_eq!(guid.data3, 0x4d2e);
    assert_eq!(guid.data4, [0x9e, 0x29, 0x9f, 0x1e, 0x2b, 0x9d, 0x5c, 0x31]);
    assert_eq!(uuid_to_guid(OFFER_CHARACTERISTIC_UUID).data4[7], 0x32);
    assert_eq!(uuid_to_guid(CREDENTIALS_CHARACTERISTIC_UUID).data4[7], 0x33);
}

#[test]
fn the_uuid_is_announced_in_its_own_order() {
    let text: String = advert_payload().iter().map(|b| format!("{:02x}", b)).collect();
    assert_eq!(text, "8a51ec228f744d2e9e299f1e2b9d5c31");
    assert_eq!(
        uuid::Uuid::from_u128(AIRCORE_SERVICE_UUID).to_string(),
        "8a51ec22-8f74-4d2e-9e29-9f1e2b9d5c31"
    );
}

#[test]
fn an_announcement_is_recognised() {
    let mut payload = advert_payload();
    assert_eq!(payload.len(), 16);
    assert!(is_aircore_advert(TEST_COMPANY_ID, &payload));
    payload.push(1);
    assert!(is_aircore_advert(0xFFFF, &payload));
    assert!(!is_aircore_advert(0x004C, &payload));
    assert!(!is_aircore_advert(0xFFFF, &payload[..15]));
    payload[3] ^= 1;
    assert!(!is_aircore_advert(0xFFFF, &payload));
    assert_eq!(advert_name(Some("Laptop".to_string())), "Laptop");
    assert_eq!(advert_name(None), "AirCore-Receiver");
}

#[test]
fn a_scan_reports_who_could_be_asked() {
    let found = vec![
        Peripheral {
            address: "aa".to_string(),
            properties: Some(PeripheralProperties {
                local_name: Some("Reloj".to_string()),
                rssi: Some(-40),
            }),
        },
        Peripheral { address: "bb".to_string(), properties: None },
        Peripheral {
            address: "cc".to_string(),
            properties: Some(PeripheralProperties { local_name: None, rssi: None }),
        },
    ];
    let peers = collect_peers(&found);
    assert_eq!(peers.len(), 2);
    assert_eq!(peers[0].name, "Reloj");
    assert_eq!(peers[0].address, "aa");
    assert_eq!(peers[0].signal_strength, Some(-40));
    assert_eq!(peers[1].name, "(sin nombre)");
    assert_eq!(peers[1].address, "cc");
    assert_eq!(peers[1].signal_strength, None);
    assert!(collect_peers(&vec![]).is_empty());
    let _scanner = BtleplugScanner::new();
}

#[test]
fn the_first_adapter_is_used() {
    assert_eq!(first_adapter(vec!["hci0", "hci1"]).ok(), Some("hci0"));
    assert!(matches!(first_adapter(Vec::<u8>::new()), Err(AirError::NoBluetoothAdapter)));
}

#[test]
fn phases_compare_by_what_they_hold() {
    let a = SessionPhase::Failed { reason: "x".to_string() };
    assert_eq!(a.clone(), a);
    assert_ne!(a, SessionPhase::Failed { reason: "y".to_string() });
    assert_ne!(SessionPhase::Idle, SessionPhase::Transferring);
}
