use bluebeam::settings::{AppSettings, SettingsManager};
use bluebeam::wire::{
    decode_ack_payload, decode_chunk_payload, decode_frame, decode_header_payload,
    encode_ack_payload, encode_chunk_payload, encode_frame, encode_header_payload, u16_from_be,
    u16_to_be, u64_from_be, u64_to_be, FileAckInfo, FileChunkInfo, FileHeaderInfo, PacketKind,
};

#[test]
fn settings_defaults_match_first_run() {
    let s = AppSettings::default();
    assert_eq!(s.theme, "light");
    assert_eq!(s.language, "en");
    assert!(s.encryption_enabled);
    assert_eq!(s.auto_lock_timeout, 5);
    assert!(s.first_run);
    assert!(s.trusted_devices.is_empty());
}

#[test]
fn settings_manager_tracks_changes() {
    let mut m = SettingsManager::new();
    assert!(!m.is_dirty());
    m.add_trusted_device("peer-1".to_string());
    assert!(m.is_dirty());
    assert_eq!(m.get_settings().trusted_devices, vec!["peer-1".to_string()]);
    m.mark_saved();
    assert!(!m.is_dirty());
    m.update_settings(|mut s| {
        s.user_name = "alice".to_string();
        s
    });
    assert!(m.is_dirty());
    assert_eq!(m.get_settings().user_name, "alice");
}

#[test]
fn big_endian_codecs_round_trip() {
    for x in [0u64, 1, 0xDEAD_BEEF, u64::MAX] {
        let b = u64_to_be(x);
        assert_eq!(b.len(), 8);
        assert_eq!(u64_from_be(&b), x);
    }
    for x in [0u16, 9, u16::MAX] {
        let b = u16_to_be(x);
        assert_eq!(u16_from_be(&b), x);
    }
    assert_eq!(u64_to_be(1), vec![0, 0, 0, 0, 0, 0, 0, 1]);
}

#[test]
fn frame_layout_and_round_trip() {
    let ct = vec![0xAAu8; 40];
    let bytes = encode_frame(PacketKind::FileChunk, 7, &ct);
    assert_eq!(bytes[0], 2); // tag
    assert_eq!(&bytes[1..9], &[0, 0, 0, 0, 0, 0, 0, 7]); // counter
    assert_eq!(&bytes[9..11], &[0, 9]); // aad length
    assert_eq!(&bytes[11..20], &bytes[0..9]); // aad binds the header
    let frame = decode_frame(&bytes).expect("a genuine frame decodes");
    assert_eq!(frame.kind, PacketKind::FileChunk);
    assert_eq!(frame.counter, 7);
    assert_eq!(frame.ciphertext, ct);

    // a frame whose associated data disagrees with its header is refused
    let mut bad = encode_frame(PacketKind::Message, 7, &ct);
    bad[11] = 9;
    assert!(decode_frame(&bad).is_none());
    assert!(decode_frame(&bytes[..19]).is_none());
}

#[test]
fn payload_records_round_trip() {
    let header = FileHeaderInfo {
        transfer_id: "t-1".to_string(),
        filename: "notes.txt".to_string(),
        checksum: "00ff".to_string(),
        total_size: 123456,
    };
    let h = decode_header_payload(&encode_header_payload(&header)).unwrap();
    assert_eq!(h.transfer_id, "t-1");
    assert_eq!(h.filename, "notes.txt");
    assert_eq!(h.checksum, "00ff");
    assert_eq!(h.total_size, 123456);

    let chunk = FileChunkInfo {
        transfer_id: "t-1".to_string(),
        offset: 65536,
        data: vec![1, 2, 3],
    };
    let c = decode_chunk_payload(&encode_chunk_payload(&chunk)).unwrap();
    assert_eq!(c.transfer_id, "t-1");
    assert_eq!(c.offset, 65536);
    assert_eq!(c.data, vec![1, 2, 3]);

    let ack = FileAckInfo { transfer_id: "t-1".to_string(), offset: u64::MAX };
    let a = decode_ack_payload(&encode_ack_payload(&ack)).unwrap();
    assert_eq!(a.transfer_id, "t-1");
    assert_eq!(a.offset, u64::MAX);

    assert!(decode_header_payload(&[1, 2, 3]).is_none());
    assert!(decode_ack_payload(&[]).is_none());
}
