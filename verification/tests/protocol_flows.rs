use bluebeam::events::{Action, ErrorCode, Event, StateUpdate};
use bluebeam::manager::CoreManager;
use bluebeam::pairing::PairingSession;
use bluebeam::session::seal_packet;
use bluebeam::store::FileStatus;
use bluebeam::wire::{encode_ack_payload, FileAckInfo, PacketKind};

/// Drives a full handshake between two cores and returns the shared session
/// id both ended up with.
fn pair_cores(core_a: &mut CoreManager, core_b: &mut CoreManager) -> String {
    let mut pa = PairingSession::initiate("B".to_string(), "Bee".to_string(), "addr-b".to_string());
    let mut pb = PairingSession::initiate("A".to_string(), "Aye".to_string(), "addr-a".to_string());
    let a_pub = pa.local_public_key();
    let b_pub = pb.local_public_key();
    pa.process_remote_key(&b_pub).unwrap();
    pb.process_remote_key(&a_pub).unwrap();
    let pin = pa.get_pin().unwrap().clone();
    assert!(pa.verify_pin(&pin));
    pa.process_complete_ack(b"PAIRING_COMPLETE").unwrap();
    pb.process_complete_ack(b"PAIRING_COMPLETE").unwrap();
    core_a.complete_pairing(&pa, true).unwrap();
    core_b.complete_pairing(&pb, true).unwrap();
    assert_eq!(core_a.sessions.len(), 1);
    assert_eq!(core_b.sessions.len(), 1);
    assert_eq!(core_a.sessions[0].key, core_b.sessions[0].key);
    assert_eq!(core_a.sessions[0].id, core_b.sessions[0].id);
    core_a.sessions[0].id.clone()
}

fn packet_of(action: &Action) -> Vec<u8> {
    match action {
        Action::SendPacket { data, .. } => data.clone(),
        _ => panic!("expected a packet"),
    }
}

#[test]
fn happy_path_pairing_promotes_the_peer() {
    let mut core_a = CoreManager::new("A".to_string());
    let mut pa = PairingSession::initiate(
        "test_device".to_string(),
        "Test Device".to_string(),
        "00:11:22:33:44:55".to_string(),
    );
    // the peer answers with its 32-byte public key
    let remote = [0u8; 32];
    pa.process_remote_key(&remote).unwrap();
    let pin = pa.get_pin().unwrap().clone();
    assert_eq!(pin, "094442");
    assert!(pa.verify_pin(&pin));
    pa.process_complete_ack(b"PAIRING_COMPLETE").unwrap();
    let (_actions, updates) = core_a.complete_pairing(&pa, true).unwrap();

    assert!(matches!(&updates[0], StateUpdate::DevicePaired { id } if id == "test_device"));
    let devices = core_a.get_devices();
    assert_eq!(devices.len(), 1);
    assert_eq!(devices[0].id, "test_device");
    assert!(devices[0].trusted);
    assert_eq!(devices[0].fingerprint, "Zmh6rfhivXc=");
    assert!(core_a.get_settings().trusted_devices.contains(&"test_device".to_string()));
    assert_eq!(core_a.sessions.len(), 1);
}

#[test]
fn pin_mismatch_leaves_the_peer_untrusted() {
    let mut core_a = CoreManager::new("A".to_string());
    let mut pa = PairingSession::initiate(
        "test_device".to_string(),
        "Test Device".to_string(),
        "00:11:22:33:44:55".to_string(),
    );
    pa.process_remote_key(&[0u8; 32]).unwrap();
    assert!(!pa.verify_pin("000000"));
    // the user did not confirm: complete_pairing is told so and changes nothing
    let (actions, updates) = core_a.complete_pairing(&pa, false).unwrap();
    assert!(actions.is_empty());
    assert!(updates.is_empty());
    assert!(core_a.get_devices().is_empty());
    assert!(core_a.get_settings().trusted_devices.is_empty());
    assert!(core_a.sessions.is_empty());
}

#[test]
fn message_round_trip_and_replay_rejected() {
    let mut core_a = CoreManager::new("A".to_string());
    let mut core_b = CoreManager::new("B".to_string());
    let sid = pair_cores(&mut core_a, &mut core_b);

    let (actions, _updates) =
        core_a.handle_event(Event::SendMessage(sid.clone(), "Hello".to_string()));
    assert_eq!(actions.len(), 1);
    let packet = packet_of(&actions[0]);

    let (_acts, updates) = core_b.handle_event(Event::DataReceived(sid.clone(), packet.clone()));
    assert!(matches!(
        &updates[0],
        StateUpdate::MessageReceived { message, .. } if message == "Hello"
    ));
    assert_eq!(core_b.get_messages("A").len(), 1);
    assert_eq!(core_b.get_messages("A")[0].content, b"Hello");

    // the same packet again carries the same counter: the session closes,
    // a crypto error is reported and no second row is written
    let (_acts, updates) = core_b.handle_event(Event::DataReceived(sid.clone(), packet));
    assert!(matches!(&updates[0], StateUpdate::Error { code: ErrorCode::CryptoError, .. }));
    assert!(core_b.sessions.is_empty());
    assert_eq!(core_b.get_messages("A").len(), 1);
}

#[test]
fn tampered_packet_closes_the_session() {
    let mut core_a = CoreManager::new("A".to_string());
    let mut core_b = CoreManager::new("B".to_string());
    let sid = pair_cores(&mut core_a, &mut core_b);

    let (actions, _) = core_a.handle_event(Event::SendMessage(sid.clone(), "hi".to_string()));
    let mut packet = packet_of(&actions[0]);
    let last = packet.len() - 1;
    packet[last] ^= 1;
    let (_acts, updates) = core_b.handle_event(Event::DataReceived(sid.clone(), packet));
    assert!(matches!(&updates[0], StateUpdate::Error { code: ErrorCode::CryptoError, .. }));
    assert!(core_b.sessions.is_empty());
    assert!(core_b.get_messages("A").is_empty());
}

#[test]
fn file_transfer_round_trip() {
    let mut core_a = CoreManager::new("A".to_string());
    let mut core_b = CoreManager::new("B".to_string());
    let sid = pair_cores(&mut core_a, &mut core_b);

    // 200 KiB: three full 64 KiB chunks and a last chunk of 8 KiB
    let file: Vec<u8> = (0..204800u32).map(|i| (i % 251) as u8).collect();
    let (actions, updates) = core_a.file_data_ready(
        "transfer-1".to_string(),
        sid.clone(),
        "big.bin".to_string(),
        "/tmp/big.bin".to_string(),
        file.clone(),
    );
    assert!(updates.is_empty());
    assert_eq!(actions.len(), 5); // header first, then four chunks

    let mut received_file: Option<Vec<u8>> = None;
    let mut received_path: Option<String> = None;
    let mut final_ack: Option<Vec<u8>> = None;
    for action in actions.iter() {
        let (out_actions, out_updates) =
            core_b.handle_event(Event::DataReceived(sid.clone(), packet_of(action)));
        for a in out_actions {
            match a {
                Action::WriteFile { data, .. } => received_file = Some(data),
                Action::SendPacket { data, .. } => final_ack = Some(data),
                _ => {},
            }
        }
        for u in out_updates {
            if let StateUpdate::FileReceived { file_path, .. } = u {
                received_path = Some(file_path);
            }
        }
    }
    assert_eq!(received_file.expect("receiver reconstructs the bytes"), file);
    assert_eq!(received_path.unwrap(), "big.bin");
    assert_eq!(core_b.get_files()[0].status, FileStatus::Complete);
    assert_eq!(core_b.get_files()[0].checksum, bluebeam::crypto::calculate_checksum(&file));

    // the final acknowledgement drives the sender to Complete
    let (_acts, updates) =
        core_a.handle_event(Event::DataReceived(sid.clone(), final_ack.unwrap()));
    assert!(matches!(
        &updates[0],
        StateUpdate::FileTransferProgress { sent: 204800, total: 204800, .. }
    ));
    assert_eq!(core_a.get_files()[0].status, FileStatus::Complete);
}

#[test]
fn cancel_mid_transfer_fails_both_sides() {
    let mut core_a = CoreManager::new("A".to_string());
    let mut core_b = CoreManager::new("B".to_string());
    let sid = pair_cores(&mut core_a, &mut core_b);
    let key = core_a.sessions[0].key.clone();

    let file: Vec<u8> = vec![42u8; 262144]; // exactly four 64 KiB chunks
    let (actions, _) = core_a.file_data_ready(
        "transfer-2".to_string(),
        sid.clone(),
        "big.bin".to_string(),
        "/tmp/big.bin".to_string(),
        file,
    );
    assert_eq!(actions.len(), 5);

    // the receiver takes the header and the first three chunks only
    for action in actions.iter().take(4) {
        core_b.handle_event(Event::DataReceived(sid.clone(), packet_of(action)));
    }

    // three of four chunks are acknowledged to the sender
    for (i, offset) in [65536u64, 131072, 196608].iter().enumerate() {
        let payload = encode_ack_payload(&FileAckInfo {
            transfer_id: "transfer-2".to_string(),
            offset: *offset,
        });
        let pkt = seal_packet(&key, &sid, PacketKind::FileAck, (i + 1) as u64, &payload);
        let (_a, updates) = core_a.handle_event(Event::DataReceived(sid.clone(), pkt));
        assert!(matches!(&updates[0], StateUpdate::FileTransferProgress { .. }));
    }
    assert_eq!(core_a.transfers[0].sent_size, 196608);

    // the sender cancels: its side fails and an abort goes out
    let (cancel_actions, _) = core_a.handle_event(Event::CancelTransfer("transfer-2".to_string()));
    assert_eq!(core_a.transfers[0].status, FileStatus::Failed);
    assert_eq!(core_a.get_files()[0].status, FileStatus::Failed);
    assert_eq!(cancel_actions.len(), 1);

    // the abort fails the receiving side too
    core_b.handle_event(Event::DataReceived(sid.clone(), packet_of(&cancel_actions[0])));
    assert_eq!(core_b.get_files()[0].status, FileStatus::Failed);

    // sending the same transfer again is rejected
    let (_a, updates) = core_a.file_data_ready(
        "transfer-2".to_string(),
        sid.clone(),
        "big.bin".to_string(),
        "/tmp/big.bin".to_string(),
        vec![1u8; 10],
    );
    assert!(matches!(&updates[0], StateUpdate::Error { code: ErrorCode::FileError, .. }));
}

#[test]
fn discovery_and_disconnect_flow() {
    let mut core = CoreManager::new("A".to_string());
    let (_a, updates) = core.handle_event(Event::StartDiscovery);
    assert!(matches!(&updates[0], StateUpdate::DiscoveryStarted));
    assert!(core.discovering);

    let (_a, updates) =
        core.handle_event(Event::DeviceDiscovered("dev-1".to_string(), "One".to_string()));
    assert!(matches!(
        &updates[0],
        StateUpdate::DeviceFound { id, name } if id == "dev-1" && name == "One"
    ));
    let devices = core.get_devices();
    assert_eq!(devices.len(), 1);
    assert!(!devices[0].trusted);

    let (_a, updates) = core.handle_event(Event::StopDiscovery);
    assert!(matches!(&updates[0], StateUpdate::DiscoveryStopped));
    assert!(!core.discovering);

    let mut core_b = CoreManager::new("B".to_string());
    let _sid = pair_cores(&mut core, &mut core_b);
    assert_eq!(core.sessions.len(), 1);
    core.handle_event(Event::DeviceDisconnected("B".to_string()));
    assert!(core.sessions.is_empty());

    core_b.handle_event(Event::Shutdown);
    assert!(core_b.sessions.is_empty());
    assert!(!core_b.discovering);
}

#[test]
fn counters_accepted_strictly_increase() {
    let mut s = bluebeam::session::Session::new(
        "sess".to_string(),
        "peer".to_string(),
        bluebeam::session::SessionState::Active,
        vec![0u8; 32],
    );
    assert!(s.accept_counter(7));
    assert!(!s.accept_counter(7)); // a replayed counter is never accepted twice
    assert!(!s.accept_counter(3));
    assert!(s.accept_counter(9)); // a gap is permitted
    assert_eq!(s.recv_counter, 9);
}

#[test]
fn dissolving_a_handshake_wipes_the_ephemeral_secret() {
    let mut p = PairingSession::initiate("x".to_string(), "X".to_string(), "addr".to_string());
    assert!(p.local_secret.iter().any(|b| *b != 0));
    p.dissolve();
    assert_eq!(p.local_secret.len(), 32);
    assert!(p.local_secret.iter().all(|b| *b == 0));
}
