use bluebeam::manager::CoreManager;
use bluebeam::store::{Device, File, FileStatus, Message, MessageStatus, Store};

fn device(id: &str, name: &str, address: &str, trusted: bool, fp: &str, seen: u64) -> Device {
    Device {
        id: id.to_string(),
        name: name.to_string(),
        address: address.to_string(),
        trusted,
        last_seen: seen,
        fingerprint: fp.to_string(),
    }
}

#[test]
fn test_add_and_get_devices() {
    let mut db = Store::new();
    let d = device("device1", "Device 1", "AA:BB:CC:DD:EE:FF", true, "fp1", 1_700_000_000_000);

    db.add_device(d).unwrap();
    let devices = db.get_devices();

    assert_eq!(devices.len(), 1);
    assert_eq!(devices[0].id, "device1");
    assert_eq!(devices[0].name, "Device 1");
    assert_eq!(devices[0].address, "AA:BB:CC:DD:EE:FF");
    assert_eq!(devices[0].trusted, true);
    assert_eq!(devices[0].fingerprint, "fp1");
}

#[test]
fn test_add_and_get_messages() {
    let mut db = Store::new();
    let message = Message {
        id: "11111111-aaaa-bbbb-cccc-000000000001".to_string(),
        conversation_id: "conv1".to_string(),
        sender_id: "sender1".to_string(),
        receiver_id: "receiver1".to_string(),
        content: b"Hello".to_vec(),
        timestamp: 1_700_000_000_000,
        status: MessageStatus::Sent,
    };

    db.add_message(message).unwrap();
    let messages = db.get_messages("conv1");

    assert_eq!(messages.len(), 1);
    assert_eq!(messages[0].id, "11111111-aaaa-bbbb-cccc-000000000001");
    assert_eq!(messages[0].conversation_id, "conv1");
    assert_eq!(messages[0].sender_id, "sender1");
    assert_eq!(messages[0].receiver_id, "receiver1");
    assert_eq!(messages[0].content, b"Hello");
    assert_eq!(messages[0].status, MessageStatus::Sent);
}

#[test]
fn test_add_and_get_files() {
    let mut db = Store::new();
    let file = File {
        id: "22222222-aaaa-bbbb-cccc-000000000002".to_string(),
        sender_id: "sender1".to_string(),
        receiver_id: "receiver1".to_string(),
        filename: "test.txt".to_string(),
        size: 100,
        checksum: "checksum".to_string(),
        path: "/tmp/test.txt".to_string(),
        timestamp: 1_700_000_000_000,
        status: FileStatus::Pending,
    };

    db.add_file(file).unwrap();
    let files = db.get_files();

    assert_eq!(files.len(), 1);
    assert_eq!(files[0].id, "22222222-aaaa-bbbb-cccc-000000000002");
    assert_eq!(files[0].sender_id, "sender1");
    assert_eq!(files[0].receiver_id, "receiver1");
    assert_eq!(files[0].filename, "test.txt");
    assert_eq!(files[0].size, 100);
    assert_eq!(files[0].checksum, "checksum");
    assert_eq!(files[0].path, "/tmp/test.txt");
    assert_eq!(files[0].status, FileStatus::Pending);
}

#[test]
fn test_update_file_status() {
    let mut db = Store::new();
    let file = File {
        id: "33333333-aaaa-bbbb-cccc-000000000003".to_string(),
        sender_id: "sender1".to_string(),
        receiver_id: "receiver1".to_string(),
        filename: "test.txt".to_string(),
        size: 100,
        checksum: "checksum".to_string(),
        path: "/tmp/test.txt".to_string(),
        timestamp: 1_700_000_000_000,
        status: FileStatus::Pending,
    };

    db.add_file(file).unwrap();
    db.update_file_status("33333333-aaaa-bbbb-cccc-000000000003", FileStatus::Complete).unwrap();

    let files = db.get_files();
    assert_eq!(files[0].status, FileStatus::Complete);
}

#[test]
fn test_messaging_integration() {
    let mut core = CoreManager::new("local".to_string());

    let message = Message {
        id: "msg1".to_string(),
        conversation_id: "conv1".to_string(),
        sender_id: "sender".to_string(),
        receiver_id: "receiver".to_string(),
        content: b"Hello".to_vec(),
        timestamp: 1_700_000_000_000,
        status: MessageStatus::Sent,
    };

    core.add_message(message).unwrap();

    let messages = core.get_messages("conv1");
    assert_eq!(messages.len(), 1);
    assert_eq!(messages[0].id, "msg1");
    assert_eq!(messages[0].content, b"Hello");
}

#[test]
fn test_file_transfer_integration() {
    let mut core = CoreManager::new("local".to_string());

    let file = File {
        id: "file1".to_string(),
        sender_id: "sender".to_string(),
        receiver_id: "receiver".to_string(),
        filename: "test.txt".to_string(),
        size: 100,
        checksum: "checksum".to_string(),
        path: "/tmp/test.txt".to_string(),
        timestamp: 1_700_000_000_000,
        status: FileStatus::Pending,
    };

    core.add_file(file).unwrap();

    let files = core.get_files();
    assert_eq!(files.len(), 1);
    assert_eq!(files[0].id, "file1");
    assert_eq!(files[0].status, FileStatus::Pending);

    core.update_file_status("file1", FileStatus::Complete).unwrap();

    let files = core.get_files();
    assert_eq!(files[0].status, FileStatus::Complete);
}

#[test]
fn terminal_file_status_is_refused_a_move() {
    let mut db = Store::new();
    let file = File {
        id: "f-done".to_string(),
        sender_id: "s".to_string(),
        receiver_id: "r".to_string(),
        filename: "t".to_string(),
        size: 1,
        checksum: "c".to_string(),
        path: "p".to_string(),
        timestamp: 5,
        status: FileStatus::Complete,
    };
    db.add_file(file).unwrap();
    assert!(db.update_file_status("f-done", FileStatus::Pending).is_err());
    assert_eq!(db.get_files()[0].status, FileStatus::Complete);
}

#[test]
fn message_status_never_walks_backwards() {
    let mut db = Store::new();
    let message = Message {
        id: "m1".to_string(),
        conversation_id: "c".to_string(),
        sender_id: "s".to_string(),
        receiver_id: "r".to_string(),
        content: vec![1],
        timestamp: 1,
        status: MessageStatus::Read,
    };
    db.add_message(message).unwrap();
    assert!(db.update_message_status("m1", MessageStatus::Sent).is_err());
    assert_eq!(db.get_messages("c")[0].status, MessageStatus::Read);
    db.update_message_status("m1", MessageStatus::Read).unwrap();
}

#[test]
fn devices_come_back_newest_first_and_replaced_by_id() {
    let mut db = Store::new();
    db.add_device(device("a", "A", "addr-a", false, "", 100)).unwrap();
    db.add_device(device("b", "B", "addr-b", false, "", 300)).unwrap();
    db.add_device(device("c", "C", "addr-c", false, "", 200)).unwrap();
    let devices = db.get_devices();
    assert_eq!(devices.len(), 3);
    assert_eq!(devices[0].id, "b");
    assert_eq!(devices[1].id, "c");
    assert_eq!(devices[2].id, "a");

    db.add_device(device("a", "A2", "addr-a", false, "", 400)).unwrap();
    let devices = db.get_devices();
    assert_eq!(devices.len(), 3);
    assert_eq!(devices[0].id, "a");
    assert_eq!(devices[0].name, "A2");
}
