use bluebeam::store::{FileStatus, MessageStatus};

#[test]
fn test_message_status_to_string() {
    assert_eq!(MessageStatus::Sent.to_string(), "sent");
    assert_eq!(MessageStatus::Delivered.to_string(), "delivered");
    assert_eq!(MessageStatus::Read.to_string(), "read");
}

#[test]
fn test_message_status_from_string() {
    assert_eq!(MessageStatus::from("sent".to_string()), MessageStatus::Sent);
    assert_eq!(MessageStatus::from("delivered".to_string()), MessageStatus::Delivered);
    assert_eq!(MessageStatus::from("read".to_string()), MessageStatus::Read);
    assert_eq!(MessageStatus::from("unknown".to_string()), MessageStatus::Sent); // default
}

#[test]
fn test_file_status_to_string() {
    assert_eq!(FileStatus::Pending.to_string(), "pending");
    assert_eq!(FileStatus::InProgress.to_string(), "in_progress");
    assert_eq!(FileStatus::Complete.to_string(), "complete");
    assert_eq!(FileStatus::Failed.to_string(), "failed");
}

#[test]
fn test_file_status_from_string() {
    assert_eq!(FileStatus::from("pending".to_string()), FileStatus::Pending);
    assert_eq!(FileStatus::from("in_progress".to_string()), FileStatus::InProgress);
    assert_eq!(FileStatus::from("complete".to_string()), FileStatus::Complete);
    assert_eq!(FileStatus::from("failed".to_string()), FileStatus::Failed);
    assert_eq!(FileStatus::from("unknown".to_string()), FileStatus::Pending); // default
}

#[test]
fn message_status_rank_orders_delivery() {
    assert!(MessageStatus::Sent.rank() < MessageStatus::Delivered.rank());
    assert!(MessageStatus::Delivered.rank() < MessageStatus::Read.rank());
}
