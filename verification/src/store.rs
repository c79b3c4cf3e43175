//! Durable records and the in-memory store the event core owns: trusted
//! peers, conversation history and file-transfer rows, with the invariants
//! the data model promises — unique identifiers, peers trusted only with a
//! fingerprint, message statuses that only move forward, terminal file
//! statuses — and the orderings the queries promise.
//!
//! The on-disk database engine is a collaborator outside the library: it
//! mirrors what this store holds and is driven from the application shell.

use vstd::prelude::*;
use vstd::string::StringExecFns;
use crate::wire::str_eq;

verus! {

/// Persistence failures.
#[derive(Debug, Clone)]
pub enum DatabaseError {
    ConnectionFailed,
    QueryFailed,
    MigrationFailed,
    IntegrityError { message: String },
    Io,
}

/// Delivery state of a message. Only forward moves are allowed, in the
/// order Sent, then Delivered, then Read.
#[derive(Debug, Clone, Copy, PartialEq, Eq, Structural)]
pub enum MessageStatus {
    Sent,
    Delivered,
    Read,
}

impl MessageStatus {
    /// Position in the delivery order.
    pub open spec fn rank_spec(self) -> int {
        match self {
            MessageStatus::Sent => 0,
            MessageStatus::Delivered => 1,
            MessageStatus::Read => 2,
        }
    }

    /// Position in the delivery order.
    pub fn rank(&self) -> (r: u8)
        ensures
            r as int == self.rank_spec(),
    {
        match self {
            MessageStatus::Sent => 0,
            MessageStatus::Delivered => 1,
            MessageStatus::Read => 2,
        }
    }

    /// The canonical lowercase column value of this status.
    pub open spec fn as_str_spec(self) -> Seq<char> {
        match self {
            MessageStatus::Sent => "sent"@,
            MessageStatus::Delivered => "delivered"@,
            MessageStatus::Read => "read"@,
        }
    }

    /// The canonical lowercase column value of this status.
    pub fn to_string(&self) -> (r: String)
        ensures
            r@ == self.as_str_spec(),
    {
        match self {
            MessageStatus::Sent => String::from_str("sent"),
            MessageStatus::Delivered => String::from_str("delivered"),
            MessageStatus::Read => String::from_str("read"),
        }
    }

    /// The status a column value stands for; anything unknown reads as Sent.
    pub open spec fn of_str_spec(s: Seq<char>) -> MessageStatus {
        if s == "delivered"@ {
            MessageStatus::Delivered
        } else if s == "read"@ {
            MessageStatus::Read
        } else {
            MessageStatus::Sent
        }
    }

    /// Reads a status from its column value; anything unknown reads as Sent.
    pub fn from(s: String) -> (r: MessageStatus)
        ensures
            r == Self::of_str_spec(s@),
    {
        if str_eq(s.as_str(), "delivered") {
            MessageStatus::Delivered
        } else if str_eq(s.as_str(), "read") {
            MessageStatus::Read
        } else {
            MessageStatus::Sent
        }
    }
}

/// Whether a message status may move to another: the order Sent, Delivered,
/// Read is never walked backwards.
pub open spec fn message_status_can_advance(from: MessageStatus, to: MessageStatus) -> bool {
    from.rank_spec() <= to.rank_spec()
}

/// Message status is monotonic over time: allowed moves compose, so however
/// many updates a row sees, its status never falls back in the order
/// Sent < Delivered < Read.
pub proof fn lemma_message_status_monotonic(a: MessageStatus, b: MessageStatus, c: MessageStatus)
    requires
        message_status_can_advance(a, b),
        message_status_can_advance(b, c),
    ensures
        message_status_can_advance(a, c),
{
}

/// State of a file transfer. Complete and Failed are terminal.
#[derive(Debug, Clone, Copy, PartialEq, Eq, Structural)]
pub enum FileStatus {
    Pending,
    InProgress,
    Complete,
    Failed,
}

impl FileStatus {
    /// Whether this status is terminal: no row leaves Complete or Failed.
    pub open spec fn is_terminal(self) -> bool {
        self == FileStatus::Complete || self == FileStatus::Failed
    }

    /// The canonical lowercase column value of this status.
    pub open spec fn as_str_spec(self) -> Seq<char> {
        match self {
            FileStatus::Pending => "pending"@,
            FileStatus::InProgress => "in_progress"@,
            FileStatus::Complete => "complete"@,
            FileStatus::Failed => "failed"@,
        }
    }

    /// The canonical lowercase column value of this status.
    pub fn to_string(&self) -> (r: String)
        ensures
            r@ == self.as_str_spec(),
    {
        match self {
            FileStatus::Pending => String::from_str("pending"),
            FileStatus::InProgress => String::from_str("in_progress"),
            FileStatus::Complete => String::from_str("complete"),
            FileStatus::Failed => String::from_str("failed"),
        }
    }

    /// The status a column value stands for; anything unknown reads as
    /// Pending.
    pub open spec fn of_str_spec(s: Seq<char>) -> FileStatus {
        if s == "in_progress"@ {
            FileStatus::InProgress
        } else if s == "complete"@ {
            FileStatus::Complete
        } else if s == "failed"@ {
            FileStatus::Failed
        } else {
            FileStatus::Pending
        }
    }

    /// Reads a status from its column value; anything unknown reads as
    /// Pending.
    pub fn from(s: String) -> (r: FileStatus)
        ensures
            r == Self::of_str_spec(s@),
    {
        if str_eq(s.as_str(), "in_progress") {
            FileStatus::InProgress
        } else if str_eq(s.as_str(), "complete") {
            FileStatus::Complete
        } else if str_eq(s.as_str(), "failed") {
            FileStatus::Failed
        } else {
            FileStatus::Pending
        }
    }
}

/// Whether a file status may move to another: a terminal status never
/// changes.
pub open spec fn file_status_can_advance(from: FileStatus, to: FileStatus) -> bool {
    from == to || !from.is_terminal()
}

/// A peer record. Created untrusted on first discovery, promoted on
/// successful pairing, never deleted by the core.
#[derive(Debug)]
pub struct Device {
    /// Stable identifier.
    pub id: String,
    /// Display name.
    pub name: String,
    /// Raw link address.
    pub address: String,
    /// Whether pairing confirmed this peer.
    pub trusted: bool,
    /// Last-seen timestamp, milliseconds since the Unix epoch (UTC).
    pub last_seen: u64,
    /// Fingerprint of the peer's long-term public key, empty until pairing.
    pub fingerprint: String,
}

impl Device {
    /// A peer is trusted only if a fingerprint is stored.
    pub open spec fn wf(self) -> bool {
        self.trusted ==> self.fingerprint@.len() > 0
    }
}

impl Clone for Device {
    /// Cloning keeps every field.
    fn clone(&self) -> (r: Self)
        ensures
            r == *self,
    {
        Device {
            id: self.id.clone(),
            name: self.name.clone(),
            address: self.address.clone(),
            trusted: self.trusted,
            last_seen: self.last_seen,
            fingerprint: self.fingerprint.clone(),
        }
    }
}

/// A message row. Rows are append-only; only the status moves, and only
/// forward.
#[derive(Debug)]
pub struct Message {
    /// Unique identifier.
    pub id: String,
    /// Conversation this message belongs to, by convention the stable id of
    /// the other peer.
    pub conversation_id: String,
    /// Sender's stable identifier.
    pub sender_id: String,
    /// Receiver's stable identifier.
    pub receiver_id: String,
    /// Plaintext payload bytes.
    pub content: Vec<u8>,
    /// Timestamp, milliseconds since the Unix epoch (UTC).
    pub timestamp: u64,
    /// Delivery state.
    pub status: MessageStatus,
}

impl Clone for Message {
    /// Cloning keeps every field.
    fn clone(&self) -> (r: Self)
        ensures
            r@ == self@,
    {
        let mut content: Vec<u8> = Vec::new();
        let n = self.content.len();
        for i in 0..n
            invariant
                n == self.content@.len(),
                content@ =~= self.content@.take(i as int),
        {
            content.push(self.content[i]);
            proof {
                assert(content@ =~= self.content@.take(i + 1));
            }
        }
        proof {
            assert(self.content@.take(n as int) =~= self.content@);
        }
        Message {
            id: self.id.clone(),
            conversation_id: self.conversation_id.clone(),
            sender_id: self.sender_id.clone(),
            receiver_id: self.receiver_id.clone(),
            content,
            timestamp: self.timestamp,
            status: self.status,
        }
    }
}

/// A file-transfer row.
#[derive(Debug)]
pub struct File {
    /// Unique identifier of the transfer.
    pub id: String,
    /// Sender's stable identifier.
    pub sender_id: String,
    /// Receiver's stable identifier.
    pub receiver_id: String,
    /// Name of the file.
    pub filename: String,
    /// Total plaintext size in bytes; non-negative.
    pub size: i64,
    /// Hex SHA-256 checksum of the full plaintext.
    pub checksum: String,
    /// Local path of the file.
    pub path: String,
    /// Timestamp, milliseconds since the Unix epoch (UTC).
    pub timestamp: u64,
    /// Transfer state; Complete and Failed are terminal.
    pub status: FileStatus,
}

impl File {
    /// A file row carries a non-negative size.
    pub open spec fn wf(self) -> bool {
        self.size >= 0
    }
}

impl Clone for File {
    /// Cloning keeps every field.
    fn clone(&self) -> (r: Self)
        ensures
            r == *self,
    {
        File {
            id: self.id.clone(),
            sender_id: self.sender_id.clone(),
            receiver_id: self.receiver_id.clone(),
            filename: self.filename.clone(),
            size: self.size,
            checksum: self.checksum.clone(),
            path: self.path.clone(),
            timestamp: self.timestamp,
            status: self.status,
        }
    }
}

/// The mathematical content of a message row, with strings and bytes as
/// sequences.
pub struct MessageView {
    /// Unique identifier.
    pub id: Seq<char>,
    /// Conversation the message belongs to.
    pub conversation_id: Seq<char>,
    /// Sender's stable identifier.
    pub sender_id: Seq<char>,
    /// Receiver's stable identifier.
    pub receiver_id: Seq<char>,
    /// Plaintext payload bytes.
    pub content: Seq<u8>,
    /// Timestamp, milliseconds since the Unix epoch (UTC).
    pub timestamp: u64,
    /// Delivery state.
    pub status: MessageStatus,
}

impl View for Message {
    type V = MessageView;

    open spec fn view(&self) -> MessageView {
        MessageView {
            id: self.id@,
            conversation_id: self.conversation_id@,
            sender_id: self.sender_id@,
            receiver_id: self.receiver_id@,
            content: self.content@,
            timestamp: self.timestamp,
            status: self.status,
        }
    }
}

/// Whether a device sequence is ordered by last-seen time, newest first.
pub open spec fn devices_sorted(s: Seq<Device>) -> bool {
    forall|i: int, j: int| #![trigger s[i], s[j]] 0 <= i <= j < s.len() ==> s[i].last_seen >= s[j].last_seen
}

/// Whether the device identifiers in a sequence are unique.
pub open spec fn device_ids_unique(s: Seq<Device>) -> bool {
    forall|i: int, j: int| #![trigger s[i], s[j]] 0 <= i < j < s.len() ==> s[i].id@ != s[j].id@
}

/// Whether some device in the sequence carries this identifier.
pub open spec fn has_device(s: Seq<Device>, id: Seq<char>) -> bool {
    exists|i: int| 0 <= i < s.len() && #[trigger] s[i].id@ == id
}

/// Whether a message sequence is ordered by timestamp, oldest first.
pub open spec fn messages_sorted(s: Seq<Message>) -> bool {
    forall|i: int, j: int| #![trigger s[i], s[j]] 0 <= i <= j < s.len() ==> s[i].timestamp <= s[j].timestamp
}

/// Whether the message identifiers in a sequence are unique.
pub open spec fn message_ids_unique(s: Seq<Message>) -> bool {
    forall|i: int, j: int| #![trigger s[i], s[j]] 0 <= i < j < s.len() ==> s[i].id@ != s[j].id@
}

/// Whether some message in the sequence carries this identifier.
pub open spec fn has_message(s: Seq<Message>, id: Seq<char>) -> bool {
    exists|i: int| 0 <= i < s.len() && #[trigger] s[i].id@ == id
}

/// Whether a file sequence is ordered by timestamp, newest first.
pub open spec fn files_sorted(s: Seq<File>) -> bool {
    forall|i: int, j: int| #![trigger s[i], s[j]] 0 <= i <= j < s.len() ==> s[i].timestamp >= s[j].timestamp
}

/// Whether the file identifiers in a sequence are unique.
pub open spec fn file_ids_unique(s: Seq<File>) -> bool {
    forall|i: int, j: int| #![trigger s[i], s[j]] 0 <= i < j < s.len() ==> s[i].id@ != s[j].id@
}

/// Whether some file in the sequence carries this identifier.
pub open spec fn has_file(s: Seq<File>, id: Seq<char>) -> bool {
    exists|i: int| 0 <= i < s.len() && #[trigger] s[i].id@ == id
}

/// The store of durable records the event core owns. It mirrors the
/// persisted tables: peers keyed by identifier, append-only conversation
/// history, and file-transfer rows.
pub struct Store {
    /// Peer records, ordered by last-seen time, newest first.
    pub devices: Vec<Device>,
    /// Message rows, ordered by timestamp, oldest first.
    pub messages: Vec<Message>,
    /// File rows, ordered by timestamp, newest first.
    pub files: Vec<File>,
}

impl Store {
    /// The store's invariants: identifiers unique per table, every peer
    /// trusted only with a fingerprint, file sizes non-negative, and each
    /// table in the order its query promises.
    pub open spec fn wf(self) -> bool {
        &&& devices_sorted(self.devices@)
        &&& device_ids_unique(self.devices@)
        &&& forall|i: int| 0 <= i < self.devices@.len() ==> (#[trigger] self.devices@[i]).wf()
        &&& messages_sorted(self.messages@)
        &&& message_ids_unique(self.messages@)
        &&& files_sorted(self.files@)
        &&& file_ids_unique(self.files@)
        &&& forall|i: int| 0 <= i < self.files@.len() ==> (#[trigger] self.files@[i]).wf()
    }

    /// An empty store.
    pub fn new() -> (s: Store)
        ensures
            s.wf(),
            s.devices@.len() == 0,
            s.messages@.len() == 0,
            s.files@.len() == 0,
    {
        Store { devices: Vec::new(), messages: Vec::new(), files: Vec::new() }
    }

    /// Inserts or replaces a peer record, keyed on its identifier. The new
    /// record is stored, any previous record under the same identifier is
    /// gone, every other record stays, and the newest-first order is kept.
    #[verifier::rlimit(100)]
    pub fn add_device(&mut self, device: Device) -> (r: Result<(), DatabaseError>)
        requires
            old(self).wf(),
            device.wf(),
        ensures
            final(self).wf(),
            r is Ok,
            final(self).messages == old(self).messages,
            final(self).files == old(self).files,
            final(self).devices@.contains(device),
            forall|x: Device|
                x.id@ != device.id@ ==> (final(self).devices@.contains(x) <==> old(
                    self,
                ).devices@.contains(x)),
            forall|x: Device| final(self).devices@.contains(x) && x.id@ == device.id@ ==> x == device,
            final(self).devices@.len() == old(self).devices@.len() + (if has_device(
                old(self).devices@,
                device.id@,
            ) {
                0int
            } else {
                1int
            }),
    {
        let ghost pre = self.devices@;
        // Drop any previous record with this identifier.
        let mut j: usize = 0;
        let n = self.devices.len();
        let mut found: bool = false;
        while j < n && !found
            invariant
                old(self).wf(),
                *self == *old(self),
                n == self.devices@.len(),
                0 <= j <= n,
                found ==> j < n && self.devices@[j as int].id@ == device.id@,
                !found ==> forall|t: int| 0 <= t < j ==> #[trigger] self.devices@[t].id@ != device.id@,
            decreases n - j + (if found { 0int } else { 1int }),
        {
            if str_eq(self.devices[j].id.as_str(), device.id.as_str()) {
                found = true;
            } else {
                j = j + 1;
            }
        }
        if found {
            self.devices.remove(j);
            proof {
                assert forall|x: Device| x.id@ != device.id@ implies (self.devices@.contains(x)
                    <==> pre.contains(x)) by {
                    if pre.contains(x) {
                        let t = choose|t: int| 0 <= t < pre.len() && pre[t] == x;
                        if t < j {
                            assert(self.devices@[t] == x);
                        } else if t > j {
                            assert(self.devices@[t - 1] == x);
                        }
                    }
                    if self.devices@.contains(x) {
                        let t = choose|t: int|
                            0 <= t < self.devices@.len() && self.devices@[t] == x;
                        if t < j {
                            assert(pre[t] == x);
                        } else {
                            assert(pre[t + 1] == x);
                        }
                    }
                }
                assert forall|x: Device| self.devices@.contains(x) implies x.id@ != device.id@ by {
                    let t = choose|t: int| 0 <= t < self.devices@.len() && self.devices@[t] == x;
                    if t < j {
                        assert(pre[t] == x);
                        assert(pre[t].id@ != pre[j as int].id@);
                    } else {
                        assert(pre[t + 1] == x);
                        assert(pre[j as int].id@ != pre[t + 1].id@);
                    }
                }
            }
        } else {
            proof {
                assert(!has_device(pre, device.id@));
                assert forall|x: Device| self.devices@.contains(x) implies x.id@ != device.id@ by {
                    let t = choose|t: int| 0 <= t < self.devices@.len() && self.devices@[t] == x;
                }
            }
        }
        let ghost mid = self.devices@;
        // Insert at the first position whose record was seen earlier.
        let m = self.devices.len();
        let mut k: usize = 0;
        while k < m && self.devices[k].last_seen >= device.last_seen
            invariant
                m == self.devices@.len(),
                0 <= k <= m,
                devices_sorted(self.devices@),
                forall|t: int| 0 <= t < k ==> #[trigger] self.devices@[t].last_seen
                    >= device.last_seen,
            decreases m - k,
        {
            k = k + 1;
        }
        self.devices.insert(k, device);
        proof {
            assert forall|x: Device| mid.contains(x) implies self.devices@.contains(x) by {
                let t = choose|t: int| 0 <= t < mid.len() && mid[t] == x;
                if t < k {
                    assert(self.devices@[t] == x);
                } else {
                    assert(self.devices@[t + 1] == x);
                }
            }
            assert forall|x: Device| self.devices@.contains(x) && x != device implies mid.contains(
                x,
            ) by {
                let t = choose|t: int| 0 <= t < self.devices@.len() && self.devices@[t] == x;
                if t < k {
                    assert(mid[t] == x);
                } else {
                    assert(mid[t - 1] == x);
                }
            }
            assert(self.devices@[k as int] == device);
            assert(self.devices@.contains(device));
            assert(devices_sorted(self.devices@)) by {
                assert forall|a: int, b: int|
                    #![trigger self.devices@[a], self.devices@[b]]
                    0 <= a <= b < self.devices@.len() implies self.devices@[a].last_seen
                    >= self.devices@[b].last_seen by {
                    if a < k && b > k {
                        assert(mid[a].last_seen >= mid[b - 1].last_seen);
                    } else if a == k && b > k {
                        assert(mid[b - 1].last_seen <= mid[k as int].last_seen);
                        assert(mid[k as int].last_seen < device.last_seen);
                    }
                }
            }
            assert(device_ids_unique(self.devices@)) by {
                assert forall|a: int, b: int|
                    #![trigger self.devices@[a], self.devices@[b]]
                    0 <= a < b < self.devices@.len() implies self.devices@[a].id@
                    != self.devices@[b].id@ by {
                    if a != k && b != k {
                        let a2 = if a < k { a } else { a - 1 };
                        let b2 = if b < k { b } else { b - 1 };
                        assert(mid[a2] == self.devices@[a]);
                        assert(mid[b2] == self.devices@[b]);
                    } else if a == k {
                        assert(mid[b - 1] == self.devices@[b]);
                        assert(mid.contains(mid[b - 1]));
                    } else {
                        assert(mid[a] == self.devices@[a]);
                        assert(mid.contains(mid[a]));
                    }
                }
            }
        }
        Ok(())
    }

    /// The peer record under an identifier, if one is stored.
    pub fn get_device(&self, id: &str) -> (r: Option<Device>)
        requires
            self.wf(),
        ensures
            r matches Some(d) ==> self.devices@.contains(d) && d.id@ == id@,
            r is Some <==> has_device(self.devices@, id@),
    {
        let n = self.devices.len();
        let mut j: usize = 0;
        while j < n
            invariant
                self.wf(),
                n == self.devices@.len(),
                0 <= j <= n,
                forall|t: int| 0 <= t < j ==> #[trigger] self.devices@[t].id@ != id@,
            decreases n - j,
        {
            if str_eq(self.devices[j].id.as_str(), id) {
                let d = self.devices[j].clone();
                return Some(d);
            }
            j = j + 1;
        }
        None
    }

    /// All peer records, newest first.
    pub fn get_devices(&self) -> (r: Vec<Device>)
        ensures
            r@ == self.devices@,
    {
        let r = self.devices.clone();
        proof {
            assert forall|i: int| 0 <= i < r@.len() implies r@[i] == self.devices@[i] by {
                assert(cloned::<Device>(self.devices@[i], r@[i]));
            }
            assert(r@ =~= self.devices@);
        }
        r
    }

    /// Appends a message row. Rows are append-only and keyed by identifier:
    /// a row under a taken identifier is refused, any other lands in
    /// timestamp order and every existing row stays where it was.
    pub fn add_message(&mut self, message: Message) -> (r: Result<(), DatabaseError>)
        requires
            old(self).wf(),
        ensures
            final(self).wf(),
            final(self).devices == old(self).devices,
            final(self).files == old(self).files,
            r is Ok <==> !has_message(old(self).messages@, message.id@),
            r is Ok ==> exists|k: int|
                0 <= k <= old(self).messages@.len() && final(self).messages@ == old(
                    self,
                ).messages@.insert(k, message),
            r is Err ==> *final(self) == *old(self) && (r matches Err(e) && e matches
                DatabaseError::QueryFailed),
    {
        let n = self.messages.len();
        let mut j: usize = 0;
        while j < n
            invariant
                old(self).wf(),
                *self == *old(self),
                n == self.messages@.len(),
                0 <= j <= n,
                forall|t: int| 0 <= t < j ==> #[trigger] self.messages@[t].id@ != message.id@,
            decreases n - j,
        {
            if str_eq(self.messages[j].id.as_str(), message.id.as_str()) {
                return Err(DatabaseError::QueryFailed);
            }
            j = j + 1;
        }
        let mut k: usize = 0;
        while k < n && self.messages[k].timestamp <= message.timestamp
            invariant
                *self == *old(self),
                old(self).wf(),
                n == self.messages@.len(),
                0 <= k <= n,
                forall|t: int| 0 <= t < k ==> #[trigger] self.messages@[t].timestamp
                    <= message.timestamp,
            decreases n - k,
        {
            k = k + 1;
        }
        let ghost pre = self.messages@;
        self.messages.insert(k, message);
        proof {
            assert(0 <= k as int <= pre.len() && self.messages@ == pre.insert(k as int, message));
            assert(messages_sorted(self.messages@)) by {
                assert forall|a: int, b: int|
                    #![trigger self.messages@[a], self.messages@[b]]
                    0 <= a <= b < self.messages@.len() implies self.messages@[a].timestamp
                    <= self.messages@[b].timestamp by {
                    if a < k && b > k {
                        assert(pre[a].timestamp <= pre[b - 1].timestamp);
                    } else if a == k && b > k {
                        assert(message.timestamp < pre[k as int].timestamp);
                        assert(pre[k as int].timestamp <= pre[b - 1].timestamp);
                    }
                }
            }
            assert(message_ids_unique(self.messages@)) by {
                assert forall|a: int, b: int|
                    #![trigger self.messages@[a], self.messages@[b]]
                    0 <= a < b < self.messages@.len() implies self.messages@[a].id@
                    != self.messages@[b].id@ by {
                    if a != k && b != k {
                        let a2 = if a < k { a } else { a - 1 };
                        let b2 = if b < k { b } else { b - 1 };
                        assert(pre[a2] == self.messages@[a]);
                        assert(pre[b2] == self.messages@[b]);
                    } else if a == k {
                        assert(pre[b - 1] == self.messages@[b]);
                    } else {
                        assert(pre[a] == self.messages@[a]);
                    }
                }
            }
        }
        Ok(())
    }

    /// The messages of one conversation, oldest first.
    #[verifier::loop_isolation(false)]
    pub fn get_messages(&self, conversation_id: &str) -> (r: Vec<Message>)
        requires
            self.wf(),
        ensures
            ({
                let expected = self.messages@.filter(
                    |m: Message| m.conversation_id@ == conversation_id@,
                );
                r@.len() == expected.len() && (forall|i: int|
                    0 <= i < r@.len() ==> #[trigger] r@[i]@ == expected[i]@) && messages_sorted(
                    r@,
                )
            }),
    {
        let ghost pred = |m: Message| m.conversation_id@ == conversation_id@;
        let mut out: Vec<Message> = Vec::new();
        let n = self.messages.len();
        for i in 0..n
            invariant
                self.wf(),
                n == self.messages@.len(),
                out@.len() == self.messages@.take(i as int).filter(pred).len(),
                forall|t: int|
                    0 <= t < out@.len() ==> #[trigger] out@[t]@ == self.messages@.take(
                        i as int,
                    ).filter(pred)[t]@,
                forall|t: int|
                    0 <= t < out@.len() ==> #[trigger] out@[t].timestamp == self.messages@.take(
                        i as int,
                    ).filter(pred)[t].timestamp,
                messages_sorted(out@),
        {
            proof {
                reveal(Seq::filter);
                assert(self.messages@.take(i + 1).drop_last() =~= self.messages@.take(i as int));
                assert(self.messages@.take(i + 1).last() == self.messages@[i as int]);
                if pred(self.messages@[i as int]) {
                    assert(self.messages@.take(i + 1).filter(pred) =~= self.messages@.take(
                        i as int,
                    ).filter(pred).push(self.messages@[i as int]));
                } else {
                    assert(self.messages@.take(i + 1).filter(pred) =~= self.messages@.take(
                        i as int,
                    ).filter(pred));
                }
            }
            if str_eq(self.messages[i].conversation_id.as_str(), conversation_id) {
                let m = self.messages[i].clone();
                proof {
                    lemma_filter_timestamp_bound(self.messages@, pred, i as int);
                }
                out.push(m);
            }
        }
        proof {
            assert(self.messages@.take(n as int) =~= self.messages@);
        }
        out
    }

    /// Adds a file row. Rows are keyed by identifier: a row under a taken
    /// identifier is refused, any other lands in newest-first order and
    /// every existing row stays where it was.
    pub fn add_file(&mut self, file: File) -> (r: Result<(), DatabaseError>)
        requires
            old(self).wf(),
            file.wf(),
        ensures
            final(self).wf(),
            final(self).devices == old(self).devices,
            final(self).messages == old(self).messages,
            r is Ok <==> !has_file(old(self).files@, file.id@),
            r is Ok ==> exists|k: int|
                0 <= k <= old(self).files@.len() && final(self).files@ == old(self).files@.insert(
                    k,
                    file,
                ),
            r is Err ==> *final(self) == *old(self) && (r matches Err(e) && e matches
                DatabaseError::QueryFailed),
    {
        let n = self.files.len();
        let mut j: usize = 0;
        while j < n
            invariant
                old(self).wf(),
                *self == *old(self),
                n == self.files@.len(),
                0 <= j <= n,
                forall|t: int| 0 <= t < j ==> #[trigger] self.files@[t].id@ != file.id@,
            decreases n - j,
        {
            if str_eq(self.files[j].id.as_str(), file.id.as_str()) {
                return Err(DatabaseError::QueryFailed);
            }
            j = j + 1;
        }
        let mut k: usize = 0;
        while k < n && self.files[k].timestamp >= file.timestamp
            invariant
                *self == *old(self),
                old(self).wf(),
                n == self.files@.len(),
                0 <= k <= n,
                forall|t: int| 0 <= t < k ==> #[trigger] self.files@[t].timestamp >= file.timestamp,
            decreases n - k,
        {
            k = k + 1;
        }
        let ghost pre = self.files@;
        self.files.insert(k, file);
        proof {
            assert(0 <= k as int <= pre.len() && self.files@ == pre.insert(k as int, file));
            assert(files_sorted(self.files@)) by {
                assert forall|a: int, b: int|
                    #![trigger self.files@[a], self.files@[b]]
                    0 <= a <= b < self.files@.len() implies self.files@[a].timestamp
                    >= self.files@[b].timestamp by {
                    if a < k && b > k {
                        assert(pre[a].timestamp >= pre[b - 1].timestamp);
                    } else if a == k && b > k {
                        assert(file.timestamp > pre[k as int].timestamp);
                        assert(pre[k as int].timestamp >= pre[b - 1].timestamp);
                    }
                }
            }
            assert(file_ids_unique(self.files@)) by {
                assert forall|a: int, b: int|
                    #![trigger self.files@[a], self.files@[b]]
                    0 <= a < b < self.files@.len() implies self.files@[a].id@
                    != self.files@[b].id@ by {
                    if a != k && b != k {
                        let a2 = if a < k { a } else { a - 1 };
                        let b2 = if b < k { b } else { b - 1 };
                        assert(pre[a2] == self.files@[a]);
                        assert(pre[b2] == self.files@[b]);
                    } else if a == k {
                        assert(pre[b - 1] == self.files@[b]);
                    } else {
                        assert(pre[a] == self.files@[a]);
                    }
                }
            }
        }
        Ok(())
    }

    /// Moves a file row to a new status. A terminal row (Complete or
    /// Failed) never changes: asking it to is refused as an integrity
    /// error. A missing identifier changes nothing, as a database update
    /// that matched no row.
    pub fn update_file_status(&mut self, id: &str, status: FileStatus) -> (r: Result<
        (),
        DatabaseError,
    >)
        requires
            old(self).wf(),
        ensures
            final(self).wf(),
            final(self).devices == old(self).devices,
            final(self).messages == old(self).messages,
            !has_file(old(self).files@, id@) ==> r is Ok && *final(self) == *old(self),
            forall|j: int|
                0 <= j < old(self).files@.len() && old(self).files@[j].id@ == id@ ==> (
                if file_status_can_advance(old(self).files@[j].status, status) {
                    r is Ok && final(self).files@ == old(self).files@.update(
                        j,
                        (File { status, ..old(self).files@[j] }),
                    )
                } else {
                    r is Err && *final(self) == *old(self)
                }),
            r is Err ==> (r matches Err(e) && e matches DatabaseError::IntegrityError { .. }),
    {
        let n = self.files.len();
        let mut j: usize = 0;
        while j < n
            invariant
                old(self).wf(),
                *self == *old(self),
                n == self.files@.len(),
                0 <= j <= n,
                forall|t: int| 0 <= t < j ==> #[trigger] self.files@[t].id@ != id@,
            decreases n - j,
        {
            if str_eq(self.files[j].id.as_str(), id) {
                let current = self.files[j].status;
                let allowed = match current {
                    FileStatus::Complete => status == FileStatus::Complete,
                    FileStatus::Failed => status == FileStatus::Failed,
                    _ => true,
                };
                if !allowed {
                    return Err(
                        DatabaseError::IntegrityError {
                            message: String::from_str("file status is terminal"),
                        },
                    );
                }
                let mut row = self.files.remove(j);
                row.status = status;
                self.files.insert(j, row);
                proof {
                    assert(row == (File { status, ..old(self).files@[j as int] }));
                    assert(self.files@ =~= old(self).files@.update(
                        j as int,
                        (File { status, ..old(self).files@[j as int] }),
                    ));
                    assert forall|t: int|
                        0 <= t < old(self).files@.len() && old(self).files@[t].id@ == id@ implies t
                        == j as int by {
                        if t != j as int {
                            assert(old(self).files@[t].id@ != old(self).files@[j as int].id@);
                        }
                    }
                }
                return Ok(());
            }
            j = j + 1;
        }
        Ok(())
    }

    /// Moves a message row to a new status. The status only moves forward
    /// in the order Sent, Delivered, Read: a backward move is refused as an
    /// integrity error. A missing identifier changes nothing.
    pub fn update_message_status(&mut self, id: &str, status: MessageStatus) -> (r: Result<
        (),
        DatabaseError,
    >)
        requires
            old(self).wf(),
        ensures
            final(self).wf(),
            final(self).devices == old(self).devices,
            final(self).files == old(self).files,
            !has_message(old(self).messages@, id@) ==> r is Ok && *final(self) == *old(self),
            forall|j: int|
                0 <= j < old(self).messages@.len() && old(self).messages@[j].id@ == id@ ==> (
                if message_status_can_advance(old(self).messages@[j].status, status) {
                    r is Ok && final(self).messages@ == old(self).messages@.update(
                        j,
                        (Message { status, ..old(self).messages@[j] }),
                    )
                } else {
                    r is Err && *final(self) == *old(self)
                }),
            r is Err ==> (r matches Err(e) && e matches DatabaseError::IntegrityError { .. }),
    {
        let n = self.messages.len();
        let mut j: usize = 0;
        while j < n
            invariant
                old(self).wf(),
                *self == *old(self),
                n == self.messages@.len(),
                0 <= j <= n,
                forall|t: int| 0 <= t < j ==> #[trigger] self.messages@[t].id@ != id@,
            decreases n - j,
        {
            if str_eq(self.messages[j].id.as_str(), id) {
                if self.messages[j].status.rank() > status.rank() {
                    return Err(
                        DatabaseError::IntegrityError {
                            message: String::from_str("message status only moves forward"),
                        },
                    );
                }
                let mut row = self.messages.remove(j);
                row.status = status;
                self.messages.insert(j, row);
                proof {
                    assert(row == (Message { status, ..old(self).messages@[j as int] }));
                    assert(self.messages@ =~= old(self).messages@.update(
                        j as int,
                        (Message { status, ..old(self).messages@[j as int] }),
                    ));
                    assert forall|t: int|
                        0 <= t < old(self).messages@.len() && old(self).messages@[t].id@
                        == id@ implies t == j as int by {
                        if t != j as int {
                            assert(old(self).messages@[t].id@ != old(self).messages@[j as int].id@);
                        }
                    }
                }
                return Ok(());
            }
            j = j + 1;
        }
        Ok(())
    }

    /// All file rows, newest first.
    pub fn get_files(&self) -> (r: Vec<File>)
        ensures
            r@ == self.files@,
    {
        let r = self.files.clone();
        proof {
            assert forall|i: int| 0 <= i < r@.len() implies r@[i] == self.files@[i] by {
                assert(cloned::<File>(self.files@[i], r@[i]));
            }
            assert(r@ =~= self.files@);
        }
        r
    }
}

/// Every element the filter keeps comes from the sequence it was applied to.
proof fn lemma_filter_element_from<A>(s: Seq<A>, pred: spec_fn(A) -> bool, t: int)
    requires
        0 <= t < s.filter(pred).len(),
    ensures
        exists|w: int| 0 <= w < s.len() && s[w] == s.filter(pred)[t],
    decreases s.len(),
{
    reveal(Seq::filter);
    if s.len() > 0 {
        let sub = s.drop_last().filter(pred);
        if t < sub.len() {
            lemma_filter_element_from(s.drop_last(), pred, t);
            let w = choose|w: int| 0 <= w < s.drop_last().len() && s.drop_last()[w] == sub[t];
            assert(s[w] == s.filter(pred)[t]);
        } else {
            assert(s[s.len() - 1] == s.filter(pred)[t]);
        }
    }
}

/// In a timestamp-sorted message sequence, everything the filter kept from a
/// prefix is no newer than the element after the prefix.
proof fn lemma_filter_timestamp_bound(s: Seq<Message>, pred: spec_fn(Message) -> bool, i: int)
    requires
        messages_sorted(s),
        0 <= i < s.len(),
    ensures
        forall|t: int|
            0 <= t < s.take(i).filter(pred).len() ==> (#[trigger] s.take(i).filter(
                pred,
            )[t]).timestamp <= s[i].timestamp,
{
    assert forall|t: int| 0 <= t < s.take(i).filter(pred).len() implies (#[trigger] s.take(
        i,
    ).filter(pred)[t]).timestamp <= s[i].timestamp by {
        lemma_filter_element_from(s.take(i), pred, t);
        let x = s.take(i).filter(pred)[t];
        let w = choose|w: int| 0 <= w < s.take(i).len() && s.take(i)[w] == x;
        assert(s[w] == x);
    }
}

/// Every trusted peer of a well-formed store carries a non-empty
/// fingerprint.
pub proof fn lemma_trusted_devices_have_fingerprints(s: Store, i: int)
    requires
        s.wf(),
        0 <= i < s.devices@.len(),
        s.devices@[i].trusted,
    ensures
        s.devices@[i].fingerprint@.len() > 0,
{
}

} // verus!
