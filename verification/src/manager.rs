//! The session and event core: a single worker owns every session, transfer,
//! the peer registry and the settings, consumes commands and transport
//! callbacks, and emits state updates. The application shell runs the loop:
//! it feeds events in, performs the returned actions (packets out, radio,
//! disk) and forwards the returned updates to observers.

use vstd::prelude::*;
use crate::bluetooth::DeviceInfo;
use crate::crypto::{calculate_checksum, hex_of, sha256_of, AEAD_LEN_MAX};
use crate::events::{Action, ErrorCode, Event, StateUpdate};
use crate::pairing::PairingSession;
use crate::session::{open_packet, seal_packet, sealed_packet_of, Session, SessionState};
use crate::settings::SettingsManager;
use crate::store::{
    has_device, has_file, has_message, Device, File, FileStatus, Message, MessageStatus, Store,
};
use crate::transfer::{chunk_count_of, FileTransfer, ABORT_OFFSET, CHUNK_SIZE};
use crate::wire::{
    ack_payload_of, chunk_payload_of, decode_ack_payload, decode_chunk_payload,
    decode_header_payload, encode_ack_payload, encode_chunk_payload, encode_header_payload,
    header_payload_of, lp_ok, str_eq, string_from_utf8, FileAckInfo, FileChunkInfo,
    FileHeaderInfo, PacketKind,
};

verus! {

/// Relies on uuid::Uuid::new_v4 and its Display form: a fresh random
/// version-4 UUID, hyphenated, 36 characters. Nothing is assumed about
/// which one.
#[verifier::external_body]
fn new_uuid() -> (r: String)
    ensures
        r@.len() == 36,
{
    uuid::Uuid::new_v4().to_string()
}

/// Relies on chrono::Utc::now and DateTime::timestamp_millis: the current
/// UTC time in milliseconds since the Unix epoch. Nothing is assumed about
/// its value; the call aborts on a system clock before 1970 — a machine
/// condition no input could exclude.
#[verifier::external_body]
fn now_timestamp_millis() -> i64 {
    chrono::Utc::now().timestamp_millis()
}

/// The current UTC time in milliseconds since the Unix epoch, clamped to be
/// non-negative.
fn now_millis() -> u64 {
    let t = now_timestamp_millis();
    if t < 0 {
        0
    } else {
        t as u64
    }
}

/// Removing a session keeps the session invariants: unique identifiers, at
/// most one active session per peer, well-formed and none closed.
proof fn lemma_session_remove_keeps_invariants(pre: Seq<Session>, j: int)
    requires
        0 <= j < pre.len(),
        session_ids_unique(pre),
        one_active_per_peer(pre),
        forall|i: int| 0 <= i < pre.len() ==> (#[trigger] pre[i]).wf(),
        forall|i: int| 0 <= i < pre.len() ==> (#[trigger] pre[i]).state != SessionState::Closed,
    ensures
        session_ids_unique(pre.remove(j)),
        one_active_per_peer(pre.remove(j)),
        forall|i: int| 0 <= i < pre.remove(j).len() ==> (#[trigger] pre.remove(j)[i]).wf(),
        forall|i: int|
            0 <= i < pre.remove(j).len() ==> (#[trigger] pre.remove(j)[i]).state
                != SessionState::Closed,
{
    let s = pre.remove(j);
    assert forall|a: int, b: int| #![trigger s[a], s[b]] 0 <= a < b < s.len() implies s[a].id@
        != s[b].id@ && !(s[a].state == SessionState::Active && s[b].state == SessionState::Active
        && s[a].peer_id@ == s[b].peer_id@) by {
        let a2 = if a < j {
            a
        } else {
            a + 1
        };
        let b2 = if b < j {
            b
        } else {
            b + 1
        };
        assert(s[a] == pre[a2]);
        assert(s[b] == pre[b2]);
    }
    assert forall|i: int| 0 <= i < s.len() implies (#[trigger] s[i]).wf() && s[i].state
        != SessionState::Closed by {
        let i2 = if i < j {
            i
        } else {
            i + 1
        };
        assert(s[i] == pre[i2]);
    }
}

/// Updating one transfer in place, keeping its identifier and session,
/// keeps the transfer invariants.
proof fn lemma_transfer_update_keeps_ids(pre: Seq<FileTransfer>, post: Seq<FileTransfer>, j: int)
    requires
        0 <= j < pre.len(),
        post.len() == pre.len(),
        forall|i: int| 0 <= i < pre.len() && i != j ==> post[i] == #[trigger] pre[i],
        post[j].id == pre[j].id,
        transfer_ids_unique(pre),
        post[j].wf(),
        forall|i: int| 0 <= i < pre.len() ==> (#[trigger] pre[i]).wf(),
    ensures
        transfer_ids_unique(post),
        forall|i: int| 0 <= i < post.len() ==> (#[trigger] post[i]).wf(),
{
    assert forall|a: int, b: int| #![trigger post[a], post[b]] 0 <= a < b < post.len() implies
        post[a].id@ != post[b].id@ by {
        assert(pre[a].id@ != pre[b].id@);
    }
    assert forall|i: int| 0 <= i < post.len() implies (#[trigger] post[i]).wf() by {
        if i != j {
            assert(post[i] == pre[i]);
            assert(pre[i].wf());
        }
    }
}

/// Whether the session identifiers in a sequence are unique.
pub open spec fn session_ids_unique(s: Seq<Session>) -> bool {
    forall|i: int, j: int| #![trigger s[i], s[j]] 0 <= i < j < s.len() ==> s[i].id@ != s[j].id@
}

/// Whether some session in the sequence carries this identifier.
pub open spec fn has_session(s: Seq<Session>, id: Seq<char>) -> bool {
    exists|i: int| 0 <= i < s.len() && #[trigger] s[i].id@ == id
}

/// At most one active session per peer.
pub open spec fn one_active_per_peer(s: Seq<Session>) -> bool {
    forall|i: int, j: int| #![trigger s[i], s[j]]
        0 <= i < j < s.len() && s[i].state == SessionState::Active && s[j].state
            == SessionState::Active ==> s[i].peer_id@ != s[j].peer_id@
}

/// Whether the transfer identifiers in a sequence are unique.
pub open spec fn transfer_ids_unique(s: Seq<FileTransfer>) -> bool {
    forall|i: int, j: int| #![trigger s[i], s[j]] 0 <= i < j < s.len() ==> s[i].id@ != s[j].id@
}

/// Whether some transfer in the sequence carries this identifier.
pub open spec fn has_transfer(s: Seq<FileTransfer>, id: Seq<char>) -> bool {
    exists|i: int| 0 <= i < s.len() && #[trigger] s[i].id@ == id
}

/// No action and exactly one error update with the given code.
pub open spec fn single_error(
    actions: Seq<Action>,
    updates: Seq<StateUpdate>,
    code: ErrorCode,
) -> bool {
    &&& actions.len() == 0
    &&& updates.len() == 1
    &&& (updates[0] matches StateUpdate::Error { code: c, .. } && c == code)
}

/// The session after one more packet was sent.
pub open spec fn bumped(s: Session) -> Session {
    Session { send_counter: (s.send_counter + 1) as u64, ..s }
}

/// The action that puts a sealed message packet on the session's wire,
/// carrying the session's next send counter.
pub open spec fn message_packet_action(
    s: Session,
    session_id: Seq<char>,
    text: Seq<char>,
    a: Action,
) -> bool {
    a matches Action::SendPacket { session_id: sid, data } && sid@ == session_id && data@
        == sealed_packet_of(
        s.key@,
        session_id,
        PacketKind::Message,
        (s.send_counter + 1) as u64,
        vstd::utf8::encode_utf8(text),
    )
}

/// A message row with the given plaintext, peer and sender landed in the
/// store, everything else staying put.
pub open spec fn message_row_added(
    pre: Seq<Message>,
    post: Seq<Message>,
    local: Seq<char>,
    peer: Seq<char>,
    content: Seq<u8>,
) -> bool {
    exists|k: int, m: Message| #![auto]
        0 <= k <= pre.len() && post == pre.insert(k, m) && m.content@ == content && m.status
            == MessageStatus::Sent && m.conversation_id@ == peer && m.receiver_id@ == peer
            && m.sender_id@ == local
}

/// Whether a session can carry one more sealed payload of this size.
pub open spec fn can_seal(s: Session, payload: Seq<u8>) -> bool {
    &&& s.state == SessionState::Active
    &&& s.send_counter < u64::MAX
    &&& payload.len() <= AEAD_LEN_MAX
}

/// An update sequence that is one error update, whatever its code.
pub open spec fn some_error(updates: Seq<StateUpdate>) -> bool {
    updates.len() == 1 && (updates[0] matches StateUpdate::Error { .. })
}

/// What sending a message over the session at position `i` does: over a
/// live, unexhausted session, the packet goes out bound to the next counter
/// and a row lands in the store (or one error update says it could not);
/// over an inactive session nothing changes but one error update.
pub open spec fn send_message_outcome(
    pre: CoreManager,
    post: CoreManager,
    session_id: Seq<char>,
    text: Seq<char>,
    actions: Seq<Action>,
    updates: Seq<StateUpdate>,
    i: int,
) -> bool {
    let s = pre.sessions@[i];
    let content = vstd::utf8::encode_utf8(text);
    &&& (can_seal(s, content) ==> post.sessions@ == pre.sessions@.update(i, bumped(s))
        && actions.len() == 1 && message_packet_action(s, session_id, text, actions[0]) && (
    message_row_added(pre.store.messages@, post.store.messages@, pre.local_device_id@, s.peer_id@, content)
        || some_error(updates)))
    &&& (s.state != SessionState::Active ==> post == pre && single_error(
        actions,
        updates,
        ErrorCode::SessionError,
    ))
}

/// Whether a packet opens on the session as some payload bound to a counter
/// strictly newer than the last accepted one. Only such packets are
/// accepted; everything else — garbage, tampering, a replay, out-of-order
/// delivery — closes the session.
pub open spec fn packet_acceptable(s: Session, session_id: Seq<char>, data: Seq<u8>) -> bool {
    exists|k: PacketKind, c: u64, m: Seq<u8>| #![auto]
        m.len() <= AEAD_LEN_MAX && data == sealed_packet_of(s.key@, session_id, k, c, m) && c
            > s.recv_counter
}

/// An inbound message was recorded: a row with the received plaintext,
/// conversation and sender set to the peer, status Sent, plus an update
/// reporting the decoded text.
pub open spec fn inbound_message_recorded(
    pre: CoreManager,
    post: CoreManager,
    s: Session,
    m: Seq<u8>,
    updates: Seq<StateUpdate>,
) -> bool {
    &&& exists|k: int, row: Message| #![auto]
        0 <= k <= pre.store.messages@.len() && post.store.messages@ == pre.store.messages@.insert(
            k,
            row,
        ) && row.content@ == m && row.status == MessageStatus::Sent && row.conversation_id@
            == s.peer_id@ && row.sender_id@ == s.peer_id@ && row.receiver_id@
            == pre.local_device_id@
    &&& exists|u: int|
        0 <= u < updates.len() && (#[trigger] updates[u] matches StateUpdate::MessageReceived {
            session_id: sid,
            message,
            ..
        } && sid@ == s.id@ && message@ == vstd::utf8::decode_utf8(m))
}

/// One error update with the crypto code and nothing else among the
/// updates; the actions may close a transport.
pub open spec fn crypto_error_reported(updates: Seq<StateUpdate>) -> bool {
    &&& updates.len() == 1
    &&& (updates[0] matches StateUpdate::Error { code, .. } && code == ErrorCode::CryptoError)
}

/// A receiving-side transfer for the announced header landed, and its file
/// row with it (or one error update says the row could not be stored).
pub open spec fn inbound_transfer_opened(
    pre: CoreManager,
    post: CoreManager,
    session_id: Seq<char>,
    id: Seq<char>,
    name: Seq<char>,
    sum: Seq<char>,
    total: u64,
    updates: Seq<StateUpdate>,
) -> bool {
    let t = post.transfers@.last();
    &&& post.transfers@.len() == pre.transfers@.len() + 1
    &&& post.transfers@.take(pre.transfers@.len() as int) == pre.transfers@
    &&& t.id@ == id
    &&& t.session_id@ == session_id
    &&& t.filename@ == name
    &&& t.checksum@ == sum
    &&& t.total_size == total
    &&& t.sent_size == 0
    &&& !t.outbound
    &&& t.status == FileStatus::InProgress
    &&& (inbound_file_row_added(pre.store.files@, post.store.files@, id, name, sum, total)
        || some_error(updates))
}

/// A file row for a receiving transfer landed in the store.
pub open spec fn inbound_file_row_added(
    pre: Seq<File>,
    post: Seq<File>,
    id: Seq<char>,
    name: Seq<char>,
    sum: Seq<char>,
    total: u64,
) -> bool {
    exists|k: int, row: File| #![auto]
        0 <= k <= pre.len() && post == pre.insert(k, row) && row.id@ == id && row.filename@ == name
            && row.checksum@ == sum && row.size == total && row.status == FileStatus::InProgress
}

/// What an accepted chunk did to the receiving transfer at position `j`: the
/// bytes extend the buffer; a buffer that reaches the announced total is
/// judged by its checksum — Complete with the write action and the received
/// update when it matches, Failed with an error update when it does not.
pub open spec fn chunk_applied(
    pre: CoreManager,
    post: CoreManager,
    bytes: Seq<u8>,
    actions: Seq<Action>,
    updates: Seq<StateUpdate>,
    j: int,
) -> bool {
    let t0 = pre.transfers@[j];
    let t1 = post.transfers@[j];
    let grown = t0.data@ + bytes;
    &&& post.transfers@.len() == pre.transfers@.len()
    &&& t1.data@ == grown
    &&& t1.sent_size == t0.sent_size + bytes.len()
    &&& t1.id == t0.id
    &&& t1.checksum == t0.checksum
    &&& t1.total_size == t0.total_size
    &&& (t0.sent_size + bytes.len() < t0.total_size ==> t1.status == FileStatus::InProgress)
    &&& (t0.sent_size + bytes.len() == t0.total_size && hex_of(sha256_of(grown)) == t0.checksum@
        ==> t1.status == FileStatus::Complete && file_written(actions, t0.filename@, grown) && (
    exists|u: int|
        0 <= u < updates.len() && (#[trigger] updates[u] matches StateUpdate::FileReceived {
            file_path,
            ..
        } && file_path@ == t0.filename@)))
    &&& (t0.sent_size + bytes.len() == t0.total_size && hex_of(sha256_of(grown)) != t0.checksum@
        ==> t1.status == FileStatus::Failed && some_error(updates))
}

/// Some action writes these bytes to this path.
pub open spec fn file_written(actions: Seq<Action>, path: Seq<char>, bytes: Seq<u8>) -> bool {
    exists|a: int|
        0 <= a < actions.len() && (#[trigger] actions[a] matches Action::WriteFile {
            path: p,
            data,
        } && p@ == path && data@ == bytes)
}

/// What an acknowledgement did to the sending transfer at position `j`:
/// exactly [`crate::transfer::after_ack`], with a progress update naming the
/// new progress unless the transfer aborted or had already failed.
pub open spec fn ack_applied(
    pre: CoreManager,
    post: CoreManager,
    offset: u64,
    updates: Seq<StateUpdate>,
    j: int,
) -> bool {
    let t0 = pre.transfers@[j];
    let t1 = crate::transfer::after_ack(t0, offset);
    &&& post.transfers@ == pre.transfers@.update(j, t1)
    &&& (t1.status != FileStatus::Failed ==> exists|u: int|
        0 <= u < updates.len() && (#[trigger] updates[u] matches
        StateUpdate::FileTransferProgress { transfer_id, sent, total } && transfer_id@ == t0.id@
            && sent == t1.sent_size && total == t0.total_size))
}

/// What taking a packet on the session at position `i` does. A packet that
/// does not open as strictly newer on an active session closes the session
/// and writes no message row; an accepted packet raises the session's
/// receive counter to its counter and is dispatched on its tag: a message
/// is recorded and reported, a header opens a receiving transfer, a chunk
/// extends it with the checksum deciding its end, an acknowledgement drives
/// the sending side. The receive counter never goes backwards.
pub open spec fn data_received_outcome(
    pre: CoreManager,
    post: CoreManager,
    session_id: Seq<char>,
    data: Seq<u8>,
    actions: Seq<Action>,
    updates: Seq<StateUpdate>,
    i: int,
) -> bool {
    let s = pre.sessions@[i];
    &&& (s.state == SessionState::Active && !packet_acceptable(s, session_id, data)
        ==> !has_session(post.sessions@, session_id) && post.store.messages == pre.store.messages
        && crypto_error_reported(updates))
    &&& (forall|c: u64, m: Seq<u8>| #![auto]
        s.state == SessionState::Active && m.len() <= AEAD_LEN_MAX && data == sealed_packet_of(
            s.key@,
            session_id,
            PacketKind::Message,
            c,
            m,
        ) && c > s.recv_counter && vstd::utf8::valid_utf8(m) ==> counter_recorded(
            post,
            session_id,
            c,
        ) && (inbound_message_recorded(pre, post, s, m, updates) || some_error(updates)))
    &&& (forall|c: u64, id: Seq<char>, name: Seq<char>, sum: Seq<char>, total: u64| #![auto]
        s.state == SessionState::Active && lp_ok(id) && lp_ok(name) && lp_ok(sum)
            && header_payload_of(id, name, sum, total).len() <= AEAD_LEN_MAX && data
            == sealed_packet_of(
            s.key@,
            session_id,
            PacketKind::FileHeader,
            c,
            header_payload_of(id, name, sum, total),
        ) && c > s.recv_counter && total <= 0x7FFF_FFFF_FFFF_FFFF && !has_transfer(
            pre.transfers@,
            id,
        ) ==> inbound_transfer_opened(pre, post, session_id, id, name, sum, total, updates))
    &&& (forall|c: u64, id: Seq<char>, offset: u64, j: int| #![auto]
        s.state == SessionState::Active && lp_ok(id) && data == sealed_packet_of(
            s.key@,
            session_id,
            PacketKind::FileAck,
            c,
            ack_payload_of(id, offset),
        ) && c > s.recv_counter && 0 <= j < pre.transfers@.len() && pre.transfers@[j].id@ == id
            && pre.transfers@[j].outbound && pre.transfers@[j].session_id@ == session_id
            ==> ack_applied(pre, post, offset, updates, j))
    &&& (forall|j: int| #![auto]
        0 <= j < post.sessions@.len() && post.sessions@[j].id@ == session_id
            ==> post.sessions@[j].recv_counter >= s.recv_counter)
    &&& (s.state != SessionState::Active ==> post == pre && single_error(
        actions,
        updates,
        ErrorCode::SessionError,
    ))
}

/// A packet pinned to one kind, counter and payload matches no sealing of
/// any other kind.
proof fn lemma_other_kinds_refuted(
    key: Seq<u8>,
    sid: Seq<char>,
    data: Seq<u8>,
    kind: PacketKind,
    counter: u64,
    plain: Seq<u8>,
)
    requires
        forall|k: PacketKind, c2: u64, m2: Seq<u8>| #![auto]
            m2.len() <= AEAD_LEN_MAX && data == sealed_packet_of(key, sid, k, c2, m2) ==> k == kind
                && c2 == counter && m2 == plain,
    ensures
        kind != PacketKind::Message ==> (forall|c2: u64, m2: Seq<u8>| #![auto]
            !(m2.len() <= AEAD_LEN_MAX && data == sealed_packet_of(
                key,
                sid,
                PacketKind::Message,
                c2,
                m2,
            ))),
        kind != PacketKind::FileHeader ==> (forall|c2: u64, id: Seq<char>, name: Seq<char>, sum: Seq<char>, total: u64| #![auto]
            !(header_payload_of(id, name, sum, total).len() <= AEAD_LEN_MAX && data
                == sealed_packet_of(
                key,
                sid,
                PacketKind::FileHeader,
                c2,
                header_payload_of(id, name, sum, total),
            ))),
        kind != PacketKind::FileChunk ==> (forall|c2: u64, id: Seq<char>, offset: u64, bytes: Seq<u8>| #![auto]
            !(chunk_payload_of(id, offset, bytes).len() <= AEAD_LEN_MAX && data
                == sealed_packet_of(
                key,
                sid,
                PacketKind::FileChunk,
                c2,
                chunk_payload_of(id, offset, bytes),
            ))),
        kind != PacketKind::FileAck ==> (forall|c2: u64, id: Seq<char>, offset: u64| #![auto]
            !(lp_ok(id) && data == sealed_packet_of(
                key,
                sid,
                PacketKind::FileAck,
                c2,
                ack_payload_of(id, offset),
            ))),
{
    if kind != PacketKind::FileAck {
        assert forall|c2: u64, id: Seq<char>, offset: u64|
            lp_ok(id) && data == sealed_packet_of(
                key,
                sid,
                PacketKind::FileAck,
                c2,
                ack_payload_of(id, offset),
            ) implies false by {
            assert(ack_payload_of(id, offset).len() <= AEAD_LEN_MAX);
        }
    }
}

/// An outcome established at the position the identifier names holds at
/// every position the identifier names: session identifiers are unique.
proof fn lemma_outcome_at_every_match(
    pre: CoreManager,
    post: CoreManager,
    session_id: Seq<char>,
    data: Seq<u8>,
    actions: Seq<Action>,
    updates: Seq<StateUpdate>,
    idx: int,
)
    requires
        session_ids_unique(pre.sessions@),
        0 <= idx < pre.sessions@.len(),
        pre.sessions@[idx].id@ == session_id,
        data_received_outcome(pre, post, session_id, data, actions, updates, idx),
    ensures
        forall|i: int|
            0 <= i < pre.sessions@.len() && pre.sessions@[i].id@ == session_id
                ==> data_received_outcome(pre, post, session_id, data, actions, updates, i),
{
    assert forall|i: int|
        0 <= i < pre.sessions@.len() && pre.sessions@[i].id@ == session_id
            implies data_received_outcome(pre, post, session_id, data, actions, updates, i) by {
        if i != idx {
            assert(pre.sessions@[i].id@ != pre.sessions@[idx].id@);
        }
        assert(i == idx);
    }
}

/// Every surviving session under the identifier carries exactly this
/// receive counter.
pub open spec fn counter_recorded(post: CoreManager, session_id: Seq<char>, c: u64) -> bool {
    forall|j: int| #![auto]
        0 <= j < post.sessions@.len() && post.sessions@[j].id@ == session_id
            ==> post.sessions@[j].recv_counter == c
}

/// The action that puts a sealed file-header packet on the session's wire.
pub open spec fn header_packet_action(
    s0: Session,
    tid: Seq<char>,
    filename: Seq<char>,
    checksum: Seq<char>,
    total: u64,
    a: Action,
) -> bool {
    a matches Action::SendPacket { session_id: sid, data: d } && sid@ == s0.id@ && d@
        == sealed_packet_of(
        s0.key@,
        s0.id@,
        PacketKind::FileHeader,
        (s0.send_counter + 1) as u64,
        header_payload_of(tid, filename, checksum, total),
    )
}

/// The action that puts the chunk with index `ci` on the session's wire,
/// sealed and bound to the counter that follows the header and the chunks
/// before it.
pub open spec fn chunk_packet_action(
    s0: Session,
    tid: Seq<char>,
    data: Seq<u8>,
    ci: int,
    a: Action,
) -> bool {
    a matches Action::SendPacket { session_id: sid, data: d } && sid@ == s0.id@ && d@
        == sealed_packet_of(
        s0.key@,
        s0.id@,
        PacketKind::FileChunk,
        (s0.send_counter + 2 + ci) as u64,
        chunk_payload_of(
            tid,
            (ci * CHUNK_SIZE) as u64,
            data.subrange(
                ci * CHUNK_SIZE,
                ci * CHUNK_SIZE + crate::transfer::chunk_len_of(data.len() as u64, ci),
            ),
        ),
    )
}

/// A sending-side transfer as just created over a file's bytes, its
/// checksum the hex SHA-256 of those bytes.
pub open spec fn transfer_started(
    t: FileTransfer,
    tid: Seq<char>,
    session_id: Seq<char>,
    filename: Seq<char>,
    data: Seq<u8>,
) -> bool {
    &&& t.id@ == tid
    &&& t.session_id@ == session_id
    &&& t.filename@ == filename
    &&& t.total_size == data.len()
    &&& t.data@ == data
    &&& t.outbound
    &&& t.sent_size == 0
    &&& t.status == FileStatus::Pending
    &&& t.checksum@ == hex_of(sha256_of(data))
}

/// Whether a file send can proceed on this session: the session is active,
/// the transfer identifier is fresh, names and checksum fit their length
/// prefixes, the size fits the row, and the counter space suffices for the
/// header and every chunk.
pub open spec fn file_send_ready(
    pre: CoreManager,
    s: Session,
    tid: Seq<char>,
    filename: Seq<char>,
    data: Seq<u8>,
) -> bool {
    &&& s.state == SessionState::Active
    &&& !has_transfer(pre.transfers@, tid)
    &&& crate::wire::lp_ok(tid)
    &&& crate::wire::lp_ok(filename)
    &&& crate::wire::lp_ok(hex_of(sha256_of(data)))
    &&& data.len() <= 0x7FFF_FFFF_FFFF_FFFF
    &&& s.send_counter + 1 + chunk_count_of(data.len() as u64) <= u64::MAX
}

/// What taking a file's bytes for sending does: when the send is ready, the
/// transfer and its rows are recorded, the header packet goes out first and
/// then every chunk packet in counter order; over an inactive session
/// nothing changes but one error update.
pub open spec fn file_send_outcome(
    pre: CoreManager,
    post: CoreManager,
    tid: Seq<char>,
    session_id: Seq<char>,
    filename: Seq<char>,
    data: Seq<u8>,
    actions: Seq<Action>,
    updates: Seq<StateUpdate>,
    i: int,
) -> bool {
    let s = pre.sessions@[i];
    let count = chunk_count_of(data.len() as u64);
    &&& (s.state != SessionState::Active ==> post == pre && single_error(
        actions,
        updates,
        ErrorCode::SessionError,
    ))
    &&& (file_send_ready(pre, s, tid, filename, data) ==> ({
        &&& post.transfers@.len() == pre.transfers@.len() + 1
        &&& transfer_started(
            post.transfers@[pre.transfers@.len() as int],
            tid,
            session_id,
            filename,
            data,
        )
        &&& actions.len() == 1 + count
        &&& header_packet_action(s, tid, filename, hex_of(sha256_of(data)), data.len() as u64, actions[0])
        &&& forall|u: int|
            0 <= u < count ==> chunk_packet_action(s, tid, data, u, #[trigger] actions[1 + u])
        &&& post.sessions@ == pre.sessions@.update(
            i,
            (Session { send_counter: (s.send_counter + 1 + count) as u64, ..s }),
        )
    }))
}

/// A promoted pairing: the peer's record is stored trusted with the
/// handshake's fingerprint — the base64 of the first 8 bytes of the SHA-256
/// of the peer's public key — its identifier joined the settings' trusted
/// list, an active session runs over the derived shared secret under the
/// session identifier both sides derive from it, and observers heard of the
/// pairing.
pub open spec fn pairing_promoted(
    pre: CoreManager,
    post: CoreManager,
    pairing: PairingSession,
    updates: Seq<StateUpdate>,
) -> bool {
    let shared = crate::crypto::x25519_of(pairing.local_secret@, pairing.remote_public->0@);
    &&& exists|x: Device| #![trigger post.store.devices@.contains(x)]
        post.store.devices@.contains(x) && x.id@ == pairing.peer_id@ && x.trusted && x.fingerprint@
            == crate::crypto::fingerprint_of(pairing.remote_public->0@)
    &&& forall|x: Device|
        post.store.devices@.contains(x) && x.id@ == pairing.peer_id@ ==> x.trusted
    &&& post.settings.settings.trusted_devices@ == pre.settings.settings.trusted_devices@.push(
        pairing.peer_id,
    )
    &&& exists|i: int| #![auto]
        0 <= i < post.sessions@.len() && post.sessions@[i].peer_id@ == pairing.peer_id@
            && post.sessions@[i].state == SessionState::Active && post.sessions@[i].key@ == shared
            && post.sessions@[i].id@ == hex_of(sha256_of(shared)) && post.sessions@[i].send_counter
            == 0 && post.sessions@[i].recv_counter == 0
    &&& updates.len() == 1
    &&& (updates[0] matches StateUpdate::DevicePaired { id } && id@ == pairing.peer_id@)
    &&& post.store.messages == pre.store.messages
    &&& post.store.files == pre.store.files
    &&& post.transfers == pre.transfers
    &&& post.local_device_id == pre.local_device_id
    &&& post.discovered == pre.discovered
    &&& post.discovering == pre.discovering
    &&& forall|x: Device| #![trigger post.store.devices@.contains(x), pre.store.devices@.contains(x)]
        x.id@ != pairing.peer_id@ ==> (post.store.devices@.contains(x)
            <==> pre.store.devices@.contains(x))
    &&& post.store.devices@.len() == pre.store.devices@.len() + (if has_device(
        pre.store.devices@,
        pairing.peer_id@,
    ) {
        0int
    } else {
        1int
    })
    &&& forall|x: Session| #![trigger post.sessions@.contains(x)]
        post.sessions@.contains(x) ==> pre.sessions@.contains(x) || x.peer_id@ == pairing.peer_id@
    &&& forall|x: Session| #![trigger pre.sessions@.contains(x)]
        pre.sessions@.contains(x) && x.peer_id@ != pairing.peer_id@ && x.id@ != hex_of(
            sha256_of(shared),
        ) ==> post.sessions@.contains(x)
}

/// Some action puts the sealed abort acknowledgement for this transfer on
/// the session's wire, bound to the session's next send counter.
pub open spec fn abort_ack_sent(s: Session, transfer_id: Seq<char>, actions: Seq<Action>) -> bool {
    exists|a: int|
        0 <= a < actions.len() && (#[trigger] actions[a] matches Action::SendPacket {
            session_id: sid,
            data,
        } && sid@ == s.id@ && data@ == sealed_packet_of(
            s.key@,
            s.id@,
            PacketKind::FileAck,
            (s.send_counter + 1) as u64,
            ack_payload_of(transfer_id, crate::transfer::ABORT_OFFSET),
        ))
}

/// The authoritative state of the core: sessions, transfers, the durable
/// store, the settings, what discovery saw, and whether discovery runs.
pub struct CoreManager {
    /// Stable identifier of the local device, used on rows it writes.
    pub local_device_id: String,
    /// Live sessions; closed sessions are removed.
    pub sessions: Vec<Session>,
    /// Transfers in flight or finished this run.
    pub transfers: Vec<FileTransfer>,
    /// Durable records: peers, messages, files.
    pub store: Store,
    /// The settings record and its dirty mark.
    pub settings: SettingsManager,
    /// Devices seen by discovery this run.
    pub discovered: Vec<DeviceInfo>,
    /// Whether discovery is running.
    pub discovering: bool,
}

impl CoreManager {
    /// The core's invariants: the store's own invariants, unique session
    /// identifiers, no closed session kept, at most one active session per
    /// peer, well-formed sessions and transfers with unique identifiers.
    pub open spec fn wf(self) -> bool {
        &&& self.store.wf()
        &&& session_ids_unique(self.sessions@)
        &&& one_active_per_peer(self.sessions@)
        &&& forall|i: int|
            0 <= i < self.sessions@.len() ==> (#[trigger] self.sessions@[i]).wf()
        &&& forall|i: int|
            0 <= i < self.sessions@.len() ==> (#[trigger] self.sessions@[i]).state
                != SessionState::Closed
        &&& transfer_ids_unique(self.transfers@)
        &&& forall|i: int|
            0 <= i < self.transfers@.len() ==> (#[trigger] self.transfers@[i]).wf()
    }

    /// A fresh core with nothing live and an empty store.
    pub fn new(local_device_id: String) -> (c: CoreManager)
        ensures
            c.wf(),
            c.local_device_id == local_device_id,
            c.sessions@.len() == 0,
            c.transfers@.len() == 0,
            c.store.devices@.len() == 0,
            c.store.messages@.len() == 0,
            c.store.files@.len() == 0,
            !c.discovering,
    {
        CoreManager {
            local_device_id,
            sessions: Vec::new(),
            transfers: Vec::new(),
            store: Store::new(),
            settings: SettingsManager::new(),
            discovered: Vec::new(),
            discovering: false,
        }
    }

    /// Starts discovery: the radio is asked to scan and observers hear it.
    pub fn handle_start_discovery(&mut self) -> (r: (Vec<Action>, Vec<StateUpdate>))
        requires
            old(self).wf(),
        ensures
            final(self).wf(),
            *final(self) == (CoreManager { discovering: true, ..*old(self) }),
            r.0@.len() == 1 && r.0@[0] matches Action::StartDiscovery,
            r.1@.len() == 1 && r.1@[0] matches StateUpdate::DiscoveryStarted,
    {
        self.discovering = true;
        let mut actions: Vec<Action> = Vec::new();
        actions.push(Action::StartDiscovery);
        let mut updates: Vec<StateUpdate> = Vec::new();
        updates.push(StateUpdate::DiscoveryStarted);
        (actions, updates)
    }

    /// Stops discovery.
    pub fn handle_stop_discovery(&mut self) -> (r: (Vec<Action>, Vec<StateUpdate>))
        requires
            old(self).wf(),
        ensures
            final(self).wf(),
            *final(self) == (CoreManager { discovering: false, ..*old(self) }),
            r.0@.len() == 1 && r.0@[0] matches Action::StopDiscovery,
            r.1@.len() == 1 && r.1@[0] matches StateUpdate::DiscoveryStopped,
    {
        self.discovering = false;
        let mut actions: Vec<Action> = Vec::new();
        actions.push(Action::StopDiscovery);
        let mut updates: Vec<StateUpdate> = Vec::new();
        updates.push(StateUpdate::DiscoveryStopped);
        (actions, updates)
    }

    /// Takes a discovery callback: the peer lands in the registry — trusted
    /// flag and fingerprint kept if it was already known — and observers
    /// hear of the find.
    pub fn handle_device_discovered(&mut self, id: String, name: String) -> (r: (
        Vec<Action>,
        Vec<StateUpdate>,
    ))
        requires
            old(self).wf(),
        ensures
            final(self).wf(),
            final(self).sessions == old(self).sessions,
            final(self).transfers == old(self).transfers,
            final(self).store.messages == old(self).store.messages,
            final(self).store.files == old(self).store.files,
            has_device(final(self).store.devices@, id@),
            forall|x: Device|
                final(self).store.devices@.contains(x) && x.id@ == id@ ==> x.name == name && (
                forall|y: Device|
                    old(self).store.devices@.contains(y) && y.id@ == id@ ==> x.trusted
                        == y.trusted && x.fingerprint == y.fingerprint && x.address == y.address),
            forall|x: Device|
                x.id@ != id@ ==> (final(self).store.devices@.contains(x) <==> old(
                    self,
                ).store.devices@.contains(x)),
            forall|x: Device|
                final(self).store.devices@.contains(x) && x.id@ == id@ && !has_device(
                    old(self).store.devices@,
                    id@,
                ) ==> !x.trusted,
            r.0@.len() == 0,
            r.1@.len() == 1 && (r.1@[0] matches StateUpdate::DeviceFound { id: i, name: n } && i
                == id && n == name),
    {
        let now = now_millis();
        let row = match self.store.get_device(id.as_str()) {
            Some(existing) => Device {
                id: id.clone(),
                name: name.clone(),
                address: existing.address,
                trusted: existing.trusted,
                last_seen: now,
                fingerprint: existing.fingerprint,
            },
            None => Device {
                id: id.clone(),
                name: name.clone(),
                address: id.clone(),
                trusted: false,
                last_seen: now,
                fingerprint: String::new(),
            },
        };
        let res = self.store.add_device(row);
        let mut info_index: usize = 0;
        let mut info_found = false;
        let n = self.discovered.len();
        while info_index < n && !info_found
            invariant
                n == self.discovered@.len(),
                0 <= info_index <= n,
            decreases n - info_index + (if info_found {
                0int
            } else {
                1int
            }),
        {
            if str_eq(self.discovered[info_index].id.as_str(), id.as_str()) {
                info_found = true;
            } else {
                info_index = info_index + 1;
            }
        }
        if !info_found {
            self.discovered.push(
                DeviceInfo { id: id.clone(), name: name.clone(), address: id.clone(), rssi: 0 },
            );
        }
        let actions: Vec<Action> = Vec::new();
        let mut updates: Vec<StateUpdate> = Vec::new();
        updates.push(StateUpdate::DeviceFound { id, name });
        (actions, updates)
    }

    /// The devices discovery saw this run.
    pub fn get_discovered_devices(&self) -> (r: Vec<DeviceInfo>)
        ensures
            r@ == self.discovered@,
    {
        let r = self.discovered.clone();
        proof {
            assert forall|i: int| 0 <= i < r@.len() implies r@[i] == self.discovered@[i] by {
                assert(cloned::<DeviceInfo>(self.discovered@[i], r@[i]));
            }
            assert(r@ =~= self.discovered@);
        }
        r
    }

    /// Stores a peer record.
    pub fn add_device(&mut self, device: Device) -> (r: Result<(), crate::errors::Error>)
        requires
            old(self).wf(),
            device.wf(),
        ensures
            final(self).wf(),
            r is Ok,
            final(self).sessions == old(self).sessions,
            final(self).transfers == old(self).transfers,
            final(self).store.devices@.contains(device),
            forall|x: Device|
                x.id@ != device.id@ ==> (final(self).store.devices@.contains(x) <==> old(
                    self,
                ).store.devices@.contains(x)),
            forall|x: Device|
                final(self).store.devices@.contains(x) && x.id@ == device.id@ ==> x == device,
    {
        match self.store.add_device(device) {
            Ok(()) => Ok(()),
            Err(e) => Err(crate::errors::Error::from(e)),
        }
    }

    /// All peer records, newest first.
    pub fn get_devices(&self) -> (r: Vec<Device>)
        ensures
            r@ == self.store.devices@,
    {
        self.store.get_devices()
    }

    /// Stores a message row.
    pub fn add_message(&mut self, message: Message) -> (r: Result<(), crate::errors::Error>)
        requires
            old(self).wf(),
        ensures
            final(self).wf(),
            final(self).sessions == old(self).sessions,
            final(self).transfers == old(self).transfers,
            r is Ok <==> !has_message(old(self).store.messages@, message.id@),
            r is Ok ==> exists|k: int|
                0 <= k <= old(self).store.messages@.len() && final(self).store.messages@ == old(
                    self,
                ).store.messages@.insert(k, message),
            r is Err ==> *final(self) == *old(self),
    {
        match self.store.add_message(message) {
            Ok(()) => Ok(()),
            Err(e) => Err(crate::errors::Error::from(e)),
        }
    }

    /// The messages of one conversation, oldest first.
    pub fn get_messages(&self, conversation_id: &str) -> (r: Vec<Message>)
        requires
            self.wf(),
        ensures
            ({
                let expected = self.store.messages@.filter(
                    |m: Message| m.conversation_id@ == conversation_id@,
                );
                r@.len() == expected.len() && (forall|i: int|
                    0 <= i < r@.len() ==> #[trigger] r@[i]@ == expected[i]@)
            }),
    {
        self.store.get_messages(conversation_id)
    }

    /// Stores a file row.
    pub fn add_file(&mut self, file: File) -> (r: Result<(), crate::errors::Error>)
        requires
            old(self).wf(),
            file.wf(),
        ensures
            final(self).wf(),
            final(self).sessions == old(self).sessions,
            final(self).transfers == old(self).transfers,
            r is Ok <==> !has_file(old(self).store.files@, file.id@),
            r is Ok ==> exists|k: int|
                0 <= k <= old(self).store.files@.len() && final(self).store.files@ == old(
                    self,
                ).store.files@.insert(k, file),
            r is Err ==> *final(self) == *old(self),
    {
        match self.store.add_file(file) {
            Ok(()) => Ok(()),
            Err(e) => Err(crate::errors::Error::from(e)),
        }
    }

    /// Moves a file row to a new status, within the lifecycle rules.
    pub fn update_file_status(&mut self, id: &str, status: FileStatus) -> (r: Result<
        (),
        crate::errors::Error,
    >)
        requires
            old(self).wf(),
        ensures
            final(self).wf(),
            final(self).sessions == old(self).sessions,
            final(self).transfers == old(self).transfers,
            !has_file(old(self).store.files@, id@) ==> r is Ok && *final(self) == *old(self),
            forall|j: int|
                0 <= j < old(self).store.files@.len() && old(self).store.files@[j].id@ == id@ ==> (
                if crate::store::file_status_can_advance(old(self).store.files@[j].status, status) {
                    r is Ok && final(self).store.files@ == old(self).store.files@.update(
                        j,
                        (File { status, ..old(self).store.files@[j] }),
                    )
                } else {
                    r is Err && *final(self) == *old(self)
                }),
    {
        match self.store.update_file_status(id, status) {
            Ok(()) => Ok(()),
            Err(e) => Err(crate::errors::Error::from(e)),
        }
    }

    /// All file rows, newest first.
    pub fn get_files(&self) -> (r: Vec<File>)
        ensures
            r@ == self.store.files@,
    {
        self.store.get_files()
    }

    /// The current settings record.
    pub fn get_settings(&self) -> (r: &crate::settings::AppSettings)
        ensures
            r == self.settings.settings,
    {
        self.settings.get_settings()
    }

    /// Applies an update to the settings record.
    pub fn update_settings<F: FnOnce(crate::settings::AppSettings) -> crate::settings::AppSettings>(
        &mut self,
        updater: F,
    )
        requires
            old(self).wf(),
            updater.requires((old(self).settings.settings,)),
        ensures
            final(self).wf(),
            call_ensures(updater, (old(self).settings.settings,), final(self).settings.settings),
            final(self).sessions == old(self).sessions,
            final(self).transfers == old(self).transfers,
            final(self).store == old(self).store,
    {
        self.settings.update_settings(updater);
    }

    /// The position of the session under an identifier, if one is live.
    fn find_session_index(&self, session_id: &str) -> (r: Option<usize>)
        requires
            self.wf(),
        ensures
            r matches Some(i) ==> i < self.sessions@.len() && self.sessions@[i as int].id@
                == session_id@,
            r is Some <==> has_session(self.sessions@, session_id@),
    {
        let n = self.sessions.len();
        let mut j: usize = 0;
        while j < n
            invariant
                n == self.sessions@.len(),
                0 <= j <= n,
                forall|t: int| 0 <= t < j ==> #[trigger] self.sessions@[t].id@ != session_id@,
            decreases n - j,
        {
            if str_eq(self.sessions[j].id.as_str(), session_id) {
                return Some(j);
            }
            j = j + 1;
        }
        None
    }

    /// The position of the transfer under an identifier, if one is known.
    fn find_transfer_index(&self, transfer_id: &str) -> (r: Option<usize>)
        requires
            self.wf(),
        ensures
            r matches Some(i) ==> i < self.transfers@.len() && self.transfers@[i as int].id@
                == transfer_id@,
            r is Some <==> has_transfer(self.transfers@, transfer_id@),
    {
        let n = self.transfers.len();
        let mut j: usize = 0;
        while j < n
            invariant
                n == self.transfers@.len(),
                0 <= j <= n,
                forall|t: int| 0 <= t < j ==> #[trigger] self.transfers@[t].id@ != transfer_id@,
            decreases n - j,
        {
            if str_eq(self.transfers[j].id.as_str(), transfer_id) {
                return Some(j);
            }
            j = j + 1;
        }
        None
    }

    /// Fails every transfer riding the given session; terminal transfers
    /// stay what they are.
    #[verifier::loop_isolation(false)]
    fn fail_transfers_for_session(&mut self, session_id: &str)
        requires
            old(self).wf(),
        ensures
            final(self).wf(),
            *final(self) == (CoreManager { transfers: final(self).transfers, ..*old(self) }),
            final(self).transfers@.len() == old(self).transfers@.len(),
            forall|i: int|
                0 <= i < final(self).transfers@.len() ==> (#[trigger] final(self).transfers@[i]
                    == old(self).transfers@[i] || final(self).transfers@[i] == (FileTransfer {
                    status: FileStatus::Failed,
                    ..old(self).transfers@[i]
                })),
            forall|i: int|
                0 <= i < final(self).transfers@.len() && old(self).transfers@[i].session_id@
                    == session_id@ && !old(self).transfers@[i].status.is_terminal()
                    ==> (#[trigger] final(self).transfers@[i]).status == FileStatus::Failed,
            forall|i: int|
                0 <= i < final(self).transfers@.len() && old(self).transfers@[i].session_id@
                    != session_id@ ==> #[trigger] final(self).transfers@[i] == old(
                    self,
                ).transfers@[i],
    {
        let n = self.transfers.len();
        let mut j: usize = 0;
        while j < n
            invariant
                self.wf(),
                self.store == old(self).store,
                self.settings == old(self).settings,
                self.sessions == old(self).sessions,
                self.local_device_id == old(self).local_device_id,
                self.discovered == old(self).discovered,
                self.discovering == old(self).discovering,
                n == self.transfers@.len(),
                0 <= j <= n,
                forall|i: int|
                    j <= i < n ==> #[trigger] self.transfers@[i] == old(self).transfers@[i],
                forall|i: int|
                    0 <= i < j ==> (#[trigger] self.transfers@[i] == old(self).transfers@[i]
                        || self.transfers@[i] == (FileTransfer {
                        status: FileStatus::Failed,
                        ..old(self).transfers@[i]
                    })),
                forall|i: int|
                    0 <= i < j && old(self).transfers@[i].session_id@ == session_id@ && !old(
                        self,
                    ).transfers@[i].status.is_terminal() ==> (
                    #[trigger] self.transfers@[i]).status == FileStatus::Failed,
                forall|i: int|
                    0 <= i < j && old(self).transfers@[i].session_id@ != session_id@
                        ==> #[trigger] self.transfers@[i] == old(self).transfers@[i],
            decreases n - j,
        {
            if str_eq(self.transfers[j].session_id.as_str(), session_id) {
                let ghost pre_iter = self.transfers@;
                let mut t = self.transfers.remove(j);
                t.cancel();
                self.transfers.insert(j, t);
                proof {
                    assert(self.transfers@ =~= pre_iter.update(j as int, t));
                }
            }
            j = j + 1;
        }
    }

    /// Removes every session with the given peer and returns the actions
    /// that close their transports. Every other session stays.
    fn remove_sessions_for_peer(&mut self, peer_id: &str) -> (actions: Vec<Action>)
        requires
            old(self).wf(),
        ensures
            final(self).wf(),
            final(self).store == old(self).store,
            final(self).settings == old(self).settings,
            final(self).transfers == old(self).transfers,
            final(self).local_device_id == old(self).local_device_id,
            final(self).discovered == old(self).discovered,
            final(self).discovering == old(self).discovering,
            forall|i: int|
                0 <= i < final(self).sessions@.len() ==> (#[trigger] final(self).sessions@[i]).peer_id@
                    != peer_id@,
            forall|x: Session|
                final(self).sessions@.contains(x) ==> old(self).sessions@.contains(x),
            forall|x: Session|
                old(self).sessions@.contains(x) && x.peer_id@ != peer_id@
                    ==> final(self).sessions@.contains(x),
    {
        let mut actions: Vec<Action> = Vec::new();
        let mut j: usize = 0;
        while j < self.sessions.len()
            invariant
                old(self).wf(),
                self.wf(),
                self.store == old(self).store,
                self.settings == old(self).settings,
                self.transfers == old(self).transfers,
                self.local_device_id == old(self).local_device_id,
                self.discovered == old(self).discovered,
                self.discovering == old(self).discovering,
                0 <= j <= self.sessions@.len(),
                forall|t: int| 0 <= t < j ==> (#[trigger] self.sessions@[t]).peer_id@ != peer_id@,
                forall|x: Session|
                    self.sessions@.contains(x) ==> old(self).sessions@.contains(x),
                forall|x: Session|
                    old(self).sessions@.contains(x) && x.peer_id@ != peer_id@
                        ==> self.sessions@.contains(x),
            decreases self.sessions@.len() - j,
        {
            if str_eq(self.sessions[j].peer_id.as_str(), peer_id) {
                let ghost pre = self.sessions@;
                let mut removed = self.sessions.remove(j);
                crate::crypto::zeroize_bytes(&mut removed.key);
                actions.push(Action::CloseTransport { session_id: removed.id });
                proof {
                    lemma_session_remove_keeps_invariants(pre, j as int);
                    assert forall|x: Session|
                        self.sessions@.contains(x) implies pre.contains(x) by {
                        let t = choose|t: int|
                            0 <= t < self.sessions@.len() && self.sessions@[t] == x;
                        if t < j {
                            assert(pre[t] == x);
                        } else {
                            assert(pre[t + 1] == x);
                        }
                    }
                    assert forall|x: Session|
                        pre.contains(x) && x.peer_id@ != peer_id@ implies self.sessions@.contains(
                        x,
                    ) by {
                        let t = choose|t: int| 0 <= t < pre.len() && pre[t] == x;
                        if t < j {
                            assert(self.sessions@[t] == x);
                        } else {
                            assert(t != j);
                            assert(self.sessions@[t - 1] == x);
                        }
                    }
                }
            } else {
                j = j + 1;
            }
        }
        actions
    }

    /// Removes the session under an identifier, if one is live, and returns
    /// the action that closes its transport.
    fn remove_session_by_id(&mut self, session_id: &str) -> (r: Option<Action>)
        requires
            old(self).wf(),
        ensures
            final(self).wf(),
            final(self).store == old(self).store,
            final(self).settings == old(self).settings,
            final(self).transfers == old(self).transfers,
            final(self).local_device_id == old(self).local_device_id,
            final(self).discovered == old(self).discovered,
            final(self).discovering == old(self).discovering,
            !has_session(final(self).sessions@, session_id@),
            forall|x: Session|
                final(self).sessions@.contains(x) ==> old(self).sessions@.contains(x),
            forall|x: Session|
                old(self).sessions@.contains(x) && x.id@ != session_id@
                    ==> final(self).sessions@.contains(x),
            r is None ==> *final(self) == *old(self) && !has_session(
                old(self).sessions@,
                session_id@,
            ),
    {
        let idx = match self.find_session_index(session_id) {
            Some(i) => i,
            None => {
                proof {
                    assert(!has_session(self.sessions@, session_id@));
                }
                return None;
            },
        };
        let ghost pre = self.sessions@;
        let mut removed = self.sessions.remove(idx);
        crate::crypto::zeroize_bytes(&mut removed.key);
        proof {
            lemma_session_remove_keeps_invariants(pre, idx as int);
            assert forall|x: Session| self.sessions@.contains(x) implies pre.contains(x) by {
                let t = choose|t: int| 0 <= t < self.sessions@.len() && self.sessions@[t] == x;
                if t < idx {
                    assert(pre[t] == x);
                } else {
                    assert(pre[t + 1] == x);
                }
            }
            assert forall|x: Session| pre.contains(x) && x.id@ != session_id@ implies
                self.sessions@.contains(x) by {
                let t = choose|t: int| 0 <= t < pre.len() && pre[t] == x;
                if t < idx {
                    assert(self.sessions@[t] == x);
                } else {
                    assert(t != idx);
                    assert(self.sessions@[t - 1] == x);
                }
            }
            assert forall|i: int|
                0 <= i < self.sessions@.len() implies (#[trigger] self.sessions@[i]).id@
                != session_id@ by {
                if i < idx {
                    assert(self.sessions@[i] == pre[i]);
                    assert(pre[i].id@ != pre[idx as int].id@);
                } else {
                    assert(self.sessions@[i] == pre[i + 1]);
                    assert(pre[idx as int].id@ != pre[i + 1].id@);
                }
            }
        }
        Some(Action::CloseTransport { session_id: removed.id })
    }

    /// Finishes pairing after the user confirmed the PIN and the peer
    /// acknowledged: the peer is promoted to trusted with the handshake's
    /// fingerprint persisted — the base64 of the first 8 bytes of the
    /// SHA-256 of the peer's public key — its identifier joins the settings'
    /// trusted list, and an active session over the derived shared secret
    /// replaces any older session with the peer. Without the confirmation
    /// nothing changes and the peer stays untrusted; a handshake that never
    /// finished is refused.
    #[verifier::rlimit(100)]
    #[verifier::spinoff_prover]
    pub fn complete_pairing(&mut self, pairing: &PairingSession, verified: bool) -> (r: Result<
        (Vec<Action>, Vec<StateUpdate>),
        crate::errors::Error,
    >)
        requires
            old(self).wf(),
            pairing.wf(),
        ensures
            final(self).wf(),
            !verified ==> *final(self) == *old(self) && (r matches Ok(au) && au.0@.len() == 0
                && au.1@.len() == 0),
            verified && !(pairing.state == crate::pairing::PairingState::Done
                && pairing.remote_public is Some) ==> *final(self) == *old(self) && r is Err,
            verified && pairing.state == crate::pairing::PairingState::Done
                && pairing.remote_public is Some ==> r is Ok,
            r matches Ok(au) ==> (verified && pairing.state == crate::pairing::PairingState::Done
                && pairing.remote_public is Some ==> pairing_promoted(
                *old(self),
                *final(self),
                *pairing,
                au.1@,
            )),
    {
        if !verified {
            return Ok((Vec::new(), Vec::new()));
        }
        if !(pairing.state == crate::pairing::PairingState::Done) {
            return Err(
                crate::errors::Error::Bluetooth(crate::errors::BluetoothError::PairingFailed),
            );
        }
        let key = match pairing.session_key() {
            Ok(k) => k,
            Err(e) => {
                return Err(crate::errors::Error::from(e));
            },
        };
        let (peer_id, name, address) = pairing.get_device_info();
        let fingerprint = match pairing.get_fingerprint_for_storage() {
            Some(f) => f,
            None => {
                return Err(
                    crate::errors::Error::Bluetooth(crate::errors::BluetoothError::PairingFailed),
                );
            },
        };
        let now = now_millis();
        let device = Device {
            id: peer_id.clone(),
            name,
            address,
            trusted: true,
            last_seen: now,
            fingerprint,
        };
        let ghost dev = device;
        let _ = self.store.add_device(device);
        proof {
            assert(self.store.devices@.contains(dev) && dev.id@ == pairing.peer_id@ && dev.trusted
                && dev.fingerprint@ == crate::crypto::fingerprint_of(pairing.remote_public->0@));
        }
        self.settings.add_trusted_device(peer_id.clone());
        let mut actions = self.remove_sessions_for_peer(peer_id.as_str());
        // Both sides derive the same session identifier from the shared
        // secret, so their per-packet nonces agree.
        let session_id = calculate_checksum(key.as_slice());
        match self.remove_session_by_id(session_id.as_str()) {
            Some(a) => {
                actions.push(a);
            },
            None => {},
        }
        let ghost key_view = key@;
        let ghost sid_view = session_id@;
        proof {
            assert(sid_view == hex_of(sha256_of(key_view)));
        }
        let session = Session::new(session_id, peer_id.clone(), SessionState::Active, key);
        let ghost pre_push = self.sessions@;
        self.sessions.push(session);
        proof {
            assert forall|a: int, b: int| #![trigger self.sessions@[a], self.sessions@[b]]
                0 <= a < b < self.sessions@.len() implies self.sessions@[a].id@
                != self.sessions@[b].id@ && !(self.sessions@[a].state == SessionState::Active
                && self.sessions@[b].state == SessionState::Active && self.sessions@[a].peer_id@
                == self.sessions@[b].peer_id@) by {
                if b == pre_push.len() {
                    assert(self.sessions@[a] == pre_push[a]);
                    assert(pre_push.contains(pre_push[a]));
                } else {
                    assert(self.sessions@[a] == pre_push[a]);
                    assert(self.sessions@[b] == pre_push[b]);
                }
            }
            assert(self.sessions@[self.sessions@.len() - 1] == session);
        }
        let mut updates: Vec<StateUpdate> = Vec::new();
        updates.push(StateUpdate::DevicePaired { id: peer_id });
        proof {
            let n = self.sessions@.len() as int;
            let shared = crate::crypto::x25519_of(
                pairing.local_secret@,
                pairing.remote_public->0@,
            );
            assert(0 <= n - 1 < n && self.sessions@[n - 1].peer_id@ == pairing.peer_id@
                && self.sessions@[n - 1].state == SessionState::Active && self.sessions@[n - 1].key@
                == shared && self.sessions@[n - 1].id@ == hex_of(sha256_of(shared))
                && self.sessions@[n - 1].send_counter == 0 && self.sessions@[n - 1].recv_counter
                == 0);
            assert(self.store.devices@.contains(dev));
            assert(exists|x: Device| #![trigger self.store.devices@.contains(x)]
                self.store.devices@.contains(x) && x.id@ == pairing.peer_id@ && x.trusted
                    && x.fingerprint@ == crate::crypto::fingerprint_of(
                    pairing.remote_public->0@,
                ));
            assert(forall|x: Device|
                self.store.devices@.contains(x) && x.id@ == pairing.peer_id@ ==> x.trusted);
            assert(self.settings.settings.trusted_devices@
                == old(self).settings.settings.trusted_devices@.push(pairing.peer_id));
            assert(exists|i: int| #![auto]
                0 <= i < self.sessions@.len() && self.sessions@[i].peer_id@ == pairing.peer_id@
                    && self.sessions@[i].state == SessionState::Active && self.sessions@[i].key@
                    == shared && self.sessions@[i].id@ == hex_of(sha256_of(shared))
                    && self.sessions@[i].send_counter == 0 && self.sessions@[i].recv_counter == 0);
            assert(updates@.len() == 1);
            assert(updates@[0] matches StateUpdate::DevicePaired { id } && id@
                == pairing.peer_id@);
            assert forall|x: Session|
                self.sessions@.contains(x) implies (old(self).sessions@.contains(x) || x.peer_id@
                == pairing.peer_id@) by {
                let t = choose|t: int| 0 <= t < self.sessions@.len() && self.sessions@[t] == x;
                if t < pre_push.len() {
                    assert(pre_push[t] == x);
                    assert(pre_push.contains(x));
                } else {
                    assert(x == self.sessions@[self.sessions@.len() - 1]);
                }
            }
            assert forall|x: Session|
                old(self).sessions@.contains(x) && x.peer_id@ != pairing.peer_id@ && x.id@
                != sid_view implies self.sessions@.contains(x) by {
                assert(pre_push.contains(x));
                let t = choose|t: int| 0 <= t < pre_push.len() && pre_push[t] == x;
                assert(self.sessions@[t] == x);
            }
            assert(pairing_promoted(*old(self), *self, *pairing, updates@));
        }
        Ok((actions, updates))
    }

    /// Closes the session under an identifier after a failure on it: the
    /// session leaves the map, its transfers fail, its transport is closed
    /// and one error update reports the failure.
    fn close_session_after_failure(&mut self, session_id: &str, code: ErrorCode, message: &str) -> (r: (
        Vec<Action>,
        Vec<StateUpdate>,
    ))
        requires
            old(self).wf(),
        ensures
            final(self).wf(),
            final(self).store == old(self).store,
            final(self).settings == old(self).settings,
            final(self).local_device_id == old(self).local_device_id,
            final(self).discovered == old(self).discovered,
            final(self).discovering == old(self).discovering,
            !has_session(final(self).sessions@, session_id@),
            forall|x: Session|
                final(self).sessions@.contains(x) ==> old(self).sessions@.contains(x),
            forall|x: Session|
                old(self).sessions@.contains(x) && x.id@ != session_id@
                    ==> final(self).sessions@.contains(x),
            final(self).transfers@.len() == old(self).transfers@.len(),
            forall|i: int|
                0 <= i < final(self).transfers@.len() ==> (#[trigger] final(self).transfers@[i]
                    == old(self).transfers@[i] || final(self).transfers@[i] == (FileTransfer {
                    status: FileStatus::Failed,
                    ..old(self).transfers@[i]
                })),
            r.1@.len() == 1 && (r.1@[0] matches StateUpdate::Error { code: c, .. } && c == code),
    {
        let mut actions: Vec<Action> = Vec::new();
        match self.remove_session_by_id(session_id) {
            Some(a) => {
                actions.push(a);
            },
            None => {},
        }
        self.fail_transfers_for_session(session_id);
        let mut updates: Vec<StateUpdate> = Vec::new();
        updates.push(StateUpdate::Error { code, message: String::from_str(message) });
        (actions, updates)
    }

    /// Seals one payload on the session at the given position, allocating
    /// its next send counter; refuses only an exhausted counter space.
    fn seal_on_session(&mut self, idx: usize, kind: PacketKind, payload: &[u8]) -> (r: Option<
        Vec<u8>,
    >)
        requires
            old(self).wf(),
            idx < old(self).sessions@.len(),
            payload@.len() <= AEAD_LEN_MAX,
        ensures
            final(self).wf(),
            final(self).store == old(self).store,
            final(self).settings == old(self).settings,
            final(self).transfers == old(self).transfers,
            final(self).local_device_id == old(self).local_device_id,
            final(self).discovered == old(self).discovered,
            final(self).discovering == old(self).discovering,
            ({
                let s = old(self).sessions@[idx as int];
                &&& (s.send_counter < u64::MAX ==> (r matches Some(p) && p@ == sealed_packet_of(
                    s.key@,
                    s.id@,
                    kind,
                    (s.send_counter + 1) as u64,
                    payload@,
                )) && final(self).sessions@ == old(self).sessions@.update(idx as int, bumped(s)))
                &&& (s.send_counter == u64::MAX ==> r is None && final(self).sessions@ == old(
                    self,
                ).sessions@)
            }),
    {
        let ghost pre = self.sessions@;
        let mut s = self.sessions.remove(idx);
        let counter = match s.next_send_counter() {
            Some(c) => c,
            None => {
                self.sessions.insert(idx, s);
                proof {
                    assert(self.sessions@ =~= pre);
                }
                return None;
            },
        };
        let packet = seal_packet(s.key.as_slice(), s.id.as_str(), kind, counter, payload);
        self.sessions.insert(idx, s);
        proof {
            assert(self.sessions@ =~= pre.update(idx as int, bumped(pre[idx as int])));
            assert forall|a: int, b: int| #![trigger self.sessions@[a], self.sessions@[b]]
                0 <= a < b < self.sessions@.len() implies self.sessions@[a].id@
                != self.sessions@[b].id@ && !(self.sessions@[a].state == SessionState::Active
                && self.sessions@[b].state == SessionState::Active && self.sessions@[a].peer_id@
                == self.sessions@[b].peer_id@) by {
                assert(pre[a].id@ != pre[b].id@);
            }
        }
        Some(packet)
    }

    /// Sends a chat message over an active session: the next send counter
    /// is allocated, the UTF-8 text is sealed as a message packet bound to
    /// that counter, and a message row with status Sent is stored. A missing
    /// or inactive session only yields an error update.
    pub fn handle_send_message(&mut self, session_id: String, text: String) -> (r: (
        Vec<Action>,
        Vec<StateUpdate>,
    ))
        requires
            old(self).wf(),
        ensures
            final(self).wf(),
            final(self).store.devices == old(self).store.devices,
            final(self).store.files == old(self).store.files,
            final(self).transfers == old(self).transfers,
            final(self).settings == old(self).settings,
            !has_session(old(self).sessions@, session_id@) ==> *final(self) == *old(self)
                && single_error(r.0@, r.1@, ErrorCode::SessionError),
            forall|i: int|
                0 <= i < old(self).sessions@.len() && old(self).sessions@[i].id@ == session_id@
                    ==> send_message_outcome(
                    *old(self),
                    *final(self),
                    session_id@,
                    text@,
                    r.0@,
                    r.1@,
                    i,
                ),
    {
        let idx = match self.find_session_index(session_id.as_str()) {
            Some(i) => i,
            None => {
                let actions: Vec<Action> = Vec::new();
                let mut updates: Vec<StateUpdate> = Vec::new();
                updates.push(
                    StateUpdate::Error {
                        code: ErrorCode::SessionError,
                        message: String::from_str("no such session"),
                    },
                );
                return (actions, updates);
            },
        };
        if !(match self.sessions[idx].state {
            SessionState::Active => true,
            _ => false,
        }) {
            let actions: Vec<Action> = Vec::new();
            let mut updates: Vec<StateUpdate> = Vec::new();
            updates.push(
                StateUpdate::Error {
                    code: ErrorCode::SessionError,
                    message: String::from_str("session is not active"),
                },
            );
            return (actions, updates);
        }
        let content_bytes = text.as_str().as_bytes();
        if content_bytes.len() as u64 > crate::crypto::AEAD_LEN_MAX {
            let actions: Vec<Action> = Vec::new();
            let mut updates: Vec<StateUpdate> = Vec::new();
            updates.push(
                StateUpdate::Error {
                    code: ErrorCode::CryptoError,
                    message: String::from_str("message too large"),
                },
            );
            return (actions, updates);
        }
        let ghost pre = self.sessions@;
        let mut s = self.sessions.remove(idx);
        let counter = match s.next_send_counter() {
            Some(c) => c,
            None => {
                self.sessions.insert(idx, s);
                proof {
                    assert(self.sessions@ =~= pre);
                }
                let actions: Vec<Action> = Vec::new();
                let mut updates: Vec<StateUpdate> = Vec::new();
                updates.push(
                    StateUpdate::Error {
                        code: ErrorCode::CryptoError,
                        message: String::from_str("send counter exhausted"),
                    },
                );
                return (actions, updates);
            },
        };
        let packet = seal_packet(
            s.key.as_slice(),
            session_id.as_str(),
            PacketKind::Message,
            counter,
            text.as_str().as_bytes(),
        );
        let peer_id = s.peer_id.clone();
        self.sessions.insert(idx, s);
        proof {
            assert(self.sessions@ =~= pre.update(
                idx as int,
                (Session { send_counter: (pre[idx as int].send_counter + 1) as u64, ..pre[
                    idx as int] }),
            ));
            assert forall|a: int, b: int| #![trigger self.sessions@[a], self.sessions@[b]]
                0 <= a < b < self.sessions@.len() implies self.sessions@[a].id@
                != self.sessions@[b].id@ && !(self.sessions@[a].state == SessionState::Active
                && self.sessions@[b].state == SessionState::Active && self.sessions@[a].peer_id@
                == self.sessions@[b].peer_id@) by {
                assert(pre[a].id@ != pre[b].id@);
            }
        }
        let now = now_millis();
        let content = text.as_str().as_bytes_vec();
        let m = Message {
            id: new_uuid(),
            conversation_id: peer_id.clone(),
            sender_id: self.local_device_id.clone(),
            receiver_id: peer_id,
            content,
            timestamp: now,
            status: MessageStatus::Sent,
        };
        let mut updates: Vec<StateUpdate> = Vec::new();
        match self.store.add_message(m) {
            Ok(()) => {},
            Err(_) => {
                updates.push(
                    StateUpdate::Error {
                        code: ErrorCode::SessionError,
                        message: String::from_str("message row not stored"),
                    },
                );
            },
        }
        let mut actions: Vec<Action> = Vec::new();
        actions.push(Action::SendPacket { session_id, data: packet });
        (actions, updates)
    }

    /// Takes one packet received on a session. The packet must open under
    /// the session key and carry a counter strictly greater than the last
    /// accepted one; anything else — garbage, tampering, a replay,
    /// out-of-order delivery — closes the session, fails its transfers and
    /// reports a crypto error, and no message row is written. An accepted
    /// packet advances the receive counter and is dispatched on its tag:
    /// a message lands in the store and is reported; a file header opens a
    /// receiving transfer with its file row; a chunk extends it, with an
    /// acknowledgement every sixteenth chunk and at the end, where the
    /// checksum decides between Complete and Failed; an acknowledgement
    /// drives the sending side's progress.
    #[verifier::rlimit(100)]
    pub fn handle_data_received(&mut self, session_id: String, data: Vec<u8>) -> (r: (
        Vec<Action>,
        Vec<StateUpdate>,
    ))
        requires
            old(self).wf(),
        ensures
            final(self).wf(),
            final(self).store.devices == old(self).store.devices,
            final(self).settings == old(self).settings,
            final(self).discovering == old(self).discovering,
            !has_session(old(self).sessions@, session_id@) ==> *final(self) == *old(self)
                && single_error(r.0@, r.1@, ErrorCode::SessionError),
            forall|i: int|
                0 <= i < old(self).sessions@.len() && old(self).sessions@[i].id@ == session_id@
                    ==> data_received_outcome(
                    *old(self),
                    *final(self),
                    session_id@,
                    data@,
                    r.0@,
                    r.1@,
                    i,
                ),
    {
        let idx = match self.find_session_index(session_id.as_str()) {
            Some(i) => i,
            None => {
                let actions: Vec<Action> = Vec::new();
                let mut updates: Vec<StateUpdate> = Vec::new();
                updates.push(
                    StateUpdate::Error {
                        code: ErrorCode::SessionError,
                        message: String::from_str("no such session"),
                    },
                );
                return (actions, updates);
            },
        };
        if !(match self.sessions[idx].state {
            SessionState::Active => true,
            _ => false,
        }) {
            let actions: Vec<Action> = Vec::new();
            let mut updates: Vec<StateUpdate> = Vec::new();
            updates.push(
                StateUpdate::Error {
                    code: ErrorCode::SessionError,
                    message: String::from_str("session is not active"),
                },
            );
            return (actions, updates);
        }
        let opened = open_packet(
            self.sessions[idx].key.as_slice(),
            session_id.as_str(),
            data.as_slice(),
        );
        let (kind, counter, plain) = match opened {
            Some(t) => t,
            None => {
                return self.close_session_after_failure(
                    session_id.as_str(),
                    ErrorCode::CryptoError,
                    "packet failed to decrypt",
                );
            },
        };
        let ghost plain_view = plain@;
        let ghost pre = self.sessions@;
        let mut s = self.sessions.remove(idx);
        let accepted = s.accept_counter(counter);
        let ghost s_upd = s;
        self.sessions.insert(idx, s);
        proof {
            assert(self.sessions@ =~= pre.update(idx as int, s_upd));
            assert forall|a: int, b: int| #![trigger self.sessions@[a], self.sessions@[b]]
                0 <= a < b < self.sessions@.len() implies self.sessions@[a].id@
                != self.sessions@[b].id@ && !(self.sessions@[a].state == SessionState::Active
                && self.sessions@[b].state == SessionState::Active && self.sessions@[a].peer_id@
                == self.sessions@[b].peer_id@) by {
                assert(pre[a].id@ != pre[b].id@);
            }
        }
        if !accepted {
            proof {
                assert(self.sessions@ =~= pre);
            }
            return self.close_session_after_failure(
                session_id.as_str(),
                ErrorCode::CryptoError,
                "replayed or out-of-order packet",
            );
        }
        proof {
            assert(packet_acceptable(pre[idx as int], session_id@, data@));
            assert forall|k: PacketKind, c2: u64, m2: Seq<u8>|
                m2.len() <= AEAD_LEN_MAX && data@ == sealed_packet_of(
                    pre[idx as int].key@,
                    session_id@,
                    k,
                    c2,
                    m2,
                ) implies k == kind && c2 == counter && m2 == plain_view by {}
        }
        let ghost pre0 = *old(self);
        proof {
            assert(pre0.sessions@ == pre);
        }
        self.dispatch_packet(Ghost(pre0), Ghost(data@), idx, kind, counter, session_id, plain)
    }


    /// Dispatches one accepted packet on its tag. The caller opened the
    /// packet, pinned its kind, counter and payload, and recorded the
    /// counter; this step does what the tag asks and answers for the whole
    /// outcome.
    #[verifier::rlimit(100)]
    fn dispatch_packet(
        &mut self,
        Ghost(pre0): Ghost<CoreManager>,
        Ghost(gdata): Ghost<Seq<u8>>,
        idx: usize,
        kind: PacketKind,
        counter: u64,
        session_id: String,
        plain: Vec<u8>,
    ) -> (r: (Vec<Action>, Vec<StateUpdate>))
        requires
            pre0.wf(),
            0 <= idx < pre0.sessions@.len(),
            pre0.sessions@[idx as int].id@ == session_id@,
            pre0.sessions@[idx as int].state == SessionState::Active,
            counter > pre0.sessions@[idx as int].recv_counter,
            old(self).wf(),
            old(self).sessions@ == pre0.sessions@.update(
                idx as int,
                pre0.sessions@[idx as int].with_accepted(counter),
            ),
            old(self).store == pre0.store,
            old(self).transfers == pre0.transfers,
            old(self).settings == pre0.settings,
            old(self).local_device_id == pre0.local_device_id,
            old(self).discovered == pre0.discovered,
            old(self).discovering == pre0.discovering,
            plain@.len() <= AEAD_LEN_MAX,
            forall|k: PacketKind, c2: u64, m2: Seq<u8>| #![auto]
                m2.len() <= AEAD_LEN_MAX && gdata == sealed_packet_of(
                    pre0.sessions@[idx as int].key@,
                    session_id@,
                    k,
                    c2,
                    m2,
                ) ==> k == kind && c2 == counter && m2 == plain@,
            gdata == sealed_packet_of(
                pre0.sessions@[idx as int].key@,
                session_id@,
                kind,
                counter,
                plain@,
            ),
        ensures
            final(self).wf(),
            final(self).store.devices == pre0.store.devices,
            final(self).settings == pre0.settings,
            final(self).discovering == pre0.discovering,
            forall|i: int|
                0 <= i < pre0.sessions@.len() && pre0.sessions@[i].id@ == session_id@
                    ==> data_received_outcome(
                    pre0,
                    *final(self),
                    session_id@,
                    gdata,
                    r.0@,
                    r.1@,
                    i,
                ),
    {
        let ghost sidv = session_id@;
        let ghost pre = pre0.sessions@;
        let ghost plain_view = plain@;
        let ghost data_v = gdata;
        proof {
            assert(packet_acceptable(pre0.sessions@[idx as int], sidv, data_v));
        }
        let peer_id = self.sessions[idx].peer_id.clone();
        match kind {
            PacketKind::Message => {
                let content = crate::wire::clone_bytes(&plain);
                match string_from_utf8(plain) {
                    Some(text) => {
                        let now = now_millis();
                        let row = Message {
                            id: new_uuid(),
                            conversation_id: peer_id.clone(),
                            sender_id: peer_id,
                            receiver_id: self.local_device_id.clone(),
                            content,
                            timestamp: now,
                            status: MessageStatus::Sent,
                        };
                        let actions: Vec<Action> = Vec::new();
                        let mut updates: Vec<StateUpdate> = Vec::new();
                        match self.store.add_message(row) {
                            Ok(()) => {
                                updates.push(
                                    StateUpdate::MessageReceived {
                                        session_id,
                                        message: text,
                                        timestamp: now,
                                    },
                                );
                            },
                            Err(_) => {
                                updates.push(
                                    StateUpdate::Error {
                                        code: ErrorCode::SessionError,
                                        message: String::from_str("message row not stored"),
                                    },
                                );
                            },
                        }
                        proof {
                            lemma_other_kinds_refuted(
                                pre0.sessions@[idx as int].key@,
                                sidv,
                                data_v,
                                kind,
                                counter,
                                plain_view,
                            );
                            assert(data_received_outcome(
                                pre0,
                                *self,
                                sidv,
                                data_v,
                                actions@,
                                updates@,
                                idx as int,
                            ));
                            lemma_outcome_at_every_match(
                                pre0,
                                *self,
                                sidv,
                                data_v,
                                actions@,
                                updates@,
                                idx as int,
                            );
                        }
                        (actions, updates)
                    },
                    None => {
                        let actions: Vec<Action> = Vec::new();
                        let mut updates: Vec<StateUpdate> = Vec::new();
                        updates.push(
                            StateUpdate::Error {
                                code: ErrorCode::CryptoError,
                                message: String::from_str("message is not valid text"),
                            },
                        );
                        proof {
                            lemma_other_kinds_refuted(
                                pre0.sessions@[idx as int].key@,
                                sidv,
                                data_v,
                                kind,
                                counter,
                                plain_view,
                            );
                            assert(data_received_outcome(
                                pre0,
                                *self,
                                sidv,
                                data_v,
                                actions@,
                                updates@,
                                idx as int,
                            ));
                            lemma_outcome_at_every_match(
                                pre0,
                                *self,
                                sidv,
                                data_v,
                                actions@,
                                updates@,
                                idx as int,
                            );
                        }
                        (actions, updates)
                    },
                }
            },
            PacketKind::FileHeader => {
                let h = match decode_header_payload(plain.as_slice()) {
                    Some(h) => h,
                    None => {
                        let actions: Vec<Action> = Vec::new();
                        let mut updates: Vec<StateUpdate> = Vec::new();
                        updates.push(
                            StateUpdate::Error {
                                code: ErrorCode::FileError,
                                message: String::from_str("malformed file header"),
                            },
                        );
                        proof {
                            lemma_other_kinds_refuted(
                                pre0.sessions@[idx as int].key@,
                                sidv,
                                data_v,
                                kind,
                                counter,
                                plain_view,
                            );
                            assert forall|c2: u64, id: Seq<char>, name: Seq<char>, sum: Seq<char>, total: u64|
                                lp_ok(id) && lp_ok(name) && lp_ok(sum) && header_payload_of(
                                    id,
                                    name,
                                    sum,
                                    total,
                                ).len() <= AEAD_LEN_MAX && data_v == sealed_packet_of(
                                    pre0.sessions@[idx as int].key@,
                                    sidv,
                                    PacketKind::FileHeader,
                                    c2,
                                    header_payload_of(id, name, sum, total),
                                ) implies false by {
                                assert(header_payload_of(id, name, sum, total) == plain_view);
                            }
                            assert(data_received_outcome(
                                pre0,
                                *self,
                                sidv,
                                data_v,
                                actions@,
                                updates@,
                                idx as int,
                            ));
                            lemma_outcome_at_every_match(
                                pre0,
                                *self,
                                sidv,
                                data_v,
                                actions@,
                                updates@,
                                idx as int,
                            );
                        }
                        return (actions, updates);
                    },
                };
                if h.total_size > 0x7FFF_FFFF_FFFF_FFFF {
                    let actions: Vec<Action> = Vec::new();
                    let mut updates: Vec<StateUpdate> = Vec::new();
                    updates.push(
                        StateUpdate::Error {
                            code: ErrorCode::FileError,
                            message: String::from_str("file too large"),
                        },
                    );
                    proof {
                        lemma_other_kinds_refuted(
                                pre0.sessions@[idx as int].key@,
                                sidv,
                                data_v,
                                kind,
                                counter,
                                plain_view,
                            );
                        assert forall|c2: u64, id: Seq<char>, name: Seq<char>, sum: Seq<char>, total: u64|
                            lp_ok(id) && lp_ok(name) && lp_ok(sum) && header_payload_of(
                                id,
                                name,
                                sum,
                                total,
                            ).len() <= AEAD_LEN_MAX && data_v == sealed_packet_of(
                                pre0.sessions@[idx as int].key@,
                                sidv,
                                PacketKind::FileHeader,
                                c2,
                                header_payload_of(id, name, sum, total),
                            ) && total <= 0x7FFF_FFFF_FFFF_FFFF implies false by {
                            assert(header_payload_of(id, name, sum, total) == plain_view);
                            assert(total == h.total_size);
                        }
                        assert(data_received_outcome(
                                pre0,
                                *self,
                                sidv,
                                data_v,
                                actions@,
                                updates@,
                                idx as int,
                            ));
                            lemma_outcome_at_every_match(
                                pre0,
                                *self,
                                sidv,
                                data_v,
                                actions@,
                                updates@,
                                idx as int,
                            );
                    }
                    return (actions, updates);
                }
                match self.find_transfer_index(h.transfer_id.as_str()) {
                    Some(_) => {
                        let actions: Vec<Action> = Vec::new();
                        let mut updates: Vec<StateUpdate> = Vec::new();
                        updates.push(
                            StateUpdate::Error {
                                code: ErrorCode::FileError,
                                message: String::from_str("transfer already known"),
                            },
                        );
                        proof {
                            lemma_other_kinds_refuted(
                                pre0.sessions@[idx as int].key@,
                                sidv,
                                data_v,
                                kind,
                                counter,
                                plain_view,
                            );
                            assert forall|c2: u64, id: Seq<char>, name: Seq<char>, sum: Seq<char>, total: u64|
                                lp_ok(id) && lp_ok(name) && lp_ok(sum) && header_payload_of(
                                    id,
                                    name,
                                    sum,
                                    total,
                                ).len() <= AEAD_LEN_MAX && data_v == sealed_packet_of(
                                    pre0.sessions@[idx as int].key@,
                                    sidv,
                                    PacketKind::FileHeader,
                                    c2,
                                    header_payload_of(id, name, sum, total),
                                ) && !has_transfer(pre0.transfers@, id) implies false by {
                                assert(header_payload_of(id, name, sum, total) == plain_view);
                                assert(id == h.transfer_id@);
                            }
                            assert(data_received_outcome(
                                pre0,
                                *self,
                                sidv,
                                data_v,
                                actions@,
                                updates@,
                                idx as int,
                            ));
                            lemma_outcome_at_every_match(
                                pre0,
                                *self,
                                sidv,
                                data_v,
                                actions@,
                                updates@,
                                idx as int,
                            );
                        }
                        (actions, updates)
                    },
                    None => {
                        let t = FileTransfer::new_inbound(
                            h.transfer_id.clone(),
                            session_id,
                            h.filename.clone(),
                            h.checksum.clone(),
                            h.total_size,
                        );
                        let ghost pre_t = self.transfers@;
                        self.transfers.push(t);
                        proof {
                            assert forall|a: int, b: int|
                                #![trigger self.transfers@[a], self.transfers@[b]]
                                0 <= a < b < self.transfers@.len() implies self.transfers@[a].id@
                                != self.transfers@[b].id@ by {
                                if b == pre_t.len() {
                                    assert(self.transfers@[a] == pre_t[a]);
                                    assert(pre_t.contains(pre_t[a]));
                                } else {
                                    assert(self.transfers@[a] == pre_t[a]);
                                    assert(self.transfers@[b] == pre_t[b]);
                                }
                            }
                            assert(self.transfers@.take(pre_t.len() as int) =~= pre_t);
                            assert(self.transfers@.last() == t);
                        }
                        let now = now_millis();
                        let row = File {
                            id: h.transfer_id,
                            sender_id: peer_id,
                            receiver_id: self.local_device_id.clone(),
                            filename: h.filename.clone(),
                            size: h.total_size as i64,
                            checksum: h.checksum,
                            path: h.filename,
                            timestamp: now,
                            status: FileStatus::InProgress,
                        };
                        let ghost rowg = row;
                        let actions: Vec<Action> = Vec::new();
                        let mut updates: Vec<StateUpdate> = Vec::new();
                        match self.store.add_file(row) {
                            Ok(()) => {},
                            Err(_) => {
                                updates.push(
                                    StateUpdate::Error {
                                        code: ErrorCode::FileError,
                                        message: String::from_str("file row not stored"),
                                    },
                                );
                            },
                        }
                        proof {
                            lemma_other_kinds_refuted(
                                pre0.sessions@[idx as int].key@,
                                sidv,
                                data_v,
                                kind,
                                counter,
                                plain_view,
                            );
                            assert forall|c2: u64, id: Seq<char>, name: Seq<char>, sum: Seq<char>, total: u64|
                                lp_ok(id) && lp_ok(name) && lp_ok(sum) && header_payload_of(
                                    id,
                                    name,
                                    sum,
                                    total,
                                ).len() <= AEAD_LEN_MAX && data_v == sealed_packet_of(
                                    pre0.sessions@[idx as int].key@,
                                    sidv,
                                    PacketKind::FileHeader,
                                    c2,
                                    header_payload_of(id, name, sum, total),
                                ) && total <= 0x7FFF_FFFF_FFFF_FFFF && !has_transfer(
                                    pre0.transfers@,
                                    id,
                                ) implies inbound_transfer_opened(
                                pre0,
                                *self,
                                sidv,
                                id,
                                name,
                                sum,
                                total,
                                updates@,
                            ) by {
                                assert(header_payload_of(id, name, sum, total) == plain_view);
                                assert(id == t.id@ && name == t.filename@ && sum == t.checksum@
                                    && total == t.total_size);
                            }
                            assert(data_received_outcome(
                                pre0,
                                *self,
                                sidv,
                                data_v,
                                actions@,
                                updates@,
                                idx as int,
                            ));
                            lemma_outcome_at_every_match(
                                pre0,
                                *self,
                                sidv,
                                data_v,
                                actions@,
                                updates@,
                                idx as int,
                            );
                        }
                        (actions, updates)
                    },
                }
            },
            PacketKind::FileChunk => {
                let ck = match decode_chunk_payload(plain.as_slice()) {
                    Some(c) => c,
                    None => {
                        let actions: Vec<Action> = Vec::new();
                        let mut updates: Vec<StateUpdate> = Vec::new();
                        updates.push(
                            StateUpdate::Error {
                                code: ErrorCode::FileError,
                                message: String::from_str("malformed file chunk"),
                            },
                        );
                        proof {
                            lemma_other_kinds_refuted(
                                pre0.sessions@[idx as int].key@,
                                sidv,
                                data_v,
                                kind,
                                counter,
                                plain_view,
                            );
                            assert(data_received_outcome(
                                pre0,
                                *self,
                                sidv,
                                data_v,
                                actions@,
                                updates@,
                                idx as int,
                            ));
                            lemma_outcome_at_every_match(
                                pre0,
                                *self,
                                sidv,
                                data_v,
                                actions@,
                                updates@,
                                idx as int,
                            );
                        }
                        return (actions, updates);
                    },
                };
                let t_idx = match self.find_transfer_index(ck.transfer_id.as_str()) {
                    Some(i) => i,
                    None => {
                        let actions: Vec<Action> = Vec::new();
                        let mut updates: Vec<StateUpdate> = Vec::new();
                        updates.push(
                            StateUpdate::Error {
                                code: ErrorCode::FileError,
                                message: String::from_str("unknown transfer"),
                            },
                        );
                        proof {
                            lemma_other_kinds_refuted(
                                pre0.sessions@[idx as int].key@,
                                sidv,
                                data_v,
                                kind,
                                counter,
                                plain_view,
                            );
                            assert(data_received_outcome(
                                pre0,
                                *self,
                                sidv,
                                data_v,
                                actions@,
                                updates@,
                                idx as int,
                            ));
                            lemma_outcome_at_every_match(
                                pre0,
                                *self,
                                sidv,
                                data_v,
                                actions@,
                                updates@,
                                idx as int,
                            );
                        }
                        return (actions, updates);
                    },
                };
                if self.transfers[t_idx].outbound || !str_eq(
                    self.transfers[t_idx].session_id.as_str(),
                    session_id.as_str(),
                ) {
                    let actions: Vec<Action> = Vec::new();
                    let mut updates: Vec<StateUpdate> = Vec::new();
                    updates.push(
                        StateUpdate::Error {
                            code: ErrorCode::FileError,
                            message: String::from_str("chunk does not belong here"),
                        },
                    );
                    proof {
                        lemma_other_kinds_refuted(
                                pre0.sessions@[idx as int].key@,
                                sidv,
                                data_v,
                                kind,
                                counter,
                                plain_view,
                            );
                        assert(data_received_outcome(
                                pre0,
                                *self,
                                sidv,
                                data_v,
                                actions@,
                                updates@,
                                idx as int,
                            ));
                            lemma_outcome_at_every_match(
                                pre0,
                                *self,
                                sidv,
                                data_v,
                                actions@,
                                updates@,
                                idx as int,
                            );
                    }
                    return (actions, updates);
                }
                let ghost pre_t = self.transfers@;
                let mut t = self.transfers.remove(t_idx);
                let ok = t.apply_chunk(ck.offset, ck.data.as_slice());
                if !ok {
                    self.transfers.insert(t_idx, t);
                    proof {
                        assert(self.transfers@ =~= pre_t);
                    }
                    let actions: Vec<Action> = Vec::new();
                    let mut updates: Vec<StateUpdate> = Vec::new();
                    updates.push(
                        StateUpdate::Error {
                            code: ErrorCode::FileError,
                            message: String::from_str("chunk out of order"),
                        },
                    );
                    proof {
                        lemma_other_kinds_refuted(
                                pre0.sessions@[idx as int].key@,
                                sidv,
                                data_v,
                                kind,
                                counter,
                                plain_view,
                            );
                        assert(data_received_outcome(
                            pre0,
                            *self,
                            sidv,
                            data_v,
                            actions@,
                            updates@,
                            idx as int,
                        ));
                        lemma_outcome_at_every_match(
                            pre0,
                            *self,
                            sidv,
                            data_v,
                            actions@,
                            updates@,
                            idx as int,
                        );
                    }
                    return (actions, updates);
                }
                if t.sent_size == t.total_size {
                    let sum = calculate_checksum(t.data.as_slice());
                    if str_eq(sum.as_str(), t.checksum.as_str()) {
                        t.status = FileStatus::Complete;
                        let file_bytes = crate::wire::clone_bytes(&t.data);
                        let path = t.filename.clone();
                        let tid = t.id.clone();
                        let sent = t.sent_size;
                        self.transfers.insert(t_idx, t);
                        proof {
                            lemma_transfer_update_keeps_ids(pre_t, self.transfers@, t_idx as int);
                        }
                        let _ = self.store.update_file_status(
                            tid.as_str(),
                            FileStatus::Complete,
                        );
                        let mut actions: Vec<Action> = Vec::new();
                        actions.push(Action::WriteFile { path: path.clone(), data: file_bytes });
                        let ack = FileAckInfo { transfer_id: tid, offset: sent };
                        let payload = encode_ack_payload(&ack);
                        match self.seal_on_session(idx, PacketKind::FileAck, payload.as_slice()) {
                            Some(p) => {
                                actions.push(
                                    Action::SendPacket { session_id: session_id.clone(), data: p },
                                );
                            },
                            None => {},
                        }
                        let mut updates: Vec<StateUpdate> = Vec::new();
                        updates.push(StateUpdate::FileReceived { session_id, file_path: path });
                        proof {
                            lemma_other_kinds_refuted(
                                pre0.sessions@[idx as int].key@,
                                sidv,
                                data_v,
                                kind,
                                counter,
                                plain_view,
                            );
                            assert(data_received_outcome(
                                pre0,
                                *self,
                                sidv,
                                data_v,
                                actions@,
                                updates@,
                                idx as int,
                            ));
                            lemma_outcome_at_every_match(
                                pre0,
                                *self,
                                sidv,
                                data_v,
                                actions@,
                                updates@,
                                idx as int,
                            );
                        }
                        (actions, updates)
                    } else {
                        t.status = FileStatus::Failed;
                        let tid = t.id.clone();
                        self.transfers.insert(t_idx, t);
                        proof {
                            lemma_transfer_update_keeps_ids(pre_t, self.transfers@, t_idx as int);
                        }
                        let _ = self.store.update_file_status(tid.as_str(), FileStatus::Failed);
                        let actions: Vec<Action> = Vec::new();
                        let mut updates: Vec<StateUpdate> = Vec::new();
                        updates.push(
                            StateUpdate::Error {
                                code: ErrorCode::FileError,
                                message: String::from_str("checksum mismatch"),
                            },
                        );
                        proof {
                            lemma_other_kinds_refuted(
                                pre0.sessions@[idx as int].key@,
                                sidv,
                                data_v,
                                kind,
                                counter,
                                plain_view,
                            );
                            assert(data_received_outcome(
                                pre0,
                                *self,
                                sidv,
                                data_v,
                                actions@,
                                updates@,
                                idx as int,
                            ));
                            lemma_outcome_at_every_match(
                                pre0,
                                *self,
                                sidv,
                                data_v,
                                actions@,
                                updates@,
                                idx as int,
                            );
                        }
                        (actions, updates)
                    }
                } else {
                    let due = if t.sent_size > 0 {
                        t.ack_due()
                    } else {
                        false
                    };
                    let tid = t.id.clone();
                    let sent = t.sent_size;
                    self.transfers.insert(t_idx, t);
                    proof {
                        lemma_transfer_update_keeps_ids(pre_t, self.transfers@, t_idx as int);
                    }
                    let mut actions: Vec<Action> = Vec::new();
                    if due {
                        let ack = FileAckInfo { transfer_id: tid, offset: sent };
                        let payload = encode_ack_payload(&ack);
                        match self.seal_on_session(idx, PacketKind::FileAck, payload.as_slice()) {
                            Some(p) => {
                                actions.push(Action::SendPacket { session_id, data: p });
                            },
                            None => {},
                        }
                    }
                    let updates: Vec<StateUpdate> = Vec::new();
                    proof {
                        lemma_other_kinds_refuted(
                            pre0.sessions@[idx as int].key@,
                            sidv,
                            data_v,
                            kind,
                            counter,
                            plain_view,
                        );
                        assert(data_received_outcome(
                            pre0,
                            *self,
                            sidv,
                            data_v,
                            actions@,
                            updates@,
                            idx as int,
                        ));
                        lemma_outcome_at_every_match(
                            pre0,
                            *self,
                            sidv,
                            data_v,
                            actions@,
                            updates@,
                            idx as int,
                        );
                    }
                    (actions, updates)
                }
            },
            PacketKind::FileAck => {
                let a = match decode_ack_payload(plain.as_slice()) {
                    Some(a) => a,
                    None => {
                        let actions: Vec<Action> = Vec::new();
                        let mut updates: Vec<StateUpdate> = Vec::new();
                        updates.push(
                            StateUpdate::Error {
                                code: ErrorCode::FileError,
                                message: String::from_str("malformed acknowledgement"),
                            },
                        );
                        return (actions, updates);
                    },
                };
                let t_idx = match self.find_transfer_index(a.transfer_id.as_str()) {
                    Some(i) => i,
                    None => {
                        let actions: Vec<Action> = Vec::new();
                        let mut updates: Vec<StateUpdate> = Vec::new();
                        updates.push(
                            StateUpdate::Error {
                                code: ErrorCode::FileError,
                                message: String::from_str("unknown transfer"),
                            },
                        );
                        return (actions, updates);
                    },
                };
                if !str_eq(self.transfers[t_idx].session_id.as_str(), session_id.as_str()) {
                    let actions: Vec<Action> = Vec::new();
                    let mut updates: Vec<StateUpdate> = Vec::new();
                    updates.push(
                        StateUpdate::Error {
                            code: ErrorCode::FileError,
                            message: String::from_str("acknowledgement does not belong here"),
                        },
                    );
                    return (actions, updates);
                }
                if !self.transfers[t_idx].outbound {
                    // The peer aborted: the receiving side fails with it.
                    if a.offset == crate::transfer::ABORT_OFFSET {
                        let ghost pre_t = self.transfers@;
                        let mut t = self.transfers.remove(t_idx);
                        t.cancel();
                        let tid = t.id.clone();
                        self.transfers.insert(t_idx, t);
                        proof {
                            lemma_transfer_update_keeps_ids(pre_t, self.transfers@, t_idx as int);
                        }
                        let _ = self.store.update_file_status(tid.as_str(), FileStatus::Failed);
                        let actions: Vec<Action> = Vec::new();
                        let updates: Vec<StateUpdate> = Vec::new();
                        return (actions, updates);
                    }
                    let actions: Vec<Action> = Vec::new();
                    let mut updates: Vec<StateUpdate> = Vec::new();
                    updates.push(
                        StateUpdate::Error {
                            code: ErrorCode::FileError,
                            message: String::from_str("acknowledgement does not belong here"),
                        },
                    );
                    return (actions, updates);
                }
                let ghost pre_t = self.transfers@;
                let mut t = self.transfers.remove(t_idx);
                t.apply_ack(a.offset);
                let tid = t.id.clone();
                let sent = t.sent_size;
                let total = t.total_size;
                let status = t.status;
                self.transfers.insert(t_idx, t);
                proof {
                    lemma_transfer_update_keeps_ids(pre_t, self.transfers@, t_idx as int);
                    assert(self.transfers@ =~= pre_t.update(
                        t_idx as int,
                        crate::transfer::after_ack(pre_t[t_idx as int], a.offset),
                    ));
                }
                let actions: Vec<Action> = Vec::new();
                let mut updates: Vec<StateUpdate> = Vec::new();
                match status {
                    FileStatus::Failed => {
                        let _ = self.store.update_file_status(tid.as_str(), FileStatus::Failed);
                    },
                    FileStatus::Complete => {
                        let _ = self.store.update_file_status(tid.as_str(), FileStatus::Complete);
                        updates.push(
                            StateUpdate::FileTransferProgress { transfer_id: tid, sent, total },
                        );
                    },
                    _ => {
                        updates.push(
                            StateUpdate::FileTransferProgress { transfer_id: tid, sent, total },
                        );
                    },
                }
                proof {
                    assert forall|c2: u64, id: Seq<char>, name: Seq<char>, sum: Seq<char>, total2: u64|
                        lp_ok(id) && lp_ok(name) && lp_ok(sum) && header_payload_of(
                            id,
                            name,
                            sum,
                            total2,
                        ).len() <= AEAD_LEN_MAX && data_v == sealed_packet_of(
                            pre0.sessions@[idx as int].key@,
                            session_id@,
                            PacketKind::FileHeader,
                            c2,
                            header_payload_of(id, name, sum, total2),
                        ) implies false by {}
                    assert forall|c2: u64, id: Seq<char>, offset2: u64, j: int|
                        lp_ok(id) && data_v == sealed_packet_of(
                            pre0.sessions@[idx as int].key@,
                            session_id@,
                            PacketKind::FileAck,
                            c2,
                            ack_payload_of(id, offset2),
                        ) && 0 <= j < old(self).transfers@.len() && old(self).transfers@[j].id@
                            == id && old(self).transfers@[j].outbound && old(
                            self,
                        ).transfers@[j].session_id@ == session_id@ implies ack_applied(
                        pre0,
                        *self,
                        offset2,
                        updates@,
                        j,
                    ) by {
                        assert(ack_payload_of(id, offset2) == plain_view);
                        assert(id == a.transfer_id@ && offset2 == a.offset);
                        if j != t_idx as int {
                            assert(pre_t[j].id@ != pre_t[t_idx as int].id@);
                        }
                        assert(j == t_idx as int);
                        if !crate::transfer::after_ack(pre_t[j], offset2).status.is_terminal()
                            || pre_t[j].status == FileStatus::Complete {
                        }
                        if status != FileStatus::Failed {
                            assert(updates@[0] matches StateUpdate::FileTransferProgress { .. });
                        }
                    }
                    assert(data_received_outcome(
                        pre0,
                        *self,
                        session_id@,
                        data_v,
                        actions@,
                        updates@,
                        idx as int,
                    ));
                    assert forall|i: int|
                        0 <= i < old(self).sessions@.len() && old(self).sessions@[i].id@
                            == session_id@ implies data_received_outcome(
                        pre0,
                        *self,
                        session_id@,
                        data_v,
                        actions@,
                        updates@,
                        i,
                    ) by {
                        if i != idx as int {
                            assert(pre[i].id@ != pre[idx as int].id@);
                        }
                        assert(i == idx as int);
                    }
                }
                (actions, updates)
            },
        }
    }

    /// Begins sending a file: over a live session, the shell is asked to
    /// read the file's bytes for a fresh transfer identifier; nothing moves
    /// until they arrive.
    pub fn handle_send_file(&mut self, session_id: String, path: String) -> (r: (
        Vec<Action>,
        Vec<StateUpdate>,
    ))
        requires
            old(self).wf(),
        ensures
            final(self).wf(),
            *final(self) == *old(self),
            !has_session(old(self).sessions@, session_id@) ==> single_error(
                r.0@,
                r.1@,
                ErrorCode::SessionError,
            ),
            forall|i: int|
                0 <= i < old(self).sessions@.len() && old(self).sessions@[i].id@ == session_id@
                    && old(self).sessions@[i].state == SessionState::Active ==> r.0@.len() == 1
                    && (r.0@[0] matches Action::ReadFile { transfer_id: t, session_id: s, path: p }
                    && s@ == session_id@ && p@ == path@) && r.1@.len() == 0,
    {
        let idx = match self.find_session_index(session_id.as_str()) {
            Some(i) => i,
            None => {
                let actions: Vec<Action> = Vec::new();
                let mut updates: Vec<StateUpdate> = Vec::new();
                updates.push(
                    StateUpdate::Error {
                        code: ErrorCode::SessionError,
                        message: String::from_str("no such session"),
                    },
                );
                return (actions, updates);
            },
        };
        if !(match self.sessions[idx].state {
            SessionState::Active => true,
            _ => false,
        }) {
            let actions: Vec<Action> = Vec::new();
            let mut updates: Vec<StateUpdate> = Vec::new();
            updates.push(
                StateUpdate::Error {
                    code: ErrorCode::SessionError,
                    message: String::from_str("session is not active"),
                },
            );
            return (actions, updates);
        }
        let transfer_id = new_uuid();
        let mut actions: Vec<Action> = Vec::new();
        actions.push(Action::ReadFile { transfer_id, session_id, path });
        (actions, Vec::new())
    }

    /// Takes the bytes of a file the shell read for a transfer: the file's
    /// checksum is computed, a sending-side transfer and its file row are
    /// recorded, and the header packet and every chunk packet go out in
    /// counter order. A taken transfer identifier is refused — a transfer is
    /// never restarted — as is a missing or inactive session.
    #[verifier::rlimit(100)]
    pub fn file_data_ready(
        &mut self,
        transfer_id: String,
        session_id: String,
        filename: String,
        path: String,
        data: Vec<u8>,
    ) -> (r: (Vec<Action>, Vec<StateUpdate>))
        requires
            old(self).wf(),
        ensures
            final(self).wf(),
            final(self).store.devices == old(self).store.devices,
            final(self).store.messages == old(self).store.messages,
            final(self).settings == old(self).settings,
            !has_session(old(self).sessions@, session_id@) ==> *final(self) == *old(self)
                && single_error(r.0@, r.1@, ErrorCode::SessionError),
            forall|i: int|
                0 <= i < old(self).sessions@.len() && old(self).sessions@[i].id@ == session_id@
                    && old(self).sessions@[i].state == SessionState::Active && has_transfer(
                    old(self).transfers@,
                    transfer_id@,
                ) ==> *final(self) == *old(self) && single_error(r.0@, r.1@, ErrorCode::FileError),
            forall|i: int|
                0 <= i < old(self).sessions@.len() && old(self).sessions@[i].id@ == session_id@
                    ==> file_send_outcome(
                    *old(self),
                    *final(self),
                    transfer_id@,
                    session_id@,
                    filename@,
                    data@,
                    r.0@,
                    r.1@,
                    i,
                ),
    {
        let idx = match self.find_session_index(session_id.as_str()) {
            Some(i) => i,
            None => {
                let actions: Vec<Action> = Vec::new();
                let mut updates: Vec<StateUpdate> = Vec::new();
                updates.push(
                    StateUpdate::Error {
                        code: ErrorCode::SessionError,
                        message: String::from_str("no such session"),
                    },
                );
                return (actions, updates);
            },
        };
        if !(match self.sessions[idx].state {
            SessionState::Active => true,
            _ => false,
        }) {
            let actions: Vec<Action> = Vec::new();
            let mut updates: Vec<StateUpdate> = Vec::new();
            updates.push(
                StateUpdate::Error {
                    code: ErrorCode::SessionError,
                    message: String::from_str("session is not active"),
                },
            );
            return (actions, updates);
        }
        if self.find_transfer_index(transfer_id.as_str()).is_some() {
            let actions: Vec<Action> = Vec::new();
            let mut updates: Vec<StateUpdate> = Vec::new();
            updates.push(
                StateUpdate::Error {
                    code: ErrorCode::FileError,
                    message: String::from_str("transfer already known"),
                },
            );
            return (actions, updates);
        }
        if transfer_id.as_str().as_bytes().len() > 0xFFFF || filename.as_str().as_bytes().len()
            > 0xFFFF || data.len() as u64 > 0x7FFF_FFFF_FFFF_FFFF {
            let actions: Vec<Action> = Vec::new();
            let mut updates: Vec<StateUpdate> = Vec::new();
            updates.push(
                StateUpdate::Error {
                    code: ErrorCode::FileError,
                    message: String::from_str("file or transfer name out of bounds"),
                },
            );
            return (actions, updates);
        }
        let count: u64 = if data.len() == 0 {
            0
        } else {
            (data.len() as u64 - 1) / CHUNK_SIZE + 1
        };
        proof {
            vstd::arithmetic::div_mod::lemma_fundamental_div_mod(
                (data@.len() - 1) as int,
                CHUNK_SIZE as int,
            );
            if data@.len() > 0 {
                let rem = (data@.len() - 1) as int % (CHUNK_SIZE as int);
                vstd::arithmetic::div_mod::lemma_fundamental_div_mod_converse(
                    (data@.len() + CHUNK_SIZE - 1) as int,
                    CHUNK_SIZE as int,
                    count as int,
                    rem,
                );
            }
            assert(count == chunk_count_of(data@.len() as u64));
        }
        let base = self.sessions[idx].send_counter;
        if count > u64::MAX - 1 || base > u64::MAX - 1 - count {
            let actions: Vec<Action> = Vec::new();
            let mut updates: Vec<StateUpdate> = Vec::new();
            updates.push(
                StateUpdate::Error {
                    code: ErrorCode::CryptoError,
                    message: String::from_str("send counter exhausted"),
                },
            );
            return (actions, updates);
        }
        let checksum = calculate_checksum(data.as_slice());
        if checksum.as_str().as_bytes().len() > 0xFFFF {
            let actions: Vec<Action> = Vec::new();
            let mut updates: Vec<StateUpdate> = Vec::new();
            updates.push(
                StateUpdate::Error {
                    code: ErrorCode::FileError,
                    message: String::from_str("file or transfer name out of bounds"),
                },
            );
            return (actions, updates);
        }
        let ghost s0 = self.sessions@[idx as int];
        let ghost pre_transfers = self.transfers@;
        let total = data.len() as u64;
        let header = FileHeaderInfo {
            transfer_id: transfer_id.clone(),
            filename: filename.clone(),
            checksum: checksum.clone(),
            total_size: total,
        };
        let header_payload = encode_header_payload(&header);
        proof {
            assert(header_payload@.len() <= AEAD_LEN_MAX);
        }
        let mut actions: Vec<Action> = Vec::new();
        let hp = match self.seal_on_session(idx, PacketKind::FileHeader, header_payload.as_slice(),
        ) {
            Some(p) => p,
            None => {
                let actions2: Vec<Action> = Vec::new();
                let mut updates: Vec<StateUpdate> = Vec::new();
                updates.push(
                    StateUpdate::Error {
                        code: ErrorCode::CryptoError,
                        message: String::from_str("send counter exhausted"),
                    },
                );
                return (actions2, updates);
            },
        };
        actions.push(Action::SendPacket { session_id: session_id.clone(), data: hp });
        let t = FileTransfer::new_outbound(
            transfer_id.clone(),
            session_id.clone(),
            filename.clone(),
            checksum.clone(),
            data,
        );
        let mut ci: u64 = 0;
        while ci < count
            invariant
                self.wf(),
                old(self).wf(),
                self.store == old(self).store,
                self.settings == old(self).settings,
                self.transfers == old(self).transfers,
                self.local_device_id == old(self).local_device_id,
                self.discovered == old(self).discovered,
                self.discovering == old(self).discovering,
                0 <= ci <= count,
                idx < old(self).sessions@.len(),
                idx < self.sessions@.len(),
                old(self).sessions@[idx as int] == s0,
                s0.id@ == session_id@,
                s0.state == SessionState::Active,
                !has_transfer(old(self).transfers@, transfer_id@),
                file_send_ready(*old(self), s0, transfer_id@, filename@, data@),
                t.wf(),
                t.outbound,
                t.id@ == transfer_id@,
                t.session_id@ == session_id@,
                t.filename@ == filename@,
                t.checksum@ == hex_of(sha256_of(data@)),
                t.data@ == data@,
                t.total_size == data@.len(),
                t.sent_size == 0,
                t.status == FileStatus::Pending,
                count == chunk_count_of(t.total_size),
                s0.send_counter + 1 + count <= u64::MAX,
                s0.wf(),
                self.sessions@ == old(self).sessions@.update(
                    idx as int,
                    (Session { send_counter: (s0.send_counter + 1 + ci) as u64, ..s0 }),
                ),
                actions@.len() == 1 + ci,
                header_packet_action(s0, transfer_id@, t.filename@, t.checksum@, t.total_size, actions@[0]),
                forall|u: int|
                    0 <= u < ci ==> chunk_packet_action(
                        s0,
                        transfer_id@,
                        t.data@,
                        u,
                        #[trigger] actions@[1 + u],
                    ),
            decreases count - ci,
        {
            proof {
                assert(self.sessions@[idx as int].send_counter < u64::MAX);
            }
            let (offset, bytes) = match t.chunk_at(ci) {
                Some(c) => c,
                None => {
                    proof {
                        assert(false);
                    }
                    vstd::pervasive::unreached()
                },
            };
            proof {
                assert(crate::transfer::chunk_len_of(t.total_size, ci as int) <= CHUNK_SIZE as int);
            }
            let chunk = FileChunkInfo { transfer_id: transfer_id.clone(), offset, data: bytes };
            let payload = encode_chunk_payload(&chunk);
            proof {
                assert(payload@.len() <= AEAD_LEN_MAX);
            }
            let p = match self.seal_on_session(idx, PacketKind::FileChunk, payload.as_slice()) {
                Some(p) => p,
                None => {
                    proof {
                        assert(false);
                    }
                    vstd::pervasive::unreached()
                },
            };
            actions.push(Action::SendPacket { session_id: session_id.clone(), data: p });
            proof {
                assert(self.sessions@ =~= old(self).sessions@.update(
                    idx as int,
                    (Session { send_counter: (s0.send_counter + 2 + ci) as u64, ..s0 }),
                ));
            }
            ci = ci + 1;
        }
        let ghost pre_push = self.transfers@;
        self.transfers.push(t);
        proof {
            assert forall|a: int, b: int| #![trigger self.transfers@[a], self.transfers@[b]]
                0 <= a < b < self.transfers@.len() implies self.transfers@[a].id@
                != self.transfers@[b].id@ by {
                if b == pre_push.len() {
                    assert(self.transfers@[a] == pre_push[a]);
                    assert(pre_push.contains(pre_push[a]));
                } else {
                    assert(self.transfers@[a] == pre_push[a]);
                    assert(self.transfers@[b] == pre_push[b]);
                }
            }
        }
        let now = now_millis();
        let peer_id = self.sessions[idx].peer_id.clone();
        let row = File {
            id: transfer_id,
            sender_id: self.local_device_id.clone(),
            receiver_id: peer_id,
            filename,
            size: total as i64,
            checksum,
            path,
            timestamp: now,
            status: FileStatus::Pending,
        };
        let mut updates: Vec<StateUpdate> = Vec::new();
        match self.store.add_file(row) {
            Ok(()) => {},
            Err(_) => {
                updates.push(
                    StateUpdate::Error {
                        code: ErrorCode::FileError,
                        message: String::from_str("file row not stored"),
                    },
                );
            },
        }
        (actions, updates)
    }

    /// Cancels a transfer: a transfer still in flight fails, its file row
    /// fails with it, and on the sending side an abort acknowledgement goes
    /// out so the peer fails too. A terminal transfer stays what it is.
    pub fn handle_cancel_transfer(&mut self, transfer_id: String) -> (r: (
        Vec<Action>,
        Vec<StateUpdate>,
    ))
        requires
            old(self).wf(),
        ensures
            final(self).wf(),
            final(self).store.devices == old(self).store.devices,
            final(self).store.messages == old(self).store.messages,
            final(self).settings == old(self).settings,
            !has_transfer(old(self).transfers@, transfer_id@) ==> *final(self) == *old(self)
                && single_error(r.0@, r.1@, ErrorCode::FileError),
            forall|i: int|
                0 <= i < old(self).transfers@.len() && old(self).transfers@[i].id@ == transfer_id@
                    && !old(self).transfers@[i].status.is_terminal()
                    ==> final(self).transfers@[i].status == FileStatus::Failed,
            final(self).transfers@.len() == old(self).transfers@.len(),
            forall|i: int|
                0 <= i < final(self).transfers@.len() ==> (#[trigger] final(self).transfers@[i]
                    == old(self).transfers@[i] || final(self).transfers@[i] == (FileTransfer {
                    status: FileStatus::Failed,
                    ..old(self).transfers@[i]
                })),
            forall|j: int, i: int| #![auto]
                0 <= j < old(self).transfers@.len() && old(self).transfers@[j].id@ == transfer_id@
                    && old(self).transfers@[j].outbound
                    && !old(self).transfers@[j].status.is_terminal() && 0 <= i < old(
                    self,
                ).sessions@.len() && old(self).sessions@[i].id@
                    == old(self).transfers@[j].session_id@ && old(self).sessions@[i].send_counter
                    < u64::MAX ==> abort_ack_sent(
                    old(self).sessions@[i],
                    transfer_id@,
                    r.0@,
                ),
    {
        let t_idx = match self.find_transfer_index(transfer_id.as_str()) {
            Some(i) => i,
            None => {
                let actions: Vec<Action> = Vec::new();
                let mut updates: Vec<StateUpdate> = Vec::new();
                updates.push(
                    StateUpdate::Error {
                        code: ErrorCode::FileError,
                        message: String::from_str("unknown transfer"),
                    },
                );
                return (actions, updates);
            },
        };
        let ghost pre_t = self.transfers@;
        let mut t = self.transfers.remove(t_idx);
        t.cancel();
        let outbound = t.outbound;
        let tid = t.id.clone();
        let t_session = t.session_id.clone();
        self.transfers.insert(t_idx, t);
        proof {
            lemma_transfer_update_keeps_ids(pre_t, self.transfers@, t_idx as int);
        }
        let _ = self.store.update_file_status(tid.as_str(), FileStatus::Failed);
        let mut actions: Vec<Action> = Vec::new();
        if outbound {
            match self.find_session_index(t_session.as_str()) {
                Some(s_idx) => {
                    let ack = FileAckInfo { transfer_id: tid, offset: crate::transfer::ABORT_OFFSET };
                    let payload = encode_ack_payload(&ack);
                    proof {
                        assert(payload@.len() <= AEAD_LEN_MAX);
                    }
                    match self.seal_on_session(s_idx, PacketKind::FileAck, payload.as_slice()) {
                        Some(p) => {
                            actions.push(Action::SendPacket { session_id: t_session, data: p });
                            proof {
                                assert forall|j: int, i: int| #![auto]
                                    0 <= j < old(self).transfers@.len() && old(
                                        self,
                                    ).transfers@[j].id@ == transfer_id@ && old(
                                        self,
                                    ).transfers@[j].outbound && !old(
                                        self,
                                    ).transfers@[j].status.is_terminal() && 0 <= i < old(
                                        self,
                                    ).sessions@.len() && old(self).sessions@[i].id@ == old(
                                        self,
                                    ).transfers@[j].session_id@ && old(
                                        self,
                                    ).sessions@[i].send_counter < u64::MAX implies abort_ack_sent(
                                    old(self).sessions@[i],
                                    transfer_id@,
                                    actions@,
                                ) by {
                                    if j != t_idx as int {
                                        assert(old(self).transfers@[j].id@ != old(
                                            self,
                                        ).transfers@[t_idx as int].id@);
                                    }
                                    assert(j == t_idx as int);
                                    if i != s_idx as int {
                                        assert(old(self).sessions@[i].id@ != old(
                                            self,
                                        ).sessions@[s_idx as int].id@);
                                    }
                                    assert(i == s_idx as int);
                                    assert(actions@[actions@.len() - 1]
                                        matches Action::SendPacket { .. });
                                }
                            }
                        },
                        None => {},
                    }
                },
                None => {},
            }
        }
        (actions, Vec::new())
    }

    /// Records that a peer connected. Sessions are created only at pairing
    /// completion, so nothing changes here.
    pub fn handle_device_connected(&mut self, _id: String) -> (r: (Vec<Action>, Vec<StateUpdate>))
        requires
            old(self).wf(),
        ensures
            final(self).wf(),
            *final(self) == *old(self),
            r.0@.len() == 0,
            r.1@.len() == 0,
    {
        (Vec::new(), Vec::new())
    }

    /// Takes a disconnect callback: every session with the peer closes and
    /// leaves the map, and the transfers those sessions carried fail.
    pub fn handle_device_disconnected(&mut self, id: String) -> (r: (Vec<Action>, Vec<StateUpdate>))
        requires
            old(self).wf(),
        ensures
            final(self).wf(),
            final(self).store == old(self).store,
            final(self).settings == old(self).settings,
            forall|i: int|
                0 <= i < final(self).sessions@.len() ==> (#[trigger] final(self).sessions@[i]).peer_id@
                    != id@,
            forall|x: Session|
                old(self).sessions@.contains(x) && x.peer_id@ != id@
                    ==> final(self).sessions@.contains(x),
            final(self).transfers@.len() == old(self).transfers@.len(),
            forall|i: int|
                0 <= i < final(self).transfers@.len() ==> (#[trigger] final(self).transfers@[i]
                    == old(self).transfers@[i] || final(self).transfers@[i] == (FileTransfer {
                    status: FileStatus::Failed,
                    ..old(self).transfers@[i]
                })),
            forall|i: int|
                0 <= i < final(self).transfers@.len() && !has_session(
                    final(self).sessions@,
                    old(self).transfers@[i].session_id@,
                ) && !old(self).transfers@[i].status.is_terminal() ==> (
                #[trigger] final(self).transfers@[i]).status == FileStatus::Failed,
            r.1@.len() == 0,
    {
        let actions = self.remove_sessions_for_peer(id.as_str());
        self.fail_orphan_transfers();
        (actions, Vec::new())
    }

    /// Fails every transfer whose session is gone; terminal transfers stay.
    fn fail_orphan_transfers(&mut self)
        requires
            old(self).wf(),
        ensures
            final(self).wf(),
            *final(self) == (CoreManager { transfers: final(self).transfers, ..*old(self) }),
            final(self).transfers@.len() == old(self).transfers@.len(),
            forall|i: int|
                0 <= i < final(self).transfers@.len() ==> (#[trigger] final(self).transfers@[i]
                    == old(self).transfers@[i] || final(self).transfers@[i] == (FileTransfer {
                    status: FileStatus::Failed,
                    ..old(self).transfers@[i]
                })),
            forall|i: int|
                0 <= i < final(self).transfers@.len() && !has_session(
                    old(self).sessions@,
                    old(self).transfers@[i].session_id@,
                ) && !old(self).transfers@[i].status.is_terminal() ==> (
                #[trigger] final(self).transfers@[i]).status == FileStatus::Failed,
    {
        let n = self.transfers.len();
        let mut j: usize = 0;
        while j < n
            invariant
                self.wf(),
                self.store == old(self).store,
                self.settings == old(self).settings,
                self.sessions == old(self).sessions,
                self.local_device_id == old(self).local_device_id,
                self.discovered == old(self).discovered,
                self.discovering == old(self).discovering,
                n == self.transfers@.len(),
                0 <= j <= n,
                forall|i: int|
                    0 <= i < n ==> (#[trigger] self.transfers@[i] == old(self).transfers@[i]
                        || self.transfers@[i] == (FileTransfer {
                        status: FileStatus::Failed,
                        ..old(self).transfers@[i]
                    })),
                forall|i: int|
                    0 <= i < j && !has_session(
                        old(self).sessions@,
                        old(self).transfers@[i].session_id@,
                    ) && !old(self).transfers@[i].status.is_terminal() ==> (
                    #[trigger] self.transfers@[i]).status == FileStatus::Failed,
                forall|i: int|
                    j <= i < n ==> #[trigger] self.transfers@[i] == old(self).transfers@[i],
            decreases n - j,
        {
            let session_alive = self.find_session_index(
                self.transfers[j].session_id.as_str(),
            ).is_some();
            if !session_alive {
                let ghost pre_iter = self.transfers@;
                let mut t = self.transfers.remove(j);
                t.cancel();
                self.transfers.insert(j, t);
                proof {
                    assert(self.transfers@ =~= pre_iter.update(j as int, t));
                }
            }
            j = j + 1;
        }
    }

    /// Shuts the core down: every session closes and leaves the map, every
    /// transfer still in flight fails, and discovery stops.
    pub fn handle_shutdown(&mut self) -> (r: (Vec<Action>, Vec<StateUpdate>))
        requires
            old(self).wf(),
        ensures
            final(self).wf(),
            final(self).store == old(self).store,
            final(self).settings == old(self).settings,
            final(self).sessions@.len() == 0,
            !final(self).discovering,
            final(self).transfers@.len() == old(self).transfers@.len(),
            forall|i: int|
                0 <= i < final(self).transfers@.len() ==> (#[trigger] final(self).transfers@[i]
                    == old(self).transfers@[i] || final(self).transfers@[i] == (FileTransfer {
                    status: FileStatus::Failed,
                    ..old(self).transfers@[i]
                })),
            forall|i: int|
                0 <= i < final(self).transfers@.len() && !old(
                    self,
                ).transfers@[i].status.is_terminal() ==> (
                #[trigger] final(self).transfers@[i]).status == FileStatus::Failed,
            r.1@.len() == 0,
    {
        let mut actions: Vec<Action> = Vec::new();
        while self.sessions.len() > 0
            invariant
                self.wf(),
                self.store == old(self).store,
                self.settings == old(self).settings,
                self.transfers == old(self).transfers,
                self.local_device_id == old(self).local_device_id,
                self.discovered == old(self).discovered,
                self.discovering == old(self).discovering,
            decreases self.sessions@.len(),
        {
            let ghost pre = self.sessions@;
            let mut s = match self.sessions.pop() {
                Some(s) => s,
                None => {
                    proof {
                        assert(false);
                    }
                    vstd::pervasive::unreached()
                },
            };
            crate::crypto::zeroize_bytes(&mut s.key);
            actions.push(Action::CloseTransport { session_id: s.id });
            proof {
                assert forall|a: int, b: int|
                    #![trigger self.sessions@[a], self.sessions@[b]]
                    0 <= a < b < self.sessions@.len() implies self.sessions@[a].id@
                    != self.sessions@[b].id@ && !(self.sessions@[a].state == SessionState::Active
                    && self.sessions@[b].state == SessionState::Active
                    && self.sessions@[a].peer_id@ == self.sessions@[b].peer_id@) by {
                    assert(self.sessions@[a] == pre[a]);
                    assert(self.sessions@[b] == pre[b]);
                }
            }
        }
        let n = self.transfers.len();
        let mut j: usize = 0;
        while j < n
            invariant
                self.wf(),
                self.store == old(self).store,
                self.settings == old(self).settings,
                self.sessions@.len() == 0,
                self.local_device_id == old(self).local_device_id,
                self.discovered == old(self).discovered,
                n == self.transfers@.len(),
                0 <= j <= n,
                forall|i: int|
                    0 <= i < n ==> (#[trigger] self.transfers@[i] == old(self).transfers@[i]
                        || self.transfers@[i] == (FileTransfer {
                        status: FileStatus::Failed,
                        ..old(self).transfers@[i]
                    })),
                forall|i: int|
                    0 <= i < j && !old(self).transfers@[i].status.is_terminal() ==> (
                    #[trigger] self.transfers@[i]).status == FileStatus::Failed,
                forall|i: int|
                    j <= i < n ==> #[trigger] self.transfers@[i] == old(self).transfers@[i],
            decreases n - j,
        {
            let ghost pre_iter = self.transfers@;
            let mut t = self.transfers.remove(j);
            t.cancel();
            self.transfers.insert(j, t);
            proof {
                assert(self.transfers@ =~= pre_iter.update(j as int, t));
            }
            j = j + 1;
        }
        self.discovering = false;
        (actions, Vec::new())
    }

    /// Takes the command to pair with a device: the shell is asked to
    /// connect and drive the handshake; nothing changes until it completes.
    pub fn handle_pair_with_device(&mut self, device_id: String) -> (r: (
        Vec<Action>,
        Vec<StateUpdate>,
    ))
        requires
            old(self).wf(),
        ensures
            final(self).wf(),
            *final(self) == *old(self),
            r.0@.len() == 1 && (r.0@[0] matches Action::ConnectAndPair { device_id: d } && d@
                == device_id@),
            r.1@.len() == 0,
    {
        let mut actions: Vec<Action> = Vec::new();
        actions.push(Action::ConnectAndPair { device_id });
        (actions, Vec::new())
    }

    /// The event loop's single step: consumes one event, mutates the state
    /// it owns, and returns the actions the shell must perform and the
    /// updates observers hear. Each event goes to its handler; the essential
    /// promise of each is restated here arm by arm.
    pub fn handle_event(&mut self, event: Event) -> (r: (Vec<Action>, Vec<StateUpdate>))
        requires
            old(self).wf(),
        ensures
            final(self).wf(),
            event matches Event::StartDiscovery ==> *final(self) == (CoreManager {
                discovering: true,
                ..*old(self)
            }) && r.1@.len() == 1 && (r.1@[0] matches StateUpdate::DiscoveryStarted),
            event matches Event::StopDiscovery ==> *final(self) == (CoreManager {
                discovering: false,
                ..*old(self)
            }) && r.1@.len() == 1 && (r.1@[0] matches StateUpdate::DiscoveryStopped),
            event matches Event::PairWithDevice(id) ==> *final(self) == *old(self) && r.0@.len()
                == 1 && (r.0@[0] matches Action::ConnectAndPair { device_id: d } && d@ == id@),
            event matches Event::SendMessage(sid, text) ==> (!has_session(
                old(self).sessions@,
                sid@,
            ) ==> *final(self) == *old(self) && single_error(r.0@, r.1@, ErrorCode::SessionError))
                && (forall|i: int|
                0 <= i < old(self).sessions@.len() && old(self).sessions@[i].id@ == sid@
                    ==> send_message_outcome(
                    *old(self),
                    *final(self),
                    sid@,
                    text@,
                    r.0@,
                    r.1@,
                    i,
                )),
            event matches Event::SendFile(sid, path) ==> *final(self) == *old(self) && (
            !has_session(old(self).sessions@, sid@) ==> single_error(
                r.0@,
                r.1@,
                ErrorCode::SessionError,
            )),
            event matches Event::CancelTransfer(tid) ==> (forall|i: int|
                0 <= i < old(self).transfers@.len() && old(self).transfers@[i].id@ == tid@ && !old(
                    self,
                ).transfers@[i].status.is_terminal() ==> final(self).transfers@[i].status
                    == FileStatus::Failed),
            event matches Event::DeviceDiscovered(id, name) ==> has_device(
                final(self).store.devices@,
                id@,
            ) && r.1@.len() == 1,
            event matches Event::DeviceConnected(id) ==> *final(self) == *old(self),
            event matches Event::DeviceDisconnected(id) ==> (forall|i: int|
                0 <= i < final(self).sessions@.len() ==> (#[trigger] final(self).sessions@[i]).peer_id@
                    != id@),
            event matches Event::DataReceived(sid, data) ==> (!has_session(
                old(self).sessions@,
                sid@,
            ) ==> *final(self) == *old(self) && single_error(r.0@, r.1@, ErrorCode::SessionError))
                && (forall|i: int|
                0 <= i < old(self).sessions@.len() && old(self).sessions@[i].id@ == sid@
                    ==> data_received_outcome(
                    *old(self),
                    *final(self),
                    sid@,
                    data@,
                    r.0@,
                    r.1@,
                    i,
                )),
            event matches Event::Shutdown ==> final(self).sessions@.len() == 0
                && !final(self).discovering,
    {
        match event {
            Event::StartDiscovery => self.handle_start_discovery(),
            Event::StopDiscovery => self.handle_stop_discovery(),
            Event::PairWithDevice(device_id) => self.handle_pair_with_device(device_id),
            Event::SendMessage(session_id, text) => self.handle_send_message(session_id, text),
            Event::SendFile(session_id, path) => self.handle_send_file(session_id, path),
            Event::CancelTransfer(transfer_id) => self.handle_cancel_transfer(transfer_id),
            Event::DeviceDiscovered(id, name) => self.handle_device_discovered(id, name),
            Event::DeviceConnected(id) => self.handle_device_connected(id),
            Event::DeviceDisconnected(id) => self.handle_device_disconnected(id),
            Event::DataReceived(session_id, data) => self.handle_data_received(session_id, data),
            Event::Shutdown => self.handle_shutdown(),
        }
    }

    /// Starts a pairing handshake with a peer: the session value drives the
    /// handshake over the transport the shell connects.
    pub fn initiate_pairing(&self, device_id: String, name: String, address: String) -> (r:
        PairingSession)
        ensures
            r.wf(),
            r.peer_id == device_id,
            r.peer_name == name,
            r.peer_address == address,
            r.remote_public is None,
            r.state == crate::pairing::PairingState::AwaitingKeys,
    {
        PairingSession::initiate(device_id, name, address)
    }
}

} // verus!
