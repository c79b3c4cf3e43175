//! File-transfer state: chunking arithmetic, sender progress driven by
//! acknowledgements, receiver reassembly, and the lifecycle rules — progress
//! never exceeds the total, completion means exactly the total, and a
//! terminal transfer never moves again.

use vstd::prelude::*;
use crate::store::FileStatus;
use crate::wire::append_bytes;

verus! {

/// Fixed chunk width of file transfers, in bytes (64 KiB).
pub const CHUNK_SIZE: u64 = 65536;

/// The receiver acknowledges every such many chunks, and the last one.
pub const ACK_INTERVAL: u64 = 16;

/// The acknowledgement offset that signals an aborted transfer.
pub const ABORT_OFFSET: u64 = u64::MAX;

/// How many chunks a file of the given size is split into: the last chunk
/// may be short, and an empty file has no chunks.
pub open spec fn chunk_count_of(total: u64) -> int {
    (total + CHUNK_SIZE - 1) / (CHUNK_SIZE as int)
}

/// The byte width of one chunk: full-width except the last, which carries
/// the remainder.
pub open spec fn chunk_len_of(total: u64, index: int) -> int {
    if (index + 1) * (CHUNK_SIZE as int) <= total {
        CHUNK_SIZE as int
    } else {
        total - index * (CHUNK_SIZE as int)
    }
}

/// A transfer after an acknowledgement with the given offset was applied on
/// the sending side: a terminal transfer stays; an abort offset fails it;
/// anything else moves progress to the offset, capped at the total, and
/// completes the transfer exactly when the whole file is covered.
pub open spec fn after_ack(t: FileTransfer, offset: u64) -> FileTransfer {
    if t.status.is_terminal() {
        t
    } else if offset == ABORT_OFFSET && t.total_size < ABORT_OFFSET {
        FileTransfer { status: FileStatus::Failed, ..t }
    } else {
        let capped = if offset <= t.total_size {
            offset
        } else {
            t.total_size
        };
        FileTransfer {
            sent_size: capped,
            status: if capped == t.total_size {
                FileStatus::Complete
            } else {
                FileStatus::InProgress
            },
            ..t
        }
    }
}

/// A transfer after it was cancelled: a terminal transfer stays; anything
/// else fails.
pub open spec fn after_cancel(t: FileTransfer) -> FileTransfer {
    if t.status.is_terminal() {
        t
    } else {
        FileTransfer { status: FileStatus::Failed, ..t }
    }
}

/// One side of a file transfer in flight. On the sending side, progress is
/// the highest contiguous byte offset the peer acknowledged; on the
/// receiving side, it is how many contiguous bytes arrived, and `data`
/// holds them until the checksum is verified.
pub struct FileTransfer {
    /// Identifier of the transfer.
    pub id: String,
    /// Identifier of the session carrying it.
    pub session_id: String,
    /// Name of the file.
    pub filename: String,
    /// Hex SHA-256 checksum of the full plaintext, from the header.
    pub checksum: String,
    /// Total plaintext size in bytes.
    pub total_size: u64,
    /// Bytes advanced so far: acknowledged on the sending side, received
    /// contiguously on the receiving side.
    pub sent_size: u64,
    /// Index of the next chunk the sender will enqueue.
    pub next_chunk: u64,
    /// Lifecycle state; Complete and Failed are terminal.
    pub status: FileStatus,
    /// Whether this side is sending.
    pub outbound: bool,
    /// Received bytes, on the receiving side.
    pub data: Vec<u8>,
}

impl FileTransfer {
    /// The transfer invariants: progress never exceeds the total, a
    /// complete transfer moved exactly the total, and the receive buffer
    /// holds exactly the contiguous bytes that progress counts.
    pub open spec fn wf(self) -> bool {
        &&& crate::wire::lp_ok(self.id@)
        &&& self.sent_size <= self.total_size
        &&& self.status == FileStatus::Complete ==> self.sent_size == self.total_size
        &&& !self.outbound ==> self.data@.len() == self.sent_size
        &&& self.outbound ==> self.data@.len() == self.total_size
    }

    /// A fresh sending-side transfer over the file's bytes: nothing moved,
    /// nothing acknowledged.
    pub fn new_outbound(
        id: String,
        session_id: String,
        filename: String,
        checksum: String,
        data: Vec<u8>,
    ) -> (t: FileTransfer)
        requires
            crate::wire::lp_ok(id@),
            data@.len() <= u64::MAX,
        ensures
            t.wf(),
            t.id == id,
            t.session_id == session_id,
            t.filename == filename,
            t.checksum == checksum,
            t.total_size == data@.len(),
            t.sent_size == 0,
            t.next_chunk == 0,
            t.status == FileStatus::Pending,
            t.outbound,
            t.data == data,
    {
        let total_size = data.len() as u64;
        FileTransfer {
            id,
            session_id,
            filename,
            checksum,
            total_size,
            sent_size: 0,
            next_chunk: 0,
            status: FileStatus::Pending,
            outbound: true,
            data,
        }
    }

    /// The chunk with the given index on the sending side: its byte offset
    /// and its bytes, full-width except a short last chunk. Exactly the
    /// indices below the chunk count carry a chunk.
    pub fn chunk_at(&self, index: u64) -> (r: Option<(u64, Vec<u8>)>)
        requires
            self.wf(),
            self.outbound,
        ensures
            r is Some <==> index < chunk_count_of(self.total_size),
            r matches Some(c) ==> c.0 == index * CHUNK_SIZE && c.1@ == self.data@.subrange(
                index * CHUNK_SIZE,
                index * CHUNK_SIZE + chunk_len_of(self.total_size, index as int),
            ),
    {
        if self.total_size == 0 {
            return None;
        }
        let dlen = self.data.len();
        let q = (self.total_size - 1) / CHUNK_SIZE;
        proof {
            vstd::arithmetic::div_mod::lemma_fundamental_div_mod(
                (self.total_size - 1) as int,
                CHUNK_SIZE as int,
            );
            let r = (self.total_size - 1) as int % (CHUNK_SIZE as int);
            vstd::arithmetic::div_mod::lemma_fundamental_div_mod_converse(
                (self.total_size + CHUNK_SIZE - 1) as int,
                CHUNK_SIZE as int,
                q as int + 1,
                r,
            );
            assert(chunk_count_of(self.total_size) == q + 1);
        }
        if index > q {
            return None;
        }
        proof {
            assert(index * CHUNK_SIZE <= q * CHUNK_SIZE);
            assert(q * CHUNK_SIZE <= self.total_size - 1);
        }
        let offset = index * CHUNK_SIZE;
        let end = if self.total_size - offset < CHUNK_SIZE {
            self.total_size
        } else {
            offset + CHUNK_SIZE
        };
        proof {
            assert(offset <= end <= dlen as u64);
            assert(end as int == offset + chunk_len_of(self.total_size, index as int));
        }
        let bytes = vstd::slice::slice_to_vec(
            vstd::slice::slice_subrange(self.data.as_slice(), offset as usize, end as usize),
        );
        Some((offset, bytes))
    }

    /// A fresh receiving-side transfer, announced by a header packet.
    pub fn new_inbound(
        id: String,
        session_id: String,
        filename: String,
        checksum: String,
        total_size: u64,
    ) -> (t: FileTransfer)
        requires
            crate::wire::lp_ok(id@),
        ensures
            t.wf(),
            t.id == id,
            t.session_id == session_id,
            t.filename == filename,
            t.checksum == checksum,
            t.total_size == total_size,
            t.sent_size == 0,
            t.status == FileStatus::InProgress,
            !t.outbound,
            t.data@.len() == 0,
    {
        FileTransfer {
            id,
            session_id,
            filename,
            checksum,
            total_size,
            sent_size: 0,
            next_chunk: 0,
            status: FileStatus::InProgress,
            outbound: false,
            data: Vec::new(),
        }
    }

    /// Applies an acknowledgement on the sending side. An abort offset
    /// fails the transfer; an acknowledgement of the whole file completes
    /// it; anything else moves progress to the acknowledged offset, capped
    /// at the total. A terminal transfer ignores acknowledgements.
    pub fn apply_ack(&mut self, offset: u64)
        requires
            old(self).wf(),
            old(self).outbound,
        ensures
            final(self).wf(),
            *final(self) == after_ack(*old(self), offset),
            crate::store::file_status_can_advance(old(self).status, final(self).status),
    {
        if self.status == FileStatus::Complete || self.status == FileStatus::Failed {
            return ;
        }
        if offset == ABORT_OFFSET && self.total_size < ABORT_OFFSET {
            self.status = FileStatus::Failed;
            return ;
        }
        let capped = if offset <= self.total_size {
            offset
        } else {
            self.total_size
        };
        self.sent_size = capped;
        if capped == self.total_size {
            self.status = FileStatus::Complete;
        } else {
            self.status = FileStatus::InProgress;
        }
    }

    /// Cancels the transfer: a transfer still in flight fails; a terminal
    /// one stays what it is.
    pub fn cancel(&mut self)
        ensures
            final(self).id == old(self).id,
            final(self).session_id == old(self).session_id,
            old(self).wf() ==> final(self).wf(),
            *final(self) == after_cancel(*old(self)),
            crate::store::file_status_can_advance(old(self).status, final(self).status),
    {
        if self.status == FileStatus::Complete || self.status == FileStatus::Failed {
            return ;
        }
        self.status = FileStatus::Failed;
    }

    /// Applies one chunk on the receiving side. Exactly a chunk that starts
    /// at the next contiguous offset, fits the announced total and arrives
    /// on a transfer in flight is taken; out-of-order, overrunning or
    /// misdirected chunks are refused and change nothing.
    pub fn apply_chunk(&mut self, offset: u64, bytes: &[u8]) -> (r: bool)
        requires
            old(self).wf(),
            !old(self).outbound,
        ensures
            final(self).wf(),
            !final(self).outbound,
            final(self).id == old(self).id,
            final(self).session_id == old(self).session_id,
            final(self).checksum == old(self).checksum,
            final(self).total_size == old(self).total_size,
            final(self).status == old(self).status,
            r == (old(self).status == FileStatus::InProgress && offset == old(self).sent_size
                && bytes@.len() + old(self).sent_size <= old(self).total_size),
            r ==> final(self).data@ == old(self).data@ + bytes@ && final(self).sent_size == old(
                self,
            ).sent_size + bytes@.len(),
            !r ==> *final(self) == *old(self),
    {
        if !(match self.status {
            FileStatus::InProgress => true,
            _ => false,
        }) {
            return false;
        }
        if offset != self.sent_size {
            return false;
        }
        let blen = bytes.len() as u64;
        if blen > self.total_size - self.sent_size {
            return false;
        }
        append_bytes(&mut self.data, bytes);
        self.sent_size = self.sent_size + blen;
        true
    }

    /// Whether the receiver owes an acknowledgement after the chunk that
    /// ended at the current progress: every sixteenth chunk, and the last.
    pub fn ack_due(&self) -> (r: bool)
        requires
            self.wf(),
            !self.outbound,
            self.sent_size > 0,
        ensures
            r == (self.sent_size == self.total_size || (1 + (self.sent_size - 1) / (
            CHUNK_SIZE as int)) % (ACK_INTERVAL as int) == 0),
    {
        if self.sent_size == self.total_size {
            return true;
        }
        let chunks_done = 1 + (self.sent_size - 1) / CHUNK_SIZE;
        chunks_done % ACK_INTERVAL == 0
    }
}

/// Progress never exceeds the total, and a complete transfer moved exactly
/// the total.
pub proof fn lemma_transfer_progress_bounds(t: FileTransfer)
    requires
        t.wf(),
    ensures
        t.sent_size <= t.total_size,
        t.status == FileStatus::Complete ==> t.sent_size == t.total_size,
{
}

} // verus!
