//! The pure core of the asynchronous JDWP client: packet-id allocation,
//! request/reply correlation, and the identifier-size bootstrap.
//!
//! The transport around this core runs elsewhere: a writer serializes one
//! header and body at a time, and a reader task routes each completed reply
//! through `on_reply`. The core guarantees that outstanding request ids are
//! distinct, so a reply id matches at most one call, and that routing
//! removes the id before anything is delivered, so a duplicate or late reply
//! for the same id is dropped.

use crate::errors::Error;
use crate::jdwp::AllClassesReply;
use crate::jdwp::Command;
use crate::jdwp::CommandPacketHeader;
use crate::jdwp::IdSizesReply;
use crate::jdwp::JdwpIdSizes;
use crate::jdwp::ReplyPacketHeader;
use crate::jdwp::spec_read_all_classes_reply;
use crate::jdwp::valid_id_sizes;
use vstd::prelude::*;

verus! {

/// No request id is outstanding twice.
pub open spec fn ids_distinct(p: Seq<u32>) -> bool {
    forall|i: int, j: int| 0 <= i < j < p.len() ==> p[i] != p[j]
}

/// A reply id matches at most one outstanding call: with distinct pending
/// ids, two matching positions are the same position.
pub proof fn lemma_reply_matches_at_most_one(p: Seq<u32>, id: u32, i: int, j: int)
    requires
        ids_distinct(p),
        0 <= i < p.len(),
        0 <= j < p.len(),
        p[i] == id,
        p[j] == id,
    ensures
        i == j,
{
}

/// The next packet id: a monotonic 32-bit counter that wraps.
pub open spec fn wrapping_inc(v: u32) -> u32 {
    if v == 0xFFFF_FFFF {
        0
    } else {
        (v + 1) as u32
    }
}

/// The client state that decides correlation: the packet-id counter, the set
/// of outstanding request ids, the negotiated identifier sizes once learned,
/// and whether the transport has failed terminally.
pub struct JdwpClientCore {
    pub next_id: u32,
    pub pending: Vec<u32>,
    pub sizes: Option<JdwpIdSizes>,
    pub closed: bool,
}

/// The core's invariant: outstanding ids are distinct.
pub open spec fn core_wf(c: JdwpClientCore) -> bool {
    ids_distinct(c.pending@)
}

proof fn lemma_remove_keeps_distinct(s: Seq<u32>, i: int)
    requires
        0 <= i < s.len(),
        ids_distinct(s),
    ensures
        ids_distinct(s.remove(i)),
        !s.remove(i).contains(s[i]),
        forall|x: u32| x != s[i] ==> s.remove(i).contains(x) == s.contains(x),
{
    let r = s.remove(i);
    assert forall|x: u32| x != s[i] implies r.contains(x) == s.contains(x) by {
        if s.contains(x) {
            let j = choose|j: int| 0 <= j < s.len() && s[j] == x;
            if j < i {
                assert(r[j] == x);
            } else {
                assert(r[j - 1] == x);
            }
        }
        if r.contains(x) {
            let j = choose|j: int| 0 <= j < r.len() && r[j] == x;
            if j < i {
                assert(s[j] == x);
            } else {
                assert(s[j + 1] == x);
            }
        }
    }
    assert forall|j: int| 0 <= j < r.len() implies r[j] != s[i] by {
        if j < i {
            assert(r[j] == s[j]);
        } else {
            assert(r[j] == s[j + 1]);
        }
    }
}

impl JdwpClientCore {
    /// A fresh client core: no requests in flight, no sizes learned.
    pub fn new() -> (r: JdwpClientCore)
        ensures
            r.next_id == 0,
            r.pending@.len() == 0,
            r.sizes is None,
            !r.closed,
            core_wf(r),
    {
        JdwpClientCore { next_id: 0, pending: Vec::new(), sizes: None, closed: false }
    }

    /// Whether an id is outstanding.
    pub fn is_pending(&self, id: u32) -> (r: bool)
        ensures
            r == self.pending@.contains(id),
    {
        let mut i: usize = 0;
        while i < self.pending.len()
            invariant
                i <= self.pending@.len(),
                forall|j: int| 0 <= j < i ==> self.pending@[j] != id,
            decreases self.pending@.len() - i,
        {
            if self.pending[i] == id {
                return true;
            }
            i = i + 1;
        }
        proof {
            if self.pending@.contains(id) {
                let j = choose|j: int| 0 <= j < self.pending@.len() && self.pending@[j] == id;
                assert(false);
            }
        }
        false
    }

    /// Increments the packet-id counter, wrapping at the 32-bit boundary,
    /// and returns the new id.
    pub fn next_packet_id(&mut self) -> (r: u32)
        ensures
            r == wrapping_inc(old(self).next_id),
            final(self).next_id == r,
            final(self).pending == old(self).pending,
            final(self).sizes == old(self).sizes,
            final(self).closed == old(self).closed,
    {
        if self.next_id == 0xFFFF_FFFF {
            self.next_id = 0;
        } else {
            self.next_id = self.next_id + 1;
        }
        self.next_id
    }

    /// Allocates a fresh packet id, registers it as outstanding, and builds
    /// the command header: `length` counts the 11 header bytes plus the
    /// body.
    pub fn begin_send(&mut self, command: Command, body_len: u32) -> (r: (
        u32,
        CommandPacketHeader,
    ))
        requires
            core_wf(*old(self)),
            body_len <= 0xFFFF_FFFF - 11,
        ensures
            core_wf(*final(self)),
            r.0 == wrapping_inc(old(self).next_id),
            final(self).next_id == r.0,
            r.1.length == 11 + body_len,
            r.1.id == r.0,
            r.1.flags == 0,
            r.1.command == command,
            final(self).pending@.contains(r.0),
            forall|x: u32|
                x != r.0 ==> final(self).pending@.contains(x) == old(self).pending@.contains(x),
            final(self).sizes == old(self).sizes,
            final(self).closed == old(self).closed,
    {
        let id = self.next_packet_id();
        if !self.is_pending(id) {
            let ghost before = self.pending@;
            self.pending.push(id);
            proof {
                assert forall|x: u32|
                    x != id implies self.pending@.contains(x) == before.contains(x) by {
                    if before.contains(x) {
                        let j = choose|j: int| 0 <= j < before.len() && before[j] == x;
                        assert(self.pending@[j] == x);
                    }
                    if self.pending@.contains(x) {
                        let j = choose|j: int|
                            0 <= j < self.pending@.len() && self.pending@[j] == x;
                        assert(j < before.len());
                        assert(before[j] == x);
                    }
                }
                assert forall|i: int, j: int|
                    0 <= i < j < self.pending@.len() implies self.pending@[i]
                    != self.pending@[j] by {
                    if j == self.pending@.len() - 1 {
                        assert(self.pending@[i] == before[i]);
                        assert(!before.contains(id) ==> before[i] != id);
                    }
                }
                assert(self.pending@[self.pending@.len() - 1] == id);
            }
        }
        let header = CommandPacketHeader { length: 11 + body_len, id, flags: 0, command };
        (id, header)
    }

    /// Removes an id from the outstanding set, returning whether it was
    /// there. The reader routes a completed reply through this first and
    /// delivers it only on `true`: the id is removed before delivery, so a
    /// duplicate or late reply finds nothing and is dropped.
    pub fn on_reply(&mut self, id: u32) -> (deliver: bool)
        requires
            core_wf(*old(self)),
        ensures
            core_wf(*final(self)),
            deliver == old(self).pending@.contains(id),
            !final(self).pending@.contains(id),
            forall|x: u32|
                x != id ==> final(self).pending@.contains(x) == old(self).pending@.contains(x),
            final(self).next_id == old(self).next_id,
            final(self).sizes == old(self).sizes,
            final(self).closed == old(self).closed,
    {
        let mut i: usize = 0;
        while i < self.pending.len()
            invariant
                core_wf(*self),
                i <= self.pending@.len(),
                forall|j: int| 0 <= j < i ==> self.pending@[j] != id,
                self.pending == old(self).pending,
                self.next_id == old(self).next_id,
                self.sizes == old(self).sizes,
                self.closed == old(self).closed,
            decreases self.pending@.len() - i,
        {
            if self.pending[i] == id {
                proof {
                    lemma_remove_keeps_distinct(self.pending@, i as int);
                    assert(self.pending@.contains(id));
                }
                self.pending.remove(i);
                return true;
            }
            i = i + 1;
        }
        proof {
            if self.pending@.contains(id) {
                let j = choose|j: int| 0 <= j < self.pending@.len() && self.pending@[j] == id;
                assert(false);
            }
        }
        false
    }

    /// Removes a timed-out request's id so that a late reply for it is
    /// dropped by the reader.
    pub fn timeout_request(&mut self, id: u32)
        requires
            core_wf(*old(self)),
        ensures
            core_wf(*final(self)),
            !final(self).pending@.contains(id),
            forall|x: u32|
                x != id ==> final(self).pending@.contains(x) == old(self).pending@.contains(x),
            final(self).next_id == old(self).next_id,
            final(self).sizes == old(self).sizes,
            final(self).closed == old(self).closed,
    {
        let _ = self.on_reply(id);
    }

    /// Marks the transport terminally failed: every outstanding request is
    /// forgotten, so the caller can wake all waiters with an error.
    pub fn reader_failed(&mut self)
        ensures
            core_wf(*final(self)),
            final(self).closed,
            final(self).pending@.len() == 0,
            final(self).next_id == old(self).next_id,
            final(self).sizes == old(self).sizes,
    {
        self.closed = true;
        self.pending.clear();
    }

    /// Validates and stores the identifier sizes from an `IDSizes` reply:
    /// each width must be one of 1, 2, 4 or 8; anything else is
    /// `IdSizesTruncated` and nothing is stored.
    pub fn accept_id_sizes(&mut self, reply: &IdSizesReply) -> (r: Result<(), Error>)
        ensures
            r is Ok <==> (id_size_ok(reply.field_id_size) && id_size_ok(reply.method_id_size)
                && id_size_ok(reply.object_id_size) && id_size_ok(reply.reference_type_id_size)
                && id_size_ok(reply.frame_id_size)),
            r is Ok ==> final(self).sizes == Some(
                JdwpIdSizes {
                    field_id_size: reply.field_id_size as u8,
                    method_id_size: reply.method_id_size as u8,
                    object_id_size: reply.object_id_size as u8,
                    reference_type_id_size: reply.reference_type_id_size as u8,
                    frame_id_size: reply.frame_id_size as u8,
                },
            ) && (final(self).sizes matches Some(s) && valid_id_sizes(s)),
            r matches Err(e) ==> e is IdSizesTruncated && final(self).sizes == old(self).sizes,
            final(self).pending == old(self).pending,
            final(self).next_id == old(self).next_id,
            final(self).closed == old(self).closed,
    {
        let f = reply.field_id_size;
        let m = reply.method_id_size;
        let o = reply.object_id_size;
        let rt = reply.reference_type_id_size;
        let fr = reply.frame_id_size;
        if (f == 1 || f == 2 || f == 4 || f == 8) && (m == 1 || m == 2 || m == 4 || m == 8) && (o
            == 1 || o == 2 || o == 4 || o == 8) && (rt == 1 || rt == 2 || rt == 4 || rt == 8) && (fr
            == 1 || fr == 2 || fr == 4 || fr == 8) {
            self.sizes = Some(
                JdwpIdSizes {
                    field_id_size: f as u8,
                    method_id_size: m as u8,
                    object_id_size: o as u8,
                    reference_type_id_size: rt as u8,
                    frame_id_size: fr as u8,
                },
            );
            Ok(())
        } else {
            Err(Error::IdSizesTruncated)
        }
    }

    /// Whether the identifier-size bootstrap has completed: size-dependent
    /// commands may be issued only after it has.
    pub fn has_id_sizes(&self) -> (r: bool)
        ensures
            r == (self.sizes is Some),
    {
        match &self.sizes {
            Some(_) => true,
            None => false,
        }
    }

    /// Parses an `AllClasses` reply body. This command is size-dependent:
    /// issuing or parsing it before a successful `IDSizes` bootstrap yields
    /// `IdSizesUnknown`.
    pub fn parse_all_classes(&self, body: &Vec<u8>) -> (r: Result<AllClassesReply, Error>)
        ensures
            self.sizes is None ==> r == Err::<AllClassesReply, Error>(Error::IdSizesUnknown),
            self.sizes matches Some(s) ==> match r {
                Ok(v) => spec_read_all_classes_reply(body@, s.reference_type_id_size) == Ok::<
                    _,
                    (),
                >(Seq::new(v.classes@.len(), |i: int| v.classes@[i]@)),
                Err(e) => spec_read_all_classes_reply(body@, s.reference_type_id_size) is Err
                    && e is Parse,
            },
    {
        let sizes = match &self.sizes {
            Some(s) => *s,
            None => {
                return Err(Error::IdSizesUnknown);
            },
        };
        AllClassesReply::read(body, sizes)
    }
}

/// Whether an `IDSizes` reply field names a width this crate can read.
pub open spec fn id_size_ok(v: i32) -> bool {
    v == 1 || v == 2 || v == 4 || v == 8
}

/// What a reply header owes the caller: success on error code zero, and the
/// nonzero code preserved as `ProtocolError` otherwise.
pub fn reply_outcome(header: &ReplyPacketHeader) -> (r: Result<(), Error>)
    ensures
        r is Ok <==> header.error_code == 0,
        r matches Err(e) ==> e == Error::ProtocolError(header.error_code),
{
    if header.error_code == 0 {
        Ok(())
    } else {
        Err(Error::ProtocolError(header.error_code))
    }
}

/// A full command packet: the serialized header followed by the body.
pub fn make_command_packet(header: &CommandPacketHeader, body: &Vec<u8>) -> (r: Vec<u8>)
    ensures
        r@ == crate::jdwp::spec_command_header_bytes(*header) + body@,
{
    let mut out = header.to_bytes();
    crate::codec::push_all(&mut out, body);
    out
}

} // verus!
