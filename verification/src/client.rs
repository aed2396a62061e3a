//! Per-client connection state: the receive accumulator, the
//! pending-send queue, the display name, and the writable flag.
//!
//! The receive side accumulates partial non-blocking reads until a line
//! terminator arrives; the send side queues immutable payloads and
//! tracks, per queued item, how much has already gone out, so a payload
//! can be flushed across many partial writes — and shared unchanged
//! among many clients' queues.

use vstd::prelude::*;
use std::rc::Rc;
use crate::transport::IoStep;

verus! {

/// Capacity of the receive accumulator, in bytes.  A client whose
/// unterminated input would grow past it is rejected by
/// [`Client::accumulate`]; the caller's documented policy is to
/// disconnect that client rather than crash or truncate.
pub const BUFLEN: usize = 4096;

/// One queued outbound payload and the count of its bytes already
/// written to the transport.
pub struct OutItem {
    /// The payload.  Immutable once queued; one broadcast's payload is
    /// held by many queues through shared references.
    pub data: Rc<Vec<u8>>,
    /// How many leading bytes of `data` the transport has taken.
    pub sent: usize,
}

/// Mathematical image of an [`OutItem`]: the payload bytes and the
/// delivery cursor.
#[verifier::ext_equal]
pub ghost struct OutItemV {
    pub data: Seq<u8>,
    pub sent: int,
}

impl View for OutItem {
    type V = OutItemV;

    open spec fn view(&self) -> OutItemV {
        OutItemV { data: self.data@, sent: self.sent as int }
    }
}

/// One connected client.
pub struct Client {
    /// The server-assigned handle; positive, never reused while
    /// registered.
    pub handle: u64,
    /// The display name, as bytes.
    pub nick: Vec<u8>,
    /// The receive accumulator: bytes read but not yet parsed away.
    pub acc: Vec<u8>,
    /// The pending-send queue, front first.
    pub outbox: Vec<OutItem>,
    /// Whether the transport is currently believed to accept writes.
    pub writable: bool,
}

/// Mathematical image of a [`Client`].
#[verifier::ext_equal]
pub ghost struct ClientV {
    pub handle: int,
    pub nick: Seq<u8>,
    pub acc: Seq<u8>,
    pub outbox: Seq<OutItemV>,
    pub writable: bool,
}

impl View for Client {
    type V = ClientV;

    open spec fn view(&self) -> ClientV {
        ClientV {
            handle: self.handle as int,
            nick: self.nick@,
            acc: self.acc@,
            outbox: self.outbox@.map_values(|it: OutItem| it@),
            writable: self.writable,
        }
    }
}

/// `c` with `payload` appended, undelivered, to its queue.
pub open spec fn with_queued(c: ClientV, payload: Seq<u8>) -> ClientV {
    ClientV { outbox: c.outbox.push(OutItemV { data: payload, sent: 0 }), ..c }
}

impl ClientV {
    /// Internal consistency: no delivery cursor runs past its payload,
    /// and the accumulator stays within its capacity.
    pub open spec fn wf(self) -> bool {
        &&& self.acc.len() <= BUFLEN
        &&& forall|i: int|
            0 <= i < self.outbox.len() ==> (#[trigger] self.outbox[i]).sent <= self.outbox[i].data.len()
        &&& 0 < self.handle
    }
}

/// What the caller's flush loop does next.
pub enum FlushControl {
    /// Keep flushing: the queue may still have undelivered bytes.
    Proceed,
    /// Stop this flush attempt; nothing is wrong.
    Halt,
    /// Propagate: a non-recoverable transport error ends the control
    /// loop.
    Fatal(std::io::Error),
}

/// The receive accumulator would overflow: the unterminated line is
/// longer than [`BUFLEN`].  The caller disconnects the offending client.
#[derive(Debug)]
pub struct LineTooLong;

impl Client {
    /// A freshly accepted client: placeholder name `user:<handle>`,
    /// empty buffers, not yet known writable.
    pub fn new(handle: u64) -> (c: Client)
        requires
            0 < handle,
        ensures
            c@ == (ClientV {
                handle: handle as int,
                nick: crate::render::default_nick(handle as nat),
                acc: Seq::<u8>::empty(),
                outbox: Seq::<OutItemV>::empty(),
                writable: false,
            }),
            c@.wf(),
    {
        let c = Client {
            handle,
            nick: crate::render::default_nick_bytes(handle),
            acc: Vec::new(),
            outbox: Vec::new(),
            writable: false,
        };
        assert(c@.outbox =~= Seq::<OutItemV>::empty());
        assert(c@ =~= (ClientV {
            handle: handle as int,
            nick: crate::render::default_nick(handle as nat),
            acc: Seq::<u8>::empty(),
            outbox: Seq::<OutItemV>::empty(),
            writable: false,
        }));
        c
    }

    /// Append `payload` to the pending-send queue, undelivered.
    pub fn enqueue(&mut self, payload: Rc<Vec<u8>>)
        ensures
            final(self)@ == with_queued(old(self)@, payload@),
    {
        self.outbox.push(OutItem { data: payload, sent: 0 });
        assert(self@.outbox =~= with_queued(old(self)@, payload@).outbox);
        assert(self@ =~= with_queued(old(self)@, payload@));
    }

    /// Take one read's worth of bytes into the accumulator, or refuse
    /// the whole read if it would overflow — the state is then
    /// unchanged and the client is to be disconnected.
    pub fn accumulate(&mut self, chunk: &[u8]) -> (r: Result<(), LineTooLong>)
        requires
            old(self)@.wf(),
        ensures
            final(self)@.wf(),
            r is Ok <==> old(self)@.acc.len() + chunk@.len() <= BUFLEN,
            r is Ok ==> final(self)@ == (ClientV { acc: old(self)@.acc + chunk@, ..old(self)@ }),
            r is Err ==> final(self)@ == old(self)@,
    {
        if chunk.len() > BUFLEN - self.acc.len() {
            return Err(LineTooLong);
        }
        crate::render::extend_bytes(&mut self.acc, chunk);
        assert(self@ =~= (ClientV { acc: old(self)@.acc + chunk@, ..old(self)@ }));
        Ok(())
    }

    /// Note a write-readiness event: the transport will now take writes.
    pub fn set_writable(&mut self)
        ensures
            final(self)@ == (ClientV { writable: true, ..old(self)@ }),
    {
        self.writable = true;
        assert(self@ =~= (ClientV { writable: true, ..old(self)@ }));
    }

    /// Whether a flush attempt has anything to do right now.
    pub fn wants_flush(&self) -> (r: bool)
        ensures
            r == (self@.writable && self@.outbox.len() > 0),
    {
        self.writable && self.outbox.len() > 0
    }

    /// The undelivered tail of the front queue item, copied out for one
    /// write attempt.
    pub fn front_pending(&self) -> (r: Vec<u8>)
        requires
            self@.wf(),
            self@.outbox.len() > 0,
        ensures
            r@ == self@.outbox[0].data.skip(self@.outbox[0].sent),
    {
        proof {
            assert(self@.outbox[0] == self.outbox@[0]@);
        }
        let item = &self.outbox[0];
        crate::render::copy_range(&item.data, item.sent, item.data.len())
    }

    /// Account for one write attempt's outcome.
    ///
    /// A partial or full write advances the front item's cursor, and an
    /// item fully delivered leaves the queue; would-block clears the
    /// writable flag until the next readiness event; a zero-length
    /// write is taken as end of stream and merely stops the attempt (no
    /// queued bytes are dropped); a fatal error is handed back to end
    /// the control loop.
    pub fn flush_step(&mut self, step: IoStep) -> (r: FlushControl)
        requires
            old(self)@.wf(),
            step is Got ==> old(self)@.outbox.len() > 0,
            step matches IoStep::Got(n) ==> old(self)@.outbox[0].sent + n <= old(
                self,
            )@.outbox[0].data.len(),
        ensures
            final(self)@.wf(),
            match step {
                IoStep::Got(n) => {
                    let moved = OutItemV {
                        data: old(self)@.outbox[0].data,
                        sent: old(self)@.outbox[0].sent + n,
                    };
                    r is Proceed && final(self)@ == (ClientV {
                        outbox: if moved.sent == moved.data.len() {
                            old(self)@.outbox.skip(1)
                        } else {
                            old(self)@.outbox.update(0, moved)
                        },
                        ..old(self)@
                    })
                },
                IoStep::Closed => r is Halt && final(self)@ == old(self)@,
                IoStep::Block => r is Halt && final(self)@ == (ClientV {
                    writable: false,
                    ..old(self)@
                }),
                IoStep::Fail(e) => r matches FlushControl::Fatal(e2) && e2 == e && final(self)@
                    == old(self)@,
            },
    {
        match step {
            IoStep::Got(n) => {
                proof {
                    assert(self@.outbox[0] == self.outbox@[0]@);
                }
                let total = self.outbox[0].data.len();
                let new_sent = self.outbox[0].sent + n;
                if new_sent == total {
                    let _ = self.outbox.remove(0);
                    assert(self@.outbox =~= old(self)@.outbox.skip(1));
                    assert(self@ =~= (ClientV {
                        outbox: old(self)@.outbox.skip(1),
                        ..old(self)@
                    }));
                } else {
                    self.outbox[0].sent = new_sent;
                    assert(self@.outbox =~= old(self)@.outbox.update(
                        0,
                        OutItemV {
                            data: old(self)@.outbox[0].data,
                            sent: old(self)@.outbox[0].sent + n,
                        },
                    ));
                    assert(self@ =~= (ClientV {
                        outbox: old(self)@.outbox.update(
                            0,
                            OutItemV {
                                data: old(self)@.outbox[0].data,
                                sent: old(self)@.outbox[0].sent + n,
                            },
                        ),
                        ..old(self)@
                    }));
                }
                FlushControl::Proceed
            },
            IoStep::Closed => FlushControl::Halt,
            IoStep::Block => {
                self.writable = false;
                assert(self@ =~= (ClientV { writable: false, ..old(self)@ }));
                FlushControl::Halt
            },
            IoStep::Fail(e) => FlushControl::Fatal(e),
        }
    }
}

} // verus!
