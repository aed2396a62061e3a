//! The connection registry and the broadcast relay.
//!
//! One `Chat` owns every client's state; handles are assigned strictly
//! increasing, never reused, and the registry is kept sorted by handle,
//! so iteration order is ascending handle order.  Everything a batch of
//! readiness events does to this state — accepting, reading and parsing,
//! renaming, fanning a message out, tearing a connection down — happens
//! through the methods here, one event at a time.

use vstd::prelude::*;
use std::rc::Rc;
use crate::client::{Client, ClientV, OutItem, OutItemV, with_queued};
use crate::lines::{complete_lines, line_rest, contains_nl, NL};
use crate::render::{
    default_nick, welcome, render_chat, render_ack, invalid_nick_notice, is_nick_cmd, nick_arg,
};
use vstd::utf8::valid_utf8;

verus! {

/// Mathematical image of a [`Chat`]: the clients in registry order and
/// the highest handle ever assigned.
#[verifier::ext_equal]
pub ghost struct ChatV {
    pub clients: Seq<ClientV>,
    pub max_client: int,
}

/// Registry consistency: every client is well formed, handles are
/// strictly ascending (hence unique, and iteration order is handle
/// order), and none exceeds the high-water mark `max`, so a fresh
/// handle is never a reused one.
pub open spec fn registry_wf(cs: Seq<ClientV>, max: int) -> bool {
    &&& forall|i: int| 0 <= i < cs.len() ==> (#[trigger] cs[i]).wf()
    &&& forall|i: int| 0 <= i < cs.len() ==> (#[trigger] cs[i]).handle <= max
    &&& forall|i: int, j: int|
        0 <= i < j < cs.len() ==> (#[trigger] cs[i]).handle < (#[trigger] cs[j]).handle
}

impl ChatV {
    /// See [`registry_wf`].
    pub open spec fn wf(self) -> bool {
        &&& 0 <= self.max_client
        &&& registry_wf(self.clients, self.max_client)
    }
}

/// True when some registered client carries handle `h`.
pub open spec fn has_handle(cs: Seq<ClientV>, h: int) -> bool {
    exists|i: int| 0 <= i < cs.len() && cs[i].handle == h
}

/// The registry position of handle `h` (meaningful when it is present;
/// under [`ChatV::wf`] it is unique).
pub open spec fn idx_of(cs: Seq<ClientV>, h: int) -> int {
    choose|i: int| 0 <= i < cs.len() && cs[i].handle == h
}

/// The fan-out of one `payload` from the client with handle `src`:
/// every other client's queue gains the payload, undelivered, exactly
/// once; the source's state is untouched.
pub open spec fn broadcast_from(cs: Seq<ClientV>, src: int, payload: Seq<u8>) -> Seq<ClientV> {
    Seq::new(
        cs.len(),
        |j: int|
            if cs[j].handle == src {
                cs[j]
            } else {
                with_queued(cs[j], payload)
            },
    )
}

/// The effect of dispatching one extracted `line` from the client at
/// registry position `i`:
///
/// - a `/nick ` command whose argument is UTF-8 renames that client and
///   queues the acknowledgement to it alone;
/// - a `/nick ` command whose argument is not UTF-8 queues the
///   invalid-nick notice to it alone, the name staying as it was;
/// - any other line is rendered under the sender's current name and
///   broadcast to every other client.
pub open spec fn apply_line(cs: Seq<ClientV>, i: int, line: Seq<u8>) -> Seq<ClientV>
    recommends
        0 <= i < cs.len(),
{
    if is_nick_cmd(line) {
        let arg = nick_arg(line);
        if valid_utf8(arg) {
            cs.update(i, with_queued(ClientV { nick: arg, ..cs[i] }, render_ack(arg)))
        } else {
            cs.update(i, with_queued(cs[i], invalid_nick_notice()))
        }
    } else {
        broadcast_from(cs, cs[i].handle, render_chat(cs[i].nick, line))
    }
}

/// The effect of dispatching the lines `ls`, in order, from the client
/// at registry position `i`.
pub open spec fn apply_lines(cs: Seq<ClientV>, i: int, ls: Seq<Seq<u8>>) -> Seq<ClientV>
    decreases ls.len(),
{
    if ls.len() == 0 {
        cs
    } else {
        apply_lines(apply_line(cs, i, ls[0]), i, ls.skip(1))
    }
}

/// Dispatching one more line is one more step of [`apply_line`].
pub proof fn lemma_apply_lines_push(cs: Seq<ClientV>, i: int, ls: Seq<Seq<u8>>, l: Seq<u8>)
    ensures
        apply_lines(cs, i, ls.push(l)) == apply_line(apply_lines(cs, i, ls), i, l),
    decreases ls.len(),
{
    if ls.len() == 0 {
        assert(ls.push(l)[0] == l);
        assert(ls.push(l).skip(1) =~= Seq::<Seq<u8>>::empty());
        assert(apply_lines(cs, i, ls.push(l)) == apply_lines(
            apply_line(cs, i, l),
            i,
            ls.push(l).skip(1),
        ));
        assert(apply_lines(apply_line(cs, i, l), i, ls.push(l).skip(1)) == apply_line(cs, i, l));
        assert(apply_lines(cs, i, ls) == cs);
    } else {
        assert(ls.push(l)[0] == ls[0]);
        assert(ls.push(l).skip(1) =~= ls.skip(1).push(l));
        assert(apply_lines(cs, i, ls.push(l)) == apply_lines(
            apply_line(cs, i, ls[0]),
            i,
            ls.skip(1).push(l),
        ));
        lemma_apply_lines_push(apply_line(cs, i, ls[0]), i, ls.skip(1), l);
        assert(apply_lines(cs, i, ls) == apply_lines(apply_line(cs, i, ls[0]), i, ls.skip(1)));
    }
}

/// Dispatching a line touches no handle, no accumulator, no writable
/// flag, and no other client's name, and it keeps the registry well
/// formed.
pub proof fn lemma_apply_line_frame(cs: Seq<ClientV>, max: int, i: int, line: Seq<u8>)
    requires
        registry_wf(cs, max),
        0 <= i < cs.len(),
    ensures
        apply_line(cs, i, line).len() == cs.len(),
        forall|t: int|
            0 <= t < cs.len() ==> {
                let c2 = #[trigger] apply_line(cs, i, line)[t];
                c2.handle == cs[t].handle && c2.acc == cs[t].acc && c2.writable == cs[t].writable
            },
        registry_wf(apply_line(cs, i, line), max),
{
    let cs2 = apply_line(cs, i, line);
    assert forall|t: int| 0 <= t < cs.len() implies (#[trigger] cs2[t]).handle == cs[t].handle
        && cs2[t].acc == cs[t].acc && cs2[t].writable == cs[t].writable && cs2[t].wf() by {
        assert(cs[t].wf());
        if cs2[t] != cs[t] {
            assert(forall|k: int|
                0 <= k < cs[t].outbox.len() ==> #[trigger] cs2[t].outbox[k] == cs[t].outbox[k]);
        }
    }
}

/// The multi-client chat engine: the connection registry and the
/// high-water mark of assigned handles.
pub struct Chat {
    /// Connected clients, sorted by ascending handle.
    pub clients: Vec<Client>,
    /// The highest handle assigned so far; `0` is the listener's and is
    /// never a client's.
    pub max_client: u64,
}

impl View for Chat {
    type V = ChatV;

    open spec fn view(&self) -> ChatV {
        ChatV {
            clients: self.clients@.map_values(|c: Client| c@),
            max_client: self.max_client as int,
        }
    }
}

impl Chat {
    /// An empty chat: no clients, no handle assigned yet.
    pub fn new() -> (c: Chat)
        ensures
            c@.clients =~= Seq::<ClientV>::empty(),
            c@.max_client == 0,
            c@.wf(),
    {
        let c = Chat { clients: Vec::new(), max_client: 0 };
        assert(c@.clients =~= Seq::<ClientV>::empty());
        c
    }

    /// The registry position of the client with handle `h`, if any.
    pub fn find(&self, h: u64) -> (r: Option<usize>)
        ensures
            match r {
                Some(i) => i < self@.clients.len() && self@.clients[i as int].handle == h,
                None => !has_handle(self@.clients, h as int),
            },
    {
        let mut i: usize = 0;
        while i < self.clients.len()
            invariant
                i <= self@.clients.len(),
                forall|j: int| 0 <= j < i ==> (#[trigger] self@.clients[j]).handle != h,
            decreases self@.clients.len() - i,
        {
            proof {
                assert(self@.clients[i as int] == self.clients@[i as int]@);
            }
            if self.clients[i].handle == h {
                return Some(i);
            }
            i = i + 1;
        }
        None
    }

    /// Accept one new connection: assign the next handle, register the
    /// client at the end of the registry (keeping it sorted), and queue
    /// the welcome banner as its first outbound payload.  The caller
    /// registers the transport for read and write readiness under the
    /// returned handle.
    pub fn accept_client(&mut self) -> (h: u64)
        requires
            old(self)@.wf(),
            old(self)@.max_client < u64::MAX,
        ensures
            final(self)@.wf(),
            h == old(self)@.max_client + 1,
            final(self)@.max_client == h,
            final(self)@.clients =~~= old(self)@.clients.push(
                ClientV {
                    handle: h as int,
                    nick: default_nick(h as nat),
                    acc: Seq::<u8>::empty(),
                    outbox: seq![OutItemV { data: welcome(), sent: 0 }],
                    writable: false,
                },
            ),
    {
        let h = self.max_client + 1;
        let mut c = Client::new(h);
        c.enqueue(Rc::new(crate::render::welcome_bytes()));
        self.clients.push(c);
        self.max_client = h;
        proof {
            assert(self@.clients =~~= old(self)@.clients.push(
                ClientV {
                    handle: h as int,
                    nick: default_nick(h as nat),
                    acc: Seq::<u8>::empty(),
                    outbox: seq![OutItemV { data: welcome(), sent: 0 }],
                    writable: false,
                },
            ));
        }
        h
    }

    /// Tear down the client with handle `h`: drop its state (receive
    /// accumulator, queue and all) and close the registry over it.  The
    /// caller deregisters and drops the transport.  Without such a
    /// client, nothing changes.
    pub fn remove_client(&mut self, h: u64)
        requires
            old(self)@.wf(),
        ensures
            final(self)@.wf(),
            final(self)@.max_client == old(self)@.max_client,
            !has_handle(old(self)@.clients, h as int) ==> final(self)@ == old(self)@,
            has_handle(old(self)@.clients, h as int) ==> final(self)@.clients =~~= old(
                self,
            )@.clients.remove(idx_of(old(self)@.clients, h as int)),
    {
        match self.find(h) {
            None => {},
            Some(i) => {
                let _ = self.clients.remove(i);
                proof {
                    let cs0 = old(self)@.clients;
                    let k = idx_of(cs0, h as int);
                    assert(0 <= k < cs0.len() && cs0[k].handle == h as int);
                    assert(k == i as int) by {
                        if k < i as int {
                            assert(cs0[k].handle < cs0[i as int].handle);
                        } else if k > i as int {
                            assert(cs0[i as int].handle < cs0[k].handle);
                        }
                    }
                    assert(self@.clients =~~= cs0.remove(k));
                }
            },
        }
    }

    /// The broadcast relay: queue `payload` once onto every client but
    /// the one with handle `src`, all queues sharing the one payload
    /// buffer.  No recipient is skipped, none is served twice, and the
    /// source never hears its own message.
    pub fn push_from(&mut self, src: u64, payload: Vec<u8>)
        requires
            old(self)@.wf(),
        ensures
            final(self)@.wf(),
            final(self)@.max_client == old(self)@.max_client,
            final(self)@.clients =~~= broadcast_from(old(self)@.clients, src as int, payload@),
    {
        let ghost cs0 = self@.clients;
        let ghost pl = payload@;
        let data = Rc::new(payload);
        let n = self.clients.len();
        let mut j: usize = 0;
        while j < n
            invariant
                n == self@.clients.len() == cs0.len(),
                j <= n,
                data@ == pl,
                self@.max_client == old(self)@.max_client,
                forall|t: int|
                    0 <= t < j ==> #[trigger] self@.clients[t] == (if cs0[t].handle == src as int {
                        cs0[t]
                    } else {
                        with_queued(cs0[t], pl)
                    }),
                forall|t: int| j <= t < n ==> #[trigger] self@.clients[t] == cs0[t],
            decreases n - j,
        {
            proof {
                assert(self@.clients[j as int] == self.clients@[j as int]@);
            }
            let ghost prev = self@.clients;
            if self.clients[j].handle != src {
                let shared = crate::ext::share_payload(&data);
                let c = &mut self.clients[j];
                c.enqueue(shared);
                proof {
                    assert(self@.clients =~~= prev.update(
                        j as int,
                        with_queued(prev[j as int], pl),
                    ));
                }
            }
            j = j + 1;
        }
        proof {
            assert(self@.clients =~~= broadcast_from(cs0, src as int, pl));
            assert(self@.wf()) by {
                assert(forall|t: int|
                    0 <= t < self@.clients.len() ==> (#[trigger] self@.clients[t]).handle == cs0[
                        t
                    ].handle && self@.clients[t].wf());
            }
        }
    }

    /// Parse and dispatch every complete line accumulated by the client
    /// with handle `h`, in arrival order, each with the effect
    /// [`apply_line`] describes; the consumed bytes then leave the
    /// accumulator and a trailing partial line stays behind, waiting
    /// for its terminator.  Without such a client, nothing changes.
    pub fn dispatch_pending(&mut self, h: u64)
        requires
            old(self)@.wf(),
        ensures
            final(self)@.wf(),
            final(self)@.max_client == old(self)@.max_client,
            !has_handle(old(self)@.clients, h as int) ==> final(self)@ == old(self)@,
            has_handle(old(self)@.clients, h as int) ==> ({
                let i = idx_of(old(self)@.clients, h as int);
                let acc0 = old(self)@.clients[i].acc;
                let after = apply_lines(old(self)@.clients, i, complete_lines(acc0));
                final(self)@.clients =~~= after.update(
                    i,
                    ClientV { acc: line_rest(acc0), ..after[i] },
                )
            }),
    {
        let i: usize = match self.find(h) {
            None => {
                return;
            },
            Some(i) => i,
        };
        let ghost cs0 = self@.clients;
        let ghost acc0 = cs0[i as int].acc;
        let ghost max0 = self@.max_client;
        let mut start: usize = 0;
        let ghost mut done: Seq<Seq<u8>> = Seq::empty();
        proof {
            assert(acc0.skip(0) =~= acc0);
            assert(done + complete_lines(acc0) =~= complete_lines(acc0));
        }
        loop
            invariant
                0 <= i < cs0.len(),
                cs0 == old(self)@.clients,
                self@.clients.len() == cs0.len(),
                registry_wf(self@.clients, max0),
                0 <= max0,
                self@.max_client == max0,
                start <= acc0.len(),
                self@.clients[i as int].handle == h as int,
                cs0[i as int].handle == h as int,
                self@.clients[i as int].acc == acc0,
                self@.clients == apply_lines(cs0, i as int, done),
                complete_lines(acc0) == done + complete_lines(acc0.skip(start as int)),
                line_rest(acc0) == line_rest(acc0.skip(start as int)),
            ensures
                self@.clients.len() == cs0.len(),
                registry_wf(self@.clients, max0),
                self@.max_client == max0,
                start <= acc0.len(),
                self@.clients[i as int].acc == acc0,
                self@.clients == apply_lines(cs0, i as int, done),
                complete_lines(acc0) == done + complete_lines(acc0.skip(start as int)),
                line_rest(acc0) == line_rest(acc0.skip(start as int)),
                !contains_nl(acc0.skip(start as int)),
            decreases acc0.len() - start,
        {
            proof {
                assert(self@.clients[i as int] == self.clients@[i as int]@);
            }
            let k: usize = match crate::lines::find_newline(&self.clients[i].acc, start) {
                None => {
                    break;
                },
                Some(k) => k,
            };
            let line = crate::render::copy_range(&self.clients[i].acc, start, k);
            proof {
                assert(acc0.skip(start as int) =~= line@ + seq![NL] + acc0.skip(k + 1 as int));
                assert(!contains_nl(line@)) by {
                    if contains_nl(line@) {
                        let t = choose|t: int| 0 <= t < line@.len() && line@[t] == NL;
                        assert(acc0.subrange(start as int, k as int)[t] == NL);
                    }
                }
                crate::lines::lemma_first_line(line@, acc0.skip(k + 1 as int));
            }
            let ghost cur = self@.clients;
            if crate::render::is_nick_cmd_bytes(&line) {
                let arg = crate::render::copy_range(&line, 6, line.len());
                proof {
                    assert(arg@ =~= nick_arg(line@));
                }
                if crate::ext::utf8_ok(arg.as_slice()) {
                    let ack = crate::render::render_ack_bytes(&arg);
                    let c = &mut self.clients[i];
                    c.nick = arg;
                    c.outbox.push(OutItem { data: Rc::new(ack), sent: 0 });
                    proof {
                        assert(self@.clients =~~= apply_line(cur, i as int, line@));
                    }
                } else {
                    let notice = crate::render::invalid_nick_bytes();
                    let c = &mut self.clients[i];
                    c.outbox.push(OutItem { data: Rc::new(notice), sent: 0 });
                    proof {
                        assert(self@.clients =~~= apply_line(cur, i as int, line@));
                    }
                }
            } else {
                let payload = crate::render::render_chat_bytes(&self.clients[i].nick, &line);
                self.push_from(h, payload);
                proof {
                    assert(self@.clients =~~= apply_line(cur, i as int, line@));
                }
            }
            proof {
                lemma_apply_lines_push(cs0, i as int, done, line@);
                lemma_apply_line_frame(cur, max0, i as int, line@);
                done = done.push(line@);
                assert(self@.clients == apply_lines(cs0, i as int, done));
                assert(complete_lines(acc0) == done + complete_lines(acc0.skip(k + 1 as int)))
                    by {
                    assert(done.drop_last() + (seq![line@] + complete_lines(
                        acc0.skip(k + 1 as int),
                    )) =~= done + complete_lines(acc0.skip(k + 1 as int)));
                }
            }
            start = k + 1;
        }
        proof {
            crate::lines::lemma_partial_line_pending(acc0.skip(start as int));
            assert(done + complete_lines(acc0.skip(start as int)) =~= done);
            assert(done == complete_lines(acc0));
        }
        let c = &mut self.clients[i];
        proof {
            assert(c.acc@ == acc0);
        }
        crate::lines::drain_prefix(&mut c.acc, start);
        proof {
            let after = apply_lines(cs0, i as int, complete_lines(acc0));
            assert(self@.clients =~~= after.update(
                i as int,
                ClientV { acc: line_rest(acc0), ..after[i as int] },
            ));
            assert(idx_of(cs0, h as int) == i as int) by {
                assert(has_handle(cs0, h as int));
                let t = idx_of(cs0, h as int);
                assert(0 <= t < cs0.len() && cs0[t].handle == h as int);
                if t < i as int {
                    assert(cs0[t].handle < cs0[i as int].handle);
                } else if t > i as int {
                    assert(cs0[i as int].handle < cs0[t].handle);
                }
            }
            assert(self@.wf()) by {
                assert(forall|t: int|
                    0 <= t < self@.clients.len() && t != i as int
                        ==> #[trigger] self@.clients[t] == after[t]);
                assert(registry_wf(after, max0));
                assert(self@.clients[i as int].wf()) by {
                    assert(after[i as int].wf());
                    assert(line_rest(acc0).len() <= acc0.len()) by {
                        assert(line_rest(acc0) == acc0.skip(start as int));
                    }
                }
                assert(forall|t: int|
                    0 <= t < self@.clients.len() ==> (#[trigger] self@.clients[t]).handle
                        == after[t].handle);
            }
        }
    }
}

} // verus!
