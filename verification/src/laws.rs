//! The engine's guarantees, stated on their own and proved once and for
//! all from the dispatch model in [`crate::chat`].

use vstd::prelude::*;
use crate::client::{ClientV, OutItemV, with_queued};
use crate::chat::{apply_line, broadcast_from, registry_wf};
use crate::render::{render_chat, render_ack, is_nick_cmd, nick_arg, nick_prefix};
use vstd::utf8::valid_utf8;

verus! {

/// A chat line from the client at position `i` is queued for every
/// other client exactly once, rendered under the sender's current
/// display name — and the sender's own state, its queue included, is
/// left exactly as it was: a client never hears its own message back.
pub proof fn lemma_broadcast_reaches_all_but_sender(
    cs: Seq<ClientV>,
    max: int,
    i: int,
    line: Seq<u8>,
)
    requires
        registry_wf(cs, max),
        0 <= i < cs.len(),
        !is_nick_cmd(line),
    ensures
        apply_line(cs, i, line).len() == cs.len(),
        apply_line(cs, i, line)[i] == cs[i],
        forall|j: int|
            0 <= j < cs.len() && j != i ==> #[trigger] apply_line(cs, i, line)[j] == with_queued(
                cs[j],
                render_chat(cs[i].nick, line),
            ),
{
    let cs2 = apply_line(cs, i, line);
    assert forall|j: int| 0 <= j < cs.len() && j != i implies #[trigger] cs2[j] == with_queued(
        cs[j],
        render_chat(cs[i].nick, line),
    ) by {
        if j < i {
            assert(cs[j].handle < cs[i].handle);
        } else {
            assert(cs[i].handle < cs[j].handle);
        }
    }
}

/// A rename line: `"/nick " + arg` is a rename command whose argument
/// is exactly `arg`.
pub proof fn lemma_rename_line_shape(arg: Seq<u8>)
    ensures
        is_nick_cmd(nick_prefix() + arg),
        nick_arg(nick_prefix() + arg) == arg,
{
    let line = nick_prefix() + arg;
    assert(line.subrange(0, 6) =~= nick_prefix());
    assert(line.skip(6) =~= arg);
}

/// After a valid rename, the sender speaks under the new name: the
/// rename queues its acknowledgement to the sender alone, and every
/// later chat line from that client reaches the others rendered under
/// `arg`, not under the earlier name.
pub proof fn lemma_rename_then_chat(
    cs: Seq<ClientV>,
    max: int,
    i: int,
    arg: Seq<u8>,
    line: Seq<u8>,
)
    requires
        registry_wf(cs, max),
        0 <= i < cs.len(),
        valid_utf8(arg),
        !is_nick_cmd(line),
    ensures
        ({
            let cs1 = apply_line(cs, i, nick_prefix() + arg);
            &&& cs1 == cs.update(i, with_queued(ClientV { nick: arg, ..cs[i] }, render_ack(arg)))
            &&& forall|j: int|
                0 <= j < cs.len() && j != i ==> #[trigger] apply_line(cs1, i, line)[j]
                    == with_queued(cs1[j], render_chat(arg, line))
            &&& apply_line(cs1, i, line)[i] == cs1[i]
        }),
{
    lemma_rename_line_shape(arg);
    let cs1 = apply_line(cs, i, nick_prefix() + arg);
    assert forall|t: int| 0 <= t < cs1.len() implies (#[trigger] cs1[t]).handle == cs[t].handle by {}
    assert(registry_wf(cs1, max)) by {
        crate::chat::lemma_apply_line_frame(cs, max, i, nick_prefix() + arg);
    }
    lemma_broadcast_reaches_all_but_sender(cs1, max, i, line);
    assert(cs1[i].nick == arg);
}

/// One broadcast, one payload: every recipient's queue ends with an
/// undelivered item holding the very same payload value, and delivery
/// progress is tracked per item, outside the payload — so advancing one
/// recipient's cursor is an update of that recipient's state alone and
/// cannot change another recipient's cursor, nor the payload bytes.
pub proof fn lemma_broadcast_shares_payload(
    cs: Seq<ClientV>,
    src: int,
    payload: Seq<u8>,
    j1: int,
    j2: int,
    sent1: int,
)
    requires
        0 <= j1 < cs.len(),
        0 <= j2 < cs.len(),
        j1 != j2,
        cs[j1].handle != src,
        cs[j2].handle != src,
    ensures
        ({
            let cs2 = broadcast_from(cs, src, payload);
            let q1 = cs2[j1].outbox;
            &&& q1.last() == (OutItemV { data: payload, sent: 0 })
            &&& cs2[j2].outbox.last() == (OutItemV { data: payload, sent: 0 })
            &&& cs2.update(
                j1,
                ClientV {
                    outbox: q1.update(
                        q1.len() - 1,
                        OutItemV { data: payload, sent: sent1 },
                    ),
                    ..cs2[j1]
                },
            )[j2] == cs2[j2]
        }),
{
}

} // verus!
