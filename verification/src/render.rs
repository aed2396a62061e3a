//! The wire texts of the protocol: command prefix, prompts, notices,
//! default display names, and the rendering of chat and acknowledgement
//! messages as byte payloads.
//!
//! Every message the server sends ends with the two-byte prompt `"> "`
//! preceded by a line terminator, a cue that the server is ready for the
//! next input line.

use vstd::prelude::*;
use crate::lines::NL;

verus! {

/// The command prefix `"/nick "`.
pub open spec fn nick_prefix() -> Seq<u8> {
    seq![47u8, 110, 105, 99, 107, 32]
}

/// The separator `"> "` between a display name and a message body.
pub open spec fn name_sep() -> Seq<u8> {
    seq![62u8, 32]
}

/// The trailing prompt `"\n> "` that ends every server message.
pub open spec fn prompt() -> Seq<u8> {
    seq![NL, 62u8, 32]
}

/// The acknowledgement prefix `"nick changed to "`.
pub open spec fn ack_prefix() -> Seq<u8> {
    seq![110u8, 105, 99, 107, 32, 99, 104, 97, 110, 103, 101, 100, 32, 116, 111, 32]
}

/// The notice `"invalid nick"` sent when a proposed name is not UTF-8.
pub open spec fn invalid_nick_notice() -> Seq<u8> {
    seq![105u8, 110, 118, 97, 108, 105, 100, 32, 110, 105, 99, 107]
}

/// The placeholder-name prefix `"user:"`.
pub open spec fn user_prefix() -> Seq<u8> {
    seq![117u8, 115, 101, 114, 58]
}

/// The banner `"Welcome to Simple Chat!\nUse /nick <nick> to set your
/// nick.\n> "` sent to every freshly accepted client.
pub open spec fn welcome() -> Seq<u8> {
    seq![
        87u8, 101, 108, 99, 111, 109, 101, 32, 116, 111, 32, 83, 105, 109, 112, 108, 101, 32, 67,
        104, 97, 116, 33, 10, 85, 115, 101, 32, 47, 110, 105, 99, 107, 32, 60, 110, 105, 99, 107,
        62, 32, 116, 111, 32, 115, 101, 116, 32, 121, 111, 117, 114, 32, 110, 105, 99, 107, 46, 10,
        62, 32,
    ]
}

/// Decimal digits of `n`, most significant first.
pub open spec fn dec_rep(n: nat) -> Seq<u8>
    decreases n,
{
    if n < 10 {
        seq![(48 + n) as u8]
    } else {
        dec_rep(n / 10) + seq![(48 + n % 10) as u8]
    }
}

/// The placeholder display name `"user:<handle>"` a client starts with.
pub open spec fn default_nick(h: nat) -> Seq<u8> {
    user_prefix() + dec_rep(h)
}

/// True when `line` is a rename command: it starts with `"/nick "`.
pub open spec fn is_nick_cmd(line: Seq<u8>) -> bool {
    line.len() >= 6 && line.subrange(0, 6) == nick_prefix()
}

/// The proposed name carried by a rename command: everything after the
/// prefix.
pub open spec fn nick_arg(line: Seq<u8>) -> Seq<u8> {
    line.skip(6)
}

/// A chat line as broadcast: `"<name>> <line>\n> "`.
pub open spec fn render_chat(nick: Seq<u8>, line: Seq<u8>) -> Seq<u8> {
    nick + name_sep() + line + prompt()
}

/// A rename acknowledgement: `"nick changed to <name>\n> "`.
pub open spec fn render_ack(arg: Seq<u8>) -> Seq<u8> {
    ack_prefix() + arg + prompt()
}

/// Append every byte of `src` to `out`.
pub fn extend_bytes(out: &mut Vec<u8>, src: &[u8])
    ensures
        final(out)@ == old(out)@ + src@,
{
    let mut i: usize = 0;
    while i < src.len()
        invariant
            i <= src@.len(),
            out@ =~= old(out)@ + src@.subrange(0, i as int),
        decreases src@.len() - i,
    {
        out.push(src[i]);
        assert(src@.subrange(0, i + 1 as int) =~= src@.subrange(0, i as int).push(
            src@[i as int],
        ));
        i = i + 1;
    }
    assert(src@.subrange(0, src@.len() as int) =~= src@);
}

/// Append the decimal digits of `n` to `out`.
pub fn push_dec(n: u64, out: &mut Vec<u8>)
    ensures
        final(out)@ == old(out)@ + dec_rep(n as nat),
    decreases n,
{
    if n >= 10 {
        push_dec(n / 10, out);
    }
    out.push(48 + (n % 10) as u8);
    assert(n < 10 ==> old(out)@ + dec_rep(n as nat) =~= old(out)@.push((48 + n % 10) as u8));
    assert(n >= 10 ==> old(out)@ + dec_rep(n as nat) =~= (old(out)@ + dec_rep(
        (n / 10) as nat,
    )).push((48 + n % 10) as u8));
}

/// The placeholder name for handle `h`, as bytes.
pub fn default_nick_bytes(h: u64) -> (r: Vec<u8>)
    ensures
        r@ == default_nick(h as nat),
{
    let mut out: Vec<u8> = vec![117u8, 115, 101, 114, 58];
    push_dec(h, &mut out);
    assert(out@ =~= default_nick(h as nat));
    out
}

/// The welcome banner, as bytes.
pub fn welcome_bytes() -> (r: Vec<u8>)
    ensures
        r@ == welcome(),
{
    let out: Vec<u8> = vec![
        87u8, 101, 108, 99, 111, 109, 101, 32, 116, 111, 32, 83, 105, 109, 112, 108, 101, 32, 67,
        104, 97, 116, 33, 10, 85, 115, 101, 32, 47, 110, 105, 99, 107, 32, 60, 110, 105, 99, 107,
        62, 32, 116, 111, 32, 115, 101, 116, 32, 121, 111, 117, 114, 32, 110, 105, 99, 107, 46, 10,
        62, 32,
    ];
    assert(out@ =~= welcome());
    out
}

/// The `"invalid nick"` notice, as bytes.
pub fn invalid_nick_bytes() -> (r: Vec<u8>)
    ensures
        r@ == invalid_nick_notice(),
{
    let out: Vec<u8> = vec![105u8, 110, 118, 97, 108, 105, 100, 32, 110, 105, 99, 107];
    assert(out@ =~= invalid_nick_notice());
    out
}

/// Whether `line` is a rename command.
pub fn is_nick_cmd_bytes(line: &Vec<u8>) -> (r: bool)
    ensures
        r == is_nick_cmd(line@),
{
    if line.len() < 6 {
        return false;
    }
    let pfx: Vec<u8> = vec![47u8, 110, 105, 99, 107, 32];
    let mut i: usize = 0;
    while i < 6
        invariant
            i <= 6,
            line@.len() >= 6,
            pfx@ =~= nick_prefix(),
            forall|j: int| 0 <= j < i ==> line@[j] == nick_prefix()[j],
        decreases 6 - i,
    {
        if line[i] != pfx[i] {
            assert(line@.subrange(0, 6)[i as int] != nick_prefix()[i as int]);
            return false;
        }
        i = i + 1;
    }
    assert(line@.subrange(0, 6) =~= nick_prefix());
    true
}

/// The bytes of `v` from `a` (inclusive) to `b` (exclusive), copied out.
pub fn copy_range(v: &Vec<u8>, a: usize, b: usize) -> (r: Vec<u8>)
    requires
        a <= b <= v@.len(),
    ensures
        r@ == v@.subrange(a as int, b as int),
{
    let mut out: Vec<u8> = Vec::new();
    let mut i: usize = a;
    while i < b
        invariant
            a <= i <= b <= v@.len(),
            out@ =~= v@.subrange(a as int, i as int),
        decreases b - i,
    {
        out.push(v[i]);
        assert(v@.subrange(a as int, i + 1 as int) =~= v@.subrange(a as int, i as int).push(
            v@[i as int],
        ));
        i = i + 1;
    }
    out
}

/// Render a chat line for broadcast: `"<name>> <line>\n> "`.
pub fn render_chat_bytes(nick: &Vec<u8>, line: &Vec<u8>) -> (r: Vec<u8>)
    ensures
        r@ == render_chat(nick@, line@),
{
    let mut out: Vec<u8> = Vec::new();
    extend_bytes(&mut out, nick.as_slice());
    let sep: Vec<u8> = vec![62u8, 32];
    extend_bytes(&mut out, sep.as_slice());
    extend_bytes(&mut out, line.as_slice());
    let p: Vec<u8> = vec![NL, 62u8, 32];
    extend_bytes(&mut out, p.as_slice());
    assert(out@ =~= render_chat(nick@, line@));
    out
}

/// Render a rename acknowledgement: `"nick changed to <name>\n> "`.
pub fn render_ack_bytes(arg: &Vec<u8>) -> (r: Vec<u8>)
    ensures
        r@ == render_ack(arg@),
{
    let mut out: Vec<u8> = vec![
        110u8, 105, 99, 107, 32, 99, 104, 97, 110, 103, 101, 100, 32, 116, 111, 32,
    ];
    assert(out@ =~= ack_prefix());
    extend_bytes(&mut out, arg.as_slice());
    let p: Vec<u8> = vec![NL, 62u8, 32];
    extend_bytes(&mut out, p.as_slice());
    assert(out@ =~= render_ack(arg@));
    out
}

} // verus!
