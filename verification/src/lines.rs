//! Incremental extraction of newline-terminated lines from a byte stream.
//!
//! A client's receive accumulator holds bytes that have arrived but have
//! not yet been parsed.  `complete_lines` gives the sequence of lines
//! (terminators stripped) that are fully terminated within the
//! accumulator, in arrival order, and `line_rest` gives the trailing
//! partial line that still awaits its terminator.

use vstd::prelude::*;

verus! {

/// The line terminator byte, `\n`.
pub const NL: u8 = 10;

/// True when `s` holds at least one line terminator.
pub open spec fn contains_nl(s: Seq<u8>) -> bool {
    exists|i: int| 0 <= i < s.len() && s[i] == NL
}

/// The terminated lines of `s`, given that the bytes `cur` (a partial
/// line carried in from earlier input) precede `s`.
pub open spec fn lines_from(s: Seq<u8>, cur: Seq<u8>) -> Seq<Seq<u8>>
    decreases s.len(),
{
    if s.len() == 0 {
        Seq::empty()
    } else if s[0] == NL {
        seq![cur] + lines_from(s.skip(1), Seq::empty())
    } else {
        lines_from(s.skip(1), cur.push(s[0]))
    }
}

/// The unterminated tail of `s`, given that the bytes `cur` precede `s`.
pub open spec fn rest_from(s: Seq<u8>, cur: Seq<u8>) -> Seq<u8>
    decreases s.len(),
{
    if s.len() == 0 {
        cur
    } else if s[0] == NL {
        rest_from(s.skip(1), Seq::empty())
    } else {
        rest_from(s.skip(1), cur.push(s[0]))
    }
}

/// All fully terminated lines of `s`, in order, terminators stripped.
pub open spec fn complete_lines(s: Seq<u8>) -> Seq<Seq<u8>> {
    lines_from(s, Seq::empty())
}

/// The bytes of `s` after its last terminator: a partial line kept for
/// the next read.
pub open spec fn line_rest(s: Seq<u8>) -> Seq<u8> {
    rest_from(s, Seq::empty())
}

/// A byte stream without a terminator yields no line at all: its bytes
/// are all still pending.
pub proof fn lemma_no_nl(s: Seq<u8>, cur: Seq<u8>)
    requires
        !contains_nl(s),
    ensures
        lines_from(s, cur) =~= Seq::<Seq<u8>>::empty(),
        rest_from(s, cur) =~= cur + s,
    decreases s.len(),
{
    if s.len() == 0 {
        assert(cur + s =~= cur);
    } else {
        assert(s[0] != NL);
        assert(!contains_nl(s.skip(1))) by {
            if contains_nl(s.skip(1)) {
                let i = choose|i: int| 0 <= i < s.skip(1).len() && s.skip(1)[i] == NL;
                assert(s[i + 1] == NL);
            }
        }
        lemma_no_nl(s.skip(1), cur.push(s[0]));
        assert(cur.push(s[0]) + s.skip(1) =~= cur + s);
    }
}

/// Prepending terminator-free bytes `a` to a stream only lengthens the
/// carried partial line.
pub proof fn lemma_shift(a: Seq<u8>, b: Seq<u8>, cur: Seq<u8>)
    requires
        !contains_nl(a),
    ensures
        lines_from(a + b, cur) =~= lines_from(b, cur + a),
        rest_from(a + b, cur) =~= rest_from(b, cur + a),
    decreases a.len(),
{
    if a.len() == 0 {
        assert(a + b =~= b);
        assert(cur + a =~= cur);
    } else {
        assert(a[0] != NL);
        assert(!contains_nl(a.skip(1))) by {
            if contains_nl(a.skip(1)) {
                let i = choose|i: int| 0 <= i < a.skip(1).len() && a.skip(1)[i] == NL;
                assert(a[i + 1] == NL);
            }
        }
        assert((a + b)[0] == a[0]);
        assert((a + b).skip(1) =~= a.skip(1) + b);
        lemma_shift(a.skip(1), b, cur.push(a[0]));
        assert(cur.push(a[0]) + a.skip(1) =~= cur + a);
    }
}

/// Splitting off the first line: if `a` is terminator-free, then
/// `a \n b` parses as the line `a` followed by whatever `b` parses as.
pub proof fn lemma_first_line(a: Seq<u8>, b: Seq<u8>)
    requires
        !contains_nl(a),
    ensures
        complete_lines(a + seq![NL] + b) =~= seq![a] + complete_lines(b),
        line_rest(a + seq![NL] + b) =~= line_rest(b),
{
    let nlb = seq![NL] + b;
    assert(a + seq![NL] + b =~= a + nlb);
    lemma_shift(a, nlb, Seq::empty());
    assert(Seq::empty() + a =~= a);
    assert(nlb[0] == NL);
    assert(nlb.skip(1) =~= b);
    assert(lines_from(nlb, a) =~= seq![a] + lines_from(b, Seq::empty()));
}

/// A terminator-free accumulator dispatches nothing, and keeps every
/// byte for the next read.
pub proof fn lemma_partial_line_pending(s: Seq<u8>)
    requires
        !contains_nl(s),
    ensures
        complete_lines(s) =~= Seq::<Seq<u8>>::empty(),
        line_rest(s) =~= s,
{
    lemma_no_nl(s, Seq::empty());
    assert(Seq::empty() + s =~= s);
}

/// A line split across any two reads is dispatched exactly once, whole:
/// if neither fragment holds a terminator, their concatenation followed
/// by one terminator parses as the single line `a + b`.
pub proof fn lemma_split_reads_one_line(a: Seq<u8>, b: Seq<u8>)
    requires
        !contains_nl(a),
        !contains_nl(b),
    ensures
        complete_lines(a + b + seq![NL]) =~= seq![a + b],
        line_rest(a + b + seq![NL]) =~= Seq::<u8>::empty(),
{
    let ab = a + b;
    assert(!contains_nl(ab)) by {
        if contains_nl(ab) {
            let i = choose|i: int| 0 <= i < ab.len() && ab[i] == NL;
            if i < a.len() {
                assert(a[i] == NL);
            } else {
                assert(b[i - a.len()] == NL);
            }
        }
    }
    assert(ab + seq![NL] + Seq::<u8>::empty() =~= ab + seq![NL]);
    lemma_first_line(ab, Seq::empty());
    lemma_partial_line_pending(Seq::empty());
    assert(seq![ab] + complete_lines(Seq::empty()) =~= seq![ab]);
}

/// Lines that arrive together leave together, in order: a read buffer
/// carrying several terminated lines parses as exactly those lines,
/// first to last, none dropped, none reordered.
pub proof fn lemma_lines_in_order(a: Seq<u8>, b: Seq<u8>, c: Seq<u8>)
    requires
        !contains_nl(a),
        !contains_nl(b),
        !contains_nl(c),
    ensures
        complete_lines(a + seq![NL] + b + seq![NL] + c + seq![NL]) =~= seq![a, b, c],
        line_rest(a + seq![NL] + b + seq![NL] + c + seq![NL]) =~= Seq::<u8>::empty(),
{
    let tail_c = c + seq![NL];
    let tail_b = b + seq![NL] + c + seq![NL];
    assert(tail_c =~= c + seq![NL] + Seq::<u8>::empty());
    lemma_partial_line_pending(Seq::<u8>::empty());
    lemma_first_line(c, Seq::<u8>::empty());
    assert(b + seq![NL] + tail_c =~= tail_b);
    lemma_first_line(b, tail_c);
    assert(a + seq![NL] + tail_b =~= a + seq![NL] + b + seq![NL] + c + seq![NL]);
    lemma_first_line(a, tail_b);
    assert(seq![a] + (seq![b] + (seq![c] + Seq::<Seq<u8>>::empty())) =~= seq![a, b, c]);
}

/// First terminator at or after `from` in `buf`, if any.
///
/// `Some(k)` means `buf[k]` is a terminator and no byte of
/// `buf[from..k]` is; `None` means no terminator remains at all.
pub fn find_newline(buf: &Vec<u8>, from: usize) -> (r: Option<usize>)
    requires
        from <= buf@.len(),
    ensures
        match r {
            Some(k) => from <= k < buf@.len() && buf@[k as int] == NL && !contains_nl(
                buf@.subrange(from as int, k as int),
            ),
            None => !contains_nl(buf@.skip(from as int)),
        },
{
    let mut i: usize = from;
    while i < buf.len()
        invariant
            from <= i <= buf@.len(),
            !contains_nl(buf@.subrange(from as int, i as int)),
        decreases buf@.len() - i,
    {
        if buf[i] == NL {
            return Some(i);
        }
        assert(buf@.subrange(from as int, i + 1 as int) =~= buf@.subrange(
            from as int,
            i as int,
        ).push(buf@[i as int]));
        i = i + 1;
    }
    assert(buf@.skip(from as int) =~= buf@.subrange(from as int, i as int));
    None
}

/// Discard the first `k` bytes of `v`, compacting the remainder to the
/// front.  This is how an accumulator drops consumed lines while keeping
/// a trailing partial line.
pub fn drain_prefix(v: &mut Vec<u8>, k: usize)
    requires
        k <= old(v)@.len(),
    ensures
        final(v)@ == old(v)@.skip(k as int),
{
    let n = v.len();
    let mut i: usize = 0;
    while i < n - k
        invariant
            k <= n == v@.len(),
            i <= n - k,
            forall|j: int| 0 <= j < i ==> v@[j] == old(v)@[k + j],
            forall|j: int| i <= j < n - k ==> #[trigger] v@[k + j] == old(v)@[k + j],
        decreases n - k - i,
    {
        let b = v[k + i];
        v.set(i, b);
        i = i + 1;
    }
    v.truncate(n - k);
    assert(v@ =~= old(v)@.skip(k as int));
}

} // verus!
