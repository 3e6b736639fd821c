//! What the library makes of the values that the host functions return:
//! counts that are negative on failure, and the argument buffer.
use vstd::prelude::*;
use vstd::utf8::valid_utf8;
use crate::text::{split, NEWLINE, no_newline, all_no_newline, lemma_split_no_newline};

verus! {

/// A count as the host reports it, a negative value meaning none.
pub open spec fn spec_host_count(n: i32) -> int {
    if n < 0 {
        0
    } else {
        n as int
    }
}

/// Reads a host count: a negative value (a failure) counts as zero.
pub fn host_count(n: i32) -> (c: usize)
    ensures
        c == spec_host_count(n),
{
    if n < 0 {
        0
    } else {
        n as usize
    }
}

/// Reads the length of what the host wrote into a buffer of `buf_len`
/// bytes: `None` when it reports a failure (a negative value), else the
/// length, which the host keeps within the buffer.
pub fn filled_len(n: i32, buf_len: usize) -> (r: Option<usize>)
    requires
        n < 0 || n as int <= buf_len,
    ensures
        n < 0 ==> r is None,
        n >= 0 ==> r == Some(n as usize),
{
    if n < 0 {
        None
    } else {
        Some(n as usize)
    }
}

/// `core::str::from_utf8(bytes).is_ok()`: by its documentation, whether
/// `bytes` is valid UTF-8 (vstd's `valid_utf8`).
#[verifier::external_body]
fn is_utf8(bytes: &[u8]) -> (r: bool)
    ensures
        r == valid_utf8(bytes@),
{
    core::str::from_utf8(bytes).is_ok()
}

/// Reads the length of the line that the host wrote into a buffer: `None`
/// when it reports an abort (a negative value) or when the bytes written
/// are not valid UTF-8, else the number of bytes written, which the host
/// keeps within the buffer.
pub fn line_len(buf: &[u8], n: i32) -> (r: Option<usize>)
    requires
        n < 0 || n as int <= buf@.len(),
    ensures
        r == (if n >= 0 && valid_utf8(buf@.take(n as int)) {
            Some(n as usize)
        } else {
            None::<usize>
        }),
{
    let len = filled_len(n, buf.len())?;
    let line = vstd::slice::slice_subrange(buf, 0, len);
    assert(line@ =~= buf@.take(n as int));
    if is_utf8(line) {
        Some(len)
    } else {
        None
    }
}

/// The non-empty lines among `ls`, in order.
pub open spec fn nonempty_lines(ls: Seq<Seq<u8>>) -> Seq<Seq<u8>>
    decreases ls.len(),
{
    if ls.len() == 0 {
        Seq::<Seq<u8>>::empty()
    } else {
        let r = nonempty_lines(ls.drop_last());
        if ls.last().len() > 0 {
            r.push(ls.last())
        } else {
            r
        }
    }
}

/// The bytes of `d` that the spans cover, span by span.
pub open spec fn span_bytes(d: Seq<u8>, spans: Seq<(usize, usize)>) -> Seq<Seq<u8>> {
    spans.map_values(|p: (usize, usize)| d.subrange(p.0 as int, p.1 as int))
}

/// The program's arguments in the argument buffer: the host wrote `n`
/// bytes (none if negative), which must be valid UTF-8 (else there are no
/// arguments), separated by newlines; empty pieces are skipped.
pub open spec fn spec_arguments(buf: Seq<u8>, n: i32) -> Seq<Seq<u8>> {
    let d = buf.take(spec_host_count(n));
    if valid_utf8(d) {
        nonempty_lines(split(d))
    } else {
        Seq::<Seq<u8>>::empty()
    }
}

/// The span `(start, end)` of `d` is bounded by newlines or the ends of
/// `d` on both sides.
pub open spec fn between_newlines(d: Seq<u8>, span: (usize, usize)) -> bool {
    &&& span.0 < span.1 <= d.len()
    &&& (span.0 == 0 || d[span.0 - 1] == NEWLINE)
    &&& (span.1 == d.len() || d[span.1 as int] == NEWLINE)
}

/// Locates the program's arguments in the argument buffer, of which the
/// host reports to have written `n` bytes: each argument as the span
/// `(start, end)` of its bytes, in order. The bytes written must be valid
/// UTF-8, else there are none; they are split at newlines and empty pieces
/// are skipped. A span starts and ends next to a newline or an end of the
/// text, so it holds whole characters.
pub fn arg_spans(buf: &[u8], n: i32) -> (spans: Vec<(usize, usize)>)
    requires
        spec_host_count(n) <= buf@.len(),
    ensures
        forall|k: int|
            0 <= k < spans@.len() ==> between_newlines(
                buf@.take(spec_host_count(n)),
                #[trigger] spans@[k],
            ),
        forall|k: int, j: int|
            0 <= k < j < spans@.len() ==> #[trigger] spans@[k].1 < #[trigger] spans@[j].0,
        span_bytes(buf@, spans@) == spec_arguments(buf@, n),
{
    let len = host_count(n);
    let text = vstd::slice::slice_subrange(buf, 0, len);
    let mut spans: Vec<(usize, usize)> = Vec::new();
    if !is_utf8(text) {
        assert(span_bytes(buf@, spans@) =~= Seq::<Seq<u8>>::empty());
        return spans;
    }
    let ghost d = text@;
    assert(d =~= buf@.take(len as int));
    let mut start: usize = 0;
    let mut i: usize = 0;
    while i < len
        invariant
            len == text@.len(),
            len == spec_host_count(n),
            spec_host_count(n) <= buf@.len(),
            d == text@,
            d == buf@.take(len as int),
            start <= i <= len,
            split(d.take(i as int)).len() >= 1,
            split(d.take(i as int)).last() == d.subrange(start as int, i as int),
            start == 0 || d[start - 1] == NEWLINE,
            forall|k: int|
                0 <= k < spans@.len() ==> between_newlines(d, #[trigger] spans@[k]) && spans@[k].1
                    < start,
            forall|k: int, j: int|
                0 <= k < j < spans@.len() ==> #[trigger] spans@[k].1 < #[trigger] spans@[j].0,
            span_bytes(buf@, spans@) == nonempty_lines(split(d.take(i as int)).drop_last()),
        decreases len - i,
    {
        let ghost s0 = split(d.take(i as int));
        let ghost sp0 = spans@;
        assert(d.take(i + 1).drop_last() =~= d.take(i as int));
        assert(d.take(i + 1).last() == d[i as int]);
        if text[i] == NEWLINE {
            if i > start {
                spans.push((start, i));
                assert(span_bytes(buf@, spans@) =~= span_bytes(buf@, sp0).push(
                    buf@.subrange(start as int, i as int),
                ));
                assert(buf@.subrange(start as int, i as int) =~= d.subrange(start as int, i as int));
            }
            let ghost s1 = split(d.take(i + 1));
            assert(s1 == s0.push(Seq::<u8>::empty()));
            assert(s1.drop_last() =~= s0);
            assert(s0 =~= s0.drop_last().push(s0.last()));
            assert(d.subrange((i + 1) as int, (i + 1) as int) =~= Seq::<u8>::empty());
            start = i + 1;
        } else {
            let ghost s1 = split(d.take(i + 1));
            assert(s1.drop_last() =~= s0.drop_last());
            assert(d.subrange(start as int, (i + 1) as int) =~= d.subrange(start as int, i as int).push(
                d[i as int],
            ));
        }
        i = i + 1;
    }
    assert(d.take(i as int) =~= d);
    let ghost s = split(d);
    let ghost sp0 = spans@;
    if len > start {
        spans.push((start, len));
        assert(span_bytes(buf@, spans@) =~= span_bytes(buf@, sp0).push(
            buf@.subrange(start as int, len as int),
        ));
        assert(buf@.subrange(start as int, len as int) =~= d.subrange(start as int, len as int));
    }
    assert(s =~= s.drop_last().push(s.last()));
    spans
}

/// When the host wrote no argument bytes, there are no arguments. (The
/// converse fails: a buffer holding only a newline has a byte but no
/// argument.)
pub proof fn no_bytes_no_arguments(buf: Seq<u8>, n: i32)
    requires
        spec_host_count(n) == 0,
    ensures
        spec_arguments(buf, n).len() == 0,
{
    let d = buf.take(0);
    assert(d =~= Seq::<u8>::empty());
    assert(split(d) == seq![Seq::<u8>::empty()]);
    let ls = split(d);
    assert(ls.drop_last() =~= Seq::<Seq<u8>>::empty());
    assert(nonempty_lines(ls.drop_last()) == Seq::<Seq<u8>>::empty());
}

proof fn lemma_nonempty_lines(ls: Seq<Seq<u8>>)
    requires
        all_no_newline(ls),
    ensures
        forall|k: int|
            0 <= k < nonempty_lines(ls).len() ==> #[trigger] nonempty_lines(ls)[k].len() > 0
                && no_newline(nonempty_lines(ls)[k]),
    decreases ls.len(),
{
    if ls.len() > 0 {
        let init = ls.drop_last();
        assert(all_no_newline(init)) by {
            assert forall|i: int| 0 <= i < init.len() implies no_newline(#[trigger] init[i]) by {
                assert(init[i] == ls[i]);
            }
        }
        lemma_nonempty_lines(init);
        assert(no_newline(ls[ls.len() - 1]));
        let r = nonempty_lines(init);
        assert forall|k: int| 0 <= k < nonempty_lines(ls).len() implies #[trigger] nonempty_lines(
            ls,
        )[k].len() > 0 && no_newline(nonempty_lines(ls)[k]) by {
            if k < r.len() {
                assert(nonempty_lines(ls)[k] == r[k]);
            }
        }
    }
}

/// Every argument is non-empty and holds no newline.
pub proof fn arguments_are_nonempty_lines(buf: Seq<u8>, n: i32)
    ensures
        forall|k: int|
            0 <= k < spec_arguments(buf, n).len() ==> #[trigger] spec_arguments(buf, n)[k].len() > 0
                && no_newline(spec_arguments(buf, n)[k]),
{
    let d = buf.take(spec_host_count(n));
    lemma_split_no_newline(d);
    lemma_nonempty_lines(split(d));
}

/// Every non-empty piece counts, in order, and only those: no lines give
/// no arguments, a further non-empty piece is one more argument, and an
/// empty piece adds none.
pub proof fn nonempty_lines_keeps_every_nonempty_piece(ls: Seq<Seq<u8>>, x: Seq<u8>)
    ensures
        nonempty_lines(Seq::<Seq<u8>>::empty()) == Seq::<Seq<u8>>::empty(),
        x.len() > 0 ==> nonempty_lines(ls.push(x)) == nonempty_lines(ls).push(x),
        x.len() == 0 ==> nonempty_lines(ls.push(x)) == nonempty_lines(ls),
        nonempty_lines(ls).len() <= ls.len(),
    decreases ls.len(),
{
    assert(ls.push(x).drop_last() =~= ls);
    if ls.len() > 0 {
        nonempty_lines_keeps_every_nonempty_piece(ls.drop_last(), ls.last());
    }
}

/// The arguments are the non-empty pieces between the newlines of the
/// bytes written, when those are valid UTF-8, and there are none otherwise.
pub proof fn arguments_are_the_written_pieces(buf: Seq<u8>, n: i32)
    ensures
        valid_utf8(buf.take(if n < 0 { 0 } else { n as int })) ==> spec_arguments(buf, n)
            == nonempty_lines(split(buf.take(if n < 0 { 0 } else { n as int }))),
        !valid_utf8(buf.take(if n < 0 { 0 } else { n as int })) ==> spec_arguments(buf, n).len()
            == 0,
{
}

/// A count from the host is the value itself, or zero when it is negative.
pub proof fn host_counts_clamp_at_zero(n: i32)
    ensures
        n < 0 ==> spec_host_count(n) == 0,
        n >= 0 ==> spec_host_count(n) == n,
{
}

} // verus!
