//! Text as lines of bytes: splitting a byte buffer at newlines and joining
//! lines back with newlines, with the laws that make the two inverse.
use vstd::prelude::*;
use vstd::string::StringSliceAdditionalSpecFns;

verus! {

/// The line separator, `b'\n'`.
pub const NEWLINE: u8 = 10;

/// The byte views of a sequence of byte vectors.
pub open spec fn seqs(v: Seq<Vec<u8>>) -> Seq<Seq<u8>> {
    v.map_values(|l: Vec<u8>| l@)
}

/// The lines of `d`: the pieces between newlines, as `<[u8]>::split` yields
/// them. There is always at least one piece; a trailing newline gives an
/// empty last piece.
pub open spec fn split(d: Seq<u8>) -> Seq<Seq<u8>>
    decreases d.len(),
{
    if d.len() == 0 {
        seq![Seq::<u8>::empty()]
    } else {
        let s = split(d.drop_last());
        if d.last() == NEWLINE {
            s.push(Seq::<u8>::empty())
        } else {
            s.update(s.len() - 1, s.last().push(d.last()))
        }
    }
}

/// The lines `ls` joined with one newline between neighbours.
pub open spec fn join(ls: Seq<Seq<u8>>) -> Seq<u8>
    decreases ls.len(),
{
    if ls.len() == 0 {
        Seq::<u8>::empty()
    } else if ls.len() == 1 {
        ls[0]
    } else {
        join(ls.drop_last()) + seq![NEWLINE] + ls.last()
    }
}

/// The text that precedes a line placed after the lines `a`: their join and
/// a newline, or nothing when there are none.
pub open spec fn lead(a: Seq<Seq<u8>>) -> Seq<u8> {
    if a.len() == 0 {
        Seq::<u8>::empty()
    } else {
        join(a) + seq![NEWLINE]
    }
}

/// The text that follows a line placed before the lines `b`.
pub open spec fn trail(b: Seq<Seq<u8>>) -> Seq<u8> {
    if b.len() == 0 {
        Seq::<u8>::empty()
    } else {
        seq![NEWLINE] + join(b)
    }
}

/// No byte of `l` is a newline.
pub open spec fn no_newline(l: Seq<u8>) -> bool {
    forall|i: int| 0 <= i < l.len() ==> l[i] != NEWLINE
}

/// No line of `ls` holds a newline.
pub open spec fn all_no_newline(ls: Seq<Seq<u8>>) -> bool {
    forall|i: int| 0 <= i < ls.len() ==> no_newline(#[trigger] ls[i])
}

pub proof fn lemma_split_nonempty(d: Seq<u8>)
    ensures
        split(d).len() >= 1,
    decreases d.len(),
{
    if d.len() > 0 {
        lemma_split_nonempty(d.drop_last());
    }
}

/// Every line that `split` yields is free of newlines.
pub proof fn lemma_split_no_newline(d: Seq<u8>)
    ensures
        all_no_newline(split(d)),
    decreases d.len(),
{
    if d.len() > 0 {
        lemma_split_nonempty(d.drop_last());
        lemma_split_no_newline(d.drop_last());
        let s = split(d.drop_last());
        if d.last() != NEWLINE {
            assert forall|i: int| 0 <= i < split(d).len() implies no_newline(#[trigger] split(d)[i]) by {
                if i == s.len() - 1 {
                    assert(no_newline(s[i]));
                    assert(split(d)[i] == s[i].push(d.last()));
                } else {
                    assert(split(d)[i] == s[i]);
                }
            }
        } else {
            assert forall|i: int| 0 <= i < split(d).len() implies no_newline(#[trigger] split(d)[i]) by {
                if i < s.len() {
                    assert(split(d)[i] == s[i]);
                }
            }
        }
    }
}

/// Joining a sequence whose last line grew by one byte appends that byte.
pub proof fn lemma_join_extend_last(s: Seq<Seq<u8>>, b: u8)
    requires
        s.len() >= 1,
    ensures
        join(s.update(s.len() - 1, s.last().push(b))) == join(s).push(b),
{
    let t = s.update(s.len() - 1, s.last().push(b));
    if s.len() > 1 {
        assert(t.drop_last() =~= s.drop_last());
        assert(join(t) =~= join(s).push(b));
    }
}

/// Joining a sequence with one more line: the lead of the old lines, then
/// the new line.
pub proof fn lemma_join_push(a: Seq<Seq<u8>>, x: Seq<u8>)
    ensures
        join(a.push(x)) == lead(a) + x,
{
    assert(a.push(x).drop_last() =~= a);
    if a.len() == 0 {
        assert(lead(a) + x =~= x);
    }
}

/// Joining the lines of a buffer gives the buffer back.
pub proof fn lemma_join_split(d: Seq<u8>)
    ensures
        join(split(d)) == d,
    decreases d.len(),
{
    if d.len() == 0 {
    } else {
        let dl = d.drop_last();
        lemma_join_split(dl);
        lemma_split_nonempty(dl);
        let s = split(dl);
        if d.last() == NEWLINE {
            lemma_join_push(s, Seq::<u8>::empty());
            assert(join(split(d)) =~= d);
        } else {
            lemma_join_extend_last(s, d.last());
            assert(join(split(d)) =~= d);
        }
    }
}

/// A buffer without newlines is a single line.
pub proof fn lemma_split_plain(l: Seq<u8>)
    requires
        no_newline(l),
    ensures
        split(l) == seq![l],
    decreases l.len(),
{
    if l.len() > 0 {
        let ll = l.drop_last();
        assert(no_newline(ll));
        lemma_split_plain(ll);
        assert(l[l.len() - 1] != NEWLINE);
        assert(ll.push(l.last()) =~= l);
        assert(split(l) =~= seq![l]);
    } else {
        assert(l =~= Seq::<u8>::empty());
    }
}

/// Appending bytes without newlines extends the last line.
pub proof fn lemma_split_append_plain(a: Seq<u8>, b: Seq<u8>)
    requires
        no_newline(b),
    ensures
        split(a).len() >= 1,
        split(a + b) == split(a).update(split(a).len() - 1, split(a).last() + b),
    decreases b.len(),
{
    lemma_split_nonempty(a);
    if b.len() == 0 {
        assert(a + b =~= a);
        assert(split(a).last() + b =~= split(a).last());
        assert(split(a).update(split(a).len() - 1, split(a).last() + b) =~= split(a));
    } else {
        let bl = b.drop_last();
        assert(no_newline(bl));
        lemma_split_append_plain(a, bl);
        assert((a + b).drop_last() =~= a + bl);
        assert(b[b.len() - 1] != NEWLINE);
        assert((a + b).last() == b.last());
        let s = split(a);
        let k = s.len() - 1;
        assert((s.last() + bl).push(b.last()) =~= s.last() + b);
        assert(split(a + b) =~= s.update(k, s.last() + b));
    }
}

/// Splitting the join of newline-free lines gives the lines back.
pub proof fn lemma_split_join(ls: Seq<Seq<u8>>)
    requires
        ls.len() >= 1,
        all_no_newline(ls),
    ensures
        split(join(ls)) == ls,
    decreases ls.len(),
{
    if ls.len() == 1 {
        assert(no_newline(ls[0]));
        lemma_split_plain(ls[0]);
        assert(seq![ls[0]] =~= ls);
    } else {
        let init = ls.drop_last();
        assert(all_no_newline(init)) by {
            assert forall|i: int| 0 <= i < init.len() implies no_newline(#[trigger] init[i]) by {
                assert(init[i] == ls[i]);
            }
        }
        lemma_split_join(init);
        let j = join(init);
        let last = ls.last();
        assert(no_newline(last)) by {
            assert(ls[ls.len() - 1] == last);
        }
        assert(join(ls) =~= j.push(NEWLINE) + last);
        lemma_split_append_plain(j.push(NEWLINE), last);
        assert(j.push(NEWLINE).drop_last() =~= j);
        assert(split(j.push(NEWLINE)) == init.push(Seq::<u8>::empty()));
        assert(Seq::<u8>::empty() + last =~= last);
        assert(split(join(ls)) =~= ls);
    }
}

/// Joining two non-empty runs of lines puts one newline between them.
pub proof fn lemma_join_concat(a: Seq<Seq<u8>>, b: Seq<Seq<u8>>)
    requires
        a.len() >= 1,
        b.len() >= 1,
    ensures
        join(a + b) == join(a) + seq![NEWLINE] + join(b),
    decreases b.len(),
{
    if b.len() == 1 {
        assert((a + b).drop_last() =~= a);
        assert((a + b).last() == b[0]);
    } else {
        let bl = b.drop_last();
        lemma_join_concat(a, bl);
        assert((a + b).drop_last() =~= a + bl);
        assert((a + b).last() == b.last());
        assert(join(a + b) =~= join(a) + seq![NEWLINE] + join(b));
    }
}

/// The text of lines around a non-empty middle run.
pub proof fn lemma_join_sandwich(a: Seq<Seq<u8>>, m: Seq<Seq<u8>>, b: Seq<Seq<u8>>)
    requires
        m.len() >= 1,
    ensures
        join(a + m + b) == lead(a) + join(m) + trail(b),
{
    if a.len() == 0 {
        assert(a + m =~= m);
        if b.len() == 0 {
            assert(m + b =~= m);
            assert(lead(a) + join(m) + trail(b) =~= join(m));
        } else {
            lemma_join_concat(m, b);
            assert(lead(a) + join(m) + trail(b) =~= join(m) + seq![NEWLINE] + join(b));
        }
    } else {
        lemma_join_concat(a, m);
        if b.len() == 0 {
            assert(a + m + b =~= a + m);
            assert(lead(a) + join(m) + trail(b) =~= join(a) + seq![NEWLINE] + join(m));
        } else {
            lemma_join_concat(a + m, b);
            assert(lead(a) + join(m) + trail(b) =~= join(a) + seq![NEWLINE] + join(m) + seq![NEWLINE]
                + join(b));
        }
    }
}

/// The text around line `r`: what precedes it, the line, what follows it.
pub proof fn lemma_join_at(ls: Seq<Seq<u8>>, r: int)
    requires
        0 <= r < ls.len(),
    ensures
        join(ls) == lead(ls.take(r)) + ls[r] + trail(ls.skip(r + 1)),
{
    assert(ls =~= ls.take(r) + seq![ls[r]] + ls.skip(r + 1));
    lemma_join_sandwich(ls.take(r), seq![ls[r]], ls.skip(r + 1));
}

/// Splits a byte buffer at its newlines, as `data.split(|&b| b == b'\n')`.
pub fn split_lines(data: &[u8]) -> (lines: Vec<Vec<u8>>)
    ensures
        seqs(lines@) == split(data@),
{
    let mut lines: Vec<Vec<u8>> = Vec::new();
    let mut cur: Vec<u8> = Vec::new();
    let mut i: usize = 0;
    while i < data.len()
        invariant
            i <= data@.len(),
            seqs(lines@).push(cur@) == split(data@.take(i as int)),
        decreases data@.len() - i,
    {
        let b: u8 = data[i];
        let ghost before = seqs(lines@);
        let ghost cur0 = cur@;
        assert(data@.take(i + 1).drop_last() =~= data@.take(i as int));
        assert(data@.take(i + 1).last() == b);
        if b == NEWLINE {
            lines.push(cur);
            cur = Vec::new();
            assert(seqs(lines@) =~= before.push(cur0));
            assert(seqs(lines@).push(cur@) =~= split(data@.take(i + 1)));
        } else {
            cur.push(b);
            assert(seqs(lines@).push(cur@) =~= before.push(cur0).update(
                before.len() as int,
                cur0.push(b),
            ));
        }
        i = i + 1;
    }
    lines.push(cur);
    assert(data@.take(i as int) =~= data@);
    lines
}

/// Appends the bytes of `src` to `dst`.
pub fn append_bytes(dst: &mut Vec<u8>, src: &[u8])
    ensures
        final(dst)@ == old(dst)@ + src@,
{
    let ghost start = dst@;
    let mut j: usize = 0;
    while j < src.len()
        invariant
            j <= src@.len(),
            dst@ == start + src@.take(j as int),
        decreases src@.len() - j,
    {
        dst.push(src[j]);
        assert(start + src@.take(j + 1) =~= (start + src@.take(j as int)).push(src@[j as int]));
        j = j + 1;
    }
    assert(src@.take(j as int) =~= src@);
}

/// Joins lines with one newline between neighbours.
pub fn join_lines(lines: &Vec<Vec<u8>>) -> (data: Vec<u8>)
    ensures
        data@ == join(seqs(lines@)),
{
    let ghost ls = seqs(lines@);
    let mut data: Vec<u8> = Vec::new();
    let mut i: usize = 0;
    while i < lines.len()
        invariant
            i <= lines@.len(),
            ls == seqs(lines@),
            data@ == join(ls.take(i as int)),
        decreases lines@.len() - i,
    {
        let ghost d0 = data@;
        if i > 0 {
            data.push(NEWLINE);
        }
        assert(d0 + (if i > 0 { seq![NEWLINE] } else { Seq::<u8>::empty() }) == lead(ls.take(i as int)))
            by {
            if i > 0 {
                assert(d0 + seq![NEWLINE] =~= d0.push(NEWLINE));
            } else {
                assert(d0 + Seq::<u8>::empty() =~= d0);
            }
        }
        append_bytes(&mut data, lines[i].as_slice());
        proof {
            lemma_join_push(ls.take(i as int), ls[i as int]);
            assert(ls.take(i + 1) =~= ls.take(i as int).push(ls[i as int]));
            if i > 0 {
                assert(data@ =~= d0.push(NEWLINE) + lines@[i as int]@);
                assert(d0.push(NEWLINE) =~= d0 + seq![NEWLINE]);
            } else {
                assert(data@ =~= d0 + lines@[i as int]@);
                assert(d0 + Seq::<u8>::empty() =~= d0);
            }
        }
        i = i + 1;
    }
    assert(ls.take(i as int) =~= ls);
    data
}

/// The bytes of a text of ASCII characters.
pub open spec fn ascii(s: Seq<char>) -> Seq<u8> {
    s.map_values(|c: char| c as u8)
}

/// The decimal digits of `n`, most significant first, with no leading zero.
pub open spec fn decimal(n: nat) -> Seq<u8>
    decreases n,
{
    if n < 10 {
        seq![(48 + n) as u8]
    } else {
        decimal(n / 10).push((48 + n % 10) as u8)
    }
}

/// Appends the bytes of an ASCII text to `out`.
pub fn push_ascii(out: &mut Vec<u8>, s: &str)
    requires
        vstd::string::is_ascii(s),
    ensures
        final(out)@ == old(out)@ + ascii(s@),
{
    proof {
        vstd::string::is_ascii_spec_bytes(s);
    }
    append_bytes(out, s.as_bytes());
    assert(s.spec_bytes() =~= ascii(s@));
}

/// Appends the decimal digits of `n` to `out`.
pub fn push_decimal(out: &mut Vec<u8>, n: u128)
    ensures
        final(out)@ == old(out)@ + decimal(n as nat),
    decreases n,
{
    let ghost start = out@;
    if n >= 10 {
        push_decimal(out, n / 10);
    }
    let d: u8 = (n % 10) as u8;
    out.push(48 + d);
    if n >= 10 {
        assert(out@ =~= start + decimal(n as nat));
    } else {
        assert(out@ =~= start + decimal(n as nat));
    }
}

/// The number of newlines in `d`.
pub open spec fn newline_count(d: Seq<u8>) -> nat
    decreases d.len(),
{
    if d.len() == 0 {
        0
    } else {
        newline_count(d.drop_last()) + if d.last() == NEWLINE {
            1nat
        } else {
            0nat
        }
    }
}

/// A buffer splits into one more line than it has newlines, none of which
/// holds a newline, and joining them gives the buffer back.
pub proof fn split_cuts_at_every_newline(d: Seq<u8>)
    ensures
        split(d).len() == newline_count(d) + 1,
        all_no_newline(split(d)),
        join(split(d)) == d,
    decreases d.len(),
{
    lemma_split_no_newline(d);
    lemma_join_split(d);
    if d.len() > 0 {
        split_cuts_at_every_newline(d.drop_last());
    }
}

/// Joining puts exactly one newline between neighbouring lines: no lines
/// join to nothing, one line to itself, and one more line adds a newline
/// and that line.
pub proof fn join_puts_one_newline_between_lines(ls: Seq<Seq<u8>>, x: Seq<u8>)
    ensures
        join(Seq::<Seq<u8>>::empty()) == Seq::<u8>::empty(),
        join(seq![x]) == x,
        ls.len() > 0 ==> join(ls.push(x)) == join(ls) + seq![NEWLINE] + x,
{
    assert(ls.push(x).drop_last() =~= ls);
}

/// The value of decimal digits, most significant first.
pub open spec fn digits_value(ds: Seq<u8>) -> int
    decreases ds.len(),
{
    if ds.len() == 0 {
        0
    } else {
        digits_value(ds.drop_last()) * 10 + (ds.last() - 48)
    }
}

/// `decimal(n)` is made of the digits `'0'` to `'9'`, has no leading zero
/// (unless it is `"0"`), and reads back as `n`.
pub proof fn decimal_reads_back(n: nat)
    ensures
        digits_value(decimal(n)) == n,
        forall|i: int| 0 <= i < decimal(n).len() ==> 48 <= #[trigger] decimal(n)[i] <= 57,
        decimal(n).len() >= 1,
        n > 0 ==> decimal(n)[0] != 48,
    decreases n,
{
    if n >= 10 {
        decimal_reads_back(n / 10);
        let d = decimal(n);
        assert(d.drop_last() =~= decimal(n / 10));
        assert(d[0] == decimal(n / 10)[0]);
        vstd::arithmetic::div_mod::lemma_fundamental_div_mod(n as int, 10);
        assert(d.last() == (48 + n % 10) as u8);
        assert(digits_value(d) == digits_value(decimal(n / 10)) * 10 + (n % 10));
        assert(digits_value(decimal(n / 10)) == n / 10);
        assert(digits_value(d) == n);
    } else {
        let d = decimal(n);
        assert(d.drop_last() =~= Seq::<u8>::empty());
        assert(d.last() == (48 + n) as u8);
        assert(digits_value(d.drop_last()) == 0);
        assert(digits_value(d) == n);
    }
}

} // verus!
