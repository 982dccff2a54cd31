//! Byte strings: names and paths of the host, which need not be text.

use vstd::prelude::*;

verus! {

/// The bytes that encode a text.
pub open spec fn encoded(s: Seq<char>) -> Seq<u8> {
    vstd::utf8::encode_utf8(s)
}

/// Whether two byte strings are the same.
pub fn same(a: &[u8], b: &[u8]) -> (r: bool)
    ensures
        r == (a@ == b@),
{
    if a.len() != b.len() {
        return false;
    }
    for i in 0..a.len()
        invariant
            a@.len() == b@.len(),
            forall|k: int| 0 <= k < i ==> a@[k] == b@[k],
    {
        if a[i] != b[i] {
            return false;
        }
    }
    assert(a@ =~= b@);
    true
}

/// Whether the bytes encode the text.
pub fn are(a: &[u8], s: &str) -> (r: bool)
    ensures
        r == (a@ == encoded(s@)),
{
    same(a, s.as_bytes())
}

/// The bytes of a text.
pub fn of(s: &str) -> (r: Vec<u8>)
    ensures
        r@ == encoded(s@),
{
    vstd::slice::slice_to_vec(s.as_bytes())
}

/// Whether the byte occurs.
pub fn has(a: &[u8], byte: u8) -> (r: bool)
    ensures
        r == a@.contains(byte),
{
    for i in 0..a.len()
        invariant
            forall|k: int| 0 <= k < i ==> a@[k] != byte,
    {
        if a[i] == byte {
            assert(a@[i as int] == byte);
            return true;
        }
    }
    false
}

/// The contents of a list of byte strings.
pub open spec fn views(v: Seq<Vec<u8>>) -> Seq<Seq<u8>> {
    Seq::new(v.len(), |i: int| v[i]@)
}

/// The stretches between the given byte.
pub open spec fn split(s: Seq<u8>, by: u8) -> Seq<Seq<u8>>
    decreases s.len(),
{
    if s.len() == 0 {
        seq![Seq::<u8>::empty()]
    } else {
        let before = split(s.drop_last(), by);
        if s.last() == by {
            before.push(Seq::empty())
        } else {
            before.drop_last().push(before.last().push(s.last()))
        }
    }
}

/// Every split has at least one stretch.
pub proof fn lemma_split_nonempty(s: Seq<u8>, by: u8)
    ensures
        split(s, by).len() >= 1,
    decreases s.len(),
{
    if s.len() > 0 {
        lemma_split_nonempty(s.drop_last(), by);
    }
}

/// Cuts the bytes at every occurrence of one byte.
pub fn pieces(s: &[u8], by: u8) -> (out: Vec<Vec<u8>>)
    ensures
        views(out@) == split(s@, by),
{
    let mut out: Vec<Vec<u8>> = Vec::new();
    let mut current: Vec<u8> = Vec::new();
    proof {
        assert(s@.take(0) =~= Seq::empty());
        assert(views(out@).push(current@) =~= split(s@.take(0), by));
    }
    for i in 0..s.len()
        invariant
            views(out@).push(current@) == split(s@.take(i as int), by),
    {
        let ghost before = views(out@).push(current@);
        let c: u8 = s[i];
        proof {
            assert(s@.take(i + 1).drop_last() =~= s@.take(i as int));
            assert(s@.take(i + 1).last() == c);
        }
        if c == by {
            let ghost done = out@;
            let ghost cut = current@;
            out.push(current);
            current = Vec::new();
            assert(views(out@) =~= views(done).push(cut));
            assert(current@ =~= Seq::empty());
        } else {
            current.push(c);
            assert(views(out@).push(current@) =~= before.drop_last().push(before.last().push(c)));
        }
    }
    let ghost done = out@;
    let ghost cut = current@;
    out.push(current);
    proof {
        assert(s@.take(s@.len() as int) =~= s@);
        assert(views(out@) =~= views(done).push(cut));
    }
    out
}

/// A separator ends a piece and begins the next: what stands before it and what stands
/// after it are cut by themselves.
pub proof fn law_separators_cut(a: Seq<u8>, by: u8, b: Seq<u8>)
    ensures
        split(a.push(by) + b, by) == split(a, by) + split(b, by),
    decreases b.len(),
{
    let whole = a.push(by) + b;
    if b.len() == 0 {
        assert(whole =~= a.push(by));
        assert(whole.drop_last() =~= a);
        assert(split(b, by) =~= seq![Seq::<u8>::empty()]);
        assert(split(whole, by) =~= split(a, by) + split(b, by));
    } else {
        let short = b.drop_last();
        assert(whole.drop_last() =~= a.push(by) + short);
        law_separators_cut(a, by, short);
        lemma_split_nonempty(short, by);
        let before = split(a, by) + split(short, by);
        if b.last() != by {
            assert(before.drop_last() =~= split(a, by) + split(short, by).drop_last());
            assert(before.last() == split(short, by).last());
        }
        assert(split(whole, by) =~= split(a, by) + split(b, by));
    }
}

/// Bytes without the separator are one piece.
pub proof fn law_clean_bytes_are_one_piece(s: Seq<u8>, by: u8)
    requires
        !s.contains(by),
    ensures
        split(s, by) == seq![s],
    decreases s.len(),
{
    if s.len() == 0 {
        assert(s =~= Seq::empty());
    } else {
        let short = s.drop_last();
        assert(s.contains(s.last()));
        assert forall|i: int| 0 <= i < short.len() implies short[i] != by by {
            assert(short[i] == s[i]);
            assert(s.contains(s[i]));
        }
        law_clean_bytes_are_one_piece(short, by);
        assert(short.push(s.last()) =~= s);
        assert(split(short, by).drop_last() =~= Seq::empty());
    }
    assert(split(s, by) =~= seq![s]);
}

} // verus!
