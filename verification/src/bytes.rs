//! Byte strings read as big-endian numbers.
use vstd::prelude::*;

verus! {

/// The number that `s` spells in base 256, most significant byte first.
pub open spec fn be_value(s: Seq<u8>) -> nat
    decreases s.len(),
{
    if s.len() == 0 {
        0
    } else {
        be_value(s.drop_last()) * 256 + s.last() as nat
    }
}

/// The `len` low-order base-256 digits of `v`, most significant first.
pub open spec fn be_bytes(v: nat, len: nat) -> Seq<u8>
    decreases len,
{
    if len == 0 {
        seq![]
    } else {
        be_bytes(v / 256, (len - 1) as nat).push((v % 256) as u8)
    }
}

/// Law: no bytes spell zero, and a byte at the end shifts the number by one digit and is
/// added to it.
pub proof fn law_value_of_push(s: Seq<u8>, last: u8)
    ensures
        be_value(Seq::empty()) == 0,
        be_value(s.push(last)) == be_value(s) * 256 + last,
{
    assert(s.push(last).drop_last() =~= s);
}

/// The digits of the number that `s` spells are `s`.
pub proof fn lemma_bytes_of_value(s: Seq<u8>)
    ensures
        be_bytes(be_value(s), s.len()) == s,
    decreases s.len(),
{
    if s.len() == 0 {
        assert(be_bytes(be_value(s), 0) =~= s);
    } else {
        lemma_bytes_of_value(s.drop_last());
        let v = be_value(s);
        assert(v / 256 == be_value(s.drop_last()) && v % 256 == s.last() as nat);
        assert(s.drop_last().push(s.last()) =~= s);
    }
}

/// The number of byte strings of length `len`.
pub open spec fn be_limit(len: nat) -> nat
    decreases len,
{
    if len == 0 {
        1
    } else {
        256 * be_limit((len - 1) as nat)
    }
}

/// A number that `len` digits can hold is the number that its `len` digits spell.
pub proof fn lemma_value_of_bytes(v: nat, len: nat)
    requires
        v < be_limit(len),
    ensures
        be_bytes(v, len).len() == len,
        be_value(be_bytes(v, len)) == v,
    decreases len,
{
    if len > 0 {
        lemma_value_of_bytes(v / 256, (len - 1) as nat);
        assert(be_bytes(v, len).drop_last() =~= be_bytes(v / 256, (len - 1) as nat));
    }
}

/// A byte string spells less than the number of strings of its length.
pub proof fn lemma_value_below_limit(s: Seq<u8>)
    ensures
        be_value(s) < be_limit(s.len()),
    decreases s.len(),
{
    if s.len() > 0 {
        lemma_value_below_limit(s.drop_last());
    }
}

/// Leading zero bytes do not change the number.
pub proof fn lemma_leading_zeroes(zeroes: Seq<u8>, s: Seq<u8>)
    requires
        forall|i: int| 0 <= i < zeroes.len() ==> zeroes[i] == 0,
    ensures
        be_value(zeroes + s) == be_value(s),
    decreases zeroes.len() + s.len(),
{
    if s.len() > 0 {
        lemma_leading_zeroes(zeroes, s.drop_last());
        assert((zeroes + s).drop_last() =~= zeroes + s.drop_last());
    } else if zeroes.len() > 0 {
        lemma_leading_zeroes(zeroes.drop_last(), s);
        assert((zeroes + s).drop_last() =~= zeroes.drop_last() + s);
    } else {
        assert(zeroes + s =~= s);
    }
}

/// The first place where two equally long byte strings differ decides which of
/// the two numbers is the smaller.
pub proof fn lemma_first_difference(a: Seq<u8>, b: Seq<u8>, i: int)
    requires
        a.len() == b.len(),
        0 <= i < a.len(),
        a.take(i) == b.take(i),
        a[i] < b[i],
    ensures
        be_value(a) < be_value(b),
    decreases a.len(),
{
    if i == a.len() - 1 {
        assert(a.drop_last() =~= a.take(i));
        assert(b.drop_last() =~= b.take(i));
    } else {
        assert(a.drop_last().take(i) =~= a.take(i));
        assert(b.drop_last().take(i) =~= b.take(i));
        lemma_first_difference(a.drop_last(), b.drop_last(), i);
    }
}

} // verus!
