//! Byte-string utilities.  Symbols, endpoints and wire frames are UTF-8
//! byte strings (`Vec<u8>`), which keeps all reasoning over plain
//! integers; these helpers convert ASCII literals, compare byte strings
//! and canonicalize symbol spellings.

use vstd::prelude::*;
use vstd::string::StrSliceExecFns;

verus! {

/// The bytes of an ASCII character sequence.
pub open spec fn ascii_bytes(s: Seq<char>) -> Seq<u8> {
    s.map_values(|c: char| c as u8)
}

/// The byte vector of an ASCII string slice.
pub fn lit_bytes(s: &str) -> (v: Vec<u8>)
    requires
        s.is_ascii(),
    ensures
        v@ == ascii_bytes(s@),
{
    let v = s.as_bytes_vec();
    proof {
        broadcast use vstd::string::is_ascii_spec_bytes;
        assert(v@ =~= ascii_bytes(s@));
    }
    v
}

/// Whether two byte strings hold the same bytes.
pub fn bytes_eq(a: &Vec<u8>, b: &Vec<u8>) -> (r: bool)
    ensures
        r == (a@ == b@),
{
    if a.len() != b.len() {
        return false;
    }
    let mut i: usize = 0;
    while i < a.len()
        invariant
            i <= a.len(),
            a@.len() == b@.len(),
            forall|j: int| 0 <= j < i ==> a@[j] == b@[j],
        decreases a.len() - i,
    {
        if a[i] != b[i] {
            return false;
        }
        i += 1;
    }
    proof {
        assert(a@ =~= b@);
    }
    true
}

/// An owned copy of a byte string.
pub fn clone_bytes(v: &Vec<u8>) -> (r: Vec<u8>)
    ensures
        r@ == v@,
{
    let mut r: Vec<u8> = Vec::new();
    push_bytes(&mut r, v);
    proof {
        assert(r@ =~= v@);
    }
    r
}

/// Appends all bytes of `src` to `dst`.
pub fn push_bytes(dst: &mut Vec<u8>, src: &Vec<u8>)
    ensures
        final(dst)@ == old(dst)@ + src@,
{
    let mut i: usize = 0;
    while i < src.len()
        invariant
            i <= src@.len(),
            dst@ =~= old(dst)@ + src@.subrange(0, i as int),
        decreases src@.len() - i,
    {
        dst.push(src[i]);
        proof {
            assert(src@.subrange(0, i + 1 as int) =~= src@.subrange(0, i as int).push(
                src@[i as int],
            ));
            assert(dst@ =~= old(dst)@ + src@.subrange(0, i + 1 as int));
        }
        i += 1;
    }
    proof {
        assert(src@.subrange(0, src@.len() as int) =~= src@);
        assert(dst@ =~= old(dst)@ + src@);
    }
}

/// `s` with ASCII lower-case letters raised to upper case.
pub open spec fn spec_upper_ascii(s: Seq<u8>) -> Seq<u8> {
    s.map_values(|b: u8| if 97 <= b <= 122 { (b - 32) as u8 } else { b })
}

/// Uppercases the ASCII letters of a byte string; canonical Binance
/// symbols are the upper-cased subscription spelling.
pub fn upper_ascii(v: &Vec<u8>) -> (r: Vec<u8>)
    ensures
        r@ == spec_upper_ascii(v@),
{
    let mut r: Vec<u8> = Vec::new();
    let mut i: usize = 0;
    while i < v.len()
        invariant
            i <= v.len(),
            r@ =~= spec_upper_ascii(v@.subrange(0, i as int)),
        decreases v.len() - i,
    {
        let b = v[i];
        if 97 <= b && b <= 122 {
            r.push(b - 32);
        } else {
            r.push(b);
        }
        proof {
            assert(v@.subrange(0, i + 1 as int) =~= v@.subrange(0, i as int).push(v@[i as int]));
            assert(r@ =~= spec_upper_ascii(v@.subrange(0, i + 1 as int)));
        }
        i += 1;
    }
    proof {
        assert(v@.subrange(0, v@.len() as int) =~= v@);
    }
    r
}

/// `s` with every dash (`-`) removed.
pub open spec fn spec_strip_dashes(s: Seq<u8>) -> Seq<u8>
    decreases s.len(),
{
    if s.len() == 0 {
        Seq::empty()
    } else if s[0] == 45 {
        spec_strip_dashes(s.drop_first())
    } else {
        seq![s[0]] + spec_strip_dashes(s.drop_first())
    }
}

proof fn lemma_strip_dashes_push(s: Seq<u8>, b: u8)
    ensures
        spec_strip_dashes(s.push(b)) == spec_strip_dashes(s) + (
            if b == 45 { Seq::<u8>::empty() } else { seq![b] }
        ),
    decreases s.len(),
{
    if s.len() == 0 {
        assert(s.push(b).drop_first() =~= Seq::<u8>::empty());
        assert(s.push(b)[0] == b);
        assert(spec_strip_dashes(Seq::<u8>::empty()) == Seq::<u8>::empty());
        assert(spec_strip_dashes(s) == Seq::<u8>::empty());
        if b == 45 {
            assert(spec_strip_dashes(s.push(b)) == Seq::<u8>::empty());
            assert(spec_strip_dashes(s.push(b)) =~= spec_strip_dashes(s) + Seq::<u8>::empty());
        } else {
            assert(spec_strip_dashes(s.push(b)) == seq![b] + Seq::<u8>::empty());
            assert(spec_strip_dashes(s.push(b)) =~= spec_strip_dashes(s) + seq![b]);
        }
    } else {
        assert(s.push(b).drop_first() =~= s.drop_first().push(b));
        lemma_strip_dashes_push(s.drop_first(), b);
        assert(spec_strip_dashes(s.push(b)) =~= spec_strip_dashes(s) + (
            if b == 45 { Seq::<u8>::empty() } else { seq![b] }
        ));
    }
}

/// Removes every dash from a byte string; canonical Coinbase symbols are
/// the product identifier with its `-` separator removed.
pub fn strip_dashes(v: &Vec<u8>) -> (r: Vec<u8>)
    ensures
        r@ == spec_strip_dashes(v@),
{
    let mut r: Vec<u8> = Vec::new();
    let mut i: usize = 0;
    while i < v.len()
        invariant
            i <= v.len(),
            r@ =~= spec_strip_dashes(v@.subrange(0, i as int)),
        decreases v.len() - i,
    {
        let b = v[i];
        if b != 45 {
            r.push(b);
        }
        proof {
            assert(v@.subrange(0, i + 1 as int) =~= v@.subrange(0, i as int).push(v@[i as int]));
            lemma_strip_dashes_push(v@.subrange(0, i as int), v@[i as int]);
            assert(r@ =~= spec_strip_dashes(v@.subrange(0, i + 1 as int)));
        }
        i += 1;
    }
    proof {
        assert(v@.subrange(0, v@.len() as int) =~= v@);
    }
    r
}

} // verus!
