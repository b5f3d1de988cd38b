//! Byte-level string helpers: equality, and the order `str` compares by.

use vstd::prelude::*;

verus! {

broadcast use vstd::utf8::encode_utf8_decode_utf8;

/// The UTF-8 bytes of a character sequence (what `str::as_bytes` yields).
pub open spec fn utf8_bytes(s: Seq<char>) -> Seq<u8> {
    vstd::utf8::encode_utf8(s)
}

/// Two strings have the same characters exactly when they have the same bytes.
pub proof fn lemma_bytes_eq_iff_chars_eq(a: Seq<char>, b: Seq<char>)
    ensures
        (utf8_bytes(a) == utf8_bytes(b)) <==> (a == b),
{
    if utf8_bytes(a) == utf8_bytes(b) {
        assert(vstd::utf8::decode_utf8(utf8_bytes(a)) == a);
        assert(vstd::utf8::decode_utf8(utf8_bytes(b)) == b);
    }
}

/// Byte-wise string equality: `true` exactly when both strings hold the same
/// characters.
pub fn str_eq(a: &str, b: &str) -> (r: bool)
    ensures
        r == (a@ == b@),
{
    let x = a.as_bytes();
    let y = b.as_bytes();
    proof {
        lemma_bytes_eq_iff_chars_eq(a@, b@);
    }
    if x.len() != y.len() {
        return false;
    }
    let mut i: usize = 0;
    while i < x.len()
        invariant
            x@.len() == y@.len(),
            (x@ == y@) == (a@ == b@),
            0 <= i <= x@.len(),
            forall|j: int| 0 <= j < i ==> x@[j] == y@[j],
        decreases x@.len() - i,
    {
        if x[i] != y[i] {
            return false;
        }
        i = i + 1;
    }
    assert(x@ =~= y@);
    true
}

/// `Some(t)` with `t` spelled exactly like `lit`.
pub open spec fn opt_is(s: Option<&str>, lit: Seq<char>) -> bool {
    match s {
        Some(t) => t@ == lit,
        None => false,
    }
}

/// Executable form of [`opt_is`].
pub fn opt_eq(s: Option<&str>, lit: &str) -> (r: bool)
    ensures
        r == opt_is(s, lit@),
{
    match s {
        Some(t) => str_eq(t, lit),
        None => false,
    }
}


/// Lexicographic order on byte strings, as `str`'s `Ord` compares: the first
/// differing byte decides, and a proper prefix sorts first.
pub open spec fn bytes_lt(a: Seq<u8>, b: Seq<u8>) -> bool
    decreases a.len(),
{
    if a.len() == 0 {
        b.len() > 0
    } else if b.len() == 0 {
        false
    } else if a[0] < b[0] {
        true
    } else if a[0] > b[0] {
        false
    } else {
        bytes_lt(a.drop_first(), b.drop_first())
    }
}

/// The order of two strings by their UTF-8 bytes.
pub open spec fn str_lt_spec(a: Seq<char>, b: Seq<char>) -> bool {
    bytes_lt(utf8_bytes(a), utf8_bytes(b))
}

/// No byte string sorts before itself.
pub proof fn lemma_bytes_lt_irreflexive(a: Seq<u8>)
    ensures
        !bytes_lt(a, a),
    decreases a.len(),
{
    if a.len() > 0 {
        lemma_bytes_lt_irreflexive(a.drop_first());
    }
}

/// The byte order is transitive.
pub proof fn lemma_bytes_lt_transitive(a: Seq<u8>, b: Seq<u8>, c: Seq<u8>)
    requires
        bytes_lt(a, b),
        bytes_lt(b, c),
    ensures
        bytes_lt(a, c),
    decreases a.len(),
{
    if a.len() > 0 && b.len() > 0 && c.len() > 0 && a[0] == b[0] && b[0] == c[0] {
        lemma_bytes_lt_transitive(a.drop_first(), b.drop_first(), c.drop_first());
    }
}

/// Of two different byte strings, one sorts before the other.
pub proof fn lemma_bytes_lt_total(a: Seq<u8>, b: Seq<u8>)
    requires
        a != b,
    ensures
        bytes_lt(a, b) || bytes_lt(b, a),
    decreases a.len(),
{
    if a.len() > 0 && b.len() > 0 && a[0] == b[0] {
        if a.drop_first() == b.drop_first() {
            assert(a =~= seq![a[0]] + a.drop_first());
            assert(b =~= seq![b[0]] + b.drop_first());
        }
        lemma_bytes_lt_total(a.drop_first(), b.drop_first());
    } else if a.len() == 0 && b.len() == 0 {
        assert(a =~= b);
    }
}

/// The string order is a strict total order: irreflexive, transitive, and
/// total on different strings.
pub proof fn lemma_str_lt_strict_total(a: Seq<char>, b: Seq<char>, c: Seq<char>)
    ensures
        !str_lt_spec(a, a),
        str_lt_spec(a, b) && str_lt_spec(b, c) ==> str_lt_spec(a, c),
        a != b ==> str_lt_spec(a, b) || str_lt_spec(b, a),
{
    lemma_bytes_lt_irreflexive(utf8_bytes(a));
    if str_lt_spec(a, b) && str_lt_spec(b, c) {
        lemma_bytes_lt_transitive(utf8_bytes(a), utf8_bytes(b), utf8_bytes(c));
    }
    if a != b {
        lemma_bytes_eq_iff_chars_eq(a, b);
        lemma_bytes_lt_total(utf8_bytes(a), utf8_bytes(b));
    }
}

/// Byte-wise string comparison: `true` exactly when `a` sorts strictly before
/// `b` in `str` order.
pub fn str_lt(a: &str, b: &str) -> (r: bool)
    ensures
        r == str_lt_spec(a@, b@),
{
    let x = a.as_bytes();
    let y = b.as_bytes();
    let mut i: usize = 0;
    assert(x@.skip(0) =~= x@);
    assert(y@.skip(0) =~= y@);
    while i < x.len() && i < y.len()
        invariant
            x@ == utf8_bytes(a@),
            y@ == utf8_bytes(b@),
            0 <= i <= x@.len(),
            i <= y@.len(),
            bytes_lt(x@, y@) == bytes_lt(x@.skip(i as int), y@.skip(i as int)),
        decreases x@.len() - i,
    {
        if x[i] < y[i] {
            return true;
        }
        if x[i] > y[i] {
            return false;
        }
        assert(x@.skip(i as int).drop_first() =~= x@.skip(i + 1));
        assert(y@.skip(i as int).drop_first() =~= y@.skip(i + 1));
        i = i + 1;
    }
    i < y.len()
}

} // verus!
