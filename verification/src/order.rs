//! The order in which feature names are arranged: byte-wise lexicographic
//! order of their UTF-8 encodings.

use vstd::prelude::*;
use vstd::utf8::*;

verus! {

/// Strict lexicographic order on byte sequences: a proper prefix comes first,
/// otherwise the first differing byte decides.
pub open spec fn bytes_precede(a: Seq<u8>, b: Seq<u8>) -> bool
    decreases a.len(),
{
    if b.len() == 0 {
        false
    } else if a.len() == 0 {
        true
    } else if a[0] == b[0] {
        bytes_precede(a.drop_first(), b.drop_first())
    } else {
        a[0] < b[0]
    }
}

/// Strict order on strings, by the bytes of their UTF-8 encodings.
pub open spec fn precedes(a: Seq<char>, b: Seq<char>) -> bool {
    bytes_precede(encode_utf8(a), encode_utf8(b))
}

/// Tells whether `a` sorts strictly before `b`.
pub fn str_precedes(a: &str, b: &str) -> (res: bool)
    ensures
        res == precedes(a@, b@),
{
    let x = a.as_bytes();
    let y = b.as_bytes();
    let mut i: usize = 0;
    proof {
        assert(x@.skip(0) =~= x@);
        assert(y@.skip(0) =~= y@);
    }
    while i < x.len() && i < y.len() && x[i] == y[i]
        invariant
            i <= x@.len(),
            i <= y@.len(),
            bytes_precede(x@, y@) == bytes_precede(x@.skip(i as int), y@.skip(i as int)),
        decreases x@.len() - i,
    {
        proof {
            assert(x@.skip(i as int).drop_first() =~= x@.skip(i + 1));
            assert(y@.skip(i as int).drop_first() =~= y@.skip(i + 1));
        }
        i += 1;
    }
    if i == y.len() {
        false
    } else if i == x.len() {
        true
    } else {
        x[i] < y[i]
    }
}

/// No byte sequence precedes itself.
pub proof fn lemma_bytes_irreflexive(a: Seq<u8>)
    ensures
        !bytes_precede(a, a),
    decreases a.len(),
{
    if a.len() > 0 {
        lemma_bytes_irreflexive(a.drop_first());
    }
}

/// The byte order is transitive.
pub proof fn lemma_bytes_transitive(a: Seq<u8>, b: Seq<u8>, c: Seq<u8>)
    requires
        bytes_precede(a, b),
        bytes_precede(b, c),
    ensures
        bytes_precede(a, c),
    decreases a.len(),
{
    if a.len() > 0 && a[0] == b[0] && b[0] == c[0] {
        lemma_bytes_transitive(a.drop_first(), b.drop_first(), c.drop_first());
    }
}

/// Of two different byte sequences one precedes the other.
pub proof fn lemma_bytes_connected(a: Seq<u8>, b: Seq<u8>)
    requires
        a != b,
    ensures
        bytes_precede(a, b) || bytes_precede(b, a),
    decreases a.len(),
{
    if a.len() > 0 && b.len() > 0 && a[0] == b[0] {
        if a.drop_first() == b.drop_first() {
            assert(a =~= seq![a[0]] + a.drop_first());
            assert(b =~= seq![b[0]] + b.drop_first());
        }
        lemma_bytes_connected(a.drop_first(), b.drop_first());
    } else if a.len() == 0 && b.len() == 0 {
        assert(a =~= b);
    }
}

/// No string precedes itself.
pub proof fn lemma_precedes_irreflexive(a: Seq<char>)
    ensures
        !precedes(a, a),
{
    lemma_bytes_irreflexive(encode_utf8(a));
}

/// The string order is transitive.
pub proof fn lemma_precedes_transitive(a: Seq<char>, b: Seq<char>, c: Seq<char>)
    requires
        precedes(a, b),
        precedes(b, c),
    ensures
        precedes(a, c),
{
    lemma_bytes_transitive(encode_utf8(a), encode_utf8(b), encode_utf8(c));
}

/// Two strings never precede each other.
pub proof fn lemma_precedes_asymmetric(a: Seq<char>, b: Seq<char>)
    requires
        precedes(a, b),
    ensures
        !precedes(b, a),
{
    if precedes(b, a) {
        lemma_precedes_transitive(a, b, a);
        lemma_precedes_irreflexive(a);
    }
}

/// Of two different strings one precedes the other: different strings have
/// different encodings.
pub proof fn lemma_precedes_connected(a: Seq<char>, b: Seq<char>)
    requires
        a != b,
    ensures
        precedes(a, b) || precedes(b, a),
{
    encode_utf8_decode_utf8(a);
    encode_utf8_decode_utf8(b);
    lemma_bytes_connected(encode_utf8(a), encode_utf8(b));
}

} // verus!
