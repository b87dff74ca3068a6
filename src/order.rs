//! The order in which buckets are listed: by name, comparing the UTF-8
//! bytes of the names.
use vstd::prelude::*;
use vstd::utf8::{encode_utf8, encode_utf8_decode_utf8};

verus! {

/// `x` comes before `y`: where they first differ `x` has the smaller byte,
/// or `x` is a proper prefix of `y`.
pub open spec fn bytes_before(x: Seq<u8>, y: Seq<u8>) -> bool
    decreases x.len(),
{
    if x.len() == 0 {
        y.len() > 0
    } else if y.len() == 0 {
        false
    } else if x[0] != y[0] {
        x[0] < y[0]
    } else {
        bytes_before(x.drop_first(), y.drop_first())
    }
}

/// The name `a` comes before the name `b`.
pub open spec fn name_before(a: Seq<char>, b: Seq<char>) -> bool {
    bytes_before(encode_utf8(a), encode_utf8(b))
}

proof fn lemma_bytes_before_irreflexive(x: Seq<u8>)
    ensures
        !bytes_before(x, x),
    decreases x.len(),
{
    if x.len() > 0 {
        lemma_bytes_before_irreflexive(x.drop_first());
    }
}

proof fn lemma_bytes_before_total(x: Seq<u8>, y: Seq<u8>)
    requires
        x != y,
    ensures
        bytes_before(x, y) || bytes_before(y, x),
    decreases x.len(),
{
    if x.len() == 0 && y.len() == 0 {
        assert(x =~= y);
    } else if x.len() > 0 && y.len() > 0 && x[0] == y[0] {
        if x.drop_first() == y.drop_first() {
            assert(x.drop_first().len() == x.len() - 1);
            assert(y.drop_first().len() == y.len() - 1);
            assert forall|i: int| 0 <= i < x.len() implies x[i] == y[i] by {
                if i > 0 {
                    assert(x[i] == x.drop_first()[i - 1]);
                    assert(y[i] == y.drop_first()[i - 1]);
                }
            }
            assert(x =~= y);
        }
        lemma_bytes_before_total(x.drop_first(), y.drop_first());
    }
}

proof fn lemma_bytes_before_transitive(x: Seq<u8>, y: Seq<u8>, z: Seq<u8>)
    requires
        bytes_before(x, y),
        bytes_before(y, z),
    ensures
        bytes_before(x, z),
    decreases x.len(),
{
    if x.len() > 0 && y.len() > 0 && z.len() > 0 && x[0] == y[0] && y[0] == z[0] {
        lemma_bytes_before_transitive(x.drop_first(), y.drop_first(), z.drop_first());
    }
}

/// No name comes before itself.
pub proof fn lemma_name_irreflexive(a: Seq<char>)
    ensures
        !name_before(a, a),
{
    lemma_bytes_before_irreflexive(encode_utf8(a));
}

/// Of two different names, one comes before the other.
pub proof fn lemma_name_total(a: Seq<char>, b: Seq<char>)
    requires
        a != b,
    ensures
        name_before(a, b) || name_before(b, a),
{
    encode_utf8_decode_utf8(a);
    encode_utf8_decode_utf8(b);
    lemma_bytes_before_total(encode_utf8(a), encode_utf8(b));
}

/// The order on names is transitive.
pub proof fn lemma_name_transitive(a: Seq<char>, b: Seq<char>, c: Seq<char>)
    requires
        name_before(a, b),
        name_before(b, c),
    ensures
        name_before(a, c),
{
    lemma_bytes_before_transitive(encode_utf8(a), encode_utf8(b), encode_utf8(c));
}

/// Whether the name `a` comes before the name `b`.
pub fn str_before(a: &str, b: &str) -> (r: bool)
    ensures
        r == name_before(a@, b@),
{
    let x = a.as_bytes();
    let y = b.as_bytes();
    let mut i: usize = 0;
    assert(x@.skip(0) =~= x@);
    assert(y@.skip(0) =~= y@);
    while i < x.len() && i < y.len()
        invariant
            i <= x@.len(),
            i <= y@.len(),
            x@ == encode_utf8(a@),
            y@ == encode_utf8(b@),
            bytes_before(x@, y@) == bytes_before(x@.skip(i as int), y@.skip(i as int)),
        decreases x@.len() - i,
    {
        if x[i] != y[i] {
            return x[i] < y[i];
        }
        proof {
            assert(x@.skip(i as int).drop_first() =~= x@.skip(i + 1));
            assert(y@.skip(i as int).drop_first() =~= y@.skip(i + 1));
        }
        i = i + 1;
    }
    i < y.len()
}

} // verus!
