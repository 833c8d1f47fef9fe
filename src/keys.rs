//! The order in which records are kept and listed: lexicographic on the UTF-8 bytes of
//! the key, the order of a byte-keyed store.
use vstd::prelude::*;
use vstd::utf8::encode_utf8;

verus! {

broadcast use vstd::utf8::encode_utf8_decode_utf8;

/// Strict lexicographic order on byte strings; a proper prefix comes first.
pub open spec fn bytes_lt(a: Seq<u8>, b: Seq<u8>) -> bool
    decreases a.len(),
{
    if b.len() == 0 {
        false
    } else if a.len() == 0 {
        true
    } else if a[0] != b[0] {
        a[0] < b[0]
    } else {
        bytes_lt(a.drop_first(), b.drop_first())
    }
}

/// Strict order on string keys: by their UTF-8 encodings.
pub open spec fn key_lt(a: Seq<char>, b: Seq<char>) -> bool {
    bytes_lt(encode_utf8(a), encode_utf8(b))
}

/// Order on a trade's key (asked asset, offeror): by offeror, then by asked asset.
pub open spec fn trade_key_lt(x: (Seq<char>, Seq<char>), y: (Seq<char>, Seq<char>)) -> bool {
    key_lt(x.1, y.1) || (x.1 == y.1 && key_lt(x.0, y.0))
}

/// `key_lt` as a relation.
pub open spec fn key_order() -> spec_fn(Seq<char>, Seq<char>) -> bool {
    |a: Seq<char>, b: Seq<char>| key_lt(a, b)
}

/// `trade_key_lt` as a relation.
pub open spec fn trade_key_order() -> spec_fn((Seq<char>, Seq<char>), (Seq<char>, Seq<char>)) -> bool {
    |x: (Seq<char>, Seq<char>), y: (Seq<char>, Seq<char>)| trade_key_lt(x, y)
}

pub open spec fn strict_total_order<K>(lt: spec_fn(K, K) -> bool) -> bool {
    &&& forall|a: K| !#[trigger] lt(a, a)
    &&& forall|a: K, b: K, c: K| #[trigger] lt(a, b) && #[trigger] lt(b, c) ==> lt(a, c)
    &&& forall|a: K, b: K| a != b ==> #[trigger] lt(a, b) || #[trigger] lt(b, a)
}

proof fn lemma_bytes_lt_irreflexive(a: Seq<u8>)
    ensures
        !bytes_lt(a, a),
    decreases a.len(),
{
    if a.len() > 0 {
        lemma_bytes_lt_irreflexive(a.drop_first());
    }
}

proof fn lemma_bytes_lt_transitive(a: Seq<u8>, b: Seq<u8>, c: Seq<u8>)
    requires
        bytes_lt(a, b),
        bytes_lt(b, c),
    ensures
        bytes_lt(a, c),
    decreases a.len(),
{
    if a.len() > 0 && a[0] == b[0] && b[0] == c[0] {
        lemma_bytes_lt_transitive(a.drop_first(), b.drop_first(), c.drop_first());
    }
}

proof fn lemma_bytes_lt_total(a: Seq<u8>, b: Seq<u8>)
    requires
        a != b,
    ensures
        bytes_lt(a, b) || bytes_lt(b, a),
    decreases a.len(),
{
    if a.len() > 0 && b.len() > 0 && a[0] == b[0] {
        if a.drop_first() == b.drop_first() {
            assert(a =~= seq![a[0]] + a.drop_first());
            assert(b =~= seq![b[0]] + b.drop_first());
        }
        lemma_bytes_lt_total(a.drop_first(), b.drop_first());
    } else if a.len() == 0 && b.len() == 0 {
        assert(a =~= b);
    }
}

/// The key order is a strict total order.
pub proof fn lemma_key_lt_order()
    ensures
        strict_total_order(key_order()),
{
    assert forall|a: Seq<char>| !key_lt(a, a) by {
        lemma_bytes_lt_irreflexive(encode_utf8(a));
    }
    assert forall|a: Seq<char>, b: Seq<char>, c: Seq<char>|
        key_lt(a, b) && key_lt(b, c) implies key_lt(a, c) by {
        lemma_bytes_lt_transitive(encode_utf8(a), encode_utf8(b), encode_utf8(c));
    }
    assert forall|a: Seq<char>, b: Seq<char>| a != b implies key_lt(a, b) || key_lt(b, a) by {
        assert(vstd::utf8::decode_utf8(encode_utf8(a)) == a);
        assert(vstd::utf8::decode_utf8(encode_utf8(b)) == b);
        lemma_bytes_lt_total(encode_utf8(a), encode_utf8(b));
    }
}

/// The trade key order is a strict total order.
pub proof fn lemma_trade_key_lt_order()
    ensures
        strict_total_order(trade_key_order()),
{
    lemma_key_lt_order();
    let klt = key_order();
    assert forall|x: (Seq<char>, Seq<char>), y: (Seq<char>, Seq<char>)|
        x != y implies trade_key_lt(x, y) || trade_key_lt(y, x) by {
        if x.1 == y.1 {
            assert(x.0 != y.0);
            assert(klt(x.0, y.0) || klt(y.0, x.0));
        } else {
            assert(klt(x.1, y.1) || klt(y.1, x.1));
        }
    }
    assert forall|x: (Seq<char>, Seq<char>), y: (Seq<char>, Seq<char>), z: (Seq<char>, Seq<char>)|
        trade_key_lt(x, y) && trade_key_lt(y, z) implies trade_key_lt(x, z) by {
        assert(klt(x.1, y.1) && klt(y.1, z.1) ==> klt(x.1, z.1));
        assert(klt(x.0, y.0) && klt(y.0, z.0) ==> klt(x.0, z.0));
    }
    assert forall|x: (Seq<char>, Seq<char>)| !trade_key_lt(x, x) by {
        assert(!klt(x.0, x.0) && !klt(x.1, x.1));
    }
}

fn bytes_less(a: &[u8], b: &[u8]) -> (r: bool)
    ensures
        r == bytes_lt(a@, b@),
{
    let mut i: usize = 0;
    assert(a@.skip(0) =~= a@);
    assert(b@.skip(0) =~= b@);
    while i < a.len() && i < b.len()
        invariant
            i <= a@.len(),
            i <= b@.len(),
            bytes_lt(a@, b@) == bytes_lt(a@.skip(i as int), b@.skip(i as int)),
        decreases a@.len() - i,
    {
        if a[i] != b[i] {
            return a[i] < b[i];
        }
        assert(a@.skip(i as int).drop_first() =~= a@.skip(i + 1));
        assert(b@.skip(i as int).drop_first() =~= b@.skip(i + 1));
        i = i + 1;
    }
    i < b.len()
}

/// Whether key `a` comes before key `b`.
pub fn key_less(a: &String, b: &String) -> (r: bool)
    ensures
        r == key_lt(a@, b@),
{
    bytes_less(a.as_str().as_bytes(), b.as_str().as_bytes())
}

} // verus!

verus! {

/// Whether trade key (`a_asked`, `a_trader`) comes before (`b_asked`, `b_trader`).
pub fn trade_key_less(a_asked: &String, a_trader: &String, b_asked: &String, b_trader: &String) -> (r: bool)
    ensures
        r == trade_key_lt((a_asked@, a_trader@), (b_asked@, b_trader@)),
{
    if key_less(a_trader, b_trader) {
        true
    } else if *a_trader == *b_trader {
        key_less(a_asked, b_asked)
    } else {
        false
    }
}

} // verus!
