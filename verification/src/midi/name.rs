//! The order and the prefixes of port names.
//!
//! A port name is text. Names are compared the way text is compared in Rust:
//! by the bytes of their UTF-8 encoding, from left to right.

use vstd::prelude::*;
use vstd::string::StrSliceExecFns;
use vstd::utf8::{char_u32_cast, encode_utf8, encode_utf8_decode_utf8, encode_utf8_first_scalar};

verus! {

/// The bytes that a name is compared by.
pub open spec fn name_bytes(name: Seq<char>) -> Seq<u8> {
    encode_utf8(name)
}

/// `a` comes strictly before `b` in the lexicographic order of byte strings.
pub open spec fn bytes_before(a: Seq<u8>, b: Seq<u8>) -> bool
    decreases a.len(),
{
    if b.len() == 0 {
        false
    } else if a.len() == 0 {
        true
    } else if a[0] != b[0] {
        a[0] < b[0]
    } else {
        bytes_before(a.drop_first(), b.drop_first())
    }
}

/// The name `a` sorts strictly before the name `b`.
pub open spec fn name_before(a: Seq<char>, b: Seq<char>) -> bool {
    bytes_before(name_bytes(a), name_bytes(b))
}

/// The name begins with the given prefix.
pub open spec fn name_starts_with(name: Seq<char>, prefix: Seq<char>) -> bool {
    prefix.is_prefix_of(name)
}

/// The name without the given prefix, where it begins with it; else the name.
pub open spec fn name_without_prefix(name: Seq<char>, prefix: Seq<char>) -> Seq<char> {
    if name_starts_with(name, prefix) {
        name.skip(prefix.len() as int)
    } else {
        name
    }
}

/// How one name stands to another in the order of names.
#[derive(Clone, Copy, Debug, PartialEq, Eq, Structural)]
pub enum Rank {
    Before,
    Same,
    After,
}

/// Different names have different bytes.
pub proof fn lemma_name_bytes_injective(a: Seq<char>, b: Seq<char>)
    requires
        name_bytes(a) == name_bytes(b),
    ensures
        a == b,
{
    encode_utf8_decode_utf8(a);
    encode_utf8_decode_utf8(b);
}

/// No byte string comes before itself, and of two byte strings at most one
/// comes before the other.
pub proof fn lemma_bytes_before_asymmetric(a: Seq<u8>, b: Seq<u8>)
    ensures
        bytes_before(a, b) ==> !bytes_before(b, a) && a != b,
    decreases a.len(),
{
    if a.len() > 0 && b.len() > 0 && a[0] == b[0] {
        lemma_bytes_before_asymmetric(a.drop_first(), b.drop_first());
        if a == b {
            assert(a.drop_first() == b.drop_first());
        }
    }
}

/// Of two different byte strings one comes before the other.
pub proof fn lemma_bytes_before_total(a: Seq<u8>, b: Seq<u8>)
    ensures
        a == b || bytes_before(a, b) || bytes_before(b, a),
    decreases a.len(),
{
    if a.len() == 0 || b.len() == 0 {
        if a.len() == 0 && b.len() == 0 {
            assert(a =~= b);
        }
    } else if a[0] == b[0] {
        lemma_bytes_before_total(a.drop_first(), b.drop_first());
        if a.drop_first() == b.drop_first() {
            assert(a =~= seq![a[0]] + a.drop_first());
            assert(b =~= seq![b[0]] + b.drop_first());
        }
    }
}

/// The order of byte strings is transitive.
pub proof fn lemma_bytes_before_transitive(a: Seq<u8>, b: Seq<u8>, c: Seq<u8>)
    requires
        bytes_before(a, b),
        bytes_before(b, c),
    ensures
        bytes_before(a, c),
    decreases a.len(),
{
    if a.len() > 0 && b.len() > 0 && c.len() > 0 && a[0] == b[0] && b[0] == c[0] {
        lemma_bytes_before_transitive(a.drop_first(), b.drop_first(), c.drop_first());
    }
}

/// The order of names is a strict total order.
pub proof fn lemma_name_order(a: Seq<char>, b: Seq<char>, c: Seq<char>)
    ensures
        !name_before(a, a),
        name_before(a, b) ==> !name_before(b, a) && a != b,
        a == b || name_before(a, b) || name_before(b, a),
        name_before(a, b) && name_before(b, c) ==> name_before(a, c),
{
    lemma_bytes_before_asymmetric(name_bytes(a), name_bytes(a));
    lemma_bytes_before_asymmetric(name_bytes(a), name_bytes(b));
    lemma_bytes_before_total(name_bytes(a), name_bytes(b));
    if name_bytes(a) == name_bytes(b) {
        lemma_name_bytes_injective(a, b);
    }
    if name_before(a, b) && name_before(b, c) {
        lemma_bytes_before_transitive(name_bytes(a), name_bytes(b), name_bytes(c));
    }
}

/// Two byte strings that agree on their first `n` bytes are ordered as what
/// follows those bytes is ordered.
proof fn lemma_bytes_before_skip(a: Seq<u8>, b: Seq<u8>, n: int)
    requires
        0 <= n <= a.len(),
        n <= b.len(),
        forall|j: int| 0 <= j < n ==> a[j] == b[j],
    ensures
        bytes_before(a, b) == bytes_before(a.skip(n), b.skip(n)),
        (a == b) == (a.skip(n) == b.skip(n)),
    decreases n,
{
    if n == 0 {
        assert(a.skip(0) =~= a);
        assert(b.skip(0) =~= b);
    } else {
        lemma_bytes_before_skip(a.drop_first(), b.drop_first(), n - 1);
        assert(a.drop_first().skip(n - 1) =~= a.skip(n));
        assert(b.drop_first().skip(n - 1) =~= b.skip(n));
        assert(a =~= seq![a[0]] + a.drop_first());
        assert(b =~= seq![b[0]] + b.drop_first());
    }
}

/// Compares two names.
pub fn rank(a: &str, b: &str) -> (r: Rank)
    ensures
        r == Rank::Before <==> name_before(a@, b@),
        r == Rank::Same <==> a@ == b@,
        r == Rank::After <==> name_before(b@, a@),
{
    let x = a.as_bytes();
    let y = b.as_bytes();
    let mut i: usize = 0;
    proof {
        lemma_name_order(a@, b@, a@);
        lemma_name_order(b@, a@, a@);
    }
    while i < x.len() && i < y.len()
        invariant
            i <= x.len(),
            i <= y.len(),
            x@ == name_bytes(a@),
            y@ == name_bytes(b@),
            forall|j: int| 0 <= j < i ==> x@[j] == y@[j],
        decreases x.len() - i,
    {
        if x[i] != y[i] {
            proof {
                lemma_name_order(a@, b@, a@);
                lemma_name_order(b@, a@, a@);
                lemma_bytes_before_skip(x@, y@, i as int);
                lemma_bytes_before_skip(y@, x@, i as int);
                assert(x@.skip(i as int)[0] == x@[i as int]);
                assert(y@.skip(i as int)[0] == y@[i as int]);
            }
            if x[i] < y[i] {
                return Rank::Before;
            } else {
                return Rank::After;
            }
        }
        i += 1;
    }
    proof {
        lemma_bytes_before_skip(x@, y@, i as int);
        lemma_bytes_before_skip(y@, x@, i as int);
        if x.len() == y.len() {
            assert(x@.skip(i as int) =~= y@.skip(i as int));
            lemma_name_bytes_injective(a@, b@);
        }
    }
    if x.len() < y.len() {
        Rank::Before
    } else if y.len() < x.len() {
        Rank::After
    } else {
        Rank::Same
    }
}

/// The bytes of two pieces of text, one after the other, are the bytes of
/// the whole.
proof fn lemma_bytes_of_concat(a: Seq<char>, b: Seq<char>)
    ensures
        name_bytes(a + b) == name_bytes(a) + name_bytes(b),
    decreases a.len(),
{
    if a.len() == 0 {
        assert(a + b =~= b);
        assert(name_bytes(a) + name_bytes(b) =~= name_bytes(b));
    } else {
        assert((a + b).drop_first() =~= a.drop_first() + b);
        lemma_bytes_of_concat(a.drop_first(), b);
        assert(name_bytes(a + b) =~= name_bytes(a) + name_bytes(b));
    }
}

/// Text whose bytes begin with the bytes of a prefix begins with that prefix.
proof fn lemma_prefix_of_bytes(p: Seq<char>, s: Seq<char>)
    requires
        name_bytes(p).is_prefix_of(name_bytes(s)),
    ensures
        p.is_prefix_of(s),
    decreases p.len(),
{
    if p.len() > 0 {
        let ep = name_bytes(p);
        let es = name_bytes(s);
        encode_utf8_first_scalar(p);
        assert(ep.len() > 0);
        assert(s.len() > 0);
        encode_utf8_first_scalar(s);
        assert(forall|j: int| 0 <= j < ep.len() ==> ep[j] == es.subrange(0, ep.len() as int)[j]);
        assert(p[0] as u32 == s[0] as u32);
        char_u32_cast(p[0], s[0] as u32);
        char_u32_cast(s[0], s[0] as u32);
        assert(p[0] == s[0]);
        let head = vstd::utf8::encode_scalar(p[0] as u32);
        let tp = name_bytes(p.drop_first());
        let ts = name_bytes(s.drop_first());
        assert(ep == head + tp);
        assert(es == head + ts);
        assert(tp =~= ts.subrange(0, tp.len() as int)) by {
            assert forall|j: int| 0 <= j < tp.len() implies tp[j] == ts[j] by {
                assert(ep[head.len() + j] == tp[j]);
                assert(es[head.len() + j] == ts[j]);
                assert(ep[head.len() + j] == es.subrange(0, ep.len() as int)[head.len() + j]);
            }
        }
        lemma_prefix_of_bytes(p.drop_first(), s.drop_first());
        assert(p =~= s.subrange(0, p.len() as int)) by {
            assert forall|j: int| 0 <= j < p.len() implies p[j] == s[j] by {
                if j > 0 {
                    assert(p.drop_first()[j - 1] == p[j]);
                    assert(s.drop_first().subrange(0, p.len() - 1)[j - 1] == s[j]);
                }
            }
        }
    } else {
        assert(p =~= s.subrange(0, 0));
    }
}

/// Text begins with a prefix exactly when its bytes begin with the bytes of
/// the prefix.
proof fn lemma_prefix_by_bytes(p: Seq<char>, s: Seq<char>)
    ensures
        p.is_prefix_of(s) <==> name_bytes(p).is_prefix_of(name_bytes(s)),
{
    if p.is_prefix_of(s) {
        let rest = s.skip(p.len() as int);
        assert(s =~= p + rest);
        lemma_bytes_of_concat(p, rest);
        assert(name_bytes(p) =~= name_bytes(s).subrange(0, name_bytes(p).len() as int));
    }
    if name_bytes(p).is_prefix_of(name_bytes(s)) {
        lemma_prefix_of_bytes(p, s);
    }
}

/// Tells whether a name begins with a prefix.
pub fn starts_with(name: &str, prefix: &str) -> (r: bool)
    ensures
        r == name_starts_with(name@, prefix@),
{
    let x = name.as_bytes();
    let p = prefix.as_bytes();
    proof {
        lemma_prefix_by_bytes(prefix@, name@);
    }
    if p.len() > x.len() {
        return false;
    }
    let mut i: usize = 0;
    while i < p.len()
        invariant
            i <= p.len(),
            p.len() <= x.len(),
            x@ == name_bytes(name@),
            p@ == name_bytes(prefix@),
            prefix@.is_prefix_of(name@) <==> p@.is_prefix_of(x@),
            forall|j: int| 0 <= j < i ==> x@[j] == p@[j],
        decreases p.len() - i,
    {
        if x[i] != p[i] {
            assert(x@.subrange(0, p@.len() as int)[i as int] != p@[i as int]);
            return false;
        }
        i += 1;
    }
    assert(p@ =~= x@.subrange(0, p@.len() as int));
    true
}

/// Takes a prefix off a name that begins with it.
pub fn without_prefix(name: String, prefix: &str) -> (r: String)
    ensures
        r@ == name_without_prefix(name@, prefix@),
{
    if starts_with(name.as_str(), prefix) {
        let from = prefix.unicode_len();
        let to = name.as_str().unicode_len();
        name.as_str().substring_char(from, to).to_owned()
    } else {
        name
    }
}

} // verus!
