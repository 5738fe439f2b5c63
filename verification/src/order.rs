//! The order of command names: that of their UTF-8 bytes, read from the
//! left, a name coming before every longer name that starts with it.

use vstd::prelude::*;
use vstd::utf8::{encode_utf8, encode_utf8_decode_utf8, decode_utf8};

verus! {

/// Whether `a` and `b` agree on their first `k` bytes.
pub open spec fn agree_up_to(a: Seq<u8>, b: Seq<u8>, k: int) -> bool {
    &&& 0 <= k <= a.len()
    &&& k <= b.len()
    &&& forall|i: int| 0 <= i < k ==> a[i] == b[i]
}

/// Whether `a` and `b` agree on their first `k` bytes and `a` comes first
/// by what follows: `a` ends there and `b` goes on, or the next byte of `a`
/// is the smaller one.
pub open spec fn decided_at(a: Seq<u8>, b: Seq<u8>, k: int) -> bool {
    &&& agree_up_to(a, b, k)
    &&& k < b.len()
    &&& k < a.len() ==> a[k] < b[k]
}

/// Whether the byte string `a` comes before `b`.
pub open spec fn bytes_before(a: Seq<u8>, b: Seq<u8>) -> bool {
    exists|k: int| decided_at(a, b, k)
}

/// Whether the name `a` comes before the name `b`.
pub open spec fn name_before(a: Seq<char>, b: Seq<char>) -> bool {
    bytes_before(encode_utf8(a), encode_utf8(b))
}

/// No byte string comes before itself.
pub proof fn lemma_bytes_before_irreflexive(a: Seq<u8>)
    ensures
        !bytes_before(a, a),
{
    assert forall|k: int| !decided_at(a, a, k) by {}
}

/// Byte strings that are decided at `j` agree no further than `j`.
proof fn lemma_decided_once(a: Seq<u8>, b: Seq<u8>, j: int, k: int)
    requires
        decided_at(a, b, j),
        agree_up_to(a, b, k),
    ensures
        k <= j,
{
    if j < k {
        assert(a[j] == b[j]);
    }
}

/// If `a` comes before `b`, then `b` does not come before `a`.
pub proof fn lemma_bytes_before_asymmetric(a: Seq<u8>, b: Seq<u8>)
    requires
        bytes_before(a, b),
    ensures
        !bytes_before(b, a),
{
    let j = choose|j: int| decided_at(a, b, j);
    assert forall|k: int| !decided_at(b, a, k) by {
        if decided_at(b, a, k) {
            lemma_decided_once(a, b, j, k);
            lemma_decided_once(b, a, k, j);
        }
    }
}

/// If `a` comes before `b` and `b` before `c`, then `a` comes before `c`.
pub proof fn lemma_bytes_before_transitive(a: Seq<u8>, b: Seq<u8>, c: Seq<u8>)
    requires
        bytes_before(a, b),
        bytes_before(b, c),
    ensures
        bytes_before(a, c),
{
    let j = choose|j: int| decided_at(a, b, j);
    let k = choose|k: int| decided_at(b, c, k);
    let m = if j <= k { j } else { k };
    assert(decided_at(a, c, m));
}

/// Of two different byte strings one comes before the other.
pub proof fn lemma_bytes_before_total(a: Seq<u8>, b: Seq<u8>)
    ensures
        a == b || bytes_before(a, b) || bytes_before(b, a),
    decreases a.len(),
{
    if !(a =~= b) {
        let k = first_difference(a, b, 0);
        lemma_first_difference(a, b, 0);
        if k == a.len() || (k < b.len() && a[k] < b[k]) {
            assert(decided_at(a, b, k));
        } else {
            assert(decided_at(b, a, k));
        }
    }
}

/// The first place from `from` on at which `a` and `b` do not both go on
/// with the same byte.
spec fn first_difference(a: Seq<u8>, b: Seq<u8>, from: int) -> int
    decreases a.len() - from,
{
    if 0 <= from < a.len() && from < b.len() && a[from] == b[from] {
        first_difference(a, b, from + 1)
    } else {
        from
    }
}

proof fn lemma_first_difference(a: Seq<u8>, b: Seq<u8>, from: int)
    requires
        agree_up_to(a, b, from),
    ensures
        agree_up_to(a, b, first_difference(a, b, from)),
        ({
            let k = first_difference(a, b, from);
            k == a.len() || k == b.len() || a[k] != b[k]
        }),
        a != b ==> !(first_difference(a, b, from) == a.len() && first_difference(a, b, from)
            == b.len()),
    decreases a.len() - from,
{
    if from < a.len() && from < b.len() && a[from] == b[from] {
        lemma_first_difference(a, b, from + 1);
    } else {
        if from == a.len() && from == b.len() {
            assert(a =~= b);
        }
    }
}

/// Two names with the same bytes are the same name.
pub proof fn lemma_same_bytes_same_name(a: Seq<char>, b: Seq<char>)
    requires
        encode_utf8(a) == encode_utf8(b),
    ensures
        a == b,
{
    encode_utf8_decode_utf8(a);
    encode_utf8_decode_utf8(b);
}

/// No name comes before itself.
pub proof fn lemma_name_before_irreflexive(a: Seq<char>)
    ensures
        !name_before(a, a),
{
    lemma_bytes_before_irreflexive(encode_utf8(a));
}

/// If `a` comes before `b`, then `b` does not come before `a`.
pub proof fn lemma_name_before_asymmetric(a: Seq<char>, b: Seq<char>)
    requires
        name_before(a, b),
    ensures
        !name_before(b, a),
        a != b,
{
    lemma_bytes_before_asymmetric(encode_utf8(a), encode_utf8(b));
    lemma_bytes_before_irreflexive(encode_utf8(a));
}

/// If `a` comes before `b` and `b` before `c`, then `a` comes before `c`.
pub proof fn lemma_name_before_transitive(a: Seq<char>, b: Seq<char>, c: Seq<char>)
    requires
        name_before(a, b),
        name_before(b, c),
    ensures
        name_before(a, c),
{
    lemma_bytes_before_transitive(encode_utf8(a), encode_utf8(b), encode_utf8(c));
}

/// Of two different names one comes before the other.
pub proof fn lemma_name_before_total(a: Seq<char>, b: Seq<char>)
    ensures
        a == b || name_before(a, b) || name_before(b, a),
{
    lemma_bytes_before_total(encode_utf8(a), encode_utf8(b));
    if encode_utf8(a) == encode_utf8(b) {
        lemma_same_bytes_same_name(a, b);
    }
}

/// How one name stands to another in the order of names.
#[derive(Clone, Copy, Debug, PartialEq, Eq, Structural)]
pub enum NameOrder {
    /// The first name comes before the second.
    Before,
    /// The two names are the same.
    Same,
    /// The first name comes after the second.
    After,
}

/// How `a` stands to `b` in the order of names.
pub open spec fn name_order(a: Seq<char>, b: Seq<char>) -> NameOrder {
    if a == b {
        NameOrder::Same
    } else if name_before(a, b) {
        NameOrder::Before
    } else {
        NameOrder::After
    }
}

/// A name that is neither the same as another nor before it comes after it.
pub proof fn lemma_name_order_after(a: Seq<char>, b: Seq<char>)
    ensures
        name_order(a, b) == NameOrder::After <==> name_before(b, a),
{
    lemma_name_before_total(a, b);
    lemma_name_before_irreflexive(a);
    if name_before(b, a) {
        lemma_name_before_asymmetric(b, a);
    }
}

/// Compares two names byte by byte.
pub fn compare_names(a: &str, b: &str) -> (r: NameOrder)
    ensures
        r == name_order(a@, b@),
{
    let x = a.as_bytes();
    let y = b.as_bytes();
    let ghost xs = encode_utf8(a@);
    let ghost ys = encode_utf8(b@);
    let mut i: usize = 0;
    while i < x.len() && i < y.len()
        invariant
            x@ == xs,
            y@ == ys,
            xs == encode_utf8(a@),
            ys == encode_utf8(b@),
            agree_up_to(xs, ys, i as int),
        decreases x.len() - i,
    {
        if x[i] < y[i] {
            assert(decided_at(xs, ys, i as int));
            proof {
                lemma_name_before_asymmetric(a@, b@);
            }
            return NameOrder::Before;
        }
        if x[i] > y[i] {
            assert(decided_at(ys, xs, i as int));
            proof {
                lemma_name_before_asymmetric(b@, a@);
            }
            return NameOrder::After;
        }
        i += 1;
    }
    if x.len() < y.len() {
        assert(decided_at(xs, ys, i as int));
        proof {
            lemma_name_before_asymmetric(a@, b@);
        }
        NameOrder::Before
    } else if y.len() < x.len() {
        assert(decided_at(ys, xs, i as int));
        proof {
            lemma_name_before_asymmetric(b@, a@);
        }
        NameOrder::After
    } else {
        assert(xs =~= ys);
        proof {
            lemma_same_bytes_same_name(a@, b@);
        }
        NameOrder::Same
    }
}

} // verus!
