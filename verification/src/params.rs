//! The canonical order of request parameters and their joined forms.
use vstd::prelude::*;
use vstd::relations::{sorted_by, total_ordering};
use vstd::string::*;
use vstd::utf8::encode_utf8;
use crate::percent::percent_encoded;
use crate::text::{lemma_utf8_injective, pairs_view, text_eq};

verus! {

/// Byte strings in dictionary order, byte by byte: whether `a` stands
/// before `b` or is `b`. A proper prefix stands before what it is a
/// prefix of.
pub open spec fn bytes_le(a: Seq<u8>, b: Seq<u8>) -> bool
    decreases a.len(),
{
    if a.len() == 0 {
        true
    } else if b.len() == 0 {
        false
    } else if a[0] != b[0] {
        a[0] < b[0]
    } else {
        bytes_le(a.drop_first(), b.drop_first())
    }
}

/// Texts in the order of the bytes of their UTF-8 encodings.
pub open spec fn text_le(a: Seq<char>, b: Seq<char>) -> bool {
    bytes_le(encode_utf8(a), encode_utf8(b))
}

/// Parameters in order of name, and of value where the names agree.
pub open spec fn param_le(p: (Seq<char>, Seq<char>), q: (Seq<char>, Seq<char>)) -> bool {
    if p.0 == q.0 {
        text_le(p.1, q.1)
    } else {
        text_le(p.0, q.0)
    }
}

/// `param_le` as a relation.
pub open spec fn param_order() -> spec_fn((Seq<char>, Seq<char>), (Seq<char>, Seq<char>)) -> bool {
    |p: (Seq<char>, Seq<char>), q: (Seq<char>, Seq<char>)| param_le(p, q)
}

/// The parameters in ascending order.
pub open spec fn canonical_order(params: Seq<(Seq<char>, Seq<char>)>) -> Seq<
    (Seq<char>, Seq<char>),
> {
    params.sort_by(param_order())
}

/// Names and values percent-encoded, each parameter in its place.
pub open spec fn encoded_params(params: Seq<(Seq<char>, Seq<char>)>) -> Seq<
    (Seq<char>, Seq<char>),
> {
    Seq::new(params.len(), |i: int| (percent_encoded(params[i].0), percent_encoded(params[i].1)))
}

/// Whether `a` and `b` agree in their first `k` bytes and `a` has the
/// smaller byte after them.
pub open spec fn smaller_at(a: Seq<u8>, b: Seq<u8>, k: int) -> bool {
    0 <= k < a.len() && k < b.len() && a.take(k) == b.take(k) && a[k] < b[k]
}

/// `a` stands before `b` or is `b` exactly where `a` is the beginning of
/// `b`, or the two differ and `a` has the smaller byte where they differ
/// first.
pub proof fn lemma_bytes_le_first_difference(a: Seq<u8>, b: Seq<u8>)
    ensures
        bytes_le(a, b) <==> (a.len() <= b.len() && a == b.take(a.len() as int)) || exists|k: int|
            smaller_at(a, b, k),
    decreases a.len(),
{
    if a.len() == 0 {
        assert(a =~= b.take(0));
    } else if b.len() == 0 {
    } else if a[0] != b[0] {
        if a[0] < b[0] {
            assert(a.take(0) =~= b.take(0));
            assert(smaller_at(a, b, 0));
        } else {
            if a.len() <= b.len() && a == b.take(a.len() as int) {
                assert(a[0] == b.take(a.len() as int)[0]);
            }
            if exists|k: int| smaller_at(a, b, k) {
                let k = choose|k: int| smaller_at(a, b, k);
                if k > 0 {
                    assert(a.take(k)[0] == b.take(k)[0]);
                }
            }
        }
    } else {
        let (x, y) = (a.drop_first(), b.drop_first());
        lemma_bytes_le_first_difference(x, y);
        if a.len() <= b.len() && a == b.take(a.len() as int) {
            assert(x =~= y.take(x.len() as int));
        }
        if x.len() <= y.len() && x == y.take(x.len() as int) {
            assert(a =~= b.take(a.len() as int)) by {
                assert forall|i: int| 0 <= i < a.len() implies a[i] == b[i] by {
                    if i > 0 {
                        assert(a[i] == x[i - 1]);
                        assert(y.take(x.len() as int)[i - 1] == b[i]);
                    }
                }
            }
        }
        if exists|k: int| smaller_at(a, b, k) {
            let k = choose|k: int| smaller_at(a, b, k);
            assert(k > 0);
            assert(x.take(k - 1) =~= y.take(k - 1)) by {
                assert forall|i: int| 0 <= i < k - 1 implies x[i] == y[i] by {
                    assert(a.take(k)[i + 1] == b.take(k)[i + 1]);
                }
            }
            assert(smaller_at(x, y, k - 1));
        }
        if exists|k: int| smaller_at(x, y, k) {
            let k = choose|k: int| smaller_at(x, y, k);
            assert(a.take(k + 1) =~= b.take(k + 1)) by {
                assert forall|i: int| 0 <= i < k + 1 implies a[i] == b[i] by {
                    if i > 0 {
                        assert(x.take(k)[i - 1] == y.take(k)[i - 1]);
                    }
                }
            }
            assert(smaller_at(a, b, k + 1));
        }
    }
}

/// Every byte string stands before or is itself, and of two byte strings
/// one stands before the other or they are the same.
pub proof fn lemma_bytes_le_total(a: Seq<u8>, b: Seq<u8>)
    ensures
        bytes_le(a, a),
        bytes_le(a, b) || bytes_le(b, a),
        bytes_le(a, b) && bytes_le(b, a) ==> a == b,
    decreases a.len(),
{
    if a.len() > 0 {
        lemma_bytes_le_total(a.drop_first(), a.drop_first());
        if b.len() > 0 {
            lemma_bytes_le_total(a.drop_first(), b.drop_first());
            if bytes_le(a, b) && bytes_le(b, a) {
                assert(a[0] == b[0]);
                assert(a.drop_first() == b.drop_first());
                assert(a =~= seq![a[0]] + a.drop_first());
                assert(b =~= seq![b[0]] + b.drop_first());
            }
        }
    } else {
        if bytes_le(b, a) {
            assert(a =~= b);
        }
    }
}

/// What stands before something that stands before a third stands before
/// the third.
pub proof fn lemma_bytes_le_transitive(a: Seq<u8>, b: Seq<u8>, c: Seq<u8>)
    requires
        bytes_le(a, b),
        bytes_le(b, c),
    ensures
        bytes_le(a, c),
    decreases a.len(),
{
    if a.len() > 0 && a[0] == b[0] && b[0] == c[0] {
        lemma_bytes_le_transitive(a.drop_first(), b.drop_first(), c.drop_first());
    }
}

/// The order of the parameters is a total order: no two different
/// parameters are each before the other, so a list has one ascending
/// arrangement only.
pub proof fn lemma_param_order_total()
    ensures
        total_ordering(param_order()),
{
    let order = param_order();
    assert forall|p: (Seq<char>, Seq<char>)| #[trigger] order(p, p) by {
        lemma_bytes_le_total(encode_utf8(p.1), encode_utf8(p.1));
    }
    assert forall|p: (Seq<char>, Seq<char>), q: (Seq<char>, Seq<char>)| #[trigger]
        order(p, q) && #[trigger] order(q, p) implies p == q by {
        lemma_bytes_le_total(encode_utf8(p.0), encode_utf8(q.0));
        lemma_bytes_le_total(encode_utf8(p.1), encode_utf8(q.1));
        if p.0 == q.0 {
            lemma_utf8_injective(p.1, q.1);
        } else {
            lemma_utf8_injective(p.0, q.0);
        }
    }
    assert forall|p: (Seq<char>, Seq<char>), q: (Seq<char>, Seq<char>)| #[trigger]
        order(p, q) || #[trigger] order(q, p) by {
        lemma_bytes_le_total(encode_utf8(p.0), encode_utf8(q.0));
        lemma_bytes_le_total(encode_utf8(p.1), encode_utf8(q.1));
    }
    assert forall|p: (Seq<char>, Seq<char>), q: (Seq<char>, Seq<char>), r: (Seq<char>, Seq<char>)|
        #[trigger] order(p, q) && #[trigger] order(q, r) implies order(p, r) by {
        lemma_param_le_transitive(p, q, r);
    }
}

proof fn lemma_param_le_transitive(
    p: (Seq<char>, Seq<char>),
    q: (Seq<char>, Seq<char>),
    r: (Seq<char>, Seq<char>),
)
    requires
        param_le(p, q),
        param_le(q, r),
    ensures
        param_le(p, r),
{
    if p.0 == q.0 {
        if q.0 == r.0 {
            lemma_bytes_le_transitive(encode_utf8(p.1), encode_utf8(q.1), encode_utf8(r.1));
        }
    } else if q.0 == r.0 {
    } else {
        lemma_bytes_le_transitive(encode_utf8(p.0), encode_utf8(q.0), encode_utf8(r.0));
        if p.0 == r.0 {
            lemma_bytes_le_total(encode_utf8(p.0), encode_utf8(q.0));
            lemma_utf8_injective(p.0, q.0);
        }
    }
}

fn bytes_before_or_same(a: &[u8], b: &[u8]) -> (le: bool)
    ensures
        le == bytes_le(a@, b@),
{
    let mut i: usize = 0;
    assert(a@.skip(0) =~= a@);
    assert(b@.skip(0) =~= b@);
    while i < a.len() && i < b.len()
        invariant
            i <= a.len(),
            i <= b.len(),
            bytes_le(a@, b@) == bytes_le(a@.skip(i as int), b@.skip(i as int)),
        decreases a.len() - i,
    {
        proof {
            assert(a@.skip(i as int).drop_first() =~= a@.skip(i + 1));
            assert(b@.skip(i as int).drop_first() =~= b@.skip(i + 1));
        }
        if a[i] != b[i] {
            return a[i] < b[i];
        }
        i += 1;
    }
    i == a.len()
}

/// Whether `p` stands before `q` in the order of the parameters, or is
/// `q`.
pub fn param_before_or_same(p: &(String, String), q: &(String, String)) -> (le: bool)
    ensures
        le == param_le((p.0@, p.1@), (q.0@, q.1@)),
{
    if text_eq(p.0.as_str(), q.0.as_str()) {
        bytes_before_or_same(p.1.as_str().as_bytes(), q.1.as_str().as_bytes())
    } else {
        bytes_before_or_same(p.0.as_str().as_bytes(), q.0.as_str().as_bytes())
    }
}

/// Sorts parameters into their canonical order.
pub fn sort_params(params: &Vec<(String, String)>) -> (sorted: Vec<(String, String)>)
    ensures
        pairs_view(sorted@) == canonical_order(pairs_view(params@)),
        sorted_by(pairs_view(sorted@), param_order()),
        pairs_view(sorted@).to_multiset() == pairs_view(params@).to_multiset(),
{
    broadcast use vstd::seq_lib::group_to_multiset_ensures;

    let ghost order = param_order();
    let ghost all = pairs_view(params@);
    proof {
        lemma_param_order_total();
    }
    let mut sorted: Vec<(String, String)> = Vec::new();
    let mut i: usize = 0;
    assert(all.take(0) =~= pairs_view(sorted@));
    while i < params.len()
        invariant
            i <= params.len(),
            order == param_order(),
            all == pairs_view(params@),
            total_ordering(order),
            sorted_by(pairs_view(sorted@), order),
            pairs_view(sorted@).to_multiset() == all.take(i as int).to_multiset(),
        decreases params.len() - i,
    {
        let item = (params[i].0.clone(), params[i].1.clone());
        let ghost item_view = (item.0@, item.1@);
        let mut at: usize = 0;
        while at < sorted.len() && param_before_or_same(&sorted[at], &item)
            invariant
                at <= sorted.len(),
                order == param_order(),
                item_view == (item.0@, item.1@),
                forall|k: int| 0 <= k < at ==> order(#[trigger] pairs_view(sorted@)[k], item_view),
            decreases sorted.len() - at,
        {
            assert(pairs_view(sorted@)[at as int] == (sorted@[at as int].0@, sorted@[at as int].1@));
            at += 1;
        }
        let ghost before = pairs_view(sorted@);
        let ghost old_sorted = sorted@;
        sorted.insert(at, item);
        proof {
            let after = pairs_view(sorted@);
            assert(after =~= before.insert(at as int, item_view));
            assert(all.take(i + 1) =~= all.take(i as int).push(item_view));
            vstd::seq_lib::to_multiset_insert(before, at as int, item_view);
            vstd::seq_lib::to_multiset_build(all.take(i as int), item_view);
            if at < before.len() {
                assert(before[at as int] == (old_sorted[at as int].0@, old_sorted[at as int].1@));
            }
            assert forall|x: int, y: int| 0 <= x < y < after.len() implies #[trigger] order(
                after[x],
                after[y],
            ) by {
                if y < at {
                    assert(after[x] == before[x] && after[y] == before[y]);
                } else if y == at {
                    assert(after[x] == before[x]);
                } else if x == at {
                    assert(after[y] == before[y - 1]);
                    assert(!order(before[at as int], item_view));
                    assert(order(item_view, before[at as int]));
                    if y - 1 > at {
                        assert(order(before[at as int], before[y - 1]));
                    }
                } else if x < at {
                    assert(after[x] == before[x] && after[y] == before[y - 1]);
                } else {
                    assert(after[x] == before[x - 1] && after[y] == before[y - 1]);
                }
            }
        }
        i += 1;
    }
    proof {
        assert(all.take(params@.len() as int) =~= all);
        all.lemma_sort_by_ensures(order);
        vstd::seq_lib::lemma_sorted_unique(pairs_view(sorted@), all.sort_by(order), order);
    }
    sorted
}

/// The canonical order is ascending and keeps every parameter, as often
/// as it occurs. Sorting what is sorted changes nothing.
pub proof fn lemma_canonical_order(params: Seq<(Seq<char>, Seq<char>)>)
    ensures
        sorted_by(canonical_order(params), param_order()),
        canonical_order(params).to_multiset() == params.to_multiset(),
        canonical_order(params).len() == params.len(),
        canonical_order(canonical_order(params)) == canonical_order(params),
{
    broadcast use vstd::seq_lib::group_to_multiset_ensures;

    let order = param_order();
    lemma_param_order_total();
    params.lemma_sort_by_ensures(order);
    let once = canonical_order(params);
    once.lemma_sort_by_ensures(order);
    vstd::seq_lib::lemma_sorted_unique(once.sort_by(order), once, order);
    assert(once.to_multiset().len() == params.to_multiset().len());
}

/// Any ascending arrangement of the parameters is the canonical order.
pub proof fn lemma_ascending_is_canonical(
    params: Seq<(Seq<char>, Seq<char>)>,
    arranged: Seq<(Seq<char>, Seq<char>)>,
)
    requires
        sorted_by(arranged, param_order()),
        arranged.to_multiset() == params.to_multiset(),
    ensures
        arranged == canonical_order(params),
{
    let order = param_order();
    lemma_param_order_total();
    params.lemma_sort_by_ensures(order);
    vstd::seq_lib::lemma_sorted_unique(arranged, params.sort_by(order), order);
}

} // verus!
