//! Merge sort over strings, ordered lexicographically by code point.

use vstd::multiset::Multiset;
use vstd::prelude::*;

verus! {

broadcast use vstd::seq_lib::group_seq_lib_default, vstd::multiset::group_multiset_axioms;

/// Lexicographic "at or before" on character sequences, by code point:
/// the empty sequence comes first, and otherwise the first differing
/// character decides.
pub open spec fn lex_le(a: Seq<char>, b: Seq<char>) -> bool
    decreases a.len(),
{
    if a.len() == 0 {
        true
    } else if b.len() == 0 {
        false
    } else if (a[0] as u32) == (b[0] as u32) {
        lex_le(a.drop_first(), b.drop_first())
    } else {
        (a[0] as u32) < (b[0] as u32)
    }
}

/// The views of a sequence of strings, element by element.
pub open spec fn seq_views(s: Seq<String>) -> Seq<Seq<char>> {
    Seq::new(s.len(), |i: int| s[i]@)
}

/// Every element is at or before every later one.
pub open spec fn sorted(s: Seq<Seq<char>>) -> bool {
    forall|i: int, j: int| 0 <= i < j < s.len() ==> lex_le(s[i], s[j])
}

/// The order is total: of any two character sequences, one is at or
/// before the other.
pub proof fn lemma_lex_le_total(a: Seq<char>, b: Seq<char>)
    ensures
        lex_le(a, b) || lex_le(b, a),
    decreases a.len(),
{
    if a.len() != 0 && b.len() != 0 && (a[0] as u32) == (b[0] as u32) {
        lemma_lex_le_total(a.drop_first(), b.drop_first());
    }
}

/// The order is transitive.
pub proof fn lemma_lex_le_trans(a: Seq<char>, b: Seq<char>, c: Seq<char>)
    requires
        lex_le(a, b),
        lex_le(b, c),
    ensures
        lex_le(a, c),
    decreases a.len(),
{
    if a.len() != 0 && b.len() != 0 && c.len() != 0 && (a[0] as u32) == (b[0] as u32) && (b[0]
        as u32) == (c[0] as u32) {
        lemma_lex_le_trans(a.drop_first(), b.drop_first(), c.drop_first());
    }
}

/// Decides whether `a` is at or before `b` in lexicographic order.
pub fn str_le(a: &str, b: &str) -> (r: bool)
    ensures
        r == lex_le(a@, b@),
{
    let alen = a.unicode_len();
    let blen = b.unicode_len();
    let mut i: usize = 0;
    proof {
        assert(a@.skip(0) =~= a@);
        assert(b@.skip(0) =~= b@);
    }
    loop
        invariant
            i <= alen,
            i <= blen,
            alen == a@.len(),
            blen == b@.len(),
            lex_le(a@, b@) == lex_le(a@.skip(i as int), b@.skip(i as int)),
        decreases alen - i,
    {
        if i >= alen {
            return true;
        }
        if i >= blen {
            return false;
        }
        let ca = a.get_char(i) as u32;
        let cb = b.get_char(i) as u32;
        if ca != cb {
            return ca < cb;
        }
        proof {
            assert(a@.skip(i as int).drop_first() =~= a@.skip(i + 1));
            assert(b@.skip(i as int).drop_first() =~= b@.skip(i + 1));
        }
        i += 1;
    }
}

/// Merges two sorted slices of strings into a sorted vector that holds
/// a copy of every element of both, by repeatedly taking the smaller
/// front element.
pub fn merge(a: &[String], b: &[String]) -> (r: Vec<String>)
    requires
        sorted(seq_views(a@)),
        sorted(seq_views(b@)),
    ensures
        sorted(seq_views(r@)),
        seq_views(r@).to_multiset() == seq_views(a@).to_multiset().add(
            seq_views(b@).to_multiset(),
        ),
{
    let ghost av = seq_views(a@);
    let ghost bv = seq_views(b@);
    let mut dest: Vec<String> = Vec::new();

    let mut a_idx: usize = 0;
    let mut b_idx: usize = 0;

    proof {
        let e = Seq::<Seq<char>>::empty();
        e.to_multiset_ensures();
        assert(seq_views(dest@) =~= e);
        assert(av.take(0) =~= e);
        assert(bv.take(0) =~= e);
        assert(e.to_multiset() =~= e.to_multiset().add(e.to_multiset()));
    }
    while a_idx < a.len() && b_idx < b.len()
        invariant
            a_idx <= a@.len(),
            b_idx <= b@.len(),
            av == seq_views(a@),
            bv == seq_views(b@),
            sorted(av),
            sorted(bv),
            sorted(seq_views(dest@)),
            seq_views(dest@).to_multiset() == av.take(a_idx as int).to_multiset().add(
                bv.take(b_idx as int).to_multiset(),
            ),
            dest@.len() > 0 && a_idx < a@.len() ==> lex_le(
                seq_views(dest@).last(),
                av[a_idx as int],
            ),
            dest@.len() > 0 && b_idx < b@.len() ==> lex_le(
                seq_views(dest@).last(),
                bv[b_idx as int],
            ),
        decreases a@.len() + b@.len() - a_idx - b_idx,
    {
        let ghost dv = seq_views(dest@);
        let ghost ai0 = a_idx as int;
        let ghost bi0 = b_idx as int;
        if str_le(a[a_idx].as_str(), b[b_idx].as_str()) {
            let ghost x = av[ai0];
            proof {
                lemma_push_keeps_sorted(dv, x);
                lemma_step_multiset(dv, av.take(ai0), bv.take(bi0).to_multiset(), x);
                assert(av.take(ai0).push(x) =~= av.take(ai0 + 1));
            }
            dest.push(a[a_idx].clone());
            a_idx += 1;
            proof {
                assert(seq_views(dest@) =~= dv.push(x));
            }
        } else {
            let ghost x = bv[bi0];
            proof {
                lemma_lex_le_total(av[ai0], bv[bi0]);
                lemma_push_keeps_sorted(dv, x);
                assert(dv.to_multiset() =~= bv.take(bi0).to_multiset().add(
                    av.take(ai0).to_multiset(),
                ));
                lemma_step_multiset(dv, bv.take(bi0), av.take(ai0).to_multiset(), x);
                assert(bv.take(bi0).push(x) =~= bv.take(bi0 + 1));
            }
            dest.push(b[b_idx].clone());
            b_idx += 1;
            proof {
                assert(seq_views(dest@) =~= dv.push(x));
                assert(seq_views(dest@).to_multiset() =~= av.take(ai0).to_multiset().add(
                    bv.take(bi0 + 1).to_multiset(),
                ));
            }
        }
    }

    while a_idx < a.len()
        invariant
            a_idx <= a@.len(),
            b_idx <= b@.len(),
            a_idx < a@.len() ==> b_idx == b@.len(),
            av == seq_views(a@),
            bv == seq_views(b@),
            sorted(av),
            sorted(seq_views(dest@)),
            seq_views(dest@).to_multiset() == av.take(a_idx as int).to_multiset().add(
                bv.take(b_idx as int).to_multiset(),
            ),
            dest@.len() > 0 && a_idx < a@.len() ==> lex_le(
                seq_views(dest@).last(),
                av[a_idx as int],
            ),
            dest@.len() > 0 && b_idx < b@.len() ==> lex_le(
                seq_views(dest@).last(),
                bv[b_idx as int],
            ),
        decreases a@.len() - a_idx,
    {
        let ghost dv = seq_views(dest@);
        let ghost ai0 = a_idx as int;
        let ghost x = av[ai0];
        proof {
            lemma_push_keeps_sorted(dv, x);
            lemma_step_multiset(dv, av.take(ai0), bv.take(b_idx as int).to_multiset(), x);
            assert(av.take(ai0).push(x) =~= av.take(ai0 + 1));
        }
        dest.push(a[a_idx].clone());
        a_idx += 1;
        proof {
            assert(seq_views(dest@) =~= dv.push(x));
        }
    }

    while b_idx < b.len()
        invariant
            a_idx == a@.len(),
            b_idx <= b@.len(),
            av == seq_views(a@),
            bv == seq_views(b@),
            sorted(bv),
            sorted(seq_views(dest@)),
            seq_views(dest@).to_multiset() == av.take(a_idx as int).to_multiset().add(
                bv.take(b_idx as int).to_multiset(),
            ),
            dest@.len() > 0 && b_idx < b@.len() ==> lex_le(
                seq_views(dest@).last(),
                bv[b_idx as int],
            ),
        decreases b@.len() - b_idx,
    {
        let ghost dv = seq_views(dest@);
        let ghost ai0 = a_idx as int;
        let ghost bi0 = b_idx as int;
        let ghost x = bv[bi0];
        proof {
            lemma_push_keeps_sorted(dv, x);
            assert(dv.to_multiset() =~= bv.take(bi0).to_multiset().add(
                av.take(ai0).to_multiset(),
            ));
            lemma_step_multiset(dv, bv.take(bi0), av.take(ai0).to_multiset(), x);
            assert(bv.take(bi0).push(x) =~= bv.take(bi0 + 1));
        }
        dest.push(b[b_idx].clone());
        b_idx += 1;
        proof {
            assert(seq_views(dest@) =~= dv.push(x));
            assert(seq_views(dest@).to_multiset() =~= av.take(ai0).to_multiset().add(
                bv.take(bi0 + 1).to_multiset(),
            ));
        }
    }

    proof {
        assert(av.take(a_idx as int) =~= av);
        assert(bv.take(b_idx as int) =~= bv);
    }
    dest
}

/// Pushing one more element onto a sequence adds it to the sequence's
/// multiset.
proof fn lemma_step_multiset(
    dv: Seq<Seq<char>>,
    pre: Seq<Seq<char>>,
    other: Multiset<Seq<char>>,
    x: Seq<char>,
)
    requires
        dv.to_multiset() == pre.to_multiset().add(other),
    ensures
        dv.push(x).to_multiset() == pre.push(x).to_multiset().add(other),
{
    vstd::seq_lib::to_multiset_build(dv, x);
    vstd::seq_lib::to_multiset_build(pre, x);
    assert(dv.push(x).to_multiset() =~= pre.push(x).to_multiset().add(other));
}

/// A sorted sequence followed by an element no earlier than its last
/// element is still sorted.
proof fn lemma_push_keeps_sorted(s: Seq<Seq<char>>, x: Seq<char>)
    requires
        sorted(s),
        s.len() > 0 ==> lex_le(s.last(), x),
    ensures
        sorted(s.push(x)),
{
    let t = s.push(x);
    assert forall|i: int, j: int| 0 <= i < j < t.len() implies lex_le(t[i], t[j]) by {
        if j < s.len() {
        } else {
            if i < s.len() - 1 {
                lemma_lex_le_trans(s[i], s.last(), x);
            }
        }
    }
}

/// Sorts a slice of strings into a fresh vector holding a copy of each
/// element, by splitting in half, sorting each half and merging.
pub fn merge_sort(data: &[String]) -> (r: Vec<String>)
    ensures
        sorted(seq_views(r@)),
        seq_views(r@).to_multiset() == seq_views(data@).to_multiset(),
    decreases data@.len(),
{
    let dat_len = data.len();

    if dat_len > 1 {
        let mid = dat_len / 2;
        let left = merge_sort(&data[0..mid]);
        let right = merge_sort(&data[mid..dat_len]);
        proof {
            assert(seq_views(data@.subrange(0, mid as int)) =~= seq_views(data@).take(mid as int));
            assert(seq_views(data@.subrange(mid as int, dat_len as int)) =~= seq_views(
                data@,
            ).skip(mid as int));
        }
        let r = merge(left.as_slice(), right.as_slice());
        proof {
            vstd::seq_lib::lemma_multiset_commutative(
                seq_views(data@).take(mid as int),
                seq_views(data@).skip(mid as int),
            );
            assert(seq_views(data@).take(mid as int) + seq_views(data@).skip(mid as int)
                =~= seq_views(data@));
        }
        r
    } else {
        let mut dest: Vec<String> = Vec::new();
        if dat_len == 1 {
            dest.push(data[0].clone());
        }
        proof {
            assert(seq_views(dest@) =~= seq_views(data@));
        }
        dest
    }
}

} // verus!
