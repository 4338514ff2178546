use vstd::prelude::*;
use core::cmp::Ordering;

verus! {

/// `a` and `b` agree before position `i`, and there `a` ends while `b` goes
/// on, or `a` holds the smaller character.
pub open spec fn first_difference(a: Seq<char>, b: Seq<char>, i: int) -> bool {
    &&& 0 <= i <= a.len()
    &&& i <= b.len()
    &&& forall|k: int| 0 <= k < i ==> a[k] == b[k]
    &&& (i == a.len() && i < b.len()) || (i < a.len() && i < b.len() && (a[i] as u32) < (b[i] as u32))
}

/// `a` sorts strictly before `b`, character by character (the order of `str`).
pub open spec fn key_before(a: Seq<char>, b: Seq<char>) -> bool {
    exists|i: int| #[trigger] first_difference(a, b, i)
}

pub proof fn lemma_key_before_irreflexive(a: Seq<char>)
    ensures
        !key_before(a, a),
{
}

pub proof fn lemma_key_before_transitive(a: Seq<char>, b: Seq<char>, c: Seq<char>)
    requires
        key_before(a, b),
        key_before(b, c),
    ensures
        key_before(a, c),
{
    let i = choose|i: int| #[trigger] first_difference(a, b, i);
    let j = choose|j: int| #[trigger] first_difference(b, c, j);
    if i <= j {
        if i == j && i == a.len() {
            assert(i < b.len());
        }
        assert(first_difference(a, c, i));
    } else {
        assert(a[j] == b[j]);
        assert(first_difference(a, c, j));
    }
}

/// Compares two keys in the order `key_before`.
pub fn compare_keys(a: &str, b: &str) -> (r: Ordering)
    ensures
        r == Ordering::Less <==> key_before(a@, b@),
        r == Ordering::Equal <==> a@ == b@,
        r == Ordering::Greater <==> key_before(b@, a@),
{
    let la = a.unicode_len();
    let lb = b.unicode_len();
    let mut i: usize = 0;
    while i < la && i < lb
        invariant
            la == a@.len(),
            lb == b@.len(),
            i <= la,
            i <= lb,
            forall|k: int| 0 <= k < i ==> a@[k] == b@[k],
        decreases la - i,
    {
        let ca = a.get_char(i);
        let cb = b.get_char(i);
        if ca != cb {
            proof {
                lemma_key_before_irreflexive(a@);
            }
            if (ca as u32) < (cb as u32) {
                assert(first_difference(a@, b@, i as int));
                proof {
                    lemma_asymmetric(a@, b@);
                }
                return Ordering::Less;
            } else {
                assert((cb as u32) != (ca as u32));
                assert(first_difference(b@, a@, i as int));
                proof {
                    lemma_asymmetric(b@, a@);
                }
                return Ordering::Greater;
            }
        }
        i = i + 1;
    }
    if la == lb {
        assert(a@ =~= b@);
        proof {
            lemma_key_before_irreflexive(a@);
        }
        Ordering::Equal
    } else if la < lb {
        assert(first_difference(a@, b@, i as int));
        proof {
            lemma_asymmetric(a@, b@);
        }
        Ordering::Less
    } else {
        assert(first_difference(b@, a@, i as int));
        proof {
            lemma_asymmetric(b@, a@);
        }
        Ordering::Greater
    }
}

proof fn lemma_asymmetric(a: Seq<char>, b: Seq<char>)
    requires
        key_before(a, b),
    ensures
        !key_before(b, a),
        a != b,
{
    if key_before(b, a) {
        lemma_key_before_transitive(a, b, a);
    }
}

} // verus!
