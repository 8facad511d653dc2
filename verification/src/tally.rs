//! Tables that count how often each name occurs, in order of first occurrence.

use vstd::prelude::*;
use crate::text::str_eq;

verus! {

broadcast use {
    vstd::std_specs::vec::group_vec_axioms,
    vstd::seq_lib::group_to_multiset_ensures,
    vstd::multiset::group_multiset_axioms,
};

/// Keys of a table of counts.
pub open spec fn count_keys(c: Seq<(String, u64)>) -> Seq<Seq<char>> {
    c.map_values(|p: (String, u64)| p.0@)
}

/// A table that counts, once per distinct name, how many entries of `names` are that name.
pub open spec fn counts_match(c: Seq<(String, u64)>, names: Seq<Seq<char>>) -> bool {
    &&& count_keys(c).no_duplicates()
    &&& forall|j: int|
        0 <= j < c.len() ==> c[j].1 == names.to_multiset().count(#[trigger] count_keys(c)[j])
            && c[j].1 > 0
    &&& forall|x: Seq<char>| names.contains(x) ==> #[trigger] count_keys(c).contains(x)
}

/// Counts one more occurrence of `name` in a table of counts.
pub(crate) fn count_name(counts: &mut Vec<(String, u64)>, name: &str, Ghost(names): Ghost<Seq<Seq<char>>>)
    requires
        counts_match(old(counts)@, names),
        names.len() < u64::MAX,
    ensures
        counts_match(final(counts)@, names.push(name@)),
{
    let ghost ms = names.push(name@);
    let ghost old_keys = count_keys(counts@);
    proof {
        vstd::seq_lib::to_multiset_build(names, name@);
        assert(ms.to_multiset() == names.to_multiset().insert(name@));
    }
    let mut i: usize = 0;
    while i < counts.len()
        invariant
            i <= counts@.len(),
            old_keys == count_keys(counts@),
            old_keys.len() == counts@.len(),
            forall|j: int| 0 <= j < i ==> old_keys[j] != name@,
            counts_match(counts@, names),
            names.len() < u64::MAX,
            ms == names.push(name@),
            ms.to_multiset() == names.to_multiset().insert(name@),
        decreases counts@.len() - i,
    {
        if str_eq(counts[i].0.as_str(), name) {
            let key = counts[i].0.clone();
            let c = counts[i].1;
            proof {
                assert(old_keys[i as int] == name@);
                assert(c == names.to_multiset().count(name@));
                assert(names.to_multiset().count(name@) <= names.to_multiset().len());
            }
            counts.set(i, (key, c + 1));
            proof {
                let nk = count_keys(counts@);
                assert(nk =~= old_keys);
                assert forall|j: int| 0 <= j < counts@.len() implies counts@[j].1
                    == ms.to_multiset().count(#[trigger] nk[j]) && counts@[j].1 > 0 by {
                    if j != i {
                        assert(nk[j] != name@);
                    }
                }
                assert forall|x: Seq<char>| ms.contains(x) implies #[trigger] nk.contains(x) by {
                    if x != name@ {
                        assert(names.to_multiset().count(x) > 0);
                        assert(names.contains(x));
                    } else {
                        assert(nk[i as int] == x);
                    }
                }
            }
            return;
        }
        i = i + 1;
    }
    proof {
        assert(!old_keys.contains(name@));
        assert(!names.contains(name@));
        assert(names.to_multiset().count(name@) == 0);
        assert(forall|x: Seq<char>| names.contains(x) ==> #[trigger] old_keys.contains(x));
    }
    counts.push((name.to_string(), 1));
    proof {
        let nk = count_keys(counts@);
        assert(nk =~= old_keys.push(name@));
        assert forall|j: int| 0 <= j < counts@.len() implies counts@[j].1
            == ms.to_multiset().count(#[trigger] nk[j]) && counts@[j].1 > 0 by {
            if j < old_keys.len() {
                assert(nk[j] != name@);
            }
        }
        assert forall|x: Seq<char>| ms.contains(x) implies #[trigger] nk.contains(x) by {
            if x != name@ {
                assert(names.to_multiset().count(x) > 0);
                assert(names.contains(x));
                assert(old_keys.contains(x));
                let j = choose|j: int| 0 <= j < old_keys.len() && old_keys[j] == x;
                assert(nk[j] == x);
            } else {
                assert(nk[old_keys.len() as int] == x);
            }
        }
    }
}

} // verus!
