use vstd::prelude::*;

use crate::store::{has_key, key_index, keys_unique, lemma_key_index, upsert, value_at};

verus! {

/// Upserting under a key keeps the keys unique, stores exactly the new
/// record under that key, and leaves every other key's record untouched.
/// The length grows by one exactly when the key was absent.
pub proof fn lemma_upsert<T>(s: Seq<(Seq<char>, T)>, key: Seq<char>, v: T)
    requires
        keys_unique(s),
    ensures
        keys_unique(upsert(s, key, v)),
        has_key(upsert(s, key, v), key),
        value_at(upsert(s, key, v), key) == v,
        upsert(s, key, v).len() == if has_key(s, key) {
            s.len()
        } else {
            s.len() + 1
        },
        forall|k: Seq<char>|
            k != key ==> #[trigger] has_key(upsert(s, key, v), k) == has_key(s, k),
        forall|k: Seq<char>|
            k != key && has_key(s, k) ==> #[trigger] value_at(upsert(s, key, v), k) == value_at(
                s,
                k,
            ),
{
    let up = upsert(s, key, v);
    if has_key(s, key) {
        let i = key_index(s, key);
        assert(0 <= i < s.len() && s[i].0 == key);
        assert(up == s.update(i, (key, v)));
        assert(forall|j: int| 0 <= j < up.len() && j != i ==> up[j] == s[j]);
        assert(forall|j: int| 0 <= j < up.len() ==> up[j].0 == s[j].0);
        assert(keys_unique(up));
        lemma_key_index(up, key, i);
        assert forall|k: Seq<char>| k != key implies #[trigger] has_key(up, k) == has_key(
            s,
            k,
        ) by {
            if has_key(s, k) {
                let j = key_index(s, k);
                assert(up[j].0 == k);
            }
            if has_key(up, k) {
                let j = key_index(up, k);
                assert(s[j].0 == k);
            }
        }
        assert forall|k: Seq<char>| k != key && has_key(s, k) implies #[trigger] value_at(up, k)
            == value_at(s, k) by {
            let j = key_index(s, k);
            assert(s[j].0 == k);
            assert(j != i);
            lemma_key_index(up, k, j);
        }
    } else {
        assert(up == s.push((key, v)));
        assert(forall|j: int| 0 <= j < s.len() ==> up[j] == s[j]);
        assert(up[s.len() as int] == (key, v));
        assert(forall|j: int| 0 <= j < s.len() ==> s[j].0 != key);
        assert(keys_unique(up));
        lemma_key_index(up, key, s.len() as int);
        assert forall|k: Seq<char>| k != key implies #[trigger] has_key(up, k) == has_key(
            s,
            k,
        ) by {
            if has_key(s, k) {
                let j = key_index(s, k);
                assert(up[j].0 == k);
            }
            if has_key(up, k) {
                let j = key_index(up, k);
                assert(0 <= j < s.len());
                assert(s[j].0 == k);
            }
        }
        assert forall|k: Seq<char>| k != key && has_key(s, k) implies #[trigger] value_at(up, k)
            == value_at(s, k) by {
            let j = key_index(s, k);
            assert(s[j].0 == k);
            lemma_key_index(up, k, j);
        }
    }
}

/// Upserting a record under a key already present replaces the stored
/// record entirely: afterwards the key holds exactly the new record, the
/// collection is no larger, and no other key changed.
pub proof fn lemma_upsert_replaces<T>(s: Seq<(Seq<char>, T)>, key: Seq<char>, v: T)
    requires
        keys_unique(s),
        has_key(s, key),
    ensures
        keys_unique(upsert(s, key, v)),
        upsert(s, key, v).len() == s.len(),
        has_key(upsert(s, key, v), key),
        value_at(upsert(s, key, v), key) == v,
        forall|k: Seq<char>|
            k != key && has_key(s, k) ==> #[trigger] value_at(upsert(s, key, v), k) == value_at(
                s,
                k,
            ),
{
    lemma_upsert(s, key, v);
}

/// Creating a record under a fresh key grows the collection by exactly one
/// and stores the new record under that key.
pub proof fn lemma_upsert_fresh<T>(s: Seq<(Seq<char>, T)>, key: Seq<char>, v: T)
    requires
        keys_unique(s),
        !has_key(s, key),
    ensures
        keys_unique(upsert(s, key, v)),
        upsert(s, key, v).len() == s.len() + 1,
        has_key(upsert(s, key, v), key),
        value_at(upsert(s, key, v), key) == v,
{
    lemma_upsert(s, key, v);
}

/// No lost update: two creations under different keys, applied one after
/// the other in either order by the store's single writer per collection,
/// leave both records present.
pub proof fn lemma_no_lost_update<T>(
    s: Seq<(Seq<char>, T)>,
    k1: Seq<char>,
    v1: T,
    k2: Seq<char>,
    v2: T,
)
    requires
        keys_unique(s),
        k1 != k2,
    ensures
        ({
            let s2 = upsert(upsert(s, k1, v1), k2, v2);
            has_key(s2, k1) && value_at(s2, k1) == v1 && has_key(s2, k2) && value_at(s2, k2) == v2
        }),
{
    let s1 = upsert(s, k1, v1);
    lemma_upsert(s, k1, v1);
    lemma_upsert(s1, k2, v2);
}

} // verus!
