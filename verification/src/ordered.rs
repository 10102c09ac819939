//! Ordered mappings from a name to an entity, held as a vector of entities
//! that carry their own name. The order is the order of insertion; inserting
//! an entity whose name is already present replaces the earlier one and moves
//! the name to the end.
use vstd::prelude::*;

verus! {

/// A mathematical value that is known by a name.
pub trait Keyed {
    /// The name under which the value is held.
    spec fn key(&self) -> Seq<char>;
}

/// An entity that is known by a name.
pub trait Named: View + Sized where Self::V: Keyed {
    /// The name under which the entity is held.
    fn name(&self) -> (r: &String)
        ensures
            r@ == self@.key(),
    ;
}

/// The views of a sequence of entities.
pub open spec fn views<T: View>(s: Seq<T>) -> Seq<T::V> {
    s.map_values(|x: T| x@)
}

/// The first position in `s` of a value named `key`.
pub open spec fn index_of<V: Keyed>(s: Seq<V>, key: Seq<char>) -> Option<int>
    decreases s.len(),
{
    if s.len() == 0 {
        None
    } else {
        match index_of(s.drop_last(), key) {
            Some(i) => Some(i),
            None => if s.last().key() == key {
                Some(s.len() - 1)
            } else {
                None
            },
        }
    }
}

/// The value named `key` in `s`, if there is one.
pub open spec fn lookup<V: Keyed>(s: Seq<V>, key: Seq<char>) -> Option<V> {
    match index_of(s, key) {
        Some(i) => Some(s[i]),
        None => None,
    }
}

/// `s` after the insertion of `x`: an earlier value of the same name leaves,
/// and `x` stands at the end.
pub open spec fn upserted<V: Keyed>(s: Seq<V>, x: V) -> Seq<V> {
    match index_of(s, x.key()) {
        Some(i) => s.remove(i).push(x),
        None => s.push(x),
    }
}

/// No two values of `s` have the same name.
pub open spec fn unique_names<V: Keyed>(s: Seq<V>) -> bool {
    forall|i: int, j: int| 0 <= i < j < s.len() ==> (#[trigger] s[i]).key() != (#[trigger] s[j]).key()
}

/// What `index_of` finds is the first value of that name.
pub proof fn lemma_index_of<V: Keyed>(s: Seq<V>, key: Seq<char>)
    ensures
        match index_of(s, key) {
            Some(i) => 0 <= i < s.len() && s[i].key() == key && forall|j: int|
                0 <= j < i ==> (#[trigger] s[j]).key() != key,
            None => forall|j: int| 0 <= j < s.len() ==> (#[trigger] s[j]).key() != key,
        },
    decreases s.len(),
{
    if s.len() > 0 {
        lemma_index_of(s.drop_last(), key);
        assert forall|j: int| 0 <= j < s.len() - 1 implies s.drop_last()[j] == s[j] by {}
        match index_of(s.drop_last(), key) {
            Some(i) => {
                assert(s.drop_last()[i] == s[i]);
                assert forall|j: int| 0 <= j < i implies (#[trigger] s[j]).key() != key by {
                    assert(s.drop_last()[j] == s[j]);
                }
            },
            None => {
                assert forall|j: int| 0 <= j < s.len() - 1 implies (#[trigger] s[j]).key()
                    != key by {
                    assert(s.drop_last()[j] == s[j]);
                }
            },
        }
    }
}

/// Insertion keeps the names distinct, and the inserted value can be found
/// again under its name.
pub proof fn lemma_upserted<V: Keyed>(s: Seq<V>, x: V)
    requires
        unique_names(s),
    ensures
        unique_names(upserted(s, x)),
        lookup(upserted(s, x), x.key()) == Some(x),
        upserted(s, x).len() > 0,
        upserted(s, x).last() == x,
{
    let r = upserted(s, x);
    lemma_index_of(s, x.key());
    match index_of(s, x.key()) {
        Some(i) => {
            let t = s.remove(i);
            assert forall|a: int| 0 <= a < t.len() implies (#[trigger] t[a]).key() != x.key() by {
                if a < i {
                    assert(t[a] == s[a]);
                } else {
                    assert(t[a] == s[a + 1]);
                    assert(s[i].key() != s[a + 1].key());
                }
            }
            assert forall|a: int, b: int| 0 <= a < b < r.len() implies (#[trigger] r[a]).key() != (
            #[trigger] r[b]).key() by {
                let a0 = if a < i { a } else { a + 1 };
                assert(r[a] == s[a0]);
                if b < t.len() {
                    let b0 = if b < i { b } else { b + 1 };
                    assert(r[b] == s[b0]);
                    assert(s[a0].key() != s[b0].key());
                } else {
                    assert(r[b] == x);
                    assert(t[a] == r[a]);
                }
            }
        },
        None => {
            assert forall|a: int, b: int| 0 <= a < b < r.len() implies (#[trigger] r[a]).key() != (
            #[trigger] r[b]).key() by {
                assert(r[a] == s[a]);
                if b < s.len() {
                    assert(r[b] == s[b]);
                } else {
                    assert(r[b] == x);
                }
            }
        },
    }
    lemma_index_of(r, x.key());
    match index_of(r, x.key()) {
        Some(k) => {
            if k < r.len() - 1 {
                assert(r[k].key() != r[r.len() - 1].key());
            }
        },
        None => {
            assert(r[r.len() - 1].key() == x.key());
        },
    }
}

/// The position in `v` of the first entity named `key`.
pub fn find<T: Named>(v: &Vec<T>, key: &String) -> (r: Option<usize>) where T::V: Keyed
    ensures
        match r {
            Some(i) => index_of(views(v@), key@) == Some(i as int) && i < v.len(),
            None => index_of(views(v@), key@) is None,
        },
{
    let mut i: usize = 0;
    while i < v.len()
        invariant
            i <= v.len(),
            index_of(views(v@).take(i as int), key@) is None,
        decreases v.len() - i,
    {
        proof {
            let s = views(v@);
            assert(s.take(i + 1).drop_last() =~= s.take(i as int));
            assert(s.take(i + 1).last() == v@[i as int]@);
        }
        if *v[i].name() == *key {
            proof {
                let s = views(v@);
                lemma_index_of(s.take(i + 1), key@);
                lemma_index_of(s, key@);
                assert(s.take(i + 1)[i as int] == s[i as int]);
                match index_of(s, key@) {
                    Some(k) => {
                        if k < i {
                            assert(s.take(i + 1)[k] == s[k]);
                        }
                    },
                    None => {},
                }
            }
            return Some(i);
        }
        i += 1;
    }
    proof {
        assert(views(v@).take(v@.len() as int) =~= views(v@));
    }
    None
}

/// Inserts `x` into `v`: an earlier entity of the same name leaves, and `x`
/// stands at the end.
pub fn upsert<T: Named>(v: &mut Vec<T>, x: T) where T::V: Keyed
    ensures
        views(final(v)@) == upserted(views(old(v)@), x@),
{
    let ghost before = v@;
    match find(v, x.name()) {
        Some(i) => {
            let _ = v.remove(i);
            v.push(x);
            proof {
                assert(views(v@) =~= views(before).remove(i as int).push(x@));
            }
        },
        None => {
            v.push(x);
            proof {
                assert(views(v@) =~= views(before).push(x@));
            }
        },
    }
}

} // verus!
