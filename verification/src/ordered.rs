//! Lists that are kept in the order of their names, each name once.

use vstd::prelude::*;

use crate::text::{chars_of, same};

verus! {

// ---------------------------------------------------------------------------------------------
// The order of names
// ---------------------------------------------------------------------------------------------

/// One text stands before another.
pub open spec fn before(a: Seq<char>, b: Seq<char>) -> bool
    decreases a.len(),
{
    if b.len() == 0 {
        false
    } else if a.len() == 0 {
        true
    } else if a[0] != b[0] {
        a[0] < b[0]
    } else {
        before(a.skip(1), b.skip(1))
    }
}

/// The order of texts is total and strict.
pub proof fn texts_are_ordered(a: Seq<char>, b: Seq<char>)
    ensures
        before(a, b) || before(b, a) || a == b,
        !(before(a, b) && before(b, a)),
        !before(a, a),
    decreases a.len(),
{
    if a.len() > 0 && b.len() > 0 {
        texts_are_ordered(a.skip(1), b.skip(1));
        if a[0] == b[0] && a.skip(1) == b.skip(1) {
            assert(a =~= b) by {
                assert forall|i: int| 0 <= i < a.len() implies a[i] == b[i] by {
                    if i > 0 {
                        assert(a.skip(1)[i - 1] == b.skip(1)[i - 1]);
                    }
                }
                assert(a.skip(1).len() == b.skip(1).len());
            }
        }
    } else if a.len() > 0 {
        texts_are_ordered(a.skip(1), b);
    } else if b.len() == 0 {
        assert(a =~= b);
    }
}

/// The order of texts is transitive.
pub proof fn text_order_is_transitive(a: Seq<char>, b: Seq<char>, c: Seq<char>)
    requires
        before(a, b),
        before(b, c),
    ensures
        before(a, c),
    decreases a.len(),
{
    if a.len() > 0 && a[0] == b[0] && b[0] == c[0] {
        text_order_is_transitive(a.skip(1), b.skip(1), c.skip(1));
    }
}

/// [`before`].
pub fn stands_before(a: &str, b: &str) -> (r: bool)
    ensures
        r == before(a@, b@),
{
    let x = chars_of(a);
    let y = chars_of(b);
    let mut i: usize = 0;
    assert(x@.skip(0) =~= x@);
    assert(y@.skip(0) =~= y@);
    while i < x.len() && i < y.len() && x[i] == y[i]
        invariant
            i <= x@.len(),
            i <= y@.len(),
            x@ == a@,
            y@ == b@,
            before(a@, b@) == before(x@.skip(i as int), y@.skip(i as int)),
        decreases x@.len() - i,
    {
        assert(x@.skip(i as int).skip(1) =~= x@.skip(i + 1));
        assert(y@.skip(i as int).skip(1) =~= y@.skip(i + 1));
        assert(x@.skip(i as int)[0] == x@[i as int]);
        assert(y@.skip(i as int)[0] == y@[i as int]);
        i += 1;
    }
    if i >= y.len() {
        false
    } else if i >= x.len() {
        true
    } else {
        assert(x@.skip(i as int)[0] == x@[i as int]);
        assert(y@.skip(i as int)[0] == y@[i as int]);
        x[i] < y[i]
    }
}

// ---------------------------------------------------------------------------------------------
// Entries by name
// ---------------------------------------------------------------------------------------------

/// What stands under a name.
pub trait Keyed: Sized {
    /// The name.
    spec fn key(self) -> Seq<char>;

    /// The name.
    fn name(&self) -> (r: &str)
        ensures
            r@ == self.key(),
    ;
}

/// The names stand in order, none twice.
pub open spec fn in_order<T: Keyed>(v: Seq<T>) -> bool {
    forall|i: int, j: int|
        0 <= i < j < v.len() ==> before(
            (#[trigger] v[i]).key(),
            (#[trigger] v[j]).key(),
        )
}

/// Where a name stands, or would.
pub open spec fn place<T: Keyed>(v: Seq<T>, id: Seq<char>) -> int
    decreases v.len(),
{
    if v.len() == 0 {
        0
    } else if before(v[0].key(), id) {
        1 + place(v.skip(1), id)
    } else {
        0
    }
}

/// The entry under a name.
pub open spec fn under<T: Keyed>(v: Seq<T>, id: Seq<char>) -> Option<T> {
    let i = place(v, id);
    if i < v.len() && v[i].key() == id {
        Some(v[i])
    } else {
        None
    }
}

/// Everything before a name's place is ordered before it, and what stands there is not.
pub proof fn place_is_first<T: Keyed>(v: Seq<T>, id: Seq<char>)
    ensures
        0 <= place(v, id) <= v.len(),
        forall|i: int|
            0 <= i < place(v, id) ==> before((#[trigger] v[i]).key(), id),
        place(v, id) < v.len() ==> !before(v[place(v, id)].key(), id),
    decreases v.len(),
{
    if v.len() > 0 && before(v[0].key(), id) {
        let t = v.skip(1);
        place_is_first(t, id);
        assert forall|i: int| 0 <= i < place(v, id) implies before(
            (#[trigger] v[i]).key(),
            id,
        ) by {
            if i > 0 {
                assert(t[i - 1] == v[i]);
            }
        }
    }
}

/// A place that parts what is ordered before a name from what is not is the name's.
pub proof fn place_unique<T: Keyed>(v: Seq<T>, id: Seq<char>, i: int)
    requires
        0 <= i <= v.len(),
        forall|k: int| 0 <= k < i ==> before((#[trigger] v[k]).key(), id),
        i < v.len() ==> !before(v[i].key(), id),
    ensures
        place(v, id) == i,
{
    place_is_first(v, id);
    let p = place(v, id);
    if p < i {
        assert(before(v[p].key(), id));
    } else if p > i {
        assert(before(v[i].key(), id));
    }
}

/// The entries with one put under its name, in the place of the one before it.
pub open spec fn offered<T: Keyed>(v: Seq<T>, e: T) -> Seq<T> {
    let i = place(v, e.key());
    if under(v, e.key()) is Some {
        v.update(i, e)
    } else {
        v.insert(i, e)
    }
}

/// In an ordered list each entry is the one under its name.
pub proof fn one_entry_under_a_name<T: Keyed>(v: Seq<T>, i: int)
    requires
        in_order(v),
        0 <= i < v.len(),
    ensures
        under(v, v[i].key()) == Some(v[i]),
{
    texts_are_ordered(v[i].key(), v[i].key());
    assert forall|k: int| 0 <= k < i implies before((#[trigger] v[k]).key(), v[i].key()) by {}
    place_unique(v, v[i].key(), i);
}

/// The entries without the one under a name.
pub open spec fn withdrawn<T: Keyed>(v: Seq<T>, id: Seq<char>) -> Seq<T> {
    if under(v, id) is Some {
        v.remove(place(v, id))
    } else {
        v
    }
}

/// Offering keeps the order, and what was offered is found under its name.
pub proof fn offered_in_order<T: Keyed>(v: Seq<T>, e: T)
    requires
        in_order(v),
    ensures
        in_order(offered(v, e)),
        under(offered(v, e), e.key()) == Some(e),
{
    let id = e.key();
    let p = place(v, id);
    place_is_first(v, id);
    let w = offered(v, e);
    if under(v, id) is Some {
        assert forall|i: int, j: int| 0 <= i < j < w.len() implies before(
            (#[trigger] w[i]).key(),
            (#[trigger] w[j]).key(),
        ) by {
            assert(before(v[i].key(), v[j].key()));
        }
    } else {
        assert forall|i: int, j: int| 0 <= i < j < w.len() implies before(
            (#[trigger] w[i]).key(),
            (#[trigger] w[j]).key(),
        ) by {
            if i < p && j < p {
                assert(before(v[i].key(), v[j].key()));
            } else if i < p && j > p {
                assert(before(v[i].key(), v[j - 1].key()));
            } else if i == p {
                let x = v[j - 1].key();
                texts_are_ordered(v[p].key(), id);
                if j - 1 > p {
                    assert(before(v[p].key(), v[j - 1].key()));
                    text_order_is_transitive(id, v[p].key(), x);
                }
            } else if i > p {
                assert(before(v[i - 1].key(), v[j - 1].key()));
            }
        }
    }
    texts_are_ordered(id, id);
    assert forall|k: int| 0 <= k < p implies before((#[trigger] w[k]).key(), id) by {
        assert(w[k] == v[k]);
    }
    assert(w[p] == e);
    place_unique(w, id, p);
}

/// Putting an entry under its name leaves every other name's entry as it was.
pub proof fn other_names_are_kept<T: Keyed>(v: Seq<T>, e: T, other: Seq<char>)
    requires
        in_order(v),
        other != e.key(),
    ensures
        under(offered(v, e), e.key()) == Some(e),
        under(offered(v, e), other) == under(v, other),
{
    let id = e.key();
    let p = place(v, id);
    let w = offered(v, e);
    offered_in_order(v, e);
    place_is_first(v, id);
    place_is_first(v, other);
    place_is_first(w, other);
    texts_are_ordered(other, id);
    let o = place(v, other);
    let q = place(w, other);
    if under(v, other) is Some {
        let k = if under(v, id) is Some || o < p {
            o
        } else {
            o + 1
        };
        assert(w[k] == v[o]);
        assert forall|j: int| 0 <= j < k implies before((#[trigger] w[j]).key(), other) by {
            assert(before(w[j].key(), w[k].key()));
        }
        texts_are_ordered(other, other);
        place_unique(w, other, k);
    } else if under(w, other) is Some {
        assert(q != p);
        let k = if under(v, id) is Some || q < p {
            q
        } else {
            q - 1
        };
        assert(v[k] == w[q]);
        assert forall|j: int| 0 <= j < k implies before((#[trigger] v[j]).key(), other) by {
            assert(before(v[j].key(), v[k].key()));
        }
        texts_are_ordered(other, other);
        place_unique(v, other, k);
    }
}

/// What is left after one is taken out stands in order.
pub proof fn removed_in_order<T: Keyed>(v: Seq<T>, i: int)
    requires
        0 <= i < v.len(),
        in_order(v),
    ensures
        in_order(v.remove(i)),
        forall|k: int| 0 <= k < v.remove(i).len() ==> v.contains(#[trigger] v.remove(i)[k]),
{
    let w = v.remove(i);
    assert forall|a: int, b: int| 0 <= a < b < w.len() implies before(
        (#[trigger] w[a]).key(),
        (#[trigger] w[b]).key(),
    ) by {
        let x = if a < i {
            a
        } else {
            a + 1
        };
        let y = if b < i {
            b
        } else {
            b + 1
        };
        assert(before(v[x].key(), v[y].key()));
    }
    assert forall|k: int| 0 <= k < w.len() implies v.contains(#[trigger] w[k]) by {
        if k < i {
            assert(v[k] == w[k]);
        } else {
            assert(v[k + 1] == w[k]);
        }
    }
}

/// Where a name stands or would, and whether it does.
pub fn find<T: Keyed>(v: &Vec<T>, id: &str) -> (r: (usize, bool))
    ensures
        r.0 == place(v@, id@),
        r.0 <= v@.len(),
        r.1 == under(v@, id@) is Some,
        r.1 ==> r.0 < v@.len() && under(v@, id@) == Some(v@[r.0 as int]),
{
    let mut i: usize = 0;
    while i < v.len() && stands_before(v[i].name(), id)
        invariant
            i <= v@.len(),
            forall|k: int| 0 <= k < i ==> before((#[trigger] v@[k]).key(), id@),
        decreases v@.len() - i,
    {
        i += 1;
    }
    proof {
        place_unique(v@, id@, i as int);
    }
    let there = i < v.len() && same(v[i].name(), id);
    (i, there)
}

/// Puts an entry under its name.
pub fn put<T: Keyed>(v: &mut Vec<T>, e: T)
    requires
        in_order(old(v)@),
    ensures
        final(v)@ == offered(old(v)@, e),
        in_order(final(v)@),
{
    let (i, there) = find(v, e.name());
    proof {
        place_is_first(v@, e.key());
        offered_in_order(v@, e);
    }
    if there {
        v[i] = e;
    } else {
        v.insert(i, e);
    }
}

/// Takes out the entry under a name; says whether there was one.
pub fn take_out<T: Keyed>(v: &mut Vec<T>, id: &str) -> (r: bool)
    requires
        in_order(old(v)@),
    ensures
        final(v)@ == withdrawn(old(v)@, id@),
        in_order(final(v)@),
        r == under(old(v)@, id@) is Some,
{
    let (i, there) = find(v, id);
    if there {
        proof {
            removed_in_order(v@, i as int);
        }
        let _ = v.remove(i);
    }
    there
}

/// What is withdrawn is gone, and every other entry stays, in its order; nothing goes where there is
/// none under the name.
pub proof fn only_the_named_entry_is_withdrawn<T: Keyed>(v: Seq<T>, i: int, id: Seq<char>)
    requires
        in_order(v),
        0 <= i < v.len(),
    ensures
        withdrawn(v, v[i].key()) == v.take(i) + v.skip(i + 1),
        (forall|k: int| 0 <= k < v.len() ==> (#[trigger] v[k]).key() != id) ==> withdrawn(v, id) == v,
{
    texts_are_ordered(v[i].key(), v[i].key());
    assert forall|k: int| 0 <= k < i implies before((#[trigger] v[k]).key(), v[i].key()) by {}
    place_unique(v, v[i].key(), i);
    assert(v.remove(i) =~= v.take(i) + v.skip(i + 1));
    place_is_first(v, id);
}

} // verus!
