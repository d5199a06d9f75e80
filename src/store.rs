//! The property store of a component: for each key, the ordered list of
//! its occurrences; keys in the order in which they were first entered.

use vstd::prelude::*;
use crate::properties::{
    insert_keyed, key_index, keys_unique, lemma_insert_keeps_keys_unique, lemma_key_index_absent,
    lemma_key_index_bounds, lemma_key_index_found, lemma_key_index_unique, serialized, Property,
    PropertyView,
};
use crate::strings::str_eq;

verus! {

/// What a store holds: for each key, in the order in which keys were first
/// entered, the occurrences in the order in which they were entered.
pub type StoreView = Seq<(Seq<char>, Seq<PropertyView>)>;

/// The occurrences of `k`, in the order in which they were entered.
pub open spec fn occurrences(gs: StoreView, k: Seq<char>) -> Seq<PropertyView> {
    let i = key_index(gs, k);
    if i >= 0 {
        gs[i].1
    } else {
        Seq::empty()
    }
}

/// The first occurrence of `k`, if any.
pub open spec fn first_occurrence(gs: StoreView, k: Seq<char>) -> Option<PropertyView> {
    let o = occurrences(gs, k);
    if o.len() > 0 {
        Some(o[0])
    } else {
        None
    }
}

/// `p` as the one occurrence of its key.
pub open spec fn store_set(gs: StoreView, p: PropertyView) -> StoreView {
    insert_keyed(gs, (p.key, seq![p]))
}

/// `p` added after the occurrences of its key.
pub open spec fn store_append(gs: StoreView, p: PropertyView) -> StoreView {
    let i = key_index(gs, p.key);
    if i >= 0 {
        gs.update(i, (p.key, gs[i].1.push(p)))
    } else {
        gs.push((p.key, seq![p]))
    }
}

/// `ps` added one after another.
pub open spec fn store_append_all(gs: StoreView, ps: Seq<PropertyView>) -> StoreView
    decreases ps.len(),
{
    if ps.len() == 0 {
        gs
    } else {
        store_append_all(store_append(gs, ps[0]), ps.skip(1))
    }
}

/// Every occurrence of `k` taken out.
pub open spec fn store_remove(gs: StoreView, k: Seq<char>) -> StoreView {
    let i = key_index(gs, k);
    if i >= 0 {
        gs.remove(i)
    } else {
        gs
    }
}

/// Properties as written out, one after another.
pub open spec fn properties_text(ps: Seq<PropertyView>) -> Seq<char>
    decreases ps.len(),
{
    if ps.len() == 0 {
        Seq::empty()
    } else {
        properties_text(ps.drop_last()) + serialized(ps.last())
    }
}

/// A store as written out: keys in the order first entered, the
/// occurrences of each in the order entered.
pub open spec fn store_text(gs: StoreView) -> Seq<char>
    decreases gs.len(),
{
    if gs.len() == 0 {
        Seq::empty()
    } else {
        store_text(gs.drop_last()) + properties_text(gs.last().1)
    }
}

proof fn lemma_append_occurrences(gs: StoreView, p: PropertyView)
    requires
        keys_unique(gs),
    ensures
        keys_unique(store_append(gs, p)),
        occurrences(store_append(gs, p), p.key) == occurrences(gs, p.key).push(p),
{
    lemma_key_index_bounds(gs, p.key);
    let i = key_index(gs, p.key);
    let ns = store_append(gs, p);
    if i >= 0 {
        assert(keys_unique(ns));
        lemma_key_index_unique(ns, p.key, i);
    } else {
        assert(keys_unique(ns));
        lemma_key_index_unique(ns, p.key, gs.len() as int);
        assert(occurrences(gs, p.key) =~= Seq::<PropertyView>::empty());
        assert(seq![p] =~= Seq::<PropertyView>::empty().push(p));
    }
}

proof fn lemma_append_all_occurrences(gs: StoreView, k: Seq<char>, ps: Seq<PropertyView>)
    requires
        keys_unique(gs),
        forall|i: int| 0 <= i < ps.len() ==> (#[trigger] ps[i]).key == k,
    ensures
        keys_unique(store_append_all(gs, ps)),
        occurrences(store_append_all(gs, ps), k) == occurrences(gs, k) + ps,
    decreases ps.len(),
{
    if ps.len() == 0 {
        assert(occurrences(gs, k) + ps =~= occurrences(gs, k));
    } else {
        assert(ps[0].key == k);
        lemma_append_occurrences(gs, ps[0]);
        let next = store_append(gs, ps[0]);
        assert forall|i: int| 0 <= i < ps.skip(1).len() implies (#[trigger] ps.skip(1)[i]).key == k by {
            assert(ps.skip(1)[i] == ps[i + 1]);
        }
        lemma_append_all_occurrences(next, k, ps.skip(1));
        assert(occurrences(gs, k).push(ps[0]) + ps.skip(1) =~= occurrences(gs, k) + ps);
    }
}

/// Every operation of the store keeps each key in one place.
pub proof fn lemma_store_keys_unique(gs: StoreView, p: PropertyView, k: Seq<char>)
    requires
        keys_unique(gs),
    ensures
        keys_unique(store_set(gs, p)),
        keys_unique(store_append(gs, p)),
        keys_unique(store_remove(gs, k)),
{
    lemma_insert_keeps_keys_unique(gs, (p.key, seq![p]));
    lemma_append_occurrences(gs, p);
    lemma_key_index_bounds(gs, k);
    let i = key_index(gs, k);
    if i >= 0 {
        let r = gs.remove(i);
        assert forall|a: int, b: int| 0 <= a < r.len() && 0 <= b < r.len() && a != b implies r[a].0 != r[b].0 by {
            let a1 = if a < i { a } else { a + 1 };
            let b1 = if b < i { b } else { b + 1 };
            assert(r[a] == gs[a1]);
            assert(r[b] == gs[b1]);
        }
    }
}

/// Multiplicity: adding N properties under one key to a store without that
/// key and reading all its occurrences gives exactly those N, in the order
/// added; after removing the key none is left; and setting one property
/// after them leaves exactly that one.
pub proof fn lemma_multiplicity(gs: StoreView, k: Seq<char>, ps: Seq<PropertyView>, p: PropertyView)
    requires
        keys_unique(gs),
        occurrences(gs, k).len() == 0,
        forall|i: int| 0 <= i < ps.len() ==> (#[trigger] ps[i]).key == k,
        p.key == k,
    ensures
        occurrences(store_append_all(gs, ps), k) == ps,
        occurrences(store_remove(store_append_all(gs, ps), k), k).len() == 0,
        occurrences(store_set(store_append_all(gs, ps), p), k) == seq![p],
{
    lemma_append_all_occurrences(gs, k, ps);
    assert(occurrences(gs, k) + ps =~= ps);
    let full = store_append_all(gs, ps);
    lemma_key_index_bounds(full, k);
    let i = key_index(full, k);
    if i >= 0 {
        let r = full.remove(i);
        assert forall|j: int| 0 <= j < r.len() implies r[j].0 != k by {
            let j1 = if j < i { j } else { j + 1 };
            assert(r[j] == full[j1]);
        }
        lemma_key_index_absent(r, k);
    }
    lemma_insert_keeps_keys_unique(full, (k, seq![p]));
    let s = store_set(full, p);
    if i >= 0 {
        lemma_key_index_unique(s, k, i);
    } else {
        lemma_key_index_unique(s, k, full.len() as int);
    }
}

/// The occurrences of one key.
#[derive(Debug)]
struct PropertyGroup {
    key: String,
    props: Vec<Property>,
}

impl View for PropertyGroup {
    type V = (Seq<char>, Seq<PropertyView>);

    closed spec fn view(&self) -> (Seq<char>, Seq<PropertyView>) {
        (self.key@, self.props@.map_values(|p: Property| p@))
    }
}

/// The properties of a component, grouped by key.
#[derive(Debug)]
pub struct PropertyStore {
    groups: Vec<PropertyGroup>,
}

impl View for PropertyStore {
    type V = StoreView;

    closed spec fn view(&self) -> StoreView {
        self.groups@.map_values(|g: PropertyGroup| g@)
    }
}

proof fn lemma_store_keys_unique_remove(gs: StoreView, k: Seq<char>)
    requires
        keys_unique(gs),
    ensures
        keys_unique(store_remove(gs, k)),
{
    lemma_key_index_bounds(gs, k);
    let i = key_index(gs, k);
    if i >= 0 {
        let r = gs.remove(i);
        assert forall|a: int, b: int| 0 <= a < r.len() && 0 <= b < r.len() && a != b implies r[a].0 != r[b].0 by {
            let a1 = if a < i { a } else { a + 1 };
            let b1 = if b < i { b } else { b + 1 };
            assert(r[a] == gs[a1]);
            assert(r[b] == gs[b1]);
        }
    }
}

/// Removing a key leaves no occurrence of it and every other key as it
/// was.
pub proof fn lemma_remove_occurrences(gs: StoreView, k: Seq<char>, other: Seq<char>)
    requires
        keys_unique(gs),
    ensures
        occurrences(store_remove(gs, k), k).len() == 0,
        other != k ==> occurrences(store_remove(gs, k), other) == occurrences(gs, other),
{
    lemma_key_index_bounds(gs, k);
    lemma_key_index_bounds(gs, other);
    let i = key_index(gs, k);
    if i >= 0 {
        let r = gs.remove(i);
        assert forall|j: int| 0 <= j < r.len() implies r[j].0 != k by {
            let j1 = if j < i { j } else { j + 1 };
            assert(r[j] == gs[j1]);
        }
        lemma_key_index_absent(r, k);
        if other != k {
            let o = key_index(gs, other);
            if o >= 0 {
                let o1 = if o < i { o } else { o - 1 };
                assert(r[o1] == gs[o]);
                lemma_store_keys_unique_remove(gs, k);
                lemma_key_index_unique(r, other, o1);
            } else {
                assert forall|j: int| 0 <= j < r.len() implies r[j].0 != other by {
                    let j1 = if j < i { j } else { j + 1 };
                    assert(r[j] == gs[j1]);
                }
                lemma_key_index_absent(r, other);
            }
        }
    }
}

impl Clone for PropertyGroup {
    fn clone(&self) -> (r: PropertyGroup)
        ensures
            r@ == self@,
    {
        let mut props: Vec<Property> = Vec::new();
        let mut i: usize = 0;
        while i < self.props.len()
            invariant
                0 <= i <= self.props@.len(),
                props@.map_values(|p: Property| p@) == self@.1.take(i as int),
            decreases self.props@.len() - i,
        {
            let ghost before = props@.map_values(|p: Property| p@);
            let c = self.props[i].clone();
            props.push(c);
            proof {
                assert(props@.map_values(|p: Property| p@) =~= before.push(c@));
                assert(self@.1.take(i + 1) =~= self@.1.take(i as int).push(self@.1[i as int]));
            }
            i = i + 1;
        }
        proof {
            assert(self@.1.take(i as int) =~= self@.1);
        }
        PropertyGroup { key: self.key.clone(), props }
    }
}

impl Clone for PropertyStore {
    fn clone(&self) -> (r: PropertyStore)
        ensures
            r@ == self@,
    {
        proof {
            use_type_invariant(self);
        }
        let mut groups: Vec<PropertyGroup> = Vec::new();
        let mut i: usize = 0;
        while i < self.groups.len()
            invariant
                0 <= i <= self.groups@.len(),
                groups@.map_values(|g: PropertyGroup| g@) == self@.take(i as int),
            decreases self.groups@.len() - i,
        {
            let ghost before = groups@.map_values(|g: PropertyGroup| g@);
            let c = self.groups[i].clone();
            groups.push(c);
            proof {
                assert(groups@.map_values(|g: PropertyGroup| g@) =~= before.push(c@));
                assert(self@.take(i + 1) =~= self@.take(i as int).push(self@[i as int]));
            }
            i = i + 1;
        }
        proof {
            assert(self@.take(i as int) =~= self@);
        }
        PropertyStore { groups }
    }
}

impl PropertyStore {
    /// Each key stands in one group only.
    #[verifier::type_invariant]
    spec fn keys_once(self) -> bool {
        keys_unique(self@)
    }

    /// An empty store.
    pub fn new() -> (r: PropertyStore)
        ensures
            r@ == StoreView::empty(),
            keys_unique(r@),
    {
        let r = PropertyStore { groups: Vec::new() };
        proof {
            assert(r@ =~= StoreView::empty());
        }
        r
    }

    fn position(&self, key: &str) -> (r: Option<usize>)
        ensures
            match r {
                Some(i) => i == key_index(self@, key@) && i < self@.len(),
                None => key_index(self@, key@) == -1,
            },
    {
        let mut i: usize = 0;
        while i < self.groups.len()
            invariant
                0 <= i <= self.groups@.len(),
                self@.len() == self.groups@.len(),
                forall|j: int| 0 <= j < i ==> self@[j].0 != key@,
            decreases self.groups@.len() - i,
        {
            if str_eq(self.groups[i].key.as_str(), key) {
                proof {
                    lemma_key_index_found(self@, key@, i as int);
                }
                return Some(i);
            }
            i = i + 1;
        }
        proof {
            lemma_key_index_absent(self@, key@);
        }
        None
    }

    /// Makes `p` the one occurrence of its key.
    pub fn set(&mut self, p: Property)
        ensures
            final(self)@ == store_set(old(self)@, p@),
            keys_unique(old(self)@),
            keys_unique(final(self)@),
    {
        let ghost pv = p@;
        let position = self.position(p.key());
        let key = p.key().to_owned();
        let mut props: Vec<Property> = Vec::new();
        props.push(p);
        let g = PropertyGroup { key, props };
        proof {
            assert(g@ =~= (pv.key, seq![pv]));
        }
        let mut groups = self.take_groups();
        match position {
            Some(i) => {
                groups.set(i, g);
            },
            None => {
                groups.push(g);
            },
        }
        proof {
            assert(groups@.map_values(|g: PropertyGroup| g@) =~= store_set(old(self)@, pv));
            lemma_store_keys_unique(old(self)@, pv, pv.key);
        }
        *self = PropertyStore { groups };
    }

    /// Adds `p` after the occurrences of its key.
    pub fn append(&mut self, p: Property)
        ensures
            final(self)@ == store_append(old(self)@, p@),
            keys_unique(old(self)@),
            keys_unique(final(self)@),
    {
        let ghost pv = p@;
        let position = self.position(p.key());
        let mut groups = self.take_groups();
        proof {
            lemma_store_keys_unique(old(self)@, pv, pv.key);
        }
        match position {
            Some(i) => {
                let ghost old_group = groups@[i as int];
                let mut g = groups.remove(i);
                g.props.push(p);
                proof {
                    assert(g@ =~= (pv.key, old_group@.1.push(pv)));
                }
                groups.insert(i, g);
                proof {
                    assert(groups@.map_values(|g: PropertyGroup| g@) =~= store_append(old(self)@, pv));
                }
            },
            None => {
                let key = p.key().to_owned();
                let mut props: Vec<Property> = Vec::new();
                props.push(p);
                let g = PropertyGroup { key, props };
                proof {
                    assert(g@ =~= (pv.key, seq![pv]));
                }
                groups.push(g);
                proof {
                    assert(groups@.map_values(|g: PropertyGroup| g@) =~= store_append(old(self)@, pv));
                }
            },
        }
        *self = PropertyStore { groups };
    }

    /// Takes out every occurrence of `key`; nothing happens where there is
    /// none. Every other key keeps its occurrences.
    pub fn remove(&mut self, key: &str)
        ensures
            final(self)@ == store_remove(old(self)@, key@),
            keys_unique(old(self)@),
            keys_unique(final(self)@),
            occurrences(final(self)@, key@).len() == 0,
            forall|other: Seq<char>| other != key@ ==> #[trigger] occurrences(final(self)@, other) == occurrences(old(self)@, other),
    {
        let position = self.position(key);
        let mut groups = self.take_groups();
        proof {
            assert forall|other: Seq<char>| other != key@ implies #[trigger] occurrences(store_remove(old(self)@, key@), other) == occurrences(old(self)@, other) by {
                lemma_remove_occurrences(old(self)@, key@, other);
            }
            lemma_remove_occurrences(old(self)@, key@, key@);
        }
        match position {
            Some(i) => {
                groups.remove(i);
                proof {
                    assert(groups@.map_values(|g: PropertyGroup| g@) =~= store_remove(old(self)@, key@));
                }
            },
            None => {},
        }
        proof {
            lemma_store_keys_unique_remove(old(self)@, key@);
        }
        *self = PropertyStore { groups };
    }

    /// The groups, leaving the store empty.
    fn take_groups(&mut self) -> (r: Vec<PropertyGroup>)
        ensures
            r@.map_values(|g: PropertyGroup| g@) == old(self)@,
            keys_unique(old(self)@),
            final(self)@ == StoreView::empty(),
    {
        proof {
            use_type_invariant(&*self);
        }
        let mut other = PropertyStore::new();
        core::mem::swap(self, &mut other);
        other.groups
    }

    /// The first occurrence of `key`, if any.
    pub fn get(&self, key: &str) -> (r: Option<&Property>)
        ensures
            match r {
                Some(p) => first_occurrence(self@, key@) == Some(p@),
                None => first_occurrence(self@, key@) is None,
            },
            keys_unique(self@),
    {
        proof {
            use_type_invariant(self);
        }
        match self.position(key) {
            Some(i) => {
                if self.groups[i].props.len() > 0 {
                    proof {
                        assert(self@[i as int].1[0] == self.groups@[i as int].props@[0]@);
                    }
                    Some(&self.groups[i].props[0])
                } else {
                    None
                }
            },
            None => None,
        }
    }

    /// The value of the first occurrence of `key`, if any.
    pub fn value_of(&self, key: &str) -> (r: Option<&str>)
        ensures
            match r {
                Some(v) => first_occurrence(self@, key@) matches Some(p) && p.value == v@,
                None => first_occurrence(self@, key@) is None,
            },
    {
        match self.get(key) {
            Some(p) => Some(p.value()),
            None => None,
        }
    }

    /// Every occurrence of `key`, in the order entered.
    pub fn get_all(&self, key: &str) -> (r: Vec<&Property>)
        ensures
            r@.map_values(|p: &Property| p@) == occurrences(self@, key@),
    {
        let mut out: Vec<&Property> = Vec::new();
        match self.position(key) {
            Some(i) => {
                let props = &self.groups[i].props;
                let mut j: usize = 0;
                while j < props.len()
                    invariant
                        0 <= j <= props@.len(),
                        props@.map_values(|p: Property| p@) == occurrences(self@, key@),
                        out@.map_values(|p: &Property| p@) == occurrences(self@, key@).take(j as int),
                    decreases props@.len() - j,
                {
                    let ghost before = out@.map_values(|p: &Property| p@);
                    let r = &props[j];
                    out.push(r);
                    proof {
                        assert(props@.map_values(|p: Property| p@)[j as int] == props@[j as int]@);
                        assert(out@.map_values(|p: &Property| p@) =~= before.push(r@));
                        assert(out@.map_values(|p: &Property| p@) =~= occurrences(self@, key@).take(j + 1));
                    }
                    j = j + 1;
                }
                proof {
                    assert(occurrences(self@, key@).take(j as int) =~= occurrences(self@, key@));
                }
            },
            None => {
                proof {
                    assert(out@.map_values(|p: &Property| p@) =~= occurrences(self@, key@));
                }
            },
        }
        out
    }

    /// Hands out the properties stored so far and leaves the store empty.
    pub fn done(&mut self) -> (r: PropertyStore)
        ensures
            r@ == old(self)@,
            final(self)@ == StoreView::empty(),
    {
        let mut r = PropertyStore::new();
        core::mem::swap(self, &mut r);
        r
    }

    /// Writes every property out: keys in the order first entered, the
    /// occurrences of each in the order entered.
    pub fn fmt_write(&self, out: &mut String)
        ensures
            final(out)@ == old(out)@ + store_text(self@),
    {
        let mut i: usize = 0;
        proof {
            assert(self@.take(0) =~= StoreView::empty());
        }
        while i < self.groups.len()
            invariant
                0 <= i <= self.groups@.len(),
                self@.len() == self.groups@.len(),
                out@ == old(out)@ + store_text(self@.take(i as int)),
            decreases self.groups@.len() - i,
        {
            let props = &self.groups[i].props;
            let ghost before = out@;
            let ghost pvs = props@.map_values(|p: Property| p@);
            let mut j: usize = 0;
            proof {
                assert(pvs.take(0) =~= Seq::<PropertyView>::empty());
                assert(out@ =~= before + properties_text(pvs.take(0)));
            }
            while j < props.len()
                invariant
                    0 <= j <= props@.len(),
                    pvs == props@.map_values(|p: Property| p@),
                    out@ == before + properties_text(pvs.take(j as int)),
                decreases props@.len() - j,
            {
                props[j].fmt_write(out);
                proof {
                    assert(pvs.take(j + 1).drop_last() =~= pvs.take(j as int));
                    assert(out@ =~= before + properties_text(pvs.take(j + 1)));
                }
                j = j + 1;
            }
            proof {
                assert(pvs.take(j as int) =~= pvs);
                assert(self@.take(i + 1).drop_last() =~= self@.take(i as int));
                assert(self@.take(i + 1).last() == self@[i as int]);
                assert(out@ =~= old(out)@ + store_text(self@.take(i + 1)));
            }
            i = i + 1;
        }
        proof {
            assert(self@.take(i as int) =~= self@);
        }
    }
}

} // verus!
