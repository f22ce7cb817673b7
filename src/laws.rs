//! Laws of path resolution, stated over the store model.
use vstd::prelude::*;

use crate::children::is_folder;
use crate::object::ObjectView;
use crate::resolve::{
    has_root, parent_of, resolve_at, resolve_path, scan_from, ComponentView, ItemByPathError,
    Listing, StoreModel,
};
use crate::wide::before_nul;

verus! {

/// The items of `items` named `name`, in order.
pub open spec fn named(items: Seq<ObjectView>, name: Seq<u16>) -> Seq<ObjectView> {
    items.filter(|o: ObjectView| o.name == name)
}

/// The child of `cur` named `name`, found by filtering its enumerated children
/// by exact name and taking the first.
pub open spec fn filter_child(store: StoreModel, cur: ObjectView, name: Seq<u16>) -> Result<ObjectView, ItemByPathError> {
    if !store.children.contains_key(cur.id) {
        Err(ItemByPathError::EnumerationError)
    } else {
        let l = store.children[cur.id];
        let m = named(l.items, before_nul(name));
        if m.len() > 0 {
            Ok(m[0])
        } else if l.completes {
            Err(ItemByPathError::NotFound)
        } else {
            Err(ItemByPathError::EnumerationError)
        }
    }
}

/// Filtering level after level: `names[i..]` from `cur`.
pub open spec fn filter_walk(store: StoreModel, cur: ObjectView, names: Seq<Seq<u16>>, i: int) -> Result<ObjectView, ItemByPathError>
    decreases names.len() - i,
{
    if i < 0 || i >= names.len() {
        Ok(cur)
    } else {
        match filter_child(store, cur, names[i]) {
            Err(e) => Err(e),
            Ok(c) => filter_walk(store, c, names, i + 1),
        }
    }
}

pub open spec fn normal_components(names: Seq<Seq<u16>>) -> Seq<ComponentView> {
    names.map_values(|n: Seq<u16>| ComponentView::Normal(n))
}

/// Scanning `l.items[k..]` finds the first item of its name filter.
proof fn lemma_scan_is_first_named(l: Listing, w: Seq<u16>, k: int)
    requires
        0 <= k <= l.items.len(),
    ensures
        scan_from(l, w, k) == ({
            let m = named(l.items.subrange(k, l.items.len() as int), w);
            if m.len() > 0 {
                Ok(m[0])
            } else if l.completes {
                Err(ItemByPathError::NotFound)
            } else {
                Err(ItemByPathError::EnumerationError)
            }
        }),
    decreases l.items.len() - k,
{
    reveal(Seq::filter);
    let pred = |o: ObjectView| o.name == w;
    let t = l.items.subrange(k, l.items.len() as int);
    if k == l.items.len() {
        assert(t.len() == 0);
        assert(t.filter(pred) =~= t);
    } else {
        lemma_scan_is_first_named(l, w, k + 1);
        let head = seq![l.items[k]];
        let rest = l.items.subrange(k + 1, l.items.len() as int);
        assert(t =~= head + rest);
        Seq::filter_distributes_over_add(head, rest, pred);
        assert(head.drop_last() =~= Seq::<ObjectView>::empty());
        assert(head.drop_last().filter(pred) == head.drop_last());
        assert(head.last() == l.items[k]);
        if pred(l.items[k]) {
            assert(head.filter(pred) =~= head);
        } else {
            assert(head.filter(pred) =~= Seq::<ObjectView>::empty());
            assert(t.filter(pred) =~= rest.filter(pred));
        }
    }
}

proof fn lemma_normal_walk(store: StoreModel, cur: ObjectView, names: Seq<Seq<u16>>, i: int)
    requires
        0 <= i < names.len(),
    ensures
        resolve_at(store, cur, normal_components(names), i) == filter_walk(store, cur, names, i),
    decreases names.len() - i,
{
    let comps = normal_components(names);
    assert(comps[i] == ComponentView::Normal(names[i]));
    if store.children.contains_key(cur.id) {
        let l = store.children[cur.id];
        lemma_scan_is_first_named(l, before_nul(names[i]), 0);
        assert(l.items.subrange(0, l.items.len() as int) =~= l.items);
    }
    if i + 1 < names.len() {
        match filter_child(store, cur, names[i]) {
            Ok(c) => lemma_normal_walk(store, c, names, i + 1),
            Err(_) => {},
        }
    } else {
        match filter_child(store, cur, names[i]) {
            Ok(c) => {
                assert(filter_walk(store, c, names, i + 1) == Ok::<ObjectView, ItemByPathError>(c));
            },
            Err(_) => {},
        }
    }
}

/// A path of plain names resolves as filtering each level's children by exact
/// name, level after level, and taking the first match.
pub proof fn lemma_names_resolve_by_filtering(store: StoreModel, origin: ObjectView, names: Seq<Seq<u16>>)
    requires
        names.len() > 0,
    ensures
        resolve_path(store, origin, normal_components(names)) == filter_walk(store, origin, names, 0),
{
    let comps = normal_components(names);
    assert(!has_root(comps)) by {
        assert forall|i: int| 0 <= i < comps.len() implies !(#[trigger] comps[i] is RootOrPrefix) by {
            assert(comps[i] == ComponentView::Normal(names[i]));
        }
    }
    lemma_normal_walk(store, origin, names, 0);
}

/// Resolving `.` alone yields the origin itself.
pub proof fn lemma_current_dir_is_origin(store: StoreModel, origin: ObjectView)
    ensures
        resolve_path(store, origin, seq![ComponentView::CurrentDir]) == Ok::<ObjectView, ItemByPathError>(origin),
{
    let comps = seq![ComponentView::CurrentDir];
    assert(!has_root(comps)) by {
        assert forall|i: int| 0 <= i < comps.len() implies !(#[trigger] comps[i] is RootOrPrefix) by {}
    }
}

/// Resolving `..` alone yields the handle looked up by the origin's parent identifier.
pub proof fn lemma_parent_dir_is_parent(store: StoreModel, origin: ObjectView)
    ensures
        resolve_path(store, origin, seq![ComponentView::ParentDir]) == parent_of(store, origin.id),
{
    let comps = seq![ComponentView::ParentDir];
    assert(!has_root(comps)) by {
        assert forall|i: int| 0 <= i < comps.len() implies !(#[trigger] comps[i] is RootOrPrefix) by {}
    }
}

/// A path with a root or prefix component anywhere is refused as absolute,
/// whatever its other components and whatever the store.
pub proof fn lemma_root_anywhere_is_absolute(store: StoreModel, origin: ObjectView, comps: Seq<ComponentView>, i: int)
    requires
        0 <= i < comps.len(),
        comps[i] is RootOrPrefix,
    ensures
        resolve_path(store, origin, comps) == Err::<ObjectView, ItemByPathError>(ItemByPathError::AbsolutePath),
{
}

/// The empty path is `NotFound`, whatever the store.
pub proof fn lemma_empty_path_not_found(store: StoreModel, origin: ObjectView)
    ensures
        resolve_path(store, origin, Seq::<ComponentView>::empty()) == Err::<ObjectView, ItemByPathError>(ItemByPathError::NotFound),
{
    assert(!has_root(Seq::<ComponentView>::empty()));
}

/// The positions of the folders of `s`, in increasing order.
pub open spec fn folder_positions(s: Seq<ObjectView>) -> Seq<int>
    decreases s.len(),
{
    if s.len() == 0 {
        Seq::empty()
    } else if is_folder(s.last()) {
        folder_positions(s.drop_last()).push(s.len() - 1)
    } else {
        folder_positions(s.drop_last())
    }
}

proof fn lemma_folder_positions(s: Seq<ObjectView>)
    ensures
        ({
            let f = s.filter(|o: ObjectView| is_folder(o));
            let idx = folder_positions(s);
            &&& idx.len() == f.len()
            &&& forall|j: int| 0 <= j < idx.len() ==> 0 <= #[trigger] idx[j] < s.len()
                && f[j] == s[idx[j]]
            &&& forall|j: int, k: int| 0 <= j < k < idx.len() ==> #[trigger] idx[j] < #[trigger] idx[k]
            &&& forall|i: int| 0 <= i < s.len() && is_folder(#[trigger] s[i]) ==> idx.contains(i)
        }),
    decreases s.len(),
{
    reveal(Seq::filter);
    if s.len() > 0 {
        let d = s.drop_last();
        lemma_folder_positions(d);
        let idx = folder_positions(s);
        let pd = folder_positions(d);
        assert forall|i: int| 0 <= i < s.len() && is_folder(#[trigger] s[i]) implies idx.contains(i) by {
            if i < s.len() - 1 {
                assert(d[i] == s[i]);
                let j = choose|j: int| 0 <= j < pd.len() && pd[j] == i;
                assert(idx[j] == i);
            } else {
                assert(idx[idx.len() - 1] == i);
            }
        }
    }
}

/// The folders of a sequence of children, as `sub_folders` keeps them, are a
/// strictly order-preserving subsequence: each is a folder taken from a
/// distinct, increasing position, and every folder of the sequence is kept.
pub proof fn lemma_sub_folders_is_ordered_subsequence(s: Seq<ObjectView>)
    ensures
        ({
            let f = s.filter(|o: ObjectView| is_folder(o));
            exists|idx: Seq<int>| {
                &&& idx.len() == f.len()
                &&& forall|j: int| 0 <= j < idx.len() ==> 0 <= #[trigger] idx[j] < s.len()
                    && f[j] == s[idx[j]] && is_folder(f[j])
                &&& forall|j: int, k: int| 0 <= j < k < idx.len() ==> #[trigger] idx[j] < #[trigger] idx[k]
                &&& forall|i: int| 0 <= i < s.len() && is_folder(#[trigger] s[i]) ==> idx.contains(i)
            }
        }),
{
    lemma_folder_positions(s);
    let f = s.filter(|o: ObjectView| is_folder(o));
    let idx = folder_positions(s);
    assert forall|j: int| 0 <= j < idx.len() implies is_folder(f[j]) by {
        s.filter_lemma(|o: ObjectView| is_folder(o));
    }
}

} // verus!
