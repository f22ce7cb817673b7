//! Path resolution as a reply-driven state machine.
//!
//! The caller owns the connection and makes the remote calls. The resolver
//! says which call comes next ([`Request`]) and, given its answer ([`Reply`]),
//! either asks for another call or finishes with a handle or an error.
//! [`StoreModel`] describes what the remote store answers; the resolver is
//! proved to finish with [`resolve_path`] of the store it talks to.
use vstd::prelude::*;

use crate::object::{copy_units, Object, ObjectView};
use crate::wide::{before_nul, identifier_from_property, truncate_at_nul};

verus! {

/// One segment of a relative path.
pub enum PathComponent {
    /// A plain name, as UTF-16 code units.
    Normal(Vec<u16>),
    /// `.`
    CurrentDir,
    /// `..`
    ParentDir,
    /// A root or a prefix: the mark of an absolute path.
    RootOrPrefix,
}

pub enum ComponentView {
    Normal(Seq<u16>),
    CurrentDir,
    ParentDir,
    RootOrPrefix,
}

impl View for PathComponent {
    type V = ComponentView;

    open spec fn view(&self) -> ComponentView {
        match self {
            PathComponent::Normal(n) => ComponentView::Normal(n@),
            PathComponent::CurrentDir => ComponentView::CurrentDir,
            PathComponent::ParentDir => ComponentView::ParentDir,
            PathComponent::RootOrPrefix => ComponentView::RootOrPrefix,
        }
    }
}

pub open spec fn components_view(c: Seq<PathComponent>) -> Seq<ComponentView> {
    c.map_values(|x: PathComponent| x@)
}

/// Why a path could not be resolved.
#[derive(Clone, Copy, Debug, PartialEq, Eq, Structural)]
pub enum ItemByPathError {
    /// A named child is absent, or the path is empty.
    NotFound,
    /// The path holds a root or prefix component.
    AbsolutePath,
    /// A remote property fetch failed, or the property is absent (an object without parent).
    PropertyLookupError,
    /// A remote child enumeration failed to start or to advance.
    EnumerationError,
}

/// What one enumeration of an object's children reports: the children it
/// yields, in order, and whether it then signals its end (`completes`) or fails.
pub struct Listing {
    pub items: Seq<ObjectView>,
    pub completes: bool,
}

/// The answers of a remote store during one resolution. An identifier absent
/// from a map is one on which the corresponding remote call fails.
pub struct StoreModel {
    /// Child enumeration, by identifier of the parent.
    pub children: Map<Seq<u16>, Listing>,
    /// The parent-identifier property, as the raw units reported.
    pub parents: Map<Seq<u16>, Seq<u16>>,
    /// Lookup of a handle by identifier.
    pub objects: Map<Seq<u16>, ObjectView>,
}

/// The first of `l.items[k..]` named `wanted`.
pub open spec fn scan_from(l: Listing, wanted: Seq<u16>, k: int) -> Result<ObjectView, ItemByPathError>
    decreases l.items.len() - k,
{
    if k < 0 || k >= l.items.len() {
        if l.completes {
            Err(ItemByPathError::NotFound)
        } else {
            Err(ItemByPathError::EnumerationError)
        }
    } else if l.items[k].name == wanted {
        Ok(l.items[k])
    } else {
        scan_from(l, wanted, k + 1)
    }
}

pub open spec fn lookup_object(store: StoreModel, id: Seq<u16>) -> Result<ObjectView, ItemByPathError> {
    if store.objects.contains_key(id) {
        Ok(store.objects[id])
    } else {
        Err(ItemByPathError::PropertyLookupError)
    }
}

/// The handle of the parent of the object `id`.
pub open spec fn parent_of(store: StoreModel, id: Seq<u16>) -> Result<ObjectView, ItemByPathError> {
    if store.parents.contains_key(id) {
        lookup_object(store, before_nul(store.parents[id]))
    } else {
        Err(ItemByPathError::PropertyLookupError)
    }
}

/// The child of `cur` named `name`: the first one the enumeration yields.
pub open spec fn child_named(store: StoreModel, cur: ObjectView, name: Seq<u16>) -> Result<ObjectView, ItemByPathError> {
    if store.children.contains_key(cur.id) {
        scan_from(store.children[cur.id], before_nul(name), 0)
    } else {
        Err(ItemByPathError::EnumerationError)
    }
}

/// Where one component leads from `cur`.
pub open spec fn step_spec(store: StoreModel, cur: ObjectView, c: ComponentView) -> Result<ObjectView, ItemByPathError> {
    match c {
        ComponentView::Normal(n) => child_named(store, cur, n),
        ComponentView::CurrentDir => Ok(cur),
        ComponentView::ParentDir => parent_of(store, cur.id),
        ComponentView::RootOrPrefix => Err(ItemByPathError::AbsolutePath),
    }
}

/// Resolution of `comps[i..]` from `cur`; nothing left to resolve is `NotFound`.
pub open spec fn resolve_at(store: StoreModel, cur: ObjectView, comps: Seq<ComponentView>, i: int) -> Result<ObjectView, ItemByPathError>
    decreases comps.len() - i,
{
    if i < 0 || i >= comps.len() {
        Err(ItemByPathError::NotFound)
    } else {
        match step_spec(store, cur, comps[i]) {
            Err(e) => Err(e),
            Ok(c) => if i + 1 >= comps.len() {
                Ok(c)
            } else {
                resolve_at(store, c, comps, i + 1)
            },
        }
    }
}

/// `cand` once `comps[..i]` are resolved to it.
pub open spec fn continue_at(store: StoreModel, cand: ObjectView, comps: Seq<ComponentView>, i: int) -> Result<ObjectView, ItemByPathError> {
    if i >= comps.len() {
        Ok(cand)
    } else {
        resolve_at(store, cand, comps, i)
    }
}

pub open spec fn has_root(comps: Seq<ComponentView>) -> bool {
    exists|i: int| 0 <= i < comps.len() && #[trigger] comps[i] is RootOrPrefix
}

/// What resolving `comps` from `origin` yields against `store`. A path with a
/// root or prefix component anywhere is refused before any remote call.
pub open spec fn resolve_path(store: StoreModel, origin: ObjectView, comps: Seq<ComponentView>) -> Result<ObjectView, ItemByPathError> {
    if has_root(comps) {
        Err(ItemByPathError::AbsolutePath)
    } else {
        resolve_at(store, origin, comps, 0)
    }
}

/// The remote call the resolver needs next.
pub enum Request {
    /// Begin enumerating the children of this object, and report the first.
    ListChildren(Vec<u16>),
    /// Report the next child of the enumeration under way.
    NextChild,
    /// Fetch the parent-identifier property of this object.
    ParentOf(Vec<u16>),
    /// Make a handle from this identifier.
    ObjectById(Vec<u16>),
}

/// The answer to a [`Request`].
pub enum Reply<'a, C> {
    /// The next child of the enumeration.
    Child(Object<'a, C>),
    /// The enumeration signalled its end.
    NoMoreChildren,
    /// The parent-identifier property, as the units reported.
    ParentId(Vec<u16>),
    /// The handle looked up by identifier.
    Found(Object<'a, C>),
    /// The remote call failed.
    Failed,
}

enum Phase {
    /// Scanning the children of `current` for `wanted`.
    Scan,
    /// Waiting for the parent identifier of `current`.
    ParentId,
    /// Waiting for the handle of `parent_id`.
    Parent,
}

/// A resolution under way, waiting for the answer to one remote call.
pub struct Resolver<'a, C> {
    current: Object<'a, C>,
    comps: Vec<PathComponent>,
    /// The component being resolved.
    pos: usize,
    phase: Phase,
    /// While scanning: the name sought, cut at its first nul.
    wanted: Vec<u16>,
    /// While looking up the parent: its identifier.
    parent_id: Vec<u16>,
    /// While scanning: how many children were already seen.
    seen: Ghost<int>,
}

/// What the caller does next.
pub enum Progress<'a, C> {
    /// Make the call, and hand its answer to [`Resolver::step`].
    Ask(Resolver<'a, C>, Request),
    /// Resolution is over.
    Finished(Result<Object<'a, C>, ItemByPathError>),
}

impl<'a, C> Resolver<'a, C> {
    pub closed spec fn wf(&self) -> bool {
        &&& self.pos < self.comps.len()
        &&& self.seen@ >= 0
    }

    pub closed spec fn spec_comps(&self) -> Seq<ComponentView> {
        components_view(self.comps@)
    }

    /// What the resolution yields from here against `store`.
    pub closed spec fn outcome(&self, store: StoreModel) -> Result<ObjectView, ItemByPathError> {
        let found = match self.phase {
            Phase::Scan => if store.children.contains_key(self.current@.id) {
                scan_from(store.children[self.current@.id], self.wanted@, self.seen@)
            } else {
                Err(ItemByPathError::EnumerationError)
            },
            Phase::ParentId => parent_of(store, self.current@.id),
            Phase::Parent => lookup_object(store, self.parent_id@),
        };
        match found {
            Err(e) => Err(e),
            Ok(c) => continue_at(store, c, self.spec_comps(), self.pos + 1),
        }
    }

    /// `reply` is what `store` answers to the pending request.
    pub closed spec fn reply_agrees(&self, store: StoreModel, reply: Reply<'a, C>) -> bool {
        match self.phase {
            Phase::Scan => if !store.children.contains_key(self.current@.id) {
                reply is Failed
            } else {
                let l = store.children[self.current@.id];
                if self.seen@ < l.items.len() {
                    reply is Child && reply->Child_0@ == l.items[self.seen@]
                } else if l.completes {
                    reply is NoMoreChildren
                } else {
                    reply is Failed
                }
            },
            Phase::ParentId => if store.parents.contains_key(self.current@.id) {
                reply is ParentId && reply->ParentId_0@ == store.parents[self.current@.id]
            } else {
                reply is Failed
            },
            Phase::Parent => if store.objects.contains_key(self.parent_id@) {
                reply is Found && reply->Found_0@ == store.objects[self.parent_id@]
            } else {
                reply is Failed
            },
        }
    }

    /// `req` is the call this state waits on.
    pub closed spec fn request_fits(&self, req: Request) -> bool {
        match self.phase {
            Phase::Scan => if self.seen@ == 0 {
                req is ListChildren && req->ListChildren_0@ == self.current@.id
            } else {
                req is NextChild
            },
            Phase::ParentId => req is ParentOf && req->ParentOf_0@ == self.current@.id,
            Phase::Parent => req is ObjectById && req->ObjectById_0@ == self.parent_id@,
        }
    }

    /// `next` is further along the same path than `self`.
    pub closed spec fn advances(&self, next: Resolver<'a, C>) -> bool {
        &&& next.comps@ == self.comps@
        &&& {
            ||| next.pos > self.pos
            ||| (next.pos == self.pos && self.phase is ParentId && next.phase is Parent)
            ||| (next.pos == self.pos && self.phase is Scan && next.phase is Scan
                && next.seen@ == self.seen@ + 1)
        }
    }
}

pub open spec fn progress_outcome<'a, C>(store: StoreModel, p: Progress<'a, C>) -> Result<ObjectView, ItemByPathError> {
    match p {
        Progress::Ask(r, _) => r.outcome(store),
        Progress::Finished(Ok(o)) => Ok(o@),
        Progress::Finished(Err(e)) => Err(e),
    }
}

pub open spec fn progress_ok<'a, C>(p: Progress<'a, C>) -> bool {
    match p {
        Progress::Ask(r, req) => r.wf() && r.request_fits(req),
        Progress::Finished(_) => true,
    }
}

/// Whether `a` and `b` hold the same units.
pub(crate) fn units_equal(a: &Vec<u16>, b: &Vec<u16>) -> (r: bool)
    ensures
        r == (a@ == b@),
{
    if a.len() != b.len() {
        return false;
    }
    let mut i: usize = 0;
    while i < a.len()
        invariant
            a.len() == b.len(),
            i <= a.len(),
            forall|j: int| 0 <= j < i ==> a@[j] == b@[j],
        decreases a.len() - i,
    {
        if a[i] != b[i] {
            return false;
        }
        i = i + 1;
    }
    assert(a@ =~= b@);
    true
}

/// From `cand`, the resolution of `comps[..pos]`, go on with `comps[pos..]`:
/// pass over current-directory components, and stop at the first that needs
/// a remote call, or at the end.
fn advance<'a, C>(cand: Object<'a, C>, comps: Vec<PathComponent>, pos: usize) -> (r: Progress<'a, C>)
    requires
        pos <= comps.len(),
    ensures
        forall|store: StoreModel| #[trigger] progress_outcome(store, r)
            == continue_at(store, cand@, components_view(comps@), pos as int),
        progress_ok(r),
        r is Ask ==> r->Ask_0.comps@ == comps@ && r->Ask_0.pos >= pos,
{
    let ghost cv = components_view(comps@);
    let mut i: usize = pos;
    loop
        invariant
            pos <= i <= comps.len(),
            cv == components_view(comps@),
            forall|store: StoreModel| #[trigger] continue_at(store, cand@, cv, i as int)
                == continue_at(store, cand@, cv, pos as int),
        decreases comps.len() - i,
    {
        if i >= comps.len() {
            let r = Progress::Finished(Ok(cand));
            assert forall|store: StoreModel| #[trigger] progress_outcome(store, r)
                == continue_at(store, cand@, cv, pos as int) by {
                assert(continue_at(store, cand@, cv, i as int) == continue_at(store, cand@, cv, pos as int));
            }
            return r;
        }
        assert(cv[i as int] == comps@[i as int]@);
        match &comps[i] {
            PathComponent::CurrentDir => {
                assert forall|store: StoreModel| #[trigger] continue_at(store, cand@, cv, i + 1)
                    == continue_at(store, cand@, cv, i as int) by {}
                i = i + 1;
            },
            PathComponent::Normal(n) => {
                let wanted = truncate_at_nul(copy_units(n));
                let id = copy_units(cand.id());
                let next = Resolver {
                    current: cand,
                    comps,
                    pos: i,
                    phase: Phase::Scan,
                    wanted,
                    parent_id: Vec::new(),
                    seen: Ghost(0),
                };
                let r = Progress::Ask(next, Request::ListChildren(id));
                assert forall|store: StoreModel| #[trigger] progress_outcome(store, r)
                    == continue_at(store, cand@, cv, pos as int) by {
                    assert(continue_at(store, cand@, cv, i as int) == continue_at(store, cand@, cv, pos as int));
                    assert(cv[i as int] == ComponentView::Normal(n@));
                }
                return r;
            },
            PathComponent::ParentDir => {
                let id = copy_units(cand.id());
                let next = Resolver {
                    current: cand,
                    comps,
                    pos: i,
                    phase: Phase::ParentId,
                    wanted: Vec::new(),
                    parent_id: Vec::new(),
                    seen: Ghost(0),
                };
                let r = Progress::Ask(next, Request::ParentOf(id));
                assert forall|store: StoreModel| #[trigger] progress_outcome(store, r)
                    == continue_at(store, cand@, cv, pos as int) by {
                    assert(continue_at(store, cand@, cv, i as int) == continue_at(store, cand@, cv, pos as int));
                }
                return r;
            },
            PathComponent::RootOrPrefix => {
                let r = Progress::Finished(Err(ItemByPathError::AbsolutePath));
                assert forall|store: StoreModel| #[trigger] progress_outcome(store, r)
                    == continue_at(store, cand@, cv, pos as int) by {
                    assert(continue_at(store, cand@, cv, i as int) == continue_at(store, cand@, cv, pos as int));
                }
                return r;
            },
        }
    }
}

/// Whether some component of `comps` is a root or a prefix.
fn holds_root(comps: &Vec<PathComponent>) -> (r: bool)
    ensures
        r == has_root(components_view(comps@)),
{
    let ghost cv = components_view(comps@);
    let mut i: usize = 0;
    while i < comps.len()
        invariant
            i <= comps.len(),
            cv == components_view(comps@),
            forall|j: int| 0 <= j < i ==> !(#[trigger] cv[j] is RootOrPrefix),
        decreases comps.len() - i,
    {
        assert(cv[i as int] == comps@[i as int]@);
        match &comps[i] {
            PathComponent::RootOrPrefix => {
                return true;
            },
            _ => {},
        }
        i = i + 1;
    }
    false
}

impl<'a, C> Resolver<'a, C> {
    /// Begins resolving `comps` from `origin`.
    ///
    /// A path with a root or prefix component anywhere finishes at once with
    /// `AbsolutePath`, and an empty path with `NotFound`; current-directory
    /// components are passed over without a remote call. Every other step is
    /// handed to the caller as a [`Request`]. Whatever the store, the
    /// resolution ends as [`resolve_path`] says of it, provided each reply is
    /// that store's answer.
    pub fn start(origin: Object<'a, C>, comps: Vec<PathComponent>) -> (r: Progress<'a, C>)
        ensures
            forall|store: StoreModel| #[trigger] progress_outcome(store, r)
                == resolve_path(store, origin@, components_view(comps@)),
            progress_ok(r),
            r is Ask ==> r->Ask_0.spec_comps() == components_view(comps@),
    {
        if holds_root(&comps) {
            return Progress::Finished(Err(ItemByPathError::AbsolutePath));
        }
        if comps.len() == 0 {
            return Progress::Finished(Err(ItemByPathError::NotFound));
        }
        advance(origin, comps, 0)
    }

    /// Takes the answer to the pending request and moves on.
    ///
    /// Scanning children: a child named as sought ends the scan and resolution
    /// goes on from it; any other child asks for the next; the end of the
    /// children is `NotFound`; a failure is `EnumerationError`. Looking up the
    /// parent: its identifier (cut at its first nul) is looked up next, and the
    /// handle found goes on; a failure of either is `PropertyLookupError`.
    pub fn step(self, reply: Reply<'a, C>) -> (r: Progress<'a, C>)
        requires
            self.wf(),
        ensures
            forall|store: StoreModel| #[trigger] self.reply_agrees(store, reply)
                ==> progress_outcome(store, r) == self.outcome(store),
            progress_ok(r),
            r is Ask ==> self.advances(r->Ask_0),
    {
        let ghost old_self = self;
        let Resolver { current, comps, pos, phase, wanted, parent_id, seen } = self;
        match phase {
            Phase::Scan => match reply {
                Reply::Child(child) => {
                    if units_equal(child.name(), &wanted) {
                        let r = advance(child, comps, pos + 1);
                        assert forall|store: StoreModel| #[trigger] old_self.reply_agrees(store, reply)
                            implies progress_outcome(store, r) == old_self.outcome(store) by {
                            assert(progress_outcome(store, r) == continue_at(store, child@, components_view(comps@), pos + 1));
                        }
                        r
                    } else {
                        let next = Resolver {
                            current,
                            comps,
                            pos,
                            phase: Phase::Scan,
                            wanted,
                            parent_id,
                            seen: Ghost(seen@ + 1),
                        };
                        Progress::Ask(next, Request::NextChild)
                    }
                },
                Reply::NoMoreChildren => Progress::Finished(Err(ItemByPathError::NotFound)),
                _ => Progress::Finished(Err(ItemByPathError::EnumerationError)),
            },
            Phase::ParentId => match reply {
                Reply::ParentId(raw) => {
                    let pid = identifier_from_property(raw);
                    let req = Request::ObjectById(copy_units(&pid));
                    let next = Resolver {
                        current,
                        comps,
                        pos,
                        phase: Phase::Parent,
                        wanted,
                        parent_id: pid,
                        seen,
                    };
                    Progress::Ask(next, req)
                },
                _ => Progress::Finished(Err(ItemByPathError::PropertyLookupError)),
            },
            Phase::Parent => match reply {
                Reply::Found(o) => {
                    let r = advance(o, comps, pos + 1);
                    assert forall|store: StoreModel| #[trigger] old_self.reply_agrees(store, reply)
                        implies progress_outcome(store, r) == old_self.outcome(store) by {
                        assert(progress_outcome(store, r) == continue_at(store, o@, components_view(comps@), pos + 1));
                    }
                    r
                },
                _ => Progress::Finished(Err(ItemByPathError::PropertyLookupError)),
            },
        }
    }
}

impl<'a, C> Object<'a, C> {
    /// Begins resolving `relative_path` from this object (see [`Resolver::start`]).
    ///
    /// Each step is a fresh remote call: nothing of the tree is cached.
    pub fn object_by_path(&self, relative_path: Vec<PathComponent>) -> (r: Progress<'a, C>)
        ensures
            forall|store: StoreModel| #[trigger] progress_outcome(store, r)
                == resolve_path(store, self@, components_view(relative_path@)),
            progress_ok(r),
    {
        Resolver::start(self.duplicate(), relative_path)
    }
}

} // verus!
