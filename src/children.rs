//! The children of an object: a lazy, forward-only sequence, and its folders.
use vstd::prelude::*;

use crate::object::{copy_units, Object, ObjectType, ObjectView};
use crate::resolve::ItemByPathError;

verus! {

/// What the remote enumeration reported at one position.
pub enum EnumerationReport {
    /// A child identifier, with the display name and type fetched for it
    /// (`None` where that fetch failed).
    Child(Vec<u16>, Option<(Vec<u16>, ObjectType)>),
    /// The enumeration signalled its end.
    End,
    /// The enumeration failed to advance.
    Failed,
}

/// The children of one object, produced one at a time as the remote
/// enumeration reports them. Not restartable: once it is over, a fresh
/// enumeration is needed.
pub struct ObjectIterator<'a, C> {
    device_content: &'a C,
    parent: Vec<u16>,
    finished: bool,
    /// The identifiers yielded so far, in order.
    yielded: Ghost<Seq<Seq<u16>>>,
}

impl<'a, C> ObjectIterator<'a, C> {
    pub closed spec fn spec_device_content(&self) -> &'a C {
        self.device_content
    }

    pub closed spec fn spec_parent(&self) -> Seq<u16> {
        self.parent@
    }

    pub closed spec fn is_finished(&self) -> bool {
        self.finished
    }

    pub closed spec fn yielded(&self) -> Seq<Seq<u16>> {
        self.yielded@
    }

    pub fn new(device_content: &'a C, parent: Vec<u16>) -> (r: Self)
        ensures
            r.spec_device_content() == device_content,
            r.spec_parent() == parent@,
            !r.is_finished(),
            r.yielded() == Seq::<Seq<u16>>::empty(),
    {
        ObjectIterator { device_content, parent, finished: false, yielded: Ghost(Seq::empty()) }
    }

    /// The identifier of the object whose children are enumerated.
    pub fn parent(&self) -> (r: &Vec<u16>)
        ensures
            r@ == self.spec_parent(),
    {
        &self.parent
    }

    pub fn finished(&self) -> (r: bool)
        ensures
            r == self.is_finished(),
    {
        self.finished
    }

    /// Takes what the enumeration reported next and yields the child it
    /// stands for.
    ///
    /// A reported child becomes a handle on the same context, with the
    /// identifier reported and the name and type fetched; it is yielded once,
    /// after those before it. The end yields `None`. A failure is yielded as
    /// an error at that position. After the end or a failure the sequence
    /// stays over and yields `None`.
    pub fn next(&mut self, report: EnumerationReport) -> (r: Option<Result<Object<'a, C>, ItemByPathError>>)
        ensures
            final(self).spec_device_content() == old(self).spec_device_content(),
            final(self).spec_parent() == old(self).spec_parent(),
            old(self).is_finished() ==> r is None && *final(self) == *old(self),
            !old(self).is_finished() ==> match report {
                EnumerationReport::Child(id, Some((name, ty))) => {
                    &&& r is Some && r->Some_0 is Ok
                    &&& r->Some_0->Ok_0@ == (ObjectView { id: id@, name: name@, ty })
                    &&& r->Some_0->Ok_0.spec_device_content() == old(self).spec_device_content()
                    &&& !final(self).is_finished()
                    &&& final(self).yielded() == old(self).yielded().push(id@)
                },
                EnumerationReport::Child(_, None) => {
                    &&& r == Some(Err::<Object<'a, C>, ItemByPathError>(ItemByPathError::PropertyLookupError))
                    &&& final(self).is_finished()
                    &&& final(self).yielded() == old(self).yielded()
                },
                EnumerationReport::End => {
                    &&& r is None
                    &&& final(self).is_finished()
                    &&& final(self).yielded() == old(self).yielded()
                },
                EnumerationReport::Failed => {
                    &&& r == Some(Err::<Object<'a, C>, ItemByPathError>(ItemByPathError::EnumerationError))
                    &&& final(self).is_finished()
                    &&& final(self).yielded() == old(self).yielded()
                },
            },
    {
        if self.finished {
            return None;
        }
        match report {
            EnumerationReport::Child(id, Some((name, ty))) => {
                self.yielded = Ghost(self.yielded@.push(id@));
                Some(Ok(Object::new(self.device_content, id, name, ty)))
            },
            EnumerationReport::Child(_, None) => {
                self.finished = true;
                Some(Err(ItemByPathError::PropertyLookupError))
            },
            EnumerationReport::End => {
                self.finished = true;
                None
            },
            EnumerationReport::Failed => {
                self.finished = true;
                Some(Err(ItemByPathError::EnumerationError))
            },
        }
    }
}

pub open spec fn is_folder(o: ObjectView) -> bool {
    o.ty == ObjectType::Folder
}

pub open spec fn views<'a, C>(s: Seq<Object<'a, C>>) -> Seq<ObjectView> {
    s.map_values(|o: Object<'a, C>| o@)
}

impl<'a, C> Object<'a, C> {
    /// The children of this object, as a sequence to be fed by the remote enumeration.
    pub fn children(&self) -> (r: ObjectIterator<'a, C>)
        ensures
            r.spec_device_content() == self.spec_device_content(),
            r.spec_parent() == self@.id,
            !r.is_finished(),
            r.yielded() == Seq::<Seq<u16>>::empty(),
    {
        ObjectIterator::new(self.device_content(), copy_units(self.id()))
    }

    /// The folders among `children`, in their order.
    pub fn sub_folders(children: Vec<Object<'a, C>>) -> (r: Vec<Object<'a, C>>)
        ensures
            views(r@) == views(children@).filter(|o: ObjectView| is_folder(o)),
    {
        let ghost all = children@;
        let mut r: Vec<Object<'a, C>> = Vec::new();
        let mut rest = children;
        let ghost mut taken: int = 0;
        while rest.len() > 0
            invariant
                0 <= taken <= all.len(),
                taken + rest.len() == all.len(),
                rest@ == all.subrange(taken, all.len() as int),
                views(r@) == views(all.subrange(0, taken)).filter(|o: ObjectView| is_folder(o)),
            decreases rest.len(),
        {
            let o = rest.remove(0);
            proof {
                reveal(Seq::filter);
                let before = all.subrange(0, taken);
                let after = all.subrange(0, taken + 1);
                assert(o == all[taken]);
                assert(views(after).drop_last() =~= views(before));
                assert(views(after).last() == o@);
                taken = taken + 1;
            }
            if o.object_type() == ObjectType::Folder {
                r.push(o);
                proof {
                    assert(views(r@) =~= views(all.subrange(0, taken)).filter(|o: ObjectView| is_folder(o)));
                }
            }
        }
        proof {
            assert(all.subrange(0, taken) =~= all);
        }
        r
    }
}

} // verus!
