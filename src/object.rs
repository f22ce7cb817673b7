//! Object handles: a remote object as last observed.
use vstd::prelude::*;

verus! {

/// Classification of a remote entry.
#[derive(Clone, Copy, Debug, PartialEq, Eq, Structural)]
pub enum ObjectType {
    Folder,
    File,
    /// A content type the library does not recognise, kept as its raw 128-bit code.
    Other(u128),
}

/// The content type code of a folder.
pub const CONTENT_TYPE_FOLDER: u128 = 0x27e2e392_a111_48e0_ab0c_e17705a05f85;

/// The content type code of a generic file.
pub const CONTENT_TYPE_GENERIC_FILE: u128 = 0x0085e0a6_8d34_45d7_bc5c_447e59c73d48;

impl ObjectType {
    /// The type of an entry whose remote content type code is `code`; a code
    /// not recognised is kept as it is.
    pub fn from_content_type(code: u128) -> (r: ObjectType)
        ensures
            r == (if code == CONTENT_TYPE_FOLDER {
                ObjectType::Folder
            } else if code == CONTENT_TYPE_GENERIC_FILE {
                ObjectType::File
            } else {
                ObjectType::Other(code)
            }),
    {
        if code == CONTENT_TYPE_FOLDER {
            ObjectType::Folder
        } else if code == CONTENT_TYPE_GENERIC_FILE {
            ObjectType::File
        } else {
            ObjectType::Other(code)
        }
    }
}

/// What a handle states about its remote object.
pub struct ObjectView {
    pub id: Seq<u16>,
    pub name: Seq<u16>,
    pub ty: ObjectType,
}

/// A remote object: the shared connection context it was reached through, its
/// identifier, and the display name and type observed when the handle was made.
///
/// Name and type are never refreshed: they may go stale if the remote tree
/// changes. The identifier is what designates the object.
pub struct Object<'a, C> {
    device_content: &'a C,
    id: Vec<u16>,
    name: Vec<u16>,
    ty: ObjectType,
}

impl<'a, C> View for Object<'a, C> {
    type V = ObjectView;

    closed spec fn view(&self) -> ObjectView {
        ObjectView { id: self.id@, name: self.name@, ty: self.ty }
    }
}

/// A copy of `v` holding the same units.
pub(crate) fn copy_units(v: &Vec<u16>) -> (r: Vec<u16>)
    ensures
        r@ == v@,
{
    let mut r: Vec<u16> = Vec::new();
    let mut i: usize = 0;
    while i < v.len()
        invariant
            i <= v.len(),
            r@ == v@.subrange(0, i as int),
        decreases v.len() - i,
    {
        r.push(v[i]);
        i = i + 1;
    }
    assert(r@ =~= v@);
    r
}

impl<'a, C> Object<'a, C> {
    pub closed spec fn spec_device_content(&self) -> &'a C {
        self.device_content
    }

    pub fn new(device_content: &'a C, id: Vec<u16>, name: Vec<u16>, ty: ObjectType) -> (r: Self)
        ensures
            r@ == (ObjectView { id: id@, name: name@, ty }),
            r.spec_device_content() == device_content,
    {
        Object { device_content, id, name, ty }
    }

    /// The connection context this handle was reached through.
    pub fn device_content(&self) -> (r: &'a C)
        ensures
            r == self.spec_device_content(),
    {
        self.device_content
    }

    pub fn id(&self) -> (r: &Vec<u16>)
        ensures
            r@ == self@.id,
    {
        &self.id
    }

    pub fn name(&self) -> (r: &Vec<u16>)
        ensures
            r@ == self@.name,
    {
        &self.name
    }

    pub fn object_type(&self) -> (r: ObjectType)
        ensures
            r == self@.ty,
    {
        self.ty
    }

    /// Another handle on the same object, through the same context.
    pub fn duplicate(&self) -> (r: Self)
        ensures
            r@ == self@,
            r.spec_device_content() == self.spec_device_content(),
    {
        Object {
            device_content: self.device_content,
            id: copy_units(&self.id),
            name: copy_units(&self.name),
            ty: self.ty,
        }
    }
}

} // verus!
