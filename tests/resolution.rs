use std::collections::HashMap;

use winmtp_path::children::EnumerationReport;
use winmtp_path::object::{Object, ObjectType};
use winmtp_path::resolve::{ItemByPathError, PathComponent, Progress, Reply, Request, Resolver};
use winmtp_path::wide::identifier_from_property;

fn w(s: &str) -> Vec<u16> {
    s.encode_utf16().collect()
}

struct Entry {
    name: Vec<u16>,
    ty: ObjectType,
    parent: Option<Vec<u16>>,
}

/// An in-memory device: objects by identifier, and the children of each.
struct Device {
    objects: HashMap<Vec<u16>, Entry>,
    children: HashMap<Vec<u16>, Vec<Vec<u16>>>,
    calls: std::cell::Cell<usize>,
}

impl Device {
    fn new() -> Device {
        let mut d = Device { objects: HashMap::new(), children: HashMap::new(), calls: std::cell::Cell::new(0) };
        d.objects.insert(w("root"), Entry { name: w("Root"), ty: ObjectType::Folder, parent: None });
        d.children.insert(w("root"), Vec::new());
        d
    }

    fn add(&mut self, parent: &str, id: &str, name: &str, ty: ObjectType) {
        self.objects.insert(w(id), Entry { name: w(name), ty, parent: Some(w(parent)) });
        self.children.entry(w(parent)).or_default().push(w(id));
        if ty == ObjectType::Folder {
            self.children.entry(w(id)).or_default();
        }
    }

    fn object(&self, id: &[u16]) -> Option<Object<'_, Device>> {
        self.objects.get(id).map(|e| Object::new(self, id.to_vec(), e.name.clone(), e.ty))
    }

    fn root(&self) -> Object<'_, Device> {
        self.object(&w("root")).unwrap()
    }

    /// Runs a resolution to its end, answering each request from this device.
    fn run<'a>(&'a self, mut p: Progress<'a, Device>) -> Result<Object<'a, Device>, ItemByPathError> {
        let mut listing: Vec<Vec<u16>> = Vec::new();
        let mut at: usize = 0;
        loop {
            let (resolver, req): (Resolver<'a, Device>, Request) = match p {
                Progress::Finished(r) => return r,
                Progress::Ask(resolver, req) => (resolver, req),
            };
            self.calls.set(self.calls.get() + 1);
            let reply = match req {
                Request::ListChildren(id) => match self.children.get(&id) {
                    None => Reply::Failed,
                    Some(l) => {
                        listing = l.clone();
                        at = 0;
                        self.child_reply(&listing, &mut at)
                    }
                },
                Request::NextChild => self.child_reply(&listing, &mut at),
                Request::ParentOf(id) => match self.objects.get(&id).and_then(|e| e.parent.clone()) {
                    Some(p) => Reply::ParentId(p),
                    None => Reply::Failed,
                },
                Request::ObjectById(id) => match self.object(&id) {
                    Some(o) => Reply::Found(o),
                    None => Reply::Failed,
                },
            };
            p = resolver.step(reply);
        }
    }

    fn child_reply<'a>(&'a self, listing: &[Vec<u16>], at: &mut usize) -> Reply<'a, Device> {
        if *at < listing.len() {
            let o = self.object(&listing[*at]).unwrap();
            *at += 1;
            Reply::Child(o)
        } else {
            Reply::NoMoreChildren
        }
    }
}

/// R with `Photos` (a folder holding `trip.jpg`) and `notes.txt`.
fn sample() -> Device {
    let mut d = Device::new();
    d.add("root", "o1", "Photos", ObjectType::Folder);
    d.add("root", "o2", "notes.txt", ObjectType::File);
    d.add("o1", "o3", "trip.jpg", ObjectType::File);
    d
}

fn names(path: &[&str]) -> Vec<PathComponent> {
    path.iter().map(|n| PathComponent::Normal(w(n))).collect()
}

fn resolve<'a>(d: &'a Device, from: &Object<'a, Device>, comps: Vec<PathComponent>) -> Result<Object<'a, Device>, ItemByPathError> {
    d.run(from.object_by_path(comps))
}

fn expect_ok<'a>(r: Result<Object<'a, Device>, ItemByPathError>) -> Object<'a, Device> {
    match r {
        Ok(o) => o,
        Err(e) => panic!("resolution failed: {:?}", e),
    }
}

fn expect_err(r: Result<Object<'_, Device>, ItemByPathError>) -> ItemByPathError {
    match r {
        Ok(o) => panic!("resolved to {:?}", String::from_utf16_lossy(o.name())),
        Err(e) => e,
    }
}

#[test]
fn resolves_child_folder() {
    let d = sample();
    let o = expect_ok(resolve(&d, &d.root(), names(&["Photos"])));
    assert_eq!(o.name(), &w("Photos"));
    assert_eq!(o.object_type(), ObjectType::Folder);
    assert_eq!(o.id(), &w("o1"));
}

#[test]
fn resolves_nested_file() {
    let d = sample();
    let o = expect_ok(resolve(&d, &d.root(), names(&["Photos", "trip.jpg"])));
    assert_eq!(o.name(), &w("trip.jpg"));
    assert_eq!(o.object_type(), ObjectType::File);
}

#[test]
fn missing_child_is_not_found() {
    let d = sample();
    assert_eq!(expect_err(resolve(&d, &d.root(), names(&["Photos", "missing.jpg"]))), ItemByPathError::NotFound);
}

#[test]
fn parent_of_root_is_property_lookup_error() {
    let d = sample();
    let comps = vec![PathComponent::ParentDir, PathComponent::Normal(w("x"))];
    assert_eq!(expect_err(resolve(&d, &d.root(), comps)), ItemByPathError::PropertyLookupError);
}

#[test]
fn absolute_path_is_refused() {
    let d = sample();
    let comps = vec![PathComponent::RootOrPrefix, PathComponent::Normal(w("abs")), PathComponent::Normal(w("whatever"))];
    assert_eq!(expect_err(resolve(&d, &d.root(), comps)), ItemByPathError::AbsolutePath);
    assert_eq!(d.calls.get(), 0);
}

#[test]
fn root_after_other_components_is_refused() {
    let d = sample();
    let comps = vec![PathComponent::ParentDir, PathComponent::Normal(w("Photos")), PathComponent::RootOrPrefix];
    assert_eq!(expect_err(resolve(&d, &d.root(), comps)), ItemByPathError::AbsolutePath);
    assert_eq!(d.calls.get(), 0);
}

#[test]
fn sub_folders_keep_order() {
    let mut d = Device::new();
    d.add("root", "a", "A", ObjectType::Folder);
    d.add("root", "b", "b.txt", ObjectType::File);
    d.add("root", "c", "C", ObjectType::Folder);
    let kids: Vec<Object<'_, Device>> = d.children[&w("root")].iter().map(|id| d.object(id).unwrap()).collect();
    let folders = Object::sub_folders(kids);
    let got: Vec<Vec<u16>> = folders.iter().map(|o| o.name().clone()).collect();
    assert_eq!(got, vec![w("A"), w("C")]);
}

#[test]
fn sub_folders_of_no_children_is_empty() {
    let folders: Vec<Object<'_, Device>> = Object::sub_folders(Vec::new());
    assert!(folders.is_empty());
}

#[test]
fn current_dir_keeps_identifier() {
    let d = sample();
    let photos = expect_ok(resolve(&d, &d.root(), names(&["Photos"])));
    let o = expect_ok(resolve(&d, &photos, vec![PathComponent::CurrentDir]));
    assert_eq!(o.id(), photos.id());
}

#[test]
fn current_dir_needs_no_remote_call() {
    let d = sample();
    let o = expect_ok(resolve(&d, &d.root(), vec![PathComponent::CurrentDir, PathComponent::CurrentDir]));
    assert_eq!(o.id(), &w("root"));
    assert_eq!(d.calls.get(), 0);
}

#[test]
fn parent_dir_is_lookup_of_parent_identifier() {
    let d = sample();
    let trip = expect_ok(resolve(&d, &d.root(), names(&["Photos", "trip.jpg"])));
    let o = expect_ok(resolve(&d, &trip, vec![PathComponent::ParentDir]));
    let direct = d.object(&w("o1")).unwrap();
    assert_eq!(o.id(), direct.id());
    assert_eq!(o.name(), direct.name());
}

#[test]
fn dot_dot_then_name() {
    let d = sample();
    let photos = expect_ok(resolve(&d, &d.root(), names(&["Photos"])));
    let comps = vec![PathComponent::ParentDir, PathComponent::CurrentDir, PathComponent::Normal(w("notes.txt"))];
    let o = expect_ok(resolve(&d, &photos, comps));
    assert_eq!(o.id(), &w("o2"));
}

#[test]
fn empty_path_is_not_found() {
    let d = sample();
    assert_eq!(expect_err(resolve(&d, &d.root(), Vec::new())), ItemByPathError::NotFound);
}

#[test]
fn first_of_equal_names_wins() {
    let mut d = Device::new();
    d.add("root", "x1", "same", ObjectType::File);
    d.add("root", "x2", "same", ObjectType::Folder);
    let o = expect_ok(resolve(&d, &d.root(), names(&["same"])));
    assert_eq!(o.id(), &w("x1"));
}

#[test]
fn names_match_exactly() {
    let d = sample();
    assert_eq!(expect_err(resolve(&d, &d.root(), names(&["photos"]))), ItemByPathError::NotFound);
}

#[test]
fn name_is_cut_at_first_nul() {
    let d = sample();
    let mut name = w("Photos");
    name.push(0);
    name.extend(w("junk"));
    let o = expect_ok(resolve(&d, &d.root(), vec![PathComponent::Normal(name)]));
    assert_eq!(o.id(), &w("o1"));
}

#[test]
fn parent_identifier_is_cut_at_first_nul() {
    let mut d = sample();
    let mut raw = w("o1");
    raw.push(0);
    raw.extend(w("zz"));
    d.objects.get_mut(&w("o3")).unwrap().parent = Some(raw);
    let trip = d.object(&w("o3")).unwrap();
    let o = expect_ok(resolve(&d, &trip, vec![PathComponent::ParentDir]));
    assert_eq!(o.id(), &w("o1"));
}

#[test]
fn unknown_parent_identifier_is_property_lookup_error() {
    let mut d = sample();
    d.objects.get_mut(&w("o3")).unwrap().parent = Some(w("gone"));
    let trip = d.object(&w("o3")).unwrap();
    assert_eq!(expect_err(resolve(&d, &trip, vec![PathComponent::ParentDir])), ItemByPathError::PropertyLookupError);
}

#[test]
fn enumeration_failure_is_enumeration_error() {
    let d = sample();
    // A file has no enumerable children here.
    assert_eq!(expect_err(resolve(&d, &d.root(), names(&["notes.txt", "x"]))), ItemByPathError::EnumerationError);
}

#[test]
fn scan_stops_at_first_match() {
    let mut d = Device::new();
    d.add("root", "a", "A", ObjectType::Folder);
    d.add("root", "b", "B", ObjectType::Folder);
    d.add("root", "c", "C", ObjectType::Folder);
    expect_ok(resolve(&d, &d.root(), names(&["A"])));
    assert_eq!(d.calls.get(), 1);
}

#[test]
fn child_sequence_yields_in_reported_order() {
    let d = sample();
    let root = d.root();
    let mut it = root.children();
    assert_eq!(it.parent(), &w("root"));
    let mut got: Vec<Vec<u16>> = Vec::new();
    for id in ["o1", "o2"] {
        let report = EnumerationReport::Child(w(id), Some((w("n"), ObjectType::File)));
        match it.next(report) {
            Some(Ok(o)) => got.push(o.id().clone()),
            _ => panic!("child not yielded"),
        }
    }
    assert!(it.next(EnumerationReport::End).is_none());
    assert!(it.finished());
    assert!(it.next(EnumerationReport::Child(w("o9"), Some((w("n"), ObjectType::File)))).is_none());
    assert_eq!(got, vec![w("o1"), w("o2")]);
}

#[test]
fn child_sequence_stops_after_failure() {
    let d = sample();
    let root = d.root();
    let mut it = root.children();
    match it.next(EnumerationReport::Failed) {
        Some(Err(e)) => assert_eq!(e, ItemByPathError::EnumerationError),
        _ => panic!("failure not surfaced"),
    }
    assert!(it.next(EnumerationReport::Child(w("o1"), Some((w("n"), ObjectType::Folder)))).is_none());
}

#[test]
fn child_property_failure_is_surfaced() {
    let d = sample();
    let root = d.root();
    let mut it = root.children();
    match it.next(EnumerationReport::Child(w("o1"), None)) {
        Some(Err(e)) => assert_eq!(e, ItemByPathError::PropertyLookupError),
        _ => panic!("failure not surfaced"),
    }
    assert!(it.finished());
}

#[test]
fn other_type_keeps_raw_code() {
    let d = Device::new();
    let o = Object::new(&d, w("z"), w("thing"), ObjectType::Other(0x27E2_E392_A111_48E0_AB0C_E177_05A0_5F85));
    assert_eq!(o.object_type(), ObjectType::Other(0x27E2_E392_A111_48E0_AB0C_E177_05A0_5F85));
    let copy = o.duplicate();
    assert_eq!(copy.id(), o.id());
    assert_eq!(copy.name(), o.name());
}

#[test]
fn content_type_codes_classify() {
    assert_eq!(ObjectType::from_content_type(0x27e2e392_a111_48e0_ab0c_e17705a05f85), ObjectType::Folder);
    assert_eq!(ObjectType::from_content_type(0x0085e0a6_8d34_45d7_bc5c_447e59c73d48), ObjectType::File);
    assert_eq!(ObjectType::from_content_type(7), ObjectType::Other(7));
}

#[test]
fn property_identifier_is_cut_at_first_nul() {
    let mut raw = w("o1");
    raw.push(0);
    raw.extend(w("zz"));
    assert_eq!(identifier_from_property(raw), w("o1"));
    assert_eq!(identifier_from_property(w("o7")), w("o7"));
    assert_eq!(identifier_from_property(Vec::new()), Vec::<u16>::new());
}
