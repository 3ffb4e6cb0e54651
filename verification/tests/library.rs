use rantz_proto::{Manifest, ManifestFormat, Prototype, PrototypeLibrary};

#[derive(Debug, Clone)]
struct TestProto {
    i: i32,
}

impl Prototype for TestProto {
    fn spec_name(&self) -> rantz_proto::NameChars {
        unreachable!()
    }

    fn clone_preserves_value(_: Self, _: Self) {}

    fn name(&self) -> String {
        format!("TestProto({})", self.i)
    }
}

#[derive(Clone)]
struct TestManifest {
    i: usize,
}

impl Manifest for TestManifest {
    type Output = TestProto;

    fn spec_format() -> ManifestFormat {
        unreachable!()
    }

    fn spec_reify(&self) -> TestProto {
        unreachable!()
    }

    fn format() -> ManifestFormat {
        ManifestFormat::Ron
    }

    fn reify(&self) -> TestProto {
        TestProto { i: self.i as i32 }
    }
}

#[test]
fn mod_reify_manifest_to_prototype() {
    let manifest = TestManifest { i: 0 };
    let proto = manifest.reify();
    assert_eq!(proto.i, 0);
}

#[test]
fn mod_prototype_library_should_start_empty() {
    let library = PrototypeLibrary::<TestProto>::new();
    assert!(library.is_empty());
}

#[test]
fn can_insert_prototype_into_library() {
    let mut library = PrototypeLibrary::<TestProto>::new();

    let proto = TestProto { i: 0 };
    let id = library.insert(proto);

    assert!(id.is_ok());
}

#[test]
fn can_get_prototype_from_library() {
    let mut library = PrototypeLibrary::<TestProto>::new();

    let proto = TestProto { i: 0 };
    let id = library.insert(proto);

    assert!(id.is_ok());

    let id = id.unwrap();
    let proto = library.get(&id);
    assert!(proto.is_some());
    assert_eq!(proto.unwrap().i, 0);
}

#[test]
fn can_get_prototype_from_library_by_name() {
    let mut library = PrototypeLibrary::<TestProto>::new();
    let proto = TestProto { i: 0 };
    let name = proto.name();
    let _ = library.insert(proto);
    let proto = library.get_by_name(&name);
    assert!(proto.is_some());
    assert_eq!(proto.unwrap().i, 0);
}

#[test]
fn can_mutate_prototype_in_library() {
    let mut library = PrototypeLibrary::<TestProto>::new();

    let proto = TestProto { i: 0 };
    let id = library.insert(proto);

    assert!(id.is_ok());

    let id = id.unwrap();
    let proto = library.get_mut(&id);
    assert!(proto.is_some());

    let proto = proto.unwrap();
    proto.i = 1;

    let proto = library.get(&id);
    assert!(proto.is_some());
    assert_eq!(proto.unwrap().i, 1);
}

#[test]
fn can_mutate_prototype_in_library_by_name() {
    let mut library = PrototypeLibrary::<TestProto>::new();

    let proto = TestProto { i: 0 };
    let name = proto.name();
    let _ = library.insert(proto);
    let proto = library.get_mut_by_name(&name);
    assert!(proto.is_some());

    let proto = proto.unwrap();
    proto.i = 1;

    let proto = library.get_mut_by_name(&name);
    assert!(proto.is_some());
    assert_eq!(proto.unwrap().i, 1);
}

#[test]
fn can_remove_prototype_from_library() {
    let mut library = PrototypeLibrary::<TestProto>::new();

    let proto = TestProto { i: 0 };
    let id = library.insert(proto);

    assert!(id.is_ok());

    let id = id.unwrap();
    let proto = library.remove(&id);
    assert!(proto.is_ok());
    assert_eq!(proto.unwrap().i, 0);
    assert!(library.is_empty());
}

#[test]
fn can_remove_prototype_from_library_by_name() {
    let mut library = PrototypeLibrary::<TestProto>::new();
    let proto = TestProto { i: 0 };
    let name = proto.name();
    let _ = library.insert(proto);
    let proto = library.remove_by_name(&name);
    assert!(proto.is_ok());
    assert_eq!(proto.unwrap().i, 0);
    assert!(library.is_empty());
}

#[test]
fn mod_clear_prototype_library() {
    let mut library = PrototypeLibrary::<TestProto>::new();
    assert!(library.is_empty());

    let proto = TestProto { i: 0 };
    let _ = library.insert(proto);
    assert!(!library.is_empty());

    library.clear();
    assert!(library.is_empty());
}

#[test]
fn can_access_library_as_resource() {
    let mut library = PrototypeLibrary::<TestProto>::new();
    assert!(library.is_empty());

    let proto = TestProto { i: 0 };
    let _ = library.insert(proto);
    assert!(!library.is_empty());

    library.clear();
    assert!(library.is_empty());
}

#[test]
fn prototype_and_manifest_reify_manifest_to_prototype() {
    let manifest = TestManifest { i: 0 };
    let proto = manifest.reify();
    assert_eq!(proto.i, 0);
}
