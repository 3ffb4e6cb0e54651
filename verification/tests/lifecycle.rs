use rantz_proto::{
    AccessManifestFormat, AssetEventKind, AssetHandle, FromPrototype, Id, KeyMap, LoaderError,
    Manifest, ManifestCollection, ManifestFormat, ManifestLoader, Prototype, PrototypeLibrary,
    ProtoSchedule, RebuildSystems, SpawnPoll, SystemRef, TypeKey,
};
use rantz_proto::hot_reload::rebuild_plan;
use rantz_proto::systems::{select_finished, track_asset};

#[derive(Debug, Clone)]
struct TestProto {
    i: i32,
}

impl Prototype for TestProto {
    fn spec_name(&self) -> rantz_proto::NameChars {
        unreachable!()
    }

    fn clone_preserves_value(_: Self, _: Self) {}

    fn name(&self) -> String {
        format!("TestProto({})", self.i)
    }
}

#[derive(Clone)]
struct TestManifest {
    i: usize,
}

impl Manifest for TestManifest {
    type Output = TestProto;

    fn spec_format() -> ManifestFormat {
        unreachable!()
    }

    fn spec_reify(&self) -> TestProto {
        unreachable!()
    }

    fn format() -> ManifestFormat {
        ManifestFormat::Ron
    }

    fn reify(&self) -> TestProto {
        TestProto { i: self.i as i32 }
    }
}

const KEY: TypeKey = TypeKey { raw: 11 };

#[test]
fn loader_walks_register_load_process() {
    let mut loader = ManifestLoader::new();
    let mut library = PrototypeLibrary::<TestProto>::new();

    assert_eq!(loader.progress().total, 0);
    assert!(!loader.is_loaded(KEY));
    assert!(loader.needs_load(KEY).is_none());

    loader.register(KEY, "items.ron".to_string());
    assert_eq!(loader.progress().total, 2);
    assert_eq!(loader.progress().done, 0);
    assert_eq!(loader.needs_load(KEY).unwrap().as_str(), "items.ron");
    assert!(!loader.is_loaded(KEY));

    let handle = AssetHandle { token: 42 };
    assert!(loader.load(KEY, handle).is_ok());
    assert!(loader.is_loaded(KEY));
    assert!(loader.needs_load(KEY).is_none());
    assert_eq!(loader.progress().done, 1);

    let collection = ManifestCollection {
        prototypes: vec![TestManifest { i: 0 }, TestManifest { i: 1 }],
    };
    loader.process(KEY, &collection, &mut library);
    assert_eq!(library.len(), 2);
    assert_eq!(loader.progress().done, 2);
    assert_eq!(loader.progress().total, 2);
    assert!(loader.is_loaded(KEY));
}

#[test]
fn load_without_register_reports_missing_path() {
    let mut loader = ManifestLoader::new();
    let unregistered = TypeKey { raw: 99 };
    let outcome = loader.load(unregistered, AssetHandle { token: 1 });
    assert!(matches!(outcome, Err(LoaderError::MissingPath)));
    assert!(!loader.is_loaded(unregistered));
    assert_eq!(loader.progress().done, 0);
}

#[test]
fn track_asset_repopulates_library_on_each_reload() {
    let mut loader = ManifestLoader::new();
    let mut library = PrototypeLibrary::<TestProto>::new();

    loader.register(KEY, "items.ron".to_string());
    loader.load(KEY, AssetHandle { token: 7 }).unwrap();

    // First reload event: three entries with distinct names.
    let collection = ManifestCollection {
        prototypes: vec![
            TestManifest { i: 0 },
            TestManifest { i: 1 },
            TestManifest { i: 2 },
        ],
    };
    let events = vec![
        AssetEventKind::Added,
        AssetEventKind::LoadedWithDependencies,
    ];
    let reprocessed = track_asset(&events, KEY, &collection, &mut loader, &mut library);
    assert!(reprocessed);
    assert_eq!(library.len(), 3);
    assert_eq!(library.get_by_name("TestProto(2)").unwrap().i, 2);

    // Second reload event on a file with a single entry: the library is
    // cleared and repopulated, mirroring the new file.
    let collection = ManifestCollection {
        prototypes: vec![TestManifest { i: 5 }],
    };
    let events = vec![AssetEventKind::LoadedWithDependencies];
    let reprocessed = track_asset(&events, KEY, &collection, &mut loader, &mut library);
    assert!(reprocessed);
    assert_eq!(library.len(), 1);
    assert!(library.get_by_name("TestProto(2)").is_none());
    assert_eq!(library.get_by_name("TestProto(5)").unwrap().i, 5);
}

#[test]
fn track_asset_without_load_event_changes_nothing() {
    let mut loader = ManifestLoader::new();
    let mut library = PrototypeLibrary::<TestProto>::new();
    library.insert(TestProto { i: 9 }).unwrap();

    let collection = ManifestCollection {
        prototypes: vec![TestManifest { i: 0 }],
    };
    let events = vec![AssetEventKind::Modified, AssetEventKind::Removed];
    let reprocessed = track_asset(&events, KEY, &collection, &mut loader, &mut library);
    assert!(!reprocessed);
    assert_eq!(library.len(), 1);
    assert_eq!(library.get_by_name("TestProto(9)").unwrap().i, 9);
}

#[test]
fn duplicate_names_keep_first_entry_on_process() {
    let mut loader = ManifestLoader::new();
    let mut library = PrototypeLibrary::<TestProto>::new();
    loader.register(KEY, "items.ron".to_string());
    loader.load(KEY, AssetHandle { token: 7 }).unwrap();

    // Two entries reify to the same name: the second is skipped.
    let collection = ManifestCollection {
        prototypes: vec![
            TestManifest { i: 3 },
            TestManifest { i: 3 },
            TestManifest { i: 4 },
        ],
    };
    loader.process(KEY, &collection, &mut library);
    assert_eq!(library.len(), 2);
    assert_eq!(library.get_by_name("TestProto(3)").unwrap().i, 3);
}

#[test]
fn select_finished_drains_exactly_finished_tasks() {
    let polls = vec![
        SpawnPoll { entity: 1, finished: true },
        SpawnPoll { entity: 2, finished: false },
        SpawnPoll { entity: 3, finished: true },
        SpawnPoll { entity: 4, finished: false },
    ];
    let drained = select_finished(&polls);
    assert_eq!(drained, vec![1u64, 3u64]);

    let none_pending: Vec<SpawnPoll> = Vec::new();
    assert!(select_finished(&none_pending).is_empty());
}

#[test]
fn rebuild_plan_reapplies_current_entries_to_tagged_entities() {
    let mut library = PrototypeLibrary::<TestProto>::new();
    let id = library.insert(TestProto { i: 0 }).unwrap();

    // Entity 10 was spawned from the prototype; entity 20 carries a tag
    // whose id has no entry any more.
    let stale = Id::from_name("TestProto(77)");
    let tagged = vec![(10u64, FromPrototype(id)), (20u64, FromPrototype(stale))];

    // A reload replaced the entry under the same name with new contents.
    library.get_mut(&id).unwrap().i = 1;

    let plan = rebuild_plan(&tagged, &library);
    assert_eq!(plan.len(), 1);
    assert_eq!(plan[0].0, 10);
    assert_eq!(plan[0].1.i, 1);
}

#[test]
fn rebuild_systems_record_one_operation_per_kind() {
    let mut dispatcher = RebuildSystems::new();
    let kind = TypeKey { raw: 5 };
    assert!(dispatcher.lookup(kind).is_none());

    dispatcher.register(kind, SystemRef { raw: 31 });
    assert_eq!(dispatcher.lookup(kind).unwrap(), SystemRef { raw: 31 });

    dispatcher.register(kind, SystemRef { raw: 32 });
    assert_eq!(dispatcher.lookup(kind).unwrap(), SystemRef { raw: 32 });
    assert!(dispatcher.lookup(TypeKey { raw: 6 }).is_none());
}

#[test]
fn loading_phase_precedes_spawning() {
    assert!(ProtoSchedule::Loading.runs_before(&ProtoSchedule::Spawning));
    assert!(!ProtoSchedule::Spawning.runs_before(&ProtoSchedule::Loading));
    assert!(!ProtoSchedule::Loading.runs_before(&ProtoSchedule::Loading));
    assert!(!ProtoSchedule::Spawning.runs_before(&ProtoSchedule::Spawning));
}

#[test]
fn collection_reports_entry_kind_format() {
    assert_eq!(
        <ManifestCollection<TestManifest> as AccessManifestFormat>::manifest_format(),
        ManifestFormat::Ron
    );
    assert_eq!(
        <TestManifest as AccessManifestFormat>::manifest_format(),
        ManifestFormat::Ron
    );
}

#[test]
fn collection_keeps_file_order() {
    let collection = ManifestCollection {
        prototypes: vec![TestManifest { i: 4 }, TestManifest { i: 2 }],
    };
    assert_eq!(collection.len(), 2);
    assert_eq!(collection.entry(0).i, 4);
    assert_eq!(collection.entry(1).i, 2);
    let empty = ManifestCollection::<TestManifest>::new();
    assert_eq!(empty.len(), 0);
}

#[test]
fn keymap_tracks_its_entries() {
    let mut map = KeyMap::<i32>::new();
    assert!(map.is_empty());
    assert!(!map.contains_key(8));

    map.insert(8, 80);
    map.insert(9, 90);
    assert_eq!(map.len(), 2);
    assert_eq!(*map.get(8).unwrap(), 80);

    map.insert(8, 81);
    assert_eq!(map.len(), 2);
    assert_eq!(*map.get(8).unwrap(), 81);

    assert_eq!(*map.first().unwrap(), 81);
    assert_eq!(*map.last().unwrap(), 90);

    assert_eq!(map.remove(8), Some(81));
    assert_eq!(map.remove(8), None);
    assert_eq!(map.len(), 1);

    map.clear();
    assert!(map.is_empty());
}
