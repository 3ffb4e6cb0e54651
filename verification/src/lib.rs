//! A data-driven prototype registry for an entity-component-system game
//! engine.
//!
//! Game objects are described in human-editable manifest files. Parsed
//! manifests ("manifest collections") are reified into in-memory descriptors
//! ("prototypes") and stored in a typed [`PrototypeLibrary`], keyed by a
//! stable hash-based [`Id`]. A [`ManifestLoader`] tracks every manifest kind
//! through its load / process lifecycle, and a rebuild dispatcher re-applies
//! reloaded prototypes to live entities.
//!
//! The engine itself (asset server, command buffers, schedulers) is an
//! external collaborator: this crate holds the registries and the lifecycle
//! state machine, and an embedding binds them to the engine.

pub mod hot_reload;
pub mod id;
pub mod keymap;
pub mod manifest_collection;
pub mod manifest_format;
pub mod manifest_loader;
pub mod manifest_trait;
pub mod prototype_library;
pub mod prototype_trait;
pub mod schedule;
pub mod systems;

pub use hot_reload::{RebuildSystems, SystemRef};
pub use id::Id;
pub use keymap::KeyMap;
pub use manifest_collection::ManifestCollection;
pub use manifest_format::ManifestFormat;
pub use manifest_loader::{AssetHandle, LoaderError, ManifestLoader, Progress, TypeKey};
pub use manifest_trait::{AccessManifestFormat, Manifest};
pub use prototype_library::{LibraryError, PrototypeLibrary};
pub use prototype_trait::{FromPrototype, NameChars, Prototype};
pub use schedule::ProtoSchedule;
pub use systems::{AssetEventKind, SpawnPoll};
