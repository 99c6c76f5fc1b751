use asset_manager::{
    default_stores, AssetLoader, AssetLoaderRaw, AssetManager, AssetReadStorage, AssetStore, Assets,
    DirectoryStore,
};
use std::path::PathBuf;

/// A directory without files.
#[allow(dead_code)]
struct NoFiles(DirectoryStore);

impl AssetStore for NoFiles {
    fn has_asset(&self, _: &str, _: &str) -> bool {
        false
    }

    fn load_asset(&self, _: &str, _: &str, _: &mut Vec<u8>) -> Option<usize> {
        None
    }
}

#[derive(PartialEq, Debug)]
struct Bytes(Vec<u8>);

struct Forward(Vec<u8>);

struct Backward(Vec<u8>);

impl AssetLoaderRaw for Forward {
    fn from_raw(_: &Assets, data: &[u8]) -> Option<Forward> {
        if data == &b"bad"[..] {
            None
        } else {
            Some(Forward(data.to_vec()))
        }
    }
}

impl AssetLoader<Bytes> for Forward {
    fn from_data(_: &mut Assets, data: Forward) -> Option<Bytes> {
        Some(Bytes(data.0))
    }
}

impl AssetLoaderRaw for Backward {
    fn from_raw(_: &Assets, data: &[u8]) -> Option<Backward> {
        Some(Backward(data.iter().rev().cloned().collect()))
    }
}

impl AssetLoader<Bytes> for Backward {
    fn from_data(_: &mut Assets, data: Backward) -> Option<Bytes> {
        Some(Bytes(data.0))
    }
}

/// Holds one asset, or reports to hold it without being able to hand it out.
struct Single {
    name: &'static str,
    asset_type: &'static str,
    data: Option<&'static [u8]>,
}

impl AssetStore for Single {
    fn has_asset(&self, name: &str, asset_type: &str) -> bool {
        name == self.name && asset_type == self.asset_type
    }

    fn load_asset(&self, _: &str, _: &str, buf: &mut Vec<u8>) -> Option<usize> {
        let data = self.data?;
        buf.extend_from_slice(data);
        Some(data.len())
    }
}

fn manager() -> AssetManager {
    let mut assets = AssetManager::new(Vec::new(), None, NoFiles);
    assets.register_asset::<Bytes>();
    assets.register_loader::<Bytes, Forward>("fwd");
    assets.register_loader::<Bytes, Backward>("bwd");
    assets
}

fn single(name: &'static str, asset_type: &'static str, data: &'static [u8]) -> Single {
    Single { name, asset_type, data: Some(data) }
}

fn bytes(assets: &AssetManager, name: &str) -> Option<Vec<u8>> {
    let id = assets.id_from_name(name)?;
    assets.read_assets::<Bytes>().read(id).map(|bytes| bytes.0.clone())
}

#[test]
fn asset_type_picks_the_loading_method() {
    let mut assets = manager();
    assert!(assets.load_asset_from_raw::<Bytes>("a", "fwd", &[1, 2]).is_some());
    assert!(assets.load_asset_from_raw::<Bytes>("b", "bwd", &[1, 2]).is_some());
    assert_eq!(Some(vec![1, 2]), bytes(&assets, "a"));
    assert_eq!(Some(vec![2, 1]), bytes(&assets, "b"));
}

#[test]
fn last_loading_method_wins() {
    let mut assets = manager();
    assets.register_loader::<Bytes, Backward>("fwd");
    assets.load_asset_from_raw::<Bytes>("a", "fwd", &[1, 2]);
    assert_eq!(Some(vec![2, 1]), bytes(&assets, "a"));
}

#[test]
fn unreadable_raw_data_loads_nothing() {
    let mut assets = manager();
    assert_eq!(None, assets.load_asset_from_raw::<Bytes>("a", "fwd", b"bad"));
    assert_eq!(None, assets.id_from_name("a"));
}

#[test]
fn stores_are_searched_in_order() {
    let mut assets = manager();
    assets.register_store(single("b", "fwd", &[9]));
    assets.register_store(single("a", "fwd", &[1]));
    assets.register_store(single("a", "fwd", &[2]));
    assert!(assets.load_asset::<Bytes>("a", "fwd").is_some());
    assert_eq!(Some(vec![1]), bytes(&assets, "a"));
}

#[test]
fn missing_asset_loads_nothing() {
    let mut assets = manager();
    assert_eq!(None, assets.load_asset::<Bytes>("a", "fwd"));
    assets.register_store(single("a", "bwd", &[1]));
    assert_eq!(None, assets.load_asset::<Bytes>("a", "fwd"));
    assert_eq!(None, assets.id_from_name("a"));
}

#[test]
fn missing_asset_needs_no_loading_method() {
    let mut assets = manager();
    assert_eq!(None, assets.load_asset::<Bytes>("a", "unknown"));
}

#[test]
fn failure_of_a_store_leaves_no_data() {
    let mut assets = manager();
    assets.register_store(Single { name: "a", asset_type: "fwd", data: None });
    assets.register_store(single("a", "fwd", &[2]));
    assert!(assets.load_asset::<Bytes>("a", "fwd").is_some());
    assert_eq!(Some(vec![]), bytes(&assets, "a"));
}

#[test]
fn directory_store_names_files() {
    let store = DirectoryStore::new(PathBuf::from("dir"));
    let path = store.asset_to_path("crate.v2", "obj");
    assert_eq!(PathBuf::from("dir").join("crate.v2.obj"), path);
}

#[test]
fn default_stores_are_in_order() {
    let dirs = vec![PathBuf::from("a"), PathBuf::from("b")];
    let stores = default_stores(dirs, Some("bin"));
    let paths: Vec<PathBuf> = stores.iter().map(|store| store.asset_to_path("x", "y")).collect();
    assert_eq!(
        vec![
            PathBuf::from("a/x.y"),
            PathBuf::from("b/x.y"),
            PathBuf::from("bin/resources/assets/x.y"),
        ],
        paths
    );
}

#[test]
fn unknown_executable_has_no_store() {
    assert_eq!(0, default_stores(Vec::new(), None).len());
}

/// A directory in which every file holds its own path, but for directories named `a`.
struct Listing(DirectoryStore);

impl AssetStore for Listing {
    fn has_asset(&self, name: &str, asset_type: &str) -> bool {
        !self.0.asset_to_path(name, asset_type).starts_with("a")
    }

    fn load_asset(&self, name: &str, asset_type: &str, buf: &mut Vec<u8>) -> Option<usize> {
        let path = self.0.asset_to_path(name, asset_type).display().to_string();
        buf.extend_from_slice(path.as_bytes());
        Some(path.len())
    }
}

fn listed(dirs: &[&str], exe_dir: Option<&str>) -> Option<Vec<u8>> {
    let dirs = dirs.iter().map(PathBuf::from).collect();
    let mut assets = AssetManager::new(dirs, exe_dir, Listing);
    assets.register_asset::<Bytes>();
    assets.register_loader::<Bytes, Forward>("fwd");
    assets.load_asset::<Bytes>("x", "fwd")?;
    bytes(&assets, "x")
}

#[test]
fn new_manager_searches_the_default_directories() {
    assert_eq!(Some(b"b/x.fwd".to_vec()), listed(&["a", "b", "c"], Some("bin")));
    assert_eq!(Some(b"bin/resources/assets/x.fwd".to_vec()), listed(&["a"], Some("bin")));
    assert_eq!(None, listed(&["a"], None));
}

#[test]
fn names_keep_their_loading_methods() {
    let mut assets = manager();
    assets.register_loader::<Bytes, Forward>("t");
    assets.register_loader::<Bytes, Backward>("t");
    assets.register_loader::<Bytes, Forward>("u");
    assets.load_asset_from_raw::<Bytes>("a", "t", &[1, 2]);
    assets.load_asset_from_raw::<Bytes>("b", "u", &[1, 2]);
    assert_eq!(Some(vec![2, 1]), bytes(&assets, "a"));
    assert_eq!(Some(vec![1, 2]), bytes(&assets, "b"));
}
