use asset_manager::{
    AssetLoader, AssetManager, AssetReadStorage, AssetStore, Assets, DirectoryStore,
};

/// A directory without files.
#[allow(dead_code)]
struct NoFiles(DirectoryStore);

impl AssetStore for NoFiles {
    fn has_asset(&self, _: &str, _: &str) -> bool {
        false
    }

    fn load_asset(&self, _: &str, _: &str, _: &mut Vec<u8>) -> Option<usize> {
        None
    }
}

#[derive(PartialEq, Debug)]
struct Text(String);

#[derive(PartialEq, Debug)]
struct Count(usize);

impl AssetLoader<Text> for &'static str {
    fn from_data(_: &mut Assets, data: &'static str) -> Option<Text> {
        if data.is_empty() {
            None
        } else {
            Some(Text(data.to_string()))
        }
    }
}

impl AssetLoader<Count> for &'static str {
    fn from_data(_: &mut Assets, data: &'static str) -> Option<Count> {
        Some(Count(data.len()))
    }
}

fn manager() -> AssetManager {
    let mut assets = AssetManager::new(Vec::new(), None, NoFiles);
    assets.register_asset::<Text>();
    assets.register_asset::<Count>();
    assets
}

#[test]
fn loaded_asset_is_read_back() {
    let mut assets = manager();
    let id = assets.load_asset_from_data::<Text, _>("greeting", "hello").unwrap();
    assert_eq!(Some(id), assets.id_from_name("greeting"));
    assert_eq!(Some(&Text("hello".to_string())), assets.read_assets::<Text>().read(id));
}

#[test]
fn failed_load_leaves_no_name() {
    let mut assets = manager();
    assert_eq!(None, assets.load_asset_from_data::<Text, _>("nothing", ""));
    assert_eq!(None, assets.id_from_name("nothing"));
}

#[test]
fn unknown_name_has_no_id() {
    assert_eq!(None, manager().id_from_name("unknown"));
}

#[test]
fn first_asset_keeps_the_name() {
    let mut assets = manager();
    let first = assets.load_asset_from_data::<Text, _>("name", "first").unwrap();
    let second = assets.load_asset_from_data::<Text, _>("name", "second").unwrap();
    assert_eq!(first, second);
    assert_eq!(Some(&Text("first".to_string())), assets.read_assets::<Text>().read(first));
}

#[test]
fn name_is_shared_by_all_types() {
    let mut assets = manager();
    let text = assets.load_asset_from_data::<Text, _>("name", "first").unwrap();
    let count = assets.load_asset_from_data::<Count, _>("name", "first").unwrap();
    assert_eq!(text, count);
    assert_eq!(None, assets.read_assets::<Count>().read(count));
    assert_eq!(Some(&Text("first".to_string())), assets.read_assets::<Text>().read(text));
}

#[test]
fn names_have_different_ids() {
    let mut assets = manager();
    let a = assets.load_asset_from_data::<Text, _>("a", "x").unwrap();
    let b = assets.load_asset_from_data::<Text, _>("b", "x").unwrap();
    let c = assets.load_asset_from_data::<Count, _>("c", "x").unwrap();
    assert!(a != b && b != c && a != c);
}

#[test]
fn adding_keeps_other_assets() {
    let mut assets = manager();
    let a = assets.load_asset_from_data::<Text, _>("a", "one").unwrap();
    let b = assets.load_asset_from_data::<Count, _>("b", "three").unwrap();
    assert!(assets.load_asset_from_data::<Text, _>("c", "two").is_some());
    assert_eq!(Some(&Text("one".to_string())), assets.read_assets::<Text>().read(a));
    assert_eq!(Some(&Count(5)), assets.read_assets::<Count>().read(b));
    assert_eq!(Some(a), assets.id_from_name("a"));
    assert_eq!(Some(b), assets.id_from_name("b"));
}

#[test]
fn asset_of_another_type_is_not_read() {
    let mut assets = manager();
    let a = assets.load_asset_from_data::<Text, _>("a", "one").unwrap();
    assert_eq!(None, assets.read_assets::<Count>().read(a));
}

#[test]
fn registering_again_drops_the_assets_of_a_type() {
    let mut assets = manager();
    let a = assets.load_asset_from_data::<Text, _>("a", "one").unwrap();
    let b = assets.load_asset_from_data::<Count, _>("b", "three").unwrap();
    assets.register_asset::<Text>();
    assert_eq!(None, assets.read_assets::<Text>().read(a));
    assert_eq!(Some(&Count(5)), assets.read_assets::<Count>().read(b));
    assert_eq!(Some(a), assets.id_from_name("a"));
}

#[test]
fn name_keeps_its_id_under_all_operations() {
    let mut assets = manager();
    let a = assets.load_asset_from_data::<Text, _>("a", "one");
    assets.add_loader(1u8);
    *assets.get_loader_mut::<u8>().unwrap() = 2;
    assets.load_asset_from_data::<Count, _>("b", "one");
    assets.load_asset_from_data::<Text, _>("a", "");
    assets.load_asset_from_data::<Text, _>("a", "two");
    assets.register_asset::<Text>();
    assets.register_store(NoFiles(DirectoryStore::new("dir".into())));
    assert!(a.is_some());
    assert_eq!(a, assets.id_from_name("a"));
    assert_eq!(None, assets.id_from_name("A"));
}
