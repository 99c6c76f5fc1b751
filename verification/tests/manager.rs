use asset_manager::{
    same_type, AssetLoader, AssetLoaderRaw, AssetManager, AssetStore, Assets, DirectoryStore, Mesh,
    Texture,
};

/// A directory without files.
#[allow(dead_code)]
struct NoFiles(DirectoryStore);

impl AssetStore for NoFiles {
    fn has_asset(&self, _: &str, _: &str) -> bool {
        false
    }

    fn load_asset(&self, _: &str, _: &str, _: &mut Vec<u8>) -> Option<usize> {
        None
    }
}

#[derive(PartialEq, Debug)]
struct Foo;
struct FooLoader;

impl AssetLoader<Foo> for u32 {
    fn from_data(_: &mut Assets, x: u32) -> Option<Foo> {
        if x == 10 {
            Some(Foo)
        } else {
            None
        }
    }
}

/// A number that comes from raw data.
struct Number(u32);

impl AssetLoader<Foo> for Number {
    fn from_data(assets: &mut Assets, x: Number) -> Option<Foo> {
        AssetLoader::<Foo>::from_data(assets, x.0)
    }
}

impl AssetLoaderRaw for Number {
    fn from_raw(assets: &Assets, _: &[u8]) -> Option<Number> {
        let _ = assets.get_loader::<FooLoader>();
        Some(Number(10))
    }
}

#[test]
fn loader_resource() {
    let mut assets = AssetManager::new(Vec::new(), None, NoFiles);
    assets.add_loader(0.0f32);
    assert_eq!(Some(&0.0f32), assets.get_loader::<f32>());
}

#[test]
fn load_custom_asset() {
    let mut assets = AssetManager::new(Vec::new(), None, NoFiles);
    assets.register_asset::<Foo>();
    assets.register_loader::<Foo, Number>("foo");
    assets.add_loader::<FooLoader>(FooLoader);

    assert!(assets.load_asset_from_raw::<Foo>("asset01", "foo", &[0; 2]).is_some());
    assert_eq!(None, assets.load_asset_from_data::<Foo, u32>("foo", 2));
}

#[test]
fn load_duplicated_asset() {
    let mut assets = AssetManager::new(Vec::new(), None, NoFiles);
    assets.register_asset::<Foo>();
    assets.register_loader::<Foo, Number>("foo");
    assets.add_loader::<FooLoader>(FooLoader);

    let asset01 = assets.load_asset_from_raw::<Foo>("asset01", "foo", &[0; 2]);
    assert_eq!(asset01, assets.load_asset_from_raw::<Foo>("asset01", "foo", &[0; 2]));
}

#[test]
fn last_loader_resource_wins() {
    let mut assets = AssetManager::new(Vec::new(), None, NoFiles);
    assets.add_loader(1u8);
    assets.add_loader(2u16);
    assets.add_loader(3u8);
    assert_eq!(Some(&3u8), assets.get_loader::<u8>());
    assert_eq!(Some(&2u16), assets.get_loader::<u16>());
    assert_eq!(None, assets.get_loader::<u32>());
}

#[test]
fn loader_resource_can_be_changed() {
    let mut assets = AssetManager::new(Vec::new(), None, NoFiles);
    assert!(assets.get_loader_mut::<String>().is_none());
    assets.add_loader(String::from("a"));
    assets.get_loader_mut::<String>().unwrap().push('b');
    assert_eq!(Some(&String::from("ab")), assets.get_loader::<String>());
}

#[test]
fn loader_sees_resources() {
    struct Limit(u32);
    struct Bounded(u32);
    #[derive(PartialEq, Debug)]
    struct Small(u32);

    impl AssetLoader<Small> for Bounded {
        fn from_data(assets: &mut Assets, x: Bounded) -> Option<Small> {
            let limit = assets.get_loader_mut::<Limit>()?;
            if x.0 > limit.0 {
                return None;
            }
            limit.0 -= x.0;
            Some(Small(x.0))
        }
    }

    let mut assets = AssetManager::new(Vec::new(), None, NoFiles);
    assets.register_asset::<Small>();
    assert_eq!(None, assets.load_asset_from_data::<Small, Bounded>("a", Bounded(1)));
    assets.add_loader(Limit(3));
    assert!(assets.load_asset_from_data::<Small, Bounded>("a", Bounded(2)).is_some());
    assert_eq!(None, assets.load_asset_from_data::<Small, Bounded>("b", Bounded(2)));
    assert_eq!(1, assets.get_loader::<Limit>().unwrap().0);
}

#[test]
fn types_are_told_apart() {
    assert!(same_type::<Mesh, Mesh>());
    assert!(!same_type::<Mesh, Texture>());
}
