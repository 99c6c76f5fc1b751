use asset_manager::{
    texture_data, AaMode, AssetLoaderRaw, AssetManager, AssetReadStorage, AssetStore,
    DirectoryStore, Kind, Mesh, MeshVertex, Texture, TextureLoadData,
};
use imagefmt::{ColFmt, ColType, Image};

/// A directory without files.
#[allow(dead_code)]
struct NoFiles(DirectoryStore);

impl AssetStore for NoFiles {
    fn has_asset(&self, _: &str, _: &str) -> bool {
        false
    }

    fn load_asset(&self, _: &str, _: &str, _: &mut Vec<u8>) -> Option<usize> {
        None
    }
}

/// Two pixels, one above the other.
const SAMPLES: [u8; 8] = [10, 20, 30, 255, 40, 50, 60, 70];

fn tga() -> Vec<u8> {
    let mut data = Vec::new();
    imagefmt::tga::write(&mut data, 1, 2, ColFmt::RGBA, &SAMPLES, ColType::ColorAlpha, None)
        .unwrap();
    data
}

fn png() -> Vec<u8> {
    let mut data = Vec::new();
    imagefmt::png::write(&mut data, 1, 2, ColFmt::RGBA, &SAMPLES, ColType::ColorAlpha, None)
        .unwrap();
    data
}

fn load(asset_type: &str, data: &[u8]) -> Option<Texture> {
    let mut assets = AssetManager::new(Vec::new(), None, NoFiles);
    let id = assets.load_asset_from_raw::<Texture>("texture", asset_type, data)?;
    let textures = assets.read_assets::<Texture>();
    textures.read(id).map(|texture| texture.clone())
}

#[test]
fn images_become_textures() {
    for (asset_type, data) in vec![("tga", tga()), ("png", png())] {
        let texture = load(asset_type, &data).unwrap();
        assert_eq!(Kind::D2(1, 2, AaMode::Single), texture.kind);
        assert_eq!(vec![vec![[10, 20, 30, 255], [40, 50, 60, 70]]], texture.levels);
    }
}

#[test]
fn image_without_alpha_is_opaque() {
    let mut data = Vec::new();
    imagefmt::bmp::write(&mut data, 1, 1, ColFmt::RGB, &[1, 2, 3], ColType::Color, None).unwrap();
    assert_eq!(vec![vec![[1, 2, 3, 255]]], load("bmp", &data).unwrap().levels);
}

#[test]
fn format_is_told_by_the_data() {
    assert!(load("jpg", &tga()).is_some());
    assert!(load("jpeg", &png()).is_some());
}

#[test]
fn unknown_data_is_no_texture() {
    assert!(load("tga", &[]).is_none());
    assert!(load("png", b"what is this, and why is it here?").is_none());
}

#[test]
fn truncated_data_is_no_texture() {
    let data = tga();
    assert!(load("tga", &data[..20]).is_none());
    assert!(load("tga", &data[..10]).is_none());
}

#[test]
fn raw_data_is_decoded() {
    let image = Image::from_raw(&AssetManager::new(Vec::new(), None, NoFiles), &tga()).unwrap();
    assert_eq!((1, 2), (image.w, image.h));
    assert_eq!(ColFmt::RGBA, image.fmt);
    assert_eq!(SAMPLES.to_vec(), image.buf);
}

#[test]
fn dimensions_are_truncated() {
    let image = Image { w: 0x1_0003, h: 0x2_0000, fmt: ColFmt::RGBA, buf: vec![1, 2, 3, 4] };
    let data = texture_data(&image);
    assert_eq!(Kind::D2(3, 0, AaMode::Single), data.kind);
    assert_eq!(vec![vec![[1, 2, 3, 4]]], data.raw);
}

fn texture(shade: u8) -> TextureLoadData {
    TextureLoadData { kind: Kind::D2(1, 1, AaMode::Single), raw: vec![vec![[shade; 4]]] }
}

fn manager() -> AssetManager {
    let mut assets = AssetManager::new(Vec::new(), None, NoFiles);
    assets.load_asset_from_raw::<Mesh>("mesh", "obj", b"o a\nv 1 2 3\nf 1\n").unwrap();
    assets.load_asset_from_data::<Texture, _>("ka", texture(1)).unwrap();
    assets.load_asset_from_data::<Texture, _>("kd", texture(2)).unwrap();
    assets.load_asset_from_data::<Texture, _>("ks", texture(3)).unwrap();
    assets
}

fn renders(assets: &AssetManager, names: [&str; 4]) -> bool {
    assets
        .create_renderable::<Mesh, Texture, f32>(names[0], names[1], names[2], names[3], 0.5)
        .is_some()
}

#[test]
fn renderable_has_all_parts() {
    let renderable = manager()
        .create_renderable::<Mesh, Texture, f32>("mesh", "ka", "kd", "ks", 0.5)
        .unwrap();
    assert_eq!(1, renderable.mesh.vertices.len());
    assert_eq!(2.0, renderable.mesh.vertices[0].pos.y);
    assert_eq!(vec![vec![[1; 4]]], renderable.ambient.levels);
    assert_eq!(vec![vec![[2; 4]]], renderable.diffuse.levels);
    assert_eq!(vec![vec![[3; 4]]], renderable.specular.levels);
    assert_eq!(0.5, renderable.specular_exponent);
}

#[test]
fn renderable_needs_all_parts() {
    let assets = manager();
    assert!(renders(&assets, ["mesh", "ka", "ka", "ka"]));
    assert!(!renders(&assets, ["none", "ka", "kd", "ks"]));
    assert!(!renders(&assets, ["mesh", "none", "kd", "ks"]));
    assert!(!renders(&assets, ["mesh", "ka", "none", "ks"]));
    assert!(!renders(&assets, ["mesh", "ka", "kd", "none"]));
}

#[test]
fn renderable_needs_parts_of_the_right_type() {
    let assets = manager();
    assert!(!renders(&assets, ["ka", "ka", "kd", "ks"]));
    assert!(!renders(&assets, ["mesh", "mesh", "kd", "ks"]));
    assert!(!renders(&assets, ["mesh", "ka", "mesh", "ks"]));
    assert!(!renders(&assets, ["mesh", "ka", "kd", "mesh"]));
}

#[test]
fn mesh_can_be_made_of_vertices() {
    let mut assets = AssetManager::new(Vec::new(), None, NoFiles);
    let vertices: Vec<MeshVertex> = Vec::new();
    let id = assets.load_asset_from_data::<Mesh, Vec<MeshVertex>>("mesh", vertices).unwrap();
    assert_eq!(0, assets.read_assets::<Mesh>().read(id).unwrap().vertices.len());
}
