use asset_manager::{
    AssetLoaderRaw, AssetManager, AssetReadStorage, AssetStore, DirectoryStore, Mesh, MeshVertex,
};
use wavefront_obj::obj::{ObjSet, Primitive};

/// A directory without files.
#[allow(dead_code)]
struct NoFiles(DirectoryStore);

impl AssetStore for NoFiles {
    fn has_asset(&self, _: &str, _: &str) -> bool {
        false
    }

    fn load_asset(&self, _: &str, _: &str, _: &mut Vec<u8>) -> Option<usize> {
        None
    }
}

fn load(text: &[u8]) -> Option<Vec<MeshVertex>> {
    let mut assets = AssetManager::new(Vec::new(), None, NoFiles);
    let id = assets.load_asset_from_raw::<Mesh>("mesh", "obj", text)?;
    let meshes = assets.read_assets::<Mesh>();
    meshes.read(id).map(|mesh| mesh.clone().vertices)
}

fn positions(vertices: &[MeshVertex]) -> Vec<[f64; 3]> {
    vertices.iter().map(|v| [v.pos.x, v.pos.y, v.pos.z]).collect()
}

#[test]
fn triangle_becomes_three_vertices() {
    let text = b"o a
v 1 2 3
v 4 5 6
v 7 8 9
vt 0.25 0.5
vn 0 0 2
f 1/1/1 2 3//1
";
    let vertices = load(text).unwrap();
    assert_eq!(vec![[7.0, 8.0, 9.0], [1.0, 2.0, 3.0], [4.0, 5.0, 6.0]], positions(&vertices));
    let normals: Vec<bool> = vertices.iter().map(|v| v.normal.is_some()).collect();
    assert_eq!(vec![true, true, false], normals);
    assert_eq!(2.0, vertices[1].normal.unwrap().z);
    let tex_coords: Vec<bool> = vertices.iter().map(|v| v.tex_coord.is_some()).collect();
    assert_eq!(vec![false, true, false], tex_coords);
    assert_eq!(0.25, vertices[1].tex_coord.unwrap().u);
    assert_eq!(0.5, vertices[1].tex_coord.unwrap().v);
}

#[test]
fn line_and_point_have_fewer_vertices() {
    let text = b"o a
v 1 0 0
v 2 0 0
l 2 1
f 1
";
    assert_eq!(
        vec![[2.0, 0.0, 0.0], [1.0, 0.0, 0.0], [1.0, 0.0, 0.0]],
        positions(&load(text).unwrap())
    );
}

#[test]
fn objects_and_materials_make_one_mesh() {
    let text = b"o a
v 1 0 0
v 2 0 0
usemtl red
l 1 2
usemtl blue
l 2 1
o b
v 3 0 0
v 4 0 0
l 3 4
";
    let xs: Vec<f64> = load(text).unwrap().iter().map(|v| v.pos.x).collect();
    assert_eq!(vec![1.0, 2.0, 2.0, 1.0, 3.0, 4.0], xs);
}

#[test]
fn empty_text_makes_an_empty_mesh() {
    assert_eq!(0, load(b"").unwrap().len());
}

#[test]
fn malformed_text_is_no_mesh() {
    assert!(load(b"what is this\n").is_none());
    assert!(load(b"o a\nv 1 2 3\nl 1 2\n").is_none());
}

#[test]
fn bytes_that_are_no_text_are_no_mesh() {
    assert!(load(&[b'o', b' ', 0xff, b'\n']).is_none());
}

#[test]
fn raw_data_is_parsed() {
    let assets = AssetManager::new(Vec::new(), None, NoFiles);
    let text = b"mtllib m.mtl\no a\nv 1 2 3\nusemtl red\ng left\ns 2\nf 1\n";
    let set = ObjSet::from_raw(&assets, text).unwrap();
    assert_eq!(Some("m.mtl".to_string()), set.material_library);
    assert_eq!(1, set.objects.len());
    assert_eq!("a", set.objects[0].name);
    assert_eq!(3.0, set.objects[0].vertices[0].z);
    assert_eq!(Some("red".to_string()), set.objects[0].geometry[0].material_name);
    let shape = &set.objects[0].geometry[0].shapes[0];
    assert_eq!(Primitive::Point((0, None, None)), shape.primitive);
    assert_eq!(vec!["left".to_string()], shape.groups);
    assert_eq!(vec![2], shape.smoothing_groups);
}

#[test]
fn failed_mesh_changes_nothing() {
    let mut assets = AssetManager::new(Vec::new(), None, NoFiles);
    let ok = assets.load_asset_from_raw::<Mesh>("a", "obj", b"o a\nv 1 2 3\nf 1\n");
    assert_eq!(None, assets.load_asset_from_raw::<Mesh>("a", "obj", b"o\n"));
    assert_eq!(None, assets.load_asset_from_raw::<Mesh>("b", "obj", b"o\n"));
    assert_eq!(ok, assets.id_from_name("a"));
    assert_eq!(None, assets.id_from_name("b"));
    assert_eq!(1, assets.read_assets::<Mesh>().read(ok.unwrap()).unwrap().vertices.len());
}

#[test]
fn negative_indices_are_no_mesh() {
    assert!(load(b"o a\nv 1 2 3\nf -1\n").is_none());
    assert!(load(b"o a\nv 1 2 3\nf -00000000000000000000000001\n").is_none());
    assert!(load(b"o a\nv 1 2 3\nf -99999999999999999999999999\n").is_none());
    assert!(load(b"o a\nv 1 2 3\nf 1 # -9223372036854775808\n").is_some());
}
