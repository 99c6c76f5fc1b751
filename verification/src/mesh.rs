//! Meshes, and how they come from Wavefront `.obj` data.

use crate::assets::{AssetLoader, AssetLoaderRaw, Assets, AssetsView};
use crate::copied::copied;
use std::str::Utf8Error;
use vstd::prelude::*;
use vstd::utf8::{decode_utf8, valid_utf8};
use wavefront_obj::obj::{
    Geometry, Normal, ObjSet, Object, Primitive, Shape, TVertex, VTNIndex, Vertex,
};
use wavefront_obj::ParseError;

verus! {

/// `wavefront_obj::obj::ObjSet`: the objects of an `.obj` file.
#[verifier::external_type_specification]
pub struct ExObjSet(wavefront_obj::obj::ObjSet);

/// `wavefront_obj::obj::Object`: the vertices, texture vertices and normals of an object, and the
/// geometry that refers to them by index.
#[verifier::external_type_specification]
pub struct ExObject(wavefront_obj::obj::Object);

/// `wavefront_obj::obj::Geometry`: shapes of one material.
#[verifier::external_type_specification]
pub struct ExGeometry(wavefront_obj::obj::Geometry);

/// `wavefront_obj::obj::Shape`: a primitive, with the groups that it belongs to.
#[verifier::external_type_specification]
pub struct ExShape(wavefront_obj::obj::Shape);

/// `wavefront_obj::obj::Primitive`: a point, a line or a triangle.
#[verifier::external_type_specification]
pub struct ExPrimitive(wavefront_obj::obj::Primitive);

/// `wavefront_obj::obj::Vertex`: a position or a normal, carried as an opaque value.
#[verifier::external_type_specification]
#[verifier::external_body]
pub struct ExVertex(wavefront_obj::obj::Vertex);

/// `wavefront_obj::obj::TVertex`: a texture coordinate, carried as an opaque value.
#[verifier::external_type_specification]
#[verifier::external_body]
pub struct ExTVertex(wavefront_obj::obj::TVertex);

/// `wavefront_obj::ParseError`, carried as an opaque value.
#[verifier::external_type_specification]
#[verifier::external_body]
pub struct ExParseError(wavefront_obj::ParseError);

/// `std::str::Utf8Error`, carried as an opaque value.
#[verifier::external_type_specification]
#[verifier::external_body]
pub struct ExUtf8Error(std::str::Utf8Error);

/// `std::str::from_utf8`: the text that the bytes encode, or an error where they are not valid
/// UTF-8.
pub assume_specification<'a>[ std::str::from_utf8 ](v: &'a [u8]) -> (text: Result<
    &'a str,
    Utf8Error,
>)
    ensures
        match text {
            Ok(s) => valid_utf8(v@) && s@ == decode_utf8(v@),
            Err(_) => !valid_utf8(v@),
        },
;

/// One corner of a shape, with what it refers to.
#[derive(Clone, Copy)]
pub struct MeshVertex {
    pub pos: Vertex,
    pub normal: Option<Normal>,
    pub tex_coord: Option<TVertex>,
}

/// This struct represents a piece of geometry. It is part of a `Renderable`
pub struct Mesh {
    pub vertices: Vec<MeshVertex>,
}

impl Clone for Mesh {
    fn clone(&self) -> (mesh: Mesh)
        ensures
            mesh.vertices@ == self.vertices@,
    {
        Mesh { vertices: copied(&self.vertices) }
    }
}

/// What a shape holds.
pub struct ShapeView {
    pub primitive: Primitive,
    pub groups: Seq<Seq<char>>,
    pub smoothing_groups: Seq<u32>,
}

/// What a geometry holds: shapes of one material.
pub struct GeometryView {
    pub material_name: Option<Seq<char>>,
    pub shapes: Seq<ShapeView>,
}

/// What an object holds.
pub struct ObjectView {
    pub name: Seq<char>,
    pub vertices: Seq<Vertex>,
    pub tex_vertices: Seq<TVertex>,
    pub normals: Seq<Normal>,
    pub geometry: Seq<GeometryView>,
}

/// What a set of objects holds.
pub struct ObjSetView {
    pub material_library: Option<Seq<char>>,
    pub objects: Seq<ObjectView>,
}

impl ObjectView {
    /// Whether all indices of a corner refer to something.
    pub open spec fn has_corner(self, corner: VTNIndex) -> bool {
        &&& corner.0 < self.vertices.len()
        &&& corner.1 matches Some(i) ==> i < self.tex_vertices.len()
        &&& corner.2 matches Some(i) ==> i < self.normals.len()
    }

    /// Whether all indices of a primitive refer to something.
    pub open spec fn has_primitive(self, primitive: Primitive) -> bool {
        forall|k: int|
            0 <= k < corners(primitive).len() ==> self.has_corner(#[trigger] corners(primitive)[k])
    }

    /// Whether all indices in the geometry refer to something.
    pub open spec fn wf(self) -> bool {
        forall|g: int, s: int|
            0 <= g < self.geometry.len() && 0 <= s < self.geometry[g].shapes.len()
                ==> self.has_primitive((#[trigger] self.geometry[g].shapes[s]).primitive)
    }

    /// The mesh vertex for a corner.
    pub open spec fn corner_vertex(self, corner: VTNIndex) -> MeshVertex {
        MeshVertex {
            pos: self.vertices[corner.0 as int],
            normal: match corner.2 {
                Some(i) => Some(self.normals[i as int]),
                None => None,
            },
            tex_coord: match corner.1 {
                Some(i) => Some(self.tex_vertices[i as int]),
                None => None,
            },
        }
    }

    /// The mesh vertices for the corners of a primitive.
    pub open spec fn primitive_vertices(self, primitive: Primitive) -> Seq<MeshVertex> {
        corners(primitive).map_values(|corner: VTNIndex| self.corner_vertex(corner))
    }

    /// The mesh vertices for all shapes of one material.
    pub open spec fn geometry_vertices(self, geometry: GeometryView) -> Seq<MeshVertex> {
        geometry.shapes.flat_map(|shape: ShapeView| self.primitive_vertices(shape.primitive))
    }

    /// The mesh vertices for all shapes of the object.
    pub open spec fn mesh_vertices(self) -> Seq<MeshVertex> {
        self.geometry.flat_map(|geometry: GeometryView| self.geometry_vertices(geometry))
    }
}

/// The corners of a primitive.
pub open spec fn corners(primitive: Primitive) -> Seq<VTNIndex> {
    match primitive {
        Primitive::Point(v1) => seq![v1],
        Primitive::Line(v1, v2) => seq![v1, v2],
        Primitive::Triangle(v1, v2, v3) => seq![v1, v2, v3],
    }
}

/// What a text that may be missing holds.
pub open spec fn text_view(text: Option<String>) -> Option<Seq<char>> {
    match text {
        Some(s) => Some(s@),
        None => None,
    }
}

pub open spec fn shape_view(shape: Shape) -> ShapeView {
    ShapeView {
        primitive: shape.primitive,
        groups: shape.groups@.map_values(|group: String| group@),
        smoothing_groups: shape.smoothing_groups@,
    }
}

pub open spec fn geometry_view(geometry: Geometry) -> GeometryView {
    GeometryView {
        material_name: text_view(geometry.material_name),
        shapes: geometry.shapes@.map_values(|shape: Shape| shape_view(shape)),
    }
}

pub open spec fn object_view(object: Object) -> ObjectView {
    ObjectView {
        name: object.name@,
        vertices: object.vertices@,
        tex_vertices: object.tex_vertices@,
        normals: object.normals@,
        geometry: object.geometry@.map_values(|geometry: Geometry| geometry_view(geometry)),
    }
}

pub open spec fn set_view(set: ObjSet) -> ObjSetView {
    ObjSetView {
        material_library: text_view(set.material_library),
        objects: set.objects@.map_values(|object: Object| object_view(object)),
    }
}

/// Whether all indices in all objects refer to something.
pub open spec fn indices_valid(objects: Seq<ObjectView>) -> bool {
    forall|i: int| 0 <= i < objects.len() ==> (#[trigger] objects[i]).wf()
}

/// The mesh vertices for all objects, in order.
pub open spec fn all_vertices(objects: Seq<ObjectView>) -> Seq<MeshVertex> {
    objects.flat_map(|object: ObjectView| object.mesh_vertices())
}

/// Appends the mesh vertex for a corner.
fn push_corner(object: &Object, corner: VTNIndex, vertices: &mut Vec<MeshVertex>)
    requires
        object_view(*object).has_corner(corner),
    ensures
        final(vertices)@ == old(vertices)@.push(object_view(*object).corner_vertex(corner)),
{
    let (vi, ti, ni) = corner;
    vertices.push(
        MeshVertex {
            pos: object.vertices[vi],
            normal: match ni {
                Some(i) => Some(object.normals[i]),
                None => None,
            },
            tex_coord: match ti {
                Some(i) => Some(object.tex_vertices[i]),
                None => None,
            },
        },
    );
}

/// Appends the mesh vertices for the corners of a primitive.
fn push_primitive(object: &Object, primitive: &Primitive, vertices: &mut Vec<MeshVertex>)
    requires
        object_view(*object).has_primitive(*primitive),
    ensures
        final(vertices)@ == old(vertices)@ + object_view(*object).primitive_vertices(*primitive),
{
    assert(forall|k: int|
        0 <= k < corners(*primitive).len() ==> object_view(*object).has_corner(
            #[trigger] corners(*primitive)[k],
        ));
    match *primitive {
        Primitive::Point(v1) => {
            assert(corners(*primitive)[0] == v1);
            push_corner(object, v1, vertices);
        },
        Primitive::Line(v1, v2) => {
            assert(corners(*primitive)[0] == v1 && corners(*primitive)[1] == v2);
            push_corner(object, v1, vertices);
            push_corner(object, v2, vertices);
        },
        Primitive::Triangle(v1, v2, v3) => {
            assert(corners(*primitive)[0] == v1 && corners(*primitive)[1] == v2 && corners(
                *primitive,
            )[2] == v3);
            push_corner(object, v1, vertices);
            push_corner(object, v2, vertices);
            push_corner(object, v3, vertices);
        },
    }
    assert(vertices@ =~= old(vertices)@ + object_view(*object).primitive_vertices(*primitive));
}

/// Appends the mesh vertices for the shapes of one material.
fn push_geometry(object: &Object, geometry: &Geometry, vertices: &mut Vec<MeshVertex>)
    requires
        forall|s: int|
            0 <= s < geometry.shapes@.len() ==> object_view(*object).has_primitive(
                (#[trigger] geometry.shapes@[s]).primitive,
            ),
    ensures
        final(vertices)@ == old(vertices)@ + object_view(*object).geometry_vertices(
            geometry_view(*geometry),
        ),
{
    let ghost view = object_view(*object);
    let ghost shapes = geometry_view(*geometry).shapes;
    let ghost expand = |shape: ShapeView| view.primitive_vertices(shape.primitive);
    let ghost start = vertices@;
    let mut i: usize = 0;
    assert(vertices@ =~= start + shapes.take(0).flat_map(expand));
    while i < geometry.shapes.len()
        invariant
            i <= geometry.shapes@.len(),
            view == object_view(*object),
            shapes == geometry_view(*geometry).shapes,
            expand == (|shape: ShapeView| view.primitive_vertices(shape.primitive)),
            forall|s: int|
                0 <= s < geometry.shapes@.len() ==> view.has_primitive(
                    (#[trigger] geometry.shapes@[s]).primitive,
                ),
            vertices@ == start + shapes.take(i as int).flat_map(expand),
        decreases geometry.shapes@.len() - i,
    {
        assert(shapes[i as int] == shape_view(geometry.shapes@[i as int]));
        push_primitive(object, &geometry.shapes[i].primitive, vertices);
        proof {
            shapes.lemma_flat_map_take_append(expand, i as int);
        }
        i = i + 1;
        assert(vertices@ =~= start + shapes.take(i as int).flat_map(expand));
    }
    assert(shapes.take(i as int) =~= shapes);
}

/// Appends the mesh vertices for all shapes of an object.
fn push_object(object: &Object, vertices: &mut Vec<MeshVertex>)
    requires
        object_view(*object).wf(),
    ensures
        final(vertices)@ == old(vertices)@ + object_view(*object).mesh_vertices(),
{
    let ghost view = object_view(*object);
    let ghost expand = |geometry: GeometryView| view.geometry_vertices(geometry);
    let ghost start = vertices@;
    let mut i: usize = 0;
    assert(vertices@ =~= start + view.geometry.take(0).flat_map(expand));
    while i < object.geometry.len()
        invariant
            i <= object.geometry@.len(),
            view == object_view(*object),
            view.wf(),
            expand == (|geometry: GeometryView| view.geometry_vertices(geometry)),
            vertices@ == start + view.geometry.take(i as int).flat_map(expand),
        decreases object.geometry@.len() - i,
    {
        let ghost geometry = object.geometry@[i as int];
        assert(view.geometry[i as int] == geometry_view(geometry));
        assert forall|s: int| 0 <= s < geometry.shapes@.len() implies view.has_primitive(
            (#[trigger] geometry.shapes@[s]).primitive,
        ) by {
            assert(view.geometry[i as int].shapes[s] == shape_view(geometry.shapes@[s]));
        }
        push_geometry(object, &object.geometry[i], vertices);
        proof {
            view.geometry.lemma_flat_map_take_append(expand, i as int);
        }
        i = i + 1;
        assert(vertices@ =~= start + view.geometry.take(i as int).flat_map(expand));
    }
    assert(view.geometry.take(i as int) =~= view.geometry);
}

/// Takes a list of objects that contain geometries that contain shapes that contain
/// vertex/texture/normal indices into the main list of vertices, and converts to a flat vec of
/// mesh vertices.
pub fn flatten_objects(obj_set: &ObjSet) -> (vertices: Vec<MeshVertex>)
    requires
        indices_valid(set_view(*obj_set).objects),
    ensures
        vertices@ == all_vertices(set_view(*obj_set).objects),
{
    let ghost objects = set_view(*obj_set).objects;
    let ghost expand = |object: ObjectView| object.mesh_vertices();
    let mut vertices: Vec<MeshVertex> = Vec::new();
    let mut i: usize = 0;
    assert(vertices@ =~= objects.take(0).flat_map(expand));
    while i < obj_set.objects.len()
        invariant
            i <= obj_set.objects@.len(),
            objects == set_view(*obj_set).objects,
            indices_valid(objects),
            expand == (|object: ObjectView| object.mesh_vertices()),
            vertices@ == objects.take(i as int).flat_map(expand),
        decreases obj_set.objects@.len() - i,
    {
        assert(objects[i as int] == object_view(obj_set.objects@[i as int]));
        push_object(&obj_set.objects[i], &mut vertices);
        proof {
            objects.lemma_flat_map_take_append(expand, i as int);
        }
        i = i + 1;
    }
    assert(objects.take(i as int) =~= objects);
    vertices
}

/// Whether `tag` is the index of the first word of the line that begins at the index `start`, and
/// that word may be the one before the indices of a shape.
pub open spec fn tags_shape(text: Seq<char>, start: int, tag: int) -> bool {
    &&& 0 <= start <= tag < text.len()
    &&& start == 0 || text[start - 1] == '\n'
    &&& forall|j: int| start <= j < tag ==> " \t\r"@.contains(#[trigger] text[j])
    &&& text[tag] == 'f' || text[tag] == 'l'
}

/// Whether an index of a text lies on a line that may be that of a shape, and not in a comment.
pub open spec fn on_shape_line(text: Seq<char>, i: int) -> bool {
    exists|start: int, tag: int| #[trigger]
        tags_shape(text, start, tag) && tag < i && forall|j: int|
            tag <= j < i ==> #[trigger] text[j] != '\n' && text[j] != '#'
}

/// The number that decimal digits stand for.
pub open spec fn decimal(digits: Seq<char>) -> nat
    decreases digits.len(),
{
    if digits.len() == 0 {
        0
    } else {
        10 * decimal(digits.drop_last()) + (digits.last() as nat - '0' as nat) as nat
    }
}

/// Whether the characters from the index `i` to the index `end` of a text are a negative index of
/// a shape.
pub open spec fn is_negative_index(text: Seq<char>, i: int, end: int) -> bool {
    &&& 0 < i && i + 1 < end <= text.len()
    &&& text[i] == '-'
    &&& forall|j: int| i < j < end ==> '0' <= #[trigger] text[j] <= '9'
    &&& " \t\r/"@.contains(text[i - 1])
    &&& end == text.len() || " \t\r\n#/"@.contains(text[end])
    &&& on_shape_line(text, i)
}

/// Whether no negative index of a shape lies so close to the smallest `isize` that it cannot be
/// subtracted from the number of vertices, of which a text has less than it has characters.
pub open spec fn indices_fit(text: Seq<char>) -> bool {
    forall|i: int, end: int| #[trigger]
        is_negative_index(text, i, end) ==> {
            let index = decimal(text.subrange(i + 1, end));
            index + text.len() <= isize::MAX || index > isize::MAX + 1
        }
}

/// What `wavefront_obj::obj::parse` reads from a text, if it does not fail.
pub uninterp spec fn parsed_set(text: Seq<char>) -> Option<ObjSetView>;

/// Calls `wavefront_obj::obj::parse`, whose result contracts call `parsed_set`. It guarantees
/// that the indices that it returns refer to something.
///
/// The parser subtracts a negative index from the number of vertices. A build with overflow checks
/// panics where the difference exceeds `isize`, and other builds fail. `requires` leaves out the
/// indices that come close to that. An index that is no `isize` is none of them: the parser fails
/// on it.
#[verifier::external_body]
fn parse(text: &str) -> (result: Result<ObjSet, ParseError>)
    requires
        indices_fit(text@),
    ensures
        match result {
            Ok(set) => parsed_set(text@) == Some(set_view(set)) && indices_valid(
                set_view(set).objects,
            ),
            Err(_) => parsed_set(text@) is None,
        },
{
    wavefront_obj::obj::parse(text)
}

impl AssetLoaderRaw for ObjSet {
    /// The parser does not overflow on an index.
    open spec fn readable(assets: AssetsView, data: Seq<u8>) -> bool {
        valid_utf8(data) ==> indices_fit(decode_utf8(data))
    }

    /// The data is text, and the parser reads this set of objects from it.
    open spec fn decodes(assets: AssetsView, data: Seq<u8>, result: Option<ObjSet>) -> bool {
        match result {
            Some(set) => {
                &&& valid_utf8(data)
                &&& parsed_set(decode_utf8(data)) == Some(set_view(set))
                &&& indices_valid(set_view(set).objects)
            },
            None => !valid_utf8(data) || parsed_set(decode_utf8(data)) is None,
        }
    }

    fn from_raw(assets: &Assets, data: &[u8]) -> (result: Option<ObjSet>) {
        match std::str::from_utf8(data) {
            Ok(text) => match parse(text) {
                Ok(set) => Some(set),
                Err(_) => None,
            },
            Err(_) => None,
        }
    }
}

impl AssetLoader<Mesh> for ObjSet {
    /// All indices refer to something.
    open spec fn loadable(assets: AssetsView, data: ObjSet) -> bool {
        indices_valid(set_view(data).objects)
    }

    /// The mesh has a vertex for each corner of each shape, and the assets stay as they are.
    open spec fn loads(
        before: AssetsView,
        data: ObjSet,
        after: AssetsView,
        result: Option<Mesh>,
    ) -> bool {
        &&& after == before
        &&& result matches Some(mesh) && mesh.vertices@ == all_vertices(set_view(data).objects)
    }

    /// # Panics
    /// Panics if an index refers to nothing.
    fn from_data(assets: &mut Assets, obj_set: ObjSet) -> (result: Option<Mesh>) {
        let vertices = flatten_objects(&obj_set);
        <Vec<MeshVertex> as AssetLoader<Mesh>>::from_data(assets, vertices)
    }
}

impl AssetLoader<Mesh> for Vec<MeshVertex> {
    /// Any vertices make a mesh.
    open spec fn loadable(assets: AssetsView, data: Vec<MeshVertex>) -> bool {
        true
    }

    /// The mesh has these vertices, and the assets stay as they are.
    open spec fn loads(
        before: AssetsView,
        data: Vec<MeshVertex>,
        after: AssetsView,
        result: Option<Mesh>,
    ) -> bool {
        &&& after == before
        &&& result matches Some(mesh) && mesh.vertices@ == data@
    }

    fn from_data(assets: &mut Assets, data: Vec<MeshVertex>) -> (result: Option<Mesh>) {
        Some(Mesh { vertices: data })
    }
}

} // verus!
