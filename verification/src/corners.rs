//! What becomes of the corners of shapes, said of calls.

use crate::assets::{AssetLoader, AssetLoaderRaw, Assets, AssetsView};
use crate::calls::{
    decoded_and_stored, goes_by, kept_as, law_load_asset_from_raw, lemma_loads_raw,
};
use crate::laws::law_first_asset_is_kept;
use crate::manager::AssetManager;
use crate::mesh::{
    corners, decimal, flatten_objects, geometry_view, indices_fit, is_negative_index, object_view,
    parsed_set, set_view, shape_view, tags_shape, GeometryView, Mesh, MeshVertex, ObjectView,
    ShapeView,
};
use crate::type_key::type_key;
use crate::world::{Asset, AssetId};
use vstd::prelude::*;
use vstd::utf8::{decode_utf8, valid_utf8};
use wavefront_obj::obj::{ObjSet, Object, Primitive, VTNIndex};

verus! {

/// The corners of a point, a line or a triangle, in order.
pub open spec fn corner_list(primitive: Primitive) -> Seq<VTNIndex> {
    match primitive {
        Primitive::Point(a) => Seq::empty().push(a),
        Primitive::Line(a, b) => Seq::empty().push(a).push(b),
        Primitive::Triangle(a, b, c) => Seq::empty().push(a).push(b).push(c),
    }
}

/// Whether a vertex has the position, the normal and the texture coordinate that a corner refers
/// to, and has no normal and no texture coordinate where the corner refers to none.
pub open spec fn is_vertex_of(object: Object, corner: VTNIndex, vertex: MeshVertex) -> bool {
    &&& vertex.pos == object.vertices@[corner.0 as int]
    &&& match corner.1 {
        Some(t) => vertex.tex_coord == Some(object.tex_vertices@[t as int]),
        None => vertex.tex_coord is None,
    }
    &&& match corner.2 {
        Some(n) => vertex.normal == Some(object.normals@[n as int]),
        None => vertex.normal is None,
    }
}

/// What a sequence is expanded to is what its parts are expanded to.
proof fn lemma_flat_map_concat<A, B>(first: Seq<A>, second: Seq<A>, f: spec_fn(A) -> Seq<B>)
    ensures
        (first + second).flat_map(f) == first.flat_map(f) + second.flat_map(f),
    decreases second.len(),
{
    if second.len() == 0 {
        assert(first + second =~= first);
        assert(first.flat_map(f) + second.flat_map(f) =~= first.flat_map(f));
    } else {
        let rest = second.drop_last();
        lemma_flat_map_concat(first, rest, f);
        assert(first + second =~= (first + rest).push(second.last()));
        assert(second =~= rest.push(second.last()));
        (first + rest).lemma_flat_map_push(f, second.last());
        rest.lemma_flat_map_push(f, second.last());
        assert((first + second).flat_map(f) =~= first.flat_map(f) + second.flat_map(f));
    }
}

/// What an element is expanded to occurs in what a sequence is expanded to.
proof fn lemma_flat_map_at<A, B>(
    s: Seq<A>,
    f: spec_fn(A) -> Seq<B>,
    i: int,
    k: int,
) -> (p: int)
    requires
        0 <= i < s.len(),
        0 <= k < f(s[i]).len(),
    ensures
        0 <= p < s.flat_map(f).len(),
        s.flat_map(f)[p] == f(s[i])[k],
{
    s.lemma_flat_map_take_append(f, i);
    lemma_flat_map_concat(s.take(i + 1), s.skip(i + 1), f);
    assert(s.take(i + 1) + s.skip(i + 1) =~= s);
    s.take(i).flat_map(f).len() as int + k
}

/// What a sequence with one element is expanded to.
proof fn lemma_flat_map_one<A, B>(s: Seq<A>, f: spec_fn(A) -> Seq<B>)
    requires
        s.len() == 1,
    ensures
        s.flat_map(f) == f(s[0]),
{
    assert(s =~= Seq::empty().push(s[0]));
    Seq::<A>::empty().lemma_flat_map_push(f, s[0]);
    assert(s.flat_map(f) =~= f(s[0]));
}

/// The vertices of a primitive are those of its corners.
proof fn lemma_primitive(object: Object, primitive: Primitive, k: int)
    ensures
        object_view(object).primitive_vertices(primitive).len() == corner_list(primitive).len(),
        0 <= k < corner_list(primitive).len() ==> is_vertex_of(
            object,
            corner_list(primitive)[k],
            object_view(object).primitive_vertices(primitive)[k],
        ),
{
}

/// Every corner of every shape has a vertex in the mesh, with what the corner refers to in the
/// lists of its own object.
pub proof fn law_every_corner_has_a_vertex(
    set: &ObjSet,
    vertices: Vec<MeshVertex>,
    i: int,
    g: int,
    s: int,
    k: int,
)
    requires
        call_ensures(flatten_objects, (set,), vertices),
        0 <= i < set.objects@.len(),
        0 <= g < set.objects@[i].geometry@.len(),
        0 <= s < set.objects@[i].geometry@[g].shapes@.len(),
        0 <= k < corner_list(set.objects@[i].geometry@[g].shapes@[s].primitive).len(),
    ensures
        exists|p: int|
            0 <= p < vertices@.len() && is_vertex_of(
                set.objects@[i],
                corner_list(set.objects@[i].geometry@[g].shapes@[s].primitive)[k],
                #[trigger] vertices@[p],
            ),
{
    let object = set.objects@[i];
    let geometry = object.geometry@[g];
    let shape = geometry.shapes@[s];
    let view = object_view(object);
    let by_shape = |x: ShapeView| view.primitive_vertices(x.primitive);
    let by_geometry = |x: GeometryView| view.geometry_vertices(x);
    let by_object = |x: ObjectView| x.mesh_vertices();
    lemma_primitive(object, shape.primitive, k);
    assert(geometry_view(geometry).shapes[s] == shape_view(shape));
    let p1 = lemma_flat_map_at(geometry_view(geometry).shapes, by_shape, s, k);
    assert(view.geometry[g] == geometry_view(geometry));
    let p2 = lemma_flat_map_at(view.geometry, by_geometry, g, p1);
    assert(set_view(*set).objects[i] == view);
    let p3 = lemma_flat_map_at(set_view(*set).objects, by_object, i, p2);
    assert(vertices@[p3] == view.primitive_vertices(shape.primitive)[k]);
}

/// The mesh of a single shape has one vertex for each of its corners, in order.
pub proof fn law_one_shape_has_its_corners(set: &ObjSet, vertices: Vec<MeshVertex>, k: int)
    requires
        call_ensures(flatten_objects, (set,), vertices),
        set.objects@.len() == 1,
        set.objects@[0].geometry@.len() == 1,
        set.objects@[0].geometry@[0].shapes@.len() == 1,
    ensures
        vertices@.len() == corner_list(
            set.objects@[0].geometry@[0].shapes@[0].primitive,
        ).len(),
        0 <= k < vertices@.len() ==> is_vertex_of(
            set.objects@[0],
            corner_list(set.objects@[0].geometry@[0].shapes@[0].primitive)[k],
            vertices@[k],
        ),
{
    let object = set.objects@[0];
    let geometry = object.geometry@[0];
    let shape = geometry.shapes@[0];
    let view = object_view(object);
    lemma_primitive(object, shape.primitive, k);
    assert(geometry_view(geometry).shapes[0] == shape_view(shape));
    assert(view.geometry[0] == geometry_view(geometry));
    assert(set_view(*set).objects[0] == view);
    lemma_flat_map_one(
        geometry_view(geometry).shapes,
        |x: ShapeView| view.primitive_vertices(x.primitive),
    );
    lemma_flat_map_one(view.geometry, |x: GeometryView| view.geometry_vertices(x));
    lemma_flat_map_one(set_view(*set).objects, |x: ObjectView| x.mesh_vertices());
}

/// The mesh of objects that are listed one after the other is the mesh of the first, followed by
/// that of the second.
pub proof fn law_objects_follow(
    first: &ObjSet,
    first_vertices: Vec<MeshVertex>,
    second: &ObjSet,
    second_vertices: Vec<MeshVertex>,
    both: &ObjSet,
    vertices: Vec<MeshVertex>,
)
    requires
        call_ensures(flatten_objects, (first,), first_vertices),
        call_ensures(flatten_objects, (second,), second_vertices),
        call_ensures(flatten_objects, (both,), vertices),
        both.objects@ == first.objects@ + second.objects@,
    ensures
        vertices@ == first_vertices@ + second_vertices@,
{
    assert(set_view(*both).objects =~= set_view(*first).objects + set_view(*second).objects);
    lemma_flat_map_concat(
        set_view(*first).objects,
        set_view(*second).objects,
        |x: ObjectView| x.mesh_vertices(),
    );
}

/// The mesh of an object with two lists of geometries, one after the other, is the mesh with the
/// first list, followed by that with the second.
pub proof fn law_geometries_follow(
    first: &ObjSet,
    first_vertices: Vec<MeshVertex>,
    second: &ObjSet,
    second_vertices: Vec<MeshVertex>,
    both: &ObjSet,
    vertices: Vec<MeshVertex>,
)
    requires
        call_ensures(flatten_objects, (first,), first_vertices),
        call_ensures(flatten_objects, (second,), second_vertices),
        call_ensures(flatten_objects, (both,), vertices),
        first.objects@.len() == 1,
        second.objects@.len() == 1,
        both.objects@.len() == 1,
        same_lists(first.objects@[0], both.objects@[0]),
        same_lists(second.objects@[0], both.objects@[0]),
        both.objects@[0].geometry@ == first.objects@[0].geometry@ + second.objects@[0].geometry@,
    ensures
        vertices@ == first_vertices@ + second_vertices@,
{
    let a = object_view(first.objects@[0]);
    let b = object_view(second.objects@[0]);
    let c = object_view(both.objects@[0]);
    let by_object = |x: ObjectView| x.mesh_vertices();
    assert(set_view(*first).objects[0] == a);
    assert(set_view(*second).objects[0] == b);
    assert(set_view(*both).objects[0] == c);
    lemma_flat_map_one(set_view(*first).objects, by_object);
    lemma_flat_map_one(set_view(*second).objects, by_object);
    lemma_flat_map_one(set_view(*both).objects, by_object);
    lemma_same_lists(a, c);
    lemma_same_lists(b, c);
    assert(c.geometry =~= a.geometry + b.geometry);
    lemma_flat_map_concat(a.geometry, b.geometry, |x: GeometryView| c.geometry_vertices(x));
}

/// The mesh of a geometry with two lists of shapes, one after the other, is the mesh with the first
/// list, followed by that with the second.
pub proof fn law_shapes_follow(
    first: &ObjSet,
    first_vertices: Vec<MeshVertex>,
    second: &ObjSet,
    second_vertices: Vec<MeshVertex>,
    both: &ObjSet,
    vertices: Vec<MeshVertex>,
)
    requires
        call_ensures(flatten_objects, (first,), first_vertices),
        call_ensures(flatten_objects, (second,), second_vertices),
        call_ensures(flatten_objects, (both,), vertices),
        first.objects@.len() == 1 && first.objects@[0].geometry@.len() == 1,
        second.objects@.len() == 1 && second.objects@[0].geometry@.len() == 1,
        both.objects@.len() == 1 && both.objects@[0].geometry@.len() == 1,
        same_lists(first.objects@[0], both.objects@[0]),
        same_lists(second.objects@[0], both.objects@[0]),
        both.objects@[0].geometry@[0].shapes@ == first.objects@[0].geometry@[0].shapes@
            + second.objects@[0].geometry@[0].shapes@,
    ensures
        vertices@ == first_vertices@ + second_vertices@,
{
    let a = object_view(first.objects@[0]);
    let b = object_view(second.objects@[0]);
    let c = object_view(both.objects@[0]);
    let by_object = |x: ObjectView| x.mesh_vertices();
    let by_geometry = |x: GeometryView| c.geometry_vertices(x);
    assert(set_view(*first).objects[0] == a);
    assert(set_view(*second).objects[0] == b);
    assert(set_view(*both).objects[0] == c);
    lemma_flat_map_one(set_view(*first).objects, by_object);
    lemma_flat_map_one(set_view(*second).objects, by_object);
    lemma_flat_map_one(set_view(*both).objects, by_object);
    lemma_same_lists(a, c);
    lemma_same_lists(b, c);
    lemma_flat_map_one(a.geometry, by_geometry);
    lemma_flat_map_one(b.geometry, by_geometry);
    lemma_flat_map_one(c.geometry, by_geometry);
    assert(a.geometry[0] == geometry_view(first.objects@[0].geometry@[0]));
    assert(b.geometry[0] == geometry_view(second.objects@[0].geometry@[0]));
    assert(c.geometry[0] == geometry_view(both.objects@[0].geometry@[0]));
    assert(c.geometry[0].shapes =~= a.geometry[0].shapes + b.geometry[0].shapes);
    lemma_flat_map_concat(
        a.geometry[0].shapes,
        b.geometry[0].shapes,
        |x: ShapeView| c.primitive_vertices(x.primitive),
    );
}

/// Whether two objects have the same vertices, texture vertices and normals.
pub open spec fn same_lists(object: Object, other: Object) -> bool {
    &&& object.vertices@ == other.vertices@
    &&& object.tex_vertices@ == other.tex_vertices@
    &&& object.normals@ == other.normals@
}

/// The vertices of an object depend on its lists and its geometry alone.
proof fn lemma_same_lists(object: ObjectView, other: ObjectView)
    requires
        object.vertices == other.vertices,
        object.tex_vertices == other.tex_vertices,
        object.normals == other.normals,
    ensures
        object.mesh_vertices() == object.geometry.flat_map(
            |x: GeometryView| other.geometry_vertices(x),
        ),
{
    assert forall|corner: VTNIndex| #[trigger]
        object.corner_vertex(corner) == other.corner_vertex(corner) by {}
    assert forall|primitive: Primitive| #[trigger]
        object.primitive_vertices(primitive) == other.primitive_vertices(primitive) by {
        assert(object.primitive_vertices(primitive) =~= other.primitive_vertices(primitive));
    }
    assert((|x: ShapeView| object.primitive_vertices(x.primitive)) =~= (|x: ShapeView|
        other.primitive_vertices(x.primitive)));
    assert((|x: GeometryView| object.geometry_vertices(x)) =~= (|x: GeometryView|
        other.geometry_vertices(x)));
}

/// A mesh can be made of every set of objects whose indices all refer to something.
pub proof fn law_flatten_objects_returns(set: &ObjSet)
    requires
        forall|i: int, g: int, s: int, k: int|
            #![trigger corner_list(set.objects@[i].geometry@[g].shapes@[s].primitive)[k]]
            {
                &&& 0 <= i < set.objects@.len()
                &&& 0 <= g < set.objects@[i].geometry@.len()
                &&& 0 <= s < set.objects@[i].geometry@[g].shapes@.len()
                &&& 0 <= k < corner_list(
                    set.objects@[i].geometry@[g].shapes@[s].primitive,
                ).len()
            } ==> {
                let corner = corner_list(set.objects@[i].geometry@[g].shapes@[s].primitive)[k];
                &&& corner.0 < set.objects@[i].vertices@.len()
                &&& corner.1 matches Some(t) ==> t < set.objects@[i].tex_vertices@.len()
                &&& corner.2 matches Some(n) ==> n < set.objects@[i].normals@.len()
            },
    ensures
        call_requires(flatten_objects, (set,)),
{
    let objects = set_view(*set).objects;
    assert forall|i: int| 0 <= i < objects.len() implies (#[trigger] objects[i]).wf() by {
        let object = set.objects@[i];
        assert(objects[i] == object_view(object));
        assert forall|g: int, s: int|
            0 <= g < objects[i].geometry.len() && 0 <= s
                < objects[i].geometry[g].shapes.len() implies objects[i].has_primitive(
            (#[trigger] objects[i].geometry[g].shapes[s]).primitive,
        ) by {
            assert(objects[i].geometry[g] == geometry_view(object.geometry@[g]));
            assert(objects[i].geometry[g].shapes[s] == shape_view(object.geometry@[g].shapes@[s]));
            let primitive = object.geometry@[g].shapes@[s].primitive;
            assert(corners(primitive) =~= corner_list(primitive));
            assert forall|k: int| 0 <= k < corners(primitive).len() implies objects[i].has_corner(
                #[trigger] corners(primitive)[k],
            ) by {
                assert(corner_list(set.objects@[i].geometry@[g].shapes@[s].primitive)[k]
                    == corners(primitive)[k]);
            }
        }
    }
}

/// A set of objects always becomes the mesh of its corners, and nothing else changes.
pub proof fn law_obj_set_from_data(
    assets: &mut Assets,
    set: ObjSet,
    vertices: Vec<MeshVertex>,
    result: Option<Mesh>,
)
    requires
        call_ensures(flatten_objects, (&set,), vertices),
        call_ensures(<ObjSet as AssetLoader<Mesh>>::from_data, (assets, set), result),
    ensures
        result matches Some(mesh) && mesh.vertices@ == vertices@,
        final(assets)@ == old(assets)@,
{
}

/// Vertices always become the mesh of them, and nothing else changes.
pub proof fn law_vertices_from_data(
    assets: &mut Assets,
    vertices: Vec<MeshVertex>,
    result: Option<Mesh>,
)
    requires
        call_ensures(<Vec<MeshVertex> as AssetLoader<Mesh>>::from_data, (assets, vertices), result),
    ensures
        result matches Some(mesh) && mesh.vertices@ == vertices@,
        final(assets)@ == old(assets)@,
{
}

/// A clone of a mesh has its vertices.
pub proof fn law_clone_mesh(mesh: &Mesh, copy: Mesh)
    requires
        call_ensures(<Mesh as Clone>::clone, (mesh,), copy),
    ensures
        copy.vertices@ == mesh.vertices@,
{
}

/// A set of objects is decoded from raw data exactly where it is text that the parser reads, and
/// it is the set that the parser reads.
pub proof fn law_obj_set_from_raw(assets: &Assets, data: &[u8], result: Option<ObjSet>)
    requires
        call_ensures(<ObjSet as AssetLoaderRaw>::from_raw, (assets, data), result),
    ensures
        result is Some <==> valid_utf8(data@) && parsed_set(decode_utf8(data@)) is Some,
        result matches Some(set) ==> parsed_set(decode_utf8(data@)) == Some(set_view(set)),
{
}

/// What a set of objects holds is all that is in it.
pub proof fn law_set_holds_all(set: ObjSet, i: int, g: int, s: int, k: int)
    ensures
        ({
            let view = set_view(set);
            &&& view.material_library is Some <==> set.material_library is Some
            &&& set.material_library is Some ==> view.material_library.unwrap()
                == set.material_library.unwrap()@
            &&& view.objects.len() == set.objects@.len()
        }),
        0 <= i < set.objects@.len() ==> {
            let view = set_view(set).objects[i];
            let object = set.objects@[i];
            &&& view.name == object.name@
            &&& view.vertices == object.vertices@
            &&& view.tex_vertices == object.tex_vertices@
            &&& view.normals == object.normals@
            &&& view.geometry.len() == object.geometry@.len()
        },
        0 <= i < set.objects@.len() && 0 <= g < set.objects@[i].geometry@.len() ==> {
            let view = set_view(set).objects[i].geometry[g];
            let geometry = set.objects@[i].geometry@[g];
            &&& view.material_name is Some <==> geometry.material_name is Some
            &&& geometry.material_name is Some ==> view.material_name.unwrap()
                == geometry.material_name.unwrap()@
            &&& view.shapes.len() == geometry.shapes@.len()
        },
        0 <= i < set.objects@.len() && 0 <= g < set.objects@[i].geometry@.len() && 0 <= s
            < set.objects@[i].geometry@[g].shapes@.len() ==> {
            let view = set_view(set).objects[i].geometry[g].shapes[s];
            let shape = set.objects@[i].geometry@[g].shapes@[s];
            &&& view.primitive == shape.primitive
            &&& view.smoothing_groups == shape.smoothing_groups@
            &&& view.groups.len() == shape.groups@.len()
            &&& 0 <= k < shape.groups@.len() ==> view.groups[k] == shape.groups@[k]@
        },
{
}

/// The number that a text of decimal digits stands for.
pub open spec fn number(digits: Seq<char>) -> int
    decreases digits.len(),
{
    if digits.len() == 0 {
        0
    } else {
        number(digits.drop_last()) * 10 + (digits.last() as int - '0' as int)
    }
}

/// The number that digits stand for.
proof fn lemma_number(digits: Seq<char>)
    requires
        forall|i: int| 0 <= i < digits.len() ==> '0' <= #[trigger] digits[i] <= '9',
    ensures
        number(digits) == decimal(digits),
    decreases digits.len(),
{
    if digits.len() > 0 {
        assert forall|i: int| 0 <= i < digits.drop_last().len() implies '0' <= #[trigger]
            digits.drop_last()[i] <= '9' by {
            assert(digits.drop_last()[i] == digits[i]);
        }
        lemma_number(digits.drop_last());
        assert('0' <= digits[digits.len() - 1] <= '9');
    }
}

/// Whether the characters between two places of a text are a minus sign and digits, set off by
/// blanks or slashes, on a line that starts with the letter of a face or a line, and not behind a
/// number sign.
pub open spec fn negative_index(text: Seq<char>, i: int, end: int) -> bool {
    &&& 0 < i && i + 1 < end <= text.len()
    &&& text[i] == '-'
    &&& forall|j: int| i < j < end ==> '0' <= #[trigger] text[j] <= '9'
    &&& text[i - 1] == ' ' || text[i - 1] == '\t' || text[i - 1] == '\r' || text[i - 1] == '/'
    &&& end < text.len() ==> text[end] == ' ' || text[end] == '\t' || text[end] == '\r'
        || text[end] == '\n' || text[end] == '#' || text[end] == '/'
    &&& exists|start: int, tag: int| shape_line(text, start, tag, i)
}

/// Whether a line that begins at `start` has, after blanks, the letter of a face or a line at
/// `tag`, and goes on to `i` without a number sign.
pub open spec fn shape_line(text: Seq<char>, start: int, tag: int, i: int) -> bool {
    &&& 0 <= start <= tag < i
    &&& start == 0 || text[start - 1] == '\n'
    &&& forall|j: int|
        start <= j < tag ==> #[trigger] text[j] == ' ' || text[j] == '\t' || text[j] == '\r'
    &&& text[tag] == 'f' || text[tag] == 'l'
    &&& forall|j: int| tag <= j < i ==> #[trigger] text[j] != '\n' && text[j] != '#'
}

/// The characters of blanks and of what ends a word.
proof fn lemma_blanks(c: char)
    ensures
        " \t\r"@.contains(c) <==> c == ' ' || c == '\t' || c == '\r',
        " \t\r/"@.contains(c) <==> c == ' ' || c == '\t' || c == '\r' || c == '/',
        " \t\r\n#/"@.contains(c) <==> c == ' ' || c == '\t' || c == '\r' || c == '\n' || c == '#'
            || c == '/',
{
    reveal_strlit(" \t\r");
    reveal_strlit(" \t\r/");
    reveal_strlit(" \t\r\n#/");
    assert(" \t\r"@ =~= seq![' ', '\t', '\r']);
    assert(" \t\r/"@ =~= seq![' ', '\t', '\r', '/']);
    assert(" \t\r\n#/"@ =~= seq![' ', '\t', '\r', '\n', '#', '/']);
    let three = seq![' ', '\t', '\r'];
    let four = seq![' ', '\t', '\r', '/'];
    let six = seq![' ', '\t', '\r', '\n', '#', '/'];
    assert(three[0] == ' ' && three[1] == '\t' && three[2] == '\r');
    assert(four[0] == ' ' && four[1] == '\t' && four[2] == '\r' && four[3] == '/');
    assert(six[0] == ' ' && six[1] == '\t' && six[2] == '\r' && six[3] == '\n' && six[4] == '#'
        && six[5] == '/');
}

/// A negative index of a shape, and the number that it stands for.
proof fn lemma_negative_index(text: Seq<char>, i: int, end: int)
    requires
        is_negative_index(text, i, end),
    ensures
        negative_index(text, i, end),
        number(text.subrange(i + 1, end)) == decimal(text.subrange(i + 1, end)),
{
    lemma_blanks(text[i - 1]);
    if end < text.len() {
        lemma_blanks(text[end]);
    }
    let (start, tag) = choose|start: int, tag: int| #[trigger]
        tags_shape(text, start, tag) && tag < i && forall|j: int|
            tag <= j < i ==> #[trigger] text[j] != '\n' && text[j] != '#';
    assert forall|j: int| start <= j < tag implies #[trigger] text[j] == ' ' || text[j] == '\t'
        || text[j] == '\r' by {
        lemma_blanks(text[j]);
    }
    assert(shape_line(text, start, tag, i));
    let digits = text.subrange(i + 1, end);
    assert forall|j: int| 0 <= j < digits.len() implies '0' <= #[trigger] digits[j] <= '9' by {
        assert(digits[j] == text[i + 1 + j]);
    }
    lemma_number(digits);
}

/// Whether no negative index of a shape comes close to the smallest `isize`.
pub open spec fn indices_are_moderate(text: Seq<char>) -> bool {
    forall|i: int, end: int| #[trigger]
        negative_index(text, i, end) ==> {
            ||| number(text.subrange(i + 1, end)) + text.len() <= isize::MAX
            ||| number(text.subrange(i + 1, end)) > isize::MAX + 1
        }
}

/// Where no negative index comes close to the smallest `isize`, all fit.
proof fn lemma_indices_fit(text: Seq<char>)
    requires
        indices_are_moderate(text),
    ensures
        indices_fit(text),
{
    assert forall|i: int, end: int| #[trigger] is_negative_index(text, i, end) implies {
        let index = decimal(text.subrange(i + 1, end));
        index + text.len() <= isize::MAX || index > isize::MAX + 1
    } by {
        lemma_negative_index(text, i, end);
    }
}

/// Raw data can be taken for a set of objects wherever it is no text, or text in which no negative
/// index of a shape comes close to the smallest `isize`.
pub proof fn law_obj_set_from_raw_returns(assets: &Assets, data: &[u8])
    requires
        assets.wf(),
        valid_utf8(data@) ==> indices_are_moderate(decode_utf8(data@)),
    ensures
        call_requires(<ObjSet as AssetLoaderRaw>::from_raw, (assets, data)),
{
    if valid_utf8(data@) {
        lemma_indices_fit(decode_utf8(data@));
    }
}

/// Whether a mesh is loaded from raw data exactly where the parser reads a set of objects from it,
/// and is made of the corners of that set.
pub open spec fn follows_parser(
    before: AssetsView,
    name: Seq<char>,
    raw: Seq<u8>,
    after: AssetsView,
    result: Option<AssetId>,
) -> bool {
    if valid_utf8(raw) && parsed_set(decode_utf8(raw)) is Some {
        &&& result is Some
        &&& before.tables.contains_key(type_key::<Asset<Mesh>>())
            && !before.asset_ids.contains_key(name) ==> exists|mesh: Mesh|
            {
                &&& #[trigger] kept_as(after, name, mesh)
                &&& after.asset_ids[name] == result.unwrap()
                &&& forall|set: ObjSet, vertices: Vec<MeshVertex>| #[trigger]
                    call_ensures(flatten_objects, (&set,), vertices) && set_view(set)
                        == parsed_set(decode_utf8(raw)).unwrap() ==> mesh.vertices@ == vertices@
            }
    } else {
        result is None && after == before
    }
}

/// A mesh is loaded from raw data wherever the parser reads a set of objects from it. Only where it
/// does not, nothing is loaded.
pub proof fn law_mesh_load_follows_parser(
    before: AssetsView,
    name: Seq<char>,
    raw: Seq<u8>,
    after: AssetsView,
    result: Option<AssetId>,
)
    requires
        before.loads_raw::<Mesh, ObjSet>(name, raw, after, result),
    ensures
        follows_parser(before, name, raw, after, result),
{
    let data = choose|data: Option<ObjSet>| #[trigger]
        <ObjSet as AssetLoaderRaw>::decodes(before, raw, data) && match data {
            Some(d) => before.loads_data::<Mesh, ObjSet>(name, d, after, result),
            None => result is None && after == before,
        };
    if let Some(set) = data {
        let (between, asset) = choose|between: AssetsView, asset: Option<Mesh>| #[trigger]
            <ObjSet as AssetLoader<Mesh>>::loads(before, set, between, asset)
                && between.adds_loaded(name, asset, after, result);
        let mesh = asset.unwrap();
        if before.tables.contains_key(type_key::<Asset<Mesh>>()) && !before.asset_ids.contains_key(
            name,
        ) {
            law_first_asset_is_kept(before, name, mesh, after, result.unwrap());
            assert(kept_as(after, name, mesh));
        }
    }
}

/// Loading a mesh from raw data, by a name that goes by sets of objects, follows the parser.
pub proof fn law_load_mesh_from_raw(
    manager: &mut AssetManager,
    name: &str,
    asset_type: &str,
    raw: &[u8],
    result: Option<AssetId>,
)
    requires
        goes_by::<Mesh, ObjSet>(old(manager)@, asset_type@),
        call_ensures(
            AssetManager::load_asset_from_raw::<Mesh>,
            (manager, name, asset_type, raw),
            result,
        ),
    ensures
        follows_parser(old(manager)@.assets, name@, raw@, final(manager)@.assets, result),
{
    law_load_asset_from_raw::<Mesh>(manager, name, asset_type, raw, result);
    let before = old(manager)@.assets;
    assert forall|after: AssetsView| #[trigger]
        decoded_and_stored::<Mesh, ObjSet>(
            before,
            name@,
            raw@,
            after,
            result,
        ) implies follows_parser(before, name@, raw@, after, result) by {
        lemma_loads_raw::<Mesh, ObjSet>(before, name@, raw@, after, result);
        law_mesh_load_follows_parser(before, name@, raw@, after, result);
    }
}

} // verus!
