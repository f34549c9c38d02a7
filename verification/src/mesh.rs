use vstd::prelude::*;

verus! {

/// A triangle mesh: vertex positions and, for each triangle, the indices of
/// its three corners in `vertices`.
pub struct Mesh<V> {
    pub vertices: Vec<V>,
    pub indices: Vec<[usize; 3]>,
}

/// The model file formats that can be loaded.
#[derive(Clone, Copy, Debug, PartialEq, Eq, Structural)]
pub enum ModelFormat {
    Obj,
    Gltf,
    Stl,
}

/// Why a model could not be turned into a mesh.
#[derive(Debug)]
pub enum LoadError {
    /// The file name has no extension.
    NoExtension,
    /// The extension names no supported format; it is held here.
    UnsupportedFormat(String),
    /// The OBJ file holds no model.
    NoModels,
    /// The named OBJ model has an index count that is not a multiple of three.
    NotTriangulated(String),
    /// No vertex was found in the file.
    NoGeometry,
}

/// One model of an OBJ file: its name, its flat coordinate list (three
/// entries per vertex) and its flat index list (three entries per triangle).
pub struct ObjModel<T> {
    pub name: String,
    pub positions: Vec<T>,
    pub indices: Vec<u32>,
}

/// The format that a file extension selects, if any.
pub open spec fn format_of(ext: Seq<char>) -> Option<ModelFormat> {
    if ext == "obj"@ {
        Some(ModelFormat::Obj)
    } else if ext == "gltf"@ || ext == "glb"@ {
        Some(ModelFormat::Gltf)
    } else if ext == "stl"@ {
        Some(ModelFormat::Stl)
    } else {
        None
    }
}

/// Consecutive groups of three entries of `s`; an incomplete last group is
/// dropped.
pub open spec fn triples<T>(s: Seq<T>) -> Seq<[T; 3]> {
    Seq::new(s.len() / 3, |i: int| [s[3 * i], s[3 * i + 1], s[3 * i + 2]])
}

/// Consecutive groups of three indices of `raw`, each shifted by `offset`;
/// an incomplete last group is dropped.
pub open spec fn offset_triples(raw: Seq<u32>, offset: nat) -> Seq<[usize; 3]> {
    Seq::new(
        raw.len() / 3,
        |i: int|
            [
                (offset + raw[3 * i]) as usize,
                (offset + raw[3 * i + 1]) as usize,
                (offset + raw[3 * i + 2]) as usize,
            ],
    )
}

/// Every index of `raw`, shifted by `offset`, fits in a `usize`.
pub open spec fn shifted_fits(raw: Seq<u32>, offset: nat) -> bool {
    forall|k: int| 0 <= k < raw.len() ==> offset + #[trigger] raw[k] <= usize::MAX
}

/// Number of whole vertices in all the models' coordinate lists.
pub open spec fn obj_vertex_total<T>(models: Seq<ObjModel<T>>) -> nat
    decreases models.len(),
{
    if models.len() == 0 {
        0
    } else {
        obj_vertex_total(models.drop_last()) + models.last().positions@.len() / 3
    }
}

/// The vertices and triangles of the models taken in order, or the name of
/// the first model with vertices whose index count is not a multiple of
/// three. A model without coordinates is skipped; each model's indices are
/// shifted by the number of vertices before it.
pub open spec fn obj_fold<T>(models: Seq<ObjModel<T>>) -> Result<
    (Seq<[T; 3]>, Seq<[usize; 3]>),
    Seq<char>,
>
    decreases models.len(),
{
    if models.len() == 0 {
        Ok((Seq::empty(), Seq::empty()))
    } else {
        match obj_fold(models.drop_last()) {
            Err(name) => Err(name),
            Ok((vs, is)) => {
                let m = models.last();
                if m.positions@.len() == 0 {
                    Ok((vs, is))
                } else if m.indices@.len() % 3 != 0 {
                    Err(m.name@)
                } else {
                    Ok((vs + triples(m.positions@), is + offset_triples(m.indices@, vs.len())))
                }
            },
        }
    }
}

impl ModelFormat {
    /// The format that a file's extension selects: fails when there is no
    /// extension or it names no supported format.
    pub fn from_extension(ext: Option<&str>) -> (r: Result<ModelFormat, LoadError>)
        ensures
            match r {
                Ok(f) => ext matches Some(e) && format_of(e@) == Some(f),
                Err(LoadError::NoExtension) => ext is None,
                Err(LoadError::UnsupportedFormat(s)) => ext matches Some(e) && format_of(e@) is None
                    && s@ == e@,
                Err(_) => false,
            },
    {
        match ext {
            None => Err(LoadError::NoExtension),
            Some(e) => {
                let owned = e.to_owned();
                if owned == String::from_str("obj") {
                    Ok(ModelFormat::Obj)
                } else if owned == String::from_str("gltf") || owned == String::from_str("glb") {
                    Ok(ModelFormat::Gltf)
                } else if owned == String::from_str("stl") {
                    Ok(ModelFormat::Stl)
                } else {
                    Err(LoadError::UnsupportedFormat(owned))
                }
            },
        }
    }
}

/// Appends the groups of three entries of `src` to `out`.
fn push_triples<T: Copy>(out: &mut Vec<[T; 3]>, src: &Vec<T>)
    ensures
        final(out)@ == old(out)@ + triples(src@),
{
    let n = src.len() / 3;
    let mut i: usize = 0;
    while i < n
        invariant
            n == src@.len() / 3,
            i <= n,
            out@ == old(out)@ + triples(src@).take(i as int),
        decreases n - i,
    {
        assert(3 * i + 2 < src.len()) by (nonlinear_arith)
            requires
                i < n,
                n == src.len() / 3,
        ;
        let t = [src[3 * i], src[3 * i + 1], src[3 * i + 2]];
        out.push(t);
        assert(triples(src@).take(i + 1) =~= triples(src@).take(i as int).push(t));
        i = i + 1;
    }
    assert(triples(src@).take(n as int) =~= triples(src@));
}

/// Appends the groups of three indices of `raw`, shifted by `offset`, to
/// `out`.
fn push_offset_triples(out: &mut Vec<[usize; 3]>, raw: &Vec<u32>, offset: usize)
    requires
        shifted_fits(raw@, offset as nat),
    ensures
        final(out)@ == old(out)@ + offset_triples(raw@, offset as nat),
{
    let n = raw.len() / 3;
    let mut i: usize = 0;
    while i < n
        invariant
            n == raw@.len() / 3,
            i <= n,
            shifted_fits(raw@, offset as nat),
            out@ == old(out)@ + offset_triples(raw@, offset as nat).take(i as int),
        decreases n - i,
    {
        assert(3 * i + 2 < raw.len()) by (nonlinear_arith)
            requires
                i < n,
                n == raw.len() / 3,
        ;
        let a = raw[3 * i];
        let b = raw[3 * i + 1];
        let c = raw[3 * i + 2];
        assert(offset + raw@[3 * i] <= usize::MAX);
        assert(offset + raw@[3 * i + 1] <= usize::MAX);
        assert(offset + raw@[3 * i + 2] <= usize::MAX);
        let t = [offset + a as usize, offset + b as usize, offset + c as usize];
        out.push(t);
        assert(offset_triples(raw@, offset as nat).take(i + 1) =~= offset_triples(
            raw@,
            offset as nat,
        ).take(i as int).push(t));
        i = i + 1;
    }
    assert(offset_triples(raw@, offset as nat).take(n as int) =~= offset_triples(
        raw@,
        offset as nat,
    ));
}

/// When the models fold without error, the vertex count is the number of
/// whole vertices in their coordinate lists.
proof fn lemma_fold_vertex_count<T>(models: Seq<ObjModel<T>>)
    ensures
        obj_fold(models) matches Ok((vs, is)) ==> vs.len() == obj_vertex_total(models),
    decreases models.len(),
{
    if models.len() > 0 {
        lemma_fold_vertex_count(models.drop_last());
    }
}

/// Once a prefix of the models fails, every longer prefix fails the same way.
proof fn lemma_fold_error_persists<T>(models: Seq<ObjModel<T>>, j: int, k: int)
    requires
        0 <= j <= k <= models.len(),
        obj_fold(models.take(j)) is Err,
    ensures
        obj_fold(models.take(k)) == obj_fold(models.take(j)),
    decreases k - j,
{
    if k > j {
        lemma_fold_error_persists(models, j, k - 1);
        assert(models.take(k).drop_last() =~= models.take(k - 1));
    }
}

/// Gathers the models of an OBJ file into one mesh: the vertices of all
/// models in order and their triangles, each model's indices shifted by the
/// number of vertices before it. Models without coordinates are skipped.
/// Fails when there is no model, when a model with coordinates has an index
/// count that is not a multiple of three, or when no vertex results.
pub fn obj_mesh<T: Copy>(models: &Vec<ObjModel<T>>) -> (r: Result<Mesh<[T; 3]>, LoadError>)
    requires
        forall|i: int|
            0 <= i < models@.len() ==> shifted_fits(
                #[trigger] models@[i].indices@,
                obj_vertex_total(models@.take(i)),
            ),
    ensures
        match r {
            Ok(mesh) => models@.len() > 0 && obj_fold(models@) == Ok::<_, Seq<char>>(
                (mesh.vertices@, mesh.indices@),
            ) && mesh.vertices@.len() > 0,
            Err(LoadError::NoModels) => models@.len() == 0,
            Err(LoadError::NotTriangulated(name)) => models@.len() > 0 && obj_fold(models@)
                == Err::<(Seq<[T; 3]>, Seq<[usize; 3]>), _>(name@),
            Err(LoadError::NoGeometry) => models@.len() > 0 && (obj_fold(models@) matches Ok(
                (vs, is),
            ) && vs.len() == 0),
            Err(_) => false,
        },
{
    if models.len() == 0 {
        return Err(LoadError::NoModels);
    }
    let mut vertices: Vec<[T; 3]> = Vec::new();
    let mut indices: Vec<[usize; 3]> = Vec::new();
    let n = models.len();
    let mut i: usize = 0;
    assert(models@.take(0) =~= Seq::<ObjModel<T>>::empty());
    while i < n
        invariant
            n == models@.len(),
            i <= n,
            forall|k: int|
                0 <= k < models@.len() ==> shifted_fits(
                    #[trigger] models@[k].indices@,
                    obj_vertex_total(models@.take(k)),
                ),
            obj_fold(models@.take(i as int)) == Ok::<_, Seq<char>>((vertices@, indices@)),
        decreases n - i,
    {
        let model = &models[i];
        let vertex_offset = vertices.len();
        proof {
            lemma_fold_vertex_count(models@.take(i as int));
            assert(models@.take(i + 1).drop_last() =~= models@.take(i as int));
            assert(models@.take(i + 1).last() == models@[i as int]);
            assert(shifted_fits(models@[i as int].indices@, obj_vertex_total(models@.take(i as int))));
        }
        if model.positions.len() == 0 {
            i = i + 1;
            continue;
        }
        if model.indices.len() % 3 != 0 {
            proof {
                lemma_fold_error_persists(models@, i + 1, n as int);
                assert(models@.take(n as int) =~= models@);
            }
            return Err(LoadError::NotTriangulated(model.name.clone()));
        }
        push_triples(&mut vertices, &model.positions);
        push_offset_triples(&mut indices, &model.indices, vertex_offset);
        i = i + 1;
    }
    assert(models@.take(n as int) =~= models@);
    if vertices.len() == 0 {
        return Err(LoadError::NoGeometry);
    }
    Ok(Mesh { vertices, indices })
}

/// What appending one glTF primitive does to the vertex list: its
/// positions, if it has any, go to the end.
pub open spec fn primitive_vertices<V>(before: Seq<V>, positions: Option<Vec<V>>) -> Seq<V> {
    match positions {
        Some(p) => before + p@,
        None => before,
    }
}

/// What appending one glTF primitive does to the triangle list: when it has
/// positions and an index list whose length is a multiple of three, its
/// triangles, shifted by the vertex count before it, go to the end.
pub open spec fn primitive_indices(
    before: Seq<[usize; 3]>,
    vertex_offset: nat,
    has_positions: bool,
    raw_indices: Option<Vec<u32>>,
) -> Seq<[usize; 3]> {
    match raw_indices {
        Some(raw) => if has_positions && raw@.len() % 3 == 0 {
            before + offset_triples(raw@, vertex_offset)
        } else {
            before
        },
        None => before,
    }
}

/// Appends one primitive of a glTF mesh, whose positions are already in
/// model space, to the vertex and triangle lists. A primitive without
/// positions adds nothing; one whose index list is missing or not a multiple
/// of three in length adds its vertices only.
pub fn append_primitive<V>(
    vertices: &mut Vec<V>,
    indices: &mut Vec<[usize; 3]>,
    positions: Option<Vec<V>>,
    raw_indices: Option<Vec<u32>>,
)
    requires
        raw_indices matches Some(raw) ==> shifted_fits(raw@, old(vertices)@.len()),
    ensures
        final(vertices)@ == primitive_vertices(old(vertices)@, positions),
        final(indices)@ == primitive_indices(
            old(indices)@,
            old(vertices)@.len(),
            positions is Some,
            raw_indices,
        ),
{
    let vertex_offset = vertices.len();
    let Some(mut new_verts) = positions else {
        return;
    };
    vertices.append(&mut new_verts);
    let Some(raw) = raw_indices else {
        return;
    };
    if raw.len() % 3 != 0 {
        return;
    }
    push_offset_triples(indices, &raw, vertex_offset);
}

/// The mesh gathered from all primitives of a glTF file; fails when it has
/// no vertex.
pub fn gltf_mesh<V>(vertices: Vec<V>, indices: Vec<[usize; 3]>) -> (r: Result<
    Mesh<V>,
    LoadError,
>)
    ensures
        match r {
            Ok(mesh) => vertices@.len() > 0 && mesh.vertices@ == vertices@ && mesh.indices@
                == indices@,
            Err(LoadError::NoGeometry) => vertices@.len() == 0,
            Err(_) => false,
        },
{
    if vertices.len() == 0 {
        return Err(LoadError::NoGeometry);
    }
    Ok(Mesh { vertices, indices })
}

/// Every corner index of every triangle is below `count`.
pub open spec fn indices_below(is: Seq<[usize; 3]>, count: nat) -> bool {
    forall|t: int, c: int| 0 <= t < is.len() && 0 <= c < 3 ==> #[trigger] is[t][c] < count
}

/// Every index of a flat list is below `count`.
pub open spec fn raw_below(raw: Seq<u32>, count: nat) -> bool {
    forall|k: int| 0 <= k < raw.len() ==> #[trigger] raw[k] < count
}

/// Shifting indices that are valid for a block of `count` vertices by the
/// number of vertices before it gives indices that are valid for the whole.
proof fn lemma_offset_triples_below(raw: Seq<u32>, offset: nat, count: nat)
    requires
        raw_below(raw, count),
        shifted_fits(raw, offset),
    ensures
        indices_below(offset_triples(raw, offset), offset + count),
{
    let ts = offset_triples(raw, offset);
    assert forall|t: int, c: int| 0 <= t < ts.len() && 0 <= c < 3 implies #[trigger] ts[t][c]
        < offset + count by {
        assert(3 * t + 2 < raw.len());
        let k = 3 * t + c;
        assert(raw[k] < count);
        assert(offset + raw[k] <= usize::MAX);
        if c == 0 {
            assert(ts[t][c] == (offset + raw[3 * t]) as usize);
        } else if c == 1 {
            assert(ts[t][c] == (offset + raw[3 * t + 1]) as usize);
        } else {
            assert(ts[t][c] == (offset + raw[3 * t + 2]) as usize);
        }
    }
}

/// Gathering OBJ models keeps triangles pointing at their own model's
/// vertices: when each model's indices are valid for its own vertices, every
/// index of the gathered mesh is valid for the gathered vertices.
pub proof fn lemma_obj_indices_stay_valid<T>(models: Seq<ObjModel<T>>)
    requires
        forall|i: int|
            0 <= i < models.len() ==> shifted_fits(
                #[trigger] models[i].indices@,
                obj_vertex_total(models.take(i)),
            ),
        forall|i: int|
            0 <= i < models.len() ==> raw_below(
                #[trigger] models[i].indices@,
                models[i].positions@.len() / 3,
            ),
    ensures
        obj_fold(models) matches Ok((vs, is)) ==> indices_below(is, vs.len()),
    decreases models.len(),
{
    if models.len() > 0 {
        let prev = models.drop_last();
        let n = models.len() - 1;
        assert forall|i: int| 0 <= i < prev.len() implies shifted_fits(
            #[trigger] prev[i].indices@,
            obj_vertex_total(prev.take(i)),
        ) by {
            assert(prev.take(i) =~= models.take(i));
            assert(prev[i] == models[i]);
        }
        assert forall|i: int| 0 <= i < prev.len() implies raw_below(
            #[trigger] prev[i].indices@,
            prev[i].positions@.len() / 3,
        ) by {
            assert(prev[i] == models[i]);
        }
        lemma_obj_indices_stay_valid(prev);
        lemma_fold_vertex_count(prev);
        assert(models.take(n) =~= prev);
        assert(models[n] == models.last());
        if let Ok((vs, is)) = obj_fold(prev) {
            let m = models.last();
            if m.positions@.len() != 0 && m.indices@.len() % 3 == 0 {
                assert(shifted_fits(m.indices@, obj_vertex_total(prev)));
                assert(raw_below(m.indices@, m.positions@.len() / 3));
                lemma_offset_triples_below(m.indices@, vs.len(), m.positions@.len() / 3);
                let is2 = is + offset_triples(m.indices@, vs.len());
                let count = vs.len() + triples(m.positions@).len();
                assert forall|t: int, c: int| 0 <= t < is2.len() && 0 <= c < 3 implies #[trigger] is2[t][c]
                    < count by {
                    if t < is.len() {
                        assert(is2[t] == is[t]);
                    } else {
                        assert(is2[t] == offset_triples(m.indices@, vs.len())[t - is.len()]);
                    }
                }
            }
        }
    }
}

/// Appending a primitive keeps triangles valid: if the triangles so far
/// point at existing vertices and the primitive's indices are valid for its
/// own positions, all triangles afterwards point at existing vertices.
pub proof fn lemma_primitive_indices_stay_valid<V>(
    vertices: Seq<V>,
    indices: Seq<[usize; 3]>,
    positions: Option<Vec<V>>,
    raw_indices: Option<Vec<u32>>,
)
    requires
        indices_below(indices, vertices.len()),
        raw_indices matches Some(raw) ==> shifted_fits(raw@, vertices.len()),
        positions matches Some(p) ==> (raw_indices matches Some(raw) ==> raw_below(
            raw@,
            p@.len(),
        )),
    ensures
        indices_below(
            primitive_indices(indices, vertices.len(), positions is Some, raw_indices),
            primitive_vertices(vertices, positions).len(),
        ),
{
    let vs2 = primitive_vertices(vertices, positions);
    let is2 = primitive_indices(indices, vertices.len(), positions is Some, raw_indices);
    if let Some(p) = positions {
        if let Some(raw) = raw_indices {
            if raw@.len() % 3 == 0 {
                lemma_offset_triples_below(raw@, vertices.len(), p@.len());
                assert forall|t: int, c: int| 0 <= t < is2.len() && 0 <= c < 3 implies #[trigger] is2[t][c]
                    < vs2.len() by {
                    if t < indices.len() {
                        assert(is2[t] == indices[t]);
                    } else {
                        assert(is2[t] == offset_triples(raw@, vertices.len())[t - indices.len()]);
                    }
                }
            }
        }
    }
}

/// Exactly the extensions `obj`, `gltf`, `glb` and `stl` select a format:
/// OBJ, glTF, glTF and STL respectively; no other extension selects one.
pub proof fn lemma_supported_extensions(e: Seq<char>)
    ensures
        format_of(e) == Some(ModelFormat::Obj) <==> e == "obj"@,
        format_of(e) == Some(ModelFormat::Gltf) <==> (e == "gltf"@ || e == "glb"@),
        format_of(e) == Some(ModelFormat::Stl) <==> e == "stl"@,
        format_of(e) is None <==> (e != "obj"@ && e != "gltf"@ && e != "glb"@ && e != "stl"@),
{
    reveal_strlit("obj");
    reveal_strlit("gltf");
    reveal_strlit("glb");
    reveal_strlit("stl");
    assert("obj"@.len() == 3 && "gltf"@.len() == 4 && "glb"@.len() == 3 && "stl"@.len() == 3);
    assert("obj"@[0] == 'o' && "glb"@[0] == 'g' && "stl"@[0] == 's');
    assert("obj"@ != "gltf"@);
    assert("obj"@ != "glb"@);
    assert("obj"@ != "stl"@);
    assert("gltf"@ != "stl"@);
    assert("glb"@ != "stl"@);
}

} // verus!
