use rview::mesh::{append_primitive, gltf_mesh, obj_mesh, LoadError, ModelFormat, ObjModel};

fn model(name: &str, positions: Vec<i32>, indices: Vec<u32>) -> ObjModel<i32> {
    ObjModel { name: name.to_string(), positions, indices }
}

#[test]
fn extension_selects_format() {
    assert_eq!(ModelFormat::from_extension(Some("obj")).unwrap(), ModelFormat::Obj);
    assert_eq!(ModelFormat::from_extension(Some("gltf")).unwrap(), ModelFormat::Gltf);
    assert_eq!(ModelFormat::from_extension(Some("glb")).unwrap(), ModelFormat::Gltf);
    assert_eq!(ModelFormat::from_extension(Some("stl")).unwrap(), ModelFormat::Stl);
}

#[test]
fn missing_extension_is_an_error() {
    assert!(matches!(ModelFormat::from_extension(None), Err(LoadError::NoExtension)));
}

#[test]
fn unknown_extension_is_reported() {
    match ModelFormat::from_extension(Some("OBJ")) {
        Err(LoadError::UnsupportedFormat(e)) => assert_eq!(e, "OBJ"),
        _ => panic!("expected an unsupported format"),
    }
    assert!(matches!(ModelFormat::from_extension(Some("")), Err(LoadError::UnsupportedFormat(_))));
}

#[test]
fn obj_models_are_concatenated_with_offsets() {
    let models = vec![
        model("a", vec![0, 0, 0, 1, 0, 0, 0, 1, 0], vec![0, 1, 2]),
        model("b", vec![5, 5, 5, 6, 6, 6, 7, 7, 7, 8, 8, 8], vec![0, 1, 2, 1, 2, 3]),
    ];
    let mesh = obj_mesh(&models).unwrap();
    assert_eq!(
        mesh.vertices,
        vec![[0, 0, 0], [1, 0, 0], [0, 1, 0], [5, 5, 5], [6, 6, 6], [7, 7, 7], [8, 8, 8]]
    );
    assert_eq!(mesh.indices, vec![[0, 1, 2], [3, 4, 5], [4, 5, 6]]);
}

#[test]
fn obj_incomplete_coordinate_group_is_dropped() {
    let models = vec![model("a", vec![1, 2, 3, 4, 5], vec![0, 0, 0])];
    let mesh = obj_mesh(&models).unwrap();
    assert_eq!(mesh.vertices, vec![[1, 2, 3]]);
    assert_eq!(mesh.indices, vec![[0, 0, 0]]);
}

#[test]
fn obj_model_without_coordinates_is_skipped() {
    let models = vec![
        model("empty", vec![], vec![0, 1]),
        model("a", vec![1, 1, 1], vec![0, 0, 0]),
    ];
    let mesh = obj_mesh(&models).unwrap();
    assert_eq!(mesh.vertices, vec![[1, 1, 1]]);
    assert_eq!(mesh.indices, vec![[0, 0, 0]]);
}

#[test]
fn obj_without_models_is_an_error() {
    let models: Vec<ObjModel<i32>> = vec![];
    assert!(matches!(obj_mesh(&models), Err(LoadError::NoModels)));
}

#[test]
fn obj_untriangulated_model_is_named() {
    let models = vec![
        model("fine", vec![0, 0, 0], vec![0, 0, 0]),
        model("quad", vec![0, 0, 0, 1, 1, 1], vec![0, 1, 1, 0]),
        model("later", vec![0, 0, 0], vec![0]),
    ];
    match obj_mesh(&models) {
        Err(LoadError::NotTriangulated(name)) => assert_eq!(name, "quad"),
        _ => panic!("expected the untriangulated model"),
    }
}

#[test]
fn obj_without_vertices_is_an_error() {
    let models = vec![model("a", vec![], vec![]), model("b", vec![1, 2], vec![])];
    assert!(matches!(obj_mesh(&models), Err(LoadError::NoGeometry)));
}

#[test]
fn obj_indices_point_at_own_vertices() {
    let models = vec![
        model("a", vec![0; 6], vec![0, 1, 1]),
        model("b", vec![1; 9], vec![2, 1, 0]),
        model("c", vec![2; 3], vec![0, 0, 0]),
    ];
    let mesh = obj_mesh(&models).unwrap();
    assert_eq!(mesh.vertices.len(), 6);
    for t in &mesh.indices {
        for &i in t {
            assert!(i < mesh.vertices.len());
        }
    }
    assert_eq!(mesh.indices, vec![[0, 1, 1], [4, 3, 2], [5, 5, 5]]);
}

#[test]
fn primitive_adds_vertices_and_shifted_triangles() {
    let mut vs = vec!['a', 'b'];
    let mut is = vec![[0usize, 1, 1]];
    append_primitive(&mut vs, &mut is, Some(vec!['c', 'd', 'e']), Some(vec![0, 1, 2, 2, 1, 0]));
    assert_eq!(vs, vec!['a', 'b', 'c', 'd', 'e']);
    assert_eq!(is, vec![[0, 1, 1], [2, 3, 4], [4, 3, 2]]);
}

#[test]
fn primitive_without_positions_adds_nothing() {
    let mut vs = vec![1u8];
    let mut is: Vec<[usize; 3]> = vec![];
    append_primitive(&mut vs, &mut is, None, Some(vec![0, 0, 0]));
    assert_eq!(vs, vec![1]);
    assert!(is.is_empty());
}

#[test]
fn primitive_with_bad_index_count_adds_vertices_only() {
    let mut vs = vec![1u8];
    let mut is: Vec<[usize; 3]> = vec![];
    append_primitive(&mut vs, &mut is, Some(vec![2, 3]), Some(vec![0, 1]));
    assert_eq!(vs, vec![1, 2, 3]);
    assert!(is.is_empty());
    append_primitive(&mut vs, &mut is, Some(vec![4]), None);
    assert_eq!(vs, vec![1, 2, 3, 4]);
    assert!(is.is_empty());
}

#[test]
fn gltf_mesh_needs_a_vertex() {
    assert!(matches!(gltf_mesh::<u8>(vec![], vec![]), Err(LoadError::NoGeometry)));
    let mesh = gltf_mesh(vec![7u8], vec![[0, 0, 0]]).unwrap();
    assert_eq!(mesh.vertices, vec![7]);
    assert_eq!(mesh.indices, vec![[0, 0, 0]]);
}

#[test]
fn primitives_keep_indices_valid() {
    let mut vs: Vec<u8> = vec![];
    let mut is: Vec<[usize; 3]> = vec![];
    append_primitive(&mut vs, &mut is, Some(vec![0, 1, 2]), Some(vec![2, 1, 0]));
    append_primitive(&mut vs, &mut is, Some(vec![3, 4]), Some(vec![1, 1, 0]));
    append_primitive(&mut vs, &mut is, Some(vec![5, 6, 7, 8]), Some(vec![3, 2, 0, 1, 1, 1]));
    assert_eq!(is, vec![[2, 1, 0], [4, 4, 3], [8, 7, 5], [6, 6, 6]]);
    for t in &is {
        for &i in t {
            assert!(i < vs.len());
        }
    }
}
