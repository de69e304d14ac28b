use model_baker::check::{check_pick, check_picks, check_primitive, check_skin};
use model_baker::error::BakeError;
use model_baker::index::IndexType;
use model_baker::model::{node_stride, stride_of, MAX_MESHES, SKIN_STRIDE, STRIDE};
use model_baker::scene::{
    tri_mode, Node, Primitive, PrimitiveMode, SourceMesh, SourceSkin, Sphere, TriangleMode,
};
use model_baker::select::{find_entry, passes_filter, select_nodes, MeshName, Pick};
use model_baker::skin::bake_skin;
use model_baker::width::select_index_type;

fn primitive(mode: PrimitiveMode, vertices: usize) -> Primitive {
    Primitive {
        mode,
        positions: Some(vec![[0, 0, 0]; vertices]),
        indices: Some(vec![]),
        tex_coords: Some(vec![[0, 0]; vertices]),
        joints: None,
        weights: None,
    }
}

fn mesh(name: Option<&str>, primitives: Vec<Primitive>) -> SourceMesh {
    SourceMesh {
        name: name.map(|n| n.to_owned()),
        primitives,
        bounds: Sphere { center: [0, 0, 0], radius: 0 },
    }
}

fn node(name: Option<&str>) -> Node {
    Node { mesh: Some(mesh(name, vec![])), skin: None, transform: None }
}

fn entry(src: &str, dst: Option<&str>) -> MeshName {
    MeshName { src: src.to_owned(), dst: dst.map(|n| n.to_owned()) }
}

#[test]
fn triangle_modes_are_told_from_the_others() {
    let of = |mode| tri_mode(&primitive(mode, 0));
    assert_eq!(of(PrimitiveMode::TriangleFan), Some(TriangleMode::Fan));
    assert_eq!(of(PrimitiveMode::Triangles), Some(TriangleMode::List));
    assert_eq!(of(PrimitiveMode::TriangleStrip), Some(TriangleMode::Strip));
    assert_eq!(of(PrimitiveMode::Points), None);
    assert_eq!(of(PrimitiveMode::Lines), None);
    assert_eq!(of(PrimitiveMode::LineLoop), None);
    assert_eq!(of(PrimitiveMode::LineStrip), None);
}

#[test]
fn stride_goes_by_the_skin() {
    assert_eq!(stride_of(false), 20);
    assert_eq!(stride_of(true), 52);
    let mut with_skin = node(None);
    with_skin.skin = Some(SourceSkin { joints: vec![], inverse_binds: None });
    assert_eq!(node_stride(&node(None)), 20);
    assert_eq!(node_stride(&with_skin), 52);
    assert_eq!(node_stride(&Node { mesh: None, skin: None, transform: None }), 20);
    assert_eq!(STRIDE, 20);
    assert_eq!(SKIN_STRIDE, 52);
    assert_eq!(MAX_MESHES, 65535);
}

#[test]
fn lookup_finds_the_first_entry_for_a_name() {
    let filter = [entry("a", Some("x")), entry("b", None), entry("a", Some("y"))];
    assert_eq!(find_entry(&filter, &"a".to_owned()), Some(&filter[0]));
    assert_eq!(find_entry(&filter, &"b".to_owned()), Some(&filter[1]));
    assert_eq!(find_entry(&filter, &"c".to_owned()), None);
    assert_eq!(find_entry(&[], &"a".to_owned()), None);
    assert_eq!(find_entry(&filter, &"".to_owned()), None);
}

#[test]
fn filter_lets_names_through() {
    let filter = [entry("a", Some("x")), entry("b", None)];
    assert!(passes_filter(&Some("a".to_owned()), &filter));
    assert!(passes_filter(&Some("b".to_owned()), &filter));
    assert!(!passes_filter(&Some("c".to_owned()), &filter));
    assert!(!passes_filter(&None, &filter));
    assert!(passes_filter(&Some("c".to_owned()), &[]));
    assert!(passes_filter(&None, &[]));
}

#[test]
fn empty_filter_selects_every_node_with_a_mesh() {
    let mut transformed = node(Some("b"));
    transformed.transform = Some([7; 16]);
    transformed.skin = Some(SourceSkin { joints: vec![], inverse_binds: None });
    let nodes =
        [node(Some("a")), Node { mesh: None, skin: None, transform: None }, node(None), transformed];
    let chosen = select_nodes(&nodes, &[]);
    assert_eq!(chosen.len(), 3);
    assert!(chosen.iter().all(|pick| pick.name.is_none()));
    assert_eq!(chosen[0].mesh.name.as_deref(), Some("a"));
    assert_eq!(chosen[1].mesh.name, None);
    assert_eq!(chosen[2].mesh.name.as_deref(), Some("b"));
    assert_eq!(chosen[2].transform, Some([7; 16]));
    assert!(chosen[2].skin.is_some());
    assert!(chosen[0].skin.is_none());
    assert_eq!(chosen[0].transform, None);
}

#[test]
fn filter_selects_by_name_in_scene_order() {
    let nodes = [node(Some("c")), node(None), node(Some("a")), node(Some("d")), node(Some("a"))];
    let filter = [entry("a", Some("x")), entry("c", None), entry("zz", Some("never"))];
    let chosen = select_nodes(&nodes, &filter);
    let sources: Vec<Option<&str>> = chosen.iter().map(|p| p.mesh.name.as_deref()).collect();
    assert_eq!(sources, vec![Some("c"), Some("a"), Some("a")]);
    let names: Vec<Option<&str>> = chosen.iter().map(|p| p.name.as_deref()).collect();
    assert_eq!(names, vec![None, Some("x"), Some("x")]);
}

#[test]
fn width_is_16_bits_up_to_65535_vertices() {
    let small = mesh(None, vec![primitive(PrimitiveMode::Triangles, 65535)]);
    let large = mesh(None, vec![primitive(PrimitiveMode::TriangleStrip, 65536)]);
    let points = mesh(None, vec![primitive(PrimitiveMode::Points, 65536)]);
    let pick = |mesh| Pick { mesh, skin: None, transform: None, name: None };
    assert_eq!(select_index_type(&[]), Ok(IndexType::U16));
    assert_eq!(select_index_type(&[pick(&small)]), Ok(IndexType::U16));
    assert_eq!(select_index_type(&[pick(&small), pick(&points)]), Ok(IndexType::U16));
    assert_eq!(select_index_type(&[pick(&large)]), Ok(IndexType::U32));
    assert_eq!(select_index_type(&[pick(&small), pick(&large), pick(&small)]), Ok(IndexType::U32));
}

#[test]
fn width_needs_the_positions_of_every_triangle_primitive() {
    let mut fan = primitive(PrimitiveMode::TriangleFan, 3);
    fan.positions = None;
    let mut lines = primitive(PrimitiveMode::Lines, 3);
    lines.positions = None;
    let large = mesh(None, vec![primitive(PrimitiveMode::Triangles, 65536)]);
    let broken = mesh(None, vec![primitive(PrimitiveMode::Triangles, 3), fan]);
    let fine = mesh(None, vec![lines]);
    let pick = |mesh| Pick { mesh, skin: None, transform: None, name: None };
    assert_eq!(select_index_type(&[pick(&large), pick(&broken)]), Err(BakeError::MissingPositions));
    assert_eq!(select_index_type(&[pick(&fine)]), Ok(IndexType::U16));
}

#[test]
fn primitive_faults_come_in_a_fixed_order() {
    let mut p = primitive(PrimitiveMode::Triangles, 3);
    p.indices = Some(vec![0, 1, 2]);
    assert_eq!(check_primitive(&p, false), Ok(()));
    assert_eq!(check_primitive(&p, true), Err(BakeError::MissingJoints));
    p.joints = Some(vec![[0; 4]; 3]);
    assert_eq!(check_primitive(&p, true), Err(BakeError::MissingWeights));
    p.weights = Some(vec![[0; 4]; 2]);
    assert_eq!(check_primitive(&p, true), Err(BakeError::Malformed));
    assert_eq!(check_primitive(&p, false), Ok(()));
    p.weights = Some(vec![[0; 4]; 3]);
    assert_eq!(check_primitive(&p, true), Ok(()));
    p.indices = Some(vec![0, 1]);
    assert_eq!(check_primitive(&p, true), Err(BakeError::Malformed));
    p.tex_coords = None;
    assert_eq!(check_primitive(&p, true), Err(BakeError::MissingTexCoords));
    p.positions = None;
    assert_eq!(check_primitive(&p, true), Err(BakeError::MissingPositions));
    p.indices = None;
    assert_eq!(check_primitive(&p, true), Err(BakeError::MissingIndices));
    p.mode = PrimitiveMode::TriangleFan;
    assert_eq!(check_primitive(&p, true), Err(BakeError::NotTriangleList));
    for mode in [
        PrimitiveMode::TriangleStrip,
        PrimitiveMode::Points,
        PrimitiveMode::Lines,
        PrimitiveMode::LineLoop,
        PrimitiveMode::LineStrip,
    ] {
        p.mode = mode;
        assert_eq!(check_primitive(&p, true), Err(BakeError::NotTriangleList));
        assert_eq!(check_primitive(&primitive(mode, 3), false), Err(BakeError::NotTriangleList));
    }
}

#[test]
fn skin_needs_matrices_and_names() {
    let skin = |joints: &[Option<&str>], matrices: Option<usize>| SourceSkin {
        joints: joints.iter().map(|j| j.map(|n| n.to_owned())).collect(),
        inverse_binds: matrices.map(|n| vec![[0; 16]; n]),
    };
    assert_eq!(check_skin(&skin(&[], Some(0))), Ok(()));
    assert_eq!(check_skin(&skin(&[Some("a")], None)), Err(BakeError::MissingInverseBinds));
    assert_eq!(check_skin(&skin(&[None], None)), Err(BakeError::MissingInverseBinds));
    assert_eq!(check_skin(&skin(&[None], Some(0))), Err(BakeError::UnnamedJoint));
    assert_eq!(check_skin(&skin(&[Some("a"), None], Some(0))), Ok(()));
    assert_eq!(check_skin(&skin(&[Some("a"), None], Some(1))), Err(BakeError::UnnamedJoint));
    assert_eq!(check_skin(&skin(&[Some("a"), Some("b")], Some(5))), Ok(()));
    assert_eq!(bake_skin(&skin(&[Some("a")], None)), Err(BakeError::MissingInverseBinds));
    assert_eq!(bake_skin(&skin(&[Some("a"), None], Some(2))), Err(BakeError::UnnamedJoint));
}

#[test]
fn baked_skin_keeps_the_order_of_the_joints() {
    let skin = SourceSkin {
        joints: vec![Some("b".to_owned()), Some("a".to_owned()), Some("b".to_owned())],
        inverse_binds: Some(vec![[1; 16], [2; 16], [3; 16], [4; 16]]),
    };
    let joints = bake_skin(&skin).unwrap();
    assert_eq!(joints.len(), 3);
    assert_eq!(joints[0].name, "b");
    assert_eq!(joints[0].inverse_bind, [1; 16]);
    assert_eq!(joints[1].name, "a");
    assert_eq!(joints[1].inverse_bind, [2; 16]);
    assert_eq!(joints[2].name, "b");
    assert_eq!(joints[2].inverse_bind, [3; 16]);
}

#[test]
fn pick_is_checked_primitives_first_then_skin() {
    let bad_skin = SourceSkin { joints: vec![], inverse_binds: None };
    let good_skin = SourceSkin { joints: vec![], inverse_binds: Some(vec![]) };
    let mut fan = primitive(PrimitiveMode::TriangleFan, 3);
    fan.joints = Some(vec![[0; 4]; 3]);
    let mut list = primitive(PrimitiveMode::Triangles, 3);
    list.joints = Some(vec![[0; 4]; 3]);
    list.weights = Some(vec![[0; 4]; 3]);
    let sound = mesh(None, vec![list.clone()]);
    let faulty = mesh(None, vec![list, fan]);
    let pick = |mesh, skin| Pick { mesh, skin, transform: None, name: None };
    assert_eq!(check_pick(&pick(&sound, None)), Ok(()));
    assert_eq!(check_pick(&pick(&sound, Some(&good_skin))), Ok(()));
    assert_eq!(check_pick(&pick(&sound, Some(&bad_skin))), Err(BakeError::MissingInverseBinds));
    assert_eq!(check_pick(&pick(&faulty, Some(&bad_skin))), Err(BakeError::NotTriangleList));
    assert_eq!(
        check_picks(&[pick(&sound, None), pick(&sound, Some(&bad_skin)), pick(&faulty, None)]),
        Err(BakeError::MissingInverseBinds)
    );
    assert_eq!(check_picks(&[pick(&sound, None), pick(&sound, Some(&good_skin))]), Ok(()));
    assert_eq!(check_picks(&[]), Ok(()));
}

#[test]
fn size_is_judged_against_32_bit_counts() {
    let mut list = primitive(PrimitiveMode::Triangles, 65537);
    list.indices = Some(vec![0, 65536, 1]);
    let fits = mesh(None, vec![list.clone()]);
    list.positions = Some(vec![[0, 0, 0]; 65538]);
    list.tex_coords = Some(vec![[0, 0]; 65538]);
    let bursts = mesh(None, vec![list]);
    let pick = |mesh| Pick { mesh, skin: None, transform: None, name: None };
    let picks: Vec<Pick> = (0..65535).map(|_| pick(&fits)).collect();
    assert_eq!(check_picks(&picks), Ok(()));
    let mut picks = picks;
    picks[40000] = pick(&bursts);
    assert_eq!(check_picks(&picks), Err(BakeError::TooLarge));
}
