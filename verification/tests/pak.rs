use model_baker::error::BakeError;
use model_baker::flatten::flatten_scene;
use model_baker::pak::{bake_model, Baked, ModelId, PakBuf};
use model_baker::scene::{Node, Primitive, PrimitiveMode, SourceMesh, Sphere};
use model_baker::select::MeshName;

fn triangles(vertices: usize, indices: Vec<u32>) -> Primitive {
    Primitive {
        mode: PrimitiveMode::Triangles,
        positions: Some((0..vertices).map(|v| [v as u32, 0, 0]).collect()),
        indices: Some(indices),
        tex_coords: Some(vec![[0, 0]; vertices]),
        joints: None,
        weights: None,
    }
}

fn scene(name: &str, vertices: usize) -> Vec<Node> {
    vec![Node {
        mesh: Some(SourceMesh {
            name: Some(name.to_owned()),
            primitives: vec![triangles(vertices, vec![0, 1, 2])],
            bounds: Sphere { center: [0, 0, 0], radius: 0 },
        }),
        skin: None,
        transform: None,
    }]
}

fn broken_scene() -> Vec<Node> {
    let mut nodes = scene("broken", 3);
    nodes[0].mesh.as_mut().unwrap().primitives[0].indices = None;
    nodes
}

#[test]
fn new_store_is_empty() {
    let pak = PakBuf::new();
    assert_eq!(pak.len(), 0);
    assert_eq!(pak.id(&"a".to_owned()), None);
    assert!(pak.model(ModelId(0)).is_none());
    assert!(pak.key(ModelId(0)).is_none());
}

#[test]
fn pushed_models_are_numbered_in_order() {
    let mut pak = PakBuf::new();
    let first = flatten_scene(&scene("a", 3), &[]).unwrap().model;
    let second = flatten_scene(&scene("b", 4), &[]).unwrap().model;
    assert_eq!(pak.push_model("one".to_owned(), first), ModelId(0));
    assert_eq!(pak.push_model("two".to_owned(), second), ModelId(1));
    assert_eq!(pak.len(), 2);
    assert_eq!(pak.id(&"one".to_owned()), Some(ModelId(0)));
    assert_eq!(pak.id(&"two".to_owned()), Some(ModelId(1)));
    assert_eq!(pak.id(&"three".to_owned()), None);
    assert_eq!(pak.key(ModelId(1)).map(|k| k.as_str()), Some("two"));
    assert_eq!(pak.model(ModelId(0)).unwrap().vertex_buffer().len(), 60);
    assert_eq!(pak.model(ModelId(1)).unwrap().vertex_buffer().len(), 80);
    assert!(pak.model(ModelId(2)).is_none());
}

#[test]
fn first_of_two_equal_keys_is_found() {
    let mut pak = PakBuf::new();
    let first = flatten_scene(&scene("a", 3), &[]).unwrap().model;
    let second = flatten_scene(&scene("b", 4), &[]).unwrap().model;
    pak.push_model("same".to_owned(), first);
    pak.push_model("same".to_owned(), second);
    assert_eq!(pak.id(&"same".to_owned()), Some(ModelId(0)));
}

#[test]
fn baking_the_same_key_twice_gives_the_same_model() {
    let mut pak = PakBuf::new();
    let key = "models/cube".to_owned();
    let first = bake_model(&key, &scene("cube", 3), &[], &mut pak);
    assert_eq!(first, Ok(Baked { id: ModelId(0), skipped: 0 }));
    assert_eq!(pak.len(), 1);
    let second = bake_model(&key, &scene("cube", 3), &[], &mut pak);
    assert_eq!(second, first);
    assert_eq!(pak.len(), 1);
    assert_eq!(pak.model(ModelId(0)).unwrap().vertex_buffer().len(), 60);
}

#[test]
fn known_key_is_answered_without_a_look_at_the_scene() {
    let mut pak = PakBuf::new();
    let key = "models/cube".to_owned();
    let first = bake_model(&key, &scene("cube", 3), &[], &mut pak).unwrap();
    let again = bake_model(&key, &scene("other", 5), &[], &mut pak).unwrap();
    assert_eq!(again, first);
    let broken = bake_model(&key, &broken_scene(), &[], &mut pak).unwrap();
    assert_eq!(broken, first);
    assert_eq!(pak.len(), 1);
    assert_eq!(
        pak.model(first.id).unwrap(),
        &flatten_scene(&scene("cube", 3), &[]).unwrap().model
    );
}

#[test]
fn new_keys_get_new_numbers() {
    let mut pak = PakBuf::new();
    let a = bake_model(&"a".to_owned(), &scene("a", 3), &[], &mut pak).unwrap();
    let b = bake_model(&"b".to_owned(), &scene("b", 4), &[], &mut pak).unwrap();
    let a_again = bake_model(&"a".to_owned(), &scene("a", 3), &[], &mut pak).unwrap();
    assert_eq!(a.id, ModelId(0));
    assert_eq!(b.id, ModelId(1));
    assert_eq!(a_again.id, ModelId(0));
    assert_eq!(pak.len(), 2);
    assert_eq!(pak.id(&"b".to_owned()), Some(ModelId(1)));
}

#[test]
fn failed_bake_leaves_the_store_alone() {
    let mut pak = PakBuf::new();
    bake_model(&"a".to_owned(), &scene("a", 3), &[], &mut pak).unwrap();
    let failed = bake_model(&"b".to_owned(), &broken_scene(), &[], &mut pak);
    assert_eq!(failed, Err(BakeError::MissingIndices));
    assert_eq!(pak.len(), 1);
    assert_eq!(pak.id(&"b".to_owned()), None);
    let mended = bake_model(&"b".to_owned(), &scene("b", 3), &[], &mut pak).unwrap();
    assert_eq!(mended.id, ModelId(1));
}

#[test]
fn scene_with_points_or_lines_is_not_registered() {
    for mode in [
        PrimitiveMode::Points,
        PrimitiveMode::Lines,
        PrimitiveMode::LineLoop,
        PrimitiveMode::LineStrip,
        PrimitiveMode::TriangleStrip,
        PrimitiveMode::TriangleFan,
    ] {
        let mut pak = PakBuf::new();
        let mut nodes = scene("cloud", 3);
        nodes[0].mesh.as_mut().unwrap().primitives[0].mode = mode;
        let baked = bake_model(&"cloud".to_owned(), &nodes, &[], &mut pak);
        assert_eq!(baked, Err(BakeError::NotTriangleList));
        assert_eq!(pak.len(), 0);
        assert_eq!(pak.id(&"cloud".to_owned()), None);
    }
}

#[test]
fn bake_applies_the_filter() {
    let mut pak = PakBuf::new();
    let mut nodes = scene("Cube", 3);
    nodes.extend(scene("Sphere", 4));
    nodes.extend(scene("Lamp", 5));
    let filter = [
        MeshName { src: "Cube".to_owned(), dst: Some("Box".to_owned()) },
        MeshName { src: "Sphere".to_owned(), dst: None },
    ];
    let baked = bake_model(&"scene".to_owned(), &nodes, &filter, &mut pak).unwrap();
    let model = pak.model(baked.id).unwrap();
    assert_eq!(model.meshes().len(), 2);
    assert_eq!(model.meshes()[0].name(), Some("Box"));
    assert_eq!(model.meshes()[1].name(), None);
}
