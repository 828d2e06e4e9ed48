use scene_core::Camera;
use scene_core::EntityId;
use scene_core::Model;
use scene_core::Object;
use scene_core::Scene;
use scene_core::Texture;
use scene_core::UI;

type TestScene = Scene<f32, [f32; 16], [f32; 3], [f32; 7]>;

const IDENTITY: [f32; 16] = [
    1.0, 0.0, 0.0, 0.0, 0.0, 1.0, 0.0, 0.0, 0.0, 0.0, 1.0, 0.0, 0.0, 0.0, 0.0, 1.0,
];

fn empty_scene() -> TestScene {
    Scene {
        camera: Camera::new(16.0 / 9.0, 1.0, 1.0, 200.0, IDENTITY),
        ui: UI::new(16.0 / 9.0),
        models: Vec::new(),
        objects: Vec::new(),
        textures: Vec::new(),
    }
}

fn entity(index: u32) -> EntityId {
    EntityId {
        index,
        generation: 1,
    }
}

fn object(index: u32) -> Object<[f32; 7]> {
    Object {
        id: entity(index),
        model: None,
        texture: None,
        position: [0.0, 0.0, 0.0, 0.0, 0.0, 0.0, 1.0],
    }
}

#[test]
fn add_or_get_model_is_idempotent() {
    let mut scene = empty_scene();
    let first = scene.add_or_get_model(&"cube.obj".to_string(), None);
    assert_eq!(first, 0);
    assert_eq!(scene.models.len(), 1);
    let second = scene.add_or_get_model(&"cube.obj".to_string(), None);
    assert_eq!(second, first);
    assert_eq!(scene.models.len(), 1);
}

#[test]
fn add_or_get_model_last_writer_wins() {
    let mut scene = empty_scene();
    scene.add_or_get_model(&"cube.obj".to_string(), Some([1.0, 0.0, 0.0]));
    let index = scene.add_or_get_model(&"cube.obj".to_string(), Some([0.0, 2.0, 0.0]));
    assert_eq!(index, 0);
    assert_eq!(scene.models[0].offset, Some([0.0, 2.0, 0.0]));
    assert_eq!(scene.models[0].path, "cube.obj");
}

#[test]
fn add_or_get_model_keeps_offset_without_writer() {
    let mut scene = empty_scene();
    scene.add_or_get_model(&"cube.obj".to_string(), Some([1.0, 2.0, 3.0]));
    scene.add_or_get_model(&"cube.obj".to_string(), None);
    assert_eq!(scene.models[0].offset, Some([1.0, 2.0, 3.0]));
}

#[test]
fn add_or_get_model_appends_distinct_paths() {
    let mut scene = empty_scene();
    let a = scene.add_or_get_model(&"a.obj".to_string(), None);
    let b = scene.add_or_get_model(&"b.obj".to_string(), Some([4.0, 5.0, 6.0]));
    assert_eq!(a, 0);
    assert_eq!(b, 1);
    assert_eq!(scene.models.len(), 2);
    assert_eq!(scene.models[0].path, "a.obj");
    assert_eq!(scene.models[1].path, "b.obj");
    assert_eq!(scene.models[1].offset, Some([4.0, 5.0, 6.0]));
}

#[test]
fn mutation_with_absent_identity_changes_nothing() {
    let mut scene = empty_scene();
    scene.objects.push(object(1));
    scene.textures.push(Texture {
        path: "grass.png".to_string(),
    });
    scene.add_or_get_model(&"cube.obj".to_string(), None);
    let before = scene.clone();

    let absent = entity(99);
    assert!(!scene.set_model(absent, &"cube.obj".to_string(), None));
    assert!(!scene.set_texture(absent, &"grass.png".to_string()));
    assert!(!scene.set_position(absent, [9.0; 7]));

    assert!(scene == before);
}

#[test]
fn get_texture_never_creates() {
    let scene = empty_scene();
    assert_eq!(scene.get_texture(&"missing.png".to_string()), None);
    assert_eq!(scene.textures.len(), 0);
}

#[test]
fn set_texture_with_unknown_path_changes_nothing() {
    let mut scene = empty_scene();
    scene.objects.push(object(1));
    let before = scene.clone();
    assert!(!scene.set_texture(entity(1), &"missing.png".to_string()));
    assert!(scene == before);
    assert_eq!(scene.objects[0].texture, None);
}

#[test]
fn set_model_deduplicates_across_objects() {
    let mut scene = empty_scene();
    scene.objects.push(object(1));
    scene.objects.push(object(2));

    assert!(scene.set_model(entity(1), &"cube.obj".to_string(), None));
    assert_eq!(scene.models.len(), 1);
    assert_eq!(scene.objects[0].model, Some(0));

    assert!(scene.set_model(entity(2), &"cube.obj".to_string(), None));
    assert_eq!(scene.models.len(), 1);
    assert_eq!(scene.objects[1].model, Some(0));
}

#[test]
fn set_model_overwrites_offset_of_existing_model() {
    let mut scene = empty_scene();
    scene.objects.push(object(1));
    scene.add_or_get_model(&"cube.obj".to_string(), Some([1.0, 1.0, 1.0]));
    assert!(scene.set_model(entity(1), &"cube.obj".to_string(), Some([2.0, 2.0, 2.0])));
    assert_eq!(scene.models.len(), 1);
    assert_eq!(scene.models[0].offset, Some([2.0, 2.0, 2.0]));
}

#[test]
fn set_texture_links_known_texture() {
    let mut scene = empty_scene();
    scene.objects.push(object(1));
    scene.textures.push(Texture {
        path: "grass.png".to_string(),
    });
    scene.textures.push(Texture {
        path: "stone.png".to_string(),
    });
    assert!(scene.set_texture(entity(1), &"stone.png".to_string()));
    assert_eq!(scene.objects[0].texture, Some(1));
    assert_eq!(scene.textures.len(), 2);
}

#[test]
fn set_position_overwrites_transform() {
    let mut scene = empty_scene();
    scene.objects.push(object(1));
    scene.objects.push(object(2));
    let moved = [1.0, 2.0, 3.0, 0.0, 0.0, 0.0, 2.0];
    assert!(scene.set_position(entity(2), moved));
    assert_eq!(scene.objects[1].position, moved);
    assert_eq!(scene.objects[0].position, object(1).position);
}

#[test]
fn set_position_resolves_first_matching_slot() {
    let mut scene = empty_scene();
    scene.objects.push(object(7));
    scene.objects.push(object(7));
    assert!(scene.set_position(entity(7), [5.0; 7]));
    assert_eq!(scene.objects[0].position, [5.0; 7]);
    assert_eq!(scene.objects[1].position, object(7).position);
}

#[test]
fn get_model_finds_by_path() {
    let mut scene = empty_scene();
    scene.add_or_get_model(&"a.obj".to_string(), None);
    scene.add_or_get_model(&"b.obj".to_string(), Some([1.0, 2.0, 3.0]));
    let found = scene.get_model("b.obj").expect("model should be present");
    assert_eq!(found.path, "b.obj");
    assert_eq!(found.offset, Some([1.0, 2.0, 3.0]));
    assert!(scene.get_model("c.obj").is_none());
}

#[test]
fn model_new_then_set_offset() {
    let mut model: Model<[f32; 3]> = Model::new("tree.obj".to_string());
    assert_eq!(model.path, "tree.obj");
    assert_eq!(model.offset, None);
    model.set_offset([0.5, 0.0, 0.5]);
    assert_eq!(model.offset, Some([0.5, 0.0, 0.5]));
}
