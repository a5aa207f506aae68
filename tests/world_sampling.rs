use spellcraft::field::{
    Axis, ControlKind, ScalarField, ScalarFieldKind, ScalarInputFieldKind, VectorField,
    VectorFieldKind, VectorOutputFieldKind,
};
use spellcraft::spells::ActiveSpells;
use spellcraft::vector::Vec2;
use spellcraft::word::Word;
use spellcraft::world::{
    Controls, GraphicalShape, Object, OffsetShape, Person, PersonId, Properties, World,
};

fn v(x: i64, y: i64) -> Vec2 {
    Vec2 { x, y }
}

fn person(id: PersonId) -> Person {
    Person {
        id,
        pos: v(0, 0),
        facing: v(1000, 0),
        target: None,
        mana: 50_000,
        max_mana: 100_000,
        field_scale: 1000,
    }
}

fn boxed(f: ScalarField) -> Box<ScalarField> {
    Box::new(f)
}

fn vboxed(f: VectorField) -> Box<VectorField> {
    Box::new(f)
}

#[test]
fn force_spell_sampled_then_dispelled() {
    let mut world = World::new(person(PersonId::Player));
    world.active_spells.commit(
        PersonId::Player,
        VectorOutputFieldKind::Force,
        VectorField::Uniform(v(0, 1000)),
        vec![Word::Kovi],
    );
    let out = VectorField::Output(VectorOutputFieldKind::Force);
    for p in [v(0, 0), v(12_000, 3_000), v(-7_000, -1)] {
        assert_eq!(world.sample_output_vector_field(VectorOutputFieldKind::Force, p), v(0, 1000));
        assert_eq!(out.sample(&world, None, true, p), v(0, 1000));
    }
    assert_eq!(world.sample_output_vector_field(VectorOutputFieldKind::Gravity, v(0, 0)), v(0, 0));
    world.active_spells.remove(PersonId::Player, VectorOutputFieldKind::Force, 0);
    assert_eq!(out.sample(&world, None, true, v(12_000, 3_000)), v(0, 0));
    assert!(!world.active_spells.contains(VectorOutputFieldKind::Force));
}

#[test]
fn output_weighs_casters_by_field_scale() {
    let mut world = World::new(person(PersonId::Player));
    let mut npc = person(PersonId::Npc(1));
    npc.field_scale = 500;
    world.people.push(npc);
    world.active_spells.commit(
        PersonId::Player,
        VectorOutputFieldKind::Force,
        VectorField::Uniform(v(2000, 0)),
        vec![],
    );
    world.active_spells.commit(
        PersonId::Npc(1),
        VectorOutputFieldKind::Force,
        VectorField::Uniform(v(0, 4000)),
        vec![],
    );
    world.active_spells.commit(
        PersonId::Npc(9),
        VectorOutputFieldKind::Force,
        VectorField::Uniform(v(100, 100)),
        vec![],
    );
    assert_eq!(world.sample_output_vector_field(VectorOutputFieldKind::Force, v(1, 1)), v(2000, 2000));
    assert_eq!(world.output_at_objects(VectorOutputFieldKind::Force), vec![v(2000, 2000); 2]);
}

#[test]
fn relative_vectors_turn_with_facing() {
    let mut world = World::new(person(PersonId::Player));
    world.people[0].facing = v(0, 1000);
    let f = VectorField::Uniform(v(1000, 0));
    assert_eq!(f.sample(&world, Some(PersonId::Player), false, v(0, 0)), v(0, 1000));
    assert_eq!(f.sample(&world, Some(PersonId::Player), true, v(0, 0)), v(1000, 0));
    assert_eq!(f.sample(&world, None, false, v(0, 0)), v(1000, 0));
    world.active_spells.commit(PersonId::Player, VectorOutputFieldKind::Gravity, f, vec![]);
    assert_eq!(world.sample_output_vector_field(VectorOutputFieldKind::Gravity, v(5, 5)), v(0, 1000));
}

#[test]
fn coordinates_are_measured_from_observer() {
    let mut world = World::new(person(PersonId::Player));
    world.people[0].pos = v(1000, 2000);
    world.people[0].target = Some(v(4000, -1000));
    let at = v(3500, 2500);
    assert_eq!(ScalarField::X.sample(&world, Some(PersonId::Player), true, at), 2500);
    assert_eq!(ScalarField::Y.sample(&world, Some(PersonId::Player), true, at), 500);
    assert_eq!(ScalarField::X.sample(&world, None, true, at), 3500);
    assert_eq!(ScalarField::TargetX.sample(&world, Some(PersonId::Player), true, at), 3000);
    assert_eq!(ScalarField::TargetY.sample(&world, Some(PersonId::Player), true, at), -3000);
    assert_eq!(ScalarField::TargetY.sample(&world, None, true, at), 0);
    assert_eq!(ScalarField::X.sample(&world, Some(PersonId::Npc(3)), true, at), 3500);
}

#[test]
fn filter_zero_where_mask_not_positive() {
    let world = World::new(person(PersonId::Player));
    for mask in [-1000, 0] {
        let f = VectorField::Filter(
            vboxed(VectorField::Uniform(v(300, -400))),
            boxed(ScalarField::Uniform(mask)),
        );
        assert_eq!(f.sample(&world, None, true, v(1, 2)), v(0, 0));
    }
    let open = VectorField::Filter(
        vboxed(VectorField::Uniform(v(300, -400))),
        boxed(ScalarField::Uniform(1)),
    );
    assert_eq!(open.sample(&world, None, true, v(1, 2)), v(300, -400));
    let by_position = VectorField::Filter(
        vboxed(VectorField::Uniform(v(300, -400))),
        boxed(ScalarField::X),
    );
    assert_eq!(by_position.sample(&world, None, true, v(-5, 0)), v(0, 0));
    assert_eq!(by_position.sample(&world, None, true, v(5, 0)), v(300, -400));
}

#[test]
fn sampling_is_repeatable_and_changes_nothing() {
    let mut world = World::new(person(PersonId::Player));
    world.active_spells.commit(
        PersonId::Player,
        VectorOutputFieldKind::Force,
        VectorField::Uniform(v(10, 20)),
        vec![Word::Kova],
    );
    let f = ScalarField::Add(
        boxed(ScalarField::Input(ScalarInputFieldKind::Magic)),
        boxed(ScalarField::Magnitude(vboxed(VectorField::Output(VectorOutputFieldKind::Force)))),
    );
    let before = format!("{:?}", world.active_spells);
    let first = f.sample(&world, Some(PersonId::Player), false, v(0, 3000));
    for _ in 0..5 {
        assert_eq!(f.sample(&world, Some(PersonId::Player), false, v(0, 3000)), first);
    }
    assert_eq!(format!("{:?}", world.active_spells), before);
}

#[test]
fn scalar_operators_sample_exactly() {
    let world = World::new(person(PersonId::Player));
    let p = v(0, 0);
    let two = || boxed(ScalarField::Uniform(2000));
    assert_eq!(ScalarField::Mul(two(), boxed(ScalarField::Uniform(3500))).sample(&world, None, true, p), 7000);
    assert_eq!(ScalarField::Reciprocal(two()).sample(&world, None, true, p), 500);
    assert_eq!(ScalarField::Reciprocal(boxed(ScalarField::Uniform(0))).sample(&world, None, true, p), i64::MAX);
    assert_eq!(ScalarField::Negate(two()).sample(&world, None, true, p), -2000);
    let len = ScalarField::Magnitude(vboxed(VectorField::Uniform(v(3000, -4000))));
    assert_eq!(len.sample(&world, None, true, p), 5000);
    let basis = VectorField::Basis(Axis::Y, two());
    assert_eq!(basis.sample(&world, None, true, p), v(0, 2000));
    let prod = VectorField::Mul(vboxed(VectorField::Uniform(v(2000, 3000))), vboxed(VectorField::Uniform(v(500, -1000))));
    assert_eq!(prod.sample(&world, None, true, p), v(1000, -3000));
    let scaled = VectorField::Scale(vboxed(VectorField::Uniform(v(2000, 3000))), boxed(ScalarField::Uniform(-500)));
    assert_eq!(scaled.sample(&world, None, true, p), v(-1000, -1500));
    let neg = VectorField::Negate(vboxed(VectorField::Uniform(v(i64::MIN, 5))));
    assert_eq!(neg.sample(&world, None, true, p), v(i64::MAX, -5));
}

#[test]
fn controls_read_zero_when_unset() {
    let mut world = World::new(person(PersonId::Player));
    let f = ScalarField::Control(ControlKind::YSlider);
    assert_eq!(f.sample(&world, None, true, v(0, 0)), 0);
    world.controls.y_slider = Some(750);
    assert_eq!(f.sample(&world, None, true, v(0, 0)), 750);
    assert_eq!(world.controls.get(ControlKind::XSlider), 0);
    assert_eq!(Controls::new().get(ControlKind::YSlider), 0);
}

fn platform() -> Object {
    Object {
        pos: v(0, 1000),
        rot: v(1000, 0),
        shapes: vec![GraphicalShape::Box(v(2000, 400)).offset(v(0, 0)).density(2500)],
        fixed: true,
        props: Properties { magic: 7000 },
    }
}

#[test]
fn elevation_scans_down_to_fixed_objects() {
    let mut world = World::new(person(PersonId::Player));
    let elevation = ScalarInputFieldKind::Elevation;
    assert_eq!(world.sample_input_scalar_field(elevation, v(0, 2000)), 2000);
    assert_eq!(world.sample_input_scalar_field(elevation, v(0, -300)), -300);
    world.add_object(platform());
    assert_eq!(world.sample_input_scalar_field(elevation, v(0, 2000)), 1000);
    assert_eq!(world.sample_input_scalar_field(elevation, v(5000, 2000)), 2000);
}

#[test]
fn density_and_magic_read_objects() {
    let mut world = World::new(person(PersonId::Player));
    let density = ScalarInputFieldKind::Density;
    assert_eq!(world.sample_input_scalar_field(density, v(0, -500)), 3000);
    assert_eq!(world.sample_input_scalar_field(density, v(0, 500)), 0);
    let i = world.add_object(platform());
    assert_eq!(i, 2);
    assert_eq!(world.sample_input_scalar_field(density, v(500, 1100)), 2500);
    assert_eq!(world.find_object_at(v(500, 1100)), Some((2, 0)));
    assert_eq!(world.find_object_filtered_at(v(0, -1), true), Some((0, 0)));
    let magic = ScalarInputFieldKind::Magic;
    assert_eq!(world.sample_input_scalar_field(magic, v(500, 1100)), 7000);
    assert_eq!(world.sample_input_scalar_field(magic, v(0, 5000)), 0);
    world.active_spells.commit(
        PersonId::Player,
        VectorOutputFieldKind::Force,
        VectorField::Uniform(v(3000, 4000)),
        vec![],
    );
    world.active_spells.commit(
        PersonId::Npc(2),
        VectorOutputFieldKind::Gravity,
        VectorField::Uniform(v(0, -1000)),
        vec![],
    );
    assert_eq!(world.sample_input_scalar_field(magic, v(0, 5000)), 6000);
    world.light = 420;
    assert_eq!(world.sample_input_scalar_field(ScalarInputFieldKind::Light, v(9, 9)), 420);
}

#[test]
fn rotated_object_holds_rotated_points() {
    let mut world = World::new(person(PersonId::Player));
    world.add_object(Object {
        pos: v(10_000, 10_000),
        rot: v(0, 1000),
        shapes: vec![GraphicalShape::Box(v(4000, 1000)).offset(v(0, 0))],
        fixed: false,
        props: Properties { magic: 0 },
    });
    assert_eq!(world.find_object_at(v(10_000, 11_500)), Some((2, 0)));
    assert_eq!(world.find_object_at(v(11_500, 10_000)), None);
    assert_eq!(world.find_object_filtered_at(v(10_000, 11_500), true), None);
}

#[test]
fn spell_reading_its_own_output_stays_finite() {
    let mut world = World::new(person(PersonId::Player));
    world.active_spells.commit(
        PersonId::Player,
        VectorOutputFieldKind::Force,
        VectorField::Add(
            vboxed(VectorField::Output(VectorOutputFieldKind::Force)),
            vboxed(VectorField::Uniform(v(1000, 0))),
        ),
        vec![],
    );
    assert_eq!(world.sample_output_vector_field(VectorOutputFieldKind::Force, v(0, 0)), v(3000, 0));
}

#[test]
fn registry_orders_and_removes_by_index() {
    let mut spells = ActiveSpells::new();
    let force = VectorOutputFieldKind::Force;
    for (i, w) in [Word::Ti, Word::Tu, Word::Ta].iter().enumerate() {
        spells.commit(PersonId::Player, force, VectorField::Uniform(v(i as i64, 0)), vec![*w]);
        spells.commit(PersonId::Npc(1), force, VectorField::Uniform(v(0, 0)), vec![Word::No]);
    }
    assert_eq!(spells.player_spell_words(force), vec![vec![Word::Ti], vec![Word::Tu], vec![Word::Ta]]);
    spells.remove(PersonId::Player, force, 1);
    assert_eq!(spells.player_spell_words(force), vec![vec![Word::Ti], vec![Word::Ta]]);
    assert_eq!(spells.spell_words(PersonId::Npc(1), force).len(), 3);
    assert_eq!(spells.spells.len(), 5);
    assert!(spells.has_caster(PersonId::Npc(1)));
    spells.clear_all(PersonId::Npc(1));
    assert!(!spells.has_caster(PersonId::Npc(1)));
    assert_eq!(spells.player_spell_words(force), vec![vec![Word::Ti], vec![Word::Ta]]);
    assert!(spells.contains(force));
}

#[test]
fn exhausted_caster_loses_all_spells() {
    let mut world = World::new(person(PersonId::Player));
    world.people[0].mana = 300;
    world.people.push(person(PersonId::Npc(7)));
    world.active_spells.commit(
        PersonId::Player,
        VectorOutputFieldKind::Force,
        VectorField::Uniform(v(1, 1)),
        vec![],
    );
    world.active_spells.commit(
        PersonId::Player,
        VectorOutputFieldKind::Gravity,
        VectorField::Uniform(v(1, 1)),
        vec![],
    );
    assert!(world.active_spells.contains(VectorOutputFieldKind::Force));
    world.update(500);
    assert!(!world.active_spells.contains(VectorOutputFieldKind::Force));
    assert!(!world.active_spells.contains(VectorOutputFieldKind::Gravity));
    assert_eq!(world.people[0].mana, 10);
    assert_eq!(world.people[1].mana, 49_510);
}

#[test]
fn caster_with_spells_does_not_regenerate() {
    let mut world = World::new(person(PersonId::Player));
    world.active_spells.commit(
        PersonId::Player,
        VectorOutputFieldKind::Force,
        VectorField::Uniform(v(1, 1)),
        vec![],
    );
    world.update(100);
    assert_eq!(world.people[0].mana, 49_900);
    assert!(world.active_spells.contains(VectorOutputFieldKind::Force));
    world.people[0].mana = 99_995;
    world.active_spells.clear_all(PersonId::Player);
    world.update(0);
    assert_eq!(world.people[0].mana, 100_000);
}

#[test]
fn person_lookup_and_pose() {
    let mut world = World::new(person(PersonId::Player));
    world.people.push(person(PersonId::Npc(3)));
    assert_eq!(world.person_index(PersonId::Npc(3)), 1);
    assert_eq!(world.person_index(PersonId::Npc(4)), 2);
    assert!(world.person(PersonId::Npc(4)).is_none());
    world.set_person_pose(PersonId::Npc(3), v(5, 6), v(0, -1000));
    let p = world.person(PersonId::Npc(3)).unwrap();
    assert_eq!(p.pos, v(5, 6));
    assert_eq!(p.facing, v(0, -1000));
    assert_eq!(world.person_ids(), vec![PersonId::Player, PersonId::Npc(3)]);
}

#[test]
fn shapes_hold_their_points() {
    let circle = GraphicalShape::Circle(1000);
    assert!(circle.contains(v(600, 700)));
    assert!(!circle.contains(v(800, 700)));
    assert!(!GraphicalShape::Circle(-1000).contains(v(0, 0)));
    let half = GraphicalShape::HalfSpace(v(0, 1000));
    assert!(half.contains(v(123, -1)));
    assert!(!half.contains(v(123, 0)));
    let tilted = GraphicalShape::HalfSpace(v(1000, 1000));
    assert!(tilted.contains(v(-5, 4)));
    assert!(!tilted.contains(v(5, -4)));
    let capsule = GraphicalShape::capsule_wh(500, 1500);
    match capsule {
        GraphicalShape::Capsule { half_height, radius } => {
            assert_eq!(half_height, 500);
            assert_eq!(radius, 250);
        }
        _ => panic!("expected a capsule"),
    }
    assert!(capsule.contains(v(0, 700)));
    assert!(capsule.contains(v(200, -400)));
    assert!(!capsule.contains(v(0, 800)));
    let shape = OffsetShape { shape: circle, offset: v(5000, 0), density: 1000 };
    assert!(shape.contains(v(5500, 0)));
    assert!(!shape.contains(v(0, 0)));
}

#[test]
fn new_world_holds_ground_and_player_body() {
    let world = World::new(person(PersonId::Player));
    assert_eq!(world.objects.len(), 2);
    assert!(world.objects[0].fixed);
    let body = &world.objects[spellcraft::world::PLAYER_BODY];
    assert!(!body.fixed);
    assert_eq!(body.pos, v(0, 813));
    assert_eq!(body.rot, v(0, 1000));
    assert_eq!(body.shapes.len(), 2);
    assert_eq!(world.find_object_at(v(0, 813)), Some((1, 0)));
    assert_eq!(world.sample_input_scalar_field(ScalarInputFieldKind::Magic, v(0, 813)), 10_000);
    assert_eq!(world.sample_input_scalar_field(ScalarInputFieldKind::Density, v(0, 813)), 1000);
    assert_eq!(world.sample_input_scalar_field(ScalarInputFieldKind::Density, v(0, 500)), 0);
    assert!(world.active_spells.spells.is_empty());
}

#[test]
fn field_kinds_route_to_inputs_and_outputs() {
    let mut world = World::new(person(PersonId::Player));
    world.light = 250;
    assert_eq!(
        world.sample_scalar_field(ScalarFieldKind::Input(ScalarInputFieldKind::Light), v(3, 4)),
        250
    );
    assert_eq!(
        world.sample_scalar_field(ScalarFieldKind::Input(ScalarInputFieldKind::Density), v(0, -1)),
        3000
    );
    world.active_spells.commit(
        PersonId::Player,
        VectorOutputFieldKind::Gravity,
        VectorField::Uniform(v(0, -2000)),
        vec![],
    );
    let gravity = VectorFieldKind::Output(VectorOutputFieldKind::Gravity);
    assert_eq!(world.sample_vector_field(gravity, v(8, 8)), v(0, -2000));
    let force = VectorFieldKind::Output(VectorOutputFieldKind::Force);
    assert_eq!(world.sample_vector_field(force, v(8, 8)), v(0, 0));
}

#[test]
fn ids_distinct_detects_shared_ids() {
    let mut world = World::new(person(PersonId::Player));
    world.people.push(person(PersonId::Npc(1)));
    assert!(world.ids_distinct());
    world.people.push(person(PersonId::Npc(1)));
    assert!(!world.ids_distinct());
}

#[test]
fn casters_who_can_cast_keep_their_spells() {
    let mut world = World::new(person(PersonId::Player));
    let mut npc = person(PersonId::Npc(2));
    npc.mana = 100;
    world.people.push(npc);
    for (caster, kind) in [
        (PersonId::Player, VectorOutputFieldKind::Force),
        (PersonId::Npc(2), VectorOutputFieldKind::Force),
        (PersonId::Player, VectorOutputFieldKind::Gravity),
    ] {
        world.active_spells.commit(caster, kind, VectorField::Uniform(v(1, 0)), vec![Word::Kova]);
    }
    world.update(1000);
    assert_eq!(world.active_spells.spells.len(), 2);
    assert!(!world.active_spells.has_caster(PersonId::Npc(2)));
    assert_eq!(world.active_spells.player_spell_words(VectorOutputFieldKind::Force).len(), 1);
    assert_eq!(world.active_spells.player_spell_words(VectorOutputFieldKind::Gravity).len(), 1);
}
