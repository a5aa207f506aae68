use spellcraft::field::{Value, ScalarField, VectorField, VectorOutputFieldKind};
use spellcraft::spells::ActiveSpells;
use spellcraft::stack::{Stack, StackError, StackItem};
use spellcraft::vector::Vec2;
use spellcraft::word::{Function, HomoBinOp, Word};
use spellcraft::world::{Person, PersonId, World};

fn person(id: PersonId) -> Person {
    Person {
        id,
        pos: Vec2 { x: 0, y: 0 },
        facing: Vec2 { x: 1000, y: 0 },
        target: None,
        mana: 100_000,
        max_mana: 100_000,
        field_scale: 1000,
    }
}

fn scalar_item(n: i64) -> StackItem {
    StackItem { value: Value::Scalar(ScalarField::Uniform(n)), words: vec![] }
}

fn vector_item(x: i64, y: i64) -> StackItem {
    StackItem { value: Value::Vector(VectorField::Uniform(Vec2 { x, y })), words: vec![] }
}

fn render(s: &Stack) -> String {
    format!("{:?}", s.items)
}

#[test]
fn add_two_and_three_samples_five() {
    let mut stack = Stack { items: vec![scalar_item(2000), scalar_item(3000)] };
    let mut spells = ActiveSpells::new();
    assert_eq!(stack.say(PersonId::Player, Word::Ma, &mut spells), Ok(()));
    assert_eq!(stack.len(), 1);
    let world = World::new(person(PersonId::Player));
    let top = match &stack.items[0].value {
        Value::Scalar(f) => f.clone(),
        _ => panic!("expected a scalar"),
    };
    for (x, y) in [(0, 0), (5000, -3000), (-123_000, 77_000)] {
        assert_eq!(top.sample(&world, None, true, Vec2 { x, y }), 5000);
        assert_eq!(top.sample(&world, Some(PersonId::Player), false, Vec2 { x, y }), 5000);
    }
    assert_eq!(stack.items[0].words, vec![Word::Ma]);
}

#[test]
fn add_spoken_from_words() {
    let mut stack = Stack::new();
    let mut spells = ActiveSpells::new();
    for w in [Word::Tu, Word::Ti, Word::Tu, Word::Ma, Word::Ma] {
        assert_eq!(stack.say(PersonId::Player, w, &mut spells), Ok(()));
    }
    let world = World::new(person(PersonId::Player));
    match &stack.items[0].value {
        Value::Scalar(f) => assert_eq!(f.sample(&world, None, true, Vec2 { x: 1, y: 2 }), 5000),
        _ => panic!("expected a scalar"),
    }
    assert_eq!(stack.words(), vec![Word::Tu, Word::Ti, Word::Tu, Word::Ma, Word::Ma]);
}

#[test]
fn validate_add_underflow_and_mismatch() {
    let one = Stack { items: vec![scalar_item(1000)] };
    assert_eq!(one.validate(Function::HomoBinOp(HomoBinOp::Add)), Err(StackError::StackUnderflow));
    let mixed = Stack { items: vec![scalar_item(1000), vector_item(0, 1000)] };
    assert_eq!(mixed.validate(Function::HomoBinOp(HomoBinOp::Add)), Err(StackError::TypeMismatch));
    let two = Stack { items: vec![scalar_item(1000), scalar_item(1000)] };
    assert_eq!(two.validate(Function::HomoBinOp(HomoBinOp::Add)), Ok(()));
    assert_eq!(Stack::new().validate(Word::Ti.function()), Ok(()));
}

#[test]
fn failed_word_leaves_stack_unchanged() {
    let mut stack = Stack { items: vec![scalar_item(1000), vector_item(0, 1000)] };
    let before = render(&stack);
    let mut spells = ActiveSpells::new();
    assert_eq!(stack.say(PersonId::Player, Word::Ma, &mut spells), Err(StackError::TypeMismatch));
    assert_eq!(render(&stack), before);
    assert_eq!(stack.say(PersonId::Player, Word::Reso, &mut spells), Err(StackError::TypeMismatch));
    assert_eq!(stack.say(PersonId::Player, Word::Sa, &mut spells), Err(StackError::TypeMismatch));
    assert_eq!(render(&stack), before);
    let mut empty = Stack::new();
    assert_eq!(empty.say(PersonId::Player, Word::No, &mut spells), Err(StackError::StackUnderflow));
    assert_eq!(empty.say(PersonId::Player, Word::Ke, &mut spells), Err(StackError::StackUnderflow));
    assert!(empty.is_empty());
    assert!(spells.spells.is_empty());
}

#[test]
fn duplicate_then_drop_restores_stack() {
    let mut spells = ActiveSpells::new();
    for items in [vec![scalar_item(7000)], vec![scalar_item(1), vector_item(3, -4)]] {
        let mut stack = Stack { items };
        let before = render(&stack);
        assert_eq!(stack.say(PersonId::Player, Word::Mo, &mut spells), Ok(()));
        assert_eq!(stack.len(), stack.items.len());
        assert_ne!(render(&stack), before);
        assert_eq!(stack.say(PersonId::Player, Word::No, &mut spells), Ok(()));
        assert_eq!(render(&stack), before);
    }
}

#[test]
fn swap_twice_is_identity() {
    let mut spells = ActiveSpells::new();
    let mut stack = Stack::new();
    for w in [Word::Ti, Word::Kova, Word::Tu] {
        stack.say(PersonId::Player, w, &mut spells).unwrap();
    }
    let before = render(&stack);
    stack.say(PersonId::Player, Word::Re, &mut spells).unwrap();
    assert_ne!(render(&stack), before);
    assert_eq!(stack.items[2].words, vec![Word::Kova]);
    stack.say(PersonId::Player, Word::Re, &mut spells).unwrap();
    assert_eq!(render(&stack), before);
}

#[test]
fn over_copies_second_value() {
    let mut spells = ActiveSpells::new();
    let mut stack = Stack::new();
    for w in [Word::Kova, Word::Tu, Word::Rovo] {
        stack.say(PersonId::Player, w, &mut spells).unwrap();
    }
    assert_eq!(stack.len(), 3);
    assert_eq!(format!("{:?}", stack.items[2]), format!("{:?}", stack.items[0]));
    assert_eq!(stack.words(), vec![Word::Kova, Word::Tu, Word::Kova]);
}

#[test]
fn cast_matches_saying_one_at_a_time() {
    let words = vec![Word::Kova, Word::Tu, Word::Sa, Word::Kovi, Word::Ma, Word::Ke, Word::Te];
    let mut one_by_one = Stack::new();
    let mut spells_a = ActiveSpells::new();
    for w in &words {
        assert_eq!(one_by_one.say(PersonId::Player, *w, &mut spells_a), Ok(()));
    }
    let mut whole = Stack::new();
    let mut spells_b = ActiveSpells::new();
    assert_eq!(whole.cast(PersonId::Player, &words, &mut spells_b), Ok(()));
    assert_eq!(render(&whole), render(&one_by_one));
    assert_eq!(format!("{:?}", spells_a), format!("{:?}", spells_b));
    assert_eq!(spells_b.spells.len(), 1);
    assert_eq!(
        spells_b.spell_words(PersonId::Player, VectorOutputFieldKind::Gravity),
        vec![vec![Word::Kova, Word::Tu, Word::Sa, Word::Kovi, Word::Ma, Word::Ke]]
    );
}

#[test]
fn cast_is_all_or_nothing() {
    let mut stack = Stack { items: vec![vector_item(1000, 0)] };
    let before = render(&stack);
    let mut spells = ActiveSpells::new();
    let words = vec![Word::Mo, Word::Ke, Word::Ti, Word::Ma, Word::Ti];
    assert_eq!(stack.cast(PersonId::Player, &words, &mut spells), Err((3, StackError::TypeMismatch)));
    assert_eq!(render(&stack), before);
    assert!(spells.spells.is_empty());
    let short = vec![Word::Mo, Word::Ke];
    assert_eq!(stack.cast(PersonId::Player, &short, &mut spells), Ok(()));
    assert_eq!(spells.spells.len(), 1);
    assert_eq!(stack.len(), 1);
}

#[test]
fn write_word_commits_to_registry() {
    let mut stack = Stack::new();
    let mut spells = ActiveSpells::new();
    stack.say(PersonId::Npc(4), Word::Kovi, &mut spells).unwrap();
    stack.say(PersonId::Npc(4), Word::Ke, &mut spells).unwrap();
    assert!(stack.is_empty());
    assert!(spells.contains(VectorOutputFieldKind::Gravity));
    assert!(!spells.contains(VectorOutputFieldKind::Force));
    assert_eq!(spells.spells[0].caster, PersonId::Npc(4));
    assert_eq!(spells.spells[0].words, vec![Word::Kovi, Word::Ke]);
    assert!(spells.player_spell_words(VectorOutputFieldKind::Gravity).is_empty());
}

#[test]
fn write_needs_a_vector() {
    let mut stack = Stack::new();
    let mut spells = ActiveSpells::new();
    stack.say(PersonId::Player, Word::Ti, &mut spells).unwrap();
    assert_eq!(stack.say(PersonId::Player, Word::Ke, &mut spells), Err(StackError::TypeMismatch));
    assert_eq!(stack.len(), 1);
}

#[test]
fn provenance_concatenates_operand_words() {
    let mut stack = Stack::new();
    let mut spells = ActiveSpells::new();
    for w in [Word::Kova, Word::Solo, Word::Te, Word::Na, Word::Ma] {
        stack.say(PersonId::Player, w, &mut spells).unwrap();
    }
    assert_eq!(stack.items[0].words, vec![Word::Kova, Word::Solo, Word::Te, Word::Na, Word::Ma]);
    let world = World::new(person(PersonId::Player));
    match &stack.items[0].value {
        Value::Scalar(f) => assert_eq!(f.sample(&world, None, true, Vec2 { x: 0, y: 0 }), -9000),
        _ => panic!("expected a scalar"),
    }
}

#[test]
fn can_say_checks_knowledge_mana_and_stack() {
    let stack = Stack { items: vec![scalar_item(1000)] };
    assert!(stack.can_say(Word::Ti, true, 1000));
    assert!(!stack.can_say(Word::Ti, false, 1000));
    assert!(!stack.can_say(Word::Te, true, 9999));
    assert!(stack.can_say(Word::Te, true, 10000));
    assert!(!stack.can_say(Word::Ma, true, 100_000));
    assert!(stack.can_say(Word::Reso, true, 1000));
}

#[test]
fn clear_empties_stack() {
    let mut stack = Stack { items: vec![scalar_item(1), scalar_item(2)] };
    stack.clear();
    assert!(stack.is_empty());
    assert_eq!(stack.words(), Vec::<Word>::new());
}

#[test]
fn uses_control_finds_sliders() {
    let mut stack = Stack::new();
    let mut spells = ActiveSpells::new();
    for w in [Word::Kova, Word::Sila, Word::Sa] {
        stack.say(PersonId::Player, w, &mut spells).unwrap();
    }
    assert!(stack.uses_control(spellcraft::field::ControlKind::XSlider));
    assert!(!stack.uses_control(spellcraft::field::ControlKind::YSlider));
    stack.say(PersonId::Player, Word::Ke, &mut spells).unwrap();
    assert!(!stack.uses_control(spellcraft::field::ControlKind::XSlider));
    assert!(spells.caster_uses_control(PersonId::Player, spellcraft::field::ControlKind::XSlider));
    assert!(!spells.caster_uses_control(PersonId::Npc(1), spellcraft::field::ControlKind::XSlider));
}

#[test]
fn filter_word_pushes_operator_value() {
    let mut stack = Stack::new();
    let mut spells = ActiveSpells::new();
    assert_eq!(stack.say(PersonId::Player, Word::Me, &mut spells), Ok(()));
    assert!(matches!(
        stack.items[0].value,
        Value::Function(Function::HeteroBinOp(spellcraft::word::HeteroBinOp::Filter))
    ));
    assert_eq!(stack.items[0].words, vec![Word::Me]);
    stack.say(PersonId::Player, Word::Mo, &mut spells).unwrap();
    assert_eq!(stack.len(), 2);
    assert_eq!(stack.say(PersonId::Player, Word::Ma, &mut spells), Err(StackError::TypeMismatch));
    assert_eq!(stack.say(PersonId::Player, Word::Ke, &mut spells), Err(StackError::TypeMismatch));
    assert_eq!(stack.say(PersonId::Player, Word::Na, &mut spells), Err(StackError::TypeMismatch));
    stack.say(PersonId::Player, Word::Kova, &mut spells).unwrap();
    stack.say(PersonId::Player, Word::Re, &mut spells).unwrap();
    assert!(matches!(stack.items[2].value, Value::Function(_)));
    assert!(!stack.uses_control(spellcraft::field::ControlKind::XSlider));
}
