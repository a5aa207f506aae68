use spellcraft::field::{ControlKind, FieldKind, ScalarInputFieldKind, VectorOutputFieldKind};
use spellcraft::fixed::{absolute, negate, plus, reciprocal, square_root, times, SCALE};
use spellcraft::vector::Vec2;
use spellcraft::word::{
    Combinator1, Combinator2, Function, HeteroBinOp, HomoBinOp, MathUnOp, Nullary, ScalarUnOp,
    ToScalarOp, Word,
};
use spellcraft::world::Person;
use spellcraft::world::PersonId;

#[test]
fn word_table_maps_each_word() {
    assert_eq!(Word::Ti.function(), Function::Nullary(Nullary::One));
    assert_eq!(Word::Te.function(), Function::Nullary(Nullary::Ten));
    assert_eq!(Word::Kovi.function(), Function::Nullary(Nullary::OneY));
    assert_eq!(
        Word::Po.function(),
        Function::ReadField(FieldKind::ScalarInput(ScalarInputFieldKind::Density))
    );
    assert_eq!(Word::Ke.function(), Function::WriteField(VectorOutputFieldKind::Gravity));
    assert_eq!(Word::Ma.function(), Function::HomoBinOp(HomoBinOp::Add));
    assert_eq!(Word::Sa.function(), Function::HeteroBinOp(HeteroBinOp::Mul));
    assert_eq!(Word::Me.function(), Function::Nullary(Nullary::Filter));
    assert_eq!(Word::Seva.function(), Function::Nullary(Nullary::X));
    assert_eq!(Word::Sevi.function(), Function::Nullary(Nullary::Y));
    assert_eq!(Word::Kova.function(), Function::Nullary(Nullary::OneX));
    assert_eq!(Word::Na.function(), Function::MathUnOp(MathUnOp::Neg));
    assert_eq!(Word::Reso.function(), Function::ScalarUnOp(ScalarUnOp::Reciprocal));
    assert_eq!(Word::Solo.function(), Function::ToScalarOp(ToScalarOp::Magnitude));
    assert_eq!(Word::No.function(), Function::Combinator1(Combinator1::Drop));
    assert_eq!(Word::Mo.function(), Function::Combinator1(Combinator1::Duplicate));
    assert_eq!(Word::Re.function(), Function::Combinator2(Combinator2::Swap));
    assert_eq!(Word::Rovo.function(), Function::Combinator2(Combinator2::Over));
    assert_eq!(Word::Vila.function(), Function::Control(ControlKind::YSlider));
    assert_eq!(Word::Pa.function(), Function::Nullary(Nullary::TargetX));
}

#[test]
fn word_costs() {
    assert_eq!(Word::Ti.cost(), 1000);
    assert_eq!(Word::Tu.cost(), 2000);
    assert_eq!(Word::Ta.cost(), 5000);
    assert_eq!(Word::Te.cost(), 10000);
    assert_eq!(Word::Sila.cost(), 2000);
    assert_eq!(Word::Pi.cost(), 3000);
    assert_eq!(Word::Rovo.cost(), 1000);
}

#[test]
fn vocabulary_is_complete_and_named() {
    let all = Word::all();
    assert_eq!(all.len(), 27);
    for (i, a) in all.iter().enumerate() {
        for b in &all[i + 1..] {
            assert_ne!(a, b);
        }
    }
    assert_eq!(all[0], Word::Ti);
    assert_eq!(Word::Lusa.name(), "Lusa");
    assert_eq!(Word::Rovo.name(), "Rovo");
}

#[test]
fn fixed_point_arithmetic() {
    assert_eq!(SCALE, 1000);
    assert_eq!(plus(2000, 3000), 5000);
    assert_eq!(plus(i64::MAX, 1), i64::MAX);
    assert_eq!(plus(i64::MIN, -1), i64::MIN);
    assert_eq!(times(2000, 3000), 6000);
    assert_eq!(times(-1500, 1500), -2250);
    assert_eq!(times(1, 1), 0);
    assert_eq!(times(-1, 1), 0);
    assert_eq!(times(i64::MAX, 2000), i64::MAX);
    assert_eq!(times(i64::MIN, 2000), i64::MIN);
    assert_eq!(negate(i64::MIN), i64::MAX);
    assert_eq!(negate(5), -5);
    assert_eq!(absolute(-7), 7);
    assert_eq!(absolute(i64::MIN), i64::MAX);
    assert_eq!(reciprocal(0), i64::MAX);
    assert_eq!(reciprocal(2000), 500);
    assert_eq!(reciprocal(-4000), -250);
    assert_eq!(reciprocal(3000), 333);
    assert_eq!(reciprocal(1), 1_000_000);
    assert_eq!(square_root(0), 0);
    assert_eq!(square_root(15), 3);
    assert_eq!(square_root(16), 4);
    assert_eq!(square_root(u128::MAX / 2), 13_043_817_825_332_782_212);
}

#[test]
fn vector_arithmetic() {
    let a = Vec2::new(3000, -4000);
    assert_eq!(a.length(), 5000);
    assert_eq!(Vec2::new(i64::MIN, i64::MIN).length(), i64::MAX);
    assert_eq!(a.sum(Vec2::new(1, 1)), Vec2::new(3001, -3999));
    assert_eq!(a.difference(Vec2::new(1, 1)), Vec2::new(2999, -4001));
    assert_eq!(a.negation(), Vec2::new(-3000, 4000));
    assert_eq!(a.scaled(500), Vec2::new(1500, -2000));
    assert_eq!(a.product(Vec2::new(2000, 0)), Vec2::new(6000, 0));
    assert_eq!(Vec2::new(1000, 0).rotated(Vec2::new(0, 1000)), Vec2::new(0, 1000));
    assert_eq!(Vec2::new(1000, 2000).rotated(Vec2::new(0, -1000)), Vec2::new(2000, -1000));
    assert_eq!(Vec2::new(0, 1000).conjugate(), Vec2::new(0, -1000));
    assert_eq!(
        Vec2::new(i64::MIN, i64::MIN).rotated(Vec2::new(i64::MIN, i64::MIN)),
        Vec2::new(0, i64::MAX)
    );
}

#[test]
fn mana_bookkeeping() {
    let mut p = Person {
        id: PersonId::Player,
        pos: Vec2::zero(),
        facing: Vec2::new(1000, 0),
        target: None,
        mana: 1000,
        max_mana: 1005,
        field_scale: 1000,
    };
    assert!(p.can_cast());
    p.regen_mana();
    assert_eq!(p.mana, 1005);
    p.regen_mana();
    assert_eq!(p.mana, 1005);
    p.do_work(-3);
    assert_eq!(p.mana, 1005);
    p.do_work(5);
    assert_eq!(p.mana, 1000);
    p.do_work(5000);
    assert_eq!(p.mana, 0);
    assert!(!p.can_cast());
    p.regen_mana();
    assert_eq!(p.mana, 10);
}
