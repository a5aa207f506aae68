use vstd::prelude::*;

use crate::field::{ControlKind, FieldKind, ScalarInputFieldKind, VectorOutputFieldKind};

verus! {

/// Constants, coordinate fields and operator values that a word pushes.
#[derive(Clone, Copy, Debug, PartialEq, Eq, Structural, Hash)]
pub enum Nullary {
    One,
    Two,
    Five,
    Ten,
    /// The unit vector along x.
    OneX,
    /// The unit vector along y.
    OneY,
    X,
    Y,
    TargetX,
    TargetY,
    /// The filter operator itself (`HeteroBinOp::Filter`), pushed as a
    /// function value: combinators move it like any value, and no word of
    /// the vocabulary applies it.
    Filter,
}

/// Negation, of a scalar or of a vector.
#[derive(Clone, Copy, Debug, PartialEq, Eq, Structural, Hash)]
pub enum MathUnOp {
    Neg,
}

/// Operations from a scalar to a scalar.
#[derive(Clone, Copy, Debug, PartialEq, Eq, Structural, Hash)]
pub enum ScalarUnOp {
    Reciprocal,
}

/// Operations from a vector to a scalar.
#[derive(Clone, Copy, Debug, PartialEq, Eq, Structural, Hash)]
pub enum ToScalarOp {
    Magnitude,
}

/// Operations on two values of the same type.
#[derive(Clone, Copy, Debug, PartialEq, Eq, Structural, Hash)]
pub enum HomoBinOp {
    Add,
    Mul,
}

/// Operations on a vector (below) and a scalar (on top).
#[derive(Clone, Copy, Debug, PartialEq, Eq, Structural, Hash)]
pub enum HeteroBinOp {
    Mul,
    Filter,
}

/// Combinators of the top value.
#[derive(Clone, Copy, Debug, PartialEq, Eq, Structural, Hash)]
pub enum Combinator1 {
    Drop,
    Duplicate,
}

/// Combinators of the top two values.
#[derive(Clone, Copy, Debug, PartialEq, Eq, Structural, Hash)]
pub enum Combinator2 {
    Swap,
    Over,
}

/// What a word does to the stack.
#[derive(Clone, Copy, Debug, PartialEq, Eq, Structural, Hash)]
pub enum Function {
    Nullary(Nullary),
    ReadField(FieldKind),
    WriteField(VectorOutputFieldKind),
    MathUnOp(MathUnOp),
    ScalarUnOp(ScalarUnOp),
    ToScalarOp(ToScalarOp),
    HomoBinOp(HomoBinOp),
    HeteroBinOp(HeteroBinOp),
    Combinator1(Combinator1),
    Combinator2(Combinator2),
    Control(ControlKind),
}

/// The words a caster can say.
#[derive(Clone, Copy, Debug, PartialEq, Eq, Structural, Hash)]
pub enum Word {
    // Numbers
    Ti,
    Tu,
    Ta,
    Te,
    // Scalars
    Seva,
    Sevi,
    Me,
    // Vectors
    Kova,
    Kovi,
    // Inputs
    Le,
    Po,
    Lusa,
    Mesi,
    // Outputs
    Ke,
    // Operators
    Ma,
    Sa,
    Na,
    Reso,
    Solo,
    // Controls
    Sila,
    Vila,
    Pa,
    Pi,
    // Combinators
    No,
    Mo,
    Re,
    Rovo,
}

/// The function of each word.
pub open spec fn function_of(w: Word) -> Function {
    match w {
        Word::Ti => Function::Nullary(Nullary::One),
        Word::Tu => Function::Nullary(Nullary::Two),
        Word::Ta => Function::Nullary(Nullary::Five),
        Word::Te => Function::Nullary(Nullary::Ten),
        Word::Seva => Function::Nullary(Nullary::X),
        Word::Sevi => Function::Nullary(Nullary::Y),
        Word::Me => Function::Nullary(Nullary::Filter),
        Word::Kova => Function::Nullary(Nullary::OneX),
        Word::Kovi => Function::Nullary(Nullary::OneY),
        Word::Le => Function::ReadField(FieldKind::ScalarInput(ScalarInputFieldKind::Elevation)),
        Word::Po => Function::ReadField(FieldKind::ScalarInput(ScalarInputFieldKind::Density)),
        Word::Lusa => Function::ReadField(FieldKind::ScalarInput(ScalarInputFieldKind::Light)),
        Word::Mesi => Function::ReadField(FieldKind::ScalarInput(ScalarInputFieldKind::Magic)),
        Word::Ke => Function::WriteField(VectorOutputFieldKind::Gravity),
        Word::Ma => Function::HomoBinOp(HomoBinOp::Add),
        Word::Sa => Function::HeteroBinOp(HeteroBinOp::Mul),
        Word::Na => Function::MathUnOp(MathUnOp::Neg),
        Word::Reso => Function::ScalarUnOp(ScalarUnOp::Reciprocal),
        Word::Solo => Function::ToScalarOp(ToScalarOp::Magnitude),
        Word::Sila => Function::Control(ControlKind::XSlider),
        Word::Vila => Function::Control(ControlKind::YSlider),
        Word::Pa => Function::Nullary(Nullary::TargetX),
        Word::Pi => Function::Nullary(Nullary::TargetY),
        Word::No => Function::Combinator1(Combinator1::Drop),
        Word::Mo => Function::Combinator1(Combinator1::Duplicate),
        Word::Re => Function::Combinator2(Combinator2::Swap),
        Word::Rovo => Function::Combinator2(Combinator2::Over),
    }
}

/// The mana that saying each word costs, in fixed-point units.
pub open spec fn cost_of(w: Word) -> i64 {
    match w {
        Word::Ti => 1000,
        Word::Tu => 2000,
        Word::Ta => 5000,
        Word::Te => 10000,
        Word::Seva => 1000,
        Word::Sevi => 1000,
        Word::Me => 1000,
        Word::Kova => 1000,
        Word::Kovi => 1000,
        Word::Le => 1000,
        Word::Po => 1000,
        Word::Lusa => 1000,
        Word::Mesi => 1000,
        Word::Ke => 1000,
        Word::Ma => 1000,
        Word::Sa => 1000,
        Word::Na => 1000,
        Word::Reso => 1000,
        Word::Solo => 1000,
        Word::Sila => 2000,
        Word::Vila => 2000,
        Word::Pa => 3000,
        Word::Pi => 3000,
        Word::No => 1000,
        Word::Mo => 1000,
        Word::Re => 1000,
        Word::Rovo => 1000,
    }
}

/// Every word, once each.
pub open spec fn all_words() -> Seq<Word> {
    seq![
        Word::Ti,
        Word::Tu,
        Word::Ta,
        Word::Te,
        Word::Seva,
        Word::Sevi,
        Word::Me,
        Word::Kova,
        Word::Kovi,
        Word::Le,
        Word::Po,
        Word::Lusa,
        Word::Mesi,
        Word::Ke,
        Word::Ma,
        Word::Sa,
        Word::Na,
        Word::Reso,
        Word::Solo,
        Word::Sila,
        Word::Vila,
        Word::Pa,
        Word::Pi,
        Word::No,
        Word::Mo,
        Word::Re,
        Word::Rovo,
    ]
}

/// The vocabulary is closed: every word stands in the list, once.
pub proof fn lemma_all_words_complete(w: Word)
    ensures
        all_words().contains(w),
        all_words().no_duplicates(),
{
    let s = all_words();
    assert(s[0] == Word::Ti);
    assert(s[1] == Word::Tu);
    assert(s[2] == Word::Ta);
    assert(s[3] == Word::Te);
    assert(s[4] == Word::Seva);
    assert(s[5] == Word::Sevi);
    assert(s[6] == Word::Me);
    assert(s[7] == Word::Kova);
    assert(s[8] == Word::Kovi);
    assert(s[9] == Word::Le);
    assert(s[10] == Word::Po);
    assert(s[11] == Word::Lusa);
    assert(s[12] == Word::Mesi);
    assert(s[13] == Word::Ke);
    assert(s[14] == Word::Ma);
    assert(s[15] == Word::Sa);
    assert(s[16] == Word::Na);
    assert(s[17] == Word::Reso);
    assert(s[18] == Word::Solo);
    assert(s[19] == Word::Sila);
    assert(s[20] == Word::Vila);
    assert(s[21] == Word::Pa);
    assert(s[22] == Word::Pi);
    assert(s[23] == Word::No);
    assert(s[24] == Word::Mo);
    assert(s[25] == Word::Re);
    assert(s[26] == Word::Rovo);
}

/// The word as it is spoken.
pub open spec fn name_of(w: Word) -> Seq<char> {
    match w {
        Word::Ti => "Ti"@,
        Word::Tu => "Tu"@,
        Word::Ta => "Ta"@,
        Word::Te => "Te"@,
        Word::Seva => "Seva"@,
        Word::Sevi => "Sevi"@,
        Word::Me => "Me"@,
        Word::Kova => "Kova"@,
        Word::Kovi => "Kovi"@,
        Word::Le => "Le"@,
        Word::Po => "Po"@,
        Word::Lusa => "Lusa"@,
        Word::Mesi => "Mesi"@,
        Word::Ke => "Ke"@,
        Word::Ma => "Ma"@,
        Word::Sa => "Sa"@,
        Word::Na => "Na"@,
        Word::Reso => "Reso"@,
        Word::Solo => "Solo"@,
        Word::Sila => "Sila"@,
        Word::Vila => "Vila"@,
        Word::Pa => "Pa"@,
        Word::Pi => "Pi"@,
        Word::No => "No"@,
        Word::Mo => "Mo"@,
        Word::Re => "Re"@,
        Word::Rovo => "Rovo"@,
    }
}

impl Word {
    pub fn function(&self) -> (r: Function)
        ensures
            r == function_of(*self),
    {
        match self {
            Word::Ti => Function::Nullary(Nullary::One),
            Word::Tu => Function::Nullary(Nullary::Two),
            Word::Ta => Function::Nullary(Nullary::Five),
            Word::Te => Function::Nullary(Nullary::Ten),
            Word::Seva => Function::Nullary(Nullary::X),
            Word::Sevi => Function::Nullary(Nullary::Y),
            Word::Me => Function::Nullary(Nullary::Filter),
            Word::Kova => Function::Nullary(Nullary::OneX),
            Word::Kovi => Function::Nullary(Nullary::OneY),
            Word::Le => Function::ReadField(FieldKind::ScalarInput(ScalarInputFieldKind::Elevation)),
            Word::Po => Function::ReadField(FieldKind::ScalarInput(ScalarInputFieldKind::Density)),
            Word::Lusa => Function::ReadField(FieldKind::ScalarInput(ScalarInputFieldKind::Light)),
            Word::Mesi => Function::ReadField(FieldKind::ScalarInput(ScalarInputFieldKind::Magic)),
            Word::Ke => Function::WriteField(VectorOutputFieldKind::Gravity),
            Word::Ma => Function::HomoBinOp(HomoBinOp::Add),
            Word::Sa => Function::HeteroBinOp(HeteroBinOp::Mul),
            Word::Na => Function::MathUnOp(MathUnOp::Neg),
            Word::Reso => Function::ScalarUnOp(ScalarUnOp::Reciprocal),
            Word::Solo => Function::ToScalarOp(ToScalarOp::Magnitude),
            Word::Sila => Function::Control(ControlKind::XSlider),
            Word::Vila => Function::Control(ControlKind::YSlider),
            Word::Pa => Function::Nullary(Nullary::TargetX),
            Word::Pi => Function::Nullary(Nullary::TargetY),
            Word::No => Function::Combinator1(Combinator1::Drop),
            Word::Mo => Function::Combinator1(Combinator1::Duplicate),
            Word::Re => Function::Combinator2(Combinator2::Swap),
            Word::Rovo => Function::Combinator2(Combinator2::Over),
        }
    }

    /// What saying the word costs; callers hold it against the caster's mana.
    pub fn cost(&self) -> (r: i64)
        ensures
            r == cost_of(*self),
    {
        match self {
            Word::Ti => 1000,
            Word::Tu => 2000,
            Word::Ta => 5000,
            Word::Te => 10000,
            Word::Seva => 1000,
            Word::Sevi => 1000,
            Word::Me => 1000,
            Word::Kova => 1000,
            Word::Kovi => 1000,
            Word::Le => 1000,
            Word::Po => 1000,
            Word::Lusa => 1000,
            Word::Mesi => 1000,
            Word::Ke => 1000,
            Word::Ma => 1000,
            Word::Sa => 1000,
            Word::Na => 1000,
            Word::Reso => 1000,
            Word::Solo => 1000,
            Word::Sila => 2000,
            Word::Vila => 2000,
            Word::Pa => 3000,
            Word::Pi => 3000,
            Word::No => 1000,
            Word::Mo => 1000,
            Word::Re => 1000,
            Word::Rovo => 1000,
        }
    }

    /// The whole vocabulary, in table order.
    pub fn all() -> (r: Vec<Word>)
        ensures
            r@ == all_words(),
    {
        let r = vec![
            Word::Ti,
            Word::Tu,
            Word::Ta,
            Word::Te,
            Word::Seva,
            Word::Sevi,
            Word::Me,
            Word::Kova,
            Word::Kovi,
            Word::Le,
            Word::Po,
            Word::Lusa,
            Word::Mesi,
            Word::Ke,
            Word::Ma,
            Word::Sa,
            Word::Na,
            Word::Reso,
            Word::Solo,
            Word::Sila,
            Word::Vila,
            Word::Pa,
            Word::Pi,
            Word::No,
            Word::Mo,
            Word::Re,
            Word::Rovo,
        ];
        proof {
            assert(r@ =~= all_words());
        }
        r
    }

    /// The word as it is spoken.
    pub fn name(&self) -> (r: &'static str)
        ensures
            r@ == name_of(*self),
    {
        match self {
            Word::Ti => "Ti",
            Word::Tu => "Tu",
            Word::Ta => "Ta",
            Word::Te => "Te",
            Word::Seva => "Seva",
            Word::Sevi => "Sevi",
            Word::Me => "Me",
            Word::Kova => "Kova",
            Word::Kovi => "Kovi",
            Word::Le => "Le",
            Word::Po => "Po",
            Word::Lusa => "Lusa",
            Word::Mesi => "Mesi",
            Word::Ke => "Ke",
            Word::Ma => "Ma",
            Word::Sa => "Sa",
            Word::Na => "Na",
            Word::Reso => "Reso",
            Word::Solo => "Solo",
            Word::Sila => "Sila",
            Word::Vila => "Vila",
            Word::Pa => "Pa",
            Word::Pi => "Pi",
            Word::No => "No",
            Word::Mo => "Mo",
            Word::Re => "Re",
            Word::Rovo => "Rovo",
        }
    }
}

} // verus!
