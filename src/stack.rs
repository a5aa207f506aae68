use vstd::prelude::*;

use crate::field::{value_uses, ControlKind, Value, FieldKind, ScalarField, VectorField, VectorOutputFieldKind};
use crate::spells::{ActiveSpell, ActiveSpells};
use crate::vector::Vec2;
use crate::word::{
    cost_of, function_of, Combinator1, Combinator2, Function, HeteroBinOp, HomoBinOp, MathUnOp, Nullary,
    ScalarUnOp, ToScalarOp, Word,
};
use crate::world::PersonId;

verus! {

/// Why a word cannot be said on a stack.
#[derive(Clone, Copy, Debug, PartialEq, Eq, Structural)]
pub enum StackError {
    /// Fewer values than the word consumes.
    StackUnderflow,
    /// A value of the wrong type where the word needs a scalar or a vector.
    TypeMismatch,
}

/// A value on the stack with the words that produced it.
#[derive(Debug)]
pub struct StackItem {
    pub value: Value,
    pub words: Vec<Word>,
}

/// A stack entry as the contracts see it: a field and its words.
pub type Entry = (Value, Seq<Word>);

/// A spell that saying a write word commits: its kind, field and words.
pub type Commit = (VectorOutputFieldKind, VectorField, Seq<Word>);

impl View for StackItem {
    type V = Entry;

    open spec fn view(&self) -> Entry {
        (self.value, self.words@)
    }
}

impl Clone for StackItem {
    fn clone(&self) -> (r: Self)
        ensures
            r@ == self@,
    {
        let words = self.words.clone();
        proof {
            assert(words@ =~= self.words@);
        }
        StackItem { value: self.value.clone(), words }
    }
}

/// A caster's stack of values; the top is the last item.
#[derive(Debug)]
pub struct Stack {
    pub items: Vec<StackItem>,
}

impl View for Stack {
    type V = Seq<Entry>;

    open spec fn view(&self) -> Seq<Entry> {
        self.items@.map_values(|i: StackItem| i@)
    }
}

pub open spec fn is_scalar(e: Entry) -> bool {
    e.0 is Scalar
}

pub open spec fn is_vector(e: Entry) -> bool {
    e.0 is Vector
}

/// Whether a function can be applied to the stack `s`, and if not, why.
pub open spec fn check(s: Seq<Entry>, f: Function) -> Result<(), StackError> {
    let n = s.len();
    match f {
        Function::Nullary(_) | Function::ReadField(_) | Function::Control(_) => Ok(()),
        Function::Combinator1(_) => if n < 1 {
            Err(StackError::StackUnderflow)
        } else {
            Ok(())
        },
        Function::MathUnOp(_) => if n < 1 {
            Err(StackError::StackUnderflow)
        } else if is_scalar(s[n - 1]) || is_vector(s[n - 1]) {
            Ok(())
        } else {
            Err(StackError::TypeMismatch)
        },
        Function::WriteField(_) | Function::ToScalarOp(_) => if n < 1 {
            Err(StackError::StackUnderflow)
        } else if is_vector(s[n - 1]) {
            Ok(())
        } else {
            Err(StackError::TypeMismatch)
        },
        Function::ScalarUnOp(_) => if n < 1 {
            Err(StackError::StackUnderflow)
        } else if is_scalar(s[n - 1]) {
            Ok(())
        } else {
            Err(StackError::TypeMismatch)
        },
        Function::HomoBinOp(_) => if n < 2 {
            Err(StackError::StackUnderflow)
        } else if (is_scalar(s[n - 2]) && is_scalar(s[n - 1])) || (is_vector(s[n - 2]) && is_vector(
            s[n - 1],
        )) {
            Ok(())
        } else {
            Err(StackError::TypeMismatch)
        },
        Function::HeteroBinOp(_) => if n < 2 {
            Err(StackError::StackUnderflow)
        } else if is_vector(s[n - 2]) && is_scalar(s[n - 1]) {
            Ok(())
        } else {
            Err(StackError::TypeMismatch)
        },
        Function::Combinator2(_) => if n < 2 {
            Err(StackError::StackUnderflow)
        } else {
            Ok(())
        },
    }
}

pub open spec fn scalar_of(f: Value) -> ScalarField {
    match f {
        Value::Scalar(x) => x,
        _ => ScalarField::Uniform(0),
    }
}

pub open spec fn vector_of(f: Value) -> VectorField {
    match f {
        Value::Vector(x) => x,
        _ => VectorField::Uniform(Vec2 { x: 0, y: 0 }),
    }
}

/// The value that a constant word pushes.
pub open spec fn nullary_field(c: Nullary) -> Value {
    match c {
        Nullary::One => Value::Scalar(ScalarField::Uniform(1000)),
        Nullary::Two => Value::Scalar(ScalarField::Uniform(2000)),
        Nullary::Five => Value::Scalar(ScalarField::Uniform(5000)),
        Nullary::Ten => Value::Scalar(ScalarField::Uniform(10000)),
        Nullary::OneX => Value::Vector(VectorField::Uniform(Vec2 { x: 1000, y: 0 })),
        Nullary::OneY => Value::Vector(VectorField::Uniform(Vec2 { x: 0, y: 1000 })),
        Nullary::X => Value::Scalar(ScalarField::X),
        Nullary::Y => Value::Scalar(ScalarField::Y),
        Nullary::TargetX => Value::Scalar(ScalarField::TargetX),
        Nullary::TargetY => Value::Scalar(ScalarField::TargetY),
        Nullary::Filter => Value::Function(Function::HeteroBinOp(HeteroBinOp::Filter)),
    }
}

/// The field that a read word pushes.
pub open spec fn read_field(k: FieldKind) -> Value {
    match k {
        FieldKind::ScalarInput(k) => Value::Scalar(ScalarField::Input(k)),
        FieldKind::VectorOutput(k) => Value::Vector(VectorField::Output(k)),
    }
}

pub open spec fn negated(f: Value) -> Value {
    match f {
        Value::Scalar(x) => Value::Scalar(ScalarField::Negate(Box::new(x))),
        Value::Vector(x) => Value::Vector(VectorField::Negate(Box::new(x))),
        Value::Function(g) => Value::Function(g),
    }
}

/// The field two same-typed fields combine into.
pub open spec fn homo_field(op: HomoBinOp, a: Value, b: Value) -> Value {
    match (a, b) {
        (Value::Scalar(x), Value::Scalar(y)) => match op {
            HomoBinOp::Add => Value::Scalar(ScalarField::Add(Box::new(x), Box::new(y))),
            HomoBinOp::Mul => Value::Scalar(ScalarField::Mul(Box::new(x), Box::new(y))),
        },
        _ => match op {
            HomoBinOp::Add => Value::Vector(
                VectorField::Add(Box::new(vector_of(a)), Box::new(vector_of(b))),
            ),
            HomoBinOp::Mul => Value::Vector(
                VectorField::Mul(Box::new(vector_of(a)), Box::new(vector_of(b))),
            ),
        },
    }
}

/// The field a vector `a` and a scalar `b` combine into.
pub open spec fn hetero_field(op: HeteroBinOp, a: Value, b: Value) -> Value {
    match op {
        HeteroBinOp::Mul => Value::Vector(
            VectorField::Scale(Box::new(vector_of(a)), Box::new(scalar_of(b))),
        ),
        HeteroBinOp::Filter => Value::Vector(
            VectorField::Filter(Box::new(vector_of(a)), Box::new(scalar_of(b))),
        ),
    }
}

/// What saying `w` does to a stack on which its function checks: the new
/// stack, and the spell it commits, if any. Each pushed value carries the
/// words of the values it consumed, then `w`; combinators move values with
/// their words.
pub open spec fn effect(s: Seq<Entry>, w: Word) -> (Seq<Entry>, Option<Commit>) {
    let n = s.len();
    let rest1 = s.subrange(0, n - 1);
    let rest2 = s.subrange(0, n - 2);
    let top = s[n - 1];
    let second = s[n - 2];
    match function_of(w) {
        Function::Nullary(c) => (s.push((nullary_field(c), seq![w])), None),
        Function::ReadField(k) => (s.push((read_field(k), seq![w])), None),
        Function::Control(k) => (s.push((Value::Scalar(ScalarField::Control(k)), seq![w])), None),
        Function::WriteField(k) => (rest1, Some((k, vector_of(top.0), top.1.push(w)))),
        Function::MathUnOp(_) => (rest1.push((negated(top.0), top.1.push(w))), None),
        Function::ScalarUnOp(_) => (
            rest1.push(
                (Value::Scalar(ScalarField::Reciprocal(Box::new(scalar_of(top.0)))), top.1.push(w)),
            ),
            None,
        ),
        Function::ToScalarOp(_) => (
            rest1.push(
                (Value::Scalar(ScalarField::Magnitude(Box::new(vector_of(top.0)))), top.1.push(w)),
            ),
            None,
        ),
        Function::HomoBinOp(op) => (
            rest2.push((homo_field(op, second.0, top.0), second.1 + top.1.push(w))),
            None,
        ),
        Function::HeteroBinOp(op) => (
            rest2.push((hetero_field(op, second.0, top.0), second.1 + top.1.push(w))),
            None,
        ),
        Function::Combinator1(Combinator1::Drop) => (rest1, None),
        Function::Combinator1(Combinator1::Duplicate) => (s.push(top), None),
        Function::Combinator2(Combinator2::Swap) => (rest2.push(top).push(second), None),
        Function::Combinator2(Combinator2::Over) => (s.push(second), None),
    }
}

/// Saying each word in turn: the final stack and the spells committed, or
/// the index of the first word that fails, with its error.
pub open spec fn run(s: Seq<Entry>, ws: Seq<Word>) -> Result<(Seq<Entry>, Seq<Commit>), (int, StackError)>
    decreases ws.len(),
{
    if ws.len() == 0 {
        Ok((s, Seq::empty()))
    } else {
        match run(s, ws.drop_last()) {
            Err(e) => Err(e),
            Ok((t, cs)) => match check(t, function_of(ws.last())) {
                Err(e) => Err(((ws.len() - 1) as int, e)),
                Ok(_) => {
                    let (t2, c) = effect(t, ws.last());
                    Ok(
                        (
                            t2,
                            match c {
                                Some(c) => cs.push(c),
                                None => cs,
                            },
                        ),
                    )
                },
            },
        }
    }
}

/// Whether the registry entry is the commit `c` of `caster`.
pub open spec fn spell_is(e: ActiveSpell, caster: PersonId, c: Commit) -> bool {
    e.caster == caster && e.kind == c.0 && e.field == c.1 && e.words@ == c.2
}

/// Whether `new` is `old` followed by the commits of `caster`, in order.
pub open spec fn extended(
    old: Seq<ActiveSpell>,
    new: Seq<ActiveSpell>,
    caster: PersonId,
    cs: Seq<Commit>,
) -> bool {
    &&& new.len() == old.len() + cs.len()
    &&& forall|i: int| 0 <= i < old.len() ==> #[trigger] new[i] == old[i]
    &&& forall|j: int| 0 <= j < cs.len() ==> spell_is(#[trigger] new[old.len() + j], caster, cs[j])
}

pub open spec fn commits_of(c: Option<Commit>) -> Seq<Commit> {
    match c {
        Some(c) => seq![c],
        None => Seq::empty(),
    }
}

/// All the words of the stack, bottom first.
pub open spec fn spoken(s: Seq<Entry>) -> Seq<Word>
    decreases s.len(),
{
    if s.len() == 0 {
        Seq::empty()
    } else {
        spoken(s.drop_last()) + s.last().1
    }
}

fn nullary_exec(c: Nullary) -> (r: Value)
    ensures
        r == nullary_field(c),
{
    match c {
        Nullary::One => Value::Scalar(ScalarField::Uniform(1000)),
        Nullary::Two => Value::Scalar(ScalarField::Uniform(2000)),
        Nullary::Five => Value::Scalar(ScalarField::Uniform(5000)),
        Nullary::Ten => Value::Scalar(ScalarField::Uniform(10000)),
        Nullary::OneX => Value::Vector(VectorField::Uniform(Vec2 { x: 1000, y: 0 })),
        Nullary::OneY => Value::Vector(VectorField::Uniform(Vec2 { x: 0, y: 1000 })),
        Nullary::X => Value::Scalar(ScalarField::X),
        Nullary::Y => Value::Scalar(ScalarField::Y),
        Nullary::TargetX => Value::Scalar(ScalarField::TargetX),
        Nullary::TargetY => Value::Scalar(ScalarField::TargetY),
        Nullary::Filter => Value::Function(Function::HeteroBinOp(HeteroBinOp::Filter)),
    }
}

fn read_exec(k: FieldKind) -> (r: Value)
    ensures
        r == read_field(k),
{
    match k {
        FieldKind::ScalarInput(k) => Value::Scalar(ScalarField::Input(k)),
        FieldKind::VectorOutput(k) => Value::Vector(VectorField::Output(k)),
    }
}

fn into_scalar(f: Value) -> (r: ScalarField)
    ensures
        r == scalar_of(f),
{
    match f {
        Value::Scalar(x) => x,
        _ => ScalarField::Uniform(0),
    }
}

fn into_vector(f: Value) -> (r: VectorField)
    ensures
        r == vector_of(f),
{
    match f {
        Value::Vector(x) => x,
        _ => VectorField::Uniform(Vec2 { x: 0, y: 0 }),
    }
}

/// The words of two operands followed by the word said.
fn joined(a: Vec<Word>, b: Vec<Word>, w: Word) -> (r: Vec<Word>)
    ensures
        r@ == a@ + b@.push(w),
{
    let ghost (va, vb) = (a@, b@);
    let mut r = a;
    let mut rest = b;
    r.append(&mut rest);
    r.push(w);
    proof {
        assert(r@ =~= va + vb.push(w));
    }
    r
}

impl Stack {
    pub fn new() -> (r: Stack)
        ensures
            r@ == Seq::<Entry>::empty(),
    {
        let r = Stack { items: Vec::new() };
        proof {
            assert(r@ =~= Seq::<Entry>::empty());
        }
        r
    }

    pub fn len(&self) -> (r: usize)
        ensures
            r == self@.len(),
    {
        self.items.len()
    }

    pub fn is_empty(&self) -> (r: bool)
        ensures
            r == (self@.len() == 0),
    {
        self.items.len() == 0
    }

    /// Empties the stack.
    pub fn clear(&mut self)
        ensures
            final(self)@ == Seq::<Entry>::empty(),
    {
        self.items = Vec::new();
        proof {
            assert(self@ =~= Seq::<Entry>::empty());
        }
    }

    /// A copy of the stack, item by item.
    pub fn duplicate(&self) -> (r: Stack)
        ensures
            r@ == self@,
    {
        let mut items: Vec<StackItem> = Vec::new();
        let mut i: usize = 0;
        while i < self.items.len()
            invariant
                i <= self.items@.len(),
                items@.len() == i,
                forall|j: int| 0 <= j < i ==> (#[trigger] items@[j])@ == self.items@[j]@,
            decreases self.items.len() - i,
        {
            items.push(self.items[i].clone());
            i = i + 1;
        }
        let r = Stack { items };
        proof {
            assert(r@ =~= self@);
        }
        r
    }

    /// All the words of the stack, bottom first: said again on an empty
    /// stack, they rebuild it.
    pub fn words(&self) -> (r: Vec<Word>)
        ensures
            r@ == spoken(self@),
    {
        let mut r: Vec<Word> = Vec::new();
        let mut i: usize = 0;
        while i < self.items.len()
            invariant
                i <= self.items@.len(),
                r@ == spoken(self@.subrange(0, i as int)),
            decreases self.items.len() - i,
        {
            let ws = &self.items[i].words;
            let ghost before = r@;
            let mut j: usize = 0;
            while j < ws.len()
                invariant
                    j <= ws@.len(),
                    r@ == before + ws@.subrange(0, j as int),
                decreases ws.len() - j,
            {
                r.push(ws[j]);
                proof {
                    assert(r@ =~= before + ws@.subrange(0, j + 1));
                }
                j = j + 1;
            }
            proof {
                let s = self@.subrange(0, i + 1);
                assert(s.drop_last() =~= self@.subrange(0, i as int));
                assert(ws@.subrange(0, j as int) =~= ws@);
                assert(s.last() == self@[i as int]);
            }
            i = i + 1;
        }
        proof {
            assert(self@.subrange(0, i as int) =~= self@);
        }
        r
    }

    /// Whether some value on the stack reads the control.
    pub fn uses_control(&self, k: ControlKind) -> (r: bool)
        ensures
            r == exists|i: int| 0 <= i < self@.len() && value_uses(#[trigger] self@[i].0, k),
    {
        let mut i: usize = 0;
        while i < self.items.len()
            invariant
                i <= self@.len(),
                forall|m: int| 0 <= m < i ==> !value_uses(#[trigger] self@[m].0, k),
            decreases self.items.len() - i,
        {
            if self.items[i].value.uses_control(k) {
                assert(self@[i as int].0 == self.items@[i as int].value);
                return true;
            }
            i = i + 1;
        }
        false
    }

    /// Whether a caster can be offered the word: it is known, the caster
    /// can afford it, and its function checks on the stack.
    pub fn can_say(&self, w: Word, known: bool, mana: i64) -> (r: bool)
        ensures
            r == (known && mana >= cost_of(w) && check(self@, function_of(w)) is Ok),
    {
        known && mana >= w.cost() && self.validate(w.function()).is_ok()
    }

    /// Checks, without changing the stack, that the function can be applied.
    pub fn validate(&self, f: Function) -> (r: Result<(), StackError>)
        ensures
            r == check(self@, f),
    {
        let n = self.items.len();
        match f {
            Function::Nullary(_) | Function::ReadField(_) | Function::Control(_) => Ok(()),
            Function::Combinator1(_) => if n < 1 {
                Err(StackError::StackUnderflow)
            } else {
                Ok(())
            },
            Function::MathUnOp(_) => if n < 1 {
                Err(StackError::StackUnderflow)
            } else if self.items[n - 1].value.is_scalar() || self.items[n - 1].value.is_vector() {
                Ok(())
            } else {
                Err(StackError::TypeMismatch)
            },
            Function::WriteField(_) | Function::ToScalarOp(_) => if n < 1 {
                Err(StackError::StackUnderflow)
            } else if self.items[n - 1].value.is_vector() {
                Ok(())
            } else {
                Err(StackError::TypeMismatch)
            },
            Function::ScalarUnOp(_) => if n < 1 {
                Err(StackError::StackUnderflow)
            } else if self.items[n - 1].value.is_scalar() {
                Ok(())
            } else {
                Err(StackError::TypeMismatch)
            },
            Function::HomoBinOp(_) => if n < 2 {
                Err(StackError::StackUnderflow)
            } else {
                let a = &self.items[n - 2].value;
                let b = &self.items[n - 1].value;
                if (a.is_scalar() && b.is_scalar()) || (a.is_vector() && b.is_vector()) {
                    Ok(())
                } else {
                    Err(StackError::TypeMismatch)
                }
            },
            Function::HeteroBinOp(_) => if n < 2 {
                Err(StackError::StackUnderflow)
            } else if self.items[n - 2].value.is_vector() && self.items[n - 1].value.is_scalar() {
                Ok(())
            } else {
                Err(StackError::TypeMismatch)
            },
            Function::Combinator2(_) => if n < 2 {
                Err(StackError::StackUnderflow)
            } else {
                Ok(())
            },
        }
    }

    fn pop_item(&mut self) -> (r: StackItem)
        requires
            old(self)@.len() > 0,
        ensures
            r@ == old(self)@.last(),
            final(self)@ == old(self)@.drop_last(),
    {
        let ghost n = self.items@.len();
        match self.items.pop() {
            Some(it) => {
                proof {
                    assert(self@ =~= old(self)@.drop_last());
                }
                it
            },
            None => {
                proof {
                    assert(false);
                }
                StackItem { value: Value::Scalar(ScalarField::Uniform(0)), words: Vec::new() }
            },
        }
    }

    fn push_item(&mut self, it: StackItem)
        ensures
            final(self)@ == old(self)@.push(it@),
    {
        self.items.push(it);
        proof {
            assert(self@ =~= old(self)@.push(it@));
        }
    }

    /// Applies the word's function to a stack on which it checks, and hands
    /// back the spell it commits, if any.
    fn perform(&mut self, caster: PersonId, w: Word) -> (r: Option<ActiveSpell>)
        requires
            check(old(self)@, function_of(w)) is Ok,
        ensures
            final(self)@ == effect(old(self)@, w).0,
            match effect(old(self)@, w).1 {
                Some(c) => r matches Some(e) && spell_is(e, caster, c),
                None => r is None,
            },
    {
        let ghost s = self@;
        let ghost n = s.len();
        proof {
            if n >= 1 {
                assert(s.drop_last() =~= s.subrange(0, n - 1));
            }
            if n >= 2 {
                assert(s.drop_last().drop_last() =~= s.subrange(0, n - 2));
            }
        }
        match w.function() {
            Function::Nullary(c) => {
                let v = vec![w];
                proof {
                    assert(v@ =~= seq![w]);
                }
                self.push_item(StackItem { value: nullary_exec(c), words: v });
                None
            },
            Function::ReadField(k) => {
                let v = vec![w];
                proof {
                    assert(v@ =~= seq![w]);
                }
                self.push_item(StackItem { value: read_exec(k), words: v });
                None
            },
            Function::Control(k) => {
                let v = vec![w];
                proof {
                    assert(v@ =~= seq![w]);
                }
                self.push_item(StackItem { value: Value::Scalar(ScalarField::Control(k)), words: v });
                None
            },
            Function::WriteField(k) => {
                let mut it = self.pop_item();
                it.words.push(w);
                Some(ActiveSpell { caster, kind: k, field: into_vector(it.value), words: it.words })
            },
            Function::MathUnOp(MathUnOp::Neg) => {
                let mut it = self.pop_item();
                it.words.push(w);
                let field = match it.value {
                    Value::Scalar(x) => Value::Scalar(ScalarField::Negate(Box::new(x))),
                    Value::Vector(x) => Value::Vector(VectorField::Negate(Box::new(x))),
                    Value::Function(g) => Value::Function(g),
                };
                self.push_item(StackItem { value: field, words: it.words });
                None
            },
            Function::ScalarUnOp(ScalarUnOp::Reciprocal) => {
                let mut it = self.pop_item();
                it.words.push(w);
                let field = Value::Scalar(ScalarField::Reciprocal(Box::new(into_scalar(it.value))));
                self.push_item(StackItem { value: field, words: it.words });
                None
            },
            Function::ToScalarOp(ToScalarOp::Magnitude) => {
                let mut it = self.pop_item();
                it.words.push(w);
                let field = Value::Scalar(ScalarField::Magnitude(Box::new(into_vector(it.value))));
                self.push_item(StackItem { value: field, words: it.words });
                None
            },
            Function::HomoBinOp(op) => {
                let b = self.pop_item();
                let a = self.pop_item();
                let words = joined(a.words, b.words, w);
                let field = match (a.value, b.value) {
                    (Value::Scalar(x), Value::Scalar(y)) => match op {
                        HomoBinOp::Add => Value::Scalar(ScalarField::Add(Box::new(x), Box::new(y))),
                        HomoBinOp::Mul => Value::Scalar(ScalarField::Mul(Box::new(x), Box::new(y))),
                    },
                    (af, bf) => {
                        let x = into_vector(af);
                        let y = into_vector(bf);
                        match op {
                            HomoBinOp::Add => Value::Vector(VectorField::Add(Box::new(x), Box::new(y))),
                            HomoBinOp::Mul => Value::Vector(VectorField::Mul(Box::new(x), Box::new(y))),
                        }
                    },
                };
                self.push_item(StackItem { value: field, words });
                None
            },
            Function::HeteroBinOp(op) => {
                let b = self.pop_item();
                let a = self.pop_item();
                let words = joined(a.words, b.words, w);
                let x = into_vector(a.value);
                let y = into_scalar(b.value);
                let field = match op {
                    HeteroBinOp::Mul => Value::Vector(VectorField::Scale(Box::new(x), Box::new(y))),
                    HeteroBinOp::Filter => Value::Vector(VectorField::Filter(Box::new(x), Box::new(y))),
                };
                self.push_item(StackItem { value: field, words });
                None
            },
            Function::Combinator1(Combinator1::Drop) => {
                let _ = self.pop_item();
                None
            },
            Function::Combinator1(Combinator1::Duplicate) => {
                let it = self.items[self.items.len() - 1].clone();
                self.push_item(it);
                None
            },
            Function::Combinator2(Combinator2::Swap) => {
                let b = self.pop_item();
                let a = self.pop_item();
                self.push_item(b);
                self.push_item(a);
                None
            },
            Function::Combinator2(Combinator2::Over) => {
                let it = self.items[self.items.len() - 2].clone();
                self.push_item(it);
                None
            },
        }
    }

    /// Says one word: if its function checks, applies it and commits the
    /// spell of a write word to `spells` under `caster`; otherwise changes
    /// nothing and reports why.
    pub fn say(&mut self, caster: PersonId, w: Word, spells: &mut ActiveSpells) -> (r: Result<
        (),
        StackError,
    >)
        ensures
            match check(old(self)@, function_of(w)) {
                Err(e) => r == Err::<(), StackError>(e) && final(self)@ == old(self)@
                    && final(spells).spells@ == old(spells).spells@,
                Ok(_) => r is Ok && final(self)@ == effect(old(self)@, w).0 && extended(
                    old(spells).spells@,
                    final(spells).spells@,
                    caster,
                    commits_of(effect(old(self)@, w).1),
                ),
            },
    {
        match self.validate(w.function()) {
            Err(e) => Err(e),
            Ok(()) => {
                let ghost before = spells.spells@;
                match self.perform(caster, w) {
                    Some(e) => {
                        spells.spells.push(e);
                        proof {
                            assert(spells.spells@[before.len() as int] == spells.spells@.last());
                        }
                    },
                    None => {},
                }
                Ok(())
            },
        }
    }

    /// Says the words in turn, all or nothing: when every word checks in its
    /// turn, the stack and `spells` take the result; otherwise both stay as
    /// they were and the index of the first failing word comes back.
    pub fn cast(&mut self, caster: PersonId, words: &Vec<Word>, spells: &mut ActiveSpells) -> (r:
        Result<(), (usize, StackError)>)
        ensures
            match run(old(self)@, words@) {
                Err((i, e)) => r == Err::<(), (usize, StackError)>((i as usize, e)) && final(self)@
                    == old(self)@ && final(spells).spells@ == old(spells).spells@,
                Ok((t, cs)) => r is Ok && final(self)@ == t && extended(
                    old(spells).spells@,
                    final(spells).spells@,
                    caster,
                    cs,
                ),
            },
    {
        let mut scratch = self.duplicate();
        let mut pending: Vec<ActiveSpell> = Vec::new();
        let mut i: usize = 0;
        proof {
            assert(words@.subrange(0, 0) =~= Seq::<Word>::empty());
        }
        while i < words.len()
            invariant
                i <= words@.len(),
                run(old(self)@, words@.subrange(0, i as int)) matches Ok((t, cs)) && scratch@ == t
                    && extended(Seq::empty(), pending@, caster, cs),
            decreases words.len() - i,
        {
            let w = words[i];
            let ghost pre = words@.subrange(0, i as int);
            let ghost next = words@.subrange(0, i + 1);
            proof {
                assert(next.drop_last() =~= pre);
                assert(next.last() == w);
            }
            match scratch.validate(w.function()) {
                Err(e) => {
                    proof {
                        lemma_run_stops(old(self)@, words@, i as int);
                    }
                    return Err((i, e));
                },
                Ok(()) => {
                    let ghost cs_before = pending@;
                    match scratch.perform(caster, w) {
                        Some(e) => {
                            pending.push(e);
                        },
                        None => {},
                    }
                },
            }
            i = i + 1;
        }
        proof {
            assert(words@.subrange(0, i as int) =~= words@);
        }
        *self = scratch;
        let ghost before = spells.spells@;
        let ghost all = pending@;
        let ghost cs = run(old(self)@, words@)->Ok_0.1;
        let n = pending.len();
        let mut k: usize = 0;
        while k < n
            invariant
                n == all.len(),
                k <= n,
                pending@ == all.subrange(k as int, n as int),
                spells.spells@.len() == before.len() + k,
                forall|m: int| 0 <= m < before.len() ==> #[trigger] spells.spells@[m] == before[m],
                forall|m: int| 0 <= m < k ==> #[trigger] spells.spells@[before.len() + m] == all[m],
            decreases n - k,
        {
            let ghost p = pending@;
            let e = pending.remove(0);
            proof {
                assert(pending@ =~= all.subrange(k + 1, n as int));
            }
            spells.spells.push(e);
            k = k + 1;
        }
        proof {
            assert forall|j: int| 0 <= j < cs.len() implies spell_is(
                #[trigger] spells.spells@[before.len() + j],
                caster,
                cs[j],
            ) by {
                assert(spells.spells@[before.len() + j] == all[j]);
                assert(all[0 + j] == all[j]);
            }
        }
        Ok(())
    }
}

/// Saying a sequence of words is saying its first part, then the rest on
/// the stack that the first part left; a failure in the rest is reported
/// at its place in the whole sequence.
pub proof fn lemma_run_concat(s: Seq<Entry>, a: Seq<Word>, b: Seq<Word>)
    ensures
        run(s, a + b) == match run(s, a) {
            Err(e) => Err(e),
            Ok((t, cs)) => match run(t, b) {
                Ok((t2, cs2)) => Ok((t2, cs + cs2)),
                Err((i, e)) => Err((a.len() + i, e)),
            },
        },
    decreases b.len(),
{
    if b.len() == 0 {
        assert(a + b =~= a);
        if let Ok((t, cs)) = run(s, a) {
            assert(cs + Seq::<Commit>::empty() =~= cs);
        }
    } else {
        lemma_run_concat(s, a, b.drop_last());
        assert((a + b).drop_last() =~= a + b.drop_last());
        assert((a + b).last() == b.last());
        if let Ok((t, cs)) = run(s, a) {
            if let Ok((t2, cs2)) = run(t, b.drop_last()) {
                if let Some(c) = effect(t2, b.last()).1 {
                    assert((cs + cs2).push(c) =~= cs + cs2.push(c));
                }
            }
        }
    }
}

/// Saying one word on a stack is checking its function, then applying it.
pub proof fn lemma_run_one(s: Seq<Entry>, w: Word)
    ensures
        run(s, seq![w]) == match check(s, function_of(w)) {
            Err(e) => Err((0int, e)),
            Ok(_) => Ok((effect(s, w).0, commits_of(effect(s, w).1))),
        },
{
    assert(seq![w].drop_last() =~= Seq::<Word>::empty());
    assert(seq![w].last() == w);
    assert(run(s, Seq::<Word>::empty()) == Ok::<(Seq<Entry>, Seq<Commit>), (int, StackError)>(
        (s, Seq::empty()),
    ));
    assert(run(s, seq![w]) == match run(s, seq![w].drop_last()) {
        Err(e) => Err(e),
        Ok((t, cs)) => match check(t, function_of(seq![w].last())) {
            Err(e) => Err(((seq![w].len() - 1) as int, e)),
            Ok(_) => {
                let (t2, c) = effect(t, seq![w].last());
                Ok(
                    (
                        t2,
                        match c {
                            Some(c) => cs.push(c),
                            None => cs,
                        },
                    ),
                )
            },
        },
    });
    if let Some(c) = effect(s, w).1 {
        assert(Seq::<Commit>::empty().push(c) =~= seq![c]);
    }
}

/// Duplicating the top value and dropping it leaves the stack as it was,
/// whatever the value.
pub proof fn lemma_duplicate_drop(s: Seq<Entry>)
    requires
        s.len() >= 1,
    ensures
        run(s, seq![Word::Mo, Word::No]) == Ok::<(Seq<Entry>, Seq<Commit>), (int, StackError)>(
            (s, Seq::empty()),
        ),
{
    lemma_run_concat(s, seq![Word::Mo], seq![Word::No]);
    assert(seq![Word::Mo] + seq![Word::No] =~= seq![Word::Mo, Word::No]);
    lemma_run_one(s, Word::Mo);
    let t = s.push(s[s.len() - 1]);
    lemma_run_one(t, Word::No);
    assert(t.subrange(0, t.len() - 1) =~= s);
    assert(Seq::<Commit>::empty() + Seq::<Commit>::empty() =~= Seq::<Commit>::empty());
}

/// Swapping the top two values twice leaves the stack as it was.
pub proof fn lemma_swap_twice(s: Seq<Entry>)
    requires
        s.len() >= 2,
    ensures
        run(s, seq![Word::Re, Word::Re]) == Ok::<(Seq<Entry>, Seq<Commit>), (int, StackError)>(
            (s, Seq::empty()),
        ),
{
    lemma_run_concat(s, seq![Word::Re], seq![Word::Re]);
    assert(seq![Word::Re] + seq![Word::Re] =~= seq![Word::Re, Word::Re]);
    lemma_run_one(s, Word::Re);
    let n = s.len();
    let t = s.subrange(0, n - 2).push(s[n - 1]).push(s[n - 2]);
    lemma_run_one(t, Word::Re);
    assert(t.subrange(0, n - 2) =~= s.subrange(0, n - 2));
    assert(t.subrange(0, n - 2).push(t[n - 1]).push(t[n - 2]) =~= s);
    assert(Seq::<Commit>::empty() + Seq::<Commit>::empty() =~= Seq::<Commit>::empty());
}

/// Once a word fails, running on from it fails at that word.
proof fn lemma_run_stops(s: Seq<Entry>, ws: Seq<Word>, i: int)
    requires
        0 <= i < ws.len(),
        run(s, ws.subrange(0, i)) is Ok,
        check(run(s, ws.subrange(0, i))->Ok_0.0, function_of(ws[i])) is Err,
    ensures
        run(s, ws) == Err::<(Seq<Entry>, Seq<Commit>), (int, StackError)>(
            (i, check(run(s, ws.subrange(0, i))->Ok_0.0, function_of(ws[i]))->Err_0),
        ),
{
    lemma_run_stops_at(s, ws, i, ws.len() as int);
    assert(ws.subrange(0, ws.len() as int) =~= ws);
}

proof fn lemma_run_stops_at(s: Seq<Entry>, ws: Seq<Word>, i: int, k: int)
    requires
        0 <= i < k <= ws.len(),
        run(s, ws.subrange(0, i)) is Ok,
        check(run(s, ws.subrange(0, i))->Ok_0.0, function_of(ws[i])) is Err,
    ensures
        run(s, ws.subrange(0, k)) == Err::<(Seq<Entry>, Seq<Commit>), (int, StackError)>(
            (i, check(run(s, ws.subrange(0, i))->Ok_0.0, function_of(ws[i]))->Err_0),
        ),
    decreases k,
{
    let p = ws.subrange(0, k);
    assert(p.drop_last() =~= ws.subrange(0, k - 1));
    assert(p.last() == ws[k - 1]);
    if k > i + 1 {
        lemma_run_stops_at(s, ws, i, k - 1);
    }
}

impl Value {
    pub fn is_scalar(&self) -> (r: bool)
        ensures
            r == (*self is Scalar),
    {
        match self {
            Value::Scalar(_) => true,
            _ => false,
        }
    }

    pub fn is_vector(&self) -> (r: bool)
        ensures
            r == (*self is Vector),
    {
        match self {
            Value::Vector(_) => true,
            _ => false,
        }
    }
}

} // verus!
