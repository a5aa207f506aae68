use vstd::prelude::*;

use crate::vector::Vec2;
use crate::word::Function;

verus! {

/// Scalar fields that the world supplies.
#[derive(Clone, Copy, Debug, PartialEq, Eq, Structural, Hash)]
pub enum ScalarInputFieldKind {
    Elevation,
    Density,
    Light,
    Magic,
}

/// Vector fields that active spells produce.
#[derive(Clone, Copy, Debug, PartialEq, Eq, Structural, Hash)]
pub enum VectorOutputFieldKind {
    Gravity,
    Force,
}

/// A field that a word can read: a world input or a spell output.
#[derive(Clone, Copy, Debug, PartialEq, Eq, Structural, Hash)]
pub enum FieldKind {
    ScalarInput(ScalarInputFieldKind),
    VectorOutput(VectorOutputFieldKind),
}

/// User interface controls whose values a field may read.
#[derive(Clone, Copy, Debug, PartialEq, Eq, Structural, Hash)]
pub enum ControlKind {
    XSlider,
    YSlider,
}

/// A scalar field of the world that the user interface can show. Every
/// scalar field of the world is an input.
#[derive(Clone, Copy, Debug, PartialEq, Eq, Structural, Hash)]
pub enum ScalarFieldKind {
    Input(ScalarInputFieldKind),
}

/// A vector field of the world that the user interface can show. Every
/// vector field of the world is a spell output.
#[derive(Clone, Copy, Debug, PartialEq, Eq, Structural, Hash)]
pub enum VectorFieldKind {
    Output(VectorOutputFieldKind),
}

/// A coordinate axis.
#[derive(Clone, Copy, Debug, PartialEq, Eq, Structural, Hash)]
pub enum Axis {
    X,
    Y,
}

/// An immutable expression for a scalar field over the play area.
#[derive(Debug)]
pub enum ScalarField {
    /// The same value everywhere.
    Uniform(i64),
    /// The x coordinate of the sampled position, from the observer.
    X,
    /// The y coordinate of the sampled position, from the observer.
    Y,
    /// The x coordinate of the observer's target, from the observer.
    TargetX,
    /// The y coordinate of the observer's target, from the observer.
    TargetY,
    /// The current value of a control, the same everywhere.
    Control(ControlKind),
    /// A field of the world.
    Input(ScalarInputFieldKind),
    Negate(Box<ScalarField>),
    Reciprocal(Box<ScalarField>),
    /// The length of a vector field.
    Magnitude(Box<VectorField>),
    Add(Box<ScalarField>, Box<ScalarField>),
    Mul(Box<ScalarField>, Box<ScalarField>),
}

/// An immutable expression for a vector field over the play area.
#[derive(Debug)]
pub enum VectorField {
    /// The same vector everywhere, turned into the observer's facing
    /// where the sampling is direction-relative.
    Uniform(Vec2),
    /// The sum of all active spells of a kind.
    Output(VectorOutputFieldKind),
    Negate(Box<VectorField>),
    /// A scalar field along a unit axis.
    Basis(Axis, Box<ScalarField>),
    /// The vector field where the mask is positive, zero elsewhere.
    Filter(Box<VectorField>, Box<ScalarField>),
    Add(Box<VectorField>, Box<VectorField>),
    /// Component-wise product.
    Mul(Box<VectorField>, Box<VectorField>),
    /// A vector field scaled by a scalar field.
    Scale(Box<VectorField>, Box<ScalarField>),
}

/// A stack value: a field expression of either type, or a function carried
/// as an operand for combinators.
#[derive(Debug)]
pub enum Value {
    Scalar(ScalarField),
    Vector(VectorField),
    Function(Function),
}

pub open spec fn scalar_size(f: ScalarField) -> nat
    decreases f,
{
    match f {
        ScalarField::Negate(a) => 1 + scalar_size(*a),
        ScalarField::Reciprocal(a) => 1 + scalar_size(*a),
        ScalarField::Magnitude(a) => 1 + vector_size(*a),
        ScalarField::Add(a, b) => 1 + scalar_size(*a) + scalar_size(*b),
        ScalarField::Mul(a, b) => 1 + scalar_size(*a) + scalar_size(*b),
        _ => 1,
    }
}

pub open spec fn vector_size(f: VectorField) -> nat
    decreases f,
{
    match f {
        VectorField::Negate(a) => 1 + vector_size(*a),
        VectorField::Basis(_, a) => 1 + scalar_size(*a),
        VectorField::Filter(a, m) => 1 + vector_size(*a) + scalar_size(*m),
        VectorField::Add(a, b) => 1 + vector_size(*a) + vector_size(*b),
        VectorField::Mul(a, b) => 1 + vector_size(*a) + vector_size(*b),
        VectorField::Scale(a, s) => 1 + vector_size(*a) + scalar_size(*s),
        _ => 1,
    }
}

impl Clone for ScalarField {
    fn clone(&self) -> (r: Self)
        ensures
            r == *self,
        decreases self,
    {
        match self {
            ScalarField::Uniform(n) => ScalarField::Uniform(*n),
            ScalarField::X => ScalarField::X,
            ScalarField::Y => ScalarField::Y,
            ScalarField::TargetX => ScalarField::TargetX,
            ScalarField::TargetY => ScalarField::TargetY,
            ScalarField::Control(k) => ScalarField::Control(*k),
            ScalarField::Input(k) => ScalarField::Input(*k),
            ScalarField::Negate(a) => ScalarField::Negate(Box::new((&**a).clone())),
            ScalarField::Reciprocal(a) => ScalarField::Reciprocal(Box::new((&**a).clone())),
            ScalarField::Magnitude(a) => ScalarField::Magnitude(Box::new((&**a).clone())),
            ScalarField::Add(a, b) => ScalarField::Add(
                Box::new((&**a).clone()),
                Box::new((&**b).clone()),
            ),
            ScalarField::Mul(a, b) => ScalarField::Mul(
                Box::new((&**a).clone()),
                Box::new((&**b).clone()),
            ),
        }
    }
}

impl Clone for VectorField {
    fn clone(&self) -> (r: Self)
        ensures
            r == *self,
        decreases self,
    {
        match self {
            VectorField::Uniform(v) => VectorField::Uniform(*v),
            VectorField::Output(k) => VectorField::Output(*k),
            VectorField::Negate(a) => VectorField::Negate(Box::new((&**a).clone())),
            VectorField::Basis(x, a) => VectorField::Basis(*x, Box::new((&**a).clone())),
            VectorField::Filter(a, m) => VectorField::Filter(
                Box::new((&**a).clone()),
                Box::new((&**m).clone()),
            ),
            VectorField::Add(a, b) => VectorField::Add(
                Box::new((&**a).clone()),
                Box::new((&**b).clone()),
            ),
            VectorField::Mul(a, b) => VectorField::Mul(
                Box::new((&**a).clone()),
                Box::new((&**b).clone()),
            ),
            VectorField::Scale(a, s) => VectorField::Scale(
                Box::new((&**a).clone()),
                Box::new((&**s).clone()),
            ),
        }
    }
}

impl Clone for Value {
    fn clone(&self) -> (r: Self)
        ensures
            r == *self,
    {
        match self {
            Value::Scalar(f) => Value::Scalar(f.clone()),
            Value::Vector(f) => Value::Vector(f.clone()),
            Value::Function(f) => Value::Function(*f),
        }
    }
}

/// Whether a scalar field reads the control.
pub open spec fn scalar_uses(f: ScalarField, k: ControlKind) -> bool
    decreases f,
{
    match f {
        ScalarField::Control(c) => c == k,
        ScalarField::Negate(a) => scalar_uses(*a, k),
        ScalarField::Reciprocal(a) => scalar_uses(*a, k),
        ScalarField::Magnitude(v) => vector_uses(*v, k),
        ScalarField::Add(a, b) => scalar_uses(*a, k) || scalar_uses(*b, k),
        ScalarField::Mul(a, b) => scalar_uses(*a, k) || scalar_uses(*b, k),
        _ => false,
    }
}

/// Whether a vector field reads the control.
pub open spec fn vector_uses(f: VectorField, k: ControlKind) -> bool
    decreases f,
{
    match f {
        VectorField::Negate(a) => vector_uses(*a, k),
        VectorField::Basis(_, s) => scalar_uses(*s, k),
        VectorField::Filter(a, m) => vector_uses(*a, k) || scalar_uses(*m, k),
        VectorField::Add(a, b) => vector_uses(*a, k) || vector_uses(*b, k),
        VectorField::Mul(a, b) => vector_uses(*a, k) || vector_uses(*b, k),
        VectorField::Scale(a, s) => vector_uses(*a, k) || scalar_uses(*s, k),
        _ => false,
    }
}

pub open spec fn value_uses(f: Value, k: ControlKind) -> bool {
    match f {
        Value::Scalar(x) => scalar_uses(x, k),
        Value::Vector(x) => vector_uses(x, k),
        Value::Function(_) => false,
    }
}

impl ScalarField {
    /// Whether the field reads the control.
    pub fn uses_control(&self, k: ControlKind) -> (r: bool)
        ensures
            r == scalar_uses(*self, k),
        decreases self,
    {
        match self {
            ScalarField::Control(c) => *c == k,
            ScalarField::Negate(a) => a.uses_control(k),
            ScalarField::Reciprocal(a) => a.uses_control(k),
            ScalarField::Magnitude(v) => v.uses_control(k),
            ScalarField::Add(a, b) => a.uses_control(k) || b.uses_control(k),
            ScalarField::Mul(a, b) => a.uses_control(k) || b.uses_control(k),
            _ => false,
        }
    }
}

impl VectorField {
    /// Whether the field reads the control.
    pub fn uses_control(&self, k: ControlKind) -> (r: bool)
        ensures
            r == vector_uses(*self, k),
        decreases self,
    {
        match self {
            VectorField::Negate(a) => a.uses_control(k),
            VectorField::Basis(_, s) => s.uses_control(k),
            VectorField::Filter(a, m) => a.uses_control(k) || m.uses_control(k),
            VectorField::Add(a, b) => a.uses_control(k) || b.uses_control(k),
            VectorField::Mul(a, b) => a.uses_control(k) || b.uses_control(k),
            VectorField::Scale(a, s) => a.uses_control(k) || s.uses_control(k),
            _ => false,
        }
    }
}

impl Value {
    /// Whether the field reads the control.
    pub fn uses_control(&self, k: ControlKind) -> (r: bool)
        ensures
            r == value_uses(*self, k),
    {
        match self {
            Value::Scalar(x) => x.uses_control(k),
            Value::Vector(x) => x.uses_control(k),
            Value::Function(_) => false,
        }
    }
}

} // verus!
