use vstd::prelude::*;

use crate::field::{
    Axis, ScalarField, ScalarFieldKind, ScalarInputFieldKind, VectorField, VectorFieldKind,
    VectorOutputFieldKind,
};
use crate::field::{scalar_size, vector_size};
use crate::fixed::{
    clamp, div_trunc, negate, negation_of, plus, product_of, reciprocal, reciprocal_of, sum_of, times,
};
use crate::vector::{length_of, vec_difference, vec_negation, vec_product, vec_rotated, vec_scaled};
use crate::vector::{vec_sum, zero, Vec2};
use crate::spells::has_kind;
use crate::world::{control_value, object_from, person_from, Person, PersonId, World};

verus! {

/// How many levels of spells that read spell outputs sampling follows; a
/// spell nested deeper reads zero from the registry. This keeps sampling
/// finite where a spell reads the output it writes to.
pub const SPELL_DEPTH: u64 = 3;

/// Step, in fixed-point units, of the downward scan that measures elevation.
pub const ELEVATION_STEP: i64 = 500;

/// The person with the id, if the world has one.
pub open spec fn person_of(w: World, id: PersonId) -> Option<Person> {
    let k = person_from(w.people@, id, 0);
    if k < w.people@.len() {
        Some(w.people@[k])
    } else {
        None
    }
}

pub open spec fn observer_of(w: World, obs: Option<PersonId>) -> Option<Person> {
    match obs {
        Some(id) => person_of(w, id),
        None => None,
    }
}

/// The origin that positions are measured from.
pub open spec fn origin_of(o: Option<Person>) -> Vec2 {
    match o {
        Some(p) => p.pos,
        None => zero(),
    }
}

/// The observer's target, from the observer; zero without either.
pub open spec fn target_of(o: Option<Person>) -> Vec2 {
    match o {
        Some(p) => match p.target {
            Some(t) => vec_difference(t, p.pos),
            None => zero(),
        },
        None => zero(),
    }
}

/// The weight of a caster's spells; a caster absent from the world weighs
/// nothing.
pub open spec fn field_scale_of(w: World, id: PersonId) -> i64 {
    match person_of(w, id) {
        Some(p) => p.field_scale,
        None => 0,
    }
}

/// The elevation of `pos` above the first fixed object found scanning down
/// from height `ty`, or its height when there is none above zero.
pub open spec fn elevation_from(w: World, pos: Vec2, ty: int) -> int
    decreases if ty > 0 {
        ty
    } else {
        0
    },
{
    if ty <= 0 {
        pos.y as int
    } else if object_from(w.objects@, Vec2 { x: pos.x, y: ty as i64 }, true, 0) is Some {
        pos.y - ty
    } else {
        elevation_from(w, pos, ty - ELEVATION_STEP)
    }
}

/// A scalar field sampled at `pos`, from the observer, with `d` levels of
/// spell nesting left.
pub open spec fn scalar_at(
    w: World,
    f: ScalarField,
    obs: Option<PersonId>,
    abs: bool,
    pos: Vec2,
    d: nat,
) -> i64
    decreases d, scalar_size(f) + 1, 0nat,
{
    let o = observer_of(w, obs);
    match f {
        ScalarField::Uniform(n) => n,
        ScalarField::X => vec_difference(pos, origin_of(o)).x,
        ScalarField::Y => vec_difference(pos, origin_of(o)).y,
        ScalarField::TargetX => target_of(o).x,
        ScalarField::TargetY => target_of(o).y,
        ScalarField::Control(k) => control_value(w.controls, k),
        ScalarField::Input(k) => input_at(w, k, pos, d),
        ScalarField::Negate(a) => negation_of(scalar_at(w, *a, obs, abs, pos, d) as int) as i64,
        ScalarField::Reciprocal(a) => reciprocal_of(scalar_at(w, *a, obs, abs, pos, d) as int) as i64,
        ScalarField::Magnitude(v) => length_of(vector_at(w, *v, obs, abs, pos, d)) as i64,
        ScalarField::Add(a, b) => sum_of(
            scalar_at(w, *a, obs, abs, pos, d) as int,
            scalar_at(w, *b, obs, abs, pos, d) as int,
        ) as i64,
        ScalarField::Mul(a, b) => product_of(
            scalar_at(w, *a, obs, abs, pos, d) as int,
            scalar_at(w, *b, obs, abs, pos, d) as int,
        ) as i64,
    }
}

/// A vector field sampled at `pos`, from the observer, with `d` levels of
/// spell nesting left. Unless `abs`, uniform vectors turn with the
/// observer's facing.
pub open spec fn vector_at(
    w: World,
    f: VectorField,
    obs: Option<PersonId>,
    abs: bool,
    pos: Vec2,
    d: nat,
) -> Vec2
    decreases d, vector_size(f) + 1, 0nat,
{
    match f {
        VectorField::Uniform(v) => match observer_of(w, obs) {
            Some(p) => if abs {
                v
            } else {
                vec_rotated(v, p.facing)
            },
            None => v,
        },
        VectorField::Output(k) => if d == 0 {
            zero()
        } else {
            output_from(w, k, pos, d, 0, zero())
        },
        VectorField::Negate(a) => vec_negation(vector_at(w, *a, obs, abs, pos, d)),
        VectorField::Basis(axis, s) => {
            let n = scalar_at(w, *s, obs, abs, pos, d);
            match axis {
                Axis::X => Vec2 { x: n, y: 0 },
                Axis::Y => Vec2 { x: 0, y: n },
            }
        },
        VectorField::Filter(v, m) => if scalar_at(w, *m, obs, abs, pos, d) <= 0 {
            zero()
        } else {
            vector_at(w, *v, obs, abs, pos, d)
        },
        VectorField::Add(a, b) => vec_sum(
            vector_at(w, *a, obs, abs, pos, d),
            vector_at(w, *b, obs, abs, pos, d),
        ),
        VectorField::Mul(a, b) => vec_product(
            vector_at(w, *a, obs, abs, pos, d),
            vector_at(w, *b, obs, abs, pos, d),
        ),
        VectorField::Scale(v, s) => vec_scaled(
            vector_at(w, *v, obs, abs, pos, d),
            scalar_at(w, *s, obs, abs, pos, d) as int,
        ),
    }
}

/// A world input sampled at `pos`.
pub open spec fn input_at(w: World, k: ScalarInputFieldKind, pos: Vec2, d: nat) -> i64
    decreases d, 1nat, 0nat,
{
    let hit = object_from(w.objects@, pos, false, 0);
    match k {
        ScalarInputFieldKind::Elevation => elevation_from(w, pos, pos.y as int) as i64,
        ScalarInputFieldKind::Density => match hit {
            Some((i, j)) => w.objects@[i].shapes@[j].density,
            None => 0,
        },
        ScalarInputFieldKind::Light => w.light,
        ScalarInputFieldKind::Magic => match hit {
            Some((i, _)) => w.objects@[i].props.magic,
            None => if d == 0 {
                0
            } else {
                magic_from(w, pos, d, 0, 0)
            },
        },
    }
}

/// `acc` plus the strength of each active spell from index `j` on, each
/// sampled from its caster with one level of nesting less than `d`.
pub open spec fn magic_from(w: World, pos: Vec2, d: nat, j: int, acc: i64) -> i64
    decreases d, 0nat, w.active_spells.spells@.len() - j,
{
    let s = w.active_spells.spells@;
    if d == 0 || j < 0 || j >= s.len() {
        acc
    } else {
        let e = s[j];
        let v = vector_at(w, e.field, Some(e.caster), false, pos, (d - 1) as nat);
        magic_from(w, pos, d, j + 1, sum_of(acc as int, length_of(v)) as i64)
    }
}

/// `acc` plus the contribution of each active spell of the kind from index
/// `j` on: its field sampled from its caster with one level of nesting less
/// than `d`, weighted by the caster's field scale.
pub open spec fn output_from(
    w: World,
    k: VectorOutputFieldKind,
    pos: Vec2,
    d: nat,
    j: int,
    acc: Vec2,
) -> Vec2
    decreases d, 0nat, w.active_spells.spells@.len() - j,
{
    let s = w.active_spells.spells@;
    if d == 0 || j < 0 || j >= s.len() {
        acc
    } else {
        let e = s[j];
        let next = if e.kind == k {
            let v = vector_at(w, e.field, Some(e.caster), false, pos, (d - 1) as nat);
            vec_sum(acc, vec_scaled(v, field_scale_of(w, e.caster) as int))
        } else {
            acc
        };
        output_from(w, k, pos, d, j + 1, next)
    }
}

/// The sum of all active spells of the kind at `pos`, at full nesting depth.
pub open spec fn output_vector_at(w: World, k: VectorOutputFieldKind, pos: Vec2) -> Vec2 {
    output_from(w, k, pos, SPELL_DEPTH as nat, 0, zero())
}

impl World {
    pub fn observer(&self, obs: Option<PersonId>) -> (r: Option<Person>)
        ensures
            r == observer_of(*self, obs),
    {
        match obs {
            Some(id) => self.person(id),
            None => None,
        }
    }

    fn field_scale(&self, id: PersonId) -> (r: i64)
        ensures
            r == field_scale_of(*self, id),
    {
        match self.person(id) {
            Some(p) => p.field_scale,
            None => 0,
        }
    }

    fn elevation(&self, pos: Vec2) -> (r: i64)
        ensures
            r == elevation_from(*self, pos, pos.y as int),
    {
        let mut ty: i64 = pos.y;
        while ty > 0
            invariant
                ty <= pos.y,
                elevation_from(*self, pos, pos.y as int) == elevation_from(*self, pos, ty as int),
            decreases if ty > 0 {
                ty as int
            } else {
                0
            },
        {
            if self.find_object_filtered_at(Vec2 { x: pos.x, y: ty }, true).is_some() {
                return pos.y - ty;
            }
            ty = ty - ELEVATION_STEP;
        }
        pos.y
    }

    fn magic_sum(&self, pos: Vec2, d: u64) -> (r: i64)
        requires
            d > 0,
        ensures
            r == magic_from(*self, pos, d as nat, 0, 0),
        decreases d, 0nat, self.active_spells.spells@.len(),
    {
        let mut acc: i64 = 0;
        let mut j: usize = 0;
        while j < self.active_spells.spells.len()
            invariant
                d > 0,
                j <= self.active_spells.spells@.len(),
                magic_from(*self, pos, d as nat, 0, 0) == magic_from(
                    *self,
                    pos,
                    d as nat,
                    j as int,
                    acc,
                ),
            decreases self.active_spells.spells@.len() - j,
        {
            let e = &self.active_spells.spells[j];
            let v = e.field.sample_at(self, Some(e.caster), false, pos, d - 1);
            acc = plus(acc, v.length());
            j = j + 1;
        }
        acc
    }

    fn output_sum(&self, k: VectorOutputFieldKind, pos: Vec2, d: u64) -> (r: Vec2)
        requires
            d > 0,
        ensures
            r == output_from(*self, k, pos, d as nat, 0, zero()),
        decreases d, 0nat, self.active_spells.spells@.len(),
    {
        let mut acc = Vec2::zero();
        let mut j: usize = 0;
        while j < self.active_spells.spells.len()
            invariant
                d > 0,
                j <= self.active_spells.spells@.len(),
                output_from(*self, k, pos, d as nat, 0, zero()) == output_from(
                    *self,
                    k,
                    pos,
                    d as nat,
                    j as int,
                    acc,
                ),
            decreases self.active_spells.spells@.len() - j,
        {
            let e = &self.active_spells.spells[j];
            if e.kind == k {
                let v = e.field.sample_at(self, Some(e.caster), false, pos, d - 1);
                acc = acc.sum(v.scaled(self.field_scale(e.caster)));
            }
            j = j + 1;
        }
        acc
    }

    fn input_at(&self, k: ScalarInputFieldKind, pos: Vec2, d: u64) -> (r: i64)
        ensures
            r == input_at(*self, k, pos, d as nat),
        decreases d, 1nat, 0nat,
    {
        match k {
            ScalarInputFieldKind::Elevation => self.elevation(pos),
            ScalarInputFieldKind::Density => match self.find_object_at(pos) {
                Some((i, j)) => self.objects[i].shapes[j].density,
                None => 0,
            },
            ScalarInputFieldKind::Light => self.light,
            ScalarInputFieldKind::Magic => match self.find_object_at(pos) {
                Some((i, _)) => self.objects[i].props.magic,
                None => if d == 0 {
                    0
                } else {
                    self.magic_sum(pos, d)
                },
            },
        }
    }

    /// A world input at `pos`.
    pub fn sample_input_scalar_field(&self, kind: ScalarInputFieldKind, pos: Vec2) -> (r: i64)
        ensures
            r == input_at(*self, kind, pos, SPELL_DEPTH as nat),
    {
        self.input_at(kind, pos, SPELL_DEPTH)
    }

    /// The sum of all active spells of the kind at `pos`, each sampled from
    /// its caster and weighted by the caster's field scale.
    pub fn sample_output_vector_field(&self, kind: VectorOutputFieldKind, pos: Vec2) -> (r: Vec2)
        ensures
            r == output_vector_at(*self, kind, pos),
    {
        self.output_sum(kind, pos, SPELL_DEPTH)
    }

    /// A scalar field of the world at `pos`.
    pub fn sample_scalar_field(&self, kind: ScalarFieldKind, pos: Vec2) -> (r: i64)
        ensures
            r == match kind {
                ScalarFieldKind::Input(k) => input_at(*self, k, pos, SPELL_DEPTH as nat),
            },
    {
        match kind {
            ScalarFieldKind::Input(k) => self.sample_input_scalar_field(k, pos),
        }
    }

    /// A vector field of the world at `pos`.
    pub fn sample_vector_field(&self, kind: VectorFieldKind, pos: Vec2) -> (r: Vec2)
        ensures
            r == match kind {
                VectorFieldKind::Output(k) => output_vector_at(*self, k, pos),
            },
    {
        match kind {
            VectorFieldKind::Output(k) => self.sample_output_vector_field(k, pos),
        }
    }

    /// The output field of the kind at each object's position, in object
    /// order: what the physics applies to the bodies each tick.
    pub fn output_at_objects(&self, kind: VectorOutputFieldKind) -> (r: Vec<Vec2>)
        ensures
            r@.len() == self.objects@.len(),
            forall|i: int|
                0 <= i < r@.len() ==> #[trigger] r@[i] == output_vector_at(
                    *self,
                    kind,
                    self.objects@[i].pos,
                ),
    {
        let mut r: Vec<Vec2> = Vec::new();
        let mut i: usize = 0;
        while i < self.objects.len()
            invariant
                i <= self.objects@.len(),
                r@.len() == i,
                forall|m: int|
                    0 <= m < i ==> #[trigger] r@[m] == output_vector_at(
                        *self,
                        kind,
                        self.objects@[m].pos,
                    ),
            decreases self.objects.len() - i,
        {
            let v = self.sample_output_vector_field(kind, self.objects[i].pos);
            r.push(v);
            i = i + 1;
        }
        r
    }
}

impl ScalarField {
    pub fn sample_at(&self, w: &World, obs: Option<PersonId>, abs: bool, pos: Vec2, d: u64) -> (r:
        i64)
        ensures
            r == scalar_at(*w, *self, obs, abs, pos, d as nat),
        decreases d, scalar_size(*self) + 1, 0nat,
    {
        match self {
            ScalarField::Uniform(n) => *n,
            ScalarField::X => pos.difference(origin(w, obs)).x,
            ScalarField::Y => pos.difference(origin(w, obs)).y,
            ScalarField::TargetX => target(w, obs).x,
            ScalarField::TargetY => target(w, obs).y,
            ScalarField::Control(k) => w.controls.get(*k),
            ScalarField::Input(k) => w.input_at(*k, pos, d),
            ScalarField::Negate(a) => negate(a.sample_at(w, obs, abs, pos, d)),
            ScalarField::Reciprocal(a) => reciprocal(a.sample_at(w, obs, abs, pos, d)),
            ScalarField::Magnitude(v) => v.sample_at(w, obs, abs, pos, d).length(),
            ScalarField::Add(a, b) => plus(
                a.sample_at(w, obs, abs, pos, d),
                b.sample_at(w, obs, abs, pos, d),
            ),
            ScalarField::Mul(a, b) => times(
                a.sample_at(w, obs, abs, pos, d),
                b.sample_at(w, obs, abs, pos, d),
            ),
        }
    }

    /// The field's value at `pos`, seen from the observer. Sampling reads
    /// the world and changes nothing: the same arguments give the same value.
    pub fn sample(&self, w: &World, obs: Option<PersonId>, abs: bool, pos: Vec2) -> (r: i64)
        ensures
            r == scalar_at(*w, *self, obs, abs, pos, SPELL_DEPTH as nat),
    {
        self.sample_at(w, obs, abs, pos, SPELL_DEPTH)
    }
}

fn origin(w: &World, obs: Option<PersonId>) -> (r: Vec2)
    ensures
        r == origin_of(observer_of(*w, obs)),
{
    match w.observer(obs) {
        Some(p) => p.pos,
        None => Vec2::zero(),
    }
}

fn target(w: &World, obs: Option<PersonId>) -> (r: Vec2)
    ensures
        r == target_of(observer_of(*w, obs)),
{
    match w.observer(obs) {
        Some(p) => match p.target {
            Some(t) => t.difference(p.pos),
            None => Vec2::zero(),
        },
        None => Vec2::zero(),
    }
}

impl VectorField {
    pub fn sample_at(&self, w: &World, obs: Option<PersonId>, abs: bool, pos: Vec2, d: u64) -> (r:
        Vec2)
        ensures
            r == vector_at(*w, *self, obs, abs, pos, d as nat),
        decreases d, vector_size(*self) + 1, 0nat,
    {
        match self {
            VectorField::Uniform(v) => match w.observer(obs) {
                Some(p) => if abs {
                    *v
                } else {
                    v.rotated(p.facing)
                },
                None => *v,
            },
            VectorField::Output(k) => if d == 0 {
                Vec2::zero()
            } else {
                w.output_sum(*k, pos, d)
            },
            VectorField::Negate(a) => a.sample_at(w, obs, abs, pos, d).negation(),
            VectorField::Basis(axis, s) => {
                let n = s.sample_at(w, obs, abs, pos, d);
                match axis {
                    Axis::X => Vec2 { x: n, y: 0 },
                    Axis::Y => Vec2 { x: 0, y: n },
                }
            },
            VectorField::Filter(v, m) => if m.sample_at(w, obs, abs, pos, d) <= 0 {
                Vec2::zero()
            } else {
                v.sample_at(w, obs, abs, pos, d)
            },
            VectorField::Add(a, b) => a.sample_at(w, obs, abs, pos, d).sum(
                b.sample_at(w, obs, abs, pos, d),
            ),
            VectorField::Mul(a, b) => a.sample_at(w, obs, abs, pos, d).product(
                b.sample_at(w, obs, abs, pos, d),
            ),
            VectorField::Scale(v, s) => v.sample_at(w, obs, abs, pos, d).scaled(
                s.sample_at(w, obs, abs, pos, d),
            ),
        }
    }

    /// The field's value at `pos`, seen from the observer. Sampling reads
    /// the world and changes nothing: the same arguments give the same value.
    pub fn sample(&self, w: &World, obs: Option<PersonId>, abs: bool, pos: Vec2) -> (r: Vec2)
        ensures
            r == vector_at(*w, *self, obs, abs, pos, SPELL_DEPTH as nat),
    {
        self.sample_at(w, obs, abs, pos, SPELL_DEPTH)
    }
}

/// Where the mask is not positive, a filtered field is zero, whatever the
/// field it filters.
pub proof fn lemma_filter_masked(
    w: World,
    v: VectorField,
    m: ScalarField,
    obs: Option<PersonId>,
    abs: bool,
    pos: Vec2,
    d: nat,
)
    requires
        scalar_at(w, m, obs, abs, pos, d) <= 0,
    ensures
        vector_at(w, VectorField::Filter(Box::new(v), Box::new(m)), obs, abs, pos, d) == zero(),
{
}

proof fn lemma_output_from_none(
    w: World,
    k: VectorOutputFieldKind,
    pos: Vec2,
    d: nat,
    j: int,
    acc: Vec2,
)
    requires
        0 <= j,
        !has_kind(w.active_spells.spells@, k),
    ensures
        output_from(w, k, pos, d, j, acc) == acc,
    decreases w.active_spells.spells@.len() - j,
{
    let s = w.active_spells.spells@;
    if d > 0 && j < s.len() {
        assert(s[j].kind != k);
        lemma_output_from_none(w, k, pos, d, j + 1, acc);
    }
}

/// Where no spell of a kind is active, its output field is zero everywhere.
pub proof fn lemma_output_without_spells(w: World, k: VectorOutputFieldKind, pos: Vec2)
    requires
        !has_kind(w.active_spells.spells@, k),
    ensures
        output_vector_at(w, k, pos) == zero(),
{
    lemma_output_from_none(w, k, pos, SPELL_DEPTH as nat, 0, zero());
}

proof fn lemma_unit_product(x: int)
    requires
        i64::MIN <= x <= i64::MAX,
    ensures
        clamp(div_trunc(x * 1000, 1000)) == x,
{
    if x >= 0 {
        assert((x * 1000) / 1000 == x) by (nonlinear_arith)
            requires
                x >= 0,
        ;
    } else {
        assert((-(x * 1000)) / 1000 == -x) by (nonlinear_arith)
            requires
                x < 0,
        ;
    }
}

/// A single active spell of a kind, a uniform vector committed by a caster
/// who faces along x with unit field scale, makes the output field of that
/// kind that vector everywhere.
pub proof fn lemma_output_of_single_spell(w: World, k: VectorOutputFieldKind, v: Vec2, pos: Vec2)
    requires
        w.active_spells.spells@.len() == 1,
        w.active_spells.spells@[0].kind == k,
        w.active_spells.spells@[0].field == VectorField::Uniform(v),
        person_of(w, w.active_spells.spells@[0].caster) matches Some(p) && p.facing == (Vec2 {
            x: 1000,
            y: 0,
        }) && p.field_scale == 1000,
    ensures
        output_vector_at(w, k, pos) == v,
{
    let e = w.active_spells.spells@[0];
    let p = person_of(w, e.caster)->Some_0;
    lemma_unit_product(v.x as int);
    lemma_unit_product(v.y as int);
    assert(v.x * 1000 - v.y * 0 == v.x * 1000);
    assert(v.x * 0 + v.y * 1000 == v.y * 1000);
    let turned = vector_at(w, e.field, Some(e.caster), false, pos, 2);
    assert(turned == vec_rotated(v, p.facing));
    assert(turned == v);
    assert(vec_scaled(v, 1000) == v);
    assert(vec_sum(zero(), v) == v);
    assert(output_from(w, k, pos, 3, 1, v) == v);
}

} // verus!
