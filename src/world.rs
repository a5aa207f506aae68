use vstd::prelude::*;

use crate::field::ControlKind;
use crate::fixed::{clamp, div_trunc};
use crate::spells::{
    has_caster, lemma_has_caster_owned, lemma_owned_retained, owned, retained, ActiveSpell,
    ActiveSpells,
};
use crate::vector::{conjugate, lemma_mul_bound, vec_difference, vec_rotated, Vec2};

verus! {

/// Identifies a caster: the player or one of the other people.
#[derive(Clone, Copy, Debug, PartialEq, Eq, Structural, Hash)]
pub enum PersonId {
    Player,
    Npc(u64),
}

/// Mana that a caster with no active spell regains in one tick.
pub const MANA_REGEN: i64 = 10;

/// A caster in the world.
#[derive(Clone, Copy, Debug)]
pub struct Person {
    pub id: PersonId,
    pub pos: Vec2,
    /// Unit vector (cosine, sine) of the direction the person faces.
    pub facing: Vec2,
    /// Where the person aims, if anywhere.
    pub target: Option<Vec2>,
    pub mana: i64,
    pub max_mana: i64,
    /// Weight of the person's spells in the output fields.
    pub field_scale: i64,
}

/// Whether a person with this much mana can cast.
pub open spec fn can_cast_with(mana: i64) -> bool {
    mana > 0
}

/// Mana left after doing some work; it never goes below zero.
pub open spec fn mana_after_work(mana: i64, work: i64) -> i64 {
    if work <= 0 {
        mana
    } else if mana <= work {
        0
    } else {
        (mana - work) as i64
    }
}

/// Mana after one tick of regeneration, capped at the maximum.
pub open spec fn mana_after_regen(mana: i64, max_mana: i64) -> i64 {
    if mana >= max_mana {
        mana
    } else if max_mana - mana <= MANA_REGEN {
        max_mana
    } else {
        (mana + MANA_REGEN) as i64
    }
}

impl Person {
    pub fn can_cast(&self) -> (r: bool)
        ensures
            r == can_cast_with(self.mana),
    {
        self.mana > 0
    }

    pub fn do_work(&mut self, work: i64)
        ensures
            *final(self) == (Person { mana: mana_after_work(old(self).mana, work), ..*old(self) }),
    {
        if work <= 0 {
        } else if self.mana <= work {
            self.mana = 0;
        } else {
            self.mana = self.mana - work;
        }
    }

    pub fn regen_mana(&mut self)
        ensures
            *final(self) == (Person {
                mana: mana_after_regen(old(self).mana, old(self).max_mana),
                ..*old(self)
            }),
    {
        if self.mana >= self.max_mana {
        } else if (self.max_mana as i128) - (self.mana as i128) <= MANA_REGEN as i128 {
            self.mana = self.max_mana;
        } else {
            self.mana = self.mana + MANA_REGEN;
        }
    }
}

/// The values of the user interface controls; an unset control reads zero.
#[derive(Clone, Copy, Debug)]
pub struct Controls {
    pub x_slider: Option<i64>,
    pub y_slider: Option<i64>,
}

pub open spec fn control_value(c: Controls, kind: ControlKind) -> i64 {
    let v = match kind {
        ControlKind::XSlider => c.x_slider,
        ControlKind::YSlider => c.y_slider,
    };
    match v {
        Some(x) => x,
        None => 0,
    }
}

impl Controls {
    pub fn new() -> (r: Controls)
        ensures
            r.x_slider is None,
            r.y_slider is None,
    {
        Controls { x_slider: None, y_slider: None }
    }

    pub fn get(&self, kind: ControlKind) -> (r: i64)
        ensures
            r == control_value(*self, kind),
    {
        let v = match kind {
            ControlKind::XSlider => self.x_slider,
            ControlKind::YSlider => self.y_slider,
        };
        match v {
            Some(x) => x,
            None => 0,
        }
    }
}

/// A shape in its object's own frame.
#[derive(Clone, Copy, Debug)]
pub enum GraphicalShape {
    /// A disc of the given radius about the origin.
    Circle(i64),
    /// A box of the given width and height, centred on the origin.
    Box(Vec2),
    /// The side of the line through the origin away from the given normal.
    HalfSpace(Vec2),
    /// A vertical capsule: a segment from `-half_height` to `half_height`
    /// on the y axis, widened by `radius`.
    Capsule { half_height: i64, radius: i64 },
}

pub open spec fn magnitude(a: int) -> int {
    if a >= 0 {
        a
    } else {
        -a
    }
}

/// Whether the offset (dx, dy) is strictly within distance `r`.
pub open spec fn within(dx: int, dy: int, r: int) -> bool {
    r > 0 && dx * dx + dy * dy < r * r
}

pub open spec fn shape_contains(s: GraphicalShape, p: Vec2) -> bool {
    match s {
        GraphicalShape::Circle(r) => within(p.x as int, p.y as int, r as int),
        GraphicalShape::Box(size) => 2 * magnitude(p.x as int) < size.x && 2 * magnitude(p.y as int)
            < size.y,
        GraphicalShape::HalfSpace(n) => n.x * p.x + n.y * p.y < 0,
        GraphicalShape::Capsule { half_height, radius } => (magnitude(p.x as int) < radius
            && magnitude(p.y as int) < half_height) || within(
            p.x as int,
            p.y - half_height,
            radius as int,
        ) || within(p.x as int, p.y + half_height, radius as int),
    }
}

/// The capsule of the given total width and height.
pub open spec fn capsule_of(width: i64, height: i64) -> GraphicalShape {
    GraphicalShape::Capsule {
        half_height: clamp(div_trunc(height - width, 2)) as i64,
        radius: div_trunc(width as int, 2) as i64,
    }
}

fn within_exec(dx: i128, dy: i128, r: i64) -> (b: bool)
    requires
        -0x1_0000_0000_0000_0000 <= dx <= 0x1_0000_0000_0000_0000,
        -0x1_0000_0000_0000_0000 <= dy <= 0x1_0000_0000_0000_0000,
    ensures
        b == within(dx as int, dy as int, r as int),
{
    if r <= 0 {
        return false;
    }
    if dx > i64::MAX as i128 || dx < -(i64::MAX as i128) || dy > i64::MAX as i128 || dy < -(
    i64::MAX as i128) {
        proof {
            let (a, b) = (dx as int, dy as int);
            assert(a * a + b * b >= (r as int) * (r as int)) by (nonlinear_arith)
                requires
                    a > 0x7fff_ffff_ffff_ffff || a < -0x7fff_ffff_ffff_ffff || b
                        > 0x7fff_ffff_ffff_ffff || b < -0x7fff_ffff_ffff_ffff,
                    0 < r <= 0x7fff_ffff_ffff_ffff,
            ;
        }
        return false;
    }
    let ax: u128 = (if dx >= 0 { dx } else { -dx }) as u128;
    let ay: u128 = (if dy >= 0 { dy } else { -dy }) as u128;
    let rr: u128 = r as u128;
    proof {
        assert(ax * ax <= 0x3fff_ffff_ffff_ffff_0000_0000_0000_0001) by (nonlinear_arith)
            requires
                ax <= 0x7fff_ffff_ffff_ffff,
        ;
        assert(ay * ay <= 0x3fff_ffff_ffff_ffff_0000_0000_0000_0001) by (nonlinear_arith)
            requires
                ay <= 0x7fff_ffff_ffff_ffff,
        ;
        assert(rr * rr <= 0x3fff_ffff_ffff_ffff_0000_0000_0000_0001) by (nonlinear_arith)
            requires
                rr <= 0x7fff_ffff_ffff_ffff,
        ;
        assert(ax * ax == dx * dx) by (nonlinear_arith)
            requires
                ax == dx || ax == -dx,
        ;
        assert(ay * ay == dy * dy) by (nonlinear_arith)
            requires
                ay == dy || ay == -dy,
        ;
    }
    ax * ax + ay * ay < rr * rr
}

fn magnitude_exec(a: i64) -> (r: i128)
    ensures
        r == magnitude(a as int),
{
    if a >= 0 {
        a as i128
    } else {
        -(a as i128)
    }
}

impl GraphicalShape {
    pub fn capsule_wh(width: i64, height: i64) -> (r: GraphicalShape)
        ensures
            r == capsule_of(width, height),
    {
        let d: i128 = height as i128 - width as i128;
        let h: i128 = if d >= 0 {
            d / 2
        } else {
            -((-d) / 2)
        };
        let half_height: i64 = if h > i64::MAX as i128 {
            i64::MAX
        } else if h < i64::MIN as i128 {
            i64::MIN
        } else {
            h as i64
        };
        let w: i128 = width as i128;
        let radius: i128 = if w >= 0 {
            w / 2
        } else {
            -((-w) / 2)
        };
        GraphicalShape::Capsule { half_height, radius: radius as i64 }
    }

    /// The shape placed at an offset, with unit density.
    pub fn offset(self, offset: Vec2) -> (r: OffsetShape)
        ensures
            r == (OffsetShape { shape: self, offset, density: 1000 }),
    {
        OffsetShape { shape: self, offset, density: 1000 }
    }

    pub fn contains(&self, p: Vec2) -> (r: bool)
        ensures
            r == shape_contains(*self, p),
    {
        match self {
            GraphicalShape::Circle(r) => within_exec(p.x as i128, p.y as i128, *r),
            GraphicalShape::Box(size) => {
                2 * magnitude_exec(p.x) < size.x as i128 && 2 * magnitude_exec(p.y)
                    < size.y as i128
            },
            GraphicalShape::HalfSpace(n) => {
                proof {
                    lemma_mul_bound(n.x as int, p.x as int);
                    lemma_mul_bound(n.y as int, p.y as int);
                }
                let a: i128 = (n.x as i128) * (p.x as i128);
                let b: i128 = (n.y as i128) * (p.y as i128);
                a < -b
            },
            GraphicalShape::Capsule { half_height, radius } => {
                (magnitude_exec(p.x) < *radius as i128 && magnitude_exec(p.y)
                    < *half_height as i128) || within_exec(
                    p.x as i128,
                    p.y as i128 - *half_height as i128,
                    *radius,
                ) || within_exec(p.x as i128, p.y as i128 + *half_height as i128, *radius)
            },
        }
    }
}

/// A shape of an object, at an offset in the object's frame, with a density.
#[derive(Clone, Copy, Debug)]
pub struct OffsetShape {
    pub shape: GraphicalShape,
    pub offset: Vec2,
    pub density: i64,
}

pub open spec fn offset_shape_contains(s: OffsetShape, p: Vec2) -> bool {
    shape_contains(s.shape, vec_difference(p, s.offset))
}

impl OffsetShape {
    pub fn contains(&self, p: Vec2) -> (r: bool)
        ensures
            r == offset_shape_contains(*self, p),
    {
        self.shape.contains(p.difference(self.offset))
    }

    pub fn density(self, density: i64) -> (r: OffsetShape)
        ensures
            r == (OffsetShape { density, ..self }),
    {
        OffsetShape { density, ..self }
    }
}

/// Properties of an object that fields read.
#[derive(Clone, Copy, Debug)]
pub struct Properties {
    pub magic: i64,
}

/// A body in the world, as the physics last placed it.
#[derive(Clone, Debug)]
pub struct Object {
    pub pos: Vec2,
    /// Unit vector (cosine, sine) of the object's rotation.
    pub rot: Vec2,
    pub shapes: Vec<OffsetShape>,
    /// Whether the body is fixed in place.
    pub fixed: bool,
    pub props: Properties,
}

/// A world point in the frame of an object.
pub open spec fn local_point(o: Object, p: Vec2) -> Vec2 {
    vec_rotated(vec_difference(p, o.pos), conjugate(o.rot))
}

/// The first shape from index `j` on that holds `q`, or the count of shapes.
pub open spec fn shape_from(shapes: Seq<OffsetShape>, q: Vec2, j: int) -> int
    decreases shapes.len() - j,
{
    if j < 0 || j >= shapes.len() {
        shapes.len() as int
    } else if offset_shape_contains(shapes[j], q) {
        j
    } else {
        shape_from(shapes, q, j + 1)
    }
}

/// The first object from index `i` on, and its first shape, that holds `p`;
/// with `fixed_only`, among fixed objects alone.
pub open spec fn object_from(objs: Seq<Object>, p: Vec2, fixed_only: bool, i: int) -> Option<
    (int, int),
>
    decreases objs.len() - i,
{
    if i < 0 || i >= objs.len() {
        None
    } else {
        let o = objs[i];
        let k = shape_from(o.shapes@, local_point(o, p), 0);
        if (!fixed_only || o.fixed) && k < o.shapes@.len() {
            Some((i, k))
        } else {
            object_from(objs, p, fixed_only, i + 1)
        }
    }
}

/// The index of the first person from index `i` on with the id, or the
/// count of people.
pub open spec fn person_from(people: Seq<Person>, id: PersonId, i: int) -> int
    decreases people.len() - i,
{
    if i < 0 || i >= people.len() {
        people.len() as int
    } else if people[i].id == id {
        i
    } else {
        person_from(people, id, i + 1)
    }
}

/// The world that fields are sampled in: a snapshot of its objects and
/// people, the active spells, and the controls.
pub struct World {
    pub people: Vec<Person>,
    pub objects: Vec<Object>,
    pub active_spells: ActiveSpells,
    pub controls: Controls,
    /// Ambient light level, the same everywhere.
    pub light: i64,
}

impl World {
    /// The index of the first person with the id, or the count of people.
    pub fn person_index(&self, id: PersonId) -> (r: usize)
        ensures
            r == person_from(self.people@, id, 0),
    {
        let mut i: usize = 0;
        while i < self.people.len()
            invariant
                i <= self.people@.len(),
                person_from(self.people@, id, 0) == person_from(self.people@, id, i as int),
            decreases self.people.len() - i,
        {
            if self.people[i].id == id {
                return i;
            }
            i = i + 1;
        }
        i
    }

    /// The person with the id, if there is one.
    pub fn person(&self, id: PersonId) -> (r: Option<Person>)
        ensures
            person_from(self.people@, id, 0) < self.people@.len() ==> r == Some(
                self.people@[person_from(self.people@, id, 0)],
            ),
            person_from(self.people@, id, 0) >= self.people@.len() ==> r is None,
    {
        let i = self.person_index(id);
        if i < self.people.len() {
            Some(self.people[i])
        } else {
            None
        }
    }

    /// The first object, and the index of its first shape, that holds `p`;
    /// with `fixed_only`, among fixed objects alone.
    pub fn find_object_filtered_at(&self, p: Vec2, fixed_only: bool) -> (r: Option<(usize, usize)>)
        ensures
            match r {
                Some((i, k)) => object_from(self.objects@, p, fixed_only, 0) == Some(
                    (i as int, k as int),
                ) && i < self.objects@.len() && k < self.objects@[i as int].shapes@.len(),
                None => object_from(self.objects@, p, fixed_only, 0) is None,
            },
    {
        let mut i: usize = 0;
        while i < self.objects.len()
            invariant
                i <= self.objects@.len(),
                object_from(self.objects@, p, fixed_only, 0) == object_from(
                    self.objects@,
                    p,
                    fixed_only,
                    i as int,
                ),
            decreases self.objects.len() - i,
        {
            let o = &self.objects[i];
            if !fixed_only || o.fixed {
                let q = p.difference(o.pos).rotated(o.rot.conjugate());
                let mut j: usize = 0;
                while j < o.shapes.len()
                    invariant
                        i < self.objects@.len(),
                        *o == self.objects@[i as int],
                        !fixed_only || o.fixed,
                        object_from(self.objects@, p, fixed_only, 0) == object_from(
                            self.objects@,
                            p,
                            fixed_only,
                            i as int,
                        ),
                        j <= o.shapes@.len(),
                        q == local_point(*o, p),
                        shape_from(o.shapes@, q, 0) == shape_from(o.shapes@, q, j as int),
                    decreases o.shapes.len() - j,
                {
                    if o.shapes[j].contains(q) {
                        proof {
                            assert(shape_from(o.shapes@, q, j as int) == j as int);
                        }
                        return Some((i, j));
                    }
                    j = j + 1;
                }
                proof {
                    assert(shape_from(o.shapes@, q, j as int) == o.shapes@.len());
                }
            }
            i = i + 1;
        }
        None
    }

    pub fn find_object_at(&self, p: Vec2) -> (r: Option<(usize, usize)>)
        ensures
            match r {
                Some((i, k)) => object_from(self.objects@, p, false, 0) == Some(
                    (i as int, k as int),
                ) && i < self.objects@.len() && k < self.objects@[i as int].shapes@.len(),
                None => object_from(self.objects@, p, false, 0) is None,
            },
    {
        self.find_object_filtered_at(p, false)
    }

    /// The ids of all people, in order.
    pub fn person_ids(&self) -> (r: Vec<PersonId>)
        ensures
            r@.len() == self.people@.len(),
            forall|i: int| 0 <= i < r@.len() ==> r@[i] == self.people@[i].id,
    {
        let mut r: Vec<PersonId> = Vec::new();
        let mut i: usize = 0;
        while i < self.people.len()
            invariant
                i <= self.people@.len(),
                r@.len() == i,
                forall|j: int| 0 <= j < i ==> r@[j] == self.people@[j].id,
            decreases self.people.len() - i,
        {
            r.push(self.people[i].id);
            i = i + 1;
        }
        r
    }
}

/// The registry after a tick: the spells of each person, in order, who can
/// no longer cast once the tick's work is done are dispelled.
pub open spec fn cleared(reg: Seq<ActiveSpell>, ps: Seq<Person>, work: i64) -> Seq<ActiveSpell>
    decreases ps.len(),
{
    if ps.len() == 0 {
        reg
    } else {
        let r = cleared(reg, ps.drop_last(), work);
        if can_cast_with(mana_after_work(ps.last().mana, work)) {
            r
        } else {
            retained(r, ps.last().id)
        }
    }
}

/// A person after a tick: the work is paid, and mana regenerates when the
/// person has no spell left active.
pub open spec fn person_after_tick(p: Person, work: i64, reg: Seq<ActiveSpell>) -> Person {
    let m = mana_after_work(p.mana, work);
    Person {
        mana: if has_caster(reg, p.id) {
            m
        } else {
            mana_after_regen(m, p.max_mana)
        },
        ..p
    }
}

/// The player's body, in fixed-point units: one unit tall, the head a third
/// of that and two thirds as wide as it is tall, the torso the rest of the
/// height less half the head and three eighths as wide as it is tall.
pub const PLAYER_HEAD_HEIGHT: i64 = 333;
pub const PLAYER_HEAD_WIDTH: i64 = 222;
pub const PLAYER_TORSO_HEIGHT: i64 = 833;
pub const PLAYER_TORSO_WIDTH: i64 = 313;

/// The index of the player's body among the objects of a new world.
pub const PLAYER_BODY: usize = 1;

impl World {
    /// A world holding the player, the ground (a fixed half space of density
    /// 3 below the x axis) and the player's body: a torso and a head, two
    /// capsules turned a quarter turn, with magic 10, standing on the ground
    /// at height 0.5 plus the torso's width.
    pub fn new(player: Person) -> (r: World)
        ensures
            r.people@ == seq![player],
            r.objects@.len() == 2,
            r.objects@[0].fixed,
            r.objects@[0].pos == (Vec2 { x: 0, y: 0 }),
            r.objects@[0].rot == (Vec2 { x: 1000, y: 0 }),
            r.objects@[0].props.magic == 0,
            r.objects@[0].shapes@ == seq![
                OffsetShape {
                    shape: GraphicalShape::HalfSpace(Vec2 { x: 0, y: 1000 }),
                    offset: Vec2 { x: 0, y: 0 },
                    density: 3000,
                },
            ],
            !r.objects@[PLAYER_BODY as int].fixed,
            r.objects@[PLAYER_BODY as int].pos == (Vec2 { x: 0, y: 813 }),
            r.objects@[PLAYER_BODY as int].rot == (Vec2 { x: 0, y: 1000 }),
            r.objects@[PLAYER_BODY as int].props.magic == 10000,
            r.objects@[PLAYER_BODY as int].shapes@ == seq![
                OffsetShape {
                    shape: capsule_of(PLAYER_TORSO_WIDTH, PLAYER_TORSO_HEIGHT),
                    offset: Vec2 { x: 0, y: -167i64 },
                    density: 1000,
                },
                OffsetShape {
                    shape: capsule_of(PLAYER_HEAD_WIDTH, PLAYER_HEAD_HEIGHT),
                    offset: Vec2 { x: 0, y: 417 },
                    density: 1000,
                },
            ],
            r.active_spells.spells@.len() == 0,
            r.controls.x_slider is None,
            r.controls.y_slider is None,
            r.light == 1000,
    {
        let ground = GraphicalShape::HalfSpace(Vec2 { x: 0, y: 1000 }).offset(
            Vec2 { x: 0, y: 0 },
        ).density(3000);
        let shapes = vec![ground];
        let torso = GraphicalShape::capsule_wh(PLAYER_TORSO_WIDTH, PLAYER_TORSO_HEIGHT).offset(
            Vec2 { x: 0, y: -167 },
        );
        let head = GraphicalShape::capsule_wh(PLAYER_HEAD_WIDTH, PLAYER_HEAD_HEIGHT).offset(
            Vec2 { x: 0, y: 417 },
        );
        let body = vec![torso, head];
        let objects = vec![
            Object {
                pos: Vec2 { x: 0, y: 0 },
                rot: Vec2 { x: 1000, y: 0 },
                shapes,
                fixed: true,
                props: Properties { magic: 0 },
            },
            Object {
                pos: Vec2 { x: 0, y: 813 },
                rot: Vec2 { x: 0, y: 1000 },
                shapes: body,
                fixed: false,
                props: Properties { magic: 10000 },
            },
        ];
        let people = vec![player];
        proof {
            assert(people@ =~= seq![player]);
            assert(shapes@ =~= seq![ground]);
            assert(body@ =~= seq![torso, head]);
        }
        World {
            people,
            objects,
            active_spells: ActiveSpells::new(),
            controls: Controls::new(),
            light: 1000,
        }
    }
}

/// No two people share an id: an id names one caster.
pub open spec fn ids_distinct(people: Seq<Person>) -> bool {
    forall|j: int, k: int|
        0 <= j < people.len() && 0 <= k < people.len() && j != k ==> #[trigger] people[j].id
            != #[trigger] people[k].id
}

/// Whether some person with the id cannot cast once the work is done.
pub open spec fn exhausted(ps: Seq<Person>, id: PersonId, work: i64) -> bool {
    exists|j: int|
        0 <= j < ps.len() && #[trigger] ps[j].id == id && !can_cast_with(
            mana_after_work(ps[j].mana, work),
        )
}

proof fn lemma_cleared_owned(reg: Seq<ActiveSpell>, ps: Seq<Person>, work: i64, id: PersonId)
    ensures
        owned(cleared(reg, ps, work), id) == if exhausted(ps, id, work) {
            Seq::<ActiveSpell>::empty()
        } else {
            owned(reg, id)
        },
    decreases ps.len(),
{
    if ps.len() > 0 {
        let q = ps.drop_last();
        lemma_cleared_owned(reg, q, work, id);
        let last = ps.last();
        if !can_cast_with(mana_after_work(last.mana, work)) {
            lemma_owned_retained(cleared(reg, q, work), last.id, id);
        }
        if exhausted(q, id, work) {
            let j = choose|j: int|
                0 <= j < q.len() && #[trigger] q[j].id == id && !can_cast_with(
                    mana_after_work(q[j].mana, work),
                );
            assert(ps[j] == q[j]);
        }
        if exhausted(ps, id, work) && !exhausted(q, id, work) {
            let j = choose|j: int|
                0 <= j < ps.len() && #[trigger] ps[j].id == id && !can_cast_with(
                    mana_after_work(ps[j].mana, work),
                );
            if j < q.len() {
                assert(q[j] == ps[j]);
            }
        }
        if !exhausted(ps, id, work) && last.id == id {
            assert(ps[ps.len() - 1] == last);
        }
    }
}

/// After a tick, a person who cannot cast once the tick's work is done has
/// no spell left active, of any kind.
pub proof fn lemma_tick_clears_exhausted(reg: Seq<ActiveSpell>, ps: Seq<Person>, work: i64, i: int)
    requires
        0 <= i < ps.len(),
        !can_cast_with(mana_after_work(ps[i].mana, work)),
    ensures
        !has_caster(cleared(reg, ps, work), ps[i].id),
{
    assert(exhausted(ps, ps[i].id, work));
    lemma_cleared_owned(reg, ps, work, ps[i].id);
    lemma_has_caster_owned(cleared(reg, ps, work), ps[i].id);
}

/// After a tick, a person who can still cast keeps each active spell, in
/// order: the tick adds none and removes none of theirs.
pub proof fn lemma_tick_keeps_casters(reg: Seq<ActiveSpell>, ps: Seq<Person>, work: i64, i: int)
    requires
        ids_distinct(ps),
        0 <= i < ps.len(),
        can_cast_with(mana_after_work(ps[i].mana, work)),
    ensures
        owned(cleared(reg, ps, work), ps[i].id) == owned(reg, ps[i].id),
{
    if exhausted(ps, ps[i].id, work) {
        let j = choose|j: int|
            0 <= j < ps.len() && #[trigger] ps[j].id == ps[i].id && !can_cast_with(
                mana_after_work(ps[j].mana, work),
            );
        assert(j != i);
    }
    lemma_cleared_owned(reg, ps, work, ps[i].id);
}

impl World {
    /// Whether no two people share an id.
    pub fn ids_distinct(&self) -> (r: bool)
        ensures
            r == ids_distinct(self.people@),
    {
        let n = self.people.len();
        let mut j: usize = 0;
        while j < n
            invariant
                n == self.people@.len(),
                j <= n,
                forall|a: int, b: int|
                    0 <= a < j && 0 <= b < n && a != b ==> #[trigger] self.people@[a].id
                        != #[trigger] self.people@[b].id,
            decreases n - j,
        {
            let mut k: usize = 0;
            while k < n
                invariant
                    n == self.people@.len(),
                    j < n,
                    k <= n,
                    forall|a: int, b: int|
                        0 <= a < j && 0 <= b < n && a != b ==> #[trigger] self.people@[a].id
                            != #[trigger] self.people@[b].id,
                    forall|b: int|
                        0 <= b < k && b != j ==> self.people@[j as int].id != #[trigger] self.people@[b].id,
                decreases n - k,
            {
                if k != j && self.people[j].id == self.people[k].id {
                    return false;
                }
                k = k + 1;
            }
            j = j + 1;
        }
        true
    }

    /// Adds an object; its index comes back.
    pub fn add_object(&mut self, o: Object) -> (r: usize)
        ensures
            r == old(self).objects@.len(),
            final(self).objects@ == old(self).objects@.push(o),
            final(self).people@ == old(self).people@,
            final(self).active_spells.spells@ == old(self).active_spells.spells@,
    {
        let r = self.objects.len();
        self.objects.push(o);
        r
    }

    /// Moves the first person with the id, if there is one.
    pub fn set_person_pose(&mut self, id: PersonId, pos: Vec2, facing: Vec2)
        ensures
            ({
                let k = person_from(old(self).people@, id, 0);
                final(self).people@ == if k < old(self).people@.len() {
                    old(self).people@.update(k, Person { pos, facing, ..old(self).people@[k] })
                } else {
                    old(self).people@
                }
            }),
            final(self).objects@ == old(self).objects@,
            final(self).active_spells.spells@ == old(self).active_spells.spells@,
    {
        let k = self.person_index(id);
        if k < self.people.len() {
            let p = Person { pos, facing, ..self.people[k] };
            self.people.set(k, p);
        }
    }

    /// One tick of mana bookkeeping: each person pays the work; a person who
    /// can no longer cast loses all active spells; a person left with none
    /// regains mana.
    pub fn update(&mut self, work: i64)
        requires
            ids_distinct(old(self).people@),
        ensures
            final(self).active_spells.spells@ == cleared(
                old(self).active_spells.spells@,
                old(self).people@,
                work,
            ),
            final(self).people@.len() == old(self).people@.len(),
            forall|i: int|
                0 <= i < old(self).people@.len() ==> #[trigger] final(self).people@[i]
                    == person_after_tick(
                    old(self).people@[i],
                    work,
                    cleared(
                        old(self).active_spells.spells@,
                        old(self).people@.subrange(0, i + 1),
                        work,
                    ),
                ),
            final(self).objects@ == old(self).objects@,
            final(self).controls == old(self).controls,
            final(self).light == old(self).light,
    {
        let ghost ps = self.people@;
        let ghost reg = self.active_spells.spells@;
        let n = self.people.len();
        let mut i: usize = 0;
        proof {
            assert(ps.subrange(0, 0) =~= Seq::<Person>::empty());
        }
        while i < n
            invariant
                n == ps.len(),
                i <= n,
                self.people@.len() == n,
                self.active_spells.spells@ == cleared(reg, ps.subrange(0, i as int), work),
                forall|j: int|
                    0 <= j < i ==> #[trigger] self.people@[j] == person_after_tick(
                        ps[j],
                        work,
                        cleared(reg, ps.subrange(0, j + 1), work),
                    ),
                forall|j: int| i <= j < n ==> #[trigger] self.people@[j] == ps[j],
                self.objects@ == old(self).objects@,
                self.controls == old(self).controls,
                self.light == old(self).light,
            decreases n - i,
        {
            let mut p = self.people[i];
            proof {
                let t = ps.subrange(0, i + 1);
                assert(t.drop_last() =~= ps.subrange(0, i as int));
                assert(t.last() == ps[i as int]);
            }
            p.do_work(work);
            if !p.can_cast() {
                self.active_spells.clear_all(p.id);
            }
            if !self.active_spells.has_caster(p.id) {
                p.regen_mana();
            }
            self.people.set(i, p);
            i = i + 1;
        }
        proof {
            assert(ps.subrange(0, n as int) =~= ps);
        }
    }
}

} // verus!
