use vstd::prelude::*;

use crate::field::{vector_uses, ControlKind, VectorField, VectorOutputFieldKind};
use crate::word::Word;
use crate::world::PersonId;

verus! {

/// A field committed by a caster under an output kind, with the words that
/// made it.
#[derive(Debug)]
pub struct ActiveSpell {
    pub caster: PersonId,
    pub kind: VectorOutputFieldKind,
    pub field: VectorField,
    pub words: Vec<Word>,
}

/// The active spells of all casters, in the order they were committed.
#[derive(Debug)]
pub struct ActiveSpells {
    pub spells: Vec<ActiveSpell>,
}

pub open spec fn is_of(e: ActiveSpell, caster: PersonId, kind: VectorOutputFieldKind) -> bool {
    e.caster == caster && e.kind == kind
}

/// The words of the spells of a caster and kind, in commit order.
pub open spec fn selected(s: Seq<ActiveSpell>, caster: PersonId, kind: VectorOutputFieldKind) -> Seq<
    Seq<Word>,
>
    decreases s.len(),
{
    if s.len() == 0 {
        Seq::empty()
    } else {
        let rest = selected(s.drop_first(), caster, kind);
        if is_of(s[0], caster, kind) {
            seq![s[0].words@] + rest
        } else {
            rest
        }
    }
}

/// The position in `s` of the spell that `selected` lists at index `i`.
pub open spec fn nth_position(
    s: Seq<ActiveSpell>,
    caster: PersonId,
    kind: VectorOutputFieldKind,
    i: int,
) -> nat
    decreases s.len(),
{
    if s.len() == 0 {
        0
    } else if is_of(s[0], caster, kind) && i == 0 {
        0
    } else {
        let j = if is_of(s[0], caster, kind) {
            i - 1
        } else {
            i
        };
        1 + nth_position(s.drop_first(), caster, kind, j)
    }
}

/// The spells of `s` that another caster than `caster` committed.
pub open spec fn retained(s: Seq<ActiveSpell>, caster: PersonId) -> Seq<ActiveSpell>
    decreases s.len(),
{
    if s.len() == 0 {
        Seq::empty()
    } else {
        let rest = retained(s.drop_first(), caster);
        if s[0].caster != caster {
            seq![s[0]] + rest
        } else {
            rest
        }
    }
}

/// Whether the caster has some spell active.
pub open spec fn has_caster(s: Seq<ActiveSpell>, caster: PersonId) -> bool {
    exists|j: int| 0 <= j < s.len() && #[trigger] s[j].caster == caster
}

/// Whether some spell of the kind is active.
pub open spec fn has_kind(s: Seq<ActiveSpell>, kind: VectorOutputFieldKind) -> bool {
    exists|j: int| 0 <= j < s.len() && #[trigger] s[j].kind == kind
}

proof fn lemma_selected_skip(s: Seq<ActiveSpell>, caster: PersonId, kind: VectorOutputFieldKind, j: int)
    requires
        0 <= j < s.len(),
    ensures
        selected(s.skip(j), caster, kind) == (if is_of(s[j], caster, kind) {
            seq![s[j].words@]
        } else {
            Seq::empty()
        }) + selected(s.skip(j + 1), caster, kind),
{
    assert(s.skip(j).drop_first() =~= s.skip(j + 1));
    assert(s.skip(j)[0] == s[j]);
    if !is_of(s[j], caster, kind) {
        assert(Seq::<Seq<Word>>::empty() + selected(s.skip(j + 1), caster, kind) =~= selected(
            s.skip(j + 1),
            caster,
            kind,
        ));
    }
}

proof fn lemma_nth_position_skip(
    s: Seq<ActiveSpell>,
    caster: PersonId,
    kind: VectorOutputFieldKind,
    j: int,
    i: int,
)
    requires
        0 <= j < s.len(),
        !(is_of(s[j], caster, kind) && i == 0),
    ensures
        nth_position(s.skip(j), caster, kind, i) == 1 + nth_position(
            s.skip(j + 1),
            caster,
            kind,
            if is_of(s[j], caster, kind) {
                i - 1
            } else {
                i
            },
        ),
{
    assert(s.skip(j).drop_first() =~= s.skip(j + 1));
    assert(s.skip(j)[0] == s[j]);
}

proof fn lemma_selected_len_positive(
    s: Seq<ActiveSpell>,
    caster: PersonId,
    kind: VectorOutputFieldKind,
    i: int,
)
    requires
        0 <= i < selected(s, caster, kind).len(),
    ensures
        0 <= nth_position(s, caster, kind, i) < s.len(),
        is_of(s[nth_position(s, caster, kind, i) as int], caster, kind),
    decreases s.len(),
{
    if s.len() > 0 {
        if is_of(s[0], caster, kind) && i == 0 {
        } else {
            let j = if is_of(s[0], caster, kind) {
                i - 1
            } else {
                i
            };
            lemma_selected_len_positive(s.drop_first(), caster, kind, j);
        }
    }
}

/// No spell of `caster` is left among the retained ones, and each kind that
/// another caster has active stays active.
pub proof fn lemma_retained(s: Seq<ActiveSpell>, caster: PersonId)
    ensures
        forall|j: int|
            0 <= j < retained(s, caster).len() ==> #[trigger] retained(s, caster)[j].caster
                != caster,
        forall|kind: VectorOutputFieldKind|
            has_kind(retained(s, caster), kind) <==> exists|j: int|
                0 <= j < s.len() && #[trigger] s[j].kind == kind && s[j].caster != caster,
    decreases s.len(),
{
    if s.len() > 0 {
        let t = s.drop_first();
        lemma_retained(t, caster);
        let r = retained(s, caster);
        assert forall|kind: VectorOutputFieldKind|
            has_kind(r, kind) <==> exists|j: int|
                0 <= j < s.len() && #[trigger] s[j].kind == kind && s[j].caster != caster by {
            if has_kind(r, kind) {
                let j = choose|j: int| 0 <= j < r.len() && #[trigger] r[j].kind == kind;
                if s[0].caster != caster {
                    if j == 0 {
                        assert(s[0].kind == kind);
                    } else {
                        assert(r[j] == retained(t, caster)[j - 1]);
                        assert(has_kind(retained(t, caster), kind));
                        let m = choose|m: int|
                            0 <= m < t.len() && #[trigger] t[m].kind == kind && t[m].caster
                                != caster;
                        assert(s[m + 1] == t[m]);
                    }
                } else {
                    assert(has_kind(retained(t, caster), kind));
                    let m = choose|m: int|
                        0 <= m < t.len() && #[trigger] t[m].kind == kind && t[m].caster != caster;
                    assert(s[m + 1] == t[m]);
                }
            }
            if exists|j: int| 0 <= j < s.len() && #[trigger] s[j].kind == kind && s[j].caster != caster {
                let j = choose|j: int|
                    0 <= j < s.len() && #[trigger] s[j].kind == kind && s[j].caster != caster;
                if j == 0 {
                    assert(r[0] == s[0]);
                } else {
                    assert(t[j - 1] == s[j]);
                    assert(has_kind(retained(t, caster), kind));
                    let m = choose|m: int|
                        0 <= m < retained(t, caster).len() && #[trigger] retained(t, caster)[m].kind
                            == kind;
                    if s[0].caster != caster {
                        assert(r[m + 1] == retained(t, caster)[m]);
                    } else {
                        assert(r[m] == retained(t, caster)[m]);
                    }
                }
            }
        }
        assert forall|j: int| 0 <= j < r.len() implies #[trigger] r[j].caster != caster by {
            if s[0].caster != caster && j > 0 {
                assert(r[j] == retained(t, caster)[j - 1]);
            }
        }
    }
}

/// The spells of `s` that `caster` committed, in order.
pub open spec fn owned(s: Seq<ActiveSpell>, caster: PersonId) -> Seq<ActiveSpell>
    decreases s.len(),
{
    if s.len() == 0 {
        Seq::empty()
    } else {
        let rest = owned(s.drop_first(), caster);
        if s[0].caster == caster {
            seq![s[0]] + rest
        } else {
            rest
        }
    }
}

/// Dispelling one caster's spells leaves another caster's spells as they
/// were, and none of the first caster's.
pub proof fn lemma_owned_retained(s: Seq<ActiveSpell>, gone: PersonId, caster: PersonId)
    ensures
        owned(retained(s, gone), caster) == if caster == gone {
            Seq::<ActiveSpell>::empty()
        } else {
            owned(s, caster)
        },
    decreases s.len(),
{
    if s.len() > 0 {
        let t = s.drop_first();
        lemma_owned_retained(t, gone, caster);
        if s[0].caster != gone {
            let r = seq![s[0]] + retained(t, gone);
            assert(r.drop_first() =~= retained(t, gone));
            assert(r[0] == s[0]);
        }
    }
}

/// A caster has a spell active exactly when it owns some spell.
pub proof fn lemma_has_caster_owned(s: Seq<ActiveSpell>, caster: PersonId)
    ensures
        has_caster(s, caster) <==> owned(s, caster).len() > 0,
    decreases s.len(),
{
    if s.len() > 0 {
        let t = s.drop_first();
        lemma_has_caster_owned(t, caster);
        if has_caster(t, caster) {
            let j = choose|j: int| 0 <= j < t.len() && #[trigger] t[j].caster == caster;
            assert(s[j + 1] == t[j]);
        }
        if has_caster(s, caster) && s[0].caster != caster {
            let j = choose|j: int| 0 <= j < s.len() && #[trigger] s[j].caster == caster;
            assert(t[j - 1] == s[j]);
        }
    }
}

impl ActiveSpells {
    pub fn new() -> (r: ActiveSpells)
        ensures
            r.spells@.len() == 0,
    {
        ActiveSpells { spells: Vec::new() }
    }

    /// Adds a spell after all others.
    pub fn commit(
        &mut self,
        caster: PersonId,
        kind: VectorOutputFieldKind,
        field: VectorField,
        words: Vec<Word>,
    )
        ensures
            final(self).spells@ == old(self).spells@.push(ActiveSpell { caster, kind, field, words }),
    {
        self.spells.push(ActiveSpell { caster, kind, field, words });
    }

    /// Whether some caster has a spell of the kind active.
    pub fn contains(&self, kind: VectorOutputFieldKind) -> (r: bool)
        ensures
            r == has_kind(self.spells@, kind),
    {
        let mut j: usize = 0;
        while j < self.spells.len()
            invariant
                j <= self.spells@.len(),
                forall|m: int| 0 <= m < j ==> #[trigger] self.spells@[m].kind != kind,
            decreases self.spells.len() - j,
        {
            if self.spells[j].kind == kind {
                return true;
            }
            j = j + 1;
        }
        false
    }

    /// The words of each spell of the caster and kind, in commit order.
    pub fn spell_words(&self, caster: PersonId, kind: VectorOutputFieldKind) -> (r: Vec<Vec<Word>>)
        ensures
            r@.len() == selected(self.spells@, caster, kind).len(),
            forall|i: int|
                0 <= i < r@.len() ==> #[trigger] r@[i]@ == selected(self.spells@, caster, kind)[i],
    {
        let ghost s = self.spells@;
        let mut r: Vec<Vec<Word>> = Vec::new();
        let ghost mut done: Seq<Seq<Word>> = Seq::empty();
        let mut j: usize = 0;
        proof {
            assert(s.skip(0) =~= s);
            assert(done + selected(s, caster, kind) =~= selected(s, caster, kind));
        }
        while j < self.spells.len()
            invariant
                s == self.spells@,
                j <= s.len(),
                selected(s, caster, kind) == done + selected(s.skip(j as int), caster, kind),
                r@.len() == done.len(),
                forall|i: int| 0 <= i < r@.len() ==> #[trigger] r@[i]@ == done[i],
            decreases s.len() - j,
        {
            proof {
                lemma_selected_skip(s, caster, kind, j as int);
            }
            let e = &self.spells[j];
            if e.caster == caster && e.kind == kind {
                let w = e.words.clone();
                proof {
                    assert(w@ =~= e.words@);
                    assert(done + (seq![e.words@] + selected(s.skip(j + 1), caster, kind)) =~= done.push(e.words@)
                        + selected(s.skip(j + 1), caster, kind));
                    done = done.push(e.words@);
                }
                r.push(w);
            } else {
                proof {
                    assert(Seq::<Seq<Word>>::empty() + selected(s.skip(j + 1), caster, kind) =~= selected(
                        s.skip(j + 1),
                        caster,
                        kind,
                    ));
                }
            }
            j = j + 1;
        }
        proof {
            assert(s.skip(j as int) =~= Seq::<ActiveSpell>::empty());
            assert(done + Seq::<Seq<Word>>::empty() =~= done);
        }
        r
    }

    /// The words of each of the player's spells of the kind.
    pub fn player_spell_words(&self, kind: VectorOutputFieldKind) -> (r: Vec<Vec<Word>>)
        ensures
            r@.len() == selected(self.spells@, PersonId::Player, kind).len(),
            forall|i: int|
                0 <= i < r@.len() ==> #[trigger] r@[i]@ == selected(
                    self.spells@,
                    PersonId::Player,
                    kind,
                )[i],
    {
        self.spell_words(PersonId::Player, kind)
    }

    /// Dispels the caster's spell of the kind that `spell_words` lists at
    /// index `i`.
    pub fn remove(&mut self, caster: PersonId, kind: VectorOutputFieldKind, i: usize)
        requires
            i < selected(old(self).spells@, caster, kind).len(),
        ensures
            final(self).spells@ == old(self).spells@.remove(
                nth_position(old(self).spells@, caster, kind, i as int) as int,
            ),
    {
        let ghost s = self.spells@;
        proof {
            lemma_selected_len_positive(s, caster, kind, i as int);
        }
        let mut j: usize = 0;
        let mut left: usize = i;
        proof {
            assert(s.skip(0) =~= s);
        }
        while j < self.spells.len()
            invariant
                s == self.spells@,
                s == old(self).spells@,
                j <= s.len(),
                left <= i,
                nth_position(s, caster, kind, i as int) == j + nth_position(
                    s.skip(j as int),
                    caster,
                    kind,
                    left as int,
                ),
                j <= nth_position(s, caster, kind, i as int) < s.len(),
            decreases s.len() - j,
        {
            let e = &self.spells[j];
            let hit = e.caster == caster && e.kind == kind;
            if hit && left == 0 {
                proof {
                    assert(s.skip(j as int).len() > 0);
                    assert(s.skip(j as int)[0] == s[j as int]);
                    assert(is_of(s.skip(j as int)[0], caster, kind));
                    assert(nth_position(s.skip(j as int), caster, kind, 0) == 0);
                }
                self.spells.remove(j);
                return;
            }
            proof {
                lemma_nth_position_skip(s, caster, kind, j as int, left as int);
            }
            if hit {
                left = left - 1;
            }
            j = j + 1;
        }
    }

    /// Dispels every spell of the caster; the others stay, in order.
    pub fn clear_all(&mut self, caster: PersonId)
        ensures
            final(self).spells@ == retained(old(self).spells@, caster),
    {
        let mut rest: Vec<ActiveSpell> = Vec::new();
        std::mem::swap(&mut rest, &mut self.spells);
        let ghost s = rest@;
        let mut kept: Vec<ActiveSpell> = Vec::new();
        while rest.len() > 0
            invariant
                retained(s, caster) == kept@ + retained(rest@, caster),
            decreases rest@.len(),
        {
            let ghost before = rest@;
            let e = rest.remove(0);
            proof {
                assert(before.drop_first() =~= rest@);
            }
            if e.caster != caster {
                proof {
                    assert(kept@ + (seq![e] + retained(rest@, caster)) =~= kept@.push(e) + retained(
                        rest@,
                        caster,
                    ));
                }
                kept.push(e);
            }
        }
        proof {
            assert(kept@ + Seq::<ActiveSpell>::empty() =~= kept@);
        }
        self.spells = kept;
    }
    /// Whether the caster has some spell active.
    pub fn has_caster(&self, caster: PersonId) -> (r: bool)
        ensures
            r == has_caster(self.spells@, caster),
    {
        let mut j: usize = 0;
        while j < self.spells.len()
            invariant
                j <= self.spells@.len(),
                forall|m: int| 0 <= m < j ==> #[trigger] self.spells@[m].caster != caster,
            decreases self.spells.len() - j,
        {
            if self.spells[j].caster == caster {
                return true;
            }
            j = j + 1;
        }
        false
    }

    /// Whether some spell of the caster reads the control.
    pub fn caster_uses_control(&self, caster: PersonId, k: ControlKind) -> (r: bool)
        ensures
            r == exists|j: int|
                0 <= j < self.spells@.len() && #[trigger] self.spells@[j].caster == caster
                    && vector_uses(self.spells@[j].field, k),
    {
        let mut j: usize = 0;
        while j < self.spells.len()
            invariant
                j <= self.spells@.len(),
                forall|m: int|
                    0 <= m < j ==> !(#[trigger] self.spells@[m].caster == caster && vector_uses(
                        self.spells@[m].field,
                        k,
                    )),
            decreases self.spells.len() - j,
        {
            if self.spells[j].caster == caster && self.spells[j].field.uses_control(k) {
                return true;
            }
            j = j + 1;
        }
        false
    }
}

} // verus!
