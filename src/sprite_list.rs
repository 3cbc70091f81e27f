use vstd::prelude::*;

verus! {

/// A stable handle to a slot of a [`SpriteList`].
#[derive(PartialEq, Eq, Structural, Debug)]
pub struct SpriteReference {
    idx: usize,
}

impl SpriteReference {
    pub closed spec fn index_spec(&self) -> nat {
        self.idx as nat
    }

    /// The slot the reference points to.
    pub fn index(&self) -> (r: usize)
        ensures
            r == self.index_spec(),
    {
        self.idx
    }
}

/// Index of the first empty slot, or -1 when every slot is occupied.
pub open spec fn first_empty<A>(slots: Seq<Option<A>>) -> int
    decreases slots.len(),
{
    if slots.len() == 0 {
        -1
    } else if first_empty(slots.drop_last()) >= 0 {
        first_empty(slots.drop_last())
    } else if slots.last() is None {
        slots.len() - 1
    } else {
        -1
    }
}

/// The slot a new sprite goes to: the lowest empty one, else a new slot at
/// the end while fewer than `max` exist.
pub open spec fn free_slot<A>(slots: Seq<Option<A>>, max: nat) -> Option<nat> {
    if first_empty(slots) >= 0 {
        Some(first_empty(slots) as nat)
    } else if slots.len() < max {
        Some(slots.len())
    } else {
        None
    }
}

/// Slots after a sprite is put in slot `i` (a new slot where `i` is the end).
pub open spec fn occupy<A>(slots: Seq<Option<A>>, i: nat, a: A) -> Seq<Option<A>> {
    if i < slots.len() {
        slots.update(i as int, Some(a))
    } else {
        slots.push(Some(a))
    }
}

/// The smallest range holding the tracked range and slot `i`.
pub open spec fn widened(range: Option<(nat, nat)>, i: nat) -> Option<(nat, nat)> {
    match range {
        None => Some((i, i + 1)),
        Some((s, e)) => Some((if i < s { i } else { s }, if i + 1 > e { i + 1 } else { e })),
    }
}

pub proof fn lemma_first_empty<A>(slots: Seq<Option<A>>)
    ensures
        first_empty(slots) == -1 <==> forall|j: int| 0 <= j < slots.len() ==> (#[trigger] slots[j]) is Some,
        first_empty(slots) != -1 ==> {
            &&& 0 <= first_empty(slots) < slots.len()
            &&& slots[first_empty(slots)] is None
            &&& forall|j: int| 0 <= j < first_empty(slots) ==> (#[trigger] slots[j]) is Some
        },
    decreases slots.len(),
{
    if slots.len() > 0 {
        let init = slots.drop_last();
        lemma_first_empty(init);
        assert forall|j: int| 0 <= j < init.len() implies #[trigger] init[j] == slots[j] by {}
        if first_empty(init) >= 0 {
            let k = first_empty(init);
            assert(slots[k] is None);
            assert forall|j: int| 0 <= j < k implies (#[trigger] slots[j]) is Some by {
                assert(init[j] is Some);
            }
        } else if slots.last() is None {
            assert(slots[slots.len() - 1] is None);
            assert forall|j: int| 0 <= j < slots.len() - 1 implies (#[trigger] slots[j]) is Some by {
                assert(init[j] is Some);
            }
        } else {
            assert forall|j: int| 0 <= j < slots.len() implies (#[trigger] slots[j]) is Some by {
                if j < init.len() {
                    assert(init[j] is Some);
                }
            }
        }
    }
}

proof fn lemma_first_empty_prefix<A>(slots: Seq<Option<A>>, k: int)
    requires
        0 <= k <= slots.len(),
        first_empty(slots.take(k)) >= 0,
    ensures
        first_empty(slots) == first_empty(slots.take(k)),
    decreases slots.len(),
{
    if k < slots.len() {
        assert(slots.drop_last().take(k) == slots.take(k));
        lemma_first_empty_prefix(slots.drop_last(), k);
    } else {
        assert(slots.take(k) == slots);
    }
}

/// Slots that hold sprites, with the range of slots changed since the last upload.
#[derive(Debug)]
pub struct SpriteList<A> {
    max_sprites: usize,
    actors: Vec<Option<A>>,
    range_changed: Option<(usize, usize)>,
}

impl<A> SpriteList<A> {
    pub closed spec fn slots(&self) -> Seq<Option<A>> {
        self.actors@
    }

    pub closed spec fn max_sprites_spec(&self) -> nat {
        self.max_sprites as nat
    }

    pub closed spec fn changed(&self) -> Option<(nat, nat)> {
        match self.range_changed {
            None => None,
            Some((s, e)) => Some((s as nat, e as nat)),
        }
    }

    /// At most `max_sprites` slots, and the changed range is a nonempty range of slots.
    pub open spec fn wf(&self) -> bool {
        &&& 0 < self.max_sprites_spec()
        &&& self.slots().len() <= self.max_sprites_spec()
        &&& match self.changed() {
            None => true,
            Some((s, e)) => s < e <= self.slots().len(),
        }
    }

    /// An empty list with room for `max_sprites` sprites.
    pub fn new(max_sprites: usize) -> (r: SpriteList<A>)
        requires
            max_sprites > 0,
        ensures
            r.wf(),
            r.slots() == Seq::<Option<A>>::empty(),
            r.max_sprites_spec() == max_sprites,
            r.changed() is None,
    {
        SpriteList { max_sprites, actors: Vec::new(), range_changed: None }
    }

    pub fn max_sprites(&self) -> (r: usize)
        ensures
            r == self.max_sprites_spec(),
    {
        self.max_sprites
    }

    /// Number of slots, empty ones included: the instance count of a draw.
    pub fn slot_count(&self) -> (r: usize)
        ensures
            r == self.slots().len(),
    {
        self.actors.len()
    }

    /// The range of slots changed since the last upload.
    pub fn range_changed(&self) -> (r: Option<(usize, usize)>)
        ensures
            r matches Some((s, e)) ==> self.changed() == Some((s as nat, e as nat)),
            r is None ==> self.changed() is None,
    {
        self.range_changed
    }

    fn next_available_idx(&self) -> (r: Option<usize>)
        requires
            self.wf(),
        ensures
            r matches Some(i) ==> free_slot(self.slots(), self.max_sprites_spec()) == Some(i as nat),
            r is None ==> free_slot(self.slots(), self.max_sprites_spec()) is None,
    {
        let mut idx: usize = 0;
        while idx < self.actors.len()
            invariant
                idx <= self.slots().len(),
                first_empty(self.slots().take(idx as int)) == -1,
            decreases self.slots().len() - idx,
        {
            proof {
                assert(self.slots().take(idx + 1).drop_last() == self.slots().take(idx as int));
            }
            if self.actors[idx].is_none() {
                proof {
                    lemma_first_empty_prefix(self.slots(), idx + 1);
                }
                return Some(idx);
            }
            idx = idx + 1;
        }
        proof {
            assert(self.slots().take(idx as int) == self.slots());
        }
        if self.actors.len() < self.max_sprites {
            Some(self.actors.len())
        } else {
            None
        }
    }

    /// Widens the changed range to hold slot `idx`: one range is tracked, the
    /// smallest holding every slot marked since the last upload.
    pub fn mark_sprite_changed(&mut self, idx: usize)
        requires
            old(self).wf(),
            idx < old(self).slots().len(),
        ensures
            final(self).wf(),
            final(self).slots() == old(self).slots(),
            final(self).max_sprites_spec() == old(self).max_sprites_spec(),
            final(self).changed() == widened(old(self).changed(), idx as nat),
    {
        self.range_changed = match self.range_changed {
            None => Some((idx, idx + 1)),
            Some((s, e)) => Some((if idx < s { idx } else { s }, if idx + 1 > e { idx + 1 } else { e })),
        };
    }

    /// Whether a sprite can be added: some slot is empty, or fewer than
    /// `max_sprites` slots exist.
    pub fn has_free_slot(&self) -> (r: bool)
        requires
            self.wf(),
        ensures
            r == free_slot(self.slots(), self.max_sprites_spec()) is Some,
    {
        self.next_available_idx().is_some()
    }

    /// Puts `sprite` in the lowest empty slot, or in a new slot at the end
    /// while fewer than `max_sprites` exist, and marks that slot changed.
    /// Adding to a list whose `max_sprites` slots are all occupied is a
    /// programmer error and is left out; `has_free_slot` tests for it.
    pub fn add_sprite(&mut self, sprite: A) -> (r: SpriteReference)
        requires
            old(self).wf(),
            free_slot(old(self).slots(), old(self).max_sprites_spec()) is Some,
        ensures
            final(self).wf(),
            final(self).max_sprites_spec() == old(self).max_sprites_spec(),
            ({
                let i = free_slot(old(self).slots(), old(self).max_sprites_spec())->0;
                &&& r.index_spec() == i
                &&& final(self).slots() == occupy(old(self).slots(), i, sprite)
                &&& final(self).changed() == widened(old(self).changed(), i)
            }),
    {
        proof {
            lemma_first_empty(self.slots());
        }
        let idx = self.next_available_idx().unwrap();
        if idx < self.actors.len() {
            self.actors.set(idx, Some(sprite));
        } else {
            self.actors.push(Some(sprite));
        }
        self.mark_sprite_changed(idx);
        SpriteReference { idx }
    }

    /// Empties the slot of `sprite` and marks it changed; the slot stays, to be reused.
    pub fn remove_sprite(&mut self, sprite: SpriteReference)
        requires
            old(self).wf(),
            sprite.index_spec() < old(self).slots().len(),
        ensures
            final(self).wf(),
            final(self).max_sprites_spec() == old(self).max_sprites_spec(),
            final(self).slots() == old(self).slots().update(sprite.index_spec() as int, None),
            final(self).changed() == widened(old(self).changed(), sprite.index_spec()),
    {
        self.actors.set(sprite.idx, None);
        self.mark_sprite_changed(sprite.idx);
    }

    /// Replaces the sprite at `sprite` by `f` of it and marks its slot
    /// changed. A reference to a missing or empty slot is a programmer error
    /// and is left out; `slot` tests for it.
    pub fn change_sprite<F: Fn(A) -> A>(&mut self, sprite: &SpriteReference, f: F)
        requires
            old(self).wf(),
            sprite.index_spec() < old(self).slots().len(),
            old(self).slots()[sprite.index_spec() as int] is Some,
            forall|a: A| f.requires((a,)),
        ensures
            final(self).wf(),
            final(self).max_sprites_spec() == old(self).max_sprites_spec(),
            final(self).slots().len() == old(self).slots().len(),
            final(self).slots()[sprite.index_spec() as int] matches Some(b)
                && f.ensures((old(self).slots()[sprite.index_spec() as int]->0,), b),
            forall|j: int| 0 <= j < old(self).slots().len() && j != sprite.index_spec()
                ==> final(self).slots()[j] == old(self).slots()[j],
            final(self).changed() == widened(old(self).changed(), sprite.index_spec()),
    {
        let idx = sprite.idx;
        let actor = self.actors[idx].take().unwrap();
        let changed = f(actor);
        self.actors.set(idx, Some(changed));
        self.mark_sprite_changed(idx);
    }

    /// The sprite at `sprite`, or `None` where its slot is empty.
    pub fn sprite_actor(&self, sprite: &SpriteReference) -> (r: Option<&A>)
        requires
            sprite.index_spec() < self.slots().len(),
        ensures
            r matches Some(a) ==> self.slots()[sprite.index_spec() as int] == Some(*a),
            r is None ==> self.slots()[sprite.index_spec() as int] is None,
    {
        self.actors[sprite.idx].as_ref()
    }

    /// The sprite in slot `idx`, or `None` where it is empty.
    pub fn slot(&self, idx: usize) -> (r: Option<&A>)
        requires
            idx < self.slots().len(),
        ensures
            r matches Some(a) ==> self.slots()[idx as int] == Some(*a),
            r is None ==> self.slots()[idx as int] is None,
    {
        self.actors[idx].as_ref()
    }

    /// The slots to upload before a draw: the changed range, cut at the slot
    /// count. Afterwards no slot counts as changed.
    pub fn take_upload_range(&mut self) -> (r: Option<(usize, usize)>)
        requires
            old(self).wf(),
        ensures
            final(self).wf(),
            final(self).slots() == old(self).slots(),
            final(self).max_sprites_spec() == old(self).max_sprites_spec(),
            final(self).changed() is None,
            r is None <==> old(self).changed() is None,
            r matches Some((s, e)) ==> old(self).changed() == Some((s as nat, e as nat)),
    {
        match self.range_changed {
            None => None,
            Some((s, e)) => {
                let len = self.actors.len();
                let end = if e < len { e } else { len };
                self.range_changed = None;
                Some((s, end))
            },
        }
    }
}

/// The tracked range after marking `marks` one after the other.
pub open spec fn widened_by(range: Option<(nat, nat)>, marks: Seq<nat>) -> Option<(nat, nat)>
    decreases marks.len(),
{
    if marks.len() == 0 {
        range
    } else {
        widened(widened_by(range, marks.drop_last()), marks.last())
    }
}

/// Marking slots one after the other from no tracked range leaves a single
/// range: it starts at the lowest marked slot and ends right after the
/// highest, so every slot in between is uploaded too.
pub proof fn lemma_changed_range_is_hull(marks: Seq<nat>)
    requires
        marks.len() > 0,
    ensures
        widened_by(None, marks) matches Some((s, e)) && {
            &&& forall|i: int| 0 <= i < marks.len() ==> s <= #[trigger] marks[i] < e
            &&& exists|i: int| 0 <= i < marks.len() && #[trigger] marks[i] == s
            &&& exists|j: int| 0 <= j < marks.len() && #[trigger] marks[j] + 1 == e
        },
    decreases marks.len(),
{
    let init = marks.drop_last();
    let m = marks.last();
    assert(marks[marks.len() - 1] == m);
    if init.len() == 0 {
        assert(widened_by(None, init) is None);
    } else {
        lemma_changed_range_is_hull(init);
        let (s0, e0) = widened_by(None, init)->0;
        let (s, e) = widened_by(None, marks)->0;
        assert forall|i: int| 0 <= i < marks.len() implies s <= #[trigger] marks[i] < e by {
            if i < init.len() {
                assert(marks[i] == init[i]);
            }
        }
        let i0 = choose|i: int| 0 <= i < init.len() && #[trigger] init[i] == s0;
        let j0 = choose|j: int| 0 <= j < init.len() && #[trigger] init[j] + 1 == e0;
        assert(marks[i0] == init[i0]);
        assert(marks[j0] == init[j0]);
    }
}

/// A sprite added, removed at once and added again lands in the same slot:
/// the lowest empty slot is always taken first.
pub proof fn lemma_remove_then_add_reuses_slot<A>(slots: Seq<Option<A>>, max: nat, a: A, b: A)
    requires
        slots.len() <= max,
        free_slot(slots, max) is Some,
    ensures
        ({
            let i = free_slot(slots, max)->0;
            free_slot(occupy(slots, i, a).update(i as int, None), max) == Some(i)
        }),
{
    let i = free_slot(slots, max)->0;
    let after = occupy(slots, i, a).update(i as int, None);
    lemma_first_empty(slots);
    lemma_first_empty(after);
    assert(after[i as int] is None);
    assert forall|j: int| 0 <= j < i implies (#[trigger] after[j]) is Some by {
        assert(after[j] == slots[j]);
        if first_empty(slots) == -1 {
            assert(slots[j] is Some);
        }
    }
    if first_empty(after) < i {
        assert(after[first_empty(after)] is Some);
    }
    if first_empty(after) > i {
        assert(after[i as int] is Some);
    }
}

/// A list whose `max` slots are all occupied has no free slot: `has_free_slot`
/// is false there, and `add_sprite` may not be called.
pub proof fn lemma_full_list_has_no_free_slot<A>(slots: Seq<Option<A>>, max: nat)
    requires
        slots.len() == max,
        forall|j: int| 0 <= j < slots.len() ==> (#[trigger] slots[j]) is Some,
    ensures
        free_slot(slots, max) is None,
{
    lemma_first_empty(slots);
}

} // verus!
