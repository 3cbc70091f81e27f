use vstd::prelude::*;

verus! {

pub const INPUT_LEFT: usize = 0;

pub const INPUT_RIGHT: usize = 1;

pub const INPUT_UP: usize = 2;

pub const INPUT_DOWN: usize = 3;

pub const INPUT_SHOOT1: usize = 4;

pub const INPUT_SHOOT2: usize = 5;

pub const INPUT_BOMB: usize = 6;

pub const INPUT_SLOW: usize = 7;

pub const INPUT_SPEED_SCALE_UP: usize = 8;

pub const INPUT_SPEED_SCALE_DOWN: usize = 9;

pub const INPUT_LAND: usize = 10;

/// Logical input states (pressed or not), their values one frame earlier, and
/// the key code bound to each.
#[derive(Debug)]
pub struct Input {
    states: Vec<bool>,
    previous_states: Vec<bool>,
    key_bindings: Vec<Option<i32>>,
}

impl Input {
    pub closed spec fn states_spec(&self) -> Seq<bool> {
        self.states@
    }

    pub closed spec fn previous_spec(&self) -> Seq<bool> {
        self.previous_states@
    }

    pub closed spec fn bindings_spec(&self) -> Seq<Option<i32>> {
        self.key_bindings@
    }

    /// All three sequences have one entry per logical state.
    pub open spec fn wf(&self) -> bool {
        &&& self.previous_spec().len() == self.states_spec().len()
        &&& self.bindings_spec().len() == self.states_spec().len()
    }

    /// `state_count` released states with no key bound.
    pub fn new(state_count: usize) -> (r: Input)
        ensures
            r.wf(),
            r.states_spec() == Seq::new(state_count as nat, |i: int| false),
            r.previous_spec() == Seq::new(state_count as nat, |i: int| false),
            r.bindings_spec() == Seq::new(state_count as nat, |i: int| None::<i32>),
    {
        let mut states: Vec<bool> = Vec::new();
        let mut previous_states: Vec<bool> = Vec::new();
        let mut key_bindings: Vec<Option<i32>> = Vec::new();
        let mut i: usize = 0;
        while i < state_count
            invariant
                i <= state_count,
                states@ == Seq::new(i as nat, |j: int| false),
                previous_states@ == Seq::new(i as nat, |j: int| false),
                key_bindings@ == Seq::new(i as nat, |j: int| None::<i32>),
            decreases state_count - i,
        {
            states.push(false);
            previous_states.push(false);
            key_bindings.push(None);
            i = i + 1;
            proof {
                assert(states@ == Seq::new(i as nat, |j: int| false));
                assert(previous_states@ == Seq::new(i as nat, |j: int| false));
                assert(key_bindings@ == Seq::new(i as nat, |j: int| None::<i32>));
            }
        }
        Input { states, previous_states, key_bindings }
    }

    pub fn state_count(&self) -> (r: usize)
        ensures
            r == self.states_spec().len(),
    {
        self.states.len()
    }

    pub fn set_state(&mut self, idx: usize, state: bool)
        requires
            old(self).wf(),
            idx < old(self).states_spec().len(),
        ensures
            final(self).wf(),
            final(self).states_spec() == old(self).states_spec().update(idx as int, state),
            final(self).previous_spec() == old(self).previous_spec(),
            final(self).bindings_spec() == old(self).bindings_spec(),
    {
        self.states.set(idx, state);
    }

    /// Sets every state bound to `key`.
    pub fn set_key_state(&mut self, key: i32, state: bool)
        requires
            old(self).wf(),
        ensures
            final(self).wf(),
            final(self).previous_spec() == old(self).previous_spec(),
            final(self).bindings_spec() == old(self).bindings_spec(),
            final(self).states_spec() == Seq::new(
                old(self).states_spec().len(),
                |i: int| if old(self).bindings_spec()[i] == Some(key) { state } else { old(self).states_spec()[i] },
            ),
    {
        let ghost start = self.states@;
        let mut idx: usize = 0;
        while idx < self.key_bindings.len()
            invariant
                self.wf(),
                idx <= self.bindings_spec().len(),
                self.previous_spec() == old(self).previous_spec(),
                self.bindings_spec() == old(self).bindings_spec(),
                start == old(self).states_spec(),
                self.states_spec().len() == start.len(),
                forall|i: int| 0 <= i < idx ==> self.states_spec()[i] == (if self.bindings_spec()[i] == Some(key) { state } else { start[i] }),
                forall|i: int| idx <= i < start.len() ==> self.states_spec()[i] == start[i],
            decreases self.bindings_spec().len() - idx,
        {
            if self.key_bindings[idx] == Some(key) {
                self.states.set(idx, state);
            }
            idx = idx + 1;
        }
        proof {
            assert(self.states_spec() == Seq::new(
                start.len(),
                |i: int| if old(self).bindings_spec()[i] == Some(key) { state } else { start[i] },
            ));
        }
    }

    pub fn state(&self, idx: usize) -> (r: bool)
        requires
            idx < self.states_spec().len(),
        ensures
            r == self.states_spec()[idx as int],
    {
        self.states[idx]
    }

    /// Binds state `idx` to `key`, or unbinds it with `None`.
    pub fn bind_key(&mut self, idx: usize, key: Option<i32>)
        requires
            old(self).wf(),
            idx < old(self).states_spec().len(),
        ensures
            final(self).wf(),
            final(self).states_spec() == old(self).states_spec(),
            final(self).previous_spec() == old(self).previous_spec(),
            final(self).bindings_spec() == old(self).bindings_spec().update(idx as int, key),
    {
        self.key_bindings.set(idx, key);
    }

    /// 1 where only the positive state is held, -1 where only the negative
    /// one is, else 0.
    pub fn axis_state(&self, pos_idx: usize, neg_idx: usize) -> (r: i32)
        requires
            pos_idx < self.states_spec().len(),
            neg_idx < self.states_spec().len(),
        ensures
            r == (if self.states_spec()[pos_idx as int] { 1int } else { 0int }) - (if self.states_spec()[neg_idx as int] { 1int } else { 0int }),
    {
        (if self.states[pos_idx] { 1 } else { 0 }) - (if self.states[neg_idx] { 1 } else { 0 })
    }

    /// Remembers the current states as the previous frame's.
    pub fn copy_state_to_previous(&mut self)
        requires
            old(self).wf(),
        ensures
            final(self).wf(),
            final(self).states_spec() == old(self).states_spec(),
            final(self).previous_spec() == old(self).states_spec(),
            final(self).bindings_spec() == old(self).bindings_spec(),
    {
        let mut copy: Vec<bool> = Vec::new();
        let mut i: usize = 0;
        while i < self.states.len()
            invariant
                i <= self.states_spec().len(),
                copy@ == self.states_spec().take(i as int),
            decreases self.states_spec().len() - i,
        {
            copy.push(self.states[i]);
            i = i + 1;
            proof {
                assert(self.states_spec().take(i as int) == self.states_spec().take(i - 1).push(self.states_spec()[i - 1]));
            }
        }
        proof {
            assert(self.states_spec().take(i as int) == self.states_spec());
        }
        self.previous_states = copy;
    }

    pub fn previous_state(&self, idx: usize) -> (r: bool)
        requires
            self.wf(),
            idx < self.states_spec().len(),
        ensures
            r == self.previous_spec()[idx as int],
    {
        self.previous_states[idx]
    }

    pub fn state_changed(&self, idx: usize) -> (r: bool)
        requires
            self.wf(),
            idx < self.states_spec().len(),
        ensures
            r == (self.states_spec()[idx as int] != self.previous_spec()[idx as int]),
    {
        self.states[idx] != self.previous_states[idx]
    }

    pub fn just_pressed(&self, idx: usize) -> (r: bool)
        requires
            self.wf(),
            idx < self.states_spec().len(),
        ensures
            r == (self.states_spec()[idx as int] && !self.previous_spec()[idx as int]),
    {
        self.state_changed(idx) && self.state(idx)
    }

    pub fn just_released(&self, idx: usize) -> (r: bool)
        requires
            self.wf(),
            idx < self.states_spec().len(),
        ensures
            r == (!self.states_spec()[idx as int] && self.previous_spec()[idx as int]),
    {
        self.state_changed(idx) && !self.state(idx)
    }
}

} // verus!
