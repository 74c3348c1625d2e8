//! The input device: sixteen boolean key states, indexed 0x0 through 0xF.

use vstd::prelude::*;

verus! {

/// The lowest key index at or above `k` that is down, or 16 if none is.
pub open spec fn first_key_down_from(keys: Seq<bool>, k: int) -> int
    decreases 16 - k,
{
    if k < 0 || k >= 16 {
        16
    } else if keys[k] {
        k
    } else {
        first_key_down_from(keys, k + 1)
    }
}

/// The lowest key currently down, or 16 if none is: the tie-break the
/// wait-for-key instruction uses when a key is already down.
pub open spec fn first_key_down(keys: Seq<bool>) -> int {
    first_key_down_from(keys, 0)
}

/// Sixteen boolean key states.  A key index above 0xF is a usage fault, ruled
/// out by precondition.
pub struct KeyPad {
    state: Vec<bool>,
}

impl View for KeyPad {
    type V = Seq<bool>;

    closed spec fn view(&self) -> Seq<bool> {
        self.state@
    }
}

impl KeyPad {
    pub open spec fn wf(&self) -> bool {
        self@.len() == 16
    }

    pub fn new() -> (r: KeyPad)
        ensures
            r.wf(),
            forall|k: int| 0 <= k < 16 ==> !r@[k],
    {
        let mut state: Vec<bool> = Vec::new();
        let mut i: usize = 0;
        while i < 16
            invariant
                i <= 16,
                state@.len() == i,
                forall|k: int| 0 <= k < i ==> !state@[k],
            decreases 16 - i,
        {
            state.push(false);
            i = i + 1;
        }
        KeyPad { state }
    }

    pub fn keydown(&mut self, key: u8)
        requires
            old(self).wf(),
            key <= 0xf,
        ensures
            final(self).wf(),
            final(self)@ == old(self)@.update(key as int, true),
    {
        self.state.set(key as usize, true);
    }

    pub fn keyup(&mut self, key: u8)
        requires
            old(self).wf(),
            key <= 0xf,
        ensures
            final(self).wf(),
            final(self)@ == old(self)@.update(key as int, false),
    {
        self.state.set(key as usize, false);
    }

    pub fn is_key_down(&self, key: u8) -> (r: bool)
        requires
            self.wf(),
            key <= 0xf,
        ensures
            r == self@[key as int],
    {
        self.state[key as usize]
    }

    /// If any key is down, the lowest such key index (the tie-break the
    /// wait-for-key instruction uses), without mutating any press state;
    /// otherwise nothing.
    pub fn resolve_wait(&self) -> (r: Option<u8>)
        requires
            self.wf(),
        ensures
            first_key_down(self@) < 16 ==> r == Some((first_key_down(self@) as u8)),
            first_key_down(self@) >= 16 ==> r is None,
    {
        let mut key: u8 = 0;
        while key < 16
            invariant
                self.wf(),
                key <= 16,
                first_key_down(self@) == first_key_down_from(self@, key as int),
                forall|j: int| 0 <= j < key ==> !self@[j],
            decreases 16 - key,
        {
            if self.is_key_down(key) {
                return Some(key);
            }
            key = key + 1;
        }
        None
    }
}

} // verus!
