use vstd::prelude::*;

verus! {

/// A table of exactly eight slots, one per octant, addressed by the octant
/// index 0–7.
///
/// The slots are plain fields, so that a recursive type may hold itself in
/// them and a function over such a type may descend through a slot.
pub struct Slots<T> {
    pub s0: T,
    pub s1: T,
    pub s2: T,
    pub s3: T,
    pub s4: T,
    pub s5: T,
    pub s6: T,
    pub s7: T,
}

impl<T> Slots<T> {
    /// The content of slot `idx`. The last slot answers for every index
    /// outside 0–6; callers only ask for 0–7.
    pub open spec fn at(self, idx: int) -> T {
        if idx == 0 {
            self.s0
        } else if idx == 1 {
            self.s1
        } else if idx == 2 {
            self.s2
        } else if idx == 3 {
            self.s3
        } else if idx == 4 {
            self.s4
        } else if idx == 5 {
            self.s5
        } else if idx == 6 {
            self.s6
        } else {
            self.s7
        }
    }

    /// The table with slot `idx` replaced by `value`.
    pub open spec fn with(self, idx: int, value: T) -> Self {
        Slots {
            s0: if idx == 0 { value } else { self.s0 },
            s1: if idx == 1 { value } else { self.s1 },
            s2: if idx == 2 { value } else { self.s2 },
            s3: if idx == 3 { value } else { self.s3 },
            s4: if idx == 4 { value } else { self.s4 },
            s5: if idx == 5 { value } else { self.s5 },
            s6: if idx == 6 { value } else { self.s6 },
            s7: if idx == 7 { value } else { self.s7 },
        }
    }

    pub fn get(&self, idx: usize) -> (r: &T)
        requires
            idx < 8,
        ensures
            *r == self.at(idx as int),
    {
        match idx {
            0 => &self.s0,
            1 => &self.s1,
            2 => &self.s2,
            3 => &self.s3,
            4 => &self.s4,
            5 => &self.s5,
            6 => &self.s6,
            _ => &self.s7,
        }
    }

    pub fn get_mut(&mut self, idx: usize) -> (r: &mut T)
        requires
            idx < 8,
        ensures
            *r == old(self).at(idx as int),
            *final(self) == old(self).with(idx as int, *final(r)),
    {
        match idx {
            0 => &mut self.s0,
            1 => &mut self.s1,
            2 => &mut self.s2,
            3 => &mut self.s3,
            4 => &mut self.s4,
            5 => &mut self.s5,
            6 => &mut self.s6,
            _ => &mut self.s7,
        }
    }
}

} // verus!
