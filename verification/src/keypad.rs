use vstd::prelude::*;

verus! {

/// A snapshot of the 16-key input device: one pressed/released bit per key,
/// indexed by the same hexadecimal key values that instructions use.
///
/// The external input collaborator refreshes a snapshot before each
/// interpreter step; the interpreter only reads it.
pub struct Keypad {
    pub keys: Vec<bool>,
}

/// Whether the key selected by the register value `v` is pressed. A value
/// outside the 16 keys selects no key and counts as released.
pub open spec fn key_pressed(keypad: Keypad, v: u8) -> bool {
    v < 16 && keypad.keys@[v as int]
}

impl Keypad {
    /// A snapshot is well formed when it covers exactly 16 keys.
    pub open spec fn wf(self) -> bool {
        self.keys@.len() == 16
    }

    /// A snapshot with every key released.
    pub fn new() -> (r: Keypad)
        ensures
            r.wf(),
            forall|i: int| 0 <= i < 16 ==> !r.keys@[i],
    {
        let keys: Vec<bool> = vec![false; 16];
        Keypad { keys }
    }

    /// Record key `k` as pressed or released.
    pub fn set_key(&mut self, k: u8, pressed: bool)
        requires
            old(self).wf(),
            k < 16,
        ensures
            final(self).wf(),
            final(self).keys@ == old(self).keys@.update(k as int, pressed),
    {
        self.keys.set(k as usize, pressed);
    }

    /// Whether the key selected by the register value `v` is pressed.
    pub fn is_pressed(&self, v: u8) -> (r: bool)
        requires
            self.wf(),
        ensures
            r == key_pressed(*self, v),
    {
        v < 16 && self.keys[v as usize]
    }

    /// The lowest-indexed pressed key, if any key is pressed at all.
    pub fn first_pressed(&self) -> (r: Option<u8>)
        requires
            self.wf(),
        ensures
            match r {
                Some(k) => k < 16 && self.keys@[k as int] && forall|j: int|
                    0 <= j < k ==> !self.keys@[j],
                None => forall|j: int| 0 <= j < 16 ==> !self.keys@[j],
            },
    {
        let mut i: usize = 0;
        while i < 16
            invariant
                self.wf(),
                i <= 16,
                forall|j: int| 0 <= j < i ==> !self.keys@[j],
            decreases 16 - i,
        {
            if self.keys[i] {
                return Some(i as u8);
            }
            i = i + 1;
        }
        None
    }
}

} // verus!
