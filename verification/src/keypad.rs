//! The sixteen-key hexadecimal keypad.

use vstd::prelude::*;

verus! {

/// Number of keys; their codes are `0x0` to `0xF`.
pub const KEY_COUNT: u8 = 16;

/// Which keys are held down.
#[derive(Debug)]
pub struct Keypad {
    down: [bool; 16],
}

impl View for Keypad {
    type V = Set<u8>;

    /// The codes of the keys held down.
    closed spec fn view(&self) -> Set<u8> {
        Set::new(|key: u8| key < KEY_COUNT && self.down@[key as int])
    }
}

impl Keypad {
    /// A keypad with no key held down.
    pub fn new() -> (keys: Keypad)
        ensures
            keys@ == Set::<u8>::empty(),
    {
        let keys = Keypad { down: [false; 16] };
        assert(keys@ =~= Set::<u8>::empty());
        keys
    }

    /// Records that `key` went down. A code that names no key is ignored.
    pub fn press(&mut self, key: u8)
        ensures
            final(self)@ == if key < KEY_COUNT {
                old(self)@.insert(key)
            } else {
                old(self)@
            },
    {
        if key < KEY_COUNT {
            self.down[key as usize] = true;
            assert(self@ =~= old(self)@.insert(key));
        }
    }

    /// Records that `key` went up. A code that names no key is ignored.
    pub fn release(&mut self, key: u8)
        ensures
            final(self)@ == old(self)@.remove(key),
    {
        if key < KEY_COUNT {
            self.down[key as usize] = false;
        }
        assert(self@ =~= old(self)@.remove(key));
    }

    /// Whether `key` is held down. No key has a code of 16 or more, so for
    /// such a code the answer is no.
    pub fn is_pressed(&self, key: u8) -> (pressed: bool)
        ensures
            pressed == self@.contains(key),
            pressed ==> key < KEY_COUNT,
    {
        key < KEY_COUNT && self.down[key as usize]
    }
}

} // verus!
