use vstd::prelude::*;

verus! {

/// A snapshot of the sixteen keys: which of them are down.
///
/// A key is named by the low four bits of its number, so every number names
/// a key.
pub struct Keypad {
    down: [bool; 16],
}

impl View for Keypad {
    type V = Seq<bool>;

    closed spec fn view(&self) -> Seq<bool> {
        self.down@
    }
}

/// The key that a number names.
pub open spec fn key_index(key: u8) -> int {
    key as int % 16
}

/// The lowest key from `from` on that is down, if there is one.
pub open spec fn first_pressed_from(keys: Seq<bool>, from: int) -> Option<u8>
    decreases keys.len() - from,
{
    if from < 0 || from >= keys.len() {
        None
    } else if keys[from] {
        Some(from as u8)
    } else {
        first_pressed_from(keys, from + 1)
    }
}

/// The lowest key that is down, if there is one.
pub open spec fn first_pressed(keys: Seq<bool>) -> Option<u8> {
    first_pressed_from(keys, 0)
}

/// `first_pressed_from` finds a key that is down and skips only keys that are up.
pub proof fn lemma_first_pressed_from(keys: Seq<bool>, from: int)
    requires
        0 <= from <= keys.len() <= 256,
    ensures
        match first_pressed_from(keys, from) {
            Some(key) => from <= key < keys.len() && keys[key as int] && forall|k: int|
                from <= k < key ==> !keys[k],
            None => forall|k: int| from <= k < keys.len() ==> !keys[k],
        },
    decreases keys.len() - from,
{
    if from < keys.len() && !keys[from] {
        lemma_first_pressed_from(keys, from + 1);
    }
}

/// With sixteen keys, `first_pressed` is the lowest key that is down, and
/// `None` exactly when every key is up.
pub proof fn lemma_first_pressed(keys: Seq<bool>)
    requires
        keys.len() == 16,
    ensures
        match first_pressed(keys) {
            Some(key) => key < 16 && keys[key as int] && forall|k: int|
                0 <= k < key ==> !keys[k],
            None => forall|k: int| 0 <= k < 16 ==> !keys[k],
        },
{
    lemma_first_pressed_from(keys, 0);
}

impl Keypad {
    /// A keypad with every key up.
    pub fn new() -> (keypad: Keypad)
        ensures
            keypad@ == Seq::new(16, |k: int| false),
    {
        let keypad = Keypad { down: [false; 16] };
        assert(keypad@ =~= Seq::new(16, |k: int| false));
        keypad
    }

    /// A keypad always has sixteen keys.
    pub proof fn lemma_len(&self)
        ensures
            self@.len() == 16,
    {
    }

    /// Records that `key` is down (`pressed`) or up; the other keys stay as they are.
    pub fn set_key(&mut self, key: u8, pressed: bool)
        ensures
            final(self)@ == old(self)@.update(key_index(key), pressed),
        no_unwind
    {
        let k: usize = (key % 16) as usize;
        self.down[k] = pressed;
    }

    /// Whether `key` is down.
    pub fn is_pressed(&self, key: u8) -> (pressed: bool)
        ensures
            pressed == self@[key_index(key)],
    {
        let k: usize = (key % 16) as usize;
        self.down[k]
    }

    /// The lowest key that is down, or `None` if every key is up.
    pub fn first_pressed(&self) -> (found: Option<u8>)
        ensures
            found == first_pressed(self@),
    {
        let mut key: u8 = 0;
        while key < 16
            invariant
                key <= 16,
                first_pressed(self@) == first_pressed_from(self@, key as int),
            decreases 16 - key,
        {
            if self.down[key as usize] {
                return Some(key);
            }
            key = key + 1;
        }
        None
    }
}

} // verus!
