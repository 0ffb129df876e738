//! The sixteen-key input latch.
use vstd::prelude::*;

verus! {

/// Level state of the hex keypad: one flag per key 0x0..=0xF.
pub struct Keypad {
    key: [bool; 16],
}

impl View for Keypad {
    type V = Seq<bool>;

    closed spec fn view(&self) -> Seq<bool> {
        self.key@
    }
}

/// Which keypad key a host key with this label stands for, in the usual
/// layout: the 4x4 block `1234 / QWER / ASDF / ZXCV` of a keyboard maps onto
/// `123C / 456D / 789E / A0BF`.
pub open spec fn key_layout(c: char) -> Option<usize> {
    match c {
        '1' => Some(0x1usize),
        '2' => Some(0x2usize),
        '3' => Some(0x3usize),
        '4' => Some(0xCusize),
        'q' | 'Q' => Some(0x4usize),
        'w' | 'W' => Some(0x5usize),
        'e' | 'E' => Some(0x6usize),
        'r' | 'R' => Some(0xDusize),
        'a' | 'A' => Some(0x7usize),
        's' | 'S' => Some(0x8usize),
        'd' | 'D' => Some(0x9usize),
        'f' | 'F' => Some(0xEusize),
        'z' | 'Z' => Some(0xAusize),
        'x' | 'X' => Some(0x0usize),
        'c' | 'C' => Some(0xBusize),
        'v' | 'V' => Some(0xFusize),
        _ => None,
    }
}

/// The keypad key for a host key label, if the layout has one.
pub fn key_index(c: char) -> (r: Option<usize>)
    ensures
        r == key_layout(c),
        r matches Some(i) ==> i < 16,
{
    match c {
        '1' => Some(0x1),
        '2' => Some(0x2),
        '3' => Some(0x3),
        '4' => Some(0xC),
        'q' | 'Q' => Some(0x4),
        'w' | 'W' => Some(0x5),
        'e' | 'E' => Some(0x6),
        'r' | 'R' => Some(0xD),
        'a' | 'A' => Some(0x7),
        's' | 'S' => Some(0x8),
        'd' | 'D' => Some(0x9),
        'f' | 'F' => Some(0xE),
        'z' | 'Z' => Some(0xA),
        'x' | 'X' => Some(0x0),
        'c' | 'C' => Some(0xB),
        'v' | 'V' => Some(0xF),
        _ => None,
    }
}

impl Keypad {
    /// Every key up.
    pub fn new() -> (r: Keypad)
        ensures
            r@.len() == 16,
            r@ == Seq::new(16, |i: int| false),
    {
        let r = Keypad { key: [false; 16] };
        assert(r@ =~= Seq::new(16, |i: int| false));
        r
    }

    /// A keypad has sixteen keys.
    pub proof fn lemma_sixteen_keys(&self)
        ensures
            self@.len() == 16,
    {
    }

    /// Press key `index` down; the other fifteen keys stay as they were.
    pub fn set(&mut self, index: usize)
        requires
            index < 16,
        ensures
            final(self)@.len() == 16,
            final(self)@[index as int],
            forall|j: int| 0 <= j < 16 && j != index ==> final(self)@[j] == old(self)@[j],
            final(self)@ == old(self)@.update(index as int, true),
    {
        self.key[index] = true;
    }

    /// Let key `index` up; the other fifteen keys stay as they were.
    pub fn reset(&mut self, index: usize)
        requires
            index < 16,
        ensures
            final(self)@.len() == 16,
            !final(self)@[index as int],
            forall|j: int| 0 <= j < 16 && j != index ==> final(self)@[j] == old(self)@[j],
            final(self)@ == old(self)@.update(index as int, false),
    {
        self.key[index] = false;
    }

    /// Whether key `index` is down.
    pub fn is_pressed(&self, index: usize) -> (r: bool)
        requires
            index < 16,
        ensures
            r == self@[index as int],
    {
        self.key[index]
    }
}

} // verus!
