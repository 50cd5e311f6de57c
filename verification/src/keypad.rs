//! The sixteen keys: which of them an instruction sees, and which key of a keyboard
//! stands for which of them.

use vstd::prelude::*;
use crate::constants::KEY_COUNT;

verus! {

/// Whether `key` is held down and no key with a lower number is.
pub open spec fn is_lowest_pressed(keys: Seq<bool>, key: int) -> bool {
    &&& 0 <= key < keys.len()
    &&& keys[key]
    &&& forall|lower: int| 0 <= lower < key ==> !keys[lower]
}

/// The lowest-numbered key that is held down, if any key is.
pub open spec fn lowest_pressed(keys: Seq<bool>) -> Option<int> {
    if exists|key: int| is_lowest_pressed(keys, key) {
        Some(choose|key: int| is_lowest_pressed(keys, key))
    } else {
        None
    }
}

/// Whether any key is held down.
pub open spec fn any_pressed(keys: Seq<bool>) -> bool {
    exists|key: int| 0 <= key < keys.len() && keys[key]
}

/// Only one key can be the lowest one held down, and it is the one that
/// `lowest_pressed` gives.
pub proof fn lemma_lowest_pressed_is(keys: Seq<bool>, key: int)
    requires
        is_lowest_pressed(keys, key),
    ensures
        lowest_pressed(keys) == Some(key),
{
    let chosen = choose|key: int| is_lowest_pressed(keys, key);
    assert(is_lowest_pressed(keys, chosen));
    if chosen < key {
        assert(!keys[chosen]);
    } else if key < chosen {
        assert(!keys[key]);
    }
}

/// Finds the lowest-numbered key that is held down.
pub(crate) fn lowest_pressed_key(keys: &[bool; KEY_COUNT]) -> (found: Option<u8>)
    ensures
        match found {
            Some(key) => lowest_pressed(keys@) == Some(key as int),
            None => lowest_pressed(keys@) is None,
        },
{
    let mut key: u8 = 0;
    while key < KEY_COUNT as u8
        invariant
            key <= KEY_COUNT,
            forall|lower: int| 0 <= lower < key ==> !keys@[lower],
        decreases KEY_COUNT - key,
    {
        if keys[key as usize] {
            proof {
                lemma_lowest_pressed_is(keys@, key as int);
            }
            return Some(key);
        }
        key += 1;
    }
    None
}

/// The keyboard keys that stand for the keypad, each with the keypad key it stands for.
///
/// A keyboard key is named by its SDL key code, which for these keys is the ASCII code of
/// the character on it. The block `1234`, `qwer`, `asdf`, `zxcv` of the keyboard is laid
/// over the keypad's `123C`, `456D`, `789E`, `A0BF`.
pub const KEY_MAP: [(i32, usize); KEY_COUNT] = [
    (49, 0x1),
    (50, 0x2),
    (51, 0x3),
    (52, 0xC),
    (113, 0x4),
    (119, 0x5),
    (101, 0x6),
    (114, 0xD),
    (97, 0x7),
    (115, 0x8),
    (100, 0x9),
    (102, 0xE),
    (122, 0xA),
    (120, 0x0),
    (99, 0xB),
    (118, 0xF),
];

/// Whether the entry `entry` of the key map is the one for the keyboard key `keycode`.
pub open spec fn is_entry_for(keycode: i32, entry: int) -> bool {
    0 <= entry < KEY_COUNT && KEY_MAP@[entry].0 == keycode
}

/// The keypad key that the keyboard key `keycode` stands for, if it stands for one: the
/// one that the key map gives for it.
pub open spec fn button_for(keycode: i32) -> Option<usize> {
    if exists|entry: int| is_entry_for(keycode, entry) {
        Some(KEY_MAP@[choose|entry: int| is_entry_for(keycode, entry)].1)
    } else {
        None
    }
}

/// The key map holds each keyboard key once, and only keys of the keypad.
pub proof fn lemma_key_map()
    ensures
        forall|first: int, second: int|
            0 <= first < second < KEY_COUNT ==> KEY_MAP@[first].0 != KEY_MAP@[second].0,
        forall|entry: int| 0 <= entry < KEY_COUNT ==> KEY_MAP@[entry].1 < KEY_COUNT,
{
}

/// Maps a keyboard key to the keypad key it stands for.
pub fn map_key_to_button(keycode: i32) -> (button: Option<usize>)
    ensures
        button == button_for(keycode),
        button matches Some(key) ==> key < KEY_COUNT,
{
    let mut entry: usize = 0;
    while entry < KEY_COUNT
        invariant
            entry <= KEY_COUNT,
            forall|lower: int| 0 <= lower < entry ==> !is_entry_for(keycode, lower),
        decreases KEY_COUNT - entry,
    {
        if KEY_MAP[entry].0 == keycode {
            proof {
                lemma_key_map();
                assert(is_entry_for(keycode, entry as int));
            }
            return Some(KEY_MAP[entry].1);
        }
        entry += 1;
    }
    None
}

} // verus!
