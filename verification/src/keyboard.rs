//! The hexadecimal keypad laid over the left of a QWERTY keyboard.
use vstd::prelude::*;

verus! {

/// The host keys that the keypad reads; every other key is `Other`.
#[derive(Clone, Copy, Debug, PartialEq, Eq, Structural)]
pub enum HostKey {
    Digit1,
    Digit2,
    Digit3,
    Digit4,
    KeyQ,
    KeyW,
    KeyE,
    KeyR,
    KeyA,
    KeyS,
    KeyD,
    KeyF,
    KeyZ,
    KeyX,
    KeyC,
    KeyV,
    Other,
}

/// The keypad key that a host key stands for:
///
/// ```text
/// 1 2 3 4      1 2 3 C
/// Q W E R  ->  4 5 6 D
/// A S D F      7 8 9 E
/// Z X C V      A 0 B F
/// ```
pub open spec fn key_index(key: HostKey) -> Option<int> {
    match key {
        HostKey::Digit1 => Some(0x1),
        HostKey::Digit2 => Some(0x2),
        HostKey::Digit3 => Some(0x3),
        HostKey::Digit4 => Some(0xC),
        HostKey::KeyQ => Some(0x4),
        HostKey::KeyW => Some(0x5),
        HostKey::KeyE => Some(0x6),
        HostKey::KeyR => Some(0xD),
        HostKey::KeyA => Some(0x7),
        HostKey::KeyS => Some(0x8),
        HostKey::KeyD => Some(0x9),
        HostKey::KeyF => Some(0xE),
        HostKey::KeyZ => Some(0xA),
        HostKey::KeyX => Some(0x0),
        HostKey::KeyC => Some(0xB),
        HostKey::KeyV => Some(0xF),
        HostKey::Other => None,
    }
}

/// The keypad index of a host key, or `None` for a key the keypad ignores.
pub fn map_key(key: HostKey) -> (r: Option<usize>)
    ensures
        match key_index(key) {
            Some(k) => r == Some(k as usize),
            None => r is None,
        },
{
    match key {
        HostKey::Digit1 => Some(0x1),
        HostKey::Digit2 => Some(0x2),
        HostKey::Digit3 => Some(0x3),
        HostKey::Digit4 => Some(0xC),
        HostKey::KeyQ => Some(0x4),
        HostKey::KeyW => Some(0x5),
        HostKey::KeyE => Some(0x6),
        HostKey::KeyR => Some(0xD),
        HostKey::KeyA => Some(0x7),
        HostKey::KeyS => Some(0x8),
        HostKey::KeyD => Some(0x9),
        HostKey::KeyF => Some(0xE),
        HostKey::KeyZ => Some(0xA),
        HostKey::KeyX => Some(0x0),
        HostKey::KeyC => Some(0xB),
        HostKey::KeyV => Some(0xF),
        _ => None,
    }
}

/// Each keypad key is read from exactly one host key: the mapping lands in
/// `0..16`, no two host keys share a keypad key, and every keypad key has one.
pub proof fn lemma_keypad_is_one_to_one(a: HostKey, b: HostKey, k: int)
    ensures
        key_index(a) is Some ==> 0 <= key_index(a)->0 < 16,
        key_index(a) is Some && key_index(a) == key_index(b) ==> a == b,
        0 <= k < 16 ==> exists|h: HostKey| #[trigger] key_index(h) == Some(k),
{
    if 0 <= k < 16 {
        if k == 0x0 { assert(key_index(HostKey::KeyX) == Some(k)); }
        else if k == 0x1 { assert(key_index(HostKey::Digit1) == Some(k)); }
        else if k == 0x2 { assert(key_index(HostKey::Digit2) == Some(k)); }
        else if k == 0x3 { assert(key_index(HostKey::Digit3) == Some(k)); }
        else if k == 0x4 { assert(key_index(HostKey::KeyQ) == Some(k)); }
        else if k == 0x5 { assert(key_index(HostKey::KeyW) == Some(k)); }
        else if k == 0x6 { assert(key_index(HostKey::KeyE) == Some(k)); }
        else if k == 0x7 { assert(key_index(HostKey::KeyA) == Some(k)); }
        else if k == 0x8 { assert(key_index(HostKey::KeyS) == Some(k)); }
        else if k == 0x9 { assert(key_index(HostKey::KeyD) == Some(k)); }
        else if k == 0xA { assert(key_index(HostKey::KeyZ) == Some(k)); }
        else if k == 0xB { assert(key_index(HostKey::KeyC) == Some(k)); }
        else if k == 0xC { assert(key_index(HostKey::Digit4) == Some(k)); }
        else if k == 0xD { assert(key_index(HostKey::KeyR) == Some(k)); }
        else if k == 0xE { assert(key_index(HostKey::KeyF) == Some(k)); }
        else { assert(key_index(HostKey::KeyV) == Some(k)); }
    }
}

/// The keypad layout over the host keyboard, row by row: `1 2 3 4` reads
/// `1 2 3 C`, `Q W E R` reads `4 5 6 D`, `A S D F` reads `7 8 9 E`, and
/// `Z X C V` reads `A 0 B F`; any other key reads nothing.
pub proof fn lemma_keypad_layout(other: HostKey)
    ensures
        seq![
            key_index(HostKey::Digit1),
            key_index(HostKey::Digit2),
            key_index(HostKey::Digit3),
            key_index(HostKey::Digit4),
        ] == seq![Some(0x1int), Some(0x2), Some(0x3), Some(0xC)],
        seq![
            key_index(HostKey::KeyQ),
            key_index(HostKey::KeyW),
            key_index(HostKey::KeyE),
            key_index(HostKey::KeyR),
        ] == seq![Some(0x4int), Some(0x5), Some(0x6), Some(0xD)],
        seq![
            key_index(HostKey::KeyA),
            key_index(HostKey::KeyS),
            key_index(HostKey::KeyD),
            key_index(HostKey::KeyF),
        ] == seq![Some(0x7int), Some(0x8), Some(0x9), Some(0xE)],
        seq![
            key_index(HostKey::KeyZ),
            key_index(HostKey::KeyX),
            key_index(HostKey::KeyC),
            key_index(HostKey::KeyV),
        ] == seq![Some(0xAint), Some(0x0), Some(0xB), Some(0xF)],
        other == HostKey::Other ==> key_index(other) is None,
{
    assert(seq![
        key_index(HostKey::Digit1),
        key_index(HostKey::Digit2),
        key_index(HostKey::Digit3),
        key_index(HostKey::Digit4),
    ] =~= seq![Some(0x1int), Some(0x2), Some(0x3), Some(0xC)]);
    assert(seq![
        key_index(HostKey::KeyQ),
        key_index(HostKey::KeyW),
        key_index(HostKey::KeyE),
        key_index(HostKey::KeyR),
    ] =~= seq![Some(0x4int), Some(0x5), Some(0x6), Some(0xD)]);
    assert(seq![
        key_index(HostKey::KeyA),
        key_index(HostKey::KeyS),
        key_index(HostKey::KeyD),
        key_index(HostKey::KeyF),
    ] =~= seq![Some(0x7int), Some(0x8), Some(0x9), Some(0xE)]);
    assert(seq![
        key_index(HostKey::KeyZ),
        key_index(HostKey::KeyX),
        key_index(HostKey::KeyC),
        key_index(HostKey::KeyV),
    ] =~= seq![Some(0xAint), Some(0x0), Some(0xB), Some(0xF)]);
}

} // verus!
