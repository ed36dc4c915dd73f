//! From what the host reports of its keyboard to the states of the sixteen
//! keys of the keypad.

use vstd::prelude::*;
use crate::fault::Quit;
use crate::machine::KEY_COUNT;

verus! {

/// A key of the host's keyboard, named by its place on the board.
#[derive(Clone, Copy, Debug, PartialEq, Eq)]
pub enum HostKey {
    B,
    Num4,
    Num5,
    Num6,
    R,
    T,
    Y,
    F,
    G,
    H,
    V,
    N,
    Num7,
    U,
    J,
    M,
    /// Any key that is no part of the keypad.
    Other,
}

/// What the host reports between two cycles.
#[derive(Clone, Copy, Debug, PartialEq, Eq)]
pub enum HostEvent {
    /// The user asked to leave.
    Quit,
    /// Anything else.
    Other,
}

/// The key of the keypad that a key of the host's keyboard stands for. The
/// keypad lies on the board as a block of four by four:
///
/// ```text
/// 4 5 6 7        1 2 3 C
/// R T Y U   for  4 5 6 D
/// F G H J        7 8 9 E
/// V B N M        A 0 B F
/// ```
pub open spec fn keypad_of(key: HostKey) -> Option<u8> {
    match key {
        HostKey::B => Some(0x0u8),
        HostKey::Num4 => Some(0x1u8),
        HostKey::Num5 => Some(0x2u8),
        HostKey::Num6 => Some(0x3u8),
        HostKey::R => Some(0x4u8),
        HostKey::T => Some(0x5u8),
        HostKey::Y => Some(0x6u8),
        HostKey::F => Some(0x7u8),
        HostKey::G => Some(0x8u8),
        HostKey::H => Some(0x9u8),
        HostKey::V => Some(0xAu8),
        HostKey::N => Some(0xBu8),
        HostKey::Num7 => Some(0xCu8),
        HostKey::U => Some(0xDu8),
        HostKey::J => Some(0xEu8),
        HostKey::M => Some(0xFu8),
        HostKey::Other => None,
    }
}

/// Whether one of `events` asks to leave.
pub open spec fn quit_asked(events: Seq<HostEvent>) -> bool {
    exists|k: int| 0 <= k < events.len() && events[k] == HostEvent::Quit
}

/// Whether one of the keys in `pressed` stands for key `key` of the keypad.
pub open spec fn key_down(pressed: Seq<HostKey>, key: int) -> bool {
    exists|k: int| 0 <= k < pressed.len() && #[trigger] keypad_of(pressed[k]) == Some(key as u8)
}

/// The key of the keypad that `key` stands for, if it stands for one.
pub fn keypad_key(key: HostKey) -> (code: Option<u8>)
    ensures
        code == keypad_of(key),
        code matches Some(k) ==> k < KEY_COUNT,
{
    match key {
        HostKey::B => Some(0x0),
        HostKey::Num4 => Some(0x1),
        HostKey::Num5 => Some(0x2),
        HostKey::Num6 => Some(0x3),
        HostKey::R => Some(0x4),
        HostKey::T => Some(0x5),
        HostKey::Y => Some(0x6),
        HostKey::F => Some(0x7),
        HostKey::G => Some(0x8),
        HostKey::H => Some(0x9),
        HostKey::V => Some(0xA),
        HostKey::N => Some(0xB),
        HostKey::Num7 => Some(0xC),
        HostKey::U => Some(0xD),
        HostKey::J => Some(0xE),
        HostKey::M => Some(0xF),
        HostKey::Other => None,
    }
}

/// One poll of the host: if an event asks to leave, that; otherwise the
/// sixteen keys of the keypad, each down exactly if a key that stands for it
/// is among `pressed`.
pub fn poll(events: &[HostEvent], pressed: &[HostKey]) -> (polled: Result<Vec<bool>, Quit>)
    ensures
        polled is Err <==> quit_asked(events@),
        polled matches Ok(keys) ==> keys@.len() == KEY_COUNT && forall|key: int|
            0 <= key < KEY_COUNT ==> (#[trigger] keys@[key] <==> key_down(pressed@, key)),
{
    let mut at: usize = 0;
    while at < events.len()
        invariant
            at <= events@.len(),
            forall|k: int| 0 <= k < at ==> events@[k] != HostEvent::Quit,
        decreases events@.len() - at,
    {
        match events[at] {
            HostEvent::Quit => {
                return Err(Quit);
            },
            HostEvent::Other => {},
        }
        at += 1;
    }
    let mut keys: Vec<bool> = vec![false; KEY_COUNT];
    let mut seen: usize = 0;
    while seen < pressed.len()
        invariant
            seen <= pressed@.len(),
            keys@.len() == KEY_COUNT,
            forall|key: int|
                0 <= key < KEY_COUNT ==> (#[trigger] keys@[key] <==> key_down(
                    pressed@.subrange(0, seen as int),
                    key,
                )),
        decreases pressed@.len() - seen,
    {
        let ghost before = keys@;
        let ghost shorter = pressed@.subrange(0, seen as int);
        let ghost longer = pressed@.subrange(0, seen + 1);
        match keypad_key(pressed[seen]) {
            Some(code) => {
                keys[code as usize] = true;
            },
            None => {},
        }
        proof {
            assert forall|key: int| 0 <= key < KEY_COUNT implies (#[trigger] keys@[key]
                <==> key_down(longer, key)) by {
                if key_down(shorter, key) {
                    let k = choose|k: int|
                        0 <= k < shorter.len() && #[trigger] keypad_of(shorter[k]) == Some(
                            key as u8,
                        );
                    assert(keypad_of(longer[k]) == Some(key as u8));
                }
                if keypad_of(pressed@[seen as int]) == Some(key as u8) {
                    assert(keypad_of(longer[seen as int]) == Some(key as u8));
                }
                if key_down(longer, key) {
                    let k = choose|k: int|
                        0 <= k < longer.len() && #[trigger] keypad_of(longer[k]) == Some(
                            key as u8,
                        );
                    if k < seen {
                        assert(keypad_of(shorter[k]) == Some(key as u8));
                    }
                }
            }
        }
        seen += 1;
    }
    assert(pressed@.subrange(0, seen as int) =~= pressed@);
    Ok(keys)
}

} // verus!
