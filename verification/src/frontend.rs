//! What a desktop front end decides: how fast a game runs, which keyboard key
//! is which keypad key, and where lit pixels go in the window.
use vstd::prelude::*;
use crate::machine::{SCREEN_SIZE, SCREEN_WIDTH};
use crate::text::{all_ascii, ascii_lower, lowercase, to_lowercase_chars};

verus! {

/// Side of one CHIP-8 pixel in window pixels.
pub const SCALE: u32 = 15;
/// Window width in pixels (`SCREEN_WIDTH * SCALE`).
pub const WINDOW_WIDTH: u32 = 960;
/// Window height in pixels (`SCREEN_HEIGHT * SCALE`).
pub const WINDOW_HEIGHT: u32 = 480;
/// Cycles per frame for a game that no rule names.
pub const DEFAULT_SPEED: usize = 10;

/// `frag` occurs in `name` as a contiguous run of characters.
pub open spec fn has_fragment(name: Seq<char>, frag: Seq<char>) -> bool {
    exists|i: int|
        0 <= i && i + frag.len() <= name.len() && #[trigger] name.subrange(i, i + frag.len()) == frag
}

/// The speed rules, tried in order: a game whose (lowercased) path contains
/// the fragment runs that many cycles per frame.
pub open spec fn speed_rules() -> Seq<(Seq<char>, usize)> {
    seq![
        (seq!['1', '5', 'p', 'u', 'z', 'z', 'l', 'e'], 15usize),
        (seq!['b', 'l', 'i', 'n', 'k', 'y'], 25usize),
        (seq!['b', 'l', 'i', 't', 'z'], 2usize),
        (seq!['b', 'r', 'i', 'x'], 10usize),
        (seq!['v', 'b', 'r', 'i', 'x'], 10usize),
        (seq!['c', 'o', 'n', 'n', 'e', 'c', 't', '4'], 1usize),
        (seq!['g', 'u', 'e', 's', 's'], 15usize),
        (seq!['h', 'i', 'd', 'd', 'e', 'n'], 1usize),
        (seq!['i', 'n', 'v', 'a', 'd', 'e', 'r', 's'], 12usize),
        (seq!['k', 'a', 'l', 'e', 'i', 'd'], 9usize),
        (seq!['m', 'a', 'z', 'e'], 9usize),
        (seq!['m', 'e', 'r', 'l', 'i', 'n'], 9usize),
        (seq!['m', 'i', 's', 's', 'i', 'l', 'e'], 10usize),
        (seq!['p', 'o', 'n', 'g', '2'], 10usize),
        (seq!['p', 'o', 'n', 'g'], 10usize),
        (seq!['p', 'u', 'z', 'z', 'l', 'e'], 5usize),
        (seq!['s', 'y', 'z', 'y', 'g', 'y'], 6usize),
        (seq!['t', 'a', 'n', 'k'], 11usize),
        (seq!['t', 'e', 't', 'r', 'i', 's'], 10usize),
        (seq!['t', 'i', 'c', 't', 'a', 'c'], 12usize),
        (seq!['u', 'f', 'o'], 11usize),
        (seq!['v', 'e', 'r', 's'], 15usize),
        (seq!['w', 'i', 'p', 'e', 'o', 'f', 'f'], 13usize),
    ]
}

/// The speed of the first rule from `k` on whose fragment occurs in `name`,
/// or the default speed if none does.
pub open spec fn speed_from(name: Seq<char>, rules: Seq<(Seq<char>, usize)>, k: int) -> usize
    decreases rules.len() - k,
{
    if k < 0 || k >= rules.len() {
        DEFAULT_SPEED
    } else if has_fragment(name, rules[k].0) {
        rules[k].1
    } else {
        speed_from(name, rules, k + 1)
    }
}

/// Cycles per frame for a game whose lowercased path is `name`.
pub open spec fn speed_for(name: Seq<char>) -> usize {
    speed_from(name, speed_rules(), 0)
}

fn contains_fragment(name: &[char], frag: &[char]) -> (r: bool)
    ensures
        r == has_fragment(name@, frag@),
{
    let n = name.len();
    let f = frag.len();
    if f > n {
        return false;
    }
    let mut i: usize = 0;
    while i <= n - f
        invariant
            n == name@.len(),
            f == frag@.len(),
            f <= n,
            i <= n - f + 1,
            forall|j: int| 0 <= j < i ==> #[trigger] name@.subrange(j, j + f) != frag@,
        decreases n - i,
    {
        let mut k: usize = 0;
        while k < f && name[i + k] == frag[k]
            invariant
                n == name@.len(),
                f == frag@.len(),
                i + f <= n,
                k <= f,
                forall|t: int| 0 <= t < k ==> name@[i + t] == frag@[t],
            decreases f - k,
        {
            k = k + 1;
        }
        if k == f {
            assert(name@.subrange(i as int, i + f) =~= frag@);
            return true;
        }
        assert(name@.subrange(i as int, i + f)[k as int] != frag@[k as int]);
        i = i + 1;
    }
    false
}

/// The speed rules as executable data.
fn speed_table() -> (r: Vec<(Vec<char>, usize)>)
    ensures
        r@.len() == speed_rules().len(),
        forall|k: int|
            0 <= k < r@.len() ==> (#[trigger] r@[k]).0@ == speed_rules()[k].0 && r@[k].1
                == speed_rules()[k].1,
{
    let r = vec![
        (vec!['1', '5', 'p', 'u', 'z', 'z', 'l', 'e'], 15usize),
        (vec!['b', 'l', 'i', 'n', 'k', 'y'], 25usize),
        (vec!['b', 'l', 'i', 't', 'z'], 2usize),
        (vec!['b', 'r', 'i', 'x'], 10usize),
        (vec!['v', 'b', 'r', 'i', 'x'], 10usize),
        (vec!['c', 'o', 'n', 'n', 'e', 'c', 't', '4'], 1usize),
        (vec!['g', 'u', 'e', 's', 's'], 15usize),
        (vec!['h', 'i', 'd', 'd', 'e', 'n'], 1usize),
        (vec!['i', 'n', 'v', 'a', 'd', 'e', 'r', 's'], 12usize),
        (vec!['k', 'a', 'l', 'e', 'i', 'd'], 9usize),
        (vec!['m', 'a', 'z', 'e'], 9usize),
        (vec!['m', 'e', 'r', 'l', 'i', 'n'], 9usize),
        (vec!['m', 'i', 's', 's', 'i', 'l', 'e'], 10usize),
        (vec!['p', 'o', 'n', 'g', '2'], 10usize),
        (vec!['p', 'o', 'n', 'g'], 10usize),
        (vec!['p', 'u', 'z', 'z', 'l', 'e'], 5usize),
        (vec!['s', 'y', 'z', 'y', 'g', 'y'], 6usize),
        (vec!['t', 'a', 'n', 'k'], 11usize),
        (vec!['t', 'e', 't', 'r', 'i', 's'], 10usize),
        (vec!['t', 'i', 'c', 't', 'a', 'c'], 12usize),
        (vec!['u', 'f', 'o'], 11usize),
        (vec!['v', 'e', 'r', 's'], 15usize),
        (vec!['w', 'i', 'p', 'e', 'o', 'f', 'f'], 13usize),
    ];
    assert forall|k: int| 0 <= k < r@.len() implies (#[trigger] r@[k]).0@ == speed_rules()[k].0
        && r@[k].1 == speed_rules()[k].1 by {
        assert(r@[k].0@ =~= speed_rules()[k].0);
    }
    r
}

/// Cycles per frame for a game whose lowercased path is `name`: the speed of
/// the first rule whose fragment occurs in `name`, else the default.
pub fn speed_for_name(name: &[char]) -> (r: usize)
    ensures
        r == speed_for(name@),
{
    let table = speed_table();
    let mut k: usize = 0;
    while k < table.len()
        invariant
            table@.len() == speed_rules().len(),
            forall|j: int|
                0 <= j < table@.len() ==> (#[trigger] table@[j]).0@ == speed_rules()[j].0
                    && table@[j].1 == speed_rules()[j].1,
            k <= table@.len(),
            speed_for(name@) == speed_from(name@, speed_rules(), k as int),
        decreases table@.len() - k,
    {
        let (frag, speed) = (&table[k].0, table[k].1);
        if contains_fragment(name, frag.as_slice()) {
            return speed;
        }
        k = k + 1;
    }
    DEFAULT_SPEED
}

/// Cycles per frame for the game at `path`: the path is lowercased as
/// `str::to_lowercase` does, then the speed rules are tried in order. For an
/// all-ASCII path the speed is that of its ASCII lowercase, so letter case
/// does not matter.
pub fn game_speed(path: &str) -> (r: usize)
    ensures
        r == speed_for(lowercase(path@)),
        all_ascii(path@) ==> r == speed_for(path@.map_values(|c: char| ascii_lower(c))),
{
    let name = to_lowercase_chars(path);
    speed_for_name(name.as_slice())
}

/// The keypad key for the keyboard key with SDL keycode `key`, if any. The
/// keys used are digits and lowercase letters, whose SDL keycodes are their
/// ASCII codes. The layout maps the left block `1234 / qwer / asdf / zxcv`
/// onto the keypad `123C / 456D / 789E / A0BF`.
pub open spec fn keypad_of(key: i32) -> Option<usize> {
    if key == 49 {
        Some(0x1usize)  // '1'
    } else if key == 50 {
        Some(0x2usize)  // '2'
    } else if key == 51 {
        Some(0x3usize)  // '3'
    } else if key == 52 {
        Some(0xCusize)  // '4'
    } else if key == 113 {
        Some(0x4usize)  // 'q'
    } else if key == 119 {
        Some(0x5usize)  // 'w'
    } else if key == 101 {
        Some(0x6usize)  // 'e'
    } else if key == 114 {
        Some(0xDusize)  // 'r'
    } else if key == 97 {
        Some(0x7usize)  // 'a'
    } else if key == 115 {
        Some(0x8usize)  // 's'
    } else if key == 100 {
        Some(0x9usize)  // 'd'
    } else if key == 102 {
        Some(0xEusize)  // 'f'
    } else if key == 122 {
        Some(0xAusize)  // 'z'
    } else if key == 120 {
        Some(0x0usize)  // 'x'
    } else if key == 99 {
        Some(0xBusize)  // 'c'
    } else if key == 118 {
        Some(0xFusize)  // 'v'
    } else {
        None
    }
}

/// The keypad key for the keyboard key with SDL keycode `key`, if any.
pub fn key2button(key: i32) -> (r: Option<usize>)
    ensures
        r == keypad_of(key),
{
    match key {
        49 => Some(0x1),
        50 => Some(0x2),
        51 => Some(0x3),
        52 => Some(0xC),
        113 => Some(0x4),
        119 => Some(0x5),
        101 => Some(0x6),
        114 => Some(0xD),
        97 => Some(0x7),
        115 => Some(0x8),
        100 => Some(0x9),
        102 => Some(0xE),
        122 => Some(0xA),
        120 => Some(0x0),
        99 => Some(0xB),
        118 => Some(0xF),
        _ => None,
    }
}

/// The window position of the top-left corner of screen pixel `p`.
pub open spec fn pixel_origin(p: int) -> (i32, i32) {
    (((p % 64) * 15) as i32, ((p / 64) * 15) as i32)
}

/// The window positions of the lit pixels among the first `n`, in screen order.
pub open spec fn lit_origins(screen: Seq<bool>, n: int) -> Seq<(i32, i32)>
    decreases n,
{
    if n <= 0 {
        Seq::empty()
    } else if screen[n - 1] {
        lit_origins(screen, n - 1).push(pixel_origin(n - 1))
    } else {
        lit_origins(screen, n - 1)
    }
}

/// The window positions, in screen order, of the top-left corners of the lit
/// pixels of a screen: each is a `SCALE`-sized square to fill.
pub fn lit_cells(screen: &[bool]) -> (r: Vec<(i32, i32)>)
    requires
        screen@.len() <= SCREEN_SIZE,
    ensures
        r@ == lit_origins(screen@, screen@.len() as int),
{
    let mut r: Vec<(i32, i32)> = Vec::new();
    let mut k: usize = 0;
    while k < screen.len()
        invariant
            screen@.len() <= SCREEN_SIZE,
            k <= screen@.len(),
            r@ == lit_origins(screen@, k as int),
        decreases screen@.len() - k,
    {
        if screen[k] {
            let x = ((k % SCREEN_WIDTH) * 15) as i32;
            let y = ((k / SCREEN_WIDTH) * 15) as i32;
            r.push((x, y));
        }
        k = k + 1;
    }
    r
}

} // verus!
