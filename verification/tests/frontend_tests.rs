use chip8_core::{game_speed, key2button, lit_cells, speed_for_name, Emu};

#[test]
fn speeds_of_known_games() {
    assert_eq!(game_speed("./c8games/PONG"), 10);
    assert_eq!(game_speed("./c8games/PONG2"), 10);
    assert_eq!(game_speed("c8games/BLINKY"), 25);
    assert_eq!(game_speed("c8games/BLITZ"), 2);
    assert_eq!(game_speed("c8games/15PUZZLE"), 15);
    assert_eq!(game_speed("c8games/PUZZLE"), 5);
    assert_eq!(game_speed("c8games/CONNECT4"), 1);
    assert_eq!(game_speed("c8games/HIDDEN"), 1);
    assert_eq!(game_speed("c8games/INVADERS"), 12);
    assert_eq!(game_speed("c8games/KALEID"), 9);
    assert_eq!(game_speed("c8games/SYZYGY"), 6);
    assert_eq!(game_speed("c8games/TANK"), 11);
    assert_eq!(game_speed("c8games/TICTAC"), 12);
    assert_eq!(game_speed("c8games/UFO"), 11);
    assert_eq!(game_speed("c8games/VERS"), 15);
    assert_eq!(game_speed("c8games/WIPEOFF"), 13);
    assert_eq!(game_speed("c8games/GUESS"), 15);
}

#[test]
fn speed_rules_are_tried_in_order() {
    // "blinky" comes before "tank".
    assert_eq!(game_speed("blinky_tank"), 25);
    // "brix" comes before "vbrix"; both give 10.
    assert_eq!(game_speed("VBRIX"), 10);
    assert_eq!(game_speed("MazeMerlin"), 9);
}

#[test]
fn unknown_games_get_the_default_speed() {
    assert_eq!(game_speed(""), 10);
    assert_eq!(game_speed("c8games/SPACEFLIGHT"), 10);
    assert_eq!(game_speed("c8games/BLINK"), 10);
}

#[test]
fn speed_ignores_case() {
    assert_eq!(game_speed("Invaders"), game_speed("INVADERS"));
    assert_eq!(game_speed("invaders"), 12);
    let upper: Vec<char> = "INVADERS".chars().collect();
    assert_eq!(speed_for_name(&upper), 10);
    let lower: Vec<char> = "invaders".chars().collect();
    assert_eq!(speed_for_name(&lower), 12);
}

#[test]
fn keypad_layout() {
    let layout = [
        ('1', 0x1), ('2', 0x2), ('3', 0x3), ('4', 0xC),
        ('q', 0x4), ('w', 0x5), ('e', 0x6), ('r', 0xD),
        ('a', 0x7), ('s', 0x8), ('d', 0x9), ('f', 0xE),
        ('z', 0xA), ('x', 0x0), ('c', 0xB), ('v', 0xF),
    ];
    for (c, b) in layout {
        assert_eq!(key2button(c as i32), Some(b));
    }
    assert_eq!(key2button('5' as i32), None);
    assert_eq!(key2button('Q' as i32), None);
    assert_eq!(key2button(27), None);
    assert_eq!(key2button(-1), None);
}

#[test]
fn lit_cells_in_window_coordinates() {
    let mut emu = Emu::new();
    emu.execute(0x6040, 0); // V0 = 64 -> column 0 after wrapping
    emu.execute(0x6102, 0); // V1 = 2
    emu.execute(0xA00A, 0); // I = glyph "2"
    emu.execute(0xD011, 0); // one row: F0
    let cells = lit_cells(emu.get_display());
    assert_eq!(cells, vec![(0, 30), (15, 30), (30, 30), (45, 30)]);
    let mut screen = vec![false; 2048];
    screen[2047] = true;
    assert_eq!(lit_cells(&screen), vec![(63 * 15, 31 * 15)]);
    assert_eq!(lit_cells(&[]), vec![]);
}
