use chip8::keypad::{key_index, Keypad};

#[test]
fn keys_start_up() {
    let k = Keypad::new();
    for i in 0..16 {
        assert!(!k.is_pressed(i));
    }
}

#[test]
fn set_and_reset_follow_one_key() {
    let mut k = Keypad::new();
    k.set(0xB);
    assert!(k.is_pressed(0xB));
    assert!((0..16).filter(|i| k.is_pressed(*i)).count() == 1);
    k.set(0xB);
    assert!(k.is_pressed(0xB));
    k.reset(0xB);
    assert!(!k.is_pressed(0xB));
    k.reset(0xB);
    assert!(!k.is_pressed(0xB));
}

#[test]
fn layout_maps_the_keyboard_block() {
    let rows = ["1234", "QWER", "ASDF", "ZXCV"];
    let expected = [[0x1, 0x2, 0x3, 0xC], [0x4, 0x5, 0x6, 0xD], [0x7, 0x8, 0x9, 0xE], [0xA, 0x0, 0xB, 0xF]];
    for (row, keys) in rows.iter().zip(expected.iter()) {
        for (c, key) in row.chars().zip(keys.iter()) {
            assert_eq!(key_index(c), Some(*key));
            assert_eq!(key_index(c.to_ascii_lowercase()), Some(*key));
        }
    }
}

#[test]
fn layout_ignores_other_keys() {
    for c in ['5', '0', 'T', 'g', ' ', 'é'] {
        assert_eq!(key_index(c), None);
    }
}
