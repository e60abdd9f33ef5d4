use rusty_chain::util::{hash, hex_byte, hex_list};

#[test]
fn hex_text_matches_debug_hex_formatting() {
    for b in 0..=255u8 {
        assert_eq!(hex_byte(b), format!("{:x?}", b));
    }
    let samples: [&[u8]; 4] = [&[], &[0], &[0x1a, 0xff, 0x02], &[9; 17]];
    for s in samples {
        assert_eq!(hex_list(s), format!("{:x?}", s));
    }
}

#[test]
fn hash_of_empty_input() {
    let digest = hash(&vec![]);
    assert_eq!(digest[..4], [0xe3, 0xb0, 0xc4, 0x42]);
    assert_ne!(hash(&vec![1]), digest);
}
