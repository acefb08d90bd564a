use vgdi::barcode::{code128_pattern, code128b_elements, STOP, SYMBOL_COUNT};

#[test]
fn pattern_table_has_canonical_module_charges() {
    // Every data/start/check symbol is 11 modules across 6 elements; Stop is 13 across 7.
    for v in 0..SYMBOL_COUNT {
        let p = code128_pattern(v);
        let sum: u32 = p.iter().map(|&b| b as u32).sum();
        if v == STOP {
            assert_eq!(sum, 13, "stop pattern must be 13 modules");
            assert_eq!(p.len(), 7, "stop pattern must be 7 elements");
        } else {
            assert_eq!(sum, 11, "symbol {v} must be 11 modules");
            assert_eq!(p.len(), 6, "symbol {v} must be 6 elements");
        }
    }
}

#[test]
fn rejects_non_codeb_and_empty() {
    assert!(code128b_elements("").is_none());
    assert!(code128b_elements("caf\u{e9}").is_none()); // é is outside ASCII 32–126
    assert!(code128b_elements("OK-123").is_some());
}

#[test]
fn structure_starts_with_bar_and_ends_with_terminator_bar() {
    let els = code128b_elements("A").unwrap();
    // Start-B + 1 data + checksum + Stop = 3 symbols × 6 + 7 = 25 elements.
    assert_eq!(els.len(), 25);
    assert_eq!(els.len() % 2, 1, "must end on a bar (odd element count)");
    let total: u32 = els.iter().map(|&e| e as u32).sum();
    // start(11) + data(11) + check(11) + stop(13) = 46 modules.
    assert_eq!(total, 46);
}

#[test]
fn checksum_matches_hand_computation() {
    // "A" = value 33. checksum = (104 + 1*33) mod 103 = 137 mod 103 = 34.
    let els = code128b_elements("A").unwrap();
    let third: Vec<u8> = els[12..18].to_vec();
    let expect: Vec<u8> = code128_pattern(34);
    assert_eq!(third, expect, "checksum symbol must be value 34");
}

#[test]
fn pattern_values_are_digit_widths() {
    // Start B is 211214, Stop is 2331112, value 0 (space) is 212222.
    assert_eq!(code128_pattern(104), vec![2, 1, 1, 2, 1, 4]);
    assert_eq!(code128_pattern(106), vec![2, 3, 3, 1, 1, 1, 2]);
    assert_eq!(code128_pattern(0), vec![2, 1, 2, 2, 2, 2]);
}

#[test]
fn full_symbol_for_two_characters() {
    // "AB": values 33, 34; checksum (104 + 1*33 + 2*34) mod 103 = 205 mod 103 = 102.
    let els = code128b_elements("AB").unwrap();
    let mut expect = Vec::new();
    for v in [104usize, 33, 34, 102, 106] {
        expect.extend(code128_pattern(v));
    }
    assert_eq!(els, expect);
    // Element count law: 6 * (n + 2) + 7; module count law: 11 * (n + 2) + 13.
    assert_eq!(els.len(), 6 * (2 + 2) + 7);
    assert_eq!(els.iter().map(|&e| e as usize).sum::<usize>(), 11 * (2 + 2) + 13);
}

#[test]
fn checksum_wraps_modulo_103_over_long_input() {
    let data = "~~~~~~~~~~"; // ten copies of value 94
    let els = code128b_elements(data).unwrap();
    let sum: usize = 104 + (1..=10).map(|i| i * 94).sum::<usize>();
    let check = sum % 103;
    let n = data.len();
    assert_eq!(els.len(), 6 * (n + 2) + 7);
    assert_eq!(els[6 * (n + 1)..6 * (n + 2)].to_vec(), code128_pattern(check));
}

#[test]
fn control_and_del_characters_are_rejected() {
    assert!(code128b_elements("A\tB").is_none());
    assert!(code128b_elements("\u{7f}").is_none());
    assert!(code128b_elements(" ").is_some());
}
