use side_channel::numeral::{digit_of, parse_radix, render_radix};
use side_channel::text::{chars_of, mentions};

#[test]
fn hex_is_read() {
    assert_eq!(parse_radix("deadbeef", 16), Some(0xdead_beef));
    assert_eq!(parse_radix("DEADBEEF", 16), Some(0xdead_beef));
    assert_eq!(parse_radix("DeadBeef", 16), Some(0xdead_beef));
    assert_eq!(parse_radix("0", 16), Some(0));
    assert_eq!(parse_radix("ffffffffffffffff", 16), Some(u64::MAX));
    assert_eq!(parse_radix("0000000000000000000000001f", 16), Some(0x1f));
}

#[test]
fn decimal_is_read() {
    assert_eq!(parse_radix("315", 10), Some(315));
    assert_eq!(parse_radix("18446744073709551615", 10), Some(u64::MAX));
    assert_eq!(parse_radix("+7", 10), Some(7));
}

#[test]
fn what_is_no_number_is_refused() {
    for text in ["", "+", "-1", "++1", "+-1", " 1", "1 ", "1_000", "0x10", "12g", "g", "١٢", "é", "1é"] {
        assert_eq!(parse_radix(text, 16), None);
    }
    assert_eq!(parse_radix("a", 10), None);
    assert_eq!(parse_radix("9", 8), None);
    assert_eq!(parse_radix("2", 2), None);
}

#[test]
fn what_does_not_fit_is_refused() {
    assert_eq!(parse_radix("10000000000000000", 16), None);
    assert_eq!(parse_radix("18446744073709551616", 10), None);
    assert_eq!(parse_radix("99999999999999999999999999", 10), None);
    assert_eq!(parse_radix("zzzzzzzzzzzzzz", 36), None);
}

#[test]
fn letters_are_digits_up_to_the_base() {
    assert_eq!(parse_radix("z", 36), Some(35));
    assert_eq!(parse_radix("Z", 36), Some(35));
    assert_eq!(parse_radix("10", 36), Some(36));
    assert_eq!(parse_radix("f", 15), None);
    assert_eq!(parse_radix("e", 15), Some(14));
    assert_eq!(parse_radix("101", 2), Some(5));
}

#[test]
fn reading_agrees_with_std() {
    let alphabet = ['0', '1', '9', 'a', 'f', 'g', 'F', 'Z', '+', '-', ' ', '_', 'x'];
    let mut texts = vec![String::new()];
    for len in 1..=3usize {
        let mut index = vec![0usize; len];
        loop {
            texts.push(index.iter().map(|&i| alphabet[i]).collect());
            let mut at = 0;
            while at < len {
                index[at] += 1;
                if index[at] < alphabet.len() {
                    break;
                }
                index[at] = 0;
                at += 1;
            }
            if at == len {
                break;
            }
        }
    }
    for text in &texts {
        for radix in [2u32, 8, 10, 16, 36] {
            assert_eq!(parse_radix(text, radix), u64::from_str_radix(text, radix).ok());
        }
    }
}

#[test]
fn numbers_are_written() {
    assert_eq!(render_radix(0, 10), "0");
    assert_eq!(render_radix(315, 10), "315");
    assert_eq!(render_radix(u64::MAX, 10), "18446744073709551615");
    assert_eq!(render_radix(0xdead_beef, 16), "deadbeef");
    assert_eq!(render_radix(0, 16), "0");
    assert_eq!(render_radix(u64::MAX, 16), "ffffffffffffffff");
    assert_eq!(render_radix(35, 36), "z");
    assert_eq!(render_radix(5, 2), "101");
    assert_eq!(render_radix(1000, 10), "1000");
}

#[test]
fn writing_agrees_with_std() {
    let mut seed: u64 = 0x853c_49e6_748f_ea9b;
    for round in 0..2000u32 {
        seed ^= seed << 13;
        seed ^= seed >> 7;
        seed ^= seed << 17;
        let n = seed >> (round % 64);
        assert_eq!(render_radix(n, 10), format!("{}", n));
        assert_eq!(render_radix(n, 16), format!("{:x}", n));
        assert_eq!(render_radix(n, 8), format!("{:o}", n));
        assert_eq!(render_radix(n, 2), format!("{:b}", n));
    }
}

#[test]
fn written_numbers_read_back() {
    for n in [0u64, 1, 9, 10, 15, 16, 35, 36, 315, 0xdead_beef, u64::MAX - 1, u64::MAX] {
        for radix in 2..=36u32 {
            assert_eq!(parse_radix(&render_radix(n, radix), radix), Some(n));
        }
    }
}

#[test]
fn characters_of_text() {
    assert_eq!(chars_of("a:b"), vec!['a', ':', 'b']);
    assert_eq!(chars_of(""), Vec::<char>::new());
    assert_eq!(chars_of("é١"), vec!['é', '١']);
}

#[test]
fn text_is_searched() {
    assert!(mentions("qemu:vm::cache_size=2m", "cache_size"));
    assert!(mentions("cache_size", "cache_size"));
    assert!(mentions("xcache_sizex", "cache_size"));
    assert!(!mentions("cache_siz", "cache_size"));
    assert!(!mentions("cache-size", "cache_size"));
    assert!(!mentions("", "cache_size"));
    assert!(mentions("", ""));
    assert!(mentions("abc", ""));
    assert!(mentions("ééécache_size", "cache_size"));
    assert!(mentions("aab", "ab"));
    assert!(!mentions("aba", "bb"));
}

#[test]
fn search_agrees_with_std() {
    let texts = ["", "a", "ab", "aab", "abab", "cache", "cache_size", "é", "aéb", "bbb"];
    for text in texts {
        for pattern in texts {
            assert_eq!(mentions(text, pattern), text.contains(pattern));
        }
    }
}

#[test]
fn characters_are_digits() {
    assert_eq!(digit_of('0'), Some(0));
    assert_eq!(digit_of('9'), Some(9));
    assert_eq!(digit_of('a'), Some(10));
    assert_eq!(digit_of('F'), Some(15));
    assert_eq!(digit_of('z'), Some(35));
    assert_eq!(digit_of('Z'), Some(35));
    for c in ['+', '-', ' ', '_', ':', '/', '@', '[', '`', '{', 'é', '١'] {
        assert_eq!(digit_of(c), None);
    }
    for c in ['0', '7', 'c', 'K', 'y'] {
        assert_eq!(digit_of(c).map(|d| d as u32), c.to_digit(36));
    }
}
