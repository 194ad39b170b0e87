use roman::{from, to, MAX};

#[test]
fn test_to_roman() {
    let roman = "I II III IV V VI VII VIII IX X XI XII XIII XIV XV XVI XVII XVIII XIX XX XXI XXII"
        .split(' ');
    for (i, x) in roman.enumerate() {
        let n = (i + 1) as u16;
        assert_eq!(to(n).unwrap(), x);
    }
    assert_eq!(to(1984).unwrap(), "MCMLXXXIV");
}

#[test]
fn test_from() {
    assert!(from("i").is_none());
}

#[test]
fn test_to_from() {
    for n in 1..MAX {
        assert_eq!(from(&to(n).unwrap()).unwrap(), n);
    }
}

#[test]
fn max_is_3999() {
    assert_eq!(MAX, 3999);
}

#[test]
fn to_range_boundaries() {
    assert_eq!(to(0), None);
    assert_eq!(to(1), Some("I".to_string()));
    assert_eq!(to(3999), Some("MMMCMXCIX".to_string()));
    assert_eq!(to(MAX), Some("MMMCMXCIX".to_string()));
    assert_eq!(to(4000), None);
    assert_eq!(to(u16::MAX), None);
}

#[test]
fn to_subtractive_pairs() {
    assert_eq!(to(4).unwrap(), "IV");
    assert_eq!(to(9).unwrap(), "IX");
    assert_eq!(to(40).unwrap(), "XL");
    assert_eq!(to(90).unwrap(), "XC");
    assert_eq!(to(400).unwrap(), "CD");
    assert_eq!(to(900).unwrap(), "CM");
}

#[test]
fn to_single_symbols() {
    assert_eq!(to(1).unwrap(), "I");
    assert_eq!(to(5).unwrap(), "V");
    assert_eq!(to(10).unwrap(), "X");
    assert_eq!(to(50).unwrap(), "L");
    assert_eq!(to(100).unwrap(), "C");
    assert_eq!(to(500).unwrap(), "D");
    assert_eq!(to(1000).unwrap(), "M");
}

#[test]
fn to_known_values() {
    assert_eq!(to(14).unwrap(), "XIV");
    assert_eq!(to(444).unwrap(), "CDXLIV");
    assert_eq!(to(888).unwrap(), "DCCCLXXXVIII");
    assert_eq!(to(999).unwrap(), "CMXCIX");
    assert_eq!(to(2024).unwrap(), "MMXXIV");
    assert_eq!(to(3000).unwrap(), "MMM");
    assert_eq!(to(3888).unwrap(), "MMMDCCCLXXXVIII");
}

#[test]
fn to_is_at_most_fifteen_symbols() {
    let mut longest = 0;
    for n in 1..=MAX {
        let len = to(n).unwrap().len();
        assert!(len >= 1);
        if len > longest {
            longest = len;
        }
    }
    assert_eq!(longest, 15);
}

#[test]
fn from_known_values() {
    assert_eq!(from("I"), Some(1));
    assert_eq!(from("XIV"), Some(14));
    assert_eq!(from("MCMLXXXIV"), Some(1984));
    assert_eq!(from("MMMCMXCIX"), Some(3999));
    assert_eq!(from("XIX"), Some(19));
}

#[test]
fn from_rejects_what_is_not_canonical() {
    assert_eq!(from(""), None);
    assert_eq!(from("i"), None);
    assert_eq!(from("IIII"), None);
    assert_eq!(from("IM"), None);
    assert_eq!(from("VV"), None);
    assert_eq!(from("IIV"), None);
    assert_eq!(from("VX"), None);
    assert_eq!(from("IXI"), None);
    assert_eq!(from("XIIII"), None);
    assert_eq!(from("xiv"), None);
    assert_eq!(from("XiV"), None);
}

#[test]
fn from_rejects_values_out_of_range() {
    assert_eq!(from("MMMM"), None);
    assert_eq!(from("MMMMCMXCIX"), None);
    assert_eq!(from(&"M".repeat(66)), None);
}

#[test]
fn from_rejects_other_characters() {
    assert_eq!(from("XIV "), None);
    assert_eq!(from(" XIV"), None);
    assert_eq!(from("X-V"), None);
    assert_eq!(from("14"), None);
    assert_eq!(from("XÎV"), None);
    assert_eq!(from("Ⅳ"), None);
    assert_eq!(from("X\u{0}"), None);
}

#[test]
fn round_trip_covers_the_whole_range() {
    for n in 1..=MAX {
        let text = to(n).unwrap();
        assert_eq!(from(&text), Some(n));
    }
}

#[test]
fn numerals_are_distinct() {
    let mut seen = std::collections::HashSet::new();
    for n in 1..=MAX {
        assert!(seen.insert(to(n).unwrap()));
    }
    assert_eq!(seen.len(), 3999);
}

#[test]
fn from_accepts_only_what_to_writes() {
    let mut numerals = std::collections::HashMap::new();
    for n in 1..=MAX {
        numerals.insert(to(n).unwrap(), n);
    }
    let symbols = ['I', 'V', 'X', 'L', 'C', 'D', 'M', 'i', ' '];
    let mut texts = vec![String::new()];
    let mut accepted = 0;
    for _ in 0..5 {
        let mut longer = Vec::new();
        for t in &texts {
            for c in symbols {
                let mut s = t.clone();
                s.push(c);
                longer.push(s);
            }
        }
        for s in &longer {
            assert_eq!(from(s), numerals.get(s).copied());
            if from(s).is_some() {
                accepted += 1;
            }
        }
        texts = longer;
    }
    assert_eq!(accepted, numerals.keys().filter(|t| t.len() <= 5).count());
}
