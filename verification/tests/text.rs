use owl_tracker::text::{chars_of, push_decimal, str_eq, str_lt};

#[test]
fn decimal_numerals() {
    for n in [0usize, 7, 9, 10, 42, 100, 7698, 4294967295, 1000000] {
        let mut s = String::from("n=");
        push_decimal(&mut s, n);
        assert_eq!(s, format!("n={}", n));
    }
}

#[test]
fn string_equality_and_order() {
    let words = ["", "0", "1", "10", "2", "9", "a", "ab", "b", "null", "é", "日本"];
    for a in words {
        for b in words {
            assert_eq!(str_eq(a, b), a == b, "{:?} == {:?}", a, b);
            assert_eq!(str_lt(a, b), a < b, "{:?} < {:?}", a, b);
        }
    }
}

#[test]
fn characters_in_order() {
    assert_eq!(chars_of("héllo"), vec!['h', 'é', 'l', 'l', 'o']);
    assert_eq!(chars_of(""), Vec::<char>::new());
}
