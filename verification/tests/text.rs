use lamp::text::{contains, str_le};

#[test]
fn order_is_that_of_the_bytes() {
    let words = ["", "A", "Zoo", "a", "ab", "abc", "b", "zebra", "\u{e9}", "\u{ffff}", "\u{10000}"];
    for a in words {
        for b in words {
            assert_eq!(str_le(a, b), a <= b, "{a:?} {b:?}");
        }
    }
}

#[test]
fn substrings_are_found() {
    let words = ["", "a", "b", "ab", "aab", "aba", "caab", "\u{e9}t\u{e9}", "t\u{e9}", "abc"];
    for hay in words {
        for needle in words {
            assert_eq!(contains(hay, needle), hay.contains(needle), "{hay:?} {needle:?}");
        }
    }
}
