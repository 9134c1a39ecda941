use faust_state::string_map::StringMap;
use faust_state::text::{compare, join, Place};

#[test]
fn strings_are_ordered_as_rust_orders_them() {
    let words = ["", "a", "aa", "ab", "b", "B", "z", "\u{e9}", "\u{20ac}", "\u{1f600}", "a/b", "a b"];
    for a in words.iter() {
        for b in words.iter() {
            let expected = if a < b {
                Place::Before
            } else if a == b {
                Place::Same
            } else {
                Place::After
            };
            assert_eq!(compare(a, b), expected);
        }
    }
}

#[test]
fn parts_are_joined_with_slashes() {
    assert_eq!(join(&Vec::new()), "");
    assert_eq!(join(&vec!["a".to_string()]), "a");
    assert_eq!(join(&vec!["a".to_string(), "".to_string(), "c".to_string()]), "a//c");
}

#[test]
fn map_holds_its_entries_in_order() {
    let mut map: StringMap<i32> = StringMap::new();
    let keys = ["m", "c", "x", "a", "c", "z", "m"];
    for (i, key) in keys.iter().enumerate() {
        map.insert(key.to_string(), i as i32);
    }
    let expected = vec![
        ("a".to_string(), 3),
        ("c".to_string(), 4),
        ("m".to_string(), 6),
        ("x".to_string(), 2),
        ("z".to_string(), 5),
    ];
    assert_eq!(*map.entries(), expected);
    assert_eq!(map.get("c"), Some(&4));
    assert_eq!(map.get("b"), None);
    assert_eq!(map.get(""), None);
}
