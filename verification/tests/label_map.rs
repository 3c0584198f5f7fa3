use simulator::label_map::{compare_labels, LabelMap, LabelOrder};

#[test]
fn labels_are_ordered_byte_by_byte() {
    assert_eq!(compare_labels("a", "b"), LabelOrder::Before);
    assert_eq!(compare_labels("b", "a"), LabelOrder::After);
    assert_eq!(compare_labels("a", "a"), LabelOrder::Same);
    assert_eq!(compare_labels("", ""), LabelOrder::Same);
    assert_eq!(compare_labels("", "a"), LabelOrder::Before);
    assert_eq!(compare_labels("a", "ab"), LabelOrder::Before);
    assert_eq!(compare_labels("ab", "a"), LabelOrder::After);
    assert_eq!(compare_labels("Zeta", "alpha"), LabelOrder::Before);
    assert_eq!(compare_labels("body10", "body2"), LabelOrder::Before);
}

#[test]
fn labels_are_ordered_as_strings_are() {
    let labels = [
        "", "a", "A", "ab", "abc", "b", "earth", "Earth", "moon", "zeta", "é", "z", "日本",
        "日", "éa", "e", "\u{10348}", "\u{7ff}", "\u{800}", "~",
    ];
    for a in labels {
        for b in labels {
            let expected = if a < b {
                LabelOrder::Before
            } else if a == b {
                LabelOrder::Same
            } else {
                LabelOrder::After
            };
            assert_eq!(compare_labels(a, b), expected);
        }
    }
}

#[test]
fn a_new_map_is_empty() {
    let map: LabelMap<u32> = LabelMap::new();
    assert!(map.is_empty());
    assert_eq!(map.len(), 0);
    assert!(map.get("a").is_none());
    assert!(!map.contains_key("a"));
}

#[test]
fn a_map_is_walked_in_the_order_of_its_labels() {
    let mut map = LabelMap::new();
    for (label, value) in [("moon", 1), ("earth", 2), ("sun", 3), ("Mars", 4), ("io", 5)] {
        assert!(map.insert(label.to_string(), value).is_none());
    }
    assert_eq!(map.len(), 5);
    let walk: Vec<(&str, i32)> =
        (0..map.len()).map(|i| (map.key_at(i).as_str(), *map.value_at(i))).collect();
    assert_eq!(walk, vec![("Mars", 4), ("earth", 2), ("io", 5), ("moon", 1), ("sun", 3)]);
}

#[test]
fn the_order_of_a_map_does_not_depend_on_the_order_of_insertion() {
    let labels = ["d", "a", "c", "b", "e"];
    let mut forwards = LabelMap::new();
    let mut backwards = LabelMap::new();
    for label in labels {
        forwards.insert(label.to_string(), label.len());
    }
    for label in labels.iter().rev() {
        backwards.insert(label.to_string(), label.len());
    }
    for i in 0..labels.len() {
        assert_eq!(forwards.key_at(i), backwards.key_at(i));
    }
    assert_eq!(forwards.key_at(0), "a");
    assert_eq!(forwards.key_at(4), "e");
}

#[test]
fn inserting_under_a_label_again_replaces_the_value() {
    let mut map = LabelMap::new();
    assert_eq!(map.insert("a".to_string(), 1), None);
    assert_eq!(map.insert("b".to_string(), 2), None);
    assert_eq!(map.insert("a".to_string(), 3), Some(1));
    assert_eq!(map.len(), 2);
    assert_eq!(map.get("a"), Some(&3));
    assert_eq!(map.get("b"), Some(&2));
}

#[test]
fn removing_a_label_takes_its_value_out() {
    let mut map = LabelMap::new();
    map.insert("a".to_string(), 1);
    map.insert("b".to_string(), 2);
    map.insert("c".to_string(), 3);
    assert_eq!(map.remove("b"), Some(2));
    assert_eq!(map.remove("b"), None);
    assert_eq!(map.remove("z"), None);
    assert_eq!(map.len(), 2);
    assert!(!map.contains_key("b"));
    assert_eq!(map.key_at(0), "a");
    assert_eq!(map.key_at(1), "c");
    assert_eq!(map.get("c"), Some(&3));
}

#[test]
fn a_large_map_finds_every_label() {
    let mut map = LabelMap::new();
    for i in 0..500 {
        map.insert(format!("body{}", (i * 7919) % 500), i);
    }
    assert_eq!(map.len(), 500);
    for i in 0..500 {
        assert!(map.contains_key(&format!("body{}", i)));
    }
    for i in 1..map.len() {
        assert!(map.key_at(i - 1) < map.key_at(i));
    }
}

#[test]
fn appending_begins_a_list_or_lengthens_it() {
    let mut map: LabelMap<Vec<u32>> = LabelMap::new();
    map.append("b".to_string(), 1);
    map.append("a".to_string(), 2);
    map.append("b".to_string(), 3);
    map.append("b".to_string(), 4);
    assert_eq!(map.len(), 2);
    assert_eq!(map.get("a"), Some(&vec![2]));
    assert_eq!(map.get("b"), Some(&vec![1, 3, 4]));
    assert_eq!(map.key_at(0), "a");
}
