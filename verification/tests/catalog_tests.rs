use material_icon_browser::models::{MaterialFontMeta, MaterialFontMetaList};

fn strings(values: &[&str]) -> Vec<String> {
    values.iter().map(|value| value.to_string()).collect()
}

fn icon(name: &str, codepoint: u32, categories: &[&str], popularity: Option<u64>) -> MaterialFontMeta {
    MaterialFontMeta::new(name.to_string(), codepoint, strings(categories), Vec::new(), popularity)
}

fn home() -> MaterialFontMeta {
    MaterialFontMeta::new(
        "home".to_string(),
        0xE88A,
        strings(&["action"]),
        strings(&["house"]),
        Some(10),
    )
}

#[test]
fn an_icon_gives_back_its_parts() {
    let item = home();
    assert_eq!(item.name(), "home");
    assert_eq!(item.codepoint(), 59530);
    assert_eq!(item.categories(), &strings(&["action"]));
    assert_eq!(item.tags(), &strings(&["house"]));
    assert_eq!(item.popularity(), Some(10));
}

#[test]
fn a_clone_of_an_icon_holds_the_same() {
    let item = home().clone();
    assert_eq!(item.name(), "home");
    assert_eq!(item.codepoint(), 0xE88A);
    assert_eq!(item.categories(), &strings(&["action"]));
    assert_eq!(item.tags(), &strings(&["house"]));
    assert_eq!(item.popularity(), Some(10));
}

#[test]
fn to_char_gives_the_glyph() {
    assert_eq!(home().to_char(), '\u{E88A}');
    assert_eq!(icon("a", 0x41, &[], None).to_char(), 'A');
    assert_eq!(icon("last", 0x10FFFF, &[], None).to_char(), '\u{10FFFF}');
}

#[test]
fn is_displayable_tells_scalar_values() {
    for codepoint in [0u32, 0x41, 0xD7FF, 0xD800, 0xDBFF, 0xDFFF, 0xE000, 0xE88A, 0x10FFFF, 0x110000, u32::MAX] {
        assert_eq!(
            icon("x", codepoint, &[], None).is_displayable(),
            char::from_u32(codepoint).is_some(),
            "{:x}",
            codepoint
        );
    }
}

#[test]
fn to_hex_codepoint_pads_to_four_digits() {
    assert_eq!(home().to_hex_codepoint(), "e88a");
    assert_eq!(icon("x", 0, &[], None).to_hex_codepoint(), "0000");
    assert_eq!(icon("x", 0x1F, &[], None).to_hex_codepoint(), "001f");
    assert_eq!(icon("x", 0xFFFF, &[], None).to_hex_codepoint(), "ffff");
    assert_eq!(icon("x", 0x1_0000, &[], None).to_hex_codepoint(), "10000");
    assert_eq!(icon("x", 0x10_FFFF, &[], None).to_hex_codepoint(), "10ffff");
    assert_eq!(icon("x", u32::MAX, &[], None).to_hex_codepoint(), "ffffffff");
    for codepoint in [0u32, 9, 0xABC, 0xE88A, 0xF_FFFF, 0x100_0000, 0xFFF_FFFF, 0x1000_0000] {
        assert_eq!(icon("x", codepoint, &[], None).to_hex_codepoint(), format!("{:04x}", codepoint));
    }
}

#[test]
fn contains_category_and_tag_match_exactly() {
    let item = home();
    assert!(item.contains_category(&"action".to_string()));
    assert!(!item.contains_category(&"act".to_string()));
    assert!(!item.contains_category(&"Action".to_string()));
    assert!(!item.contains_category(&"house".to_string()));
    assert!(item.contains_tag(&"house".to_string()));
    assert!(!item.contains_tag(&"hous".to_string()));
    assert!(!item.contains_tag(&"action".to_string()));
}

#[test]
fn matches_hex_codepoint_looks_at_the_end_of_eight_digits() {
    let item = home();
    for text in ["e88a", "88a", "a", "0e88a", "0000e88a", ""] {
        assert!(item.matches_hex_codepoint(&text.to_string()), "{:?}", text);
    }
    for text in ["E88A", "e88", "00000e88a", "1e88a", "xyz", "59530"] {
        assert!(!item.matches_hex_codepoint(&text.to_string()), "{:?}", text);
    }
}

#[test]
fn matches_codepoint_reads_a_decimal_numeral() {
    let item = home();
    for text in ["59530", "059530", "+59530"] {
        assert!(item.matches_codepoint(&text.to_string()), "{:?}", text);
    }
    for text in ["5953", "59531", "e88a", "", " 59530", "-59530", "59530.0"] {
        assert!(!item.matches_codepoint(&text.to_string()), "{:?}", text);
    }
}

#[test]
fn the_empty_catalog_holds_nothing() {
    for list in [MaterialFontMetaList::empty(), MaterialFontMetaList::default()] {
        assert!(list.items().is_empty());
        assert!(list.categories().is_empty());
        assert!(list.category_codepoints().is_empty());
        assert!(list.get_item(0xE88A).is_none());
    }
}

#[test]
fn items_keep_the_order_of_their_source() {
    let list = MaterialFontMetaList::from_items(vec![
        icon("zebra", 3, &["b"], Some(1)),
        icon("apple", 1, &["a"], Some(2)),
        icon("mango", 2, &["b"], Some(3)),
    ]);
    let names: Vec<&str> = list.items().iter().map(|item| item.name().as_str()).collect();
    assert_eq!(names, vec!["zebra", "apple", "mango"]);
}

#[test]
fn get_item_returns_the_first_match() {
    let list = MaterialFontMetaList::from_items(vec![
        icon("first", 7, &[], None),
        icon("second", 8, &[], None),
        icon("third", 7, &[], None),
    ]);
    assert_eq!(list.get_item(7).map(|item| item.name().as_str()), Some("first"));
    assert_eq!(list.get_item(8).map(|item| item.name().as_str()), Some("second"));
    assert!(list.get_item(9).is_none());
}

#[test]
fn categories_are_sorted_and_without_duplicates() {
    let list = MaterialFontMetaList::from_items(vec![
        icon("a", 1, &["maps", "action"], Some(1)),
        icon("b", 2, &["av", "maps", "maps"], Some(1)),
        icon("c", 3, &[], Some(1)),
        icon("d", 4, &["Maps", "action", "actions", ""], Some(1)),
    ]);
    assert_eq!(list.categories(), &strings(&["", "Maps", "action", "actions", "av", "maps"]));
}

#[test]
fn categories_do_not_depend_on_the_order_of_the_items() {
    let forward = MaterialFontMetaList::from_items(vec![
        icon("a", 1, &["social", "editor"], None),
        icon("b", 2, &["toggle"], None),
        icon("c", 3, &["editor", "action"], None),
    ]);
    let backward = MaterialFontMetaList::from_items(vec![
        icon("c", 3, &["editor", "action"], None),
        icon("b", 2, &["toggle"], None),
        icon("a", 1, &["social", "editor"], None),
    ]);
    assert_eq!(forward.categories(), backward.categories());
    assert_eq!(forward.categories(), &strings(&["action", "editor", "social", "toggle"]));
}

#[test]
fn categories_agree_with_sort_and_dedup() {
    let sets: Vec<Vec<&str>> = vec![
        vec!["b", "a", "c"],
        vec!["é", "z", "e", "日本", "a", "Z"],
        vec!["same", "same"],
        vec!["ab", "a", "abc", "", "b"],
        vec![],
    ];
    let items: Vec<MaterialFontMeta> = sets.iter().enumerate().map(|(i, set)| icon("x", i as u32, set, None)).collect();
    let mut expected: Vec<String> = sets.iter().flat_map(|set| strings(set)).collect();
    expected.sort();
    expected.dedup();
    let list = MaterialFontMetaList::from_items(items);
    assert_eq!(list.categories(), &expected);
}

#[test]
fn the_most_popular_icon_stands_for_its_category() {
    let list = MaterialFontMetaList::from_items(vec![
        icon("a", 10, &["maps", "action"], Some(5)),
        icon("b", 20, &["maps"], Some(9)),
        icon("c", 30, &["action"], Some(2)),
        icon("d", 40, &["maps"], Some(7)),
    ]);
    assert_eq!(list.categories(), &strings(&["action", "maps"]));
    assert_eq!(list.category_codepoints(), &vec![10, 20]);
}

#[test]
fn of_equally_popular_icons_the_later_one_stands_for_the_category() {
    let list = MaterialFontMetaList::from_items(vec![
        icon("a", 10, &["maps"], Some(5)),
        icon("b", 20, &["maps"], Some(5)),
        icon("c", 30, &["maps"], Some(4)),
        icon("d", 40, &["other"], Some(5)),
    ]);
    assert_eq!(list.categories(), &strings(&["maps", "other"]));
    assert_eq!(list.category_codepoints(), &vec![20, 40]);
}

#[test]
fn the_only_icon_of_a_category_stands_for_it() {
    let list = MaterialFontMetaList::from_items(vec![
        icon("a", 10, &["maps"], Some(100)),
        icon("b", 20, &["lonely"], Some(0)),
        icon("c", 30, &["maps"], Some(200)),
        icon("d", 40, &["top"], Some(u64::MAX)),
    ]);
    assert_eq!(list.categories(), &strings(&["lonely", "maps", "top"]));
    assert_eq!(list.category_codepoints(), &vec![20, 30, 40]);
}

#[test]
fn without_popularity_no_icon_stands_for_a_category() {
    let list = MaterialFontMetaList::from_items(vec![
        icon("a", 10, &["maps"], None),
        icon("b", 20, &["action"], None),
    ]);
    assert_eq!(list.categories(), &strings(&["action", "maps"]));
    assert!(list.category_codepoints().is_empty());
    let mixed = MaterialFontMetaList::from_items(vec![
        icon("a", 10, &["maps"], Some(3)),
        icon("b", 20, &["action"], None),
    ]);
    assert_eq!(mixed.categories(), &strings(&["action", "maps"]));
    assert!(mixed.category_codepoints().is_empty());
}

#[test]
fn a_catalog_accepts_odd_data() {
    let list = MaterialFontMetaList::from_items(vec![
        icon("twice", 1, &[], Some(1)),
        icon("twice", 1, &[], Some(1)),
        icon("", 0xD800, &[], Some(1)),
    ]);
    assert_eq!(list.items().len(), 3);
    assert!(list.categories().is_empty());
    assert!(list.category_codepoints().is_empty());
    assert!(!list.items()[2].is_displayable());
}

#[test]
fn a_clone_of_a_catalog_holds_the_same() {
    let list = MaterialFontMetaList::from_items(vec![
        icon("a", 10, &["maps", "action"], Some(5)),
        icon("b", 20, &["maps"], Some(9)),
    ]);
    let copy = list.clone();
    assert_eq!(copy.items().len(), 2);
    assert_eq!(copy.items()[1].name(), "b");
    assert_eq!(copy.categories(), list.categories());
    assert_eq!(copy.category_codepoints(), list.category_codepoints());
}
