use material_icon_browser::filter::{filter_item, visible_count, visible_items, QueryState};
use material_icon_browser::models::{MaterialFontMeta, MaterialFontMetaList};

fn strings(values: &[&str]) -> Vec<String> {
    values.iter().map(|value| value.to_string()).collect()
}

fn home() -> MaterialFontMeta {
    MaterialFontMeta::new("home".to_string(), 0xE88A, strings(&["action"]), strings(&["house"]), None)
}

fn search(text: &str) -> QueryState {
    QueryState { selected_category: None, search_text: text.to_string() }
}

fn category(name: &str) -> QueryState {
    QueryState { selected_category: Some(name.to_string()), search_text: String::new() }
}

fn catalog() -> MaterialFontMetaList {
    MaterialFontMetaList::from_items(vec![
        home(),
        MaterialFontMeta::new("map".to_string(), 58715, strings(&["maps"]), strings(&["home", "place"]), None),
        MaterialFontMeta::new("homework".to_string(), 100, strings(&["action", "maps"]), strings(&[]), None),
        MaterialFontMeta::new("place".to_string(), 59530, strings(&["maps"]), strings(&["pin"]), None),
    ])
}

fn names(list: &MaterialFontMetaList, query: &QueryState) -> Vec<String> {
    visible_items(list, query).iter().map(|item| item.name().clone()).collect()
}

#[test]
fn the_empty_query_shows_every_icon() {
    let query = QueryState::new();
    assert!(query.selected_category.is_none());
    assert!(query.search_text.is_empty());
    assert!(filter_item(&home(), &query));
    assert!(filter_item(&MaterialFontMeta::new(String::new(), 0, Vec::new(), Vec::new(), None), &query));
    let list = catalog();
    assert_eq!(names(&list, &query), strings(&["home", "map", "homework", "place"]));
    assert_eq!(visible_count(&list, &query), 4);
}

#[test]
fn a_search_finds_the_fixture() {
    let item = home();
    assert!(filter_item(&item, &search("hom")));
    assert!(filter_item(&item, &search("house")));
    assert!(filter_item(&item, &search("e88a")));
    assert!(filter_item(&item, &search("59530")));
    assert!(!filter_item(&item, &search("xyz")));
}

#[test]
fn a_search_is_exact_about_case_and_tags() {
    let item = home();
    assert!(filter_item(&item, &search("home")));
    assert!(filter_item(&item, &search("h")));
    assert!(!filter_item(&item, &search("Hom")));
    assert!(!filter_item(&item, &search("ome")));
    assert!(!filter_item(&item, &search("hous")));
    assert!(!filter_item(&item, &search("House")));
    assert!(!filter_item(&item, &search("action")));
    assert!(filter_item(&item, &search("0000e88a")));
    assert!(filter_item(&item, &search("a")));
    assert!(!filter_item(&item, &search("E88A")));
    assert!(!filter_item(&item, &search("5953")));
    assert!(filter_item(&item, &search("059530")));
}

#[test]
fn a_text_that_is_a_numeral_and_hexadecimal_finds_by_either() {
    let by_decimal = MaterialFontMeta::new("x".to_string(), 10, Vec::new(), Vec::new(), None);
    let by_hex = MaterialFontMeta::new("y".to_string(), 0x10, Vec::new(), Vec::new(), None);
    let neither = MaterialFontMeta::new("z".to_string(), 0x11, Vec::new(), Vec::new(), None);
    assert!(filter_item(&by_decimal, &search("10")));
    assert!(filter_item(&by_hex, &search("10")));
    assert!(!filter_item(&neither, &search("10")));
}

#[test]
fn a_category_shows_its_members() {
    let item = home();
    assert!(filter_item(&item, &category("action")));
    assert!(!filter_item(&item, &category("maps")));
    assert!(!filter_item(&item, &category("act")));
    assert!(!filter_item(&item, &category("")));
    let list = catalog();
    assert_eq!(names(&list, &category("maps")), strings(&["map", "homework", "place"]));
    assert_eq!(names(&list, &category("action")), strings(&["home", "homework"]));
    assert_eq!(names(&list, &category("none")), Vec::<String>::new());
    assert_eq!(visible_count(&list, &category("maps")), 3);
    assert_eq!(visible_count(&list, &category("none")), 0);
}

#[test]
fn a_search_goes_through_the_whole_catalog() {
    let list = catalog();
    let query = QueryState { selected_category: Some("maps".to_string()), search_text: "hom".to_string() };
    assert_eq!(names(&list, &query), strings(&["home", "homework"]));
    assert_eq!(visible_count(&list, &query), 2);
    assert!(filter_item(&home(), &query));
    let query = QueryState { selected_category: Some("action".to_string()), search_text: "xyz".to_string() };
    assert!(!filter_item(&home(), &query));
    assert_eq!(visible_count(&list, &query), 0);
}

#[test]
fn visible_items_keep_the_order_of_the_catalog() {
    let list = catalog();
    assert_eq!(names(&list, &search("home")), strings(&["home", "map", "homework"]));
    assert_eq!(names(&list, &search("59530")), strings(&["home", "place"]));
    assert_eq!(names(&list, &search("p")), strings(&["place"]));
    assert_eq!(visible_count(&list, &search("59530")), 2);
}

#[test]
fn visible_items_can_be_asked_for_again() {
    let list = catalog();
    let query = search("hom");
    assert_eq!(names(&list, &query), names(&list, &query));
}

#[test]
fn an_empty_catalog_shows_nothing() {
    let list = MaterialFontMetaList::empty();
    for query in [QueryState::new(), search("home"), category("action")] {
        assert!(visible_items(&list, &query).is_empty());
        assert_eq!(visible_count(&list, &query), 0);
    }
}
