use material_icon_browser::browser::{Browser, Effect, Message, RESOURCES_TO_LOAD};
use material_icon_browser::clipboard::CopyType;
use material_icon_browser::models::{MaterialFontMeta, MaterialFontMetaList};
use material_icon_browser::styling::CustomTheme;

fn catalog() -> MaterialFontMetaList {
    MaterialFontMetaList::from_items(vec![
        MaterialFontMeta::new("home".to_string(), 0xE88A, vec!["action".to_string()], vec!["house".to_string()], Some(1)),
        MaterialFontMeta::new("map".to_string(), 58715, vec!["maps".to_string()], Vec::new(), Some(2)),
    ])
}

fn searching(text: &str) -> Browser {
    let mut browser = Browser::new();
    browser.update(Message::MetaListLoaded(catalog()));
    browser.update(Message::SearchVisibleState(true));
    browser.update(Message::Search(text.to_string()));
    browser
}

#[test]
fn the_browser_starts_empty() {
    for browser in [Browser::new(), Browser::default()] {
        assert!(browser.meta_list().items().is_empty());
        assert!(browser.query().selected_category.is_none());
        assert!(browser.query().search_text.is_empty());
        assert!(!browser.search_visible());
        assert_eq!(browser.codepoint(), None);
        assert_eq!(browser.custom_theme(), CustomTheme::Dark);
        assert!(browser.grid_view());
        assert_eq!(browser.window_size(), (1000, 600));
        assert_eq!(browser.copying(), None);
        assert!(!browser.needs_ticks());
        assert!(!browser.are_resources_loaded());
        assert_eq!(browser.visible_count(), 0);
        assert!(browser.selected_item().is_none());
    }
}

#[test]
fn the_resources_are_loaded_after_four() {
    assert_eq!(RESOURCES_TO_LOAD, 4);
    let mut browser = Browser::new();
    for _ in 0..3 {
        assert!(matches!(browser.update(Message::FontLoaded), Effect::Nothing));
        assert!(!browser.are_resources_loaded());
    }
    assert!(matches!(browser.update(Message::MetaListLoaded(catalog())), Effect::Nothing));
    assert!(browser.are_resources_loaded());
    assert_eq!(browser.meta_list().items().len(), 2);
    assert_eq!(browser.visible_count(), 2);
    browser.update(Message::FontLoaded);
    assert!(!browser.are_resources_loaded());
}

#[test]
fn choosing_a_category_closes_search_and_preview() {
    let mut browser = searching("hom");
    browser.update(Message::Codepoint(Some(0xE88A)));
    let effect = browser.update(Message::Category(Some("maps".to_string())));
    assert!(matches!(effect, Effect::SnapToStart));
    assert_eq!(browser.query().selected_category, Some("maps".to_string()));
    assert!(browser.query().search_text.is_empty());
    assert!(!browser.search_visible());
    assert_eq!(browser.codepoint(), None);
    let shown: Vec<&str> = browser.visible_items().iter().map(|item| item.name().as_str()).collect();
    assert_eq!(shown, vec!["map"]);
    assert_eq!(browser.visible_count(), 1);
    browser.update(Message::Category(None));
    assert_eq!(browser.query().selected_category, None);
    assert_eq!(browser.visible_count(), 2);
}

#[test]
fn editing_the_search_text_closes_the_preview() {
    let mut browser = Browser::new();
    browser.update(Message::MetaListLoaded(catalog()));
    browser.update(Message::Category(Some("maps".to_string())));
    browser.update(Message::SearchVisibleState(true));
    browser.update(Message::Codepoint(Some(58715)));
    let effect = browser.update(Message::Search("hom".to_string()));
    assert!(matches!(effect, Effect::SnapToStart));
    assert_eq!(browser.query().search_text, "hom");
    assert_eq!(browser.query().selected_category, Some("maps".to_string()));
    assert!(browser.search_visible());
    assert_eq!(browser.codepoint(), None);
    let shown: Vec<&str> = browser.visible_items().iter().map(|item| item.name().as_str()).collect();
    assert_eq!(shown, vec!["home"]);
    assert!(browser.filter_item(&browser.meta_list().items()[0]));
    assert!(!browser.filter_item(&browser.meta_list().items()[1]));
}

#[test]
fn showing_the_search_field_gives_it_the_focus() {
    let mut browser = Browser::new();
    browser.update(Message::Codepoint(Some(1)));
    assert!(matches!(browser.update(Message::SearchVisibleState(true)), Effect::FocusSearch));
    assert!(browser.search_visible());
    assert_eq!(browser.codepoint(), None);
    browser.update(Message::Search("x".to_string()));
    browser.update(Message::Codepoint(Some(1)));
    assert!(matches!(browser.update(Message::SearchVisibleState(false)), Effect::Nothing));
    assert!(!browser.search_visible());
    assert!(browser.query().search_text.is_empty());
    assert_eq!(browser.codepoint(), None);
}

#[test]
fn an_empty_search_field_hides_when_it_loses_the_focus() {
    let mut browser = searching("");
    assert!(matches!(browser.update(Message::SearchFocusState(true)), Effect::Nothing));
    assert!(browser.search_visible());
    assert!(matches!(browser.update(Message::SearchFocusState(false)), Effect::Nothing));
    assert!(!browser.search_visible());
    let mut browser = searching("hom");
    browser.update(Message::SearchFocusState(false));
    assert!(browser.search_visible());
    assert_eq!(browser.query().search_text, "hom");
}

#[test]
fn switching_the_view_closes_search_and_preview() {
    let mut browser = searching("hom");
    browser.update(Message::Codepoint(Some(0xE88A)));
    assert!(matches!(browser.update(Message::GridViewState(false)), Effect::SnapToStart));
    assert!(!browser.grid_view());
    assert!(!browser.search_visible());
    assert!(browser.query().search_text.is_empty());
    assert_eq!(browser.codepoint(), None);
    browser.update(Message::GridViewState(true));
    assert!(browser.grid_view());
}

#[test]
fn choosing_an_icon_opens_the_preview() {
    let mut browser = searching("hom");
    assert!(matches!(browser.update(Message::Codepoint(Some(58715))), Effect::Nothing));
    assert_eq!(browser.codepoint(), Some(58715));
    assert_eq!(browser.selected_item().map(|item| item.name().as_str()), Some("map"));
    assert_eq!(browser.query().search_text, "hom");
    assert!(browser.search_visible());
    browser.update(Message::Codepoint(Some(5)));
    assert!(browser.selected_item().is_none());
    browser.update(Message::Codepoint(None));
    assert_eq!(browser.codepoint(), None);
    assert!(browser.selected_item().is_none());
}

#[test]
fn the_preview_halves_the_grid() {
    let mut browser = Browser::new();
    assert_eq!(browser.get_items_per_row(), 5);
    assert!(matches!(browser.update(Message::WindowResized(1300, 700)), Effect::Nothing));
    assert_eq!(browser.window_size(), (1300, 700));
    assert_eq!(browser.get_items_per_row(), 8);
    browser.update(Message::Codepoint(Some(1)));
    assert_eq!(browser.get_items_per_row(), 4);
    browser.update(Message::WindowResized(500, 700));
    assert_eq!(browser.get_items_per_row(), 2);
    browser.update(Message::Codepoint(None));
    assert_eq!(browser.get_items_per_row(), 3);
}

#[test]
fn escape_closes_the_preview_first_and_the_search_next() {
    let mut browser = searching("hom");
    browser.update(Message::Codepoint(Some(0xE88A)));
    assert!(matches!(browser.update(Message::EscapePressed), Effect::Nothing));
    assert_eq!(browser.codepoint(), None);
    assert!(browser.search_visible());
    assert_eq!(browser.query().search_text, "hom");
    browser.update(Message::EscapePressed);
    assert!(!browser.search_visible());
    assert!(browser.query().search_text.is_empty());
    browser.update(Message::Category(Some("maps".to_string())));
    browser.update(Message::EscapePressed);
    assert_eq!(browser.query().selected_category, Some("maps".to_string()));
    assert!(!browser.search_visible());
}

#[test]
fn the_search_key_shows_the_field_or_gives_it_the_focus() {
    let mut browser = Browser::new();
    browser.update(Message::Codepoint(Some(1)));
    assert!(matches!(browser.update(Message::FindPressed), Effect::ShowSearch));
    assert!(!browser.search_visible());
    assert_eq!(browser.codepoint(), Some(1));
    browser.update(Message::SearchVisibleState(true));
    assert!(matches!(browser.update(Message::FindPressed), Effect::FocusSearch));
    assert!(browser.search_visible());
}

#[test]
fn one_copy_is_marked_at_a_time() {
    let mut browser = searching("hom");
    browser.update(Message::Codepoint(Some(0xE88A)));
    match browser.update(Message::Copy("home".to_string(), CopyType::Name)) {
        Effect::WriteClipboard(text) => assert_eq!(text, "home"),
        effect => panic!("{:?}", effect),
    }
    assert_eq!(browser.copying(), Some(CopyType::Name));
    assert!(browser.needs_ticks());
    assert_eq!(browser.codepoint(), Some(0xE88A));
    match browser.update(Message::Copy("e88a".to_string(), CopyType::HexCodepoint)) {
        Effect::WriteClipboard(text) => assert_eq!(text, "e88a"),
        effect => panic!("{:?}", effect),
    }
    assert_eq!(browser.copying(), Some(CopyType::HexCodepoint));
    assert!(matches!(browser.update(Message::CopyShown), Effect::Nothing));
    assert_eq!(browser.copying(), None);
    assert!(!browser.needs_ticks());
    browser.update(Message::CopyShown);
    assert_eq!(browser.copying(), None);
}

#[test]
fn the_sidebar_marks_the_selected_category_unless_searching() {
    let mut browser = Browser::new();
    browser.update(Message::MetaListLoaded(catalog()));
    assert!(browser.marks_all());
    assert!(!browser.marks_category(&"maps".to_string()));
    assert!(!browser.is_searching());
    assert_eq!(browser.heading(), "All");
    browser.update(Message::Category(Some("maps".to_string())));
    assert!(!browser.marks_all());
    assert!(browser.marks_category(&"maps".to_string()));
    assert!(!browser.marks_category(&"action".to_string()));
    assert_eq!(browser.heading(), "Maps");
    browser.update(Message::SearchVisibleState(true));
    assert!(browser.marks_category(&"maps".to_string()));
    assert_eq!(browser.heading(), "Maps");
    browser.update(Message::Search("hom".to_string()));
    assert!(browser.is_searching());
    assert!(browser.marks_all());
    assert!(!browser.marks_category(&"maps".to_string()));
    assert_eq!(browser.heading(), "Search All");
}

#[test]
fn the_icon_in_the_preview_is_selected() {
    let mut browser = Browser::new();
    browser.update(Message::MetaListLoaded(catalog()));
    let list = catalog();
    assert!(!browser.is_selected(&list.items()[0]));
    browser.update(Message::Codepoint(Some(58715)));
    assert!(!browser.is_selected(&list.items()[0]));
    assert!(browser.is_selected(&list.items()[1]));
}
