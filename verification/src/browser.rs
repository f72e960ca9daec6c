//! The state of the browser and its transitions. The surrounding application
//! turns what happens (a loaded resource, a key, a resize, a click) into a
//! `Message`, hands it to `Browser::update`, and carries out the `Effect`
//! that comes back.

use vstd::prelude::*;
use vstd::string::*;
use crate::clipboard::CopyType;
use crate::filter::{
    filter_item, is_shown, referred, shown, visible_count, visible_items, Query, QueryState,
};
use crate::layout::{get_items_per_row, items_per_row};
use crate::models::{is_first_with, IconRecord, MaterialFontMeta, MaterialFontMetaList};
use crate::styling::CustomTheme;
use crate::text::{capitalized, capitalized_string};

verus! {

/// Number of resources that the application loads at its start: three fonts
/// and the catalog.
pub const RESOURCES_TO_LOAD: usize = 4;

/// Width of the window at the start.
pub const WINDOW_INITIAL_WIDTH: u32 = 1000;

/// Height of the window at the start.
pub const WINDOW_INITIAL_HEIGHT: u32 = 600;

/// What happened.
#[derive(Debug)]
pub enum Message {
    /// A font was loaded.
    FontLoaded,
    /// The catalog was loaded.
    MetaListLoaded(MaterialFontMetaList),
    /// A category was chosen in the sidebar, or all of them with `None`.
    Category(Option<String>),
    /// The search text was edited.
    Search(String),
    /// The search field got or lost the focus.
    SearchFocusState(bool),
    /// The search field is to be shown or hidden.
    SearchVisibleState(bool),
    /// The grid or the list was chosen.
    GridViewState(bool),
    /// An icon was chosen for the preview, or the preview closed with `None`.
    Codepoint(Option<u32>),
    /// The window has a new width and height.
    WindowResized(u32, u32),
    /// The escape key was pressed.
    EscapePressed,
    /// The key for searching was pressed.
    FindPressed,
    /// The text was copied from the preview, as the given kind of copy.
    Copy(String, CopyType),
    /// The mark that shows a copy has been shown for its time.
    CopyShown,
}

/// What the application is to do after a transition.
#[derive(Debug)]
pub enum Effect {
    /// Nothing.
    Nothing,
    /// Scroll the icons back to their start.
    SnapToStart,
    /// Give the search field the focus.
    FocusSearch,
    /// Send `Message::SearchVisibleState(true)`.
    ShowSearch,
    /// Hand the text to the clipboard.
    WriteClipboard(String),
}

/// An effect as a plain mathematical value.
pub enum EffectModel {
    /// Nothing.
    Nothing,
    /// Scroll the icons back to their start.
    SnapToStart,
    /// Give the search field the focus.
    FocusSearch,
    /// Send the message that shows the search field.
    ShowSearch,
    /// Hand the text to the clipboard.
    WriteClipboard(Seq<char>),
}

impl View for Effect {
    type V = EffectModel;

    open spec fn view(&self) -> EffectModel {
        match self {
            Effect::Nothing => EffectModel::Nothing,
            Effect::SnapToStart => EffectModel::SnapToStart,
            Effect::FocusSearch => EffectModel::FocusSearch,
            Effect::ShowSearch => EffectModel::ShowSearch,
            Effect::WriteClipboard(text) => EffectModel::WriteClipboard(text@),
        }
    }
}

/// The state of the browser as plain mathematical values.
pub struct BrowserModel {
    /// The icons of the catalog.
    pub items: Seq<IconRecord>,
    /// How many resources have been loaded.
    pub loaded_resources: usize,
    /// The selected category and the search text.
    pub query: Query,
    /// Whether the search field is shown.
    pub search_visible: bool,
    /// The code point of the icon in the preview.
    pub codepoint: Option<u32>,
    /// The theme.
    pub theme: CustomTheme,
    /// Whether the icons are shown as a grid.
    pub grid_view: bool,
    /// Width and height of the window.
    pub window_size: (u32, u32),
    /// The kind of copy whose mark is being shown.
    pub copying: Option<CopyType>,
}

/// The state of the browser.
#[derive(Debug)]
pub struct Browser {
    meta_list: MaterialFontMetaList,
    loaded_resources_count: usize,
    query: QueryState,
    search_visible: bool,
    codepoint: Option<u32>,
    custom_theme: CustomTheme,
    grid_view: bool,
    window_size: (u32, u32),
    copying: Option<CopyType>,
}

impl View for Browser {
    type V = BrowserModel;

    closed spec fn view(&self) -> BrowserModel {
        BrowserModel {
            items: self.meta_list@,
            loaded_resources: self.loaded_resources_count,
            query: self.query@,
            search_visible: self.search_visible,
            codepoint: self.codepoint,
            theme: self.custom_theme,
            grid_view: self.grid_view,
            window_size: self.window_size,
            copying: self.copying,
        }
    }
}

/// The state at the start: nothing loaded, nothing selected, the grid in the
/// dark theme.
pub open spec fn initial_state() -> BrowserModel {
    BrowserModel {
        items: Seq::empty(),
        loaded_resources: 0,
        query: Query { selected_category: None, search_text: Seq::empty() },
        search_visible: false,
        codepoint: None,
        theme: CustomTheme::Dark,
        grid_view: true,
        window_size: (WINDOW_INITIAL_WIDTH, WINDOW_INITIAL_HEIGHT),
        copying: None,
    }
}

/// One more loaded resource, as far as the count goes.
pub open spec fn one_more(count: usize) -> usize {
    if count < usize::MAX {
        (count + 1) as usize
    } else {
        count
    }
}

/// `state` with the search field hidden and emptied.
pub open spec fn without_search(state: BrowserModel) -> BrowserModel {
    BrowserModel {
        search_visible: false,
        query: Query { search_text: Seq::empty(), ..state.query },
        ..state
    }
}

/// The state that follows `state` when `message` comes.
pub open spec fn next_state(state: BrowserModel, message: Message) -> BrowserModel {
    match message {
        Message::FontLoaded => BrowserModel {
            loaded_resources: one_more(state.loaded_resources),
            ..state
        },
        Message::MetaListLoaded(list) => BrowserModel {
            items: list@,
            loaded_resources: one_more(state.loaded_resources),
            ..state
        },
        Message::Category(category) => BrowserModel {
            query: Query {
                selected_category: match category {
                    Some(name) => Some(name@),
                    None => None,
                },
                search_text: Seq::empty(),
            },
            search_visible: false,
            codepoint: None,
            ..state
        },
        Message::Search(text) => BrowserModel {
            query: Query { search_text: text@, ..state.query },
            codepoint: None,
            ..state
        },
        Message::SearchFocusState(focused) => if !focused && state.search_visible
            && state.query.search_text.len() == 0 {
            without_search(state)
        } else {
            state
        },
        Message::SearchVisibleState(visible) => if visible {
            BrowserModel { search_visible: true, codepoint: None, ..state }
        } else {
            BrowserModel { codepoint: None, ..without_search(state) }
        },
        Message::GridViewState(grid_view) => BrowserModel {
            grid_view,
            codepoint: None,
            ..without_search(state)
        },
        Message::Codepoint(codepoint) => BrowserModel { codepoint, ..state },
        Message::WindowResized(width, height) => BrowserModel {
            window_size: (width, height),
            ..state
        },
        Message::EscapePressed => if state.codepoint is Some {
            BrowserModel { codepoint: None, ..state }
        } else if state.search_visible {
            without_search(state)
        } else {
            state
        },
        Message::FindPressed => state,
        Message::Copy(_, copy_type) => BrowserModel { copying: Some(copy_type), ..state },
        Message::CopyShown => BrowserModel { copying: None, ..state },
    }
}

/// What the application is to do when `message` comes in `state`.
pub open spec fn effect_of(state: BrowserModel, message: Message) -> EffectModel {
    match message {
        Message::Category(_) => EffectModel::SnapToStart,
        Message::Search(_) => EffectModel::SnapToStart,
        Message::GridViewState(_) => EffectModel::SnapToStart,
        Message::SearchVisibleState(visible) => if visible {
            EffectModel::FocusSearch
        } else {
            EffectModel::Nothing
        },
        Message::FindPressed => if state.search_visible {
            EffectModel::FocusSearch
        } else {
            EffectModel::ShowSearch
        },
        Message::Copy(text, _) => EffectModel::WriteClipboard(text@),
        _ => EffectModel::Nothing,
    }
}

/// Whether a search text is entered in `state`.
pub open spec fn is_searching(state: BrowserModel) -> bool {
    state.query.search_text.len() > 0
}

/// The heading over the icons: that everything is searched, or the name of
/// the selected category with a capital, or that all icons are shown.
pub open spec fn heading_of(state: BrowserModel) -> Seq<char> {
    if is_searching(state) {
        "Search All"@
    } else {
        match state.query.selected_category {
            Some(category) => capitalized(category),
            None => "All"@,
        }
    }
}

/// Whether the search text of `state` is empty while the search field is
/// hidden.
pub open spec fn hidden_search_is_empty(state: BrowserModel) -> bool {
    !state.search_visible ==> state.query.search_text.len() == 0
}

/// A hidden search field stays empty: whatever comes keeps it so, but for an
/// edit of the search text while the field is hidden.
pub proof fn lemma_hidden_search_stays_empty(state: BrowserModel, message: Message)
    requires
        hidden_search_is_empty(state),
        !(message is Search) || state.search_visible,
    ensures
        hidden_search_is_empty(next_state(state, message)),
{
}

/// The escape key closes the preview first and the search field next: after
/// two presses neither is open.
pub proof fn lemma_escape_twice(state: BrowserModel)
    ensures
        ({
            let after = next_state(
                next_state(state, Message::EscapePressed),
                Message::EscapePressed,
            );
            &&& after.codepoint is None
            &&& !after.search_visible
            &&& hidden_search_is_empty(state) ==> after.query.search_text.len() == 0
        }),
{
}

/// Only one copy is marked at a time: a new copy takes the place of the one
/// before, and the end of the showing leaves none.
pub proof fn lemma_one_copy_at_a_time(state: BrowserModel, text: String, copy_type: CopyType)
    ensures
        next_state(state, Message::Copy(text, copy_type)).copying == Some(copy_type),
        next_state(state, Message::CopyShown).copying is None,
{
}

impl Browser {
    /// The browser at its start.
    pub fn new() -> (browser: Self)
        ensures
            browser@ == initial_state(),
    {
        Browser {
            meta_list: MaterialFontMetaList::empty(),
            loaded_resources_count: 0,
            query: QueryState::new(),
            search_visible: false,
            codepoint: None,
            custom_theme: CustomTheme::Dark,
            grid_view: true,
            window_size: (WINDOW_INITIAL_WIDTH, WINDOW_INITIAL_HEIGHT),
            copying: None,
        }
    }

    /// Takes `message` in: the state becomes the one that follows, and the
    /// effect to carry out comes back.
    pub fn update(&mut self, message: Message) -> (effect: Effect)
        ensures
            final(self)@ == next_state(old(self)@, message),
            effect@ == effect_of(old(self)@, message),
    {
        match message {
            Message::FontLoaded => {
                self.count_resource();
                Effect::Nothing
            },
            Message::MetaListLoaded(list) => {
                self.meta_list = list;
                self.count_resource();
                Effect::Nothing
            },
            Message::Category(category) => {
                self.query.selected_category = category;
                self.codepoint = None;
                self.hide_search();
                Effect::SnapToStart
            },
            Message::Search(text) => {
                self.query.search_text = text;
                self.codepoint = None;
                Effect::SnapToStart
            },
            Message::SearchFocusState(focused) => {
                if !focused && self.search_visible && self.query.search_text.as_str().is_empty() {
                    self.hide_search();
                }
                Effect::Nothing
            },
            Message::SearchVisibleState(visible) => {
                self.codepoint = None;
                if visible {
                    self.search_visible = true;
                    Effect::FocusSearch
                } else {
                    self.hide_search();
                    Effect::Nothing
                }
            },
            Message::GridViewState(grid_view) => {
                self.grid_view = grid_view;
                self.codepoint = None;
                self.hide_search();
                Effect::SnapToStart
            },
            Message::Codepoint(codepoint) => {
                self.codepoint = codepoint;
                Effect::Nothing
            },
            Message::WindowResized(width, height) => {
                self.window_size = (width, height);
                Effect::Nothing
            },
            Message::EscapePressed => {
                if self.codepoint.is_some() {
                    self.codepoint = None;
                } else if self.search_visible {
                    self.hide_search();
                }
                Effect::Nothing
            },
            Message::FindPressed => {
                if self.search_visible {
                    Effect::FocusSearch
                } else {
                    Effect::ShowSearch
                }
            },
            Message::Copy(text, copy_type) => {
                self.copying = Some(copy_type);
                Effect::WriteClipboard(text)
            },
            Message::CopyShown => {
                self.copying = None;
                Effect::Nothing
            },
        }
    }

    /// Counts one more loaded resource.
    fn count_resource(&mut self)
        ensures
            final(self)@ == (BrowserModel {
                loaded_resources: one_more(old(self)@.loaded_resources),
                ..old(self)@
            }),
    {
        if self.loaded_resources_count < usize::MAX {
            self.loaded_resources_count = self.loaded_resources_count + 1;
        }
    }

    /// Hides the search field and empties it.
    fn hide_search(&mut self)
        ensures
            final(self)@ == without_search(old(self)@),
    {
        self.search_visible = false;
        self.query.search_text = String::new();
    }

    /// The catalog.
    pub fn meta_list(&self) -> (list: &MaterialFontMetaList)
        ensures
            list@ == self@.items,
    {
        &self.meta_list
    }

    /// The selected category and the search text.
    pub fn query(&self) -> (query: &QueryState)
        ensures
            query@ == self@.query,
    {
        &self.query
    }

    /// Whether the search field is shown.
    pub fn search_visible(&self) -> (visible: bool)
        ensures
            visible == self@.search_visible,
    {
        self.search_visible
    }

    /// The code point of the icon in the preview.
    pub fn codepoint(&self) -> (codepoint: Option<u32>)
        ensures
            codepoint == self@.codepoint,
    {
        self.codepoint
    }

    /// The theme.
    pub fn custom_theme(&self) -> (theme: CustomTheme)
        ensures
            theme == self@.theme,
    {
        self.custom_theme
    }

    /// Whether the icons are shown as a grid.
    pub fn grid_view(&self) -> (grid_view: bool)
        ensures
            grid_view == self@.grid_view,
    {
        self.grid_view
    }

    /// Width and height of the window.
    pub fn window_size(&self) -> (size: (u32, u32))
        ensures
            size == self@.window_size,
    {
        self.window_size
    }

    /// The kind of copy whose mark is being shown.
    pub fn copying(&self) -> (copying: Option<CopyType>)
        ensures
            copying == self@.copying,
    {
        self.copying
    }

    /// Whether the application needs the ticks of the timer that ends the
    /// showing of a copy: only while one is shown.
    pub fn needs_ticks(&self) -> (needed: bool)
        ensures
            needed == (self@.copying is Some),
    {
        self.copying.is_some()
    }

    /// Whether a search text is entered.
    pub fn is_searching(&self) -> (searching: bool)
        ensures
            searching == is_searching(self@),
    {
        !self.query.search_text.as_str().is_empty()
    }

    /// Whether the sidebar marks `category`: it is the selected one, and no
    /// search text is entered.
    pub fn marks_category(&self, category: &String) -> (marked: bool)
        ensures
            marked == (!is_searching(self@) && self@.query.selected_category == Some(
                category@,
            )),
    {
        if self.is_searching() {
            return false;
        }
        match &self.query.selected_category {
            Some(selected) => *selected == *category,
            None => false,
        }
    }

    /// Whether the sidebar marks the entry for all icons: no category is
    /// selected, or a search text is entered.
    pub fn marks_all(&self) -> (marked: bool)
        ensures
            marked == (is_searching(self@) || self@.query.selected_category is None),
    {
        self.is_searching() || self.query.selected_category.is_none()
    }

    /// The heading over the icons.
    pub fn heading(&self) -> (heading: String)
        ensures
            heading@ == heading_of(self@),
    {
        if self.is_searching() {
            "Search All".to_owned()
        } else {
            match &self.query.selected_category {
                Some(category) => capitalized_string(category.as_str()),
                None => "All".to_owned(),
            }
        }
    }

    /// Whether `item` is the icon in the preview, as far as its code point
    /// tells.
    pub fn is_selected(&self, item: &MaterialFontMeta) -> (selected: bool)
        ensures
            selected == (self@.codepoint == Some(item@.codepoint)),
    {
        match self.codepoint {
            Some(codepoint) => item.codepoint() == codepoint,
            None => false,
        }
    }

    /// Whether everything that the application loads at its start is there.
    pub fn are_resources_loaded(&self) -> (loaded: bool)
        ensures
            loaded == (self@.loaded_resources == RESOURCES_TO_LOAD),
    {
        self.loaded_resources_count == RESOURCES_TO_LOAD
    }

    /// The number of icons in a row of the grid: the preview is open while an
    /// icon is chosen.
    pub fn get_items_per_row(&self) -> (per_row: usize)
        ensures
            per_row == items_per_row(self@.window_size.0, self@.codepoint is Some),
            2 <= per_row <= 8,
    {
        get_items_per_row(self.window_size.0, self.codepoint.is_some())
    }

    /// Whether `item` is shown.
    pub fn filter_item(&self, item: &MaterialFontMeta) -> (visible: bool)
        ensures
            visible == is_shown(item@, self@.query),
    {
        filter_item(item, &self.query)
    }

    /// The icons that are shown, in the order of the catalog.
    pub fn visible_items(&self) -> (visible: Vec<&MaterialFontMeta>)
        ensures
            referred(visible@) == shown(self@.items, self@.query),
    {
        visible_items(&self.meta_list, &self.query)
    }

    /// The number of icons that are shown.
    pub fn visible_count(&self) -> (count: usize)
        ensures
            count == shown(self@.items, self@.query).len(),
    {
        visible_count(&self.meta_list, &self.query)
    }

    /// The icon in the preview: the first of the catalog with the chosen code
    /// point. `None` where no icon is chosen, or the catalog has none with
    /// that code point.
    pub fn selected_item(&self) -> (selected: Option<&MaterialFontMeta>)
        ensures
            match selected {
                Some(item) => self@.codepoint is Some && exists|at: int|
                    is_first_with(self@.items, self@.codepoint->0, at) && item@
                        == self@.items[at],
                None => self@.codepoint is None || forall|i: int|
                    0 <= i < self@.items.len() ==> (#[trigger] self@.items[i]).codepoint
                        != self@.codepoint->0,
            },
    {
        match self.codepoint {
            Some(codepoint) => self.meta_list.get_item(codepoint),
            None => None,
        }
    }
}

impl Default for Browser {
    fn default() -> (browser: Self)
        ensures
            browser@ == initial_state(),
    {
        Browser::new()
    }
}

} // verus!
