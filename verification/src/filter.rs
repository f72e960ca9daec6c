//! Which icons of the catalog are shown: those of the selected category, or,
//! while a search text is entered, those that the text finds anywhere in the
//! catalog.

use vstd::prelude::*;
use vstd::string::*;
use crate::models::{
    records, searched_hex_width, IconRecord, MaterialFontMeta, MaterialFontMetaList,
};
use crate::text::{hex_digits, parsed_u32, starts_with};

verus! {

/// What the user asks to see, as plain mathematical values.
pub struct Query {
    /// The category to show, where one is selected.
    pub selected_category: Option<Seq<char>>,
    /// The text searched for; empty where nothing is searched.
    pub search_text: Seq<char>,
}

/// What the user asks to see.
#[derive(Debug)]
pub struct QueryState {
    /// The category to show, where one is selected.
    pub selected_category: Option<String>,
    /// The text searched for; empty where nothing is searched.
    pub search_text: String,
}

impl View for QueryState {
    type V = Query;

    open spec fn view(&self) -> Query {
        Query {
            selected_category: match self.selected_category {
                Some(category) => Some(category@),
                None => None,
            },
            search_text: self.search_text@,
        }
    }
}

/// The query that asks for everything: no category, no search text.
pub open spec fn empty_query() -> Query {
    Query { selected_category: None, search_text: Seq::empty() }
}

/// Whether the search text `text` finds `item`: by the beginning of its
/// name, by one of its tags in full, by the end of its code point written
/// with eight hexadecimal digits, or by its code point as a decimal numeral.
pub open spec fn search_finds(item: IconRecord, text: Seq<char>) -> bool {
    ||| text.is_prefix_of(item.name)
    ||| item.tags.contains(text)
    ||| text.is_suffix_of(hex_digits(item.codepoint as nat, searched_hex_width()))
    ||| parsed_u32(text) == Some(item.codepoint)
}

/// Whether `item` is shown under `query`. A search text goes through the
/// whole catalog, whatever category is selected; without one, the selected
/// category decides, and no selection shows every icon.
pub open spec fn is_shown(item: IconRecord, query: Query) -> bool {
    if query.search_text.len() == 0 {
        match query.selected_category {
            Some(category) => item.categories.contains(category),
            None => true,
        }
    } else {
        search_finds(item, query.search_text)
    }
}

/// The items of `items` that are shown under `query`, in their order.
pub open spec fn shown(items: Seq<IconRecord>, query: Query) -> Seq<IconRecord> {
    items.filter(|item: IconRecord| is_shown(item, query))
}

/// The records of the icons that `items` refer to.
pub open spec fn referred(items: Seq<&MaterialFontMeta>) -> Seq<IconRecord> {
    items.map_values(|item: &MaterialFontMeta| item@)
}

/// Every icon is shown under the empty query, and so the whole catalog.
pub proof fn lemma_empty_query_shows_all(items: Seq<IconRecord>)
    ensures
        forall|item: IconRecord| is_shown(item, empty_query()),
        shown(items, empty_query()) == items,
    decreases items.len(),
{
    reveal(Seq::filter);
    if items.len() > 0 {
        lemma_empty_query_shows_all(items.drop_last());
        assert(items.drop_last().push(items.last()) =~= items);
    }
}

/// While a search text is entered, the selected category makes no
/// difference to what is shown.
pub proof fn lemma_search_ignores_category(
    item: IconRecord,
    text: Seq<char>,
    first: Option<Seq<char>>,
    second: Option<Seq<char>>,
)
    requires
        text.len() > 0,
    ensures
        is_shown(item, Query { selected_category: first, search_text: text }) == is_shown(
            item,
            Query { selected_category: second, search_text: text },
        ),
        is_shown(item, Query { selected_category: first, search_text: text }) == search_finds(
            item,
            text,
        ),
{
}

/// What is shown are items of the catalog that the query shows, and no more
/// of them than the catalog holds.
pub proof fn lemma_shown_are_items(items: Seq<IconRecord>, query: Query)
    ensures
        shown(items, query).len() <= items.len(),
        forall|i: int|
            0 <= i < shown(items, query).len() ==> is_shown(
                #[trigger] shown(items, query)[i],
                query,
            ) && items.contains(shown(items, query)[i]),
        forall|i: int|
            0 <= i < items.len() && is_shown(#[trigger] items[i], query) ==> shown(
                items,
                query,
            ).contains(items[i]),
{
    let pred = |item: IconRecord| is_shown(item, query);
    items.lemma_filter_len(pred);
    assert forall|i: int| 0 <= i < shown(items, query).len() implies is_shown(
        #[trigger] shown(items, query)[i],
        query,
    ) && items.contains(shown(items, query)[i]) by {
        items.lemma_filter_pred(pred, i);
        assert(shown(items, query).contains(shown(items, query)[i]));
        items.lemma_filter_contains_rev(pred, shown(items, query)[i]);
    }
    assert forall|i: int| 0 <= i < items.len() && is_shown(#[trigger] items[i], query) implies shown(
        items,
        query,
    ).contains(items[i]) by {
        items.lemma_filter_contains(pred, i);
    }
}

/// What is shown of one more item: the item itself after what was shown
/// before, where it is shown.
proof fn lemma_shown_step(items: Seq<IconRecord>, n: int, query: Query)
    requires
        0 <= n < items.len(),
    ensures
        shown(items.take(n + 1), query) == if is_shown(items[n], query) {
            shown(items.take(n), query).push(items[n])
        } else {
            shown(items.take(n), query)
        },
{
    reveal(Seq::filter);
    assert(items.take(n + 1).drop_last() =~= items.take(n));
}

impl QueryState {
    /// The query that asks for everything.
    pub fn new() -> (query: Self)
        ensures
            query@ == empty_query(),
    {
        QueryState { selected_category: None, search_text: String::new() }
    }
}

/// Whether `item` is shown under `query`.
pub fn filter_item(item: &MaterialFontMeta, query: &QueryState) -> (visible: bool)
    ensures
        visible == is_shown(item@, query@),
{
    if query.search_text.as_str().is_empty() {
        match &query.selected_category {
            Some(category) => item.contains_category(category),
            None => true,
        }
    } else {
        starts_with(item.name().as_str(), query.search_text.as_str()) || item.contains_tag(
            &query.search_text,
        ) || item.matches_hex_codepoint(&query.search_text) || item.matches_codepoint(
            &query.search_text,
        )
    }
}

/// The icons of `list` that are shown under `query`, in the order of the
/// catalog.
pub fn visible_items<'a>(list: &'a MaterialFontMetaList, query: &QueryState) -> (visible: Vec<
    &'a MaterialFontMeta,
>)
    ensures
        referred(visible@) == shown(list@, query@),
{
    let items = list.items();
    let mut visible: Vec<&'a MaterialFontMeta> = Vec::new();
    let mut i: usize = 0;
    assert(list@.take(0) =~= Seq::<IconRecord>::empty());
    while i < items.len()
        invariant
            i <= items@.len(),
            records(items@) == list@,
            referred(visible@) == shown(list@.take(i as int), query@),
        decreases items@.len() - i,
    {
        proof {
            lemma_shown_step(list@, i as int, query@);
        }
        if filter_item(&items[i], query) {
            let ghost before = referred(visible@);
            visible.push(&items[i]);
            assert(referred(visible@) =~= before.push(items@[i as int]@));
        }
        i += 1;
    }
    assert(list@.take(i as int) =~= list@);
    visible
}

/// The number of icons of `list` that are shown under `query`.
pub fn visible_count(list: &MaterialFontMetaList, query: &QueryState) -> (count: usize)
    ensures
        count == shown(list@, query@).len(),
{
    let items = list.items();
    let mut count: usize = 0;
    let mut i: usize = 0;
    assert(list@.take(0) =~= Seq::<IconRecord>::empty());
    while i < items.len()
        invariant
            i <= items@.len(),
            records(items@) == list@,
            count == shown(list@.take(i as int), query@).len(),
            count <= i,
        decreases items@.len() - i,
    {
        proof {
            lemma_shown_step(list@, i as int, query@);
        }
        if filter_item(&items[i], query) {
            count += 1;
        }
        i += 1;
    }
    assert(list@.take(i as int) =~= list@);
    count
}

} // verus!
