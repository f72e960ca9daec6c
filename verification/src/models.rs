//! The catalog: icon records, and the list of them with its category index.

use vstd::prelude::*;
use vstd::string::*;
use vstd::utf8::is_scalar;
use crate::text::{
    clone_texts, compare, contains_text, ends_with, hex_digits, hex_text, lemma_lex_asymmetric,
    lemma_lex_total, lemma_lex_transitive, lex_less, parse_u32, parsed_u32, texts, TextOrder,
};

verus! {

/// What an icon record holds, as plain mathematical values.
pub struct IconRecord {
    /// The name by which the icon is shown and found.
    pub name: Seq<char>,
    /// The code point of the glyph.
    pub codepoint: u32,
    /// The categories that the icon belongs to.
    pub categories: Seq<Seq<char>>,
    /// The tags under which the icon is found.
    pub tags: Seq<Seq<char>>,
    /// How often the icon is used, where the catalog says so.
    pub popularity: Option<u64>,
}

/// One icon of the catalog. It does not change once it is made.
#[derive(Debug)]
pub struct MaterialFontMeta {
    name: String,
    codepoint: u32,
    categories: Vec<String>,
    tags: Vec<String>,
    popularity: Option<u64>,
}

impl View for MaterialFontMeta {
    type V = IconRecord;

    closed spec fn view(&self) -> IconRecord {
        IconRecord {
            name: self.name@,
            codepoint: self.codepoint,
            categories: texts(self.categories@),
            tags: texts(self.tags@),
            popularity: self.popularity,
        }
    }
}

impl Clone for MaterialFontMeta {
    fn clone(&self) -> (copy: Self)
        ensures
            copy@ == self@,
    {
        MaterialFontMeta {
            name: self.name.clone(),
            codepoint: self.codepoint,
            categories: clone_texts(&self.categories),
            tags: clone_texts(&self.tags),
            popularity: self.popularity,
        }
    }
}

/// Number of digits with which a code point is shown in hexadecimal: four, or
/// as many as the code point needs where four are too few.
pub open spec fn shown_hex_width(codepoint: u32) -> nat {
    if codepoint < 0x1_0000 {
        4
    } else if codepoint < 0x10_0000 {
        5
    } else if codepoint < 0x100_0000 {
        6
    } else if codepoint < 0x1000_0000 {
        7
    } else {
        8
    }
}

/// Number of hexadecimal digits against which a search text is held.
pub open spec fn searched_hex_width() -> nat {
    8
}

impl MaterialFontMeta {
    /// An icon record of the given parts. They are taken as they are: the
    /// name may be empty, and the code point need not be a character.
    pub fn new(
        name: String,
        codepoint: u32,
        categories: Vec<String>,
        tags: Vec<String>,
        popularity: Option<u64>,
    ) -> (item: Self)
        ensures
            item@ == (IconRecord {
                name: name@,
                codepoint,
                categories: texts(categories@),
                tags: texts(tags@),
                popularity,
            }),
    {
        MaterialFontMeta { name, codepoint, categories, tags, popularity }
    }

    /// The name of the icon.
    pub fn name(&self) -> (name: &String)
        ensures
            name@ == self@.name,
    {
        &self.name
    }

    /// The code point of the glyph.
    pub fn codepoint(&self) -> (codepoint: u32)
        ensures
            codepoint == self@.codepoint,
    {
        self.codepoint
    }

    /// The categories of the icon, as the catalog lists them.
    pub fn categories(&self) -> (categories: &Vec<String>)
        ensures
            texts(categories@) == self@.categories,
    {
        &self.categories
    }

    /// The tags of the icon, as the catalog lists them.
    pub fn tags(&self) -> (tags: &Vec<String>)
        ensures
            texts(tags@) == self@.tags,
    {
        &self.tags
    }

    /// The popularity of the icon, where the catalog gives one.
    pub fn popularity(&self) -> (popularity: Option<u64>)
        ensures
            popularity == self@.popularity,
    {
        self.popularity
    }

    /// Whether the code point is a Unicode scalar value, so that the glyph
    /// can be shown as a character.
    pub fn is_displayable(&self) -> (displayable: bool)
        ensures
            displayable == is_scalar(self@.codepoint),
    {
        self.codepoint <= 0xD7FF || (0xE000 <= self.codepoint && self.codepoint <= 0x10_FFFF)
    }

    /// The glyph as a character.
    pub fn to_char(&self) -> (glyph: char)
        requires
            is_scalar(self@.codepoint),
        ensures
            glyph as u32 == self@.codepoint,
    {
        char::from_u32(self.codepoint).unwrap()
    }

    /// The code point in lowercase hexadecimal, with zeros in front up to
    /// four digits.
    pub fn to_hex_codepoint(&self) -> (text: String)
        ensures
            text@ == hex_digits(self@.codepoint as nat, shown_hex_width(self@.codepoint)),
    {
        let width: usize = if self.codepoint < 0x1_0000 {
            4
        } else if self.codepoint < 0x10_0000 {
            5
        } else if self.codepoint < 0x100_0000 {
            6
        } else if self.codepoint < 0x1000_0000 {
            7
        } else {
            8
        };
        hex_text(self.codepoint, width)
    }

    /// Whether `category` is one of the categories of the icon.
    pub fn contains_category(&self, category: &String) -> (found: bool)
        ensures
            found == self@.categories.contains(category@),
    {
        contains_text(&self.categories, category)
    }

    /// Whether `tag` is one of the tags of the icon.
    pub fn contains_tag(&self, tag: &String) -> (found: bool)
        ensures
            found == self@.tags.contains(tag@),
    {
        contains_text(&self.tags, tag)
    }

    /// Whether the code point, written with eight hexadecimal digits, ends
    /// with `codepoint`.
    pub fn matches_hex_codepoint(&self, codepoint: &String) -> (found: bool)
        ensures
            found == codepoint@.is_suffix_of(
                hex_digits(self@.codepoint as nat, searched_hex_width()),
            ),
    {
        let digits = hex_text(self.codepoint, 8);
        ends_with(digits.as_str(), codepoint.as_str())
    }

    /// Whether `codepoint` is a decimal numeral of the code point.
    pub fn matches_codepoint(&self, codepoint: &String) -> (found: bool)
        ensures
            found == (parsed_u32(codepoint@) == Some(self@.codepoint)),
    {
        match parse_u32(codepoint.as_str()) {
            Some(number) => number == self.codepoint,
            None => false,
        }
    }
}

/// The records held by `items`.
pub open spec fn records(items: Seq<MaterialFontMeta>) -> Seq<IconRecord> {
    items.map_values(|item: MaterialFontMeta| item@)
}

/// Whether some item of `items` belongs to `category`.
pub open spec fn names_category(items: Seq<IconRecord>, category: Seq<char>) -> bool {
    exists|i: int| 0 <= i < items.len() && (#[trigger] items[i]).categories.contains(category)
}

/// Whether `list` is in dictionary order, each text once.
pub open spec fn is_strictly_sorted(list: Seq<Seq<char>>) -> bool {
    forall|i: int, j: int| 0 <= i < j < list.len() ==> lex_less(list[i], list[j])
}

/// Whether `categories` is the category index of `items`: the categories
/// that the items name, in dictionary order, each once.
pub open spec fn is_category_index(items: Seq<IconRecord>, categories: Seq<Seq<char>>) -> bool {
    &&& is_strictly_sorted(categories)
    &&& forall|category: Seq<char>| #[trigger]
        categories.contains(category) <==> names_category(items, category)
}

/// Whether every item of `items` carries a popularity.
pub open spec fn all_rated(items: Seq<IconRecord>) -> bool {
    forall|i: int| 0 <= i < items.len() ==> (#[trigger] items[i]).popularity is Some
}

/// The popularity of `item`, 0 where it carries none.
pub open spec fn rating(item: IconRecord) -> u64 {
    match item.popularity {
        Some(popularity) => popularity,
        None => 0,
    }
}

/// Whether item `k` is a member of `category` that no member exceeds in
/// popularity.
pub open spec fn is_most_popular(items: Seq<IconRecord>, category: Seq<char>, k: int) -> bool {
    &&& 0 <= k < items.len()
    &&& items[k].categories.contains(category)
    &&& forall|j: int|
        0 <= j < items.len() && (#[trigger] items[j]).categories.contains(category) ==> rating(
            items[j],
        ) <= rating(items[k])
}

/// Whether item `k` stands for `category`: it is most popular in it, and the
/// last of those that are.
pub closed spec fn is_representative(items: Seq<IconRecord>, category: Seq<char>, k: int) -> bool {
    &&& is_most_popular(items, category, k)
    &&& forall|j: int|
        k < j < items.len() && (#[trigger] items[j]).categories.contains(category) ==> rating(
            items[j],
        ) < rating(items[k])
}

/// The position of the item that stands for `category`.
pub closed spec fn representative_index(items: Seq<IconRecord>, category: Seq<char>) -> int {
    choose|k: int| is_representative(items, category, k)
}

/// The code points that stand for `categories`, one for each and in their
/// order; none at all where an item carries no popularity.
pub open spec fn representatives(items: Seq<IconRecord>, categories: Seq<Seq<char>>) -> Seq<u32> {
    if all_rated(items) {
        Seq::new(
            categories.len(),
            |i: int| items[representative_index(items, categories[i])].codepoint,
        )
    } else {
        Seq::empty()
    }
}

/// One item only stands for a category.
proof fn lemma_representative_unique(items: Seq<IconRecord>, category: Seq<char>, k: int)
    requires
        is_representative(items, category, k),
    ensures
        representative_index(items, category) == k,
{
    let other = representative_index(items, category);
    assert(is_representative(items, category, other));
    if other < k {
        assert(rating(items[k]) < rating(items[other]));
    } else if k < other {
        assert(rating(items[other]) < rating(items[k]));
    }
}

/// The item that stands for a category which some item names is a member of
/// the category, and no member is more popular.
pub proof fn lemma_representative_is_most_popular(items: Seq<IconRecord>, category: Seq<char>)
    requires
        names_category(items, category),
    ensures
        is_most_popular(items, category, representative_index(items, category)),
{
    assert(items.take(items.len() as int) =~= items);
    let k = last_most_popular(items, category, items.len() as int);
    assert(is_representative(items, category, k));
}

/// The last most popular member of `category` among the first `n` items.
proof fn last_most_popular(items: Seq<IconRecord>, category: Seq<char>, n: int) -> (k: int)
    requires
        0 <= n <= items.len(),
        names_category(items.take(n), category),
    ensures
        is_representative(items.take(n), category, k),
    decreases n,
{
    let front = items.take(n);
    let witness = choose|i: int| 0 <= i < front.len() && (#[trigger] front[i]).categories.contains(category);
    let shorter = items.take(n - 1);
    assert(shorter =~= front.take(n - 1));
    if exists|i: int| 0 <= i < n - 1 && (#[trigger] shorter[i]).categories.contains(category) {
        let before = last_most_popular(items, category, n - 1);
        assert forall|j: int| 0 <= j < n - 1 implies front[j] == shorter[j] by {}
        if front[n - 1].categories.contains(category) && rating(front[before]) <= rating(front[n - 1]) {
            assert forall|j: int|
                0 <= j < front.len() && (#[trigger] front[j]).categories.contains(category) implies rating(front[j])
                <= rating(front[n - 1]) by {
                if j < n - 1 {
                    assert(shorter[j].categories.contains(category));
                }
            }
            n - 1
        } else {
            assert forall|j: int|
                0 <= j < front.len() && (#[trigger] front[j]).categories.contains(category) implies rating(front[j])
                <= rating(front[before]) by {
                if j < n - 1 {
                    assert(shorter[j].categories.contains(category));
                }
            }
            assert forall|j: int|
                before < j < front.len() && (#[trigger] front[j]).categories.contains(category) implies rating(front[j])
                < rating(front[before]) by {
                if j < n - 1 {
                    assert(shorter[j].categories.contains(category));
                }
            }
            before
        }
    } else {
        assert(witness == n - 1);
        assert forall|j: int|
            0 <= j < front.len() && (#[trigger] front[j]).categories.contains(category) implies j == n - 1 by {
            if j < n - 1 {
                assert(shorter[j].categories.contains(category));
            }
        }
        n - 1
    }
}

/// Two lists in dictionary order, each text once, that hold the same texts
/// are the same list.
pub proof fn lemma_strictly_sorted_unique(a: Seq<Seq<char>>, b: Seq<Seq<char>>)
    requires
        is_strictly_sorted(a),
        is_strictly_sorted(b),
        forall|text: Seq<char>| a.contains(text) <==> b.contains(text),
    ensures
        a == b,
    decreases a.len(),
{
    if a.len() == 0 {
        if b.len() > 0 {
            assert(b.contains(b[0]));
        }
        assert(a =~= b);
    } else {
        assert(a.contains(a[0]));
        assert(b.contains(a[0]));
        assert(b.contains(b[0]));
        assert(a.contains(b[0]));
        let i = choose|i: int| 0 <= i < a.len() && a[i] == b[0];
        let j = choose|j: int| 0 <= j < b.len() && b[j] == a[0];
        if i > 0 && j > 0 {
            lemma_lex_asymmetric(a[0], b[0]);
        }
        assert(a[0] == b[0]);
        let rest_a = a.drop_first();
        let rest_b = b.drop_first();
        assert forall|text: Seq<char>| rest_a.contains(text) <==> rest_b.contains(text) by {
            if rest_a.contains(text) {
                let m = choose|m: int| 0 <= m < rest_a.len() && rest_a[m] == text;
                assert(a[m + 1] == text);
                assert(a.contains(text));
                let n = choose|n: int| 0 <= n < b.len() && b[n] == text;
                if n == 0 {
                    lemma_lex_asymmetric(a[0], a[m + 1]);
                }
                assert(rest_b[n - 1] == text);
            }
            if rest_b.contains(text) {
                let m = choose|m: int| 0 <= m < rest_b.len() && rest_b[m] == text;
                assert(b[m + 1] == text);
                assert(b.contains(text));
                let n = choose|n: int| 0 <= n < a.len() && a[n] == text;
                if n == 0 {
                    lemma_lex_asymmetric(b[0], b[m + 1]);
                }
                assert(rest_a[n - 1] == text);
            }
        }
        assert forall|m: int, n: int| 0 <= m < n < rest_a.len() implies lex_less(rest_a[m], rest_a[n]) by {
            assert(lex_less(a[m + 1], a[n + 1]));
        }
        assert forall|m: int, n: int| 0 <= m < n < rest_b.len() implies lex_less(rest_b[m], rest_b[n]) by {
            assert(lex_less(b[m + 1], b[n + 1]));
        }
        lemma_strictly_sorted_unique(rest_a, rest_b);
        assert(a =~= seq![a[0]] + rest_a);
        assert(b =~= seq![b[0]] + rest_b);
    }
}

/// The category index of `items`: the categories that the items name, in
/// dictionary order, each once.
pub open spec fn category_index(items: Seq<IconRecord>) -> Seq<Seq<char>> {
    choose|categories: Seq<Seq<char>>| is_category_index(items, categories)
}

/// A list that is a category index of `items` is the category index of them.
pub proof fn lemma_category_index_unique(items: Seq<IconRecord>, categories: Seq<Seq<char>>)
    requires
        is_category_index(items, categories),
    ensures
        category_index(items) == categories,
{
    let chosen = category_index(items);
    assert(is_category_index(items, chosen));
    assert forall|text: Seq<char>| chosen.contains(text) <==> categories.contains(text) by {
        assert(chosen.contains(text) <==> names_category(items, text));
        assert(categories.contains(text) <==> names_category(items, text));
    }
    lemma_strictly_sorted_unique(chosen, categories);
}

/// Without items there are no categories, and no code points that stand for
/// them.
pub proof fn lemma_empty_catalog()
    ensures
        category_index(Seq::<IconRecord>::empty()) == Seq::<Seq<char>>::empty(),
        representatives(Seq::<IconRecord>::empty(), Seq::<Seq<char>>::empty()) == Seq::<
            u32,
        >::empty(),
{
    let items = Seq::<IconRecord>::empty();
    let none = Seq::<Seq<char>>::empty();
    assert(is_category_index(items, none));
    lemma_category_index_unique(items, none);
    assert(representatives(items, none) =~= Seq::<u32>::empty());
}

/// A list in dictionary order that holds `text` besides the texts of `list`.
proof fn sorted_with(list: Seq<Seq<char>>, text: Seq<char>) -> (longer: Seq<Seq<char>>)
    requires
        is_strictly_sorted(list),
    ensures
        is_strictly_sorted(longer),
        forall|other: Seq<char>| #[trigger]
            longer.contains(other) <==> (list.contains(other) || other == text),
    decreases list.len(),
{
    if list.len() == 0 {
        let longer = seq![text];
        assert(longer[0] == text);
        longer
    } else if list.last() == text {
        assert(list.contains(text));
        list
    } else if lex_less(list.last(), text) {
        let longer = list.push(text);
        assert forall|i: int, j: int| 0 <= i < j < longer.len() implies lex_less(
            longer[i],
            longer[j],
        ) by {
            if j == list.len() && i < list.len() - 1 {
                assert(lex_less(list[i], list[list.len() - 1]));
                lemma_lex_transitive(list[i], list.last(), text);
            }
        }
        assert forall|other: Seq<char>| #[trigger]
            longer.contains(other) <==> (list.contains(other) || other == text) by {
            if longer.contains(other) {
                let i = choose|i: int| 0 <= i < longer.len() && longer[i] == other;
                if i < list.len() {
                    assert(list[i] == other);
                }
            }
            if list.contains(other) {
                let i = choose|i: int| 0 <= i < list.len() && list[i] == other;
                assert(longer[i] == other);
            }
            if other == text {
                assert(longer[list.len() as int] == other);
            }
        }
        longer
    } else {
        lemma_lex_total(list.last(), text);
        let front = list.drop_last();
        assert forall|i: int, j: int| 0 <= i < j < front.len() implies lex_less(
            front[i],
            front[j],
        ) by {
            assert(lex_less(list[i], list[j]));
        }
        let shorter = sorted_with(front, text);
        let longer = shorter.push(list.last());
        assert forall|i: int, j: int| 0 <= i < j < longer.len() implies lex_less(
            longer[i],
            longer[j],
        ) by {
            if j == shorter.len() {
                assert(shorter.contains(shorter[i]));
                if shorter[i] != text {
                    let m = choose|m: int| 0 <= m < front.len() && front[m] == shorter[i];
                    assert(lex_less(list[m], list[list.len() - 1]));
                }
            } else {
                assert(lex_less(shorter[i], shorter[j]));
            }
        }
        assert forall|other: Seq<char>| #[trigger]
            longer.contains(other) <==> (list.contains(other) || other == text) by {
            if longer.contains(other) {
                let i = choose|i: int| 0 <= i < longer.len() && longer[i] == other;
                if i < shorter.len() {
                    assert(shorter.contains(other));
                    if other != text {
                        let m = choose|m: int| 0 <= m < front.len() && front[m] == other;
                        assert(list[m] == other);
                    }
                } else {
                    assert(list[list.len() - 1] == other);
                }
            }
            if list.contains(other) {
                let i = choose|i: int| 0 <= i < list.len() && list[i] == other;
                if i < front.len() {
                    assert(front[i] == other);
                    assert(front.contains(other));
                    assert(shorter.contains(other));
                    let m = choose|m: int| 0 <= m < shorter.len() && shorter[m] == other;
                    assert(longer[m] == other);
                } else {
                    assert(longer[shorter.len() as int] == other);
                }
            }
            if other == text {
                assert(shorter.contains(other));
                let m = choose|m: int| 0 <= m < shorter.len() && shorter[m] == other;
                assert(longer[m] == other);
            }
        }
        longer
    }
}

/// A list in dictionary order that holds the first `n` of `more` besides the
/// texts of `list`.
proof fn sorted_with_all(list: Seq<Seq<char>>, more: Seq<Seq<char>>, n: int) -> (longer: Seq<
    Seq<char>,
>)
    requires
        is_strictly_sorted(list),
        0 <= n <= more.len(),
    ensures
        is_strictly_sorted(longer),
        forall|other: Seq<char>| #[trigger]
            longer.contains(other) <==> (list.contains(other) || more.take(n).contains(other)),
    decreases n,
{
    if n == 0 {
        assert(more.take(0).len() == 0);
        list
    } else {
        let shorter = sorted_with_all(list, more, n - 1);
        let longer = sorted_with(shorter, more[n - 1]);
        assert forall|other: Seq<char>| #[trigger]
            longer.contains(other) <==> (list.contains(other) || more.take(n).contains(other)) by {
            let front = more.take(n - 1);
            let whole = more.take(n);
            assert(shorter.contains(other) <==> (list.contains(other) || front.contains(other)));
            assert(whole[n - 1] == more[n - 1]);
            if front.contains(other) {
                let m = choose|m: int| 0 <= m < front.len() && front[m] == other;
                assert(whole[m] == other);
            }
            if whole.contains(other) {
                let m = choose|m: int| 0 <= m < whole.len() && whole[m] == other;
                if m < n - 1 {
                    assert(front[m] == other);
                }
            }
        }
        longer
    }
}

/// A category index of the first `n` of `items`.
proof fn index_of_first(items: Seq<IconRecord>, n: int) -> (categories: Seq<Seq<char>>)
    requires
        0 <= n <= items.len(),
    ensures
        is_category_index(items.take(n), categories),
    decreases n,
{
    if n == 0 {
        let categories = Seq::<Seq<char>>::empty();
        assert(items.take(0).len() == 0);
        categories
    } else {
        let shorter = index_of_first(items, n - 1);
        let own = items[n - 1].categories;
        let categories = sorted_with_all(shorter, own, own.len() as int);
        assert(own.take(own.len() as int) =~= own);
        assert forall|category: Seq<char>| #[trigger]
            categories.contains(category) <==> names_category(items.take(n), category) by {
            assert(shorter.contains(category) <==> names_category(items.take(n - 1), category));
            lemma_names_category_step(items, n - 1, category);
        }
        categories
    }
}

/// Every catalog has a category index, and one only.
pub proof fn lemma_category_index_exists(items: Seq<IconRecord>)
    ensures
        is_category_index(items, category_index(items)),
{
    let categories = index_of_first(items, items.len() as int);
    assert(items.take(items.len() as int) =~= items);
    lemma_category_index_unique(items, categories);
}

/// Puts `text` at its place in `list`, unless `list` holds it already.
fn insert_sorted(list: &mut Vec<String>, text: &String)
    requires
        is_strictly_sorted(texts(old(list)@)),
    ensures
        is_strictly_sorted(texts(final(list)@)),
        forall|other: Seq<char>| #[trigger]
            texts(final(list)@).contains(other) <==> (texts(old(list)@).contains(other) || other
                == text@),
{
    let ghost before = texts(list@);
    let mut at: usize = 0;
    while at < list.len()
        invariant
            at <= list@.len(),
            list@ == old(list)@,
            before == texts(list@),
            is_strictly_sorted(before),
            forall|i: int| 0 <= i < at ==> lex_less(before[i], text@),
        ensures
            at < list@.len() ==> lex_less(text@, before[at as int]),
        decreases list@.len() - at,
    {
        match compare(list[at].as_str(), text.as_str()) {
            TextOrder::Before => {
                at += 1;
            },
            TextOrder::Same => {
                assert(before[at as int] == text@);
                return ;
            },
            TextOrder::After => {
                break ;
            },
        }
    }
    list.insert(at, text.clone());
    let ghost after = texts(list@);
    assert(after =~= before.insert(at as int, text@));
    assert forall|i: int, j: int| 0 <= i < j < after.len() implies lex_less(after[i], after[j]) by {
        if j < at {
            assert(lex_less(before[i], before[j]));
        } else if j == at {
        } else if i < at {
            assert(lex_less(before[i], before[j - 1]));
        } else if i == at {
            if j - 1 > at {
                assert(lex_less(before[at as int], before[j - 1]));
                lemma_lex_transitive(text@, before[at as int], before[j - 1]);
            }
        } else {
            assert(lex_less(before[i - 1], before[j - 1]));
        }
    }
    assert forall|other: Seq<char>| #[trigger]
        after.contains(other) <==> (before.contains(other) || other == text@) by {
        if after.contains(other) {
            let i = choose|i: int| 0 <= i < after.len() && after[i] == other;
            if i < at {
                assert(before[i] == other);
            } else if i > at {
                assert(before[i - 1] == other);
            }
        }
        if before.contains(other) {
            let i = choose|i: int| 0 <= i < before.len() && before[i] == other;
            if i < at {
                assert(after[i] == other);
            } else {
                assert(after[i + 1] == other);
            }
        }
        if other == text@ {
            assert(after[at as int] == other);
        }
    }
}

/// The categories that the first `n + 1` items name are those that the first
/// `n` name and those of item `n`.
proof fn lemma_names_category_step(items: Seq<IconRecord>, n: int, category: Seq<char>)
    requires
        0 <= n < items.len(),
    ensures
        names_category(items.take(n + 1), category) <==> (names_category(items.take(n), category)
            || items[n].categories.contains(category)),
{
    let longer = items.take(n + 1);
    let shorter = items.take(n);
    if names_category(longer, category) {
        let i = choose|i: int| 0 <= i < longer.len() && (#[trigger] longer[i]).categories.contains(category);
        if i < n {
            assert(shorter[i].categories.contains(category));
        }
    }
    if names_category(shorter, category) {
        let i = choose|i: int| 0 <= i < shorter.len() && (#[trigger] shorter[i]).categories.contains(category);
        assert(longer[i].categories.contains(category));
    }
    if items[n].categories.contains(category) {
        assert(longer[n].categories.contains(category));
    }
}

/// The category index of `items`.
fn build_category_index(items: &Vec<MaterialFontMeta>) -> (categories: Vec<String>)
    ensures
        is_category_index(records(items@), texts(categories@)),
{
    let ghost all = records(items@);
    let mut categories: Vec<String> = Vec::new();
    let mut i: usize = 0;
    assert forall|category: Seq<char>| #[trigger]
        texts(categories@).contains(category) <==> names_category(all.take(0), category) by {
        assert(all.take(0).len() == 0);
        assert(texts(categories@).len() == 0);
    }
    while i < items.len()
        invariant
            i <= items@.len(),
            all == records(items@),
            is_strictly_sorted(texts(categories@)),
            forall|category: Seq<char>| #[trigger]
                texts(categories@).contains(category) <==> names_category(
                    all.take(i as int),
                    category,
                ),
        decreases items@.len() - i,
    {
        let own: &Vec<String> = &items[i].categories;
        assert(texts(own@) == all[i as int].categories);
        let mut j: usize = 0;
        while j < own.len()
            invariant
                j <= own@.len(),
                i < items@.len(),
                all == records(items@),
                texts(own@) == all[i as int].categories,
                is_strictly_sorted(texts(categories@)),
                forall|category: Seq<char>| #[trigger]
                    texts(categories@).contains(category) <==> (names_category(
                        all.take(i as int),
                        category,
                    ) || texts(own@).take(j as int).contains(category)),
            decreases own@.len() - j,
        {
            let ghost before = texts(categories@);
            insert_sorted(&mut categories, &own[j]);
            assert forall|category: Seq<char>| #[trigger]
                texts(categories@).contains(category) <==> (names_category(
                    all.take(i as int),
                    category,
                ) || texts(own@).take(j + 1).contains(category)) by {
                let shorter = texts(own@).take(j as int);
                let longer = texts(own@).take(j + 1);
                assert(before.contains(category) <==> (names_category(all.take(i as int), category)
                    || shorter.contains(category)));
                assert(longer[j as int] == own@[j as int]@);
                if shorter.contains(category) {
                    let m = choose|m: int| 0 <= m < shorter.len() && shorter[m] == category;
                    assert(longer[m] == category);
                }
                if longer.contains(category) {
                    let m = choose|m: int| 0 <= m < longer.len() && longer[m] == category;
                    if m < j {
                        assert(shorter[m] == category);
                    }
                }
            }
            j += 1;
        }
        assert forall|category: Seq<char>| #[trigger]
            texts(categories@).contains(category) <==> names_category(
                all.take(i + 1),
                category,
            ) by {
            assert(texts(own@).take(j as int) =~= texts(own@));
            lemma_names_category_step(all, i as int, category);
        }
        i += 1;
    }
    assert(all.take(i as int) =~= all);
    categories
}

/// Whether every item carries a popularity.
fn every_item_rated(items: &Vec<MaterialFontMeta>) -> (rated: bool)
    ensures
        rated == all_rated(records(items@)),
{
    let mut i: usize = 0;
    while i < items.len()
        invariant
            i <= items@.len(),
            forall|j: int| 0 <= j < i ==> (#[trigger] records(items@)[j]).popularity is Some,
        decreases items@.len() - i,
    {
        if items[i].popularity.is_none() {
            assert(records(items@)[i as int].popularity is None);
            return false;
        }
        i += 1;
    }
    true
}

/// The popularity of `item`, 0 where it carries none.
fn rating_of(item: &MaterialFontMeta) -> (value: u64)
    ensures
        value == rating(item@),
{
    match item.popularity {
        Some(popularity) => popularity,
        None => 0,
    }
}

/// The position of the item that stands for `category`: the members of the
/// category are gone through in order, and a later one takes the place of
/// the one kept so far unless that one is more popular.
fn find_representative(items: &Vec<MaterialFontMeta>, category: &String) -> (at: usize)
    requires
        names_category(records(items@), category@),
    ensures
        at < items@.len(),
        at == representative_index(records(items@), category@),
{
    let ghost all = records(items@);
    let mut best: usize = 0;
    let mut found: bool = false;
    let mut i: usize = 0;
    assert(!names_category(all.take(0), category@)) by {
        assert(all.take(0).len() == 0);
    }
    while i < items.len()
        invariant
            i <= items@.len(),
            all == records(items@),
            found <==> names_category(all.take(i as int), category@),
            found ==> is_representative(all.take(i as int), category@, best as int),
        decreases items@.len() - i,
    {
        let ghost shorter = all.take(i as int);
        let ghost longer = all.take(i + 1);
        proof {
            lemma_names_category_step(all, i as int, category@);
            assert forall|j: int| 0 <= j < i implies longer[j] == shorter[j] by {}
        }
        if items[i].contains_category(category) {
            if !found || rating_of(&items[best]) <= rating_of(&items[i]) {
                proof {
                    assert forall|j: int|
                        0 <= j < longer.len() && (#[trigger] longer[j]).categories.contains(
                            category@,
                        ) implies rating(longer[j]) <= rating(longer[i as int]) by {
                        if j < i {
                            assert(shorter[j].categories.contains(category@));
                        }
                    }
                }
                best = i;
                found = true;
            } else {
                proof {
                    assert forall|j: int|
                        0 <= j < longer.len() && (#[trigger] longer[j]).categories.contains(
                            category@,
                        ) implies rating(longer[j]) <= rating(longer[best as int]) by {
                        if j < i {
                            assert(shorter[j].categories.contains(category@));
                        }
                    }
                    assert forall|j: int|
                        best < j < longer.len() && (#[trigger] longer[j]).categories.contains(
                            category@,
                        ) implies rating(longer[j]) < rating(longer[best as int]) by {
                        if j < i {
                            assert(shorter[j].categories.contains(category@));
                        }
                    }
                }
            }
        } else {
            proof {
                if found {
                    assert forall|j: int|
                        0 <= j < longer.len() && (#[trigger] longer[j]).categories.contains(
                            category@,
                        ) implies rating(longer[j]) <= rating(longer[best as int]) by {
                        if j < i {
                            assert(shorter[j].categories.contains(category@));
                        }
                    }
                    assert forall|j: int|
                        best < j < longer.len() && (#[trigger] longer[j]).categories.contains(
                            category@,
                        ) implies rating(longer[j]) < rating(longer[best as int]) by {
                        if j < i {
                            assert(shorter[j].categories.contains(category@));
                        }
                    }
                }
            }
        }
        i += 1;
    }
    proof {
        assert(all.take(i as int) =~= all);
        lemma_representative_unique(all, category@, best as int);
    }
    best
}

/// The code points that stand for `categories`.
fn build_representatives(items: &Vec<MaterialFontMeta>, categories: &Vec<String>) -> (codepoints:
    Vec<u32>)
    requires
        is_category_index(records(items@), texts(categories@)),
    ensures
        codepoints@ == representatives(records(items@), texts(categories@)),
{
    let mut codepoints: Vec<u32> = Vec::new();
    if !every_item_rated(items) {
        assert(codepoints@ =~= representatives(records(items@), texts(categories@)));
        return codepoints;
    }
    let ghost expected = representatives(records(items@), texts(categories@));
    let mut i: usize = 0;
    while i < categories.len()
        invariant
            i <= categories@.len(),
            all_rated(records(items@)),
            is_category_index(records(items@), texts(categories@)),
            expected == representatives(records(items@), texts(categories@)),
            codepoints@ == expected.take(i as int),
        decreases categories@.len() - i,
    {
        assert(texts(categories@).contains(texts(categories@)[i as int]));
        let at = find_representative(items, &categories[i]);
        codepoints.push(items[at].codepoint);
        assert(codepoints@ =~= expected.take(i + 1));
        i += 1;
    }
    assert(expected.take(i as int) =~= expected);
    codepoints
}

/// The catalog: the icons in the order of their source, the categories that
/// they name, and for each category the code point that stands for it.
#[derive(Debug)]
pub struct MaterialFontMetaList {
    items: Vec<MaterialFontMeta>,
    categories: Vec<String>,
    category_codepoints: Vec<u32>,
}

impl View for MaterialFontMetaList {
    type V = Seq<IconRecord>;

    closed spec fn view(&self) -> Seq<IconRecord> {
        records(self.items@)
    }
}

/// Whether item `at` is the first of `items` with the code point `codepoint`.
pub open spec fn is_first_with(items: Seq<IconRecord>, codepoint: u32, at: int) -> bool {
    &&& 0 <= at < items.len()
    &&& items[at].codepoint == codepoint
    &&& forall|i: int| 0 <= i < at ==> (#[trigger] items[i]).codepoint != codepoint
}

impl MaterialFontMetaList {
    /// The categories and the code points that stand for them are those of
    /// the items.
    #[verifier::type_invariant]
    spec fn well_formed(&self) -> bool {
        &&& is_category_index(records(self.items@), texts(self.categories@))
        &&& self.category_codepoints@ == representatives(
            records(self.items@),
            texts(self.categories@),
        )
    }

    /// The catalog without any icon, as it is before one is loaded: it has
    /// no category either, and no code point that stands for one.
    pub fn empty() -> (list: Self)
        ensures
            list@ == Seq::<IconRecord>::empty(),
            category_index(list@) == Seq::<Seq<char>>::empty(),
            representatives(list@, category_index(list@)) == Seq::<u32>::empty(),
    {
        let list = Self::from_items(Vec::new());
        assert(list@ =~= Seq::<IconRecord>::empty());
        proof {
            lemma_empty_catalog();
        }
        list
    }

    /// The catalog of the given icons, in their order.
    pub fn from_items(items: Vec<MaterialFontMeta>) -> (list: Self)
        ensures
            list@ == records(items@),
    {
        let categories = build_category_index(&items);
        let category_codepoints = build_representatives(&items, &categories);
        MaterialFontMetaList { items, categories, category_codepoints }
    }

    /// The icons, in the order of their source.
    pub fn items(&self) -> (items: &Vec<MaterialFontMeta>)
        ensures
            records(items@) == self@,
    {
        &self.items
    }

    /// The first icon with the given code point.
    pub fn get_item(&self, codepoint: u32) -> (found: Option<&MaterialFontMeta>)
        ensures
            match found {
                Some(item) => exists|at: int| is_first_with(self@, codepoint, at) && item@ == self@[at],
                None => forall|i: int| 0 <= i < self@.len() ==> (#[trigger] self@[i]).codepoint != codepoint,
            },
    {
        let mut i: usize = 0;
        while i < self.items.len()
            invariant
                i <= self.items@.len(),
                forall|j: int| 0 <= j < i ==> (#[trigger] self@[j]).codepoint != codepoint,
            decreases self.items@.len() - i,
        {
            if self.items[i].codepoint == codepoint {
                assert(is_first_with(self@, codepoint, i as int));
                return Some(&self.items[i]);
            }
            i += 1;
        }
        None
    }

    /// The categories that the icons name, in dictionary order, each once.
    pub fn categories(&self) -> (categories: &Vec<String>)
        ensures
            is_category_index(self@, texts(categories@)),
            texts(categories@) == category_index(self@),
    {
        proof {
            use_type_invariant(self);
            lemma_category_index_unique(self@, texts(self.categories@));
        }
        &self.categories
    }

    /// For each category, in the order of `categories`, the code point of the
    /// most popular icon in it. Empty where an icon carries no popularity.
    pub fn category_codepoints(&self) -> (codepoints: &Vec<u32>)
        ensures
            codepoints@ == representatives(self@, category_index(self@)),
    {
        proof {
            use_type_invariant(self);
            lemma_category_index_unique(self@, texts(self.categories@));
        }
        &self.category_codepoints
    }
}

impl Clone for MaterialFontMetaList {
    fn clone(&self) -> (copy: Self)
        ensures
            copy@ == self@,
    {
        proof {
            use_type_invariant(self);
        }
        let mut items: Vec<MaterialFontMeta> = Vec::new();
        let mut i: usize = 0;
        while i < self.items.len()
            invariant
                i <= self.items@.len(),
                items@.len() == i,
                records(items@) == records(self.items@).take(i as int),
            decreases self.items@.len() - i,
        {
            let ghost before = records(items@);
            let item = self.items[i].clone();
            assert(item@ == records(self.items@)[i as int]);
            items.push(item);
            assert forall|j: int| 0 <= j < i + 1 implies records(items@)[j] == records(
                self.items@,
            )[j] by {
                if j < i {
                    assert(records(items@)[j] == before[j]);
                }
            }
            assert(records(items@) =~= records(self.items@).take(i + 1));
            i += 1;
        }
        assert(records(self.items@).take(i as int) =~= records(self.items@));
        let categories = clone_texts(&self.categories);
        let category_codepoints = self.category_codepoints.clone();
        assert(category_codepoints@ =~= self.category_codepoints@);
        MaterialFontMetaList { items, categories, category_codepoints }
    }
}

impl Default for MaterialFontMetaList {
    fn default() -> (list: Self)
        ensures
            list@ == Seq::<IconRecord>::empty(),
    {
        Self::empty()
    }
}

/// A category with one member only is stood for by that member, whatever its
/// popularity is.
pub proof fn lemma_only_member_represents(
    items: Seq<IconRecord>,
    categories: Seq<Seq<char>>,
    at: int,
    k: int,
)
    requires
        all_rated(items),
        0 <= at < categories.len(),
        0 <= k < items.len(),
        forall|j: int|
            0 <= j < items.len() ==> ((#[trigger] items[j]).categories.contains(categories[at])
                <==> j == k),
    ensures
        representatives(items, categories)[at] == items[k].codepoint,
{
    assert(items[k].categories.contains(categories[at]));
    assert(is_representative(items, categories[at], k));
    lemma_representative_unique(items, categories[at], k);
}

} // verus!
