//! Loading the catalog from its file: a JSON document whose member `icons`
//! is an array of objects, one for each icon, with the members `name` (a
//! string), `codepoint` (a whole number that fits in 32 bits), `categories`
//! and `tags` (arrays of strings) and, where the catalog gives it,
//! `popularity` (a whole number that fits in 64 bits). Other members are
//! passed over.

use vstd::prelude::*;
use vstd::string::*;
use crate::json::{documents, json_document, parse_json, Json, JsonValue};
use crate::models::{records, IconRecord, MaterialFontMeta, MaterialFontMetaList};
use crate::text::texts;

verus! {

/// What keeps a document from being a catalog.
#[derive(Clone, Copy, Debug, PartialEq, Eq, Structural)]
pub enum CatalogDefect {
    /// The document is no object with an array under `icons`.
    Icons,
    /// An element of `icons` is no object.
    Record,
    /// An icon has no string under `name`.
    Name,
    /// An icon has no whole number of 32 bits under `codepoint`.
    Codepoint,
    /// An icon has no array of strings under `categories`.
    Categories,
    /// An icon has no array of strings under `tags`.
    Tags,
    /// An icon has something else than a whole number under `popularity`.
    Popularity,
}

impl CatalogDefect {
    /// The defect in words.
    pub open spec fn text(self) -> Seq<char> {
        match self {
            CatalogDefect::Icons => "the document has no array of icons"@,
            CatalogDefect::Record => "an icon is not an object"@,
            CatalogDefect::Name => "an icon has no name, or its name is not a string"@,
            CatalogDefect::Codepoint => "an icon has no codepoint, or its codepoint is not a whole number of 32 bits"@,
            CatalogDefect::Categories => "an icon has no categories, or they are not an array of strings"@,
            CatalogDefect::Tags => "an icon has no tags, or they are not an array of strings"@,
            CatalogDefect::Popularity => "the popularity of an icon is not a whole number"@,
        }
    }

    /// The defect in words.
    pub fn message(&self) -> (message: String)
        ensures
            message@ == self.text(),
    {
        match self {
            CatalogDefect::Icons => "the document has no array of icons".to_owned(),
            CatalogDefect::Record => "an icon is not an object".to_owned(),
            CatalogDefect::Name => "an icon has no name, or its name is not a string".to_owned(),
            CatalogDefect::Codepoint => "an icon has no codepoint, or its codepoint is not a whole number of 32 bits".to_owned(),
            CatalogDefect::Categories => "an icon has no categories, or they are not an array of strings".to_owned(),
            CatalogDefect::Tags => "an icon has no tags, or they are not an array of strings".to_owned(),
            CatalogDefect::Popularity => "the popularity of an icon is not a whole number".to_owned(),
        }
    }
}

/// Why a catalog could not be loaded.
#[derive(Debug)]
pub enum LoadError {
    /// The bytes are no JSON document, or the document is no catalog. The
    /// message says what is wrong.
    ParseFailure(String),
}

impl LoadError {
    /// What is wrong, in words.
    pub open spec fn text(self) -> Seq<char> {
        match self {
            LoadError::ParseFailure(message) => message@,
        }
    }

    /// What is wrong, in words.
    pub fn message(&self) -> (message: &String)
        ensures
            message@ == self.text(),
    {
        match self {
            LoadError::ParseFailure(message) => message,
        }
    }
}

/// The texts of `json`, where it is an array of strings.
pub open spec fn text_list(json: Json) -> Option<Seq<Seq<char>>> {
    match json.elements() {
        Some(elements) => if forall|i: int| 0 <= i < elements.len() ==> (#[trigger] elements[i]) is Text {
            Some(Seq::new(elements.len(), |i: int| elements[i]->Text_0))
        } else {
            None
        },
        None => None,
    }
}

/// The name that the object `json` gives.
pub open spec fn name_of(json: Json) -> Option<Seq<char>> {
    match json.get("name"@) {
        Some(value) => value.text(),
        None => None,
    }
}

/// The code point that the object `json` gives.
pub open spec fn codepoint_of(json: Json) -> Option<u32> {
    match json.get("codepoint"@) {
        Some(value) => match value.unsigned() {
            Some(number) => if number <= u32::MAX {
                Some(number as u32)
            } else {
                None
            },
            None => None,
        },
        None => None,
    }
}

/// The categories that the object `json` gives.
pub open spec fn categories_of(json: Json) -> Option<Seq<Seq<char>>> {
    match json.get("categories"@) {
        Some(value) => text_list(value),
        None => None,
    }
}

/// The tags that the object `json` gives.
pub open spec fn tags_of(json: Json) -> Option<Seq<Seq<char>>> {
    match json.get("tags"@) {
        Some(value) => text_list(value),
        None => None,
    }
}

/// The popularity that the object `json` gives: `Some(None)` where it has no
/// such member, `None` where the member is no whole number.
pub open spec fn popularity_of(json: Json) -> Option<Option<u64>> {
    match json.get("popularity"@) {
        Some(value) => match value.unsigned() {
            Some(number) => Some(Some(number)),
            None => None,
        },
        None => Some(None),
    }
}

/// The icon that `json` describes, or the first thing that is wrong with it,
/// the members taken in the order name, codepoint, categories, tags,
/// popularity.
pub open spec fn record_of(json: Json) -> Result<IconRecord, CatalogDefect> {
    if !(json is Object) {
        Err(CatalogDefect::Record)
    } else if name_of(json) is None {
        Err(CatalogDefect::Name)
    } else if codepoint_of(json) is None {
        Err(CatalogDefect::Codepoint)
    } else if categories_of(json) is None {
        Err(CatalogDefect::Categories)
    } else if tags_of(json) is None {
        Err(CatalogDefect::Tags)
    } else if popularity_of(json) is None {
        Err(CatalogDefect::Popularity)
    } else {
        Ok(
            IconRecord {
                name: name_of(json)->0,
                codepoint: codepoint_of(json)->0,
                categories: categories_of(json)->0,
                tags: tags_of(json)->0,
                popularity: popularity_of(json)->0,
            },
        )
    }
}

/// The array of icons of `document`.
pub open spec fn icons_of(document: Json) -> Option<Seq<Json>> {
    match document.get("icons"@) {
        Some(value) => value.elements(),
        None => None,
    }
}

/// Whether element `at` is the first of `elements` that describes no icon.
pub open spec fn is_first_defect(elements: Seq<Json>, at: int) -> bool {
    &&& 0 <= at < elements.len()
    &&& record_of(elements[at]) is Err
    &&& forall|i: int| 0 <= i < at ==> record_of(#[trigger] elements[i]) is Ok
}

/// The icons that `document` lists, in its order, or what is wrong with the
/// first element that describes none.
pub open spec fn catalog_of(document: Json) -> Result<Seq<IconRecord>, CatalogDefect> {
    match icons_of(document) {
        None => Err(CatalogDefect::Icons),
        Some(elements) => if exists|at: int| is_first_defect(elements, at) {
            Err(record_of(elements[choose|at: int| is_first_defect(elements, at)])->Err_0)
        } else {
            Ok(Seq::new(elements.len(), |i: int| record_of(elements[i])->Ok_0))
        },
    }
}

/// Whether `outcome` is what loading `document` gives: the catalog of its
/// icons, or the failure that names its defect.
pub open spec fn is_load_of(document: Json, outcome: Result<MaterialFontMetaList, LoadError>) -> bool {
    match catalog_of(document) {
        Ok(items) => outcome matches Ok(list) && list@ == items,
        Err(defect) => outcome matches Err(error) && error.text() == defect.text(),
    }
}

/// The texts of `value`, where it is an array of strings.
fn decode_text_list(value: &JsonValue) -> (decoded: Option<Vec<String>>)
    ensures
        match decoded {
            Some(list) => text_list(value@) == Some(texts(list@)),
            None => text_list(value@) is None,
        },
{
    match value.as_array() {
        None => None,
        Some(elements) => {
            let ghost model = documents(elements@);
            let mut list: Vec<String> = Vec::new();
            let mut i: usize = 0;
            while i < elements.len()
                invariant
                    i <= elements@.len(),
                    list@.len() == i,
                    model == documents(elements@),
                    value@.elements() == Some(model),
                    forall|j: int| 0 <= j < i ==> (#[trigger] model[j]) is Text,
                    forall|j: int| 0 <= j < i ==> (#[trigger] texts(list@)[j]) == model[j]->Text_0,
                decreases elements@.len() - i,
            {
                match elements[i].as_text() {
                    None => {
                        assert(!(model[i as int] is Text));
                        return None;
                    },
                    Some(text) => {
                        let ghost before = texts(list@);
                        list.push(text.clone());
                        assert forall|j: int| 0 <= j < i + 1 implies (#[trigger] texts(list@)[j])
                            == model[j]->Text_0 by {
                            if j < i {
                                assert(texts(list@)[j] == before[j]);
                            }
                        }
                    },
                }
                i += 1;
            }
            assert(texts(list@) =~= Seq::new(model.len(), |i: int| model[i]->Text_0));
            Some(list)
        },
    }
}

/// The icon that `value` describes.
fn decode_record(value: &JsonValue) -> (decoded: Result<MaterialFontMeta, CatalogDefect>)
    ensures
        match decoded {
            Ok(item) => record_of(value@) == Ok::<IconRecord, CatalogDefect>(item@),
            Err(defect) => record_of(value@) == Err::<IconRecord, CatalogDefect>(defect),
        },
{
    if !value.is_object() {
        return Err(CatalogDefect::Record);
    }
    let name: String = match value.get("name") {
        Some(member) => match member.as_text() {
            Some(text) => text.clone(),
            None => {
                return Err(CatalogDefect::Name);
            },
        },
        None => {
            return Err(CatalogDefect::Name);
        },
    };
    let codepoint: u32 = match value.get("codepoint") {
        Some(member) => match member.as_unsigned() {
            Some(number) => if number <= 0xFFFF_FFFF {
                number as u32
            } else {
                return Err(CatalogDefect::Codepoint);
            },
            None => {
                return Err(CatalogDefect::Codepoint);
            },
        },
        None => {
            return Err(CatalogDefect::Codepoint);
        },
    };
    let categories: Vec<String> = match value.get("categories") {
        Some(member) => match decode_text_list(member) {
            Some(list) => list,
            None => {
                return Err(CatalogDefect::Categories);
            },
        },
        None => {
            return Err(CatalogDefect::Categories);
        },
    };
    let tags: Vec<String> = match value.get("tags") {
        Some(member) => match decode_text_list(member) {
            Some(list) => list,
            None => {
                return Err(CatalogDefect::Tags);
            },
        },
        None => {
            return Err(CatalogDefect::Tags);
        },
    };
    let popularity: Option<u64> = match value.get("popularity") {
        Some(member) => match member.as_unsigned() {
            Some(number) => Some(number),
            None => {
                return Err(CatalogDefect::Popularity);
            },
        },
        None => None,
    };
    Ok(MaterialFontMeta::new(name, codepoint, categories, tags, popularity))
}

impl MaterialFontMetaList {
    /// Loads the catalog that `bytes` spell: the icons in the order of the
    /// document, with the category index made from them.
    pub fn load_from_bytes(bytes: &[u8]) -> (outcome: Result<Self, LoadError>)
        ensures
            match json_document(bytes@) {
                Ok(document) => is_load_of(document, outcome),
                Err(text) => outcome matches Err(error) && error.text() == text,
            },
    {
        match parse_json(bytes) {
            Ok(value) => Self::parse_json_value(&value),
            Err(message) => Err(LoadError::ParseFailure(message)),
        }
    }

    /// Makes the catalog of a JSON document that was read already.
    pub fn parse_json_value(value: &JsonValue) -> (outcome: Result<Self, LoadError>)
        ensures
            is_load_of(value@, outcome),
    {
        let elements: &Vec<JsonValue> = match value.get("icons") {
            Some(member) => match member.as_array() {
                Some(elements) => elements,
                None => {
                    return Err(LoadError::ParseFailure(CatalogDefect::Icons.message()));
                },
            },
            None => {
                return Err(LoadError::ParseFailure(CatalogDefect::Icons.message()));
            },
        };
        let ghost model = documents(elements@);
        let mut items: Vec<MaterialFontMeta> = Vec::new();
        let mut i: usize = 0;
        while i < elements.len()
            invariant
                i <= elements@.len(),
                items@.len() == i,
                model == documents(elements@),
                icons_of(value@) == Some(model),
                forall|j: int| 0 <= j < i ==> record_of(#[trigger] model[j]) is Ok,
                forall|j: int| 0 <= j < i ==> (#[trigger] records(items@)[j]) == record_of(model[j])->Ok_0,
            decreases elements@.len() - i,
        {
            match decode_record(&elements[i]) {
                Ok(item) => {
                    let ghost before = records(items@);
                    items.push(item);
                    assert forall|j: int| 0 <= j < i + 1 implies (#[trigger] records(items@)[j])
                        == record_of(model[j])->Ok_0 by {
                        if j < i {
                            assert(records(items@)[j] == before[j]);
                        }
                    }
                },
                Err(defect) => {
                    proof {
                        assert(is_first_defect(model, i as int));
                        let chosen = choose|at: int| is_first_defect(model, at);
                        if chosen < i {
                            assert(record_of(model[chosen]) is Ok);
                        } else if i < chosen {
                            assert(record_of(model[i as int]) is Ok);
                        }
                    }
                    return Err(LoadError::ParseFailure(defect.message()));
                },
            }
            i += 1;
        }
        proof {
            if exists|at: int| is_first_defect(model, at) {
                let at = choose|at: int| is_first_defect(model, at);
                assert(record_of(model[at]) is Ok);
            }
            assert(records(items@) =~= Seq::new(model.len(), |i: int| record_of(model[i])->Ok_0));
        }
        Ok(MaterialFontMetaList::from_items(items))
    }
}

} // verus!
