//! Reading configuration and manifest text written in TOML: what one table
//! of a document holds, key by key.
use vstd::prelude::*;

use crate::session::opt_view;

verus! {

/// One top-level value of a TOML document as the library reads it: a
/// string, a table (each key with its text when it holds a string), or
/// another value.
#[derive(Debug, Clone)]
pub enum TomlItem {
    Text(String),
    Table(Vec<(String, Option<String>)>),
    Other,
}

/// A [`TomlItem`] with its text as characters.
pub enum TomlItemView {
    Text(Seq<char>),
    Table(Seq<(Seq<char>, Option<Seq<char>>)>),
    Other,
}

/// What the `toml` crate makes of a document (`toml::from_str` into a
/// `toml::Table`): the text of the parse error, or each top-level key, in the
/// table's order, with its value as a [`TomlItemView`].
pub uninterp spec fn toml_document(text: Seq<char>) -> Result<Seq<(Seq<char>, TomlItemView)>, Seq<char>>;

/// The characters of the keys and string values of table entries.
pub open spec fn entries_view(v: Seq<(String, Option<String>)>) -> Seq<(Seq<char>, Option<Seq<char>>)> {
    v.map_values(|e: (String, Option<String>)| (e.0@, opt_view(e.1)))
}

/// The characters of a top-level value.
pub open spec fn item_view(i: TomlItem) -> TomlItemView {
    match i {
        TomlItem::Text(s) => TomlItemView::Text(s@),
        TomlItem::Table(es) => TomlItemView::Table(entries_view(es@)),
        TomlItem::Other => TomlItemView::Other,
    }
}

/// The characters of a parsed document's keys and values.
pub open spec fn document_view(d: Seq<(String, TomlItem)>) -> Seq<(Seq<char>, TomlItemView)> {
    d.map_values(|e: (String, TomlItem)| (e.0@, item_view(e.1)))
}

/// The characters of a parse's result.
pub open spec fn parsed_view(r: Result<Vec<(String, TomlItem)>, String>) -> Result<Seq<(Seq<char>, TomlItemView)>, Seq<char>> {
    match r {
        Err(e) => Err(e@),
        Ok(d) => Ok(document_view(d@)),
    }
}

/// Parses `text` as a TOML document (`toml::from_str` into a `toml::Table`),
/// converting each top-level value (see [`toml_document`]).
#[verifier::external_body]
fn parse_document(text: &str) -> (r: Result<Vec<(String, TomlItem)>, String>)
    ensures
        parsed_view(r) == toml_document(text@),
{
    match toml::from_str::<toml::Table>(text) {
        Err(e) => Err(e.to_string()),
        Ok(doc) => Ok(doc.into_iter().map(|(k, v)| (k, match v {
            toml::Value::String(s) => TomlItem::Text(s),
            toml::Value::Table(t) => TomlItem::Table(t.into_iter().map(|(k2, v2)| (k2, match v2 {
                toml::Value::String(s2) => Some(s2),
                _ => None,
            })).collect()),
            _ => TomlItem::Other,
        })).collect()),
    }
}

/// The text a top-level value holds when it is a string.
pub open spec fn item_text(i: TomlItemView) -> Option<Seq<char>> {
    match i {
        TomlItemView::Text(s) => Some(s),
        _ => None,
    }
}

/// The value of the first top-level key named `key`.
pub open spec fn find_item(doc: Seq<(Seq<char>, TomlItemView)>, key: Seq<char>) -> Option<TomlItemView>
    decreases doc.len(),
{
    if doc.len() == 0 {
        None
    } else if doc[0].0 == key {
        Some(doc[0].1)
    } else {
        find_item(doc.drop_first(), key)
    }
}

/// One table of a TOML document (the document itself when no table is
/// named): the parse error; nothing when the named key is missing or holds
/// no table; otherwise each key of the table with its text when it holds a
/// string.
pub open spec fn toml_table_strings(text: Seq<char>, table: Option<Seq<char>>) -> Result<
    Option<Seq<(Seq<char>, Option<Seq<char>>)>>,
    Seq<char>,
> {
    match toml_document(text) {
        Err(e) => Err(e),
        Ok(doc) => match table {
            None => Ok(Some(doc.map_values(|e: (Seq<char>, TomlItemView)| (e.0, item_text(e.1))))),
            Some(name) => match find_item(doc, name) {
                Some(TomlItemView::Table(es)) => Ok(Some(es)),
                _ => Ok(None),
            },
        },
    }
}

/// The characters of a table lookup's result.
pub open spec fn lookup_view(r: Result<Option<Vec<(String, Option<String>)>>, String>) -> Result<
    Option<Seq<(Seq<char>, Option<Seq<char>>)>>,
    Seq<char>,
> {
    match r {
        Err(e) => Err(e@),
        Ok(None) => Ok(None),
        Ok(Some(v)) => Ok(Some(entries_view(v@))),
    }
}

/// The characters of an optional text.
pub open spec fn opt_str_view(s: Option<&str>) -> Option<Seq<char>> {
    match s {
        Some(t) => Some(t@),
        None => None,
    }
}

/// The position of the first top-level key named `key`.
fn find_item_index(doc: &Vec<(String, TomlItem)>, key: &str) -> (r: Option<usize>)
    ensures
        match r {
            Some(i) => i < doc@.len() && find_item(document_view(doc@), key@) == Some(item_view(doc@[i as int].1)),
            None => find_item(document_view(doc@), key@) is None,
        },
{
    let mut i: usize = 0;
    assert(document_view(doc@).skip(0) =~= document_view(doc@));
    while i < doc.len()
        invariant
            i <= doc@.len(),
            find_item(document_view(doc@), key@) == find_item(document_view(doc@).skip(i as int), key@),
        decreases doc.len() - i,
    {
        let ghost rest = document_view(doc@).skip(i as int);
        assert(rest[0] == (doc@[i as int].0@, item_view(doc@[i as int].1)));
        assert(rest.drop_first() =~= document_view(doc@).skip(i as int + 1));
        if crate::text::str_eq(doc[i].0.as_str(), key) {
            return Some(i);
        }
        i = i + 1;
    }
    None
}

/// The top-level keys of a document with the text of those that hold strings.
fn root_entries(doc: &Vec<(String, TomlItem)>) -> (r: Vec<(String, Option<String>)>)
    ensures
        entries_view(r@) == document_view(doc@).map_values(|e: (Seq<char>, TomlItemView)| (e.0, item_text(e.1))),
{
    let mut out: Vec<(String, Option<String>)> = Vec::new();
    let mut i: usize = 0;
    while i < doc.len()
        invariant
            i <= doc@.len(),
            out@.len() == i,
            forall|j: int| 0 <= j < i ==> (#[trigger] out@[j]).0@ == doc@[j].0@ && opt_view(out@[j].1)
                == item_text(item_view(doc@[j].1)),
        decreases doc.len() - i,
    {
        let text = match &doc[i].1 {
            TomlItem::Text(s) => Some(crate::text::owned(s.as_str())),
            _ => None,
        };
        out.push((crate::text::owned(doc[i].0.as_str()), text));
        i = i + 1;
    }
    assert(entries_view(out@) =~= document_view(doc@).map_values(
        |e: (Seq<char>, TomlItemView)| (e.0, item_text(e.1)),
    ));
    out
}

/// Parses `text` as a TOML document and reads one of its tables (see
/// [`toml_table_strings`]).
pub(crate) fn toml_table_entries(text: &str, table: Option<&str>) -> (r: Result<
    Option<Vec<(String, Option<String>)>>,
    String,
>)
    ensures
        lookup_view(r) == toml_table_strings(text@, opt_str_view(table)),
{
    match parse_document(text) {
        Err(e) => Err(e),
        Ok(mut doc) => match table {
            None => Ok(Some(root_entries(&doc))),
            Some(name) => match find_item_index(&doc, name) {
                None => Ok(None),
                Some(i) => {
                    let (_, item) = doc.remove(i);
                    match item {
                        TomlItem::Table(es) => Ok(Some(es)),
                        _ => Ok(None),
                    }
                },
            },
        },
    }
}

/// What the first entry named `key` holds: `None` when there is no such
/// entry, `Some(None)` for a value that is not a string.
pub open spec fn find_key(es: Seq<(Seq<char>, Option<Seq<char>>)>, key: Seq<char>) -> Option<Option<Seq<char>>>
    decreases es.len(),
{
    if es.len() == 0 {
        None
    } else if es[0].0 == key {
        Some(es[0].1)
    } else {
        find_key(es.drop_first(), key)
    }
}

/// What the first entry named `key` holds (see [`find_key`]).
pub fn find_entry<'a>(es: &'a Vec<(String, Option<String>)>, key: &str) -> (r: Option<&'a Option<String>>)
    ensures
        match find_key(entries_view(es@), key@) {
            None => r is None,
            Some(v) => r matches Some(x) && opt_view(*x) == v,
        },
{
    let mut i: usize = 0;
    assert(entries_view(es@).skip(0) =~= entries_view(es@));
    while i < es.len()
        invariant
            i <= es@.len(),
            find_key(entries_view(es@), key@) == find_key(entries_view(es@).skip(i as int), key@),
        decreases es.len() - i,
    {
        let ghost rest = entries_view(es@).skip(i as int);
        assert(rest[0] == (es@[i as int].0@, opt_view(es@[i as int].1)));
        assert(rest.drop_first() =~= entries_view(es@).skip(i as int + 1));
        if crate::text::str_eq(es[i].0.as_str(), key) {
            return Some(&es[i].1);
        }
        i = i + 1;
    }
    None
}

} // verus!
