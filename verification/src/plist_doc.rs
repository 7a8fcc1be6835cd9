//! The property-list document model and the metadata reader.
//!
//! A decoded property list is held as plain values: text, dictionaries as
//! ordered key/value lists, arrays, and an opaque remainder. The metadata
//! reader looks up the application name, the bundle identifier and the icon
//! file-name hint; each key is independently optional and a missing or
//! differently-typed value yields an empty string, never an error.

use vstd::prelude::*;
use crate::text::str_eq;

verus! {

/// A property-list value, reduced to what the metadata reader consumes.
pub enum PlistValue {
    /// A string value.
    Text(String),
    /// A dictionary: key/value pairs in document order.
    Dict(Vec<(String, PlistValue)>),
    /// An array of values.
    List(Vec<PlistValue>),
    /// Any other value kind; the reader never looks inside one.
    Other,
}

/// The value under `key`: the first entry with that key, if any.
pub open spec fn dict_lookup(entries: Seq<(String, PlistValue)>, key: Seq<char>) -> Option<
    PlistValue,
>
    decreases entries.len(),
{
    if entries.len() == 0 {
        None
    } else if entries[0].0@ == key {
        Some(entries[0].1)
    } else {
        dict_lookup(entries.skip(1), key)
    }
}

/// Dictionary lookup on a value: `None` unless the value is a dictionary
/// holding the key.
pub open spec fn lookup(v: PlistValue, key: Seq<char>) -> Option<PlistValue> {
    match v {
        PlistValue::Dict(entries) => dict_lookup(entries@, key),
        _ => None,
    }
}

/// The characters of a text value; empty for anything else.
pub open spec fn text_or_empty(o: Option<PlistValue>) -> Seq<char> {
    match o {
        Some(PlistValue::Text(s)) => s@,
        _ => Seq::<char>::empty(),
    }
}

/// The application name stored in the document.
pub open spec fn meta_name(doc: PlistValue) -> Seq<char> {
    text_or_empty(lookup(doc, "CFBundleName"@))
}

/// The bundle identifier stored in the document.
pub open spec fn meta_bundle_id(doc: PlistValue) -> Seq<char> {
    text_or_empty(lookup(doc, "CFBundleIdentifier"@))
}

/// The icon file-name hint: the first element of the icon-files array under
/// the primary-icon dictionary of the icons dictionary.
pub open spec fn meta_icon_hint(doc: PlistValue) -> Seq<char> {
    match lookup(doc, "CFBundleIcons"@) {
        Some(icons) => match lookup(icons, "CFBundlePrimaryIcon"@) {
            Some(prim) => match lookup(prim, "CFBundleIconFiles"@) {
                Some(PlistValue::List(arr)) => if arr@.len() > 0 {
                    match arr@[0] {
                        PlistValue::Text(s) => s@,
                        _ => Seq::<char>::empty(),
                    }
                } else {
                    Seq::<char>::empty()
                },
                _ => Seq::<char>::empty(),
            },
            _ => Seq::<char>::empty(),
        },
        _ => Seq::<char>::empty(),
    }
}

/// Finds the first entry under `key`, as `dict_lookup` describes it.
fn dict_get<'a>(entries: &'a Vec<(String, PlistValue)>, key: &str) -> (r: Option<&'a PlistValue>)
    ensures
        match r {
            Some(v) => dict_lookup(entries@, key@) == Some(*v),
            None => dict_lookup(entries@, key@) is None,
        },
{
    let n = entries.len();
    proof {
        assert(entries@.skip(0) =~= entries@);
    }
    let mut i: usize = 0;
    while i < n
        invariant
            i <= n,
            n == entries@.len(),
            dict_lookup(entries@, key@) == dict_lookup(entries@.skip(i as int), key@),
        decreases n - i,
    {
        proof {
            assert(entries@.skip(i as int)[0] == entries@[i as int]);
            assert(entries@.skip(i as int).skip(1) =~= entries@.skip(i + 1));
        }
        if str_eq(entries[i].0.as_str(), key) {
            return Some(&entries[i].1);
        }
        i += 1;
    }
    proof {
        assert(entries@.skip(n as int).len() == 0);
    }
    None
}

/// Clones the characters of a text value; anything else gives an empty
/// string.
fn text_of(v: Option<&PlistValue>) -> (r: String)
    ensures
        r@ == text_or_empty(match v {
            Some(x) => Some(*x),
            None => None,
        }),
{
    match v {
        Some(PlistValue::Text(s)) => s.clone(),
        _ => String::new(),
    }
}

/// Reads the application name, the bundle identifier and the icon hint from
/// the document. Every field is optional: a missing key, or a value of
/// another kind, gives an empty string for that field alone.
pub fn read_metadata(doc: &PlistValue) -> (r: (String, String, String))
    ensures
        r.0@ == meta_name(*doc),
        r.1@ == meta_bundle_id(*doc),
        r.2@ == meta_icon_hint(*doc),
{
    let entries = match doc {
        PlistValue::Dict(entries) => entries,
        _ => {
            return (String::new(), String::new(), String::new());
        },
    };
    let name = text_of(dict_get(entries, "CFBundleName"));
    let bundle_id = text_of(dict_get(entries, "CFBundleIdentifier"));
    let hint = match dict_get(entries, "CFBundleIcons") {
        Some(PlistValue::Dict(icons)) => match dict_get(icons, "CFBundlePrimaryIcon") {
            Some(PlistValue::Dict(prim)) => match dict_get(prim, "CFBundleIconFiles") {
                Some(PlistValue::List(arr)) => {
                    if arr.len() > 0 {
                        match &arr[0] {
                            PlistValue::Text(s) => s.clone(),
                            _ => String::new(),
                        }
                    } else {
                        String::new()
                    }
                },
                _ => String::new(),
            },
            _ => String::new(),
        },
        _ => String::new(),
    };
    (name, bundle_id, hint)
}

} // verus!
