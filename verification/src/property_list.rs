//! Property lists, the payload of the AirDrop requests and answers: the
//! library's value type, its mathematical model, lookups, and the binary
//! encoding and decoding done by the `plist` crate.

use vstd::prelude::*;
use vstd::string::StringExecFns;
use crate::config::str_eq;

verus! {

/// `plist::Value`, the `plist` crate's value.
#[verifier::external_type_specification]
#[verifier::external_body]
pub struct ExOutsidePlistValue(plist::Value);

/// `plist::Error`, the error the `plist` crate reports.
#[verifier::external_type_specification]
#[verifier::external_body]
pub struct ExOutsidePlistError(plist::Error);

/// A property-list value. Dates, reals, UIDs and integers that were read
/// are carried as the `plist` crate gave them; integers are written from
/// `Integer`.
pub enum PlistValue {
    Text(String),
    Data(Vec<u8>),
    Flag(bool),
    Integer(i64),
    List(Vec<PlistValue>),
    Dict(Vec<(String, PlistValue)>),
    Other(plist::Value),
}

/// The model of a property-list value.
pub enum Plist {
    Text(Seq<char>),
    Data(Seq<u8>),
    Flag(bool),
    Integer(int),
    List(Seq<Plist>),
    Dict(Seq<(Seq<char>, Plist)>),
    Other(plist::Value),
}

impl PlistValue {
    /// The model of this value.
    pub open spec fn view(&self) -> Plist
        decreases self,
    {
        match self {
            PlistValue::Text(s) => Plist::Text(s@),
            PlistValue::Data(d) => Plist::Data(d@),
            PlistValue::Flag(b) => Plist::Flag(*b),
            PlistValue::Integer(i) => Plist::Integer(*i as int),
            PlistValue::List(l) => Plist::List(list_view(l@)),
            PlistValue::Dict(d) => Plist::Dict(dict_view(d@)),
            PlistValue::Other(x) => Plist::Other(*x),
        }
    }
}

/// The models of the items of a list.
pub open spec fn list_view(s: Seq<PlistValue>) -> Seq<Plist>
    decreases s,
{
    if s.len() == 0 {
        Seq::empty()
    } else {
        list_view(s.subrange(0, s.len() - 1)).push(s[s.len() - 1].view())
    }
}

/// The models of the entries of a dictionary.
pub open spec fn dict_view(s: Seq<(String, PlistValue)>) -> Seq<(Seq<char>, Plist)>
    decreases s,
{
    if s.len() == 0 {
        Seq::empty()
    } else {
        dict_view(s.subrange(0, s.len() - 1)).push((s[s.len() - 1].0@, s[s.len() - 1].1.view()))
    }
}

/// What `plist` reads from `bytes`, a plist in any of its encodings, by
/// `plist::Value::from_reader`; `None` where it fails.
pub uninterp spec fn plist_of_bytes(bytes: Seq<u8>) -> Option<Plist>;

/// The binary plist that `plist::Value::to_writer_binary` writes for `v`;
/// `None` where it fails.
pub uninterp spec fn binary_plist(v: Plist) -> Option<Seq<u8>>;

/// The `plist` crate's value for `v`, item for item.
#[verifier::external_body]
fn outside_value(v: &PlistValue) -> plist::Value {
    match v {
        PlistValue::Text(s) => plist::Value::String(s.clone()),
        PlistValue::Data(d) => plist::Value::Data(d.clone()),
        PlistValue::Flag(b) => plist::Value::Boolean(*b),
        PlistValue::Integer(i) => plist::Value::Integer((*i).into()),
        PlistValue::List(l) => plist::Value::Array(l.iter().map(outside_value).collect()),
        PlistValue::Dict(d) => plist::Value::Dictionary(d.iter().map(|(k, x)| (k.clone(), outside_value(x))).collect()),
        PlistValue::Other(x) => x.clone(),
    }
}

/// The library's value for `v`, item for item.
#[verifier::external_body]
fn library_value(v: plist::Value) -> PlistValue {
    match v {
        plist::Value::String(s) => PlistValue::Text(s),
        plist::Value::Data(d) => PlistValue::Data(d),
        plist::Value::Boolean(b) => PlistValue::Flag(b),
        plist::Value::Array(l) => PlistValue::List(l.into_iter().map(library_value).collect()),
        plist::Value::Dictionary(d) => PlistValue::Dict(d.into_iter().map(|(k, x)| (k, library_value(x))).collect()),
        x => PlistValue::Other(x),
    }
}

/// Calls `plist::Value::to_writer_binary` on `v` with a `Vec` as the
/// writer. Claims that the bytes, or the failure, are `binary_plist` of
/// the model of `v`.
#[verifier::external_body]
fn write_binary(v: &PlistValue) -> (r: Result<Vec<u8>, plist::Error>)
    ensures
        match r {
            Ok(b) => binary_plist(v.view()) == Some(b@),
            Err(_) => binary_plist(v.view()) is None,
        },
{
    let mut out = Vec::new();
    outside_value(v).to_writer_binary(&mut out)?;
    Ok(out)
}

/// Calls `plist::Value::from_reader` on `bytes`. Claims that the value, or
/// the failure, is `plist_of_bytes` of `bytes`.
#[verifier::external_body]
fn read_value(bytes: &[u8]) -> (r: Result<PlistValue, plist::Error>)
    ensures
        match r {
            Ok(v) => plist_of_bytes(bytes@) == Some(v.view()),
            Err(_) => plist_of_bytes(bytes@) is None,
        },
{
    plist::Value::from_reader(std::io::Cursor::new(bytes)).map(library_value)
}

/// A property list could not be read or written.
#[derive(Debug, Clone, Copy, PartialEq, Eq, Structural)]
pub struct PlistError;

/// The binary encoding of `v`.
pub fn value_to_binary(v: &PlistValue) -> (r: Result<Vec<u8>, PlistError>)
    ensures
        match r {
            Ok(b) => binary_plist(v@) == Some(b@),
            Err(_) => binary_plist(v@) is None,
        },
{
    match write_binary(v) {
        Ok(b) => Ok(b),
        Err(_) => Err(PlistError),
    }
}

/// The value a plist in `bytes` holds.
pub fn value_from_bytes(bytes: &[u8]) -> (r: Result<PlistValue, PlistError>)
    ensures
        match r {
            Ok(v) => plist_of_bytes(bytes@) == Some(v@),
            Err(_) => plist_of_bytes(bytes@) is None,
        },
{
    match read_value(bytes) {
        Ok(v) => Ok(v),
        Err(_) => Err(PlistError),
    }
}

// ---------------------------------------------------------------------------
// The model's shape
// ---------------------------------------------------------------------------

/// The model of a list has one item per item, each that item's model.
pub proof fn lemma_list_view(s: Seq<PlistValue>)
    ensures
        list_view(s).len() == s.len(),
        forall|i: int| 0 <= i < s.len() ==> #[trigger] list_view(s)[i] == s[i]@,
    decreases s.len(),
{
    if s.len() > 0 {
        lemma_list_view(s.subrange(0, s.len() - 1));
    }
}

/// The model of a dictionary has one entry per entry, each the name's text
/// and the value's model.
pub proof fn lemma_dict_view(s: Seq<(String, PlistValue)>)
    ensures
        dict_view(s).len() == s.len(),
        forall|i: int| 0 <= i < s.len() ==> #[trigger] dict_view(s)[i] == (s[i].0@, s[i].1@),
    decreases s.len(),
{
    if s.len() > 0 {
        lemma_dict_view(s.subrange(0, s.len() - 1));
    }
}

proof fn lemma_dict_view_push(s: Seq<(String, PlistValue)>, e: (String, PlistValue))
    ensures
        dict_view(s.push(e)) == dict_view(s).push((e.0@, e.1@)),
{
    assert(s.push(e).subrange(0, s.len() as int) =~= s);
}

// ---------------------------------------------------------------------------
// Lookups
// ---------------------------------------------------------------------------

/// The value of the first entry named `key`.
pub open spec fn dict_get(entries: Seq<(Seq<char>, Plist)>, key: Seq<char>) -> Option<Plist>
    decreases entries.len(),
{
    if entries.len() == 0 {
        None
    } else if entries[0].0 == key {
        Some(entries[0].1)
    } else {
        dict_get(entries.drop_first(), key)
    }
}

/// The value named `key` in the dictionary `p`; `None` when `p` is no
/// dictionary or has no such entry.
pub open spec fn lookup(p: Plist, key: Seq<char>) -> Option<Plist> {
    match p {
        Plist::Dict(entries) => dict_get(entries, key),
        _ => None,
    }
}

/// The first item of the list `p`, if `p` is a list that has one.
pub open spec fn first_of(p: Option<Plist>) -> Option<Plist> {
    match p {
        Some(Plist::List(items)) => if items.len() > 0 {
            Some(items[0])
        } else {
            None
        },
        _ => None,
    }
}

/// The text of `p`, if it is a string.
pub open spec fn text_of(p: Option<Plist>) -> Option<Seq<char>> {
    match p {
        Some(Plist::Text(s)) => Some(s),
        _ => None,
    }
}

/// The value named `key`, when `v` is a dictionary that has it.
pub fn dict_lookup<'a>(v: &'a PlistValue, key: &str) -> (r: Option<&'a PlistValue>)
    ensures
        match r {
            Some(x) => lookup(v@, key@) == Some(x@),
            None => lookup(v@, key@) is None,
        },
{
    match v {
        PlistValue::Dict(entries) => {
            let ghost e = dict_view(entries@);
            proof {
                lemma_dict_view(entries@);
                assert(e.skip(0) =~= e);
                assert(v@ == Plist::Dict(e));
            }
            let mut i: usize = 0;
            while i < entries.len()
                invariant
                    i <= entries@.len(),
                    e == dict_view(entries@),
                    v@ == Plist::Dict(e),
                    e.len() == entries@.len(),
                    forall|j: int| 0 <= j < entries@.len() ==> #[trigger] e[j] == (entries@[j].0@, entries@[j].1@),
                    dict_get(e, key@) == dict_get(e.skip(i as int), key@),
                decreases entries@.len() - i,
            {
                let entry = &entries[i];
                proof {
                    assert(e.skip(i as int)[0] == e[i as int]);
                    assert(e.skip(i as int).drop_first() =~= e.skip(i + 1));
                }
                if str_eq(entry.0.as_str(), key) {
                    proof {
                        assert(e.skip(i as int)[0].0 == key@);
                        assert(dict_get(e.skip(i as int), key@) == Some(e.skip(i as int)[0].1));
                    }
                    return Some(&entry.1);
                }
                i += 1;
            }
            proof {
                assert(e.skip(i as int).len() == 0);
            }
            None
        },
        _ => None,
    }
}

/// The first item, when `v` is a list that has one.
pub fn first_item(v: Option<&PlistValue>) -> (r: Option<&PlistValue>)
    ensures
        match r {
            Some(x) => first_of(match v { Some(p) => Some(p@), None => None }) == Some(x@),
            None => first_of(match v { Some(p) => Some(p@), None => None }) is None,
        },
{
    match v {
        Some(PlistValue::List(items)) => {
            proof {
                lemma_list_view(items@);
            }
            if items.len() > 0 {
                Some(&items[0])
            } else {
                None
            }
        },
        _ => None,
    }
}

/// The text, when `v` is a string.
pub fn text_value(v: Option<&PlistValue>) -> (r: Option<String>)
    ensures
        match r {
            Some(s) => text_of(match v { Some(p) => Some(p@), None => None }) == Some(s@),
            None => text_of(match v { Some(p) => Some(p@), None => None }) is None,
        },
{
    match v {
        Some(PlistValue::Text(s)) => Some(s.clone()),
        _ => None,
    }
}

/// The text of an optional string.
pub open spec fn opt_text(s: Option<String>) -> Option<Seq<char>> {
    match s {
        Some(t) => Some(t@),
        None => None,
    }
}

/// A copy of `bytes`.
pub fn copy_bytes(bytes: &Vec<u8>) -> (r: Vec<u8>)
    ensures
        r@ == bytes@,
{
    let r = bytes.clone();
    assert(r@ =~= bytes@);
    r
}

// ---------------------------------------------------------------------------
// Building dictionaries
// ---------------------------------------------------------------------------

/// Append the entry `key` = `value`.
pub fn dict_push(entries: &mut Vec<(String, PlistValue)>, key: &str, value: PlistValue)
    ensures
        dict_view(final(entries)@) == dict_view(old(entries)@).push((key@, value@)),
{
    let ghost before = entries@;
    let k = key.to_string();
    let ghost e = (k, value);
    entries.push((k, value));
    proof {
        assert(entries@ == before.push(e));
        lemma_dict_view_push(before, e);
    }
}

} // verus!
