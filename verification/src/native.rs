//! The library's model of the store's native values and documents.
//!
//! The store is a black box offering insert, find, update and delete
//! over documents; the library only ever reads and writes the value
//! shapes below, so a document is modelled as an ordered list of
//! (key, value) fields in which the first binding of a key counts.

use crate::id::{decode_spec, encode_spec, IdView, ID};
use crate::time::Timestamp;
use vstd::prelude::*;
use vstd::string::{StrSliceExecFns, StringExecFns};

verus! {

/// A native value: the shapes of field the records of this service use.
pub enum NativeValue {
    ObjectId(Vec<u8>),
    Text(String),
    Int64(i64),
    Int32(i32),
    Boolean(bool),
    TextArray(Vec<String>),
    Stamp(Timestamp),
    Null,
}

/// Spec-level native value.
pub enum NativeView {
    ObjectId(Seq<u8>),
    Text(Seq<char>),
    Int64(int),
    Int32(int),
    Boolean(bool),
    TextArray(Seq<Seq<char>>),
    Stamp(int, int),
    Null,
}

impl View for NativeValue {
    type V = NativeView;

    open spec fn view(&self) -> NativeView {
        match self {
            NativeValue::ObjectId(b) => NativeView::ObjectId(b@),
            NativeValue::Text(s) => NativeView::Text(s@),
            NativeValue::Int64(i) => NativeView::Int64(*i as int),
            NativeValue::Int32(i) => NativeView::Int32(*i as int),
            NativeValue::Boolean(b) => NativeView::Boolean(*b),
            NativeValue::TextArray(v) => NativeView::TextArray(
                v@.map_values(|s: String| s@),
            ),
            NativeValue::Stamp(t) => NativeView::Stamp(t.seconds as int, t.nanos as int),
            NativeValue::Null => NativeView::Null,
        }
    }
}

/// A document: ordered fields, first binding of a key wins.
pub struct NativeDocument {
    pub fields: Vec<(String, NativeValue)>,
}

/// Spec-level document.
pub type DocView = Seq<(Seq<char>, NativeView)>;

impl View for NativeDocument {
    type V = DocView;

    open spec fn view(&self) -> DocView {
        self.fields@.map_values(|p: (String, NativeValue)| (p.0@, p.1@))
    }
}

/// The value bound to `key`: the first binding, or nothing.
pub open spec fn doc_get(d: DocView, key: Seq<char>) -> Option<NativeView>
    decreases d.len(),
{
    if d.len() == 0 {
        None
    } else if d[0].0 == key {
        Some(d[0].1)
    } else {
        doc_get(d.skip(1), key)
    }
}

/// Looking a key up skips any prefix free of that key.
pub(crate) proof fn lemma_doc_get_skip(d: DocView, key: Seq<char>, i: int)
    requires
        0 <= i <= d.len(),
        forall|k: int| 0 <= k < i ==> (#[trigger] d[k]).0 != key,
    ensures
        doc_get(d, key) == doc_get(d.skip(i), key),
    decreases i,
{
    if i > 0 {
        lemma_doc_get_skip(d, key, i - 1);
        assert(d.skip(i - 1).len() > 0);
        assert(d.skip(i - 1)[0] == d[i - 1]);
        assert(d.skip(i - 1).skip(1) =~= d.skip(i));
    } else {
        assert(d.skip(0) =~= d);
    }
}

/// Character-for-character string equality.
pub fn str_eq(a: &str, b: &str) -> (r: bool)
    ensures
        r == (a@ == b@),
{
    let n = a.unicode_len();
    let m = b.unicode_len();
    if n != m {
        return false;
    }
    let mut i: usize = 0;
    while i < n
        invariant
            a@.len() == n as int,
            b@.len() == n as int,
            i <= n,
            forall|k: int| 0 <= k < i as int ==> a@[k] == b@[k],
        decreases n - i,
    {
        if a.get_char(i) != b.get_char(i) {
            return false;
        }
        i += 1;
    }
    proof {
        assert(a@ =~= b@);
    }
    true
}

impl NativeDocument {
    /// An empty document.
    pub fn new() -> (r: NativeDocument)
        ensures
            r@ =~= Seq::<(Seq<char>, NativeView)>::empty(),
    {
        NativeDocument { fields: Vec::new() }
    }

    /// Appends a field at the end.
    pub fn push_field(&mut self, key: String, value: NativeValue)
        ensures
            final(self)@ =~= old(self)@.push((key@, value@)),
    {
        self.fields.push((key, value));
        proof {
            assert(self.fields@.drop_last() == old(self).fields@);
        }
    }

    /// The value bound to `key`, first binding first.
    pub fn get<'a>(&'a self, key: &str) -> (r: Option<&'a NativeValue>)
        ensures
            match r {
                Some(v) => doc_get(self@, key@) == Some(v@),
                None => doc_get(self@, key@) is None,
            },
    {
        let n = self.fields.len();
        let mut i: usize = 0;
        while i < n
            invariant
                n == self.fields@.len(),
                i <= n,
                forall|k: int| 0 <= k < i as int ==> (#[trigger] self@[k]).0 != key@,
            decreases n - i,
        {
            if str_eq(self.fields[i].0.as_str(), key) {
                proof {
                    lemma_doc_get_skip(self@, key@, i as int);
                    assert(self@.skip(i as int)[0] == self@[i as int]);
                }
                return Some(&self.fields[i].1);
            }
            i += 1;
        }
        proof {
            lemma_doc_get_skip(self@, key@, n as int);
            assert(self@.skip(n as int) =~= Seq::<(Seq<char>, NativeView)>::empty());
        }
        None
    }
}

// ---------------------------------------------------------------------
// The identifier's native form
// ---------------------------------------------------------------------

/// The native value standing for an identifier.
pub open spec fn to_bson_spec(v: IdView) -> NativeView {
    match v {
        IdView::ObjectId(b) => NativeView::ObjectId(b),
        IdView::Str(s) => NativeView::Text(s),
        IdView::Int64(i) => NativeView::Int64(i),
    }
}

/// `v` is a shape an identifier can take natively.
pub open spec fn is_id_value(v: NativeView) -> bool {
    v is ObjectId || v is Text || v is Int64
}

/// The canonical text a native id value reads back as, or nothing for
/// a value of any other shape.
pub open spec fn from_bson_spec(v: NativeView) -> Option<Seq<char>> {
    match v {
        NativeView::ObjectId(b) => Some(encode_spec(IdView::ObjectId(b))),
        NativeView::Text(s) => Some(s),
        NativeView::Int64(i) => Some(encode_spec(IdView::Int64(i))),
        _ => None,
    }
}

impl ID {
    /// Maps the identifier to the store's own id, string or integer type.
    pub fn to_bson(&self) -> (r: NativeValue)
        ensures
            r@ == to_bson_spec(self@),
    {
        match self {
            ID::ObjectId(o) => NativeValue::ObjectId(clone_bytes(o)),
            ID::Str(s) => NativeValue::Text(s.clone()),
            ID::Int64(i) => NativeValue::Int64(*i),
        }
    }
}

/// A plain copy of a byte string.
fn clone_bytes(b: &Vec<u8>) -> (r: Vec<u8>)
    ensures
        r@ == b@,
{
    let cloned = b.clone();
    proof {
        assert(cloned@ =~= b@);
    }
    cloned
}

/// The canonical text of a native id value.  Values of any other shape
/// never stand in an id field.
pub fn with_bson(value: &NativeValue) -> (r: String)
    requires
        is_id_value(value@),
    ensures
        Some(r@) == from_bson_spec(value@),
{
    match value {
        NativeValue::Text(s) => s.clone(),
        NativeValue::ObjectId(o) => ID::ObjectId(clone_bytes(o)).encode(),
        NativeValue::Int64(i) => ID::Int64(*i).encode(),
        _ => {
            proof {
                assert(false);
            }
            String::new()
        },
    }
}

/// Reads an id field back into canonical text; a value of any other
/// shape cannot be an identifier.
pub fn deserialize(value: &NativeValue) -> (r: Result<String, crate::error::ServiceError>)
    ensures
        from_bson_spec(value@) matches Some(s) ==> (r matches Ok(t) && t@ == s),
        from_bson_spec(value@) is None ==> (r matches Err(e) && e matches
            crate::error::ServiceError::ParseError(m) && m@
            == "unable to parse ID - was not Bson or Json string"@),
{
    match value {
        NativeValue::Text(s) => Ok(s.clone()),
        NativeValue::ObjectId(o) => Ok(ID::ObjectId(clone_bytes(o)).encode()),
        NativeValue::Int64(i) => Ok(ID::Int64(*i).encode()),
        _ => Err(
            crate::error::ServiceError::ParseError(
                String::from_str("unable to parse ID - was not Bson or Json string"),
            ),
        ),
    }
}

/// The native value an id's canonical text is stored as: text that
/// decodes becomes the decoded variant's native type; text that fails
/// to decode falls back to itself as a plain string.
pub open spec fn serialize_spec(s: Seq<char>) -> NativeView {
    match decode_spec(s) {
        Some(v) => to_bson_spec(v),
        None => NativeView::Text(s),
    }
}

/// Stores an id's canonical text natively, falling back to the raw
/// string where the marked form fails to decode.
pub fn serialize(s: &str) -> (r: NativeValue)
    ensures
        r@ == serialize_spec(s@),
{
    match ID::from_string(s) {
        Ok(id) => id.to_bson(),
        Err(_) => NativeValue::Text(String::from_str(s)),
    }
}

} // verus!
