//! The resource record and its codec to and from native documents.
//!
//! On create the identifier is left out of the outbound document so the
//! store assigns one; the assigned native id is then read back into the
//! record's canonical text.  On read the native id field is decoded
//! back to canonical text before the record is returned.

use crate::error::ServiceError;
use crate::native::{
    doc_get, from_bson_spec, is_id_value, serialize_spec, serialize, DocView, NativeDocument,
    NativeValue, NativeView, with_bson,
};
use crate::time::Timestamp;
use vstd::prelude::*;
use vstd::string::{StrSliceExecFns, StringExecFns};

verus! {

/// The resource record, as it crosses the wire.
pub struct HelloWorld {
    pub id: String,
    pub name: String,
    pub description: String,
    pub subtitle: String,
    pub hello_world_type: i32,
    pub is_awesome: bool,
    pub project_ids: Vec<String>,
    pub created_at: Option<Timestamp>,
}

/// Spec-level record.
pub struct RecordView {
    pub id: Seq<char>,
    pub name: Seq<char>,
    pub description: Seq<char>,
    pub subtitle: Seq<char>,
    pub hello_world_type: int,
    pub is_awesome: bool,
    pub project_ids: Seq<Seq<char>>,
    pub created_at: Option<(int, int)>,
}

impl View for HelloWorld {
    type V = RecordView;

    open spec fn view(&self) -> RecordView {
        RecordView {
            id: self.id@,
            name: self.name@,
            description: self.description@,
            subtitle: self.subtitle@,
            hello_world_type: self.hello_world_type as int,
            is_awesome: self.is_awesome,
            project_ids: self.project_ids@.map_values(|s: String| s@),
            created_at: match self.created_at {
                Some(t) => Some((t.seconds as int, t.nanos as int)),
                None => None,
            },
        }
    }
}

impl HelloWorld {
    /// A plain copy of the record.
    pub fn duplicate(&self) -> (r: HelloWorld)
        ensures
            r@ == self@,
    {
        HelloWorld {
            id: self.id.clone(),
            name: self.name.clone(),
            description: self.description.clone(),
            subtitle: self.subtitle.clone(),
            hello_world_type: self.hello_world_type,
            is_awesome: self.is_awesome,
            project_ids: clone_texts(&self.project_ids),
            created_at: self.created_at,
        }
    }
}

/// A plain copy of a list of strings.
pub fn clone_texts(v: &Vec<String>) -> (r: Vec<String>)
    ensures
        r@.map_values(|s: String| s@) == v@.map_values(|s: String| s@),
{
    let mut out: Vec<String> = Vec::new();
    let mut i: usize = 0;
    while i < v.len()
        invariant
            i <= v@.len(),
            out@.len() == i as int,
            forall|k: int| 0 <= k < i as int ==> (#[trigger] out@[k])@ == v@[k]@,
        decreases v@.len() - i,
    {
        out.push(v[i].clone());
        i += 1;
    }
    proof {
        assert(out@.map_values(|s: String| s@) =~= v@.map_values(|s: String| s@));
    }
    out
}

// ---------------------------------------------------------------------
// Record -> document
// ---------------------------------------------------------------------

/// The document a record is stored as.  The id field goes through the
/// identifier codec; the timestamp becomes an embedded stamp, or null
/// when the record has none.
pub open spec fn to_document_spec(r: RecordView) -> DocView {
    seq![
        ("_id"@, serialize_spec(r.id)),
        ("name"@, NativeView::Text(r.name)),
        ("description"@, NativeView::Text(r.description)),
        ("subtitle"@, NativeView::Text(r.subtitle)),
        ("hello_world_type"@, NativeView::Int32(r.hello_world_type)),
        ("is_awesome"@, NativeView::Boolean(r.is_awesome)),
        ("project_ids"@, NativeView::TextArray(r.project_ids)),
        (
            "created_at"@,
            match r.created_at {
                Some(t) => NativeView::Stamp(t.0, t.1),
                None => NativeView::Null,
            },
        ),
    ]
}

/// The outbound document on create: the id field stripped, so that the
/// store assigns one.
pub open spec fn insert_document_spec(r: RecordView) -> DocView {
    to_document_spec(r).skip(1)
}

/// Encodes a record as the document it is stored as.
pub fn to_document(r: &HelloWorld) -> (d: NativeDocument)
    ensures
        d@ == to_document_spec(r@),
{
    let mut d = NativeDocument::new();
    d.push_field(String::from_str("_id"), serialize(r.id.as_str()));
    push_body_fields(&mut d, r);
    proof {
        assert(d@ =~= to_document_spec(r@));
    }
    d
}

/// Appends every field but the id.
fn push_body_fields(d: &mut NativeDocument, r: &HelloWorld)
    ensures
        final(d)@ == old(d)@ + insert_document_spec(r@),
{
    d.push_field(String::from_str("name"), NativeValue::Text(r.name.clone()));
    d.push_field(String::from_str("description"), NativeValue::Text(r.description.clone()));
    d.push_field(String::from_str("subtitle"), NativeValue::Text(r.subtitle.clone()));
    d.push_field(
        String::from_str("hello_world_type"),
        NativeValue::Int32(r.hello_world_type),
    );
    d.push_field(String::from_str("is_awesome"), NativeValue::Boolean(r.is_awesome));
    d.push_field(
        String::from_str("project_ids"),
        NativeValue::TextArray(clone_texts(&r.project_ids)),
    );
    let created = match &r.created_at {
        Some(t) => NativeValue::Stamp(*t),
        None => NativeValue::Null,
    };
    d.push_field(String::from_str("created_at"), created);
    proof {
        assert(d@ =~= old(d)@ + insert_document_spec(r@));
    }
}

// ---------------------------------------------------------------------
// Document -> record
// ---------------------------------------------------------------------

/// The record a document decodes to, or nothing for a malformed one:
/// a field missing, a field of the wrong shape, or an id value of a
/// shape no identifier takes.  A missing or null timestamp reads back
/// as no timestamp.
pub open spec fn from_document_spec(d: DocView) -> Option<RecordView> {
    let created = doc_get(d, "created_at"@);
    if {
        &&& doc_get(d, "_id"@) matches Some(idv) && from_bson_spec(idv) is Some
        &&& doc_get(d, "name"@) matches Some(NativeView::Text(_))
        &&& doc_get(d, "description"@) matches Some(NativeView::Text(_))
        &&& doc_get(d, "subtitle"@) matches Some(NativeView::Text(_))
        &&& doc_get(d, "hello_world_type"@) matches Some(NativeView::Int32(_))
        &&& doc_get(d, "is_awesome"@) matches Some(NativeView::Boolean(_))
        &&& doc_get(d, "project_ids"@) matches Some(NativeView::TextArray(_))
        &&& (created is None || created matches Some(NativeView::Stamp(_, _)) || created
            matches Some(NativeView::Null))
    } {
        Some(
            RecordView {
                id: from_bson_spec(doc_get(d, "_id"@)->Some_0)->Some_0,
                name: doc_get(d, "name"@)->Some_0->Text_0,
                description: doc_get(d, "description"@)->Some_0->Text_0,
                subtitle: doc_get(d, "subtitle"@)->Some_0->Text_0,
                hello_world_type: doc_get(d, "hello_world_type"@)->Some_0->Int32_0,
                is_awesome: doc_get(d, "is_awesome"@)->Some_0->Boolean_0,
                project_ids: doc_get(d, "project_ids"@)->Some_0->TextArray_0,
                created_at: match created {
                    Some(NativeView::Stamp(s, ns)) => Some((s, ns)),
                    _ => None,
                },
            },
        )
    } else {
        None
    }
}

/// Decodes a stored document, routing the id field back through the
/// identifier codec.  A malformed document is rejected as such.
pub fn from_document(d: &NativeDocument) -> (r: Result<HelloWorld, ServiceError>)
    ensures
        from_document_spec(d@) matches Some(rv) ==> (r matches Ok(rec) && rec@ == rv),
        from_document_spec(d@) is None ==> (r matches Err(e) && e matches
            ServiceError::ParseError(m) && m@ == "malformed stored document"@),
{
    let id = match d.get("_id") {
        Some(v) => match crate::native::deserialize(v) {
            Ok(t) => t,
            Err(_) => {
                return Err(malformed());
            },
        },
        None => {
            return Err(malformed());
        },
    };
    let name = match d.get("name") {
        Some(NativeValue::Text(s)) => s.clone(),
        _ => {
            return Err(malformed());
        },
    };
    let description = match d.get("description") {
        Some(NativeValue::Text(s)) => s.clone(),
        _ => {
            return Err(malformed());
        },
    };
    let subtitle = match d.get("subtitle") {
        Some(NativeValue::Text(s)) => s.clone(),
        _ => {
            return Err(malformed());
        },
    };
    let hello_world_type = match d.get("hello_world_type") {
        Some(NativeValue::Int32(i)) => *i,
        _ => {
            return Err(malformed());
        },
    };
    let is_awesome = match d.get("is_awesome") {
        Some(NativeValue::Boolean(b)) => *b,
        _ => {
            return Err(malformed());
        },
    };
    let project_ids = match d.get("project_ids") {
        Some(NativeValue::TextArray(v)) => clone_texts(v),
        _ => {
            return Err(malformed());
        },
    };
    let created_at = match d.get("created_at") {
        Some(NativeValue::Stamp(t)) => Some(*t),
        Some(NativeValue::Null) => None,
        None => None,
        _ => {
            return Err(malformed());
        },
    };
    Ok(
        HelloWorld {
            id,
            name,
            description,
            subtitle,
            hello_world_type,
            is_awesome,
            project_ids,
            created_at,
        },
    )
}

/// Reading a stored record back yields it unchanged, provided its
/// identifier text is canonical — as every identifier this service
/// hands out is, being encoded by the identifier codec itself.
pub proof fn lemma_document_round_trip(r: RecordView)
    requires
        crate::id::canonical_text(r.id),
    ensures
        from_document_spec(to_document_spec(r)) == Some(r),
{
    let d = to_document_spec(r);
    proof_keys_distinct();
    crate::id::lemma_encode_decode(r.id);
    assert(doc_get(d, "_id"@) == Some(serialize_spec(r.id)));
    lemma_doc_get_at(d, "name"@, 1);
    lemma_doc_get_at(d, "description"@, 2);
    lemma_doc_get_at(d, "subtitle"@, 3);
    lemma_doc_get_at(d, "hello_world_type"@, 4);
    lemma_doc_get_at(d, "is_awesome"@, 5);
    lemma_doc_get_at(d, "project_ids"@, 6);
    lemma_doc_get_at(d, "created_at"@, 7);
    assert(from_bson_spec(serialize_spec(r.id)) == Some(r.id)) by {
        match crate::id::decode_spec(r.id) {
            Some(v) => {
            },
            None => {
            },
        }
    }
    let rv = from_document_spec(d)->Some_0;
    assert(rv == r);
}

/// The field at index `i` of a stored record's document is the first
/// binding of its key.
proof fn lemma_doc_get_at(d: DocView, key: Seq<char>, i: int)
    requires
        0 <= i < d.len(),
        d[i].0 == key,
        forall|k: int| 0 <= k < i ==> (#[trigger] d[k]).0 != key,
    ensures
        doc_get(d, key) == Some(d[i].1),
{
    crate::native::lemma_doc_get_skip(d, key, i);
    assert(d.skip(i)[0] == d[i]);
}

/// The eight field keys of a record's document are pairwise distinct.
proof fn proof_keys_distinct()
    ensures
        "_id"@.len() == 3,
        "name"@.len() == 4,
        "description"@.len() == 11,
        "subtitle"@.len() == 8,
        "hello_world_type"@.len() == 16,
        "is_awesome"@.len() == 10,
        "project_ids"@.len() == 11,
        "created_at"@.len() == 10,
        "description"@ != "project_ids"@,
        "is_awesome"@ != "created_at"@,
{
    reveal_strlit("_id");
    reveal_strlit("name");
    reveal_strlit("description");
    reveal_strlit("subtitle");
    reveal_strlit("hello_world_type");
    reveal_strlit("is_awesome");
    reveal_strlit("project_ids");
    reveal_strlit("created_at");
    assert("description"@[0] == 'd');
    assert("project_ids"@[0] == 'p');
    assert("is_awesome"@[0] == 'i');
    assert("created_at"@[0] == 'c');
}

/// The rejection of a document that does not decode.
fn malformed() -> (e: ServiceError)
    ensures
        e matches ServiceError::ParseError(m) && m@ == "malformed stored document"@,
{
    ServiceError::ParseError(String::from_str("malformed stored document"))
}

// ---------------------------------------------------------------------
// Create
// ---------------------------------------------------------------------

/// Validates a record to create and builds its outbound document: the
/// name is required, the creation time is set server-side, and the id
/// field is left for the store to assign.
pub fn prepare_create(item: HelloWorld, now: Timestamp) -> (r: Result<
    (HelloWorld, NativeDocument),
    ServiceError,
>)
    ensures
        item.name@.len() == 0 ==> (r matches Err(e) && e matches ServiceError::ParseError(m)
            && m@ == "name_required"@),
        item.name@.len() > 0 ==> (r matches Ok(p) && p.0@ == (RecordView {
            created_at: Some((now.seconds as int, now.nanos as int)),
            ..item@
        }) && p.1@ == insert_document_spec(p.0@)),
{
    if item.name.unicode_len() == 0 {
        return Err(ServiceError::ParseError(String::from_str("name_required")));
    }
    let item = HelloWorld { created_at: Some(now), ..item };
    let mut d = NativeDocument::new();
    push_body_fields(&mut d, &item);
    proof {
        assert(d@ =~= insert_document_spec(item@));
    }
    Ok((item, d))
}

/// Re-encodes the store-assigned native id into the created record.
pub fn finish_create(item: HelloWorld, inserted_id: &NativeValue) -> (r: HelloWorld)
    requires
        is_id_value(inserted_id@),
    ensures
        r@ == (RecordView { id: from_bson_spec(inserted_id@)->Some_0, ..item@ }),
{
    let id = with_bson(inserted_id);
    HelloWorld { id, ..item }
}

/// The one-field document that selects a record by its native id.
pub fn id_filter(id: &crate::id::ID) -> (d: NativeDocument)
    ensures
        d@ == seq![("_id"@, crate::native::to_bson_spec(id@))],
{
    let mut d = NativeDocument::new();
    d.push_field(String::from_str("_id"), id.to_bson());
    proof {
        assert(d@ =~= seq![("_id"@, crate::native::to_bson_spec(id@))]);
    }
    d
}

} // verus!
