//! Partial updates driven by an explicit field mask.
//!
//! The mask names which of the request's candidate values are applied;
//! a value not named is ignored even if present in the payload.  An
//! unrecognized path is reported as a warning and contributes nothing;
//! an absent or empty mask means no write at all.

use crate::native::str_eq;
use crate::record::{clone_texts, HelloWorld, RecordView};
use vstd::prelude::*;
use vstd::string::{StrSliceExecFns, StringExecFns};

verus! {

/// The explicit list of field paths an update may touch.
pub struct FieldMask {
    pub paths: Vec<String>,
}

/// An update request: the target identifier, the candidate values, and
/// the mask naming which of them to apply.
pub struct UpdateHelloWorldRequest {
    pub id: String,
    pub name: String,
    pub description: String,
    pub subtitle: String,
    pub project_ids: Vec<String>,
    pub is_awesome: bool,
    pub hello_world_type: i32,
    pub mask: Option<FieldMask>,
}

/// Spec-level update request.
pub struct UpdateRequestView {
    pub id: Seq<char>,
    pub name: Seq<char>,
    pub description: Seq<char>,
    pub subtitle: Seq<char>,
    pub project_ids: Seq<Seq<char>>,
    pub is_awesome: bool,
    pub hello_world_type: int,
    pub mask: Option<Seq<Seq<char>>>,
}

impl View for UpdateHelloWorldRequest {
    type V = UpdateRequestView;

    open spec fn view(&self) -> UpdateRequestView {
        UpdateRequestView {
            id: self.id@,
            name: self.name@,
            description: self.description@,
            subtitle: self.subtitle@,
            project_ids: self.project_ids@.map_values(|s: String| s@),
            is_awesome: self.is_awesome,
            hello_world_type: self.hello_world_type as int,
            mask: match &self.mask {
                Some(m) => Some(m.paths@.map_values(|s: String| s@)),
                None => None,
            },
        }
    }
}

/// The fields a partial update sets: an absent field stays untouched.
pub struct UpdateDocument {
    pub name: Option<String>,
    pub description: Option<String>,
    pub project_ids: Option<Vec<String>>,
    pub subtitle: Option<String>,
    pub is_awesome: Option<bool>,
    pub hello_world_type: Option<i32>,
}

/// Spec-level update document.
pub struct UpdateDocView {
    pub name: Option<Seq<char>>,
    pub description: Option<Seq<char>>,
    pub project_ids: Option<Seq<Seq<char>>>,
    pub subtitle: Option<Seq<char>>,
    pub is_awesome: Option<bool>,
    pub hello_world_type: Option<int>,
}

impl View for UpdateDocument {
    type V = UpdateDocView;

    open spec fn view(&self) -> UpdateDocView {
        UpdateDocView {
            name: match &self.name {
                Some(s) => Some(s@),
                None => None,
            },
            description: match &self.description {
                Some(s) => Some(s@),
                None => None,
            },
            project_ids: match &self.project_ids {
                Some(v) => Some(v@.map_values(|s: String| s@)),
                None => None,
            },
            subtitle: match &self.subtitle {
                Some(s) => Some(s@),
                None => None,
            },
            is_awesome: self.is_awesome,
            hello_world_type: match self.hello_world_type {
                Some(t) => Some(t as int),
                None => None,
            },
        }
    }
}

/// The paths an update recognizes.
pub open spec fn recognized(path: Seq<char>) -> bool {
    ||| path == "name"@
    ||| path == "description"@
    ||| path == "project_ids"@
    ||| path == "subtitle"@
    ||| path == "is_awesome"@
    ||| path == "hello_world_type"@
}

/// The unrecognized paths of a mask, in their given order.
pub open spec fn unrecognized_of(paths: Seq<Seq<char>>) -> Seq<Seq<char>>
    decreases paths.len(),
{
    if paths.len() == 0 {
        Seq::empty()
    } else {
        let rest = unrecognized_of(paths.drop_last());
        if recognized(paths.last()) {
            rest
        } else {
            rest.push(paths.last())
        }
    }
}

/// The update document a mask produces: a field carries the request's
/// value exactly when the mask names its path.
pub open spec fn update_doc_spec(req: UpdateRequestView, paths: Seq<Seq<char>>) -> UpdateDocView {
    UpdateDocView {
        name: if paths.contains("name"@) {
            Some(req.name)
        } else {
            None
        },
        description: if paths.contains("description"@) {
            Some(req.description)
        } else {
            None
        },
        project_ids: if paths.contains("project_ids"@) {
            Some(req.project_ids)
        } else {
            None
        },
        subtitle: if paths.contains("subtitle"@) {
            Some(req.subtitle)
        } else {
            None
        },
        is_awesome: if paths.contains("is_awesome"@) {
            Some(req.is_awesome)
        } else {
            None
        },
        hello_world_type: if paths.contains("hello_world_type"@) {
            Some(req.hello_world_type)
        } else {
            None
        },
    }
}

proof fn lemma_push_contains<A>(s: Seq<A>, v: A, t: A)
    ensures
        s.push(v).contains(t) <==> (s.contains(t) || v == t),
{
    if s.push(v).contains(t) {
        let i = choose|i: int| 0 <= i < s.push(v).len() && s.push(v)[i] == t;
        if i < s.len() {
            assert(s[i] == t);
        }
    }
    if s.contains(t) {
        let i = choose|i: int| 0 <= i < s.len() && s[i] == t;
        assert(s.push(v)[i] == t);
    }
    if v == t {
        assert(s.push(v)[s.len() as int] == t);
    }
}

/// Builds the partial-update document of a request.  No mask, or a
/// mask naming no paths, means no update at all; otherwise each named
/// path copies the matching value, and every unrecognized path is
/// returned as a warning and contributes nothing.
pub fn build_update(req: &UpdateHelloWorldRequest) -> (r: (Option<UpdateDocument>, Vec<String>))
    ensures
        req@.mask is None ==> r.0 is None && r.1@.len() == 0,
        req@.mask matches Some(paths) ==> {
            &&& paths.len() == 0 ==> r.0 is None && r.1@.len() == 0
            &&& paths.len() > 0 ==> (r.0 matches Some(d) && d@ == update_doc_spec(req@, paths)
                && r.1@.map_values(|s: String| s@) == unrecognized_of(paths))
        },
{
    let mask = match &req.mask {
        Some(m) => m,
        None => {
            return (None, Vec::new());
        },
    };
    if mask.paths.len() == 0 {
        return (None, Vec::new());
    }
    let ghost paths = mask.paths@.map_values(|s: String| s@);
    let mut doc = UpdateDocument {
        name: None,
        description: None,
        project_ids: None,
        subtitle: None,
        is_awesome: None,
        hello_world_type: None,
    };
    let mut warnings: Vec<String> = Vec::new();
    let mut i: usize = 0;
    while i < mask.paths.len()
        invariant
            paths == mask.paths@.map_values(|s: String| s@),
            i <= mask.paths@.len(),
            doc@ == update_doc_spec(req@, paths.take(i as int)),
            warnings@.map_values(|s: String| s@) == unrecognized_of(paths.take(i as int)),
        decreases mask.paths@.len() - i,
    {
        let ghost before = paths.take(i as int);
        proof {
            reveal_strlit("name");
            reveal_strlit("description");
            reveal_strlit("project_ids");
            reveal_strlit("subtitle");
            reveal_strlit("is_awesome");
            reveal_strlit("hello_world_type");
            assert("description"@[0] == 'd');
            assert("project_ids"@[0] == 'p');
            assert(paths.take(i as int + 1) =~= before.push(paths[i as int]));
            assert(paths.take(i as int + 1).drop_last() =~= before);
            lemma_push_contains(before, paths[i as int], "name"@);
            lemma_push_contains(before, paths[i as int], "description"@);
            lemma_push_contains(before, paths[i as int], "project_ids"@);
            lemma_push_contains(before, paths[i as int], "subtitle"@);
            lemma_push_contains(before, paths[i as int], "is_awesome"@);
            lemma_push_contains(before, paths[i as int], "hello_world_type"@);
        }
        let path = mask.paths[i].as_str();
        proof {
            assert(path@ == paths[i as int]);
        }
        if str_eq(path, "name") {
            doc.name = Some(req.name.clone());
        } else if str_eq(path, "description") {
            doc.description = Some(req.description.clone());
        } else if str_eq(path, "project_ids") {
            doc.project_ids = Some(clone_texts(&req.project_ids));
        } else if str_eq(path, "subtitle") {
            doc.subtitle = Some(req.subtitle.clone());
        } else if str_eq(path, "is_awesome") {
            doc.is_awesome = Some(req.is_awesome);
        } else if str_eq(path, "hello_world_type") {
            doc.hello_world_type = Some(req.hello_world_type);
        } else {
            warnings.push(mask.paths[i].clone());
            proof {
                assert(warnings@.map_values(|s: String| s@) =~= unrecognized_of(
                    paths.take(i as int + 1),
                ));
            }
        }
        proof {
            // The document agrees with the spec field by field: each arm
            // above set one field, and the path distinctness settles the
            // rest.
            let spec_doc = update_doc_spec(req@, paths.take(i as int + 1));
            assert(doc@.name == spec_doc.name);
            assert(doc@.description == spec_doc.description);
            assert(doc@.project_ids == spec_doc.project_ids);
            assert(doc@.subtitle == spec_doc.subtitle);
            assert(doc@.is_awesome == spec_doc.is_awesome);
            assert(doc@.hello_world_type == spec_doc.hello_world_type);
        }
        i += 1;
    }
    proof {
        assert(paths.take(paths.len() as int) =~= paths);
    }
    (Some(doc), warnings)
}

/// What the store's set-these-fields operation leaves of a record: a
/// set field takes the document's value, every other field, the id and
/// the creation time included, keeps its own.
pub open spec fn apply_spec(d: UpdateDocView, r: RecordView) -> RecordView {
    RecordView {
        id: r.id,
        name: match d.name {
            Some(v) => v,
            None => r.name,
        },
        description: match d.description {
            Some(v) => v,
            None => r.description,
        },
        subtitle: match d.subtitle {
            Some(v) => v,
            None => r.subtitle,
        },
        hello_world_type: match d.hello_world_type {
            Some(v) => v,
            None => r.hello_world_type,
        },
        is_awesome: match d.is_awesome {
            Some(v) => v,
            None => r.is_awesome,
        },
        project_ids: match d.project_ids {
            Some(v) => v,
            None => r.project_ids,
        },
        created_at: r.created_at,
    }
}

impl UpdateDocument {
    /// A document that sets nothing: applying it is a no-op, so no
    /// write is issued for it.
    pub fn is_empty(&self) -> (r: bool)
        ensures
            r == (self@.name is None && self@.description is None && self@.project_ids is None
                && self@.subtitle is None && self@.is_awesome is None
                && self@.hello_world_type is None),
    {
        self.name.is_none() && self.description.is_none() && self.project_ids.is_none()
            && self.subtitle.is_none() && self.is_awesome.is_none()
            && self.hello_world_type.is_none()
    }
}

/// Applies a partial-update document to a record: the reference
/// meaning of the store's set-these-fields operation.
pub fn apply_update(d: &UpdateDocument, r: &HelloWorld) -> (out: HelloWorld)
    ensures
        out@ == apply_spec(d@, r@),
{
    HelloWorld {
        id: r.id.clone(),
        name: match &d.name {
            Some(v) => v.clone(),
            None => r.name.clone(),
        },
        description: match &d.description {
            Some(v) => v.clone(),
            None => r.description.clone(),
        },
        subtitle: match &d.subtitle {
            Some(v) => v.clone(),
            None => r.subtitle.clone(),
        },
        hello_world_type: match &d.hello_world_type {
            Some(v) => *v,
            None => r.hello_world_type,
        },
        is_awesome: match &d.is_awesome {
            Some(v) => *v,
            None => r.is_awesome,
        },
        project_ids: match &d.project_ids {
            Some(v) => clone_texts(v),
            None => clone_texts(&r.project_ids),
        },
        created_at: r.created_at,
    }
}

// ---------------------------------------------------------------------
// The mask's laws
// ---------------------------------------------------------------------

/// A masked update touches exactly the named fields: a field whose
/// path the mask names takes the request's value, any other field, the
/// id and the creation time included, keeps the record's own.
pub proof fn lemma_masked_update(req: UpdateRequestView, paths: Seq<Seq<char>>, r: RecordView)
    ensures
        apply_spec(update_doc_spec(req, paths), r).id == r.id,
        apply_spec(update_doc_spec(req, paths), r).created_at == r.created_at,
        apply_spec(update_doc_spec(req, paths), r).name == (if paths.contains("name"@) {
            req.name
        } else {
            r.name
        }),
        apply_spec(update_doc_spec(req, paths), r).description == (if paths.contains(
            "description"@,
        ) {
            req.description
        } else {
            r.description
        }),
        apply_spec(update_doc_spec(req, paths), r).subtitle == (if paths.contains("subtitle"@) {
            req.subtitle
        } else {
            r.subtitle
        }),
        apply_spec(update_doc_spec(req, paths), r).project_ids == (if paths.contains(
            "project_ids"@,
        ) {
            req.project_ids
        } else {
            r.project_ids
        }),
        apply_spec(update_doc_spec(req, paths), r).is_awesome == (if paths.contains("is_awesome"@) {
            req.is_awesome
        } else {
            r.is_awesome
        }),
        apply_spec(update_doc_spec(req, paths), r).hello_world_type == (if paths.contains(
            "hello_world_type"@,
        ) {
            req.hello_world_type
        } else {
            r.hello_world_type
        }),
{
}

/// A mask of nothing but unrecognized paths is a no-op update.
pub proof fn lemma_unrecognized_noop(req: UpdateRequestView, paths: Seq<Seq<char>>, r: RecordView)
    requires
        forall|k: int| 0 <= k < paths.len() ==> !recognized(#[trigger] paths[k]),
    ensures
        apply_spec(update_doc_spec(req, paths), r) == r,
{
    if paths.contains("name"@) {
        let k = choose|k: int| 0 <= k < paths.len() && paths[k] == "name"@;
        assert(recognized(paths[k]));
    }
    if paths.contains("description"@) {
        let k = choose|k: int| 0 <= k < paths.len() && paths[k] == "description"@;
        assert(recognized(paths[k]));
    }
    if paths.contains("project_ids"@) {
        let k = choose|k: int| 0 <= k < paths.len() && paths[k] == "project_ids"@;
        assert(recognized(paths[k]));
    }
    if paths.contains("subtitle"@) {
        let k = choose|k: int| 0 <= k < paths.len() && paths[k] == "subtitle"@;
        assert(recognized(paths[k]));
    }
    if paths.contains("is_awesome"@) {
        let k = choose|k: int| 0 <= k < paths.len() && paths[k] == "is_awesome"@;
        assert(recognized(paths[k]));
    }
    if paths.contains("hello_world_type"@) {
        let k = choose|k: int| 0 <= k < paths.len() && paths[k] == "hello_world_type"@;
        assert(recognized(paths[k]));
    }
}

} // verus!
