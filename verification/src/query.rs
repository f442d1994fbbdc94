//! Building the read predicate of a list request, and its meaning.
//!
//! The predicate always excludes the request's excluded identifiers
//! (an undecodable entry is dropped, a deliberate leniency rather than
//! a failure of the whole request); a non-empty project set must
//! intersect the record's projects; a non-empty type set, negative
//! sentinel entries discarded, must contain the record's type; and a
//! search term of length at least two must occur, case-insensitively,
//! in the name or the description.

use crate::id::{decode_spec, IdView, ID};
use crate::record::{HelloWorld, RecordView};
use vstd::prelude::*;
use vstd::string::{StrSliceExecFns, StringExecFns};

verus! {

/// A list request: pagination, exclusion and inclusion sets, and a
/// search term.
pub struct ListHelloWorldsRequest {
    pub start: i32,
    pub limit: i32,
    pub ignored_ids: Vec<String>,
    pub project_ids: Vec<String>,
    pub hello_world_types: Vec<i32>,
    pub search_term: String,
}

/// The read predicate of a list request: empty sets mean no clause,
/// and an absent search term means no search clause.
pub struct Predicate {
    pub excluded_ids: Vec<ID>,
    pub project_ids: Vec<String>,
    pub hello_world_types: Vec<i32>,
    pub search_term: Option<String>,
}

/// Spec-level predicate.
pub struct PredicateView {
    pub excluded_ids: Seq<IdView>,
    pub project_ids: Seq<Seq<char>>,
    pub hello_world_types: Seq<i32>,
    pub search_term: Option<Seq<char>>,
}

impl View for Predicate {
    type V = PredicateView;

    open spec fn view(&self) -> PredicateView {
        PredicateView {
            excluded_ids: self.excluded_ids@.map_values(|x: ID| x@),
            project_ids: self.project_ids@.map_values(|s: String| s@),
            hello_world_types: self.hello_world_types@,
            search_term: match &self.search_term {
                Some(t) => Some(t@),
                None => None,
            },
        }
    }
}

/// The identifiers of `ids` that decode, in order; the rest dropped.
pub open spec fn decode_all(ids: Seq<Seq<char>>) -> Seq<IdView>
    decreases ids.len(),
{
    if ids.len() == 0 {
        Seq::empty()
    } else {
        let rest = decode_all(ids.drop_last());
        match decode_spec(ids.last()) {
            Some(v) => rest.push(v),
            None => rest,
        }
    }
}

/// The entries of `ts` that are not negative sentinels, in order.
pub open spec fn nonneg_types(ts: Seq<i32>) -> Seq<i32>
    decreases ts.len(),
{
    if ts.len() == 0 {
        Seq::empty()
    } else {
        let rest = nonneg_types(ts.drop_last());
        if ts.last() >= 0 {
            rest.push(ts.last())
        } else {
            rest
        }
    }
}

// ---------------------------------------------------------------------
// Case-insensitive substring search
// ---------------------------------------------------------------------

/// The code point of `c` with an ASCII capital folded to its small form.
pub open spec fn lower_code(c: char) -> int {
    if 'A' <= c && c <= 'Z' {
        c as int + 32
    } else {
        c as int
    }
}

/// `a` and `b` are equal up to ASCII case.
pub open spec fn ci_eq(a: char, b: char) -> bool {
    lower_code(a) == lower_code(b)
}

/// `needle` occurs in `hay` at offset `k`, case-insensitively.
pub open spec fn matches_at(hay: Seq<char>, needle: Seq<char>, k: int) -> bool {
    forall|j: int| 0 <= j < needle.len() ==> ci_eq(hay[k + j], #[trigger] needle[j])
}

/// `needle` occurs somewhere in `hay`, case-insensitively.
pub open spec fn contains_ci(hay: Seq<char>, needle: Seq<char>) -> bool {
    exists|k: int| 0 <= k <= hay.len() - needle.len() && matches_at(hay, needle, k)
}

/// Case-insensitive character comparison, ASCII fold.
fn lower_eq(a: char, b: char) -> (r: bool)
    ensures
        r == ci_eq(a, b),
{
    let ac: u32 = if a >= 'A' && a <= 'Z' {
        a as u32 + 32
    } else {
        a as u32
    };
    let bc: u32 = if b >= 'A' && b <= 'Z' {
        b as u32 + 32
    } else {
        b as u32
    };
    ac == bc
}

/// Does `needle` occur at offset `k` of `hay`, case-insensitively?
fn match_at(hay: &str, needle: &str, k: usize) -> (r: bool)
    requires
        k + needle@.len() <= hay@.len(),
    ensures
        r == matches_at(hay@, needle@, k as int),
{
    let hn = hay.unicode_len();
    let m = needle.unicode_len();
    let mut j: usize = 0;
    while j < m
        invariant
            m == needle@.len(),
            hn == hay@.len(),
            k + m <= hn,
            j <= m,
            forall|l: int| 0 <= l < j as int ==> ci_eq(hay@[k as int + l], #[trigger] needle@[l]),
        decreases m - j,
    {
        if !lower_eq(hay.get_char(k + j), needle.get_char(j)) {
            return false;
        }
        j += 1;
    }
    true
}

/// Does `needle` occur anywhere in `hay`, case-insensitively?
pub fn contains_ci_text(hay: &str, needle: &str) -> (r: bool)
    ensures
        r == contains_ci(hay@, needle@),
{
    let n = hay.unicode_len();
    let m = needle.unicode_len();
    if m > n {
        return false;
    }
    let mut k: usize = 0;
    while k <= n - m
        invariant
            n == hay@.len(),
            m == needle@.len(),
            m <= n,
            k <= n - m + 1,
            forall|p: int| 0 <= p < k as int ==> !matches_at(hay@, needle@, p),
        decreases n - m - k + 1,
    {
        if match_at(hay, needle, k) {
            return true;
        }
        k += 1;
    }
    false
}

// ---------------------------------------------------------------------
// The predicate's meaning
// ---------------------------------------------------------------------

/// The search clause: the term occurs in the name or the description.
pub open spec fn search_hit(term: Seq<char>, r: RecordView) -> bool {
    contains_ci(r.name, term) || contains_ci(r.description, term)
}

/// Whether a record satisfies a predicate.  A record whose id text
/// does not decode has no native id and is never excluded by the id
/// clause.
pub open spec fn matches_spec(p: PredicateView, r: RecordView) -> bool {
    &&& (match decode_spec(r.id) {
        Some(v) => !p.excluded_ids.contains(v),
        None => true,
    })
    &&& (p.project_ids.len() > 0 ==> exists|k: int|
        0 <= k < p.project_ids.len() && r.project_ids.contains(#[trigger] p.project_ids[k]))
    &&& (p.hello_world_types.len() > 0 ==> exists|k: int|
        0 <= k < p.hello_world_types.len() && #[trigger] p.hello_world_types[k] as int
            == r.hello_world_type)
    &&& (p.search_term matches Some(t) ==> search_hit(t, r))
}

/// Builds the read predicate of a list request.
pub fn build_query(req: &ListHelloWorldsRequest) -> (p: Predicate)
    ensures
        p@.excluded_ids == decode_all(req.ignored_ids@.map_values(|s: String| s@)),
        p@.project_ids == req.project_ids@.map_values(|s: String| s@),
        p@.hello_world_types == nonneg_types(req.hello_world_types@),
        req.search_term@.len() >= 2 ==> p@.search_term == Some(req.search_term@),
        req.search_term@.len() < 2 ==> p@.search_term is None,
{
    let mut excluded_ids: Vec<ID> = Vec::new();
    let mut i: usize = 0;
    let ghost ids = req.ignored_ids@.map_values(|s: String| s@);
    while i < req.ignored_ids.len()
        invariant
            ids == req.ignored_ids@.map_values(|s: String| s@),
            i <= req.ignored_ids@.len(),
            excluded_ids@.map_values(|x: ID| x@) == decode_all(ids.take(i as int)),
        decreases req.ignored_ids@.len() - i,
    {
        proof {
            assert(ids.take(i as int + 1).drop_last() =~= ids.take(i as int));
            assert(ids.take(i as int + 1).last() == ids[i as int]);
        }
        match ID::from_string(req.ignored_ids[i].as_str()) {
            Ok(id) => {
                excluded_ids.push(id);
                proof {
                    assert(excluded_ids@.map_values(|x: ID| x@) =~= decode_all(
                        ids.take(i as int + 1),
                    ));
                }
            },
            Err(_) => {
                proof {
                    assert(excluded_ids@.map_values(|x: ID| x@) =~= decode_all(
                        ids.take(i as int + 1),
                    ));
                }
            },
        }
        i += 1;
    }
    proof {
        assert(ids.take(ids.len() as int) =~= ids);
    }
    let mut hello_world_types: Vec<i32> = Vec::new();
    let mut i: usize = 0;
    while i < req.hello_world_types.len()
        invariant
            i <= req.hello_world_types@.len(),
            hello_world_types@ == nonneg_types(req.hello_world_types@.take(i as int)),
        decreases req.hello_world_types@.len() - i,
    {
        proof {
            assert(req.hello_world_types@.take(i as int + 1).drop_last()
                =~= req.hello_world_types@.take(i as int));
        }
        let t = req.hello_world_types[i];
        if t >= 0 {
            hello_world_types.push(t);
        }
        i += 1;
    }
    proof {
        assert(req.hello_world_types@.take(req.hello_world_types@.len() as int)
            =~= req.hello_world_types@);
    }
    let search_term = if req.search_term.unicode_len() >= 2 {
        Some(req.search_term.clone())
    } else {
        None
    };
    Predicate {
        excluded_ids,
        project_ids: crate::record::clone_texts(&req.project_ids),
        hello_world_types,
        search_term,
    }
}

// ---------------------------------------------------------------------
// Evaluating a predicate
// ---------------------------------------------------------------------

/// Byte-for-byte equality of two byte strings.
fn bytes_eq(a: &Vec<u8>, b: &Vec<u8>) -> (r: bool)
    ensures
        r == (a@ == b@),
{
    if a.len() != b.len() {
        return false;
    }
    let mut i: usize = 0;
    while i < a.len()
        invariant
            a@.len() == b@.len(),
            i <= a@.len(),
            forall|k: int| 0 <= k < i as int ==> a@[k] == b@[k],
        decreases a@.len() - i,
    {
        if a[i] != b[i] {
            return false;
        }
        i += 1;
    }
    proof {
        assert(a@ =~= b@);
    }
    true
}

impl ID {
    /// Equality of identifier values.
    pub fn eq_id(&self, other: &ID) -> (r: bool)
        ensures
            r == (self@ == other@),
    {
        match (self, other) {
            (ID::ObjectId(a), ID::ObjectId(b)) => bytes_eq(a, b),
            (ID::Str(a), ID::Str(b)) => crate::native::str_eq(a.as_str(), b.as_str()),
            (ID::Int64(a), ID::Int64(b)) => a == b,
            _ => false,
        }
    }
}

/// Is `id` one of the identifiers of `v`?
fn contains_id(v: &Vec<ID>, id: &ID) -> (r: bool)
    ensures
        r == v@.map_values(|x: ID| x@).contains(id@),
{
    let mut i: usize = 0;
    while i < v.len()
        invariant
            i <= v@.len(),
            forall|k: int| 0 <= k < i as int ==> (#[trigger] v@[k])@ != id@,
        decreases v@.len() - i,
    {
        if v[i].eq_id(id) {
            assert(v@.map_values(|x: ID| x@)[i as int] == id@);
            return true;
        }
        i += 1;
    }
    false
}

/// Is `t` one of the texts of `v`?
fn contains_text(v: &Vec<String>, t: &str) -> (r: bool)
    ensures
        r == v@.map_values(|s: String| s@).contains(t@),
{
    let mut i: usize = 0;
    while i < v.len()
        invariant
            i <= v@.len(),
            forall|k: int| 0 <= k < i as int ==> (#[trigger] v@[k])@ != t@,
        decreases v@.len() - i,
    {
        if crate::native::str_eq(v[i].as_str(), t) {
            assert(v@.map_values(|s: String| s@)[i as int] == t@);
            return true;
        }
        i += 1;
    }
    false
}

/// Does the predicate's project set intersect the record's?
fn check_projects(p: &Predicate, r: &HelloWorld) -> (res: bool)
    ensures
        res == exists|k: int|
            0 <= k < p@.project_ids.len() && r@.project_ids.contains(
                #[trigger] p@.project_ids[k],
            ),
{
    let mut i: usize = 0;
    while i < p.project_ids.len()
        invariant
            i <= p@.project_ids.len(),
            p@.project_ids.len() == p.project_ids@.len(),
            forall|k: int|
                0 <= k < i as int ==> !r@.project_ids.contains(#[trigger] p@.project_ids[k]),
        decreases p.project_ids@.len() - i,
    {
        proof {
            assert(p@.project_ids[i as int] == p.project_ids@[i as int]@);
        }
        if contains_text(&r.project_ids, p.project_ids[i].as_str()) {
            return true;
        }
        i += 1;
    }
    false
}

/// Evaluates the predicate on one record: the reference meaning of the
/// store's matching for the shapes of clause this service builds.
pub fn matches(p: &Predicate, r: &HelloWorld) -> (res: bool)
    ensures
        res == matches_spec(p@, r@),
{
    let not_excluded = match ID::from_string(r.id.as_str()) {
        Ok(id) => !contains_id(&p.excluded_ids, &id),
        Err(_) => true,
    };
    if !not_excluded {
        return false;
    }
    if p.project_ids.len() > 0 {
        if !check_projects(p, r) {
            return false;
        }
    }
    if p.hello_world_types.len() > 0 {
        let mut i: usize = 0;
        let mut found = false;
        while i < p.hello_world_types.len()
            invariant
                i <= p.hello_world_types@.len(),
                found == exists|k: int|
                    0 <= k < i as int && #[trigger] p.hello_world_types@[k]
                        == r.hello_world_type,
            decreases p.hello_world_types@.len() - i,
        {
            if p.hello_world_types[i] == r.hello_world_type {
                found = true;
            }
            i += 1;
        }
        if !found {
            return false;
        }
    }
    match &p.search_term {
        Some(t) => {
            let hit = contains_ci_text(r.name.as_str(), t.as_str()) || contains_ci_text(
                r.description.as_str(),
                t.as_str(),
            );
            hit
        },
        None => true,
    }
}

/// The boundary layer's rule on pagination: a limit over the bound of
/// the delivery channel is rejected before the pipeline ever runs.
pub fn check_limit(limit: i32) -> (r: Result<(), crate::error::ServiceError>)
    ensures
        limit <= 100 ==> r is Ok,
        limit > 100 ==> (r matches Err(e) && e matches crate::error::ServiceError::ParseError(m)
            && m@ == "Maximum number of items is 100"@),
{
    if limit > 100 {
        Err(
            crate::error::ServiceError::ParseError(
                String::from_str("Maximum number of items is 100"),
            ),
        )
    } else {
        Ok(())
    }
}

// ---------------------------------------------------------------------
// The predicate's laws
// ---------------------------------------------------------------------

/// A record whose identifier stands in the exclusion set never matches.
pub proof fn lemma_excluded_never_matches(p: PredicateView, r: RecordView)
    requires
        decode_spec(r.id) matches Some(v) && p.excluded_ids.contains(v),
    ensures
        !matches_spec(p, r),
{
}

/// With a non-empty inclusion set, a matching record references one of
/// the included projects.
pub proof fn lemma_inclusion_required(p: PredicateView, r: RecordView)
    requires
        p.project_ids.len() > 0,
        matches_spec(p, r),
    ensures
        exists|k: int|
            0 <= k < p.project_ids.len() && r.project_ids.contains(#[trigger] p.project_ids[k]),
{
}

/// End to end: an identifier named in a request's exclusion set, when
/// it decodes, is never matched by the predicate built from that set.
pub proof fn lemma_request_exclusion(p: PredicateView, ids: Seq<Seq<char>>, i: int, r: RecordView)
    requires
        p.excluded_ids == decode_all(ids),
        0 <= i < ids.len(),
        decode_spec(ids[i]) is Some,
        decode_spec(r.id) == decode_spec(ids[i]),
    ensures
        !matches_spec(p, r),
{
    lemma_decode_all_contains(ids, i);
    lemma_excluded_never_matches(p, r);
}

/// An excluded identifier that decodes is kept in the decoded
/// exclusion set, so the built predicate indeed excludes it.
pub proof fn lemma_decode_all_contains(ids: Seq<Seq<char>>, i: int)
    requires
        0 <= i < ids.len(),
        decode_spec(ids[i]) is Some,
    ensures
        decode_all(ids).contains(decode_spec(ids[i])->Some_0),
    decreases ids.len(),
{
    let v = decode_spec(ids[i])->Some_0;
    if i == ids.len() - 1 {
        let rest = decode_all(ids.drop_last());
        assert(ids.last() == ids[i]);
        assert(rest.push(v)[rest.len() as int] == v);
    } else {
        assert(ids.drop_last()[i] == ids[i]);
        lemma_decode_all_contains(ids.drop_last(), i);
        let rest = decode_all(ids.drop_last());
        let j = choose|j: int| 0 <= j < rest.len() && rest[j] == v;
        match decode_spec(ids.last()) {
            Some(w) => {
                assert(rest.push(w)[j] == v);
            },
            None => {
            },
        }
    }
}

} // verus!
