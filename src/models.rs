//! The shapes in which buckets enter and leave the store's API, and the
//! conversions between them and the store's own types.
use vstd::prelude::*;
use vstd::string::StrSliceExecFns;

use crate::storage::{BucketState, CreateBucketAttr, StorageBucketAttr, UpdateBucketAttr};

verus! {

#[derive(Debug, Clone, Copy, PartialEq, Eq, Structural)]
pub struct BucketVersioning {
    pub enabled: bool,
}

/// A request to create a bucket.
#[derive(Debug, Clone)]
pub struct InsertBucket {
    pub name: String,
    pub versioning: Option<BucketVersioning>,
    pub default_event_based_hold: bool,
    pub location: Option<String>,
}

/// A request to change a bucket.
#[derive(Debug, Clone, Copy, PartialEq, Eq, Structural)]
pub struct UpdateBucket {
    pub versioning: Option<BucketVersioning>,
    pub default_event_based_hold: bool,
}

/// A character that may begin or end a bucket name.
pub open spec fn is_name_edge_char(c: char) -> bool {
    ('a' <= c && c <= 'z') || ('A' <= c && c <= 'Z') || ('0' <= c && c <= '9')
}

/// A character that may stand inside a bucket name.
pub open spec fn is_name_inner_char(c: char) -> bool {
    is_name_edge_char(c) || c == '.' || c == '_' || c == '-'
}

/// A bucket name: at least two characters, letters, digits, `.`, `_` and
/// `-`, beginning and ending with a letter or digit.
pub open spec fn is_valid_bucket_name(s: Seq<char>) -> bool {
    &&& s.len() >= 2
    &&& is_name_edge_char(s[0])
    &&& is_name_edge_char(s[s.len() - 1])
    &&& forall|i: int| 0 < i < s.len() - 1 ==> is_name_inner_char(#[trigger] s[i])
}

/// The location of a bucket created without one.
pub open spec fn default_location() -> Seq<char> {
    "US"@
}

/// An ASCII letter or digit (`a`-`z` are 97-122, `A`-`Z` 65-90, `0`-`9` 48-57).
fn byte_is_name_edge(b: u8) -> (r: bool)
    ensures
        r == (97 <= b <= 122 || 65 <= b <= 90 || 48 <= b <= 57),
{
    (97 <= b && b <= 122) || (65 <= b && b <= 90) || (48 <= b && b <= 57)
}

/// An ASCII letter or digit, or one of `.` (46), `_` (95) and `-` (45).
fn byte_is_name_inner(b: u8) -> (r: bool)
    ensures
        r == (97 <= b <= 122 || 65 <= b <= 90 || 48 <= b <= 57 || b == 46 || b == 95 || b == 45),
{
    byte_is_name_edge(b) || b == 46 || b == 95 || b == 45
}

/// Whether `name` may name a bucket.
pub fn bucket_name_is_valid(name: &str) -> (r: bool)
    ensures
        r == is_valid_bucket_name(name@),
{
    if !name.is_ascii() {
        proof {
            let i = choose|i: int| 0 <= i < name@.len() && !('\0' <= #[trigger] name@[i] <= '\u{7f}');
            assert(!is_name_inner_char(name@[i]));
        }
        return false;
    }
    let n = name.unicode_len();
    if n < 2 {
        return false;
    }
    if !byte_is_name_edge(name.get_ascii(0)) || !byte_is_name_edge(name.get_ascii(n - 1)) {
        return false;
    }
    let mut i: usize = 1;
    while i < n - 1
        invariant
            name.is_ascii(),
            n == name@.len(),
            2 <= n,
            1 <= i <= n - 1,
            is_name_edge_char(name@[0]),
            is_name_edge_char(name@[n - 1]),
            forall|j: int| 0 < j < i ==> is_name_inner_char(#[trigger] name@[j]),
        decreases n - 1 - i,
    {
        if !byte_is_name_inner(name.get_ascii(i)) {
            return false;
        }
        i = i + 1;
    }
    true
}

/// `r` is what Create takes for the request `req`: versioning off and
/// location `US` where the request leaves them out.
pub open spec fn is_create_attr_of(r: CreateBucketAttr, req: InsertBucket) -> bool {
    &&& r.versioning == match req.versioning {
        Some(v) => v.enabled,
        None => false,
    }
    &&& r.default_event_based_hold == req.default_event_based_hold
    &&& r.location@ == match req.location {
        Some(l) => l@,
        None => default_location(),
    }
}

/// What Update takes for the request `req`.
pub open spec fn update_attr_of(req: UpdateBucket) -> UpdateBucketAttr {
    UpdateBucketAttr {
        versioning: match req.versioning {
            Some(v) => Some(v.enabled),
            None => None,
        },
        default_event_based_hold: req.default_event_based_hold,
    }
}

impl InsertBucket {
    /// Whether the requested name may name a bucket.
    pub fn has_valid_name(&self) -> (r: bool)
        ensures
            r == is_valid_bucket_name(self.name@),
    {
        bucket_name_is_valid(self.name.as_str())
    }

    /// The attributes that Create takes for this request.
    pub fn to_create_attr(self) -> (r: CreateBucketAttr)
        ensures
            is_create_attr_of(r, self),
    {
        let versioning = match self.versioning {
            Some(v) => v.enabled,
            None => false,
        };
        let location = match self.location {
            Some(l) => l,
            None => "US".to_owned(),
        };
        CreateBucketAttr {
            versioning: versioning,
            default_event_based_hold: self.default_event_based_hold,
            location: location,
        }
    }
}

impl From<UpdateBucket> for UpdateBucketAttr {
    fn from(event: UpdateBucket) -> (r: UpdateBucketAttr) {
        UpdateBucketAttr {
            versioning: match event.versioning {
                Some(v) => Some(v.enabled),
                None => None,
            },
            default_event_based_hold: event.default_event_based_hold,
        }
    }
}

impl vstd::std_specs::convert::FromSpecImpl<UpdateBucket> for UpdateBucketAttr {
    open spec fn obeys_from_spec() -> bool {
        true
    }

    open spec fn from_spec(event: UpdateBucket) -> UpdateBucketAttr {
        update_attr_of(event)
    }
}

/// What a single resource is.
#[derive(Debug, Clone, Copy, PartialEq, Eq, Structural)]
pub enum Kind {
    Bucket,
    Object,
}

/// What a listing holds.
#[derive(Debug, Clone, Copy, PartialEq, Eq, Structural)]
pub enum ListKind {
    Buckets,
    Objects,
}

/// A bucket as the API shows it. Times are microseconds since the Unix
/// epoch.
#[derive(Debug, Clone)]
pub struct BucketResponse {
    pub kind: Kind,
    pub id: String,
    pub default_event_based_hold: bool,
    pub name: String,
    pub versioning: BucketVersioning,
    pub time_created: i64,
    pub updated: i64,
    pub location: String,
    pub storage_class: String,
    pub project_number: String,
    pub metageneration: String,
    pub etag: String,
    pub location_type: String,
}

/// `r` shows the bucket `a`, with the fixed fields that every bucket shows.
pub open spec fn is_response_of(r: BucketResponse, a: BucketState) -> bool {
    &&& r.kind == Kind::Bucket
    &&& r.id@ == a.name
    &&& r.name@ == a.name
    &&& r.default_event_based_hold == a.default_event_based_hold
    &&& r.versioning == BucketVersioning { enabled: a.versioning }
    &&& r.time_created == a.time_created
    &&& r.updated == a.updated
    &&& r.location@ == a.location
    &&& r.storage_class@ == "STANDARD"@
    &&& r.project_number@ == "1"@
    &&& r.metageneration@ == "1"@
    &&& r.etag@ == "tag"@
    &&& r.location_type@ == "region"@
}

impl BucketResponse {
    pub fn from_attr(value: &StorageBucketAttr) -> (r: BucketResponse)
        ensures
            is_response_of(r, value@),
    {
        BucketResponse {
            kind: Kind::Bucket,
            id: value.name.clone(),
            name: value.name.clone(),
            time_created: value.time_created,
            updated: value.updated,
            default_event_based_hold: value.default_event_based_hold,
            versioning: BucketVersioning { enabled: value.versioning },
            location: value.location.clone(),
            storage_class: "STANDARD".to_owned(),
            project_number: "1".to_owned(),
            metageneration: "1".to_owned(),
            etag: "tag".to_owned(),
            location_type: "region".to_owned(),
        }
    }
}

/// A listing of resources.
#[derive(Debug, Clone)]
pub struct ListResponse<T> {
    pub kind: ListKind,
    pub items: Vec<T>,
    pub prefixes: Vec<String>,
}

impl ListResponse<BucketResponse> {
    /// The listing of `buckets`, item by item in their order.
    pub fn from_buckets(buckets: Vec<StorageBucketAttr>) -> (r: ListResponse<BucketResponse>)
        ensures
            r.kind == ListKind::Buckets,
            r.items@.len() == buckets@.len(),
            forall|i: int| 0 <= i < buckets@.len() ==> is_response_of(#[trigger] r.items@[i], buckets@[i]@),
            r.prefixes@.len() == 0,
    {
        let mut items: Vec<BucketResponse> = Vec::new();
        let mut i: usize = 0;
        while i < buckets.len()
            invariant
                i <= buckets@.len(),
                items@.len() == i,
                forall|j: int| 0 <= j < i ==> is_response_of(#[trigger] items@[j], buckets@[j]@),
            decreases buckets.len() - i,
        {
            items.push(BucketResponse::from_attr(&buckets[i]));
            i = i + 1;
        }
        ListResponse { kind: ListKind::Buckets, items: items, prefixes: Vec::new() }
    }
}

/// How much of a bucket a response shows.
#[derive(Debug, Clone, Copy, PartialEq, Eq, Structural)]
pub enum Projection {
    Full,
    NoAcl,
}

/// A predefined access-control list for a bucket.
#[derive(Debug, Clone, Copy, PartialEq, Eq, Structural)]
pub enum PredefinedAcl {
    AuthenticatedRead,
    Private,
    ProjectPrivate,
    PublicRead,
    PublicReadWrite,
}

/// A predefined default access-control list for a bucket's objects.
#[derive(Debug, Clone, Copy, PartialEq, Eq, Structural)]
pub enum PredefinedDefaultObjectAcl {
    AuthenticatedRead,
    BucketOwnerFullControl,
    BucketOwnerRead,
    Private,
    ProjectPrivate,
    PublicRead,
}

/// Query parameters of Get.
#[derive(Debug, Clone, Copy, PartialEq, Eq, Structural)]
pub struct GetBucketParams {
    pub if_metageneration_match: Option<u64>,
    pub if_metageneration_not_match: Option<u64>,
    pub projection: Option<Projection>,
}

/// Query parameters of Create.
#[derive(Debug, Clone)]
pub struct InsertBucketParams {
    pub project: String,
    pub enable_object_retention: Option<bool>,
    pub predefined_acl: Option<PredefinedAcl>,
    pub predefined_default_object_acl: Option<PredefinedDefaultObjectAcl>,
    pub projection: Option<Projection>,
}

/// Query parameters of Update.
#[derive(Debug, Clone, Copy, PartialEq, Eq, Structural)]
pub struct UpdateBucketParams {
    pub if_metageneration_match: Option<u64>,
    pub if_metageneration_not_match: Option<u64>,
    pub predefined_acl: Option<PredefinedAcl>,
    pub predefined_default_object_acl: Option<PredefinedDefaultObjectAcl>,
    pub projection: Option<Projection>,
}

} // verus!
