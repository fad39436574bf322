//! Blobs on a JMAP server: what an upload is answered, and whether a blob can be
//! served back.

use vstd::prelude::*;
use vstd::string::*;

use crate::jmap::error::{JmapError, JmapErrorView};
use crate::json::{views, Json, JsonObject, JsonView};
use crate::text;
use crate::web;

verus! {

/// What asking a server for a blob brought.
#[derive(Debug, Clone, Copy, PartialEq, Eq, Structural)]
pub enum BlobLookup {
    Found { size: Option<u64> },
    NotFound,
    /// The server cannot be asked: whether it has the blob is unknown.
    Unsupported,
}

/// The id of an uploaded blob, from the reply to the upload.
pub fn upload_bytes(response: &Json) -> (r: Result<String, JmapError>)
    ensures
        match r {
            Ok(id) => response@.text_at("blobId"@) == Some(id@),
            Err(e) => response@.text_at("blobId"@) is None && e@ == JmapErrorView::Malformed(
                "upload response has no blobId"@,
            ),
        },
{
    match response.str_at("blobId") {
        Some(id) => Ok(id.to_owned()),
        None => Err(JmapError::Malformed("upload response has no blobId".to_owned())),
    }
}

/// The arguments of the call that asks for the size of a blob.
pub open spec fn lookup_args(account: Seq<char>, blob: Seq<char>) -> JsonView {
    JsonView::Object(
        Map::<Seq<char>, JsonView>::empty().insert("accountId"@, JsonView::Str(account)).insert(
            "ids"@,
            JsonView::Array(seq![JsonView::Str(blob)]),
        ).insert("properties"@, JsonView::Array(seq![JsonView::Str("size"@)])),
    )
}

fn one_text(t: &str) -> (r: Json)
    ensures
        r@ == JsonView::Array(seq![JsonView::Str(t@)]),
{
    let mut v: Vec<Json> = Vec::new();
    v.push(Json::text(t));
    let r = Json::Array(v);
    assert(r@->Array_0 =~= seq![JsonView::Str(t@)]);
    r
}

/// What a server that can be asked for blobs can do.
pub const URN_BLOB: &'static str = "urn:ietf:params:jmap:blob";

/// The call to make for a blob; none where the account lacks the capability, so
/// that the server cannot be asked, which settles the lookup as
/// [`BlobLookup::Unsupported`].
pub fn lookup_call(capabilities: &Vec<String>, account_id: &str, blob_id: &str) -> (r: Option<Json>)
    ensures
        match r {
            Some(j) => text::texts(capabilities@).contains(URN_BLOB@) && j@ == lookup_args(
                account_id@,
                blob_id@,
            ),
            None => !text::texts(capabilities@).contains(URN_BLOB@),
        },
{
    if !text::listed(capabilities, URN_BLOB) {
        return None;
    }
    let mut o = JsonObject::new();
    o.insert("accountId".to_owned(), Json::text(account_id));
    o.insert("ids".to_owned(), one_text(blob_id));
    o.insert("properties".to_owned(), one_text("size"));
    Some(Json::Object(o))
}

/// Whether an entry is labelled with an id.
pub open spec fn labelled(v: JsonView, blob: Seq<char>) -> bool {
    v.text_at("id"@) == Some(blob)
}

/// The entry of a list that answers for a blob: the first labelled with it, else
/// the only one where it is an object without a label.
pub open spec fn entry_index(list: Seq<JsonView>, blob: Seq<char>, n: nat) -> Option<int>
    decreases list.len() - n,
{
    if n >= list.len() {
        if list.len() == 1 && list[0] is Object && list[0].field("id"@) is None {
            Some(0)
        } else {
            None
        }
    } else if labelled(list[n as int], blob) {
        Some(n as int)
    } else {
        entry_index(list, blob, n + 1)
    }
}

/// See [`entry_index`].
fn entry_for(list: &Vec<Json>, blob_id: &str) -> (r: Option<usize>)
    ensures
        match r {
            Some(i) => entry_index(views(list@), blob_id@, 0) == Some(i as int) && i < list.len(),
            None => entry_index(views(list@), blob_id@, 0) is None,
        },
{
    let mut i: usize = 0;
    while i < list.len()
        invariant
            i <= list.len(),
            entry_index(views(list@), blob_id@, 0) == entry_index(views(list@), blob_id@, i as nat),
        decreases list.len() - i,
    {
        assert(views(list@)[i as int] == list@[i as int]@);
        match list[i].str_at("id") {
            Some(id) => if text::same(id, blob_id) {
                return Some(i);
            },
            None => {},
        }
        i += 1;
    }
    if list.len() == 1 {
        assert(views(list@)[0] == list@[0]@);
        let unlabelled = list[0].get("id").is_none();
        match &list[0] {
            Json::Object(_) => if unlabelled {
                return Some(0);
            },
            _ => {},
        }
    }
    None
}

/// What the answer to a lookup says of a blob.
pub open spec fn lookup_view(args: JsonView, blob: Seq<char>) -> Result<BlobLookup, JmapErrorView> {
    let listed = match args.array_at("list"@) {
        Some(l) => match entry_index(l, blob, 0) {
            Some(i) => Some(l[i]),
            None => None,
        },
        None => None,
    };
    match listed {
        Some(v) => Ok(BlobLookup::Found { size: web::u64_at(v, "size"@) }),
        None => if args.array_at("notFound"@) matches Some(nf) && nf.contains(JsonView::Str(blob)) {
            Ok(BlobLookup::NotFound)
        } else {
            Err(
                JmapErrorView::Malformed(
                    "Blob/get listed "@ + blob + " in neither list nor notFound"@,
                ),
            )
        },
    }
}

fn names(list: &Vec<Json>, blob_id: &str) -> (r: bool)
    ensures
        r == views(list@).contains(JsonView::Str(blob_id@)),
{
    let ghost all = views(list@);
    let mut i: usize = 0;
    while i < list.len()
        invariant
            i <= list.len(),
            all == views(list@),
            forall|j: int| 0 <= j < i ==> #[trigger] all[j] != JsonView::Str(blob_id@),
        decreases list.len() - i,
    {
        assert(all[i as int] == list@[i as int]@);
        match list[i].as_str() {
            Some(t) => if text::same(t, blob_id) {
                return true;
            },
            None => {},
        }
        i += 1;
    }
    false
}

/// What a lookup that was made brought. `reply` holds the arguments of the
/// server's answer.
pub fn lookup_blob(reply: Result<Json, JmapError>, blob_id: &str) -> (r: Result<BlobLookup, JmapError>)
    ensures
        match reply {
            Err(e) => if e@ is UnknownMethod {
                r == Ok::<BlobLookup, JmapError>(BlobLookup::Unsupported)
            } else {
                r == Err::<BlobLookup, JmapError>(e)
            },
            Ok(args) => match r {
                Ok(l) => lookup_view(args@, blob_id@) == Ok::<BlobLookup, JmapErrorView>(l),
                Err(e) => lookup_view(args@, blob_id@) == Err::<BlobLookup, JmapErrorView>(e@),
            },
        },
{
    let args = match reply {
        Err(JmapError::UnknownMethod) => {
            return Ok(BlobLookup::Unsupported);
        },
        Err(e) => {
            return Err(e);
        },
        Ok(a) => a,
    };
    match args.array_at("list") {
        Some(list) => match entry_for(list, blob_id) {
            Some(i) => {
                assert(views(list@)[i as int] == list@[i as int]@);
                return Ok(BlobLookup::Found { size: web::get_u64(&list[i], "size") });
            },
            None => {},
        },
        None => {},
    }
    match args.array_at("notFound") {
        Some(nf) => if names(nf, blob_id) {
            return Ok(BlobLookup::NotFound);
        },
        None => {},
    }
    Err(
        JmapError::Malformed(
            text::joined3("Blob/get listed ", blob_id, " in neither list nor notFound"),
        ),
    )
}

/// A blob is reported missing only where the server says so: it answered, listed
/// nothing for the blob, and named it among those not found.
pub proof fn missing_only_where_the_server_says_so(args: JsonView, blob: Seq<char>)
    requires
        lookup_view(args, blob) == Ok::<BlobLookup, JmapErrorView>(BlobLookup::NotFound),
    ensures
        args.array_at("notFound"@) matches Some(nf) && nf.contains(JsonView::Str(blob)),
        args.array_at("list"@) matches Some(l) ==> entry_index(l, blob, 0) is None,
{
}

} // verus!
