//! The record, in the archive, of what could not be exported.
//!
//! Each object that fails leaves a row, and an object that is on the target has
//! none. The functions here decide which rows are written and removed and what a
//! row says; writing them is left to the caller.

use std::collections::HashSet;

use vstd::prelude::*;
use vstd::string::*;

use crate::db::export_failures::{
    FailedItem, FailedView, PROBE_NOT_PROBED, PROBE_ORPHANED_MARKER, PROBE_RETRIEVABLE,
    PROBE_STORE_UNAVAILABLE, PROBE_UNSUPPORTED,
};
use crate::jmap::blobxfer::BlobLookup;
use crate::json::{json_compact, Json, JsonView};
use crate::text;
use crate::types::ObjectType;

verus! {

broadcast use vstd::std_specs::hash::group_hash_axioms;

/// The rows of one kind during a pass: which objects have one, and whether a
/// write failed. A pass that only shows what it would do writes nothing.
pub struct Quarantine {
    pub ty: ObjectType,
    pub enabled: bool,
    pub known: HashSet<i64>,
    pub write_error: Option<String>,
}

/// The first of two optional errors.
pub open spec fn first_error(a: Option<Seq<char>>, b: Seq<char>) -> Option<Seq<char>> {
    match a {
        Some(e) => Some(e),
        None => Some(b),
    }
}

/// The distinct numbers of a list.
pub open spec fn numbers(v: Seq<i64>) -> Set<i64> {
    Set::new(|n: i64| v.contains(n))
}

impl Quarantine {
    /// Starts a pass. `rows` are the objects that have a row already.
    pub fn open(ty: ObjectType, dry_run: bool, rows: &Vec<i64>) -> (r: Quarantine)
        ensures
            r.ty == ty,
            r.enabled == !dry_run,
            r.write_error is None,
            r.known@ == if dry_run {
                Set::<i64>::empty()
            } else {
                numbers(rows@)
            },
    {
        let mut known: HashSet<i64> = HashSet::new();
        if !dry_run {
            let mut i: usize = 0;
            assert(known@ =~= numbers(rows@.take(0)));
            while i < rows.len()
                invariant
                    i <= rows.len(),
                    known@ == numbers(rows@.take(i as int)),
                decreases rows.len() - i,
            {
                known.insert(rows[i]);
                proof {
                    let a = rows@.take(i as int);
                    let b = rows@.take(i + 1);
                    assert(b =~= a.push(rows@[i as int]));
                    assert forall|n: i64| b.contains(n) <==> (a.contains(n) || n == rows@[i as int]) by {
                        if a.contains(n) {
                            let j = choose|j: int| 0 <= j < a.len() && a[j] == n;
                            assert(b[j] == n);
                        }
                        if n == rows@[i as int] {
                            assert(b[i as int] == n);
                        }
                    }
                    assert(known@ =~= numbers(b));
                }
                i += 1;
            }
            assert(rows@.take(rows@.len() as int) =~= rows@);
        }
        Quarantine { ty, enabled: !dry_run, known, write_error: None }
    }

    /// Whether a row is to be written for an object that failed.
    pub fn record(&self) -> (r: bool)
        ensures
            r == self.enabled,
    {
        self.enabled
    }

    /// Takes note of how writing a row went.
    pub fn recorded(&mut self, local_id: i64, outcome: Result<(), String>)
        ensures
            final(self).ty == old(self).ty,
            final(self).enabled == old(self).enabled,
            match outcome {
                Ok(_) => final(self).known@ == old(self).known@.insert(local_id) && final(self).write_error
                    == old(self).write_error,
                Err(e) => final(self).known@ == old(self).known@ && text::opt_text(final(self).write_error)
                    == first_error(text::opt_text(old(self).write_error), e@),
            },
    {
        match outcome {
            Ok(_) => {
                self.known.insert(local_id);
            },
            Err(e) => {
                self.note_write_error(e);
            },
        }
    }

    /// Whether the row of an object that is on the target now is to be removed:
    /// only where there is one.
    pub fn resolve(&mut self, local_id: i64) -> (r: bool)
        ensures
            r == (old(self).enabled && old(self).known@.contains(local_id)),
            final(self).ty == old(self).ty,
            final(self).enabled == old(self).enabled,
            final(self).write_error == old(self).write_error,
            final(self).known@ == if old(self).enabled {
                old(self).known@.remove(local_id)
            } else {
                old(self).known@
            },
    {
        if !self.enabled {
            return false;
        }
        let had = self.known.contains(&local_id);
        if had {
            self.known.remove(&local_id);
        } else {
            assert(self.known@.remove(local_id) =~= self.known@);
        }
        had
    }

    /// Takes note of a row that could not be written or removed: the first such
    /// error is kept.
    pub fn note_write_error(&mut self, e: String)
        ensures
            final(self).ty == old(self).ty,
            final(self).enabled == old(self).enabled,
            final(self).known@ == old(self).known@,
            text::opt_text(final(self).write_error) == first_error(
                text::opt_text(old(self).write_error),
                e@,
            ),
    {
        if self.write_error.is_none() {
            self.write_error = Some(e);
        }
    }

    /// What to report where the rows of a pass are incomplete.
    pub fn finish(&self) -> (r: Option<String>)
        ensures
            text::opt_text(r) == match text::opt_text(self.write_error) {
                Some(e) => Some(
                    self.ty.jmap() + " failures could not be recorded in the archive: "@ + e,
                ),
                None => None,
            },
    {
        match &self.write_error {
            Some(e) => Some(
                text::joined3(
                    self.ty.jmap_name(),
                    " failures could not be recorded in the archive: ",
                    e.as_str(),
                ),
            ),
            None => None,
        }
    }
}

/// The rows of one kind in the archive.
pub type Rows = Map<i64, FailedView>;

/// The rows after an object failed, where the write succeeds.
pub open spec fn rows_recorded(enabled: bool, rows: Rows, item: FailedView) -> Rows {
    if enabled {
        rows.insert(item.local_id, item)
    } else {
        rows
    }
}

/// The rows after an object was found on the target, where the write succeeds
/// and is made only for an object that is known to have a row.
pub open spec fn rows_resolved(enabled: bool, known: Set<i64>, rows: Rows, local: i64) -> Rows {
    if enabled && known.contains(local) {
        rows.remove(local)
    } else {
        rows
    }
}

/// An object has at most one row: recording a failure again replaces what the
/// row said and leaves the other rows as they are.
pub proof fn a_failure_replaces_its_row(rows: Rows, first: FailedView, second: FailedView)
    requires
        first.local_id == second.local_id,
    ensures
        rows_recorded(true, rows_recorded(true, rows, first), second) == rows_recorded(true, rows, second),
        rows_recorded(true, rows, second)[second.local_id] == second,
        forall|k: i64|
            k != second.local_id ==> (rows_recorded(true, rows, second).dom().contains(k) <==> rows.dom().contains(
                k,
            )) && rows_recorded(true, rows, second)[k] == rows[k],
{
    assert(rows_recorded(true, rows_recorded(true, rows, first), second) =~= rows_recorded(true, rows, second));
}

/// An object that is on the target has no row, although nothing is written for
/// those that never had one; and what is known of the rows stays right.
pub proof fn resolving_clears_the_row(rows: Rows, known: Set<i64>, local: i64)
    requires
        known == rows.dom(),
    ensures
        rows_resolved(true, known, rows, local) == rows.remove(local),
        !rows_resolved(true, known, rows, local).dom().contains(local),
        known.remove(local) == rows_resolved(true, known, rows, local).dom(),
{
    if !known.contains(local) {
        assert(rows.remove(local) =~= rows);
    }
    assert(known.remove(local) =~= rows_resolved(true, known, rows, local).dom());
}

/// Recording keeps what is known of the rows right.
pub proof fn recording_keeps_track(rows: Rows, known: Set<i64>, item: FailedView)
    requires
        known == rows.dom(),
    ensures
        known.insert(item.local_id) == rows_recorded(true, rows, item).dom(),
{
    assert(known.insert(item.local_id) =~= rows_recorded(true, rows, item).dom());
}

/// A pass that only shows what it would do leaves the rows as they are.
pub proof fn dry_runs_leave_the_rows(rows: Rows, known: Set<i64>, item: FailedView, local: i64)
    ensures
        rows_recorded(false, rows, item) == rows,
        rows_resolved(false, known, rows, local) == rows,
{
}

/// An error type; a missing one is called unknown.
pub open spec fn error_kind(t: Seq<char>) -> Seq<char> {
    if t.len() == 0 {
        "unknown"@
    } else {
        t
    }
}

/// See [`error_kind`].
pub fn normalise_error_type(error_type: &str) -> (r: String)
    ensures
        r@ == error_kind(error_type@),
{
    if error_type.is_empty() {
        "unknown".to_owned()
    } else {
        error_type.to_owned()
    }
}

/// The row for an object, before what is particular to its kind.
pub open spec fn row_view(
    ty: ObjectType,
    local: i64,
    cid: Seq<char>,
    error: Seq<char>,
    detail: Seq<char>,
    stamp: Seq<char>,
) -> FailedView {
    FailedView {
        type_token: ty.archive(),
        local_id: local,
        client_id: cid,
        message_id: None,
        size_bytes: None,
        blob_local_id: None,
        blob_hash: None,
        target_blob_id: None,
        error_type: error_kind(error),
        error_detail: detail,
        blob_probe: "not_probed"@,
        failed_at: stamp,
    }
}

/// See [`row_view`].
pub fn row(ty: ObjectType, local_id: i64, cid: &str, error_type: &str, error_detail: String, stamp: &str) -> (r:
    FailedItem)
    ensures
        r@ == row_view(ty, local_id, cid@, error_type@, error_detail@, stamp@),
{
    FailedItem {
        type_token: ty.token().to_owned(),
        local_id,
        client_id: cid.to_owned(),
        message_id: None,
        size_bytes: None,
        blob_local_id: None,
        blob_hash: None,
        target_blob_id: None,
        error_type: normalise_error_type(error_type),
        error_detail,
        blob_probe: PROBE_NOT_PROBED.to_owned(),
        failed_at: stamp.to_owned(),
    }
}

/// What the archive says of a blob, read by read: its length and its hash. A
/// read that fails is not a blob that is gone.
pub struct BlobReads {
    pub blob_local_id: i64,
    pub len: Result<Option<u64>, String>,
    pub hash: Result<Option<String>, String>,
}

impl BlobReads {
    /// The same reads again.
    pub fn copy(&self) -> (r: BlobReads)
        ensures
            r == *self,
    {
        BlobReads {
            blob_local_id: self.blob_local_id,
            len: match &self.len {
                Ok(n) => Ok(*n),
                Err(e) => Err(e.clone()),
            },
            hash: match &self.hash {
                Ok(Some(h)) => Ok(Some(h.clone())),
                Ok(None) => Ok(None),
                Err(e) => Err(e.clone()),
            },
        }
    }
}

/// What is known of a blob, and which reads failed.
pub struct BlobIdentity {
    pub size_bytes: Option<i64>,
    pub hash: Option<String>,
    pub read_error: Option<String>,
}

/// The view of a [`BlobIdentity`].
pub struct IdentityView {
    pub size_bytes: Option<i64>,
    pub hash: Option<Seq<char>>,
    pub read_error: Option<Seq<char>>,
}

impl View for BlobIdentity {
    type V = IdentityView;

    open spec fn view(&self) -> IdentityView {
        IdentityView {
            size_bytes: self.size_bytes,
            hash: text::opt_text(self.hash),
            read_error: text::opt_text(self.read_error),
        }
    }
}

/// Whether a length is one that the archive can report.
pub open spec fn archived_len(len: Result<Option<u64>, String>) -> bool {
    len matches Ok(Some(n)) ==> n <= i64::MAX
}

/// What two reads tell of a blob.
pub open spec fn identity_of(len: Result<Option<u64>, String>, hash: Result<Option<String>, String>) -> IdentityView {
    let size_bytes = match len {
        Ok(Some(n)) => Some(n as i64),
        _ => None,
    };
    let hash_text = match hash {
        Ok(h) => text::opt_text(h),
        Err(_) => None,
    };
    IdentityView {
        size_bytes,
        hash: hash_text,
        read_error: match (len, hash) {
            (Ok(_), Ok(_)) => None,
            (Err(a), Ok(_)) => Some("size: "@ + a@),
            (Ok(_), Err(b)) => Some("blake3: "@ + b@),
            (Err(a), Err(b)) => Some("size: "@ + a@ + ("; "@ + ("blake3: "@ + b@))),
        },
    }
}

/// See [`identity_of`].
pub fn blob_identity(len: Result<Option<u64>, String>, hash: Result<Option<String>, String>) -> (r: BlobIdentity)
    requires
        archived_len(len),
    ensures
        r@ == identity_of(len, hash),
{
    let read_error = match (&len, &hash) {
        (Ok(_), Ok(_)) => None,
        (Err(a), Ok(_)) => Some(text::joined("size: ", a.as_str())),
        (Ok(_), Err(b)) => Some(text::joined("blake3: ", b.as_str())),
        (Err(a), Err(b)) => {
            let tail = text::joined("; ", text::joined("blake3: ", b.as_str()).as_str());
            Some(text::joined3("size: ", a.as_str(), tail.as_str()))
        },
    };
    let size_bytes = match len {
        Ok(Some(n)) => Some(n as i64),
        _ => None,
    };
    let hash = match hash {
        Ok(h) => h,
        Err(_) => None,
    };
    BlobIdentity { size_bytes, hash, read_error }
}

/// A message, with a remark where reads failed.
pub open spec fn annotated(b: IdentityView, detail: Seq<char>) -> Seq<char> {
    match b.read_error {
        Some(p) => detail + "; blob metadata unreadable ("@ + (p + ")"@),
        None => detail,
    }
}

impl BlobIdentity {
    /// See [`annotated`].
    pub fn annotate(&self, detail: String) -> (r: String)
        ensures
            r@ == annotated(self@, detail@),
    {
        match &self.read_error {
            Some(p) => text::joined3(
                detail.as_str(),
                "; blob metadata unreadable (",
                text::joined(p.as_str(), ")").as_str(),
            ),
            None => detail,
        }
    }
}

/// An absent hash is never the trace of a failed read alone: where a read fails,
/// the row says so.
pub proof fn failed_reads_are_told(
    len: Result<Option<u64>, String>,
    hash: Result<Option<String>, String>,
)
    ensures
        identity_of(len, hash).read_error is None <==> len is Ok && hash is Ok,
        hash matches Ok(Some(h)) ==> identity_of(len, hash).hash == Some(h@),
        len matches Ok(Some(n)) ==> identity_of(len, hash).size_bytes == Some(n as i64),
{
}

/// A row with the columns of a blob, where the failure can be pinned on one.
pub open spec fn blob_row(item: FailedView, reads: Option<BlobReads>) -> FailedView {
    match reads {
        None => item,
        Some(b) => {
            let id = identity_of(b.len, b.hash);
            FailedView {
                error_detail: annotated(id, item.error_detail),
                blob_local_id: Some(b.blob_local_id),
                size_bytes: id.size_bytes,
                blob_hash: id.hash,
                ..item
            }
        },
    }
}

/// Whether the length read of a blob is one that the archive can report.
pub open spec fn reads_ok(reads: Option<BlobReads>) -> bool {
    reads matches Some(b) ==> archived_len(b.len)
}

/// See [`blob_row`].
pub fn with_blob(item: FailedItem, reads: Option<BlobReads>) -> (r: FailedItem)
    requires
        reads_ok(reads),
    ensures
        r@ == blob_row(item@, reads),
{
    match reads {
        None => item,
        Some(b) => {
            let id = blob_identity(b.len, b.hash);
            let mut out = item;
            let detail = out.error_detail.clone();
            out.error_detail = id.annotate(detail);
            out.blob_local_id = Some(b.blob_local_id);
            out.size_bytes = id.size_bytes;
            out.blob_hash = id.hash;
            out
        },
    }
}

/// The row for an object that was given up before the target saw it.
pub open spec fn local_failure_view(
    ty: ObjectType,
    local: i64,
    cid: Seq<char>,
    reads: Option<BlobReads>,
    error: Seq<char>,
    detail: Seq<char>,
    stamp: Seq<char>,
) -> FailedView {
    blob_row(row_view(ty, local, cid, error, detail, stamp), reads)
}

/// See [`local_failure_view`].
pub fn record_local_failure(
    ty: ObjectType,
    local_id: i64,
    cid: &str,
    reads: Option<BlobReads>,
    error_type: &str,
    error_detail: String,
    stamp: &str,
) -> (r: FailedItem)
    requires
        reads_ok(reads),
    ensures
        r@ == local_failure_view(ty, local_id, cid@, reads, error_type@, error_detail@, stamp@),
{
    with_blob(row(ty, local_id, cid, error_type, error_detail, stamp), reads)
}

/// The ids that a blob had when it was uploaded twice.
pub struct BlobRetry {
    pub first: String,
    pub second: String,
}

/// The error type and the message of a refusal. `verb` is what was asked for.
pub open spec fn refusal_error(
    ty: ObjectType,
    verb: (Seq<char>, Seq<char>),
    key: Seq<char>,
    err: Option<JsonView>,
) -> (Seq<char>, Seq<char>) {
    match err {
        Some(e) => (
            match e.text_at("type"@) {
                Some(t) => t,
                None => Seq::empty(),
            },
            json_compact(e),
        ),
        None => (
            Seq::empty(),
            ty.jmap() + "/set returned neither "@ + (verb.0 + " nor "@ + (verb.1 + " for "@ + key)),
        ),
    }
}

/// The view of an optional value.
pub open spec fn opt_json(j: Option<&Json>) -> Option<JsonView> {
    match j {
        Some(v) => Some(v@),
        None => None,
    }
}

fn refusal_text(ty: ObjectType, done: &str, undone: &str, key: &str, err: Option<&Json>) -> (r: (
    String,
    String,
))
    ensures
        (r.0@, r.1@) == refusal_error(ty, (done@, undone@), key@, opt_json(err)),
{
    match err {
        Some(e) => (
            match e.str_at("type") {
                Some(t) => t.to_owned(),
                None => String::new(),
            },
            e.compact(),
        ),
        None => {
            let tail = text::joined3(undone, " for ", key);
            let verb = text::joined3(done, " nor ", tail.as_str());
            (String::new(), text::joined3(ty.jmap_name(), "/set returned neither ", verb.as_str()))
        },
    }
}

/// A refused object: its row, and the blob to ask the target for before the row
/// is written.
pub struct Refusal {
    pub item: FailedItem,
    pub probe: Option<String>,
}

/// The row of a refused object, and whether its blob is to be asked for: only
/// where the target still misses the blob after it was uploaded again.
pub open spec fn refusal_view(
    ty: ObjectType,
    local: i64,
    cid: Seq<char>,
    reads: Option<BlobReads>,
    error: (Seq<char>, Seq<char>),
    retry: Option<Seq<char>>,
    stamp: Seq<char>,
) -> (FailedView, Option<Seq<char>>) {
    let base = blob_row(row_view(ty, local, cid, error.0, error.1, stamp), reads);
    match retry {
        None => (base, None),
        Some(second) => (
            FailedView { target_blob_id: Some(second), ..base },
            if base.error_type == "blobNotFound"@ {
                Some(second)
            } else {
                None
            },
        ),
    }
}

/// The second id of a blob that was uploaded twice.
pub open spec fn second_of(retry: Option<&BlobRetry>) -> Option<Seq<char>> {
    match retry {
        Some(r) => Some(r.second@),
        None => None,
    }
}

fn refused(
    ty: ObjectType,
    local_id: i64,
    cid: &str,
    reads: Option<BlobReads>,
    error: (String, String),
    retry: Option<&BlobRetry>,
    stamp: &str,
) -> (r: Refusal)
    requires
        reads_ok(reads),
    ensures
        (r.item@, text::opt_text(r.probe)) == refusal_view(
            ty,
            local_id,
            cid@,
            reads,
            (error.0@, error.1@),
            second_of(retry),
            stamp@,
        ),
{
    let mut item = with_blob(row(ty, local_id, cid, error.0.as_str(), error.1, stamp), reads);
    match retry {
        None => Refusal { item, probe: None },
        Some(b) => {
            item.target_blob_id = Some(b.second.clone());
            let missing = text::same(item.error_type.as_str(), "blobNotFound");
            Refusal {
                item,
                probe: if missing {
                    Some(b.second.clone())
                } else {
                    None
                },
            }
        },
    }
}

/// The row of an object that the target refused to create.
pub fn record_refusal(
    ty: ObjectType,
    local_id: i64,
    cid: &str,
    reads: Option<BlobReads>,
    err: Option<&Json>,
    retry: Option<&BlobRetry>,
    stamp: &str,
) -> (r: Refusal)
    requires
        reads_ok(reads),
    ensures
        (r.item@, text::opt_text(r.probe)) == refusal_view(
            ty,
            local_id,
            cid@,
            reads,
            refusal_error(ty, ("created"@, "notCreated"@), cid@, opt_json(err)),
            second_of(retry),
            stamp@,
        ),
{
    refused(ty, local_id, cid, reads, refusal_text(ty, "created", "notCreated", cid, err), retry, stamp)
}

/// The row of an object that the target refused to update.
pub fn record_update_refusal(
    ty: ObjectType,
    local_id: i64,
    target_id: &str,
    reads: Option<BlobReads>,
    err: Option<&Json>,
    retry: Option<&BlobRetry>,
    stamp: &str,
) -> (r: Refusal)
    requires
        reads_ok(reads),
    ensures
        (r.item@, text::opt_text(r.probe)) == refusal_view(
            ty,
            local_id,
            "u"@ + text::integer_text(local_id as int),
            reads,
            refusal_error(ty, ("updated"@, "notUpdated"@), target_id@, opt_json(err)),
            second_of(retry),
            stamp@,
        ),
{
    let cid = text::joined("u", text::integer(local_id).as_str());
    refused(
        ty,
        local_id,
        cid.as_str(),
        reads,
        refusal_text(ty, "updated", "notUpdated", target_id, err),
        retry,
        stamp,
    )
}

/// What a lookup of a refused blob amounts to: the state of the blob, and a
/// remark.
pub open spec fn probe_of(lookup: Result<BlobLookup, Seq<char>>, blob: Seq<char>) -> (
    Seq<char>,
    Option<Seq<char>>,
) {
    match lookup {
        Ok(BlobLookup::NotFound) => ("orphaned_marker"@, None),
        Ok(BlobLookup::Found { size }) => (
            "retrievable"@,
            match size {
                Some(n) => Some(
                    "Blob/get reports "@ + text::decimal_text(n as nat) + (" bytes for "@ + blob),
                ),
                None => None,
            },
        ),
        Ok(BlobLookup::Unsupported) => ("unsupported"@, None),
        Err(e) => ("store_unavailable"@, Some(e)),
    }
}

/// The view of a lookup whose error is text.
pub open spec fn lookup_text(l: Result<BlobLookup, String>) -> Result<BlobLookup, Seq<char>> {
    match l {
        Ok(b) => Ok(b),
        Err(e) => Err(e@),
    }
}

/// See [`probe_of`].
pub fn classify_blob(lookup: Result<BlobLookup, String>, blob_id: &str) -> (r: (String, Option<String>))
    ensures
        (r.0@, text::opt_text(r.1)) == probe_of(lookup_text(lookup), blob_id@),
{
    match lookup {
        Ok(BlobLookup::NotFound) => (PROBE_ORPHANED_MARKER.to_owned(), None),
        Ok(BlobLookup::Found { size }) => (
            PROBE_RETRIEVABLE.to_owned(),
            match size {
                Some(n) => Some(
                    text::joined3(
                        "Blob/get reports ",
                        text::decimal(n as u128).as_str(),
                        text::joined(" bytes for ", blob_id).as_str(),
                    ),
                ),
                None => None,
            },
        ),
        Ok(BlobLookup::Unsupported) => (PROBE_UNSUPPORTED.to_owned(), None),
        Err(e) => (PROBE_STORE_UNAVAILABLE.to_owned(), Some(e)),
    }
}

/// A blob is called orphaned exactly where the target was asked and said that it
/// has no such blob.
pub proof fn orphaned_only_where_the_target_says_so(lookup: Result<BlobLookup, Seq<char>>, blob: Seq<char>)
    ensures
        probe_of(lookup, blob).0 == "orphaned_marker"@ <==> lookup == Ok::<BlobLookup, Seq<char>>(
            BlobLookup::NotFound,
        ),
{
    reveal_strlit("orphaned_marker");
    reveal_strlit("retrievable");
    reveal_strlit("unsupported");
    reveal_strlit("store_unavailable");
    assert("orphaned_marker"@.len() == 15);
    assert("retrievable"@.len() == 11);
    assert("unsupported"@.len() == 11);
    assert("store_unavailable"@.len() == 17);
}

/// A row with what was found out about its blob.
pub open spec fn probed_view(item: FailedView, probe: (Seq<char>, Option<Seq<char>>)) -> FailedView {
    FailedView {
        error_detail: match probe.1 {
            Some(t) => item.error_detail + "; blob probe: "@ + t,
            None => item.error_detail,
        },
        blob_probe: probe.0,
        ..item
    }
}

/// See [`probed_view`].
pub fn probed(item: FailedItem, lookup: Result<BlobLookup, String>, blob_id: &str) -> (r: FailedItem)
    ensures
        r@ == probed_view(item@, probe_of(lookup_text(lookup), blob_id@)),
{
    let (state, remark) = classify_blob(lookup, blob_id);
    let mut out = item;
    match remark {
        Some(t) => {
            out.error_detail = text::joined3(out.error_detail.as_str(), "; blob probe: ", t.as_str());
        },
        None => {},
    }
    out.blob_probe = state;
    out
}

/// The remark on a blob that was uploaded twice.
pub open spec fn dedup_text(first: Seq<char>, second: Seq<char>) -> Seq<char> {
    if first == second {
        "; the re-upload returned the same blobId, so the target de-duplicated it by content hash"@
    } else {
        ""@
    }
}

/// See [`dedup_text`].
pub fn dedup_note(first_blob: &str, second_blob: &str) -> (r: &'static str)
    ensures
        r@ == dedup_text(first_blob@, second_blob@),
{
    if text::same(first_blob, second_blob) {
        "; the re-upload returned the same blobId, so the target de-duplicated it by content hash"
    } else {
        ""
    }
}

/// The remark on the state of a blob.
pub open spec fn probe_text(probe: Seq<char>) -> Seq<char> {
    if probe == "orphaned_marker"@ {
        "; Blob/get cannot serve that blobId back, so the upload was de-duplicated onto a marker whose bytes are gone from the target blob store and re-uploading identical bytes can never recover it"@
    } else if probe == "retrievable"@ {
        "; Blob/get can still serve that blobId, so the refusal did not come from a missing blob"@
    } else if probe == "store_unavailable"@ {
        "; the Blob/get probe itself failed, which points at an unhealthy target blob store rather than at this one item"@
    } else if probe == "unsupported"@ {
        "; the target does not offer urn:ietf:params:jmap:blob, so retrievability could not be established"@
    } else {
        ""@
    }
}

/// See [`probe_text`].
pub fn probe_note(probe: &str) -> (r: &'static str)
    ensures
        r@ == probe_text(probe@),
{
    if text::same(probe, "orphaned_marker") {
        "; Blob/get cannot serve that blobId back, so the upload was de-duplicated onto a marker whose bytes are gone from the target blob store and re-uploading identical bytes can never recover it"
    } else if text::same(probe, "retrievable") {
        "; Blob/get can still serve that blobId, so the refusal did not come from a missing blob"
    } else if text::same(probe, "store_unavailable") {
        "; the Blob/get probe itself failed, which points at an unhealthy target blob store rather than at this one item"
    } else if text::same(probe, "unsupported") {
        "; the target does not offer urn:ietf:params:jmap:blob, so retrievability could not be established"
    } else {
        ""
    }
}

} // verus!
