//! The record of objects that could not be exported.

use vstd::prelude::*;
use vstd::string::*;

use crate::text;

verus! {

/// No probe ran: the failure was not a missing blob that survived a re-upload.
pub const PROBE_NOT_PROBED: &'static str = "not_probed";

/// The target could serve the blob back, so the refusal came from elsewhere.
pub const PROBE_RETRIEVABLE: &'static str = "retrievable";

/// The target accepted the upload and named a blob that it then reports as not
/// found: a marker that shadows bytes which are gone.
pub const PROBE_ORPHANED_MARKER: &'static str = "orphaned_marker";

/// The lookup itself failed.
pub const PROBE_STORE_UNAVAILABLE: &'static str = "store_unavailable";

/// The target cannot be asked.
pub const PROBE_UNSUPPORTED: &'static str = "unsupported";

/// An object that could not be exported, and why.
#[derive(Debug)]
pub struct FailedItem {
    pub type_token: String,
    pub local_id: i64,
    pub client_id: String,
    pub message_id: Option<String>,
    pub size_bytes: Option<i64>,
    pub blob_local_id: Option<i64>,
    pub blob_hash: Option<String>,
    pub target_blob_id: Option<String>,
    pub error_type: String,
    pub error_detail: String,
    pub blob_probe: String,
    pub failed_at: String,
}

/// The view of a [`FailedItem`].
pub struct FailedView {
    pub type_token: Seq<char>,
    pub local_id: i64,
    pub client_id: Seq<char>,
    pub message_id: Option<Seq<char>>,
    pub size_bytes: Option<i64>,
    pub blob_local_id: Option<i64>,
    pub blob_hash: Option<Seq<char>>,
    pub target_blob_id: Option<Seq<char>>,
    pub error_type: Seq<char>,
    pub error_detail: Seq<char>,
    pub blob_probe: Seq<char>,
    pub failed_at: Seq<char>,
}

impl View for FailedItem {
    type V = FailedView;

    open spec fn view(&self) -> FailedView {
        FailedView {
            type_token: self.type_token@,
            local_id: self.local_id,
            client_id: self.client_id@,
            message_id: text::opt_text(self.message_id),
            size_bytes: self.size_bytes,
            blob_local_id: self.blob_local_id,
            blob_hash: text::opt_text(self.blob_hash),
            target_blob_id: text::opt_text(self.target_blob_id),
            error_type: self.error_type@,
            error_detail: self.error_detail@,
            blob_probe: self.blob_probe@,
            failed_at: self.failed_at@,
        }
    }
}

/// The part of a query that picks a page: at most `limit` rows after the first
/// `offset`.
pub open spec fn page_clause(limit: Option<usize>, offset: usize) -> Seq<char> {
    match limit {
        Some(n) => " LIMIT "@ + text::decimal_text(n as nat) + (" OFFSET "@ + text::decimal_text(
            offset as nat,
        )),
        None => if offset > 0 {
            " LIMIT -1 OFFSET "@ + text::decimal_text(offset as nat)
        } else {
            Seq::empty()
        },
    }
}

/// See [`page_clause`].
pub fn page(limit: Option<usize>, offset: usize) -> (r: String)
    ensures
        r@ == page_clause(limit, offset),
{
    match limit {
        Some(n) => {
            let tail = text::joined(" OFFSET ", text::decimal(offset as u128).as_str());
            text::joined3(" LIMIT ", text::decimal(n as u128).as_str(), tail.as_str())
        },
        None => if offset > 0 {
            text::joined(" LIMIT -1 OFFSET ", text::decimal(offset as u128).as_str())
        } else {
            String::new()
        },
    }
}

/// How many rows there are, as the archive reports it; never negative.
pub fn count(reported: i64) -> (r: u64)
    ensures
        r == if reported < 0 {
            0
        } else {
            reported as int
        },
{
    if reported < 0 {
        0
    } else {
        reported as u64
    }
}

/// What `time::OffsetDateTime::format` writes for an instant, in UTC and in the form
/// of RFC 3339; nothing where the year has not four digits. The instant is given in
/// nanoseconds after the start of 1970.
pub uninterp spec fn instant_stamp(nanos: i128) -> Option<Seq<char>>;

/// Whether an instant lies in a year from 0 to 9999.
pub open spec fn has_four_digit_year(nanos: i128) -> bool {
    -62_167_219_200_000_000_000 <= nanos < 253_402_300_800_000_000_000
}

/// Writes an instant with `time::OffsetDateTime::from_unix_timestamp_nanos` and
/// `time::OffsetDateTime::format`. The result depends on the instant alone, and there
/// is one for every year from 0 to 9999.
#[verifier::external_body]
fn write_instant(nanos: i128) -> (r: Option<String>)
    ensures
        text::opt_text(r) == instant_stamp(nanos),
        r is Some <==> has_four_digit_year(nanos),
{
    let at = time::OffsetDateTime::from_unix_timestamp_nanos(nanos).ok()?;
    at.format(&time::format_description::well_known::Rfc3339).ok()
}

/// The stamp of a row that is written at an instant, given in nanoseconds after the
/// start of 1970.
pub fn stamp(nanos: i128) -> (r: Option<String>)
    ensures
        text::opt_text(r) == instant_stamp(nanos),
        r is Some <==> has_four_digit_year(nanos),
{
    write_instant(nanos)
}

} // verus!
