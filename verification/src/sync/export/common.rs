//! What the passes over the kinds of objects share.

use std::collections::HashMap;

use vstd::prelude::*;
use vstd::string::*;

use crate::db::export_failures::{FailedItem, FailedView};
use crate::jmap::error::{JmapError, JmapErrorView};
use crate::json::{Json, JsonObject, JsonView};
use crate::sync::export::quarantine::{
    local_failure_view, reads_ok, record_local_failure, BlobReads, BlobRetry,
};
use crate::text;
use crate::types::{ObjectType, TypeCounts};

verus! {

broadcast use vstd::std_specs::hash::group_hash_axioms;

/// What a target answered to a call that changes objects: ids with what the
/// target says of them.
pub struct SetOutcome {
    pub created: Vec<(String, Json)>,
    pub not_created: Vec<(String, Json)>,
    pub updated: Vec<String>,
    pub not_updated: Vec<(String, Json)>,
    pub destroyed: Vec<String>,
    pub not_destroyed: Vec<(String, Json)>,
}

/// The views of a list of ids with values.
pub open spec fn entries(v: Seq<(String, Json)>) -> Seq<(Seq<char>, JsonView)> {
    Seq::new(v.len(), |i: int| (v[i].0@, v[i].1@))
}

/// The value under an id: the first, where it occurs more than once.
pub open spec fn lookup(s: Seq<(Seq<char>, JsonView)>, id: Seq<char>, n: nat) -> Option<JsonView>
    decreases s.len() - n,
{
    if n >= s.len() {
        None
    } else if s[n as int].0 == id {
        Some(s[n as int].1)
    } else {
        lookup(s, id, n + 1)
    }
}

/// See [`lookup`].
pub fn find_entry<'a>(list: &'a Vec<(String, Json)>, id: &str) -> (r: Option<&'a Json>)
    ensures
        match r {
            Some(v) => lookup(entries(list@), id@, 0) == Some(v@),
            None => lookup(entries(list@), id@, 0) is None,
        },
{
    let ghost all = entries(list@);
    let mut i: usize = 0;
    while i < list.len()
        invariant
            i <= list.len(),
            all == entries(list@),
            lookup(all, id@, 0) == lookup(all, id@, i as nat),
        decreases list.len() - i,
    {
        assert(all[i as int] == (list@[i as int].0@, list@[i as int].1@));
        if text::same(list[i].0.as_str(), id) {
            return Some(&list[i].1);
        }
        i += 1;
    }
    None
}

/// The id of an object.
pub fn jid(v: &Json) -> (r: Option<String>)
    ensures
        text::opt_text(r) == v@.text_at("id"@),
{
    text::owned(v.str_at("id"))
}

/// The one blob that an object was built from, where there is exactly one.
pub open spec fn sole(touched: Seq<i64>) -> Option<i64> {
    if touched.len() == 1 {
        Some(touched[0])
    } else {
        None
    }
}

/// See [`sole`].
pub fn sole_blob(touched: &[i64]) -> (r: Option<i64>)
    ensures
        r == sole(touched@),
{
    if touched.len() == 1 {
        Some(touched[0])
    } else {
        None
    }
}

/// The creation id of an object.
pub open spec fn creation_id(local: i64) -> Seq<char> {
    "c"@ + text::integer_text(local as int)
}

/// See [`creation_id`].
pub fn make_creation_id(local: i64) -> (r: String)
    ensures
        r@ == creation_id(local),
{
    text::joined("c", text::integer(local).as_str())
}

/// The id under which an update of an object is recorded.
pub open spec fn update_id(local: i64) -> Seq<char> {
    "u"@ + text::integer_text(local as int)
}

/// See [`update_id`].
pub fn make_update_id(local: i64) -> (r: String)
    ensures
        r@ == update_id(local),
{
    text::joined("u", text::integer(local).as_str())
}

/// The object that a creation id names; none for one that was never given out.
pub open spec fn created_object(cid: Seq<char>) -> Option<int> {
    if text::begins(cid, "c"@) {
        text::i64_value(cid.skip("c"@.len() as int))
    } else {
        None
    }
}

/// See [`created_object`].
pub fn parse_creation_id(cid: &str) -> (r: Option<i64>)
    ensures
        match r {
            Some(n) => created_object(cid@) == Some(n as int),
            None => created_object(cid@) is None,
        },
{
    match text::strip_prefix(cid, "c") {
        Some(rest) => text::parse_i64(rest.as_str()),
        None => None,
    }
}

proof fn lemma_decimal_read_back(n: nat)
    ensures
        text::digits_value(text::decimal_text(n)) == Some(n),
        text::decimal_text(n).len() >= 1,
        text::decimal_text(n)[0] != '-',
        text::decimal_text(n)[0] != '+',
    decreases n,
{
    let d = text::decimal_text(n);
    if n < 10 {
        assert(d.drop_last() =~= Seq::<char>::empty());
        assert(d.last() == text::digit(n));
    } else {
        lemma_decimal_read_back(n / 10);
        assert(d.drop_last() =~= text::decimal_text(n / 10));
        assert(d.last() == text::digit(n % 10));
        assert(d[0] == text::decimal_text(n / 10)[0]);
    }
}

/// A creation id names the object it was made for.
pub proof fn creation_ids_name_their_object(local: i64)
    ensures
        created_object(creation_id(local)) == Some(local as int),
{
    reveal_strlit("c");
    reveal_strlit("-");
    let t = text::integer_text(local as int);
    let cid = creation_id(local);
    assert(cid.take(1) =~= "c"@);
    assert(cid.skip(1) =~= t);
    if local < 0 {
        lemma_decimal_read_back((-(local as int)) as nat);
        assert(t[0] == '-');
        assert(t.skip(1) =~= text::decimal_text((-(local as int)) as nat));
    } else {
        lemma_decimal_read_back(local as nat);
    }
}

/// Whether the target refused to create an object because a blob is missing.
pub open spec fn misses_blob(refused: Seq<(Seq<char>, JsonView)>, cid: Seq<char>) -> bool {
    exists|i: int|
        0 <= i < refused.len() && (#[trigger] refused[i]).0 == cid && refused[i].1.text_at("type"@) == Some(
            "blobNotFound"@,
        )
}

/// See [`misses_blob`].
pub fn blob_not_found(refused: &Vec<(String, Json)>, cid: &str) -> (r: bool)
    ensures
        r == misses_blob(entries(refused@), cid@),
{
    let ghost all = entries(refused@);
    let mut i: usize = 0;
    while i < refused.len()
        invariant
            i <= refused.len(),
            all == entries(refused@),
            forall|j: int|
                0 <= j < i ==> !((#[trigger] all[j]).0 == cid@ && all[j].1.text_at("type"@) == Some(
                    "blobNotFound"@,
                )),
        decreases refused.len() - i,
    {
        assert(all[i as int] == (refused@[i as int].0@, refused@[i as int].1@));
        if text::same(refused[i].0.as_str(), cid) {
            match refused[i].1.str_at("type") {
                Some(t) => if text::same(t, "blobNotFound") {
                    return true;
                },
                None => {},
            }
        }
        i += 1;
    }
    false
}

/// The outcome that a run which changes nothing assumes: each object is created,
/// under a made-up id.
pub open spec fn assumed(ty: ObjectType, cids: Seq<Seq<char>>) -> Seq<(Seq<char>, JsonView)> {
    Seq::new(
        cids.len(),
        |i: int|
            (
                cids[i],
                JsonView::Object(
                    Map::<Seq<char>, JsonView>::empty().insert(
                        "id"@,
                        JsonView::Str("dryrun-"@ + ty.jmap() + ("-"@ + cids[i])),
                    ),
                ),
            ),
    )
}

/// See [`assumed`].
pub fn synthesize_dry_run_outcome(ty: ObjectType, cids: &Vec<String>) -> (r: SetOutcome)
    ensures
        entries(r.created@) == assumed(ty, text::texts(cids@)),
        r.not_created@.len() == 0,
        r.updated@.len() == 0,
        r.not_updated@.len() == 0,
        r.destroyed@.len() == 0,
        r.not_destroyed@.len() == 0,
{
    let mut created: Vec<(String, Json)> = Vec::new();
    let ghost want = assumed(ty, text::texts(cids@));
    let mut i: usize = 0;
    while i < cids.len()
        invariant
            i <= cids.len(),
            want == assumed(ty, text::texts(cids@)),
            entries(created@) == want.take(i as int),
        decreases cids.len() - i,
    {
        let tail = text::joined("-", cids[i].as_str());
        let id = text::joined3("dryrun-", ty.jmap_name(), tail.as_str());
        let mut o = JsonObject::new();
        o.insert("id".to_owned(), Json::Str(id));
        let ghost was = entries(created@);
        created.push((cids[i].clone(), Json::Object(o)));
        assert(entries(created@) =~= was.push(want[i as int]));
        assert(want.take(i + 1) =~= want.take(i as int).push(want[i as int]));
        i += 1;
    }
    assert(want.take(want.len() as int) =~= want);
    SetOutcome {
        created,
        not_created: Vec::new(),
        updated: Vec::new(),
        not_updated: Vec::new(),
        destroyed: Vec::new(),
        not_destroyed: Vec::new(),
    }
}

/// Which blobs of the archive are on the target, under which id, and which were
/// asked for while an object was built.
pub struct Uploader {
    pub cache: HashMap<i64, String>,
    pub touched: Vec<i64>,
}

impl Uploader {
    /// The id of a blob on the target, as far as it is known.
    pub open spec fn known(&self, local: i64) -> Option<Seq<char>> {
        if self.cache@.dom().contains(local) {
            Some(self.cache@[local]@)
        } else {
            None
        }
    }

    /// Nothing uploaded yet.
    pub fn new() -> (r: Uploader)
        ensures
            r.cache@ == Map::<i64, String>::empty(),
            r.touched@ == Seq::<i64>::empty(),
    {
        Uploader { cache: HashMap::new(), touched: Vec::new() }
    }

    /// The id of a blob that is on the target. A blob without one is to be
    /// uploaded, and its id handed to [`Uploader::uploaded`].
    pub fn upload_with(&mut self, local_id: i64) -> (r: Option<String>)
        ensures
            text::opt_text(r) == old(self).known(local_id),
            final(self).cache@ == old(self).cache@,
            final(self).touched@ == old(self).touched@.push(local_id),
    {
        self.touched.push(local_id);
        match self.cache.get(&local_id) {
            Some(id) => Some(id.clone()),
            None => None,
        }
    }

    /// Takes note of the id of an uploaded blob.
    pub fn uploaded(&mut self, local_id: i64, id: String)
        ensures
            final(self).cache@ == old(self).cache@.insert(local_id, id),
            final(self).touched@ == old(self).touched@,
    {
        self.cache.insert(local_id, id);
    }

    /// Forgets the id of a blob, so that it is uploaded again.
    pub fn invalidate(&mut self, local_id: i64)
        ensures
            final(self).cache@ == old(self).cache@.remove(local_id),
            final(self).touched@ == old(self).touched@,
    {
        self.cache.remove(&local_id);
        assert(self.cache@ =~= old(self).cache@.remove(local_id));
    }

    /// See [`Uploader::known`].
    pub fn cached(&self, local_id: i64) -> (r: Option<String>)
        ensures
            text::opt_text(r) == self.known(local_id),
    {
        match self.cache.get(&local_id) {
            Some(id) => Some(id.clone()),
            None => None,
        }
    }

    /// Hands out which blobs were asked for since the last time.
    pub fn take_touched(&mut self) -> (r: Vec<i64>)
        ensures
            r@ == old(self).touched@,
            final(self).touched@ == Seq::<i64>::empty(),
            final(self).cache@ == old(self).cache@,
    {
        let mut out: Vec<i64> = Vec::new();
        std::mem::swap(&mut out, &mut self.touched);
        out
    }
}

/// The error for a blob that the archive does not hold.
pub fn missing_blob(local_id: i64) -> (r: JmapError)
    ensures
        r@ == JmapErrorView::Malformed("blob local id "@ + text::integer_text(local_id as int) + " missing"@),
{
    JmapError::Malformed(text::joined3("blob local id ", text::integer(local_id).as_str(), " missing"))
}

/// The id that a run which changes nothing gives a blob.
pub fn dry_run_blob(local_id: i64) -> (r: String)
    ensures
        r@ == "dryrun-blob-"@ + text::integer_text(local_id as int),
{
    text::joined("dryrun-blob-", text::integer(local_id).as_str())
}

/// The id that the only blob of an object has on the target.
pub open spec fn sole_known(u: Uploader, touched: Seq<i64>) -> Option<Seq<char>> {
    match sole(touched) {
        Some(b) => u.known(b),
        None => None,
    }
}

/// Prepares another attempt for an object whose blobs the target misses: they
/// are forgotten, so that they are uploaded again. Hands out the id that the
/// only blob had.
pub fn before_retry(u: &mut Uploader, touched: &Vec<i64>) -> (first: Option<String>)
    ensures
        text::opt_text(first) == sole_known(*old(u), touched@),
        final(u).touched@ == Seq::<i64>::empty(),
        forall|b: i64| #![trigger final(u).known(b)]
            final(u).known(b) == if touched@.contains(b) {
                None
            } else {
                old(u).known(b)
            },
{
    let first = match sole_blob(touched.as_slice()) {
        Some(b) => u.cached(b),
        None => None,
    };
    let ghost start = *u;
    let mut i: usize = 0;
    while i < touched.len()
        invariant
            i <= touched.len(),
            u.touched@ == start.touched@,
            forall|b: i64| #![trigger u.cache@.dom().contains(b)]
                (u.cache@.dom().contains(b) <==> start.cache@.dom().contains(b) && !touched@.take(
                    i as int,
                ).contains(b)) && (u.cache@.dom().contains(b) ==> u.cache@[b] == start.cache@[b]),
        decreases touched.len() - i,
    {
        let ghost before = *u;
        u.invalidate(touched[i]);
        proof {
            let a = touched@.take(i as int);
            let c = touched@.take(i + 1);
            assert(c =~= a.push(touched@[i as int]));
            assert forall|b: i64| #![trigger u.cache@.dom().contains(b)] c.contains(b) <==> (a.contains(b) || b
                == touched@[i as int]) by {
                if a.contains(b) {
                    let j = choose|j: int| 0 <= j < a.len() && a[j] == b;
                    assert(c[j] == b);
                }
                if b == touched@[i as int] {
                    assert(c[i as int] == b);
                }
                if c.contains(b) {
                    let j = choose|j: int| 0 <= j < c.len() && c[j] == b;
                    if j < i {
                        assert(a[j] == b);
                    }
                }
            }
            assert forall|b: i64| #![trigger u.cache@.dom().contains(b)] (u.cache@.dom().contains(b)
                <==> start.cache@.dom().contains(b) && !c.contains(b)) && (u.cache@.dom().contains(b)
                ==> u.cache@[b] == start.cache@[b]) by {
                assert(before.cache@.dom().contains(b) <==> start.cache@.dom().contains(b) && !a.contains(b));
            }
        }
        i += 1;
    }
    assert(touched@.take(touched@.len() as int) =~= touched@);
    let _ = u.take_touched();
    first
}

/// The two ids of the only blob of an object, once it is uploaded again.
pub fn after_retry(u: &mut Uploader, touched: &Vec<i64>, first: Option<String>) -> (r: Option<BlobRetry>)
    ensures
        final(u).touched@ == Seq::<i64>::empty(),
        final(u).cache@ == old(u).cache@,
        match r {
            Some(b) => text::opt_text(first) == Some(b.first@) && sole_known(*old(u), touched@) == Some(
                b.second@,
            ),
            None => first is None || sole_known(*old(u), touched@) is None,
        },
{
    let _ = u.take_touched();
    let second = match sole_blob(touched.as_slice()) {
        Some(b) => u.cached(b),
        None => None,
    };
    match (first, second) {
        (Some(first), Some(second)) => Some(BlobRetry { first, second }),
        _ => None,
    }
}

/// What bytes are uploaded as that are part of an object.
pub const BLOB_TYPE: &'static str = "application/octet-stream";

/// What came of a step in sending an object: in creating or updating it.
pub enum SendEvent {
    /// The target answered the first attempt.
    Answered(SetOutcome),
    /// The object was built again; `first` is the id that its only blob had.
    Rebuilt { first: Option<String>, wire: Result<Json, String> },
    /// The target answered the second attempt.
    AnsweredAgain { retry: Option<BlobRetry>, reply: Result<SetOutcome, String> },
}

/// What comes next in sending an object.
pub enum SendStep {
    /// Build the object again: its blobs are uploaded anew.
    Rebuild { first: Option<String> },
    /// Send the rebuilt object, once.
    Send { objects: Vec<(String, Json)>, retry: Option<BlobRetry> },
    /// The answer that counts.
    Done { outcome: SetOutcome, retry: Option<BlobRetry> },
    /// The second attempt could not be made.
    Failed(String),
}

/// The uploads once the blobs of an object are forgotten.
pub open spec fn forgotten(before: Uploader, touched: Seq<i64>, after: Uploader) -> bool {
    &&& after.touched@ == Seq::<i64>::empty()
    &&& forall|b: i64| #![trigger after.known(b)]
        after.known(b) == if touched.contains(b) {
            None
        } else {
            before.known(b)
        }
}

/// What is known of the two uploads of the only blob of an object.
pub open spec fn retried(
    first: Option<Seq<char>>,
    second: Option<Seq<char>>,
    retry: Option<BlobRetry>,
) -> bool {
    match retry {
        Some(b) => first == Some(b.first@) && second == Some(b.second@),
        None => first is None || second is None,
    }
}

/// Whether a step is the one that follows while an object is sent; `missed` says
/// of an answer whether the target misses a blob of the object. Where it does,
/// its blobs are uploaded again, it is built anew and sent once more; whatever
/// the target then answers counts.
pub open spec fn send_follows(
    key: Seq<char>,
    missed: spec_fn(SetOutcome) -> bool,
    touched: Seq<i64>,
    before: Uploader,
    event: SendEvent,
    after: Uploader,
    step: SendStep,
) -> bool {
    match event {
        SendEvent::Answered(o) => if missed(o) {
            &&& step matches SendStep::Rebuild { first }
            &&& text::opt_text(first) == sole_known(before, touched)
            &&& forgotten(before, touched, after)
        } else {
            &&& step == SendStep::Done { outcome: o, retry: None }
            &&& after == before
        },
        SendEvent::Rebuilt { first, wire: Ok(wire) } => {
            &&& step matches SendStep::Send { objects, retry }
            &&& entries(objects@) == seq![(key, wire@)]
            &&& retried(text::opt_text(first), sole_known(before, touched), retry)
            &&& after.touched@ == Seq::<i64>::empty()
            &&& after.cache@ == before.cache@
        },
        SendEvent::Rebuilt { first, wire: Err(e) } => {
            &&& step == SendStep::Failed(e)
            &&& after == before
        },
        SendEvent::AnsweredAgain { retry, reply: Ok(o) } => {
            &&& step == SendStep::Done { outcome: o, retry }
            &&& after == before
        },
        SendEvent::AnsweredAgain { retry, reply: Err(e) } => {
            &&& step == SendStep::Failed(e)
            &&& after == before
        },
    }
}

/// Whether the target misses a blob of an object that was to be created.
pub open spec fn create_missed(cid: Seq<char>) -> spec_fn(SetOutcome) -> bool {
    |o: SetOutcome| misses_blob(entries(o.not_created@), cid)
}

/// Whether the target misses a blob of an object that was to be updated.
pub open spec fn update_missed(tid: Seq<char>) -> spec_fn(SetOutcome) -> bool {
    |o: SetOutcome| misses_blob(entries(o.not_updated@), tid)
}

fn first_answer(u: &mut Uploader, touched: &Vec<i64>, outcome: SetOutcome, missed: bool) -> (r: SendStep)
    ensures
        missed ==> (r matches SendStep::Rebuild { first } && text::opt_text(first) == sole_known(
            *old(u),
            touched@,
        )) && forgotten(*old(u), touched@, *final(u)),
        !missed ==> r == (SendStep::Done { outcome, retry: None }) && *final(u) == *old(u),
{
    if missed {
        SendStep::Rebuild { first: before_retry(u, touched) }
    } else {
        SendStep::Done { outcome, retry: None }
    }
}

fn later_answer(key: &str, u: &mut Uploader, touched: &Vec<i64>, event: SendEvent) -> (r: SendStep)
    requires
        !(event is Answered),
    ensures
        forall|missed: spec_fn(SetOutcome) -> bool| #[trigger]
            send_follows(key@, missed, touched@, *old(u), event, *final(u), r),
{
    match event {
        SendEvent::Rebuilt { first, wire: Ok(wire) } => {
            let retry = after_retry(u, touched, first);
            let ghost shown = wire@;
            let mut objects: Vec<(String, Json)> = Vec::new();
            objects.push((key.to_owned(), wire));
            assert(entries(objects@) =~= seq![(key@, shown)]);
            SendStep::Send { objects, retry }
        },
        SendEvent::Rebuilt { first: _, wire: Err(e) } => SendStep::Failed(e),
        SendEvent::AnsweredAgain { retry, reply: Ok(outcome) } => SendStep::Done { outcome, retry },
        SendEvent::AnsweredAgain { retry: _, reply: Err(e) } => SendStep::Failed(e),
        SendEvent::Answered(outcome) => SendStep::Done { outcome, retry: None },
    }
}

/// Decides what follows while an object is created; see [`send_follows`].
pub fn retry_if_blob_missing(
    cid: &str,
    u: &mut Uploader,
    touched: &Vec<i64>,
    event: SendEvent,
) -> (r: SendStep)
    ensures
        send_follows(cid@, create_missed(cid@), touched@, *old(u), event, *final(u), r),
{
    match event {
        SendEvent::Answered(outcome) => {
            let missed = blob_not_found(&outcome.not_created, cid);
            first_answer(u, touched, outcome, missed)
        },
        later => later_answer(cid, u, touched, later),
    }
}

/// Decides what follows while an object is updated; see [`send_follows`].
pub fn retry_update_if_blob_missing(
    tid: &str,
    u: &mut Uploader,
    touched: &Vec<i64>,
    event: SendEvent,
) -> (r: SendStep)
    ensures
        send_follows(tid@, update_missed(tid@), touched@, *old(u), event, *final(u), r),
{
    match event {
        SendEvent::Answered(outcome) => {
            let missed = blob_not_found(&outcome.not_updated, tid);
            first_answer(u, touched, outcome, missed)
        },
        later => later_answer(tid, u, touched, later),
    }
}

/// An object is sent twice at most, and a second time only where the target
/// missed a blob of it: a first answer that misses none ends it, one that misses
/// a blob leads to a new build, a new build to the second attempt, and the answer
/// to that ends it.
pub proof fn objects_are_sent_twice_at_most(
    key: Seq<char>,
    missed: spec_fn(SetOutcome) -> bool,
    touched: Seq<i64>,
    before: Uploader,
    event: SendEvent,
    after: Uploader,
    step: SendStep,
)
    requires
        send_follows(key, missed, touched, before, event, after, step),
    ensures
        step is Send <==> (event matches SendEvent::Rebuilt { first, wire } && wire is Ok),
        step is Rebuild <==> (event matches SendEvent::Answered(o) && missed(o)),
        event is AnsweredAgain ==> step is Done || step is Failed,
{
}

/// The arguments of a call that creates objects.
pub open spec fn create_args(creates: Seq<(Seq<char>, JsonView)>, n: nat) -> Map<Seq<char>, JsonView>
    decreases n,
{
    if n == 0 || n > creates.len() {
        Map::empty()
    } else {
        create_args(creates, (n - 1) as nat).insert(creates[n - 1].0, creates[n - 1].1)
    }
}

/// The objects to create, by creation id; see [`create_args`].
pub fn create_batch(creates: &Vec<(String, Json)>) -> (r: JsonObject)
    ensures
        r@ == create_args(entries(creates@), creates@.len()),
{
    let ghost all = entries(creates@);
    let mut map = JsonObject::new();
    let mut i: usize = 0;
    while i < creates.len()
        invariant
            i <= creates.len(),
            all == entries(creates@),
            map@ == create_args(all, i as nat),
        decreases creates.len() - i,
    {
        assert(all[i as int] == (creates@[i as int].0@, creates@[i as int].1@));
        map.insert(creates[i].0.clone(), creates[i].1.copy());
        i += 1;
    }
    map
}

/// Which object of the target stands for an object of the archive.
pub struct Maps {
    pub m: HashMap<i128, String>,
}

/// A number for a kind.
pub open spec fn ordinal(ty: ObjectType) -> int {
    match ty {
        ObjectType::Mailbox => 0,
        ObjectType::AddressBook => 1,
        ObjectType::Calendar => 2,
        ObjectType::FileNode => 3,
        ObjectType::Identity => 4,
        ObjectType::SieveScript => 5,
        ObjectType::ParticipantIdentity => 6,
        ObjectType::Email => 7,
        ObjectType::ContactCard => 8,
        ObjectType::CalendarEvent => 9,
    }
}

/// The key of an object: no two objects share one.
pub open spec fn map_key(ty: ObjectType, local: i64) -> int {
    ordinal(ty) * 0x1_0000_0000_0000_0000 + local
}

fn make_key(ty: ObjectType, local: i64) -> (r: i128)
    ensures
        r == map_key(ty, local),
{
    let n: i128 = match ty {
        ObjectType::Mailbox => 0,
        ObjectType::AddressBook => 1,
        ObjectType::Calendar => 2,
        ObjectType::FileNode => 3,
        ObjectType::Identity => 4,
        ObjectType::SieveScript => 5,
        ObjectType::ParticipantIdentity => 6,
        ObjectType::Email => 7,
        ObjectType::ContactCard => 8,
        ObjectType::CalendarEvent => 9,
    };
    n * 0x1_0000_0000_0000_0000 + local as i128
}

impl Maps {
    /// The object of the target that stands for an object of the archive.
    pub open spec fn stands_for(&self, ty: ObjectType, local: i64) -> Option<Seq<char>> {
        let k = map_key(ty, local) as i128;
        if self.m@.dom().contains(k) {
            Some(self.m@[k]@)
        } else {
            None
        }
    }

    /// No object has a counterpart yet.
    pub fn new() -> (r: Maps)
        ensures
            forall|ty: ObjectType, local: i64| #[trigger] r.stands_for(ty, local) is None,
    {
        Maps { m: HashMap::new() }
    }

    /// Notes the counterpart of an object.
    pub fn insert(&mut self, ty: ObjectType, local: i64, target: String)
        ensures
            forall|t: ObjectType, n: i64| #![trigger final(self).stands_for(t, n)]
                final(self).stands_for(t, n) == if t == ty && n == local {
                    Some(target@)
                } else {
                    old(self).stands_for(t, n)
                },
    {
        let k: i128 = make_key(ty, local);
        self.m.insert(k, target);
        assert forall|t: ObjectType, n: i64| #![trigger self.stands_for(t, n)] map_key(t, n) == map_key(ty, local)
            implies t == ty && n == local by {}
    }

    /// See [`Maps::stands_for`].
    pub fn target(&self, ty: ObjectType, local_id: i64) -> (r: Option<String>)
        ensures
            text::opt_text(r) == self.stands_for(ty, local_id),
    {
        let k: i128 = make_key(ty, local_id);
        match self.m.get(&k) {
            Some(id) => Some(id.clone()),
            None => None,
        }
    }
}

/// The outcome of an object, for the counters.
#[derive(Debug, Clone, Copy, PartialEq, Eq, Structural)]
pub enum Tally {
    Created,
    Updated,
    Skipped,
    Failed,
}

/// Counters with one more outcome.
pub open spec fn counted(c: TypeCounts, t: Tally) -> TypeCounts {
    match t {
        Tally::Created => TypeCounts { created: (c.created + 1) as u64, ..c },
        Tally::Updated => TypeCounts { updated: (c.updated + 1) as u64, ..c },
        Tally::Skipped => TypeCounts { skipped: (c.skipped + 1) as u64, ..c },
        Tally::Failed => TypeCounts { failed: (c.failed + 1) as u64, ..c },
    }
}

/// See [`counted`].
pub fn count_outcome(c: &mut TypeCounts, t: Tally)
    requires
        old(c).room(1),
    ensures
        *final(c) == counted(*old(c), t),
{
    match t {
        Tally::Created => {
            c.created = c.created + 1;
        },
        Tally::Updated => {
            c.updated = c.updated + 1;
        },
        Tally::Skipped => {
            c.skipped = c.skipped + 1;
        },
        Tally::Failed => {
            c.failed = c.failed + 1;
        },
    }
}

/// What becomes of the row of an object.
pub enum Entry {
    Keep,
    Resolve,
    Record(FailedItem),
}

/// The view of an [`Entry`].
pub enum EntryView {
    Keep,
    Resolve,
    Record(FailedView),
}

/// What is settled about an object: how it is counted, what becomes of its row,
/// and which object of the target stands for it.
pub struct Verdict {
    pub local: i64,
    pub tally: Tally,
    pub entry: Entry,
    pub target: Option<String>,
}

/// The view of a [`Verdict`].
pub struct VerdictView {
    pub local: i64,
    pub tally: Tally,
    pub entry: EntryView,
    pub target: Option<Seq<char>>,
}

impl View for Verdict {
    type V = VerdictView;

    open spec fn view(&self) -> VerdictView {
        VerdictView {
            local: self.local,
            tally: self.tally,
            entry: match self.entry {
                Entry::Keep => EntryView::Keep,
                Entry::Resolve => EntryView::Resolve,
                Entry::Record(i) => EntryView::Record(i@),
            },
            target: text::opt_text(self.target),
        }
    }
}

impl VerdictView {
    /// An object counts as failed exactly where its row is recorded, and the row
    /// is that object's.
    pub open spec fn accounted(self) -> bool {
        &&& self.tally == Tally::Failed <==> self.entry is Record
        &&& self.entry matches EntryView::Record(i) ==> i.local_id == self.local
    }
}

/// An object that is on the target.
pub open spec fn on_target(local: i64, tally: Tally, target: Option<Seq<char>>) -> VerdictView {
    VerdictView { local, tally, entry: EntryView::Resolve, target }
}

/// An object that failed.
pub open spec fn failed(local: i64, item: FailedView, target: Option<Seq<char>>) -> VerdictView {
    VerdictView { local, tally: Tally::Failed, entry: EntryView::Record(item), target }
}

/// See [`on_target`].
pub fn arrived(local: i64, tally: Tally, target: Option<String>) -> (r: Verdict)
    ensures
        r@ == on_target(local, tally, text::opt_text(target)),
{
    Verdict { local, tally, entry: Entry::Resolve, target }
}

/// See [`failed`].
pub fn failure(local: i64, item: FailedItem, target: Option<String>) -> (r: Verdict)
    ensures
        r@ == failed(local, item@, text::opt_text(target)),
{
    Verdict { local, tally: Tally::Failed, entry: Entry::Record(item), target }
}

/// The views of a sequence of verdicts.
pub open spec fn verdicts(v: Seq<Verdict>) -> Seq<VerdictView> {
    Seq::new(v.len(), |i: int| v[i]@)
}

/// An object that was given up before the target saw it.
pub open spec fn lost(
    ty: ObjectType,
    local: i64,
    cid: Seq<char>,
    reads: Option<BlobReads>,
    kind: Seq<char>,
    detail: Seq<char>,
    stamp: Seq<char>,
    target: Option<Seq<char>>,
) -> VerdictView {
    failed(local, local_failure_view(ty, local, cid, reads, kind, detail, stamp), target)
}

/// See [`lost`].
pub fn lose(
    ty: ObjectType,
    local: i64,
    cid: &str,
    reads: Option<BlobReads>,
    kind: &str,
    detail: String,
    stamp: &str,
    target: Option<String>,
) -> (r: Verdict)
    requires
        reads_ok(reads),
    ensures
        r@ == lost(ty, local, cid@, reads, kind@, detail@, stamp@, text::opt_text(target)),
{
    failure(local, record_local_failure(ty, local, cid, reads, kind, detail, stamp), target)
}

} // verus!
