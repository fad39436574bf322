//! Sieve scripts: matched by name, at most one of them active.

use vstd::prelude::*;
use vstd::string::*;

use crate::json::{insert_sorted, sorted, views, Json, JsonObject, JsonView};
use crate::sync::export::common::{
    arrived, creation_id, entries, find_entry, jid, lookup, lose, lost, make_creation_id, on_target,
    SetOutcome, Tally, Verdict, VerdictView,
};
use crate::sync::export::quarantine::{
    reads_ok, record_refusal, refusal_error, refusal_view, second_of, BlobReads, BlobRetry, Refusal,
};
use crate::text;
use crate::types::ObjectType;

verus! {

/// A script of the archive.
pub struct SieveRow {
    pub local: i64,
    pub name: Option<String>,
    pub is_active: bool,
    pub blob_local: i64,
}

/// The scripts of a target by name, and the one that is to be active.
pub struct SievePass {
    by_name: JsonObject,
    active: Option<String>,
}

/// The view of a [`SievePass`].
pub struct PassView {
    /// The ids of the target's scripts, as texts, by name.
    pub by_name: Map<Seq<char>, JsonView>,
    pub active: Option<Seq<char>>,
}

impl View for SievePass {
    type V = PassView;

    closed spec fn view(&self) -> PassView {
        PassView { by_name: self.by_name@, active: text::opt_text(self.active) }
    }
}

/// The scripts of the target by name, among the first `n`. Where a name occurs
/// more than once, the last counts.
pub open spec fn names_of(targets: Seq<JsonView>, n: nat) -> Map<Seq<char>, JsonView>
    decreases n,
{
    if n == 0 || n > targets.len() {
        Map::empty()
    } else {
        let rest = names_of(targets, (n - 1) as nat);
        match (targets[n - 1].text_at("id"@), targets[n - 1].text_at("name"@)) {
            (Some(id), Some(name)) => rest.insert(name, JsonView::Str(id)),
            _ => rest,
        }
    }
}

impl PassView {
    /// The id of the script with a name.
    pub open spec fn id_of(self, name: Option<Seq<char>>) -> Option<Seq<char>> {
        match name {
            Some(n) => if self.by_name.dom().contains(n) {
                self.by_name[n].as_text()
            } else {
                None
            },
            None => None,
        }
    }

    /// With a script that stands for one of the archive: it is the active one
    /// where that is.
    pub open spec fn with_active(self, row: SieveRow, id: Seq<char>) -> PassView {
        if row.is_active {
            PassView { active: Some(id), ..self }
        } else {
            self
        }
    }

    /// With a script that was created.
    pub open spec fn with_created(self, row: SieveRow, id: Seq<char>) -> PassView {
        let p = match row.name {
            Some(n) => PassView { by_name: self.by_name.insert(n@, JsonView::Str(id)), ..self },
            None => self,
        };
        p.with_active(row, id)
    }
}

/// How a script that was sent ended.
pub enum SieveEnd {
    Settled(Verdict),
    /// Refused: the blob that the refusal names is asked for before the row is
    /// written.
    Refused(Refusal),
}

/// The view of a [`SieveEnd`].
pub enum SieveEndView {
    Settled(VerdictView),
    Refused(crate::db::export_failures::FailedView, Option<Seq<char>>),
}

impl View for SieveEnd {
    type V = SieveEndView;

    open spec fn view(&self) -> SieveEndView {
        match self {
            SieveEnd::Settled(v) => SieveEndView::Settled(v@),
            SieveEnd::Refused(r) => SieveEndView::Refused(r.item@, text::opt_text(r.probe)),
        }
    }
}

/// The id of the script that the target says it created: the first it lists.
pub open spec fn first_created(o: SetOutcome) -> Option<Seq<char>> {
    if o.created@.len() > 0 {
        o.created@[0].1@.text_at("id"@)
    } else {
        None
    }
}

/// What the answer for a script comes to, and what is known afterwards.
pub open spec fn sent_view(
    p: PassView,
    row: SieveRow,
    o: SetOutcome,
    reads: Option<BlobReads>,
    retry: Option<Seq<char>>,
    stamp: Seq<char>,
) -> (PassView, SieveEndView) {
    let ty = ObjectType::SieveScript;
    match first_created(o) {
        Some(id) => (
            p.with_created(row, id),
            SieveEndView::Settled(on_target(row.local, Tally::Created, Some(id))),
        ),
        None => {
            let cid = creation_id(row.local);
            let (item, probe) = refusal_view(
                ty,
                row.local,
                cid,
                reads,
                refusal_error(
                    ty,
                    ("created"@, "notCreated"@),
                    cid,
                    lookup(entries(o.not_created@), cid, 0),
                ),
                retry,
                stamp,
            );
            (p, SieveEndView::Refused(item, probe))
        },
    }
}

impl SievePass {
    /// Starts with the scripts of the target.
    pub fn open(targets: &Vec<Json>) -> (r: SievePass)
        ensures
            r@ == (PassView { by_name: names_of(views(targets@), targets@.len()), active: None }),
    {
        let ghost all = views(targets@);
        let mut by_name = JsonObject::new();
        let mut i: usize = 0;
        while i < targets.len()
            invariant
                i <= targets.len(),
                all == views(targets@),
                by_name@ == names_of(all, i as nat),
            decreases targets.len() - i,
        {
            assert(all[i as int] == targets@[i as int]@);
            match (targets[i].str_at("id"), targets[i].str_at("name")) {
                (Some(id), Some(name)) => {
                    by_name.insert(name.to_owned(), Json::text(id));
                },
                _ => {},
            }
            i += 1;
        }
        SievePass { by_name, active: None }
    }

    /// Settles a script that the target has under the same name. Any other is to
    /// be sent.
    pub fn settle_matched(&mut self, row: &SieveRow) -> (r: Option<Verdict>)
        ensures
            match old(self)@.id_of(text::opt_text(row.name)) {
                Some(id) => r matches Some(v) && v@ == on_target(row.local, Tally::Skipped, Some(id))
                    && final(self)@ == old(self)@.with_active(*row, id),
                None => r is None && final(self)@ == old(self)@,
            },
    {
        let found: Option<String> = match &row.name {
            Some(n) => match self.by_name.get(n.as_str()) {
                Some(v) => text::owned(v.as_str()),
                None => None,
            },
            None => None,
        };
        match found {
            Some(id) => {
                if row.is_active {
                    self.active = Some(id.clone());
                }
                Some(arrived(row.local, Tally::Skipped, Some(id)))
            },
            None => None,
        }
    }

    /// Settles a script that was sent. `reads` is of the script's text.
    pub fn settle_sent(
        &mut self,
        row: &SieveRow,
        outcome: &SetOutcome,
        reads: Option<BlobReads>,
        retry: Option<&BlobRetry>,
        stamp: &str,
    ) -> (r: SieveEnd)
        requires
            reads_ok(reads),
        ensures
            (final(self)@, r@) == sent_view(old(self)@, *row, *outcome, reads, second_of(retry), stamp@),
    {
        let made: Option<String> = if outcome.created.len() > 0 {
            jid(&outcome.created[0].1)
        } else {
            None
        };
        match made {
            Some(id) => {
                match &row.name {
                    Some(n) => {
                        self.by_name.insert(n.clone(), Json::text(id.as_str()));
                    },
                    None => {},
                }
                if row.is_active {
                    self.active = Some(id.clone());
                }
                SieveEnd::Settled(arrived(row.local, Tally::Created, Some(id)))
            },
            None => {
                let cid = make_creation_id(row.local);
                SieveEnd::Refused(
                    record_refusal(
                        ObjectType::SieveScript,
                        row.local,
                        cid.as_str(),
                        reads,
                        find_entry(&outcome.not_created, cid.as_str()),
                        retry,
                        stamp,
                    ),
                )
            },
        }
    }

    /// What is set active on the target once all scripts are settled.
    pub fn activation(&self, rows: &Vec<SieveRow>) -> (r: Activation)
        ensures
            r@ == activation_view(self@.active, rows@),
    {
        match &self.active {
            Some(id) => Activation::Activate(id.clone()),
            None => {
                let mut i: usize = 0;
                while i < rows.len()
                    invariant
                        i <= rows.len(),
                        self@.active is None,
                        forall|j: int| 0 <= j < i ==> !(#[trigger] rows@[j]).is_active,
                    decreases rows.len() - i,
                {
                    if rows[i].is_active {
                        assert(rows@[i as int].is_active);
                        return Activation::Leave;
                    }
                    i += 1;
                }
                Activation::Deactivate
            },
        }
    }

    /// The scripts of the target whose names the archive does not have, in
    /// ascending order of their ids.
    pub fn prune_candidates(&self, rows: &Vec<SieveRow>) -> (r: Vec<String>)
        ensures
            sorted(text::texts(r@)),
            exists|keys: Seq<Seq<char>>|
                crate::json::ascending(keys) && (forall|k: Seq<char>|
                    #![trigger self@.by_name.dom().contains(k)]
                    self@.by_name.dom().contains(k) <==> keys.contains(k)) && text::texts(r@).to_multiset()
                    == #[trigger] leftovers(keys, self@.by_name, rows@, keys.len()).to_multiset(),
    {
        let ghost keys = self.by_name.keys();
        let mut out: Vec<String> = Vec::new();
        let n: usize = self.by_name.len();
        let mut i: usize = 0;
        assert(text::texts(out@) =~= Seq::<Seq<char>>::empty());
        while i < n
            invariant
                n == keys.len(),
                keys == self.by_name.keys(),
                i <= n,
                sorted(text::texts(out@)),
                text::texts(out@).to_multiset() == leftovers(
                    keys,
                    self@.by_name,
                    rows@,
                    i as nat,
                ).to_multiset(),
            decreases n - i,
        {
            let name = self.by_name.key_at(i);
            let value = self.by_name.value_at(i);
            let ghost before = leftovers(keys, self@.by_name, rows@, i as nat);
            if !has_name(rows, name) {
                match value.as_str() {
                    Some(id) => {
                        insert_sorted(&mut out, id.to_owned());
                        proof {
                            vstd::seq_lib::to_multiset_build(before, id@);
                        }
                    },
                    None => {},
                }
            }
            i += 1;
        }
        assert(leftovers(keys, self@.by_name, rows@, keys.len()).to_multiset() == text::texts(out@).to_multiset());
        out
    }
}

/// What is set active on the target.
pub enum Activation {
    Activate(String),
    Deactivate,
    Leave,
}

/// The view of an [`Activation`].
pub enum ActivationView {
    Activate(Seq<char>),
    Deactivate,
    Leave,
}

impl View for Activation {
    type V = ActivationView;

    open spec fn view(&self) -> ActivationView {
        match self {
            Activation::Activate(id) => ActivationView::Activate(id@),
            Activation::Deactivate => ActivationView::Deactivate,
            Activation::Leave => ActivationView::Leave,
        }
    }
}

/// The active script of the archive becomes that of the target. Where none of the
/// archive is active, none is on the target; where the active one failed, the
/// target is left as it is.
pub open spec fn activation_view(active: Option<Seq<char>>, rows: Seq<SieveRow>) -> ActivationView {
    match active {
        Some(id) => ActivationView::Activate(id),
        None => if forall|i: int| 0 <= i < rows.len() ==> !(#[trigger] rows[i]).is_active {
            ActivationView::Deactivate
        } else {
            ActivationView::Leave
        },
    }
}

/// The arguments of the call that sets the active script.
pub open spec fn activation_args(account: Seq<char>, a: ActivationView) -> Map<Seq<char>, JsonView> {
    let m = Map::<Seq<char>, JsonView>::empty().insert("accountId"@, JsonView::Str(account));
    match a {
        ActivationView::Activate(id) => m.insert("onSuccessActivateScript"@, JsonView::Str(id)),
        ActivationView::Deactivate => m.insert("onSuccessDeactivateScript"@, JsonView::Bool(true)),
        ActivationView::Leave => m,
    }
}

/// See [`activation_args`].
pub fn activation_call(account: &str, a: &Activation) -> (r: JsonObject)
    ensures
        r@ == activation_args(account@, a@),
{
    let mut o = JsonObject::new();
    o.insert("accountId".to_owned(), Json::text(account));
    match a {
        Activation::Activate(id) => {
            o.insert("onSuccessActivateScript".to_owned(), Json::text(id.as_str()));
        },
        Activation::Deactivate => {
            o.insert("onSuccessDeactivateScript".to_owned(), Json::Bool(true));
        },
        Activation::Leave => {},
    }
    o
}

/// Whether a script of the archive has a name.
pub open spec fn named_in(rows: Seq<SieveRow>, name: Seq<char>) -> bool {
    exists|i: int| 0 <= i < rows.len() && text::opt_text((#[trigger] rows[i]).name) == Some(name)
}

fn has_name(rows: &Vec<SieveRow>, name: &str) -> (r: bool)
    ensures
        r == named_in(rows@, name@),
{
    let mut i: usize = 0;
    while i < rows.len()
        invariant
            i <= rows.len(),
            forall|j: int| 0 <= j < i ==> text::opt_text((#[trigger] rows@[j]).name) != Some(name@),
        decreases rows.len() - i,
    {
        match &rows[i].name {
            Some(n) => if text::same(n.as_str(), name) {
                assert(text::opt_text(rows@[i as int].name) == Some(name@));
                return true;
            },
            None => {},
        }
        i += 1;
    }
    false
}

/// The ids of the scripts, among the first `n` names, that the archive does not
/// have.
pub open spec fn leftovers(
    keys: Seq<Seq<char>>,
    by_name: Map<Seq<char>, JsonView>,
    rows: Seq<SieveRow>,
    n: nat,
) -> Seq<Seq<char>>
    decreases n,
{
    if n == 0 || n > keys.len() {
        Seq::empty()
    } else {
        let rest = leftovers(keys, by_name, rows, (n - 1) as nat);
        let k = keys[n - 1];
        match by_name[k].as_text() {
            Some(id) => if named_in(rows, k) {
                rest
            } else {
                rest.push(id)
            },
            None => rest,
        }
    }
}

/// The object that is sent for a script.
pub open spec fn script_view(name: Option<Seq<char>>, blob: Seq<char>) -> Map<Seq<char>, JsonView> {
    let m = match name {
        Some(n) => Map::<Seq<char>, JsonView>::empty().insert("name"@, JsonView::Str(n)),
        None => Map::<Seq<char>, JsonView>::empty(),
    };
    m.insert("blobId"@, JsonView::Str(blob))
}

/// What the bytes of a script are uploaded as.
pub const BLOB_TYPE: &'static str = "application/sieve";

/// See [`script_view`].
pub fn build(row: &SieveRow, blob_id: &str) -> (r: JsonObject)
    ensures
        r@ == script_view(text::opt_text(row.name), blob_id@),
{
    let mut o = JsonObject::new();
    match &row.name {
        Some(n) => {
            o.insert("name".to_owned(), Json::text(n.as_str()));
        },
        None => {},
    }
    o.insert("blobId".to_owned(), Json::text(blob_id));
    o
}

/// Settles a script whose text could not be uploaded.
pub fn upload_failed(row: &SieveRow, reads: Option<BlobReads>, why: String, stamp: &str) -> (r: Verdict)
    requires
        reads_ok(reads),
    ensures
        r@ == lost(
            ObjectType::SieveScript,
            row.local,
            creation_id(row.local),
            reads,
            "blobUploadFailed"@,
            why@,
            stamp@,
            None,
        ),
{
    lose(
        ObjectType::SieveScript,
        row.local,
        make_creation_id(row.local).as_str(),
        reads,
        "blobUploadFailed",
        why,
        stamp,
        None,
    )
}

/// Settles an object that could not be sent a second time.
pub fn retry_failed(ty: ObjectType, local: i64, reads: Option<BlobReads>, why: &str, stamp: &str) -> (r: Verdict)
    requires
        reads_ok(reads),
    ensures
        r@ == lost(
            ty,
            local,
            creation_id(local),
            reads,
            "buildFailed"@,
            "rebuilding after blobNotFound: "@ + why@,
            stamp@,
            None,
        ),
{
    lose(
        ty,
        local,
        make_creation_id(local).as_str(),
        reads,
        "buildFailed",
        text::joined("rebuilding after blobNotFound: ", why),
        stamp,
        None,
    )
}

/// A script that the archive has by name is never removed from the target.
pub proof fn archived_scripts_stay(
    keys: Seq<Seq<char>>,
    by_name: Map<Seq<char>, JsonView>,
    rows: Seq<SieveRow>,
    n: nat,
    id: Seq<char>,
)
    requires
        n <= keys.len(),
        leftovers(keys, by_name, rows, n).contains(id),
    ensures
        exists|i: int|
            0 <= i < n && !named_in(rows, #[trigger] keys[i]) && by_name[keys[i]].as_text() == Some(id),
    decreases n,
{
    if n > 0 {
        let rest = leftovers(keys, by_name, rows, (n - 1) as nat);
        if rest.contains(id) {
            archived_scripts_stay(keys, by_name, rows, (n - 1) as nat, id);
        } else {
            let all = leftovers(keys, by_name, rows, n);
            let q = choose|q: int| 0 <= q < all.len() && all[q] == id;
            if q < rest.len() {
                assert(rest[q] == id);
            }
            assert(!named_in(rows, keys[n - 1]));
        }
    }
}

} // verus!
