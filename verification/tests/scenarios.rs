use std::collections::VecDeque;

use vandelay::db::blobs::{blob_hash_hex, blob_key};
use vandelay::db::export_failures::FailedItem;
use vandelay::error::Error;
use vandelay::jmap::blobxfer::{lookup_blob, lookup_call, upload_bytes, BlobLookup, URN_BLOB};
use vandelay::jmap::error::JmapError;
use vandelay::json::{Json, JsonObject};
use vandelay::sync::export::common::{
    count_outcome, create_batch, dry_run_blob, jid, lose, make_creation_id, retry_if_blob_missing,
    retry_update_if_blob_missing, sole_blob, synthesize_dry_run_outcome, Entry, Maps, SendEvent, SendStep, SetOutcome, Uploader, Verdict,
};
use vandelay::sync::export::email::{
    self, completed, export_one, fallback_ids, import_call, make_import_id, matched, retry_after_reupload,
    send_single_import, EmailEvent, EmailRow, EmailStep, RetryEvent, Trouble,
};
use vandelay::sync::export::flat::{self, FlatInput, UpdateReply};
use vandelay::sync::export::quarantine::{BlobReads, BlobRetry, Quarantine, Refusal};
use vandelay::sync::export::run::{removal_order, run, Plan, Run};
use vandelay::sync::export::sieve::{self, Activation, SieveEnd, SievePass, SieveRow};
use vandelay::sync::export::uidtype::{
    self, calendar_event_update_patch, desired_calendar_ids, finish_update, settle_matched, settle_refusal, EventStep,
    UidRow, UpdateStep,
};
use vandelay::sync::prune::candidates;
use vandelay::types::{ObjectType, TypeCounts};

const STAMP: &str = "2026-01-01T00:00:00Z";

fn json(text: &str) -> Json {
    Json::parse(text.as_bytes()).expect("a JSON text")
}

fn members(reply: &Json, key: &str) -> Vec<(String, Json)> {
    match reply.get(key) {
        Some(Json::Object(o)) => (0..o.len()).map(|i| (o.key_at(i).to_owned(), o.value_at(i).copy())).collect(),
        _ => Vec::new(),
    }
}

/// The outcome in the arguments of a response.
fn outcome(text: &str) -> SetOutcome {
    let reply = json(text);
    let destroyed = match reply.array_at("destroyed") {
        Some(ids) => ids.iter().filter_map(|i| i.as_str().map(str::to_owned)).collect(),
        None => Vec::new(),
    };
    SetOutcome {
        created: members(&reply, "created"),
        not_created: members(&reply, "notCreated"),
        updated: members(&reply, "updated").into_iter().map(|(id, _)| id).collect(),
        not_updated: members(&reply, "notUpdated"),
        destroyed,
        not_destroyed: members(&reply, "notDestroyed"),
    }
}

/// A target whose replies are known beforehand, and what comes of an export to it.
struct Target {
    ty: ObjectType,
    dry_run: bool,
    replies: VecDeque<Result<SetOutcome, String>>,
    uploads: VecDeque<&'static str>,
    /// The bytes of the blobs of the archive, in the order of their ids.
    blobs: Vec<Vec<u8>>,
    lookup: Result<BlobLookup, String>,
    sent: Vec<String>,
    maps: Maps,
    uploader: Uploader,
    quarantine: Quarantine,
    counts: TypeCounts,
    rows: Vec<FailedItem>,
    resolved: Vec<i64>,
}

impl Target {
    fn new(ty: ObjectType, replies: &[&str]) -> Target {
        Target {
            ty,
            dry_run: false,
            replies: replies.iter().map(|r| Ok(outcome(r))).collect(),
            uploads: VecDeque::new(),
            blobs: Vec::new(),
            lookup: Ok(BlobLookup::NotFound),
            sent: Vec::new(),
            maps: Maps::new(),
            uploader: Uploader::new(),
            quarantine: Quarantine::open(ty, false, &vec![1]),
            counts: TypeCounts::default(),
            rows: Vec::new(),
            resolved: Vec::new(),
        }
    }

    /// A target that a dry run looks at: it answers nothing and takes no upload.
    fn dry(ty: ObjectType) -> Target {
        let mut t = Target::new(ty, &[]);
        t.dry_run = true;
        t.quarantine = Quarantine::open(ty, true, &Vec::new());
        t
    }

    fn set(&mut self, key: &str, args: JsonObject) -> Result<SetOutcome, String> {
        self.sent.push(format!("{key} {}", Json::Object(args).compact()));
        self.replies.pop_front().expect("a reply")
    }

    fn settle(&mut self, v: Verdict) {
        count_outcome(&mut self.counts, v.tally);
        match v.entry {
            Entry::Keep => {}
            Entry::Resolve => {
                if self.quarantine.resolve(v.local) {
                    self.resolved.push(v.local);
                }
            }
            Entry::Record(item) => {
                if self.quarantine.record() {
                    self.quarantine.recorded(v.local, Ok(()));
                    self.rows.push(item);
                }
            }
        }
        if let Some(id) = v.target {
            self.maps.insert(self.ty, v.local, id);
        }
    }

    fn refused(&mut self, r: Refusal) {
        let lookup = r.probe.as_ref().map(|_| match &self.lookup {
            Ok(l) => Ok(*l),
            Err(e) => Err(e.clone()),
        });
        let v = settle_refusal(r, lookup, None);
        self.settle(v);
    }

    fn reads(&self, touched: &[i64]) -> Option<BlobReads> {
        sole_blob(touched).map(|b| {
            let bytes = &self.blobs[b as usize - 1];
            BlobReads {
                blob_local_id: b,
                len: Ok(Some(bytes.len() as u64)),
                hash: Ok(Some(blob_hash_hex(&blob_key(bytes)))),
            }
        })
    }

    fn blob(&mut self, local: i64) -> Result<String, String> {
        if let Some(id) = self.uploader.upload_with(local) {
            return Ok(id);
        }
        if self.dry_run {
            let id = dry_run_blob(local);
            self.uploader.uploaded(local, id.clone());
            return Ok(id);
        }
        let reply = self.uploads.pop_front().expect("an upload");
        let id = upload_bytes(&json(reply)).map_err(|e| format!("{e:?}"))?;
        self.uploader.uploaded(local, id.clone());
        Ok(id)
    }

    fn resend(
        &mut self,
        key: &str,
        update: bool,
        touched: &Vec<i64>,
        first: SetOutcome,
        build: &dyn Fn(&mut Target) -> Result<Json, String>,
    ) -> Result<(SetOutcome, Option<BlobRetry>), String> {
        let mut event = SendEvent::Answered(first);
        loop {
            let step = if update {
                retry_update_if_blob_missing(key, &mut self.uploader, touched, event)
            } else {
                retry_if_blob_missing(key, &mut self.uploader, touched, event)
            };
            event = match step {
                SendStep::Done { outcome, retry } => return Ok((outcome, retry)),
                SendStep::Failed(why) => return Err(why),
                SendStep::Rebuild { first } => SendEvent::Rebuilt { first, wire: build(self) },
                SendStep::Send { objects, retry } => {
                    let name = if update { "update" } else { "create" };
                    let reply = self.set(name, create_batch(&objects));
                    SendEvent::AnsweredAgain { retry, reply }
                }
            };
        }
    }
}

fn calendar(row: &str, default: bool) -> (bool, Json) {
    let mut o = match json(
        r#"{"sortOrder": 0, "isSubscribed": true, "isVisible": true, "includeInAvailability": "all"}"#,
    ) {
        Json::Object(o) => o,
        _ => panic!("an object"),
    };
    if let Json::Object(extra) = json(row) {
        for i in 0..extra.len() {
            o.insert(extra.key_at(i).to_owned(), extra.value_at(i).copy());
        }
    }
    o.insert("isDefault".to_owned(), Json::Bool(default));
    (default, Json::Object(o))
}

fn collections(ty: ObjectType, rows: Vec<(i64, Result<(bool, Json), (String, bool)>)>, targets: &str) -> FlatInput {
    let targets = match json(targets) {
        Json::Array(list) => list,
        _ => panic!("a list"),
    };
    let locals: Vec<(i64, String, bool)> = rows
        .iter()
        .map(|(id, r)| match r {
            Ok((default, j)) => (*id, j.str_at("name").unwrap_or("").to_owned(), *default),
            Err((name, default)) => (*id, name.clone(), *default),
        })
        .collect();
    FlatInput {
        ty,
        keys: locals.iter().map(|l| l.1.to_lowercase()).collect(),
        rows: rows
            .into_iter()
            .map(|(_, r)| match r {
                Ok((_, j)) => Ok(j),
                Err(_) => Err("row will not build".to_owned()),
            })
            .collect(),
        target_keys: targets.iter().map(|t| t.str_at("name").map(str::to_lowercase)).collect(),
        locals,
        targets,
        stamp: STAMP.to_owned(),
    }
}

fn export_collections(t: &mut Target, inp: &FlatInput, default: Result<(), String>) -> Result<Plan, Error> {
    let plan = flat::reconcile(inp)?;
    for (local, hit) in inp.locals.iter().zip(plan.hits.iter()) {
        if let Some(id) = hit.and_then(|j| jid(&inp.targets[j])) {
            t.maps.insert(inp.ty, local.0, id);
        }
    }
    let prune_candidates = candidates(&flat::prune_objects(&inp.targets, &plan.matched));
    for v in plan.verdicts {
        t.settle(v);
    }
    if !plan.updates.is_empty() {
        let reply = match t.set("update", flat::update_batch(&plan.updates)) {
            Ok(o) => UpdateReply::Answered(o),
            Err(e) => UpdateReply::Failed(e),
        };
        for v in flat::apply_calendar_updates(&plan.updates, &reply, STAMP) {
            t.settle(v);
        }
    }
    if let Some((local, id)) = &plan.make_default {
        t.sent.push(format!("default {id}"));
        if let Some(v) = flat::settle_default(&plan.updates, *local, id, default.clone(), STAMP) {
            t.settle(v);
        }
    }
    let (sent, lost) = flat::creation_batch(inp, &plan.creates);
    for v in lost {
        t.settle(v);
    }
    if !sent.is_empty() {
        let reply = t.set("create", create_batch(&sent)).map_err(Error::Partial)?;
        let end = flat::after_create(inp.ty, &inp.locals, &plan.creates, &reply, STAMP);
        assert_eq!(end.strays, 0);
        for v in end.verdicts {
            t.settle(v);
        }
        for (local, cid, id) in end.make_default {
            t.sent.push(format!("default {id}"));
            if let Err(why) = &default {
                let v = flat::default_not_set(inp.ty, local, &cid, &id, why, STAMP);
                t.settle(v);
            }
        }
    }
    Ok(Plan { prune_candidates, active_sieve_target: None })
}

const NATIVE: &str = r##"[{"id":"TD","name":"Calendar","description":null,"color":null,
    "sortOrder":0,"isSubscribed":true,"isVisible":true,"isDefault":true,
    "includeInAvailability":"all","defaultAlertsWithTime":{},"defaultAlertsWithoutTime":{},
    "timeZone":null,"myRights":{"mayDelete":false}}]"##;

#[test]
fn export_address_book_creates_only_missing() {
    let inp = collections(
        ObjectType::AddressBook,
        vec![
            (1, Ok((true, json(r#"{"name": "Personal", "isDefault": true}"#)))),
            (2, Ok((false, json(r#"{"name": "Work", "isDefault": false}"#)))),
        ],
        r#"[{"id":"P","name":"personal","isDefault":true,"myRights":{"mayDelete":false}}]"#,
    );
    let mut t = Target::new(ObjectType::AddressBook, &[r#"{"created":{"c2":{"id":"WID"}}}"#]);
    export_collections(&mut t, &inp, Ok(())).unwrap();
    assert_eq!(t.sent, vec![r#"create {"c2":{"name":"Work"}}"#.to_owned()]);
    assert_eq!(t.counts.skipped, 1, "Personal matches existing (case-fold)");
    assert_eq!(t.counts.created, 1, "Work is created");
    assert_eq!(t.counts.failed, 0);
}

#[test]
fn export_calendar_creates_only_missing() {
    let inp = collections(
        ObjectType::Calendar,
        vec![
            (1, Ok(calendar(r#"{"name": "Family"}"#, true))),
            (2, Ok(calendar(r#"{"name": "Team"}"#, false))),
        ],
        r#"[{"id":"F","name":"family","description":null,"color":null,
             "sortOrder":0,"isSubscribed":true,"isVisible":true,"isDefault":true,
             "includeInAvailability":"all","defaultAlertsWithTime":{},
             "defaultAlertsWithoutTime":{},"timeZone":null,"myRights":{"mayDelete":false}}]"#,
    );
    let mut t = Target::new(
        ObjectType::Calendar,
        &[r#"{"updated":{"F":null}}"#, r#"{"created":{"c2":{"id":"TID"}}}"#],
    );
    export_collections(&mut t, &inp, Ok(())).unwrap();
    assert_eq!(t.sent.len(), 2);
    assert!(t.sent[0].starts_with(r#"update {"F""#) && t.sent[0].contains(r#""name":"Family""#));
    assert!(t.sent[1].starts_with("create") && t.sent[1].contains("Team"));
    assert_eq!(t.counts.updated, 1, "Family metadata casing converges");
    assert_eq!(t.counts.skipped, 0);
    assert_eq!(t.counts.created, 1, "Team is created");
    assert_eq!(t.counts.failed, 0);
}

#[test]
fn export_matched_calendar_clears_nullable_metadata_and_alerts() {
    let inp = collections(
        ObjectType::Calendar,
        vec![(1, Ok(calendar(r#"{"name": "Personal"}"#, false)))],
        r##"[{"id":"P","name":"Personal","description":"stale","color":"#000000",
             "sortOrder":0,"isSubscribed":true,"isVisible":true,"isDefault":false,
             "includeInAvailability":"all","defaultAlertsWithTime":{"old":{}},
             "defaultAlertsWithoutTime":{"old":{}},"timeZone":"Europe/Berlin",
             "myRights":{"mayDelete":true}}]"##,
    );
    let mut t = Target::new(ObjectType::Calendar, &[r#"{"updated":{"P":null}}"#]);
    export_collections(&mut t, &inp, Ok(())).unwrap();
    assert_eq!(t.sent.len(), 1);
    for part in [
        r#""name":"Personal""#,
        r#""description":null"#,
        r#""color":null"#,
        r#""defaultAlertsWithTime":{}"#,
        r#""defaultAlertsWithoutTime":{}"#,
        r#""timeZone":null"#,
    ] {
        assert!(t.sent[0].contains(part), "{part} in {}", t.sent[0]);
    }
    assert_eq!(t.counts.updated, 1);
    assert_eq!(t.counts.created, 0);
    assert_eq!(t.counts.failed, 0);
}

#[test]
fn export_calendar_without_declared_source_default_reuses_native_default() {
    let row = r##"{"name":"Imported Calendar","description":"Source description","color":"#123456",
        "sortOrder":9,"isVisible":false,"includeInAvailability":"attending","timeZone":"Europe/Tallinn"}"##;
    let inp = collections(ObjectType::Calendar, vec![(7, Ok(calendar(row, false)))], NATIVE);
    let mut t = Target::new(ObjectType::Calendar, &[r#"{"updated":{"TD":null}}"#]);
    let plan = export_collections(&mut t, &inp, Ok(())).unwrap();
    assert_eq!(t.sent.len(), 1, "no create and no change of the default");
    let sent = json(t.sent[0].strip_prefix("update ").unwrap());
    assert!(sent.equals(&json(
        r##"{"TD":{"name":"Imported Calendar","description":"Source description","color":"#123456",
             "sortOrder":9,"isSubscribed":true,"isVisible":false,"includeInAvailability":"attending",
             "defaultAlertsWithTime":{},"defaultAlertsWithoutTime":{},"timeZone":"Europe/Tallinn"}}"##
    )));
    assert!(plan.prune_candidates.is_empty(), "nothing is removed");
    assert_eq!(t.counts.created, 0, "the native default must be reused");
    assert_eq!(t.counts.updated, 1);
    assert_eq!(t.counts.deleted, 0);
    assert_eq!(t.counts.failed, 0);
}

#[test]
fn export_calendar_with_multiple_source_defaults_fails_before_writing_target() {
    let inp = collections(
        ObjectType::Calendar,
        vec![
            (1, Ok(calendar(r#"{"name": "First"}"#, true))),
            (2, Ok(calendar(r#"{"name": "Second"}"#, true))),
        ],
        NATIVE,
    );
    let mut t = Target::new(ObjectType::Calendar, &[]);
    let result = export_collections(&mut t, &inp, Ok(()));
    assert!(t.sent.is_empty(), "nothing is written");
    let mut done = Run::begin(vec![ObjectType::Calendar]);
    done.finish_kind(result, t.counts, None, false);
    let summary = run(done, 0, 0, false);
    let counts = &summary.per_type[0].1;
    assert_eq!(counts.created, 0);
    assert_eq!(counts.updated, 0);
    assert_eq!(counts.deleted, 0);
    assert_eq!(counts.failed, 1, "ambiguous defaults must fail closed");
}

#[test]
fn export_calendar_metadata_not_updated_is_counted_and_quarantined() {
    let inp = collections(
        ObjectType::Calendar,
        vec![(1, Ok(calendar(r#"{"name": "Imported Primary"}"#, true)))],
        NATIVE,
    );
    let mut t = Target::new(
        ObjectType::Calendar,
        &[r#"{"notUpdated":{"TD":{"type":"forbidden","description":"calendar preferences are read-only"}}}"#],
    );
    export_collections(&mut t, &inp, Ok(())).unwrap();
    assert_eq!(t.counts.failed, 1);
    assert_eq!(t.counts.created, 0);
    assert_eq!(t.counts.updated, 0);
    assert_eq!(t.rows.len(), 1, "the failed update must be attributable");
    assert_eq!(t.rows[0].type_token, "calendar");
    assert_eq!(t.rows[0].local_id, 1);
    assert_eq!(t.rows[0].client_id, "u1");
    assert_eq!(t.rows[0].error_type, "forbidden");
    assert!(t.rows[0].error_detail.contains("read-only"));
}

#[test]
fn export_source_default_name_match_is_made_target_default() {
    let inp = collections(
        ObjectType::Calendar,
        vec![(1, Ok(calendar(r#"{"name": "Primary"}"#, true)))],
        r#"[{"id":"P","name":"Primary","description":null,"color":null,
             "sortOrder":0,"isSubscribed":true,"isVisible":true,"isDefault":false,
             "includeInAvailability":"all","defaultAlertsWithTime":{},
             "defaultAlertsWithoutTime":{},"timeZone":null,"myRights":{"mayDelete":true}}]"#,
    );
    let mut t = Target::new(ObjectType::Calendar, &[]);
    export_collections(&mut t, &inp, Ok(())).unwrap();
    assert_eq!(t.sent, vec!["default P".to_owned()]);
    assert_eq!(t.counts.updated, 1, "default identity changed");
    assert_eq!(t.counts.skipped, 0);
    assert_eq!(t.counts.failed, 0);
}

#[test]
fn export_created_default_set_failure_is_counted_and_quarantined() {
    let inp = collections(
        ObjectType::Calendar,
        vec![(1, Ok(calendar(r#"{"name": "Primary"}"#, true)))],
        "[]",
    );
    let mut t = Target::new(ObjectType::Calendar, &[r#"{"created":{"c1":{"id":"NEW"}}}"#]);
    export_collections(&mut t, &inp, Err("cannot select the default".to_owned())).unwrap();
    assert_eq!(t.sent[1], "default NEW");
    assert_eq!(t.counts.created, 1);
    assert_eq!(t.counts.failed, 1, "default-setting failure is not silent");
    assert_eq!(t.rows.len(), 1);
    assert_eq!(t.rows[0].local_id, 1);
    assert_eq!(t.rows[0].client_id, "c1");
    assert_eq!(t.rows[0].error_type, "defaultSetFailed");
    assert!(t.rows[0].error_detail.contains("cannot select the default"));
}

#[test]
fn export_calendar_that_will_not_build_is_quarantined_without_aborting_the_surface() {
    let inp = collections(
        ObjectType::Calendar,
        vec![
            (1, Err(("Broken".to_owned(), false))),
            (2, Ok(calendar(r#"{"name": "Team"}"#, false))),
        ],
        "[]",
    );
    let mut t = Target::new(ObjectType::Calendar, &[r#"{"created":{"c2":{"id":"CID2"}}}"#]);
    export_collections(&mut t, &inp, Ok(())).unwrap();
    assert_eq!(t.counts.failed, 1, "one calendar, not one aborted surface");
    assert_eq!(t.counts.created, 1);
    assert_eq!(t.rows.len(), 1);
    assert_eq!(t.rows[0].type_token, "calendar");
    assert_eq!(t.rows[0].local_id, 1);
    assert_eq!(t.rows[0].client_id, "c1");
    assert_eq!(t.rows[0].error_type, "buildFailed");
    assert_eq!(t.rows[0].blob_local_id, None, "a calendar carries no blob");
}

#[test]
fn export_address_book_refusal_is_quarantined_and_cleared_once_it_lands() {
    let rows = || vec![(1, Ok((false, json(r#"{"name": "Work", "isDefault": false}"#))))];
    let refused = r#"{"notCreated":{"c1":{"type":"forbidden","description":"quota exceeded"}}}"#;
    let mut t = Target::new(ObjectType::AddressBook, &[refused]);
    export_collections(&mut t, &collections(ObjectType::AddressBook, rows(), "[]"), Ok(())).unwrap();
    assert_eq!(t.rows.len(), 1);
    assert_eq!(t.rows[0].type_token, "addressbook");
    assert_eq!(t.rows[0].local_id, 1);
    assert_eq!(t.rows[0].error_type, "forbidden");
    assert!(t.rows[0].error_detail.contains("quota exceeded"));
    assert_eq!(t.rows[0].blob_probe, "not_probed");
    assert_eq!(t.rows[0].blob_local_id, None);
    let there = r#"[{"id":"WID","name":"Work","isDefault":false,"myRights":{"mayDelete":true}}]"#;
    let mut t = Target::new(ObjectType::AddressBook, &[]);
    export_collections(&mut t, &collections(ObjectType::AddressBook, rows(), there), Ok(())).unwrap();
    assert_eq!(t.counts.failed, 0);
    assert_eq!(t.resolved, vec![1], "a resolved item must not stay quarantined");
}

fn export_events(
    t: &mut Target,
    rows: &[(i64, &str, &str)],
    targets: &Vec<Json>,
    build: &dyn Fn(&mut Target, i64) -> Result<Json, String>,
) -> Plan {
    let rows: Vec<UidRow> = rows
        .iter()
        .map(|(local, uid, calendars)| UidRow {
            local: *local,
            uid: (*uid).to_owned(),
            calendars: desired_calendar_ids(calendars, &t.maps),
        })
        .collect();
    let plan = uidtype::reconcile(&rows, targets);
    for (row, hit) in rows.iter().zip(plan.hits.iter()) {
        let local = row.local;
        let _ = t.uploader.take_touched();
        let wire = build(t, local);
        let touched = t.uploader.take_touched();
        let Some(target) = hit.map(|j| &targets[j]) else {
            let cid = make_creation_id(local);
            match wire {
                Ok(wire) => {
                    let first = t.set("create", create_batch(&vec![(cid.clone(), wire)])).unwrap();
                    let (o, retry) = t.resend(&cid, false, &touched, first, &|t| build(t, local)).unwrap();
                    let end = uidtype::after_create(t.ty, &o, &t.reads(&touched), retry.as_ref(), STAMP);
                    for v in end.verdicts {
                        t.settle(v);
                    }
                    for r in end.refusals {
                        t.refused(r);
                    }
                }
                Err(why) => {
                    let v = lose(t.ty, local, &cid, None, "buildFailed", why, STAMP, None);
                    t.settle(v);
                }
            }
            continue;
        };
        let tid = jid(target).unwrap();
        match settle_matched(t.ty, local, target, &tid, wire, false, STAMP) {
            EventStep::Settled(v) => t.settle(v),
            EventStep::Send(patch) => {
                let first = t
                    .set("update", create_batch(&vec![(tid.clone(), Json::Object(patch))]))
                    .unwrap();
                let again = |t: &mut Target| -> Result<Json, String> {
                    Ok(Json::Object(calendar_event_update_patch(target, &build(t, local)?)))
                };
                let (o, retry) = t.resend(&tid, true, &touched, first, &again).unwrap();
                match finish_update(t.ty, local, &tid, &o, t.reads(&touched), retry.as_ref(), STAMP) {
                    UpdateStep::Settled(v) => t.settle(v),
                    UpdateStep::Refused(r) => t.refused(r),
                }
            }
        }
    }
    Plan {
        prune_candidates: candidates(&uidtype::prune_objects(targets, &plan.matched)),
        active_sieve_target: None,
    }
}

#[test]
fn export_default_calendar_reuses_target_default_updates_metadata_and_prunes_duplicate() {
    let alerts = r#"{"reminder":{"@type":"Alert","trigger":{"@type":"OffsetTrigger","offset":"-PT15M",
        "relativeTo":"start"},"action":"display"}}"#;
    let row = format!(
        r##"{{"name":"Imported Primary","description":"Source description","color":"#123456","sortOrder":42,
            "isSubscribed":false,"isVisible":false,"includeInAvailability":"attending",
            "defaultAlertsWithTime":{alerts}}}"##
    );
    let inp = collections(
        ObjectType::Calendar,
        vec![(1, Ok(calendar(&row, true)))],
        r##"[{"id":"TD","name":"Calendar","description":"stale","color":"#000000","sortOrder":1,
              "isSubscribed":true,"isVisible":true,"isDefault":true,"includeInAvailability":"none",
              "defaultAlertsWithTime":{"old":{}},"defaultAlertsWithoutTime":{"old":{}},
              "timeZone":"Europe/Berlin","myRights":{"mayDelete":false}},
             {"id":"DUP","name":"Imported Primary","isDefault":false,"myRights":{"mayDelete":true}}]"##,
    );
    let mut t = Target::new(ObjectType::Calendar, &[r#"{"updated":{"TD":null}}"#]);
    let calendars = export_collections(&mut t, &inp, Ok(())).unwrap();
    assert_eq!(t.sent.len(), 1, "no create");
    let sent = json(t.sent[0].strip_prefix("update ").unwrap());
    assert!(sent.equals(&json(&format!(
        r##"{{"TD":{{"name":"Imported Primary","description":"Source description","color":"#123456",
             "sortOrder":42,"isSubscribed":false,"isVisible":false,"includeInAvailability":"attending",
             "defaultAlertsWithTime":{alerts},"defaultAlertsWithoutTime":{{}},"timeZone":null}}}}"##
    ))));
    assert!(!t.sent[0].contains(r#""isDefault""#));
    assert_eq!(calendars.prune_candidates, vec!["DUP".to_owned()]);

    let mut e = Target::new(ObjectType::CalendarEvent, &[r#"{"updated":{"EV":null}}"#]);
    e.maps.insert(ObjectType::Calendar, 1, t.maps.target(ObjectType::Calendar, 1).unwrap());
    let targets = vec![
        json(
            r#"{"id":"EV","@type":"Event","uid":"source-default-event","title":"Preserved event",
                "calendarIds":{"DUP":true},"description":"stale","alerts":{"old":{}},
                "isDraft":false,"useDefaultAlerts":false,"baseEventId":"BASE","isOrigin":true,
                "utcStart":"2026-08-04T09:00:00Z","utcEnd":"2026-08-04T10:00:00Z","blobId":"DERIVED"}"#,
        ),
        json(
            r#"{"id":"EV-DUP","@type":"Event","uid":"source-default-event","title":"Duplicate event",
                "calendarIds":{"DUP":true},"isDraft":false,"useDefaultAlerts":false}"#,
        ),
    ];
    let events = export_events(&mut e, &[(10, "source-default-event", "[1]")], &targets, &|_, _| {
        Ok(json(
            r#"{"@type":"Event","uid":"source-default-event","title":"Preserved event",
                "calendarIds":{"TD":true},"isDraft":false,"useDefaultAlerts":false}"#,
        ))
    });
    assert_eq!(e.sent.len(), 1);
    for part in [r#""calendarIds":{"TD":true}"#, r#""description":null"#, r#""alerts":null"#] {
        assert!(e.sent[0].contains(part), "{part} in {}", e.sent[0]);
    }
    for part in ["baseEventId", "isOrigin", "utcStart", "utcEnd", "blobId"] {
        assert!(!e.sent[0].contains(part));
    }
    assert_eq!(events.prune_candidates, vec!["EV-DUP".to_owned()]);

    let mut done = Run::begin(vec![ObjectType::Calendar, ObjectType::CalendarEvent]);
    done.finish_kind(Ok(calendars), t.counts, None, false);
    done.finish_kind(Ok(events), e.counts, None, false);
    assert_eq!(removal_order(&done.plans), vec![1, 0]);
    done.finish_removal(1, &Ok(outcome(r#"{"destroyed":["EV-DUP"]}"#)));
    done.finish_removal(0, &Ok(outcome(r#"{"destroyed":["DUP"]}"#)));
    let summary = run(done, 0, 0, false);
    let calendar = &summary.per_type[0].1;
    assert_eq!(calendar.created, 0, "the target default is reused");
    assert_eq!(calendar.updated, 1, "all source metadata is applied");
    assert_eq!(calendar.deleted, 1, "same-name duplicate is pruned");
    assert_eq!(calendar.failed, 0);
    let events = &summary.per_type[1].1;
    assert_eq!(events.created, 0);
    assert_eq!(events.updated, 1);
    assert_eq!(events.deleted, 1, "the unmatched duplicate UID is pruned");
    assert_eq!(events.failed, 0);
}

#[test]
fn export_calendar_event_update_refusal_is_counted_and_quarantined() {
    let mut t = Target::new(
        ObjectType::CalendarEvent,
        &[r#"{"notUpdated":{"EV":{"type":"forbidden","description":"event is read-only"}}}"#],
    );
    t.maps.insert(ObjectType::Calendar, 1, "C".to_owned());
    let targets = vec![json(
        r#"{"id":"EV","@type":"Event","uid":"event-refusal","title":"Stale","calendarIds":{"C":true},
            "isDraft":false,"useDefaultAlerts":false,"mayInviteSelf":false,"mayInviteOthers":false,
            "hideAttendees":false}"#,
    )];
    export_events(&mut t, &[(10, "event-refusal", "[1]")], &targets, &|_, _| {
        Ok(json(
            r#"{"@type":"Event","uid":"event-refusal","title":"Source","calendarIds":{"C":true},
                "isDraft":false,"useDefaultAlerts":false}"#,
        ))
    });
    assert_eq!(t.sent, vec![r#"update {"EV":{"title":"Source"}}"#.to_owned()]);
    assert_eq!(t.counts.failed, 1);
    assert_eq!(t.counts.updated, 0);
    assert_eq!(t.counts.created, 0);
    assert_eq!(t.rows.len(), 1);
    assert_eq!(t.rows[0].type_token, "calendarevent");
    assert_eq!(t.rows[0].local_id, 10);
    assert_eq!(t.rows[0].client_id, "u10");
    assert_eq!(t.rows[0].error_type, "forbidden");
    assert!(t.rows[0].error_detail.contains("event is read-only"));
}

#[test]
fn export_calendar_event_update_blob_not_found_reuploads_and_retries() {
    let mut t = Target::new(
        ObjectType::CalendarEvent,
        &[r#"{"notUpdated":{"EV":{"type":"blobNotFound"}}}"#, r#"{"updated":{"EV":null}}"#],
    );
    t.uploads = VecDeque::from(vec![r#"{"blobId":"UP1"}"#, r#"{"blobId":"UP2"}"#]);
    t.blobs = vec![b"event attachment".to_vec()];
    t.maps.insert(ObjectType::Calendar, 1, "C".to_owned());
    let targets = vec![json(
        r#"{"id":"EV","@type":"Event","uid":"event-blob-retry","title":"Source","calendarIds":{"C":true},
            "isDraft":false,"useDefaultAlerts":false}"#,
    )];
    export_events(&mut t, &[(10, "event-blob-retry", "[1]")], &targets, &|t, _| {
        let blob = t.blob(1)?;
        Ok(json(&format!(
            r#"{{"@type":"Event","uid":"event-blob-retry","title":"Source","calendarIds":{{"C":true}},
                "isDraft":false,"useDefaultAlerts":false,
                "links":{{"attachment":{{"@type":"Link","blobId":"{blob}"}}}}}}"#
        )))
    });
    assert!(t.uploads.is_empty());
    assert_eq!(t.sent.len(), 2);
    assert!(t.sent[0].contains("UP1") && t.sent[1].contains("UP2"));
    assert_eq!(t.counts.updated, 1);
    assert_eq!(t.counts.failed, 0);
    assert!(t.rows.is_empty());
}

fn export_scripts(t: &mut Target, rows: &Vec<SieveRow>, targets: &Vec<Json>) -> Activation {
    let mut pass = SievePass::open(targets);
    for row in rows {
        if let Some(v) = pass.settle_matched(row) {
            t.settle(v);
            continue;
        }
        let cid = make_creation_id(row.local);
        let _ = t.uploader.take_touched();
        let build = |t: &mut Target| -> Result<Json, String> {
            let blob = t.blob(row.blob_local)?;
            Ok(Json::Object(sieve::build(row, &blob)))
        };
        let own = [row.blob_local];
        match build(t) {
            Err(why) => {
                let v = sieve::upload_failed(row, t.reads(&own), why, STAMP);
                t.settle(v);
            }
            Ok(wire) => {
                let touched = t.uploader.take_touched();
                let first = t.set("create", create_batch(&vec![(cid.clone(), wire)])).unwrap();
                let (o, retry) = t.resend(&cid, false, &touched, first, &build).unwrap();
                match pass.settle_sent(row, &o, t.reads(&own), retry.as_ref(), STAMP) {
                    SieveEnd::Settled(v) => t.settle(v),
                    SieveEnd::Refused(r) => t.refused(r),
                }
            }
        }
    }
    pass.activation(rows)
}

const KEEP: &[u8] = b"require [\"fileinto\"];\nkeep;\n";
const ARCHIVE: &[u8] = b"require [\"fileinto\"];\nfileinto \"Archive\";\n";

/// What the answer to a lookup of a blob says.
fn probe(args: &str) -> Result<BlobLookup, String> {
    lookup_blob(Ok(json(args)), "UP1").map_err(|e| format!("{e:?}"))
}

fn script(local: i64, name: &str, is_active: bool, blob_local: i64) -> SieveRow {
    SieveRow { local, name: Some(name.to_owned()), is_active, blob_local }
}

#[test]
fn export_sieve_script_matches_by_name_not_content() {
    let targets = vec![json(r#"{"id":"S1","name":"keepall","isActive":false,"blobId":"BSRV"}"#)];
    let rows = vec![script(1, "keepall", true, 1), script(2, "reject", false, 2)];
    let mut t = Target::new(ObjectType::SieveScript, &[r#"{"created":{"c2":{"id":"S2"}}}"#]);
    t.uploads.push_back(r#"{"blobId":"UPN"}"#);
    t.blobs = vec![KEEP.to_vec(), b"require [\"reject\"];\nreject \"go away\";\n".to_vec()];
    let activation = export_scripts(&mut t, &rows, &targets);
    assert_eq!(t.sent, vec![r#"create {"c2":{"blobId":"UPN","name":"reject"}}"#.to_owned()]);
    assert!(matches!(activation, Activation::Activate(ref id) if id == "S1"));
    assert_eq!(t.counts.skipped, 1, "a matched name is skipped though its content differs");
    assert_eq!(t.counts.created, 1, "the unmatched name is created");
    assert_eq!(t.counts.failed, 0);
}

#[test]
fn export_sieve_scripts_identical_content_different_names_both_created() {
    let rows = vec![script(1, "duplicate-A", false, 1), script(2, "duplicate-B", false, 1)];
    let mut t = Target::new(
        ObjectType::SieveScript,
        &[r#"{"created":{"c1":{"id":"S1"}}}"#, r#"{"created":{"c2":{"id":"S2"}}}"#],
    );
    t.uploads.push_back(r#"{"blobId":"UPN"}"#);
    t.blobs = vec![KEEP.to_vec(), b"require [\"reject\"];\nreject \"go away\";\n".to_vec()];
    let activation = export_scripts(&mut t, &rows, &Vec::new());
    assert!(t.uploads.is_empty(), "one upload for both");
    assert_eq!(t.sent.len(), 2);
    assert!(matches!(activation, Activation::Deactivate));
    assert_eq!(t.counts.created, 2, "two scripts with identical content must both reach the target");
    assert_eq!(t.counts.skipped, 0, "neither distinct name collapses onto the other");
    assert_eq!(t.counts.failed, 0);
}

#[test]
fn export_sieve_blob_not_found_on_dedup_reuse_reuploads_and_retries() {
    let rows = vec![script(1, "dup-A", false, 1), script(2, "dup-B", false, 1)];
    let mut t = Target::new(
        ObjectType::SieveScript,
        &[
            r#"{"created":{"c1":{"id":"S1"}}}"#,
            r#"{"notCreated":{"c2":{"type":"blobNotFound"}}}"#,
            r#"{"created":{"c2":{"id":"S2"}}}"#,
        ],
    );
    t.uploads = VecDeque::from(vec![r#"{"blobId":"UP1"}"#, r#"{"blobId":"UP2"}"#]);
    t.blobs = vec![ARCHIVE.to_vec()];
    export_scripts(&mut t, &rows, &Vec::new());
    assert!(t.uploads.is_empty());
    assert!(t.sent[1].contains("dup-B") && t.sent[1].contains("UP1"));
    assert!(t.sent[2].contains("dup-B") && t.sent[2].contains("UP2"));
    assert_eq!(t.counts.created, 2, "a reused blob that came back missing is uploaded again");
    assert_eq!(t.counts.failed, 0, "blobNotFound on a reused blob is not a failure");
}

#[test]
fn export_sieve_blob_not_found_surviving_reupload_is_quarantined_as_orphaned_marker() {
    let rows = vec![script(1, "orphaned", false, 1)];
    let missing = r#"{"notCreated":{"c1":{"type":"blobNotFound"}}}"#;
    let mut t = Target::new(ObjectType::SieveScript, &[missing, missing]);
    t.uploads = VecDeque::from(vec![r#"{"blobId":"UP1"}"#, r#"{"blobId":"UP1"}"#]);
    t.blobs = vec![ARCHIVE.to_vec()];
    t.lookup = probe(r#"{"accountId":"w","list":[],"notFound":["UP1"]}"#);
    export_scripts(&mut t, &rows, &Vec::new());
    assert_eq!(t.sent.len(), 2);
    assert_eq!(t.counts.failed, 1, "the refusal survived the re-upload");
    assert_eq!(t.rows.len(), 1);
    assert_eq!(t.rows[0].type_token, "sievescript");
    assert_eq!(t.rows[0].local_id, 1);
    assert_eq!(t.rows[0].client_id, "c1");
    assert_eq!(t.rows[0].error_type, "blobNotFound");
    assert_eq!(t.rows[0].target_blob_id.as_deref(), Some("UP1"));
    assert_eq!(t.rows[0].blob_probe, "orphaned_marker");
    assert_eq!(t.rows[0].size_bytes, Some(ARCHIVE.len() as i64), "the script's own bytes identify it");
    assert_eq!(t.rows[0].blob_hash.as_deref().map(str::len), Some(64));
}

#[test]
fn export_sieve_upload_failure_quarantines_one_script_without_aborting_the_surface() {
    let rows = vec![script(1, "refused", false, 1), script(2, "accepted", false, 2)];
    let mut t = Target::new(ObjectType::SieveScript, &[r#"{"created":{"c2":{"id":"S2"}}}"#]);
    t.uploads = VecDeque::from(vec![r#"{"stored":true}"#, r#"{"blobId":"UP2"}"#]);
    t.blobs = vec![ARCHIVE.to_vec(), b"keep;\n".to_vec()];
    export_scripts(&mut t, &rows, &Vec::new());
    assert_eq!(t.counts.failed, 1, "one script, not one aborted surface");
    assert_eq!(t.counts.created, 1);
    assert_eq!(t.rows.len(), 1);
    assert_eq!(t.rows[0].type_token, "sievescript");
    assert_eq!(t.rows[0].local_id, 1);
    assert_eq!(t.rows[0].client_id, "c1");
    assert_eq!(t.rows[0].error_type, "blobUploadFailed");
    assert!(t.rows[0].error_detail.contains("blobId"), "the row carries what the target did");
    assert_eq!(t.rows[0].size_bytes, Some(ARCHIVE.len() as i64));
    assert_eq!(t.rows[0].blob_hash.as_deref().map(str::len), Some(64));
    assert_eq!(t.rows[0].blob_probe, "not_probed");
}

fn raw(mid: &str) -> Vec<u8> {
    format!("From: alex@example.test\r\nSubject: quarantine\r\nMessage-ID: <{mid}>\r\n\r\nbody").into_bytes()
}

fn message(mid: &str) -> EmailRow {
    EmailRow {
        local: 1,
        blob_local_id: 1,
        mailbox_locals: vec![1],
        keywords: Vec::new(),
        received_at: "2020-01-01T00:00:00Z".to_owned(),
        message_id: Some(mid.to_owned()),
    }
}

/// Exports a message to a target that answers its imports with `imports`.
fn export_message(t: &mut Target, m: &EmailRow, imports: &[&str]) {
    t.blobs = vec![raw(m.message_id.as_deref().unwrap())];
    t.maps.insert(ObjectType::Mailbox, 1, "t1".to_owned());
    send_message(t, m, imports);
}

/// Exports a message whose bytes are among the blobs of the target's archive.
fn send_message(t: &mut Target, m: &EmailRow, imports: &[&str]) {
    let mut imports: VecDeque<&str> = imports.iter().copied().collect();
    let cid = make_import_id(m.local);
    let kept = t.reads(&[m.blob_local_id]).unwrap();
    let own = || kept.copy();
    let dry_run = t.dry_run;
    let mut first: Option<String> = None;
    let mut step = export_one(m, &t.maps, dry_run, own(), EmailEvent::Begin, STAMP);
    loop {
        let trouble = |shown: String| Trouble { error: JmapError::Transport(shown.clone()), shown };
        step = match step {
            EmailStep::Settled(v) => {
                t.settle(v);
                return;
            }
            EmailStep::Upload => {
                let r = t.blob(m.blob_local_id).map_err(trouble);
                export_one(m, &t.maps, dry_run, own(), EmailEvent::Uploaded(r), STAMP)
            }
            EmailStep::Import { item, blob } => {
                t.sent.push(format!("import {}", Json::Object(import_call("w", &cid, item)).compact()));
                let result = Ok(send_single_import(&json(imports.pop_front().expect("a reply")), &cid));
                match &first {
                    None => export_one(m, &t.maps, dry_run, own(), EmailEvent::Imported { blob, result }, STAMP),
                    Some(f) => {
                        retry_after_reupload(m, &t.maps, f, own(), RetryEvent::Reimported { blob, result }, STAMP)
                    }
                }
            }
            EmailStep::Reupload { first: f } => {
                t.uploader.invalidate(m.blob_local_id);
                let r = t.blob(m.blob_local_id).map_err(trouble);
                let next = retry_after_reupload(m, &t.maps, &f, own(), RetryEvent::Reuploaded(r), STAMP);
                first = Some(f);
                next
            }
            EmailStep::Probe { blob, error_type, detail } => {
                let lookup = match &t.lookup {
                    Ok(l) => Ok(*l),
                    Err(e) => Err(e.clone()),
                };
                let event = RetryEvent::Probed { blob, error_type, detail, lookup };
                retry_after_reupload(m, &t.maps, first.as_deref().unwrap(), own(), event, STAMP)
            }
        };
    }
}

#[test]
fn export_email_already_exists_is_matched_not_failed() {
    let mut t = Target::new(ObjectType::Email, &[]);
    t.uploads.push_back(r#"{"blobId":"UP1"}"#);
    export_message(&mut t, &message("q-1@h"), &[r#"{"notCreated":{"e1":{"type":"alreadyExists"}}}"#]);
    assert_eq!(t.counts.skipped, 1);
    assert_eq!(t.counts.failed, 0);
    assert_eq!(t.counts.created, 0);
}

#[test]
fn export_email_blob_not_found_reuploads_and_retries() {
    let mut t = Target::new(ObjectType::Email, &[]);
    t.uploads = VecDeque::from(vec![r#"{"blobId":"UP1"}"#, r#"{"blobId":"UP2"}"#]);
    export_message(
        &mut t,
        &message("q-1@h"),
        &[r#"{"notCreated":{"e1":{"type":"blobNotFound"}}}"#, r#"{"created":{"e1":{"id":"E1"}}}"#],
    );
    assert!(t.sent[0].contains("UP1") && t.sent[1].contains("UP2"));
    assert_eq!(t.counts.created, 1);
    assert_eq!(t.counts.failed, 0);
}

#[test]
fn export_email_failure_is_recorded_as_a_structured_item() {
    let mut t = Target::new(ObjectType::Email, &[]);
    t.uploads.push_back(r#"{"blobId":"UP1"}"#);
    let refused = r#"{"notCreated":{"e1":{"type":"invalidProperties","description":"receivedAt is not a UTCDate"}}}"#;
    export_message(&mut t, &message("q-1@h"), &[refused]);
    assert_eq!(t.counts.failed, 1, "the refused message counts as failed");
    assert_eq!(t.counts.created, 0);
    assert_eq!(t.rows.len(), 1);
    let row = &t.rows[0];
    assert_eq!(row.type_token, "email");
    assert_eq!(row.local_id, 1);
    assert_eq!(row.client_id, "e1", "the creation id used on the wire");
    assert_eq!(row.message_id.as_deref(), Some("q-1@h"));
    assert_eq!(row.size_bytes, Some(raw("q-1@h").len() as i64));
    assert_eq!(row.target_blob_id.as_deref(), Some("UP1"));
    assert_eq!(row.error_type, "invalidProperties");
    assert!(row.error_detail.contains("receivedAt is not a UTCDate"));
    assert_eq!(row.blob_probe, "not_probed");
    assert_eq!(
        row.blob_hash.as_deref(),
        Some(blake3::hash(&raw("q-1@h")).to_hex().to_string().as_str()),
        "the full content hash correlates the item with the target's dedup key"
    );
    assert_eq!(row.blob_local_id, Some(1), "the bytes stay reachable in the archive");
    assert!(row.failed_at.ends_with('Z'));
}

fn survived(mid: &str, lookup: Result<BlobLookup, String>) -> Target {
    let mut t = Target::new(ObjectType::Email, &[]);
    t.uploads = VecDeque::from(vec![r#"{"blobId":"UP1"}"#, r#"{"blobId":"UP1"}"#]);
    t.lookup = lookup;
    let missing = r#"{"notCreated":{"e1":{"type":"blobNotFound"}}}"#;
    export_message(&mut t, &message(mid), &[missing, missing]);
    assert_eq!(t.counts.failed, 1);
    assert_eq!(t.rows.len(), 1);
    assert_eq!(t.rows[0].error_type, "blobNotFound");
    assert_eq!(t.rows[0].target_blob_id.as_deref(), Some("UP1"));
    t
}

#[test]
fn export_email_blob_not_found_on_content_addressed_target_records_orphaned_marker() {
    let t = survived("q-3@h", probe(r#"{"accountId":"w","list":[],"notFound":["UP1"]}"#));
    assert_eq!(t.rows[0].blob_probe, "orphaned_marker");
}

#[test]
fn export_email_blob_probe_failure_is_recorded_as_store_unavailable_not_orphaned() {
    let t = survived("q-4@h", Err("blob store unreachable".to_owned()));
    assert_eq!(t.rows[0].blob_probe, "store_unavailable");
    assert!(t.rows[0].error_detail.contains("blob probe"), "the probe failure is kept");
}

#[test]
fn export_email_blob_probe_reads_a_size_only_result_as_retrievable() {
    let t = survived("q-4b@h", probe(r#"{"accountId":"w","list":[{"size":64}],"notFound":[]}"#));
    assert_eq!(t.rows[0].blob_probe, "retrievable");
    assert!(t.rows[0].error_detail.contains("64 bytes"), "the size the target reported is kept");
}

#[test]
fn export_email_blob_probe_is_unsupported_when_target_lacks_the_blob_capability() {
    let lookup = match lookup_call(&vec!["urn:ietf:params:jmap:mail".to_owned()], "w", "UP1") {
        Some(_) => panic!("no question is put"),
        None => Ok(BlobLookup::Unsupported),
    };
    assert!(lookup_call(&vec![URN_BLOB.to_owned()], "w", "UP1").is_some());
    assert_eq!(survived("q-5@h", lookup).rows[0].blob_probe, "unsupported");
}

#[test]
fn export_email_quarantine_row_is_cleared_once_the_item_is_on_target() {
    let mut t = Target::new(ObjectType::Email, &[]);
    let v = matched(&message("q-1@h"), true).expect("the target has it");
    t.settle(v);
    assert_eq!(t.counts.skipped, 1, "the message is already on the target");
    assert_eq!(t.counts.failed, 0);
    assert_eq!(t.resolved, vec![1], "a resolved item must not stay quarantined");
}

#[test]
fn export_quarantine_write_failure_is_not_counted_as_a_refused_object() {
    let mut q = Quarantine::open(ObjectType::Email, false, &Vec::new());
    assert!(q.record());
    q.recorded(1, Err("quarantine is read-only".to_owned()));
    let mut counts = TypeCounts::default();
    counts.failed = 1;
    let mut done = Run::begin(vec![ObjectType::Email]);
    done.finish_kind(Ok(Plan::default()), counts, q.finish(), false);
    let summary = run(done, 0, 0, false);
    assert_eq!(summary.per_type[0].1.failed, 1, "only the refused object counts");
    assert_eq!(summary.unrecorded_failures.len(), 1);
    assert!(summary.unrecorded_failures[0].starts_with("Email failures could not be recorded"));
    assert!(summary.unrecorded_failures[0].contains("read-only"));
}

/// The n-th of some messages, and its bytes.
fn numbered(n: i64) -> (EmailRow, Vec<u8>) {
    let bytes = format!("From: a@x\r\nSubject: m{n}\r\nMessage-ID: <m-{n}@h>\r\n\r\nbody {n}").into_bytes();
    let mut row = message(&format!("m-{n}@h"));
    row.local = n;
    row.blob_local_id = n;
    (row, bytes)
}

#[test]
fn email_export_sends_one_email_per_import_call() {
    let mut t = Target::new(ObjectType::Email, &[]);
    t.maps.insert(ObjectType::Mailbox, 1, "t1".to_owned());
    t.uploads = VecDeque::from(vec![r#"{"blobId":"UP1"}"#, r#"{"blobId":"UP1"}"#]);
    let (rows, blobs): (Vec<EmailRow>, Vec<Vec<u8>>) = (1..=2).map(numbered).unzip();
    t.blobs = blobs;
    let reply = r#"{"accountId":"w","created":{"e":{"id":"x","blobId":"b","threadId":"t","size":10}}}"#;
    for m in &rows {
        send_message(&mut t, m, &[reply]);
    }
    assert_eq!(t.sent.len(), 2);
    assert!(t.uploads.is_empty(), "each message is uploaded");
    for (n, sent) in t.sent.iter().enumerate() {
        assert_eq!(sent.contains(r#""emails":{"e1":"#), n == 0, "{sent}");
        assert_eq!(sent.contains(r#""emails":{"e2":"#), n == 1, "{sent}");
        assert!(!(sent.contains("\"e1\"") && sent.contains("\"e2\"")), "{sent}");
    }
    let mut done = Run::begin(vec![ObjectType::Email]);
    let unrecorded = t.quarantine.finish();
    done.finish_kind(Ok(Plan::default()), t.counts, unrecorded, false);
    let summary = run(done, 0, 0, false);
    let email = &summary.per_type[0].1;
    assert_eq!(email.created, 2, "both emails imported in per-item rounds");
    assert_eq!(email.failed, 0, "no per-unit failure");
    assert!(summary.unrecorded_failures.is_empty(), "no whole-run failure");
}

#[test]
fn export_missing_target_email_is_created_on_rerun() {
    let listed = vec![json(r#"{"id":"X1","messageId":["m-1@h"]}"#)];
    assert!(fallback_ids(&listed).is_empty(), "the target is asked once");
    let target_keys: Vec<String> =
        completed(&listed, &Vec::new()).into_iter().map(|i| i.mids[0].clone()).collect();
    let (rows, blobs): (Vec<EmailRow>, Vec<Vec<u8>>) = (1..=2).map(numbered).unzip();
    let local_keys = rows.iter().map(|m| m.message_id.clone().unwrap()).collect();
    let mut t = Target::new(ObjectType::Email, &[]);
    t.maps.insert(ObjectType::Mailbox, 1, "T1".to_owned());
    t.uploads.push_back(r#"{"blobId":"BUP"}"#);
    t.blobs = blobs;
    let reply = r#"{"accountId":"w","created":{"e2":{"id":"Y2","blobId":"BUP","threadId":"t","size":10}}}"#;
    for (m, known) in rows.iter().zip(email::reconcile(&local_keys, &target_keys)) {
        match matched(m, known) {
            Some(v) => t.settle(v),
            None => send_message(&mut t, m, &[reply]),
        }
    }
    assert_eq!(t.counts.skipped, 1, "Message-ID match with X1 skips it");
    assert_eq!(t.counts.created, 1, "missing email is created");
    assert_eq!(t.counts.failed, 0);
    assert!(t.uploads.is_empty());
    assert_eq!(t.sent.len(), 1);
    assert!(t.sent[0].contains("e2") && t.sent[0].contains("BUP"));
}

#[test]
fn export_dry_run_sends_no_mutating_calls() {
    let mut t = Target::dry(ObjectType::Email);
    let cids = vec![make_creation_id(1), make_creation_id(2)];
    let assumed = synthesize_dry_run_outcome(ObjectType::Mailbox, &cids);
    assert_eq!(assumed.created.len(), 2);
    for (local, (_, object)) in (1..).zip(&assumed.created) {
        t.maps.insert(ObjectType::Mailbox, local, jid(object).unwrap());
    }
    t.blobs = vec![b"From: a@x\r\nSubject: hi\r\nMessage-ID: <m-1@h>\r\n\r\nbody".to_vec()];
    send_message(&mut t, &message("m-1@h"), &[]);
    assert!(t.sent.is_empty(), "nothing is set or imported");
    assert_eq!(t.counts.created, 1);
    assert_eq!(t.counts.failed, 0);
    let mailboxes = TypeCounts { created: 2, ..TypeCounts::default() };
    let mut done = Run::begin(vec![ObjectType::Mailbox, ObjectType::Email]);
    done.finish_kind(Ok(Plan::default()), mailboxes, None, true);
    let unrecorded = t.quarantine.finish();
    done.finish_kind(Ok(Plan::default()), t.counts, unrecorded, true);
    let summary = run(done, 0, 0, true);
    assert!(
        summary.per_type.iter().all(|(_, c)| c.failed == 0) && summary.unrecorded_failures.is_empty(),
        "dry-run summary should not record failures"
    );
}

#[test]
fn export_dry_run_records_no_quarantine_rows() {
    let mut t = Target::dry(ObjectType::Email);
    t.blobs = vec![raw("q-7@h")];
    send_message(&mut t, &message("q-7@h"), &[]);
    assert_eq!(t.counts.failed, 1, "no mailbox of the message is on the target");
    assert!(t.rows.is_empty(), "--dry-run must stay side-effect free");
    assert!(t.quarantine.finish().is_none());
}
