use vandelay::db::export_failures::{
    FailedItem, PROBE_NOT_PROBED, PROBE_ORPHANED_MARKER, PROBE_RETRIEVABLE, PROBE_STORE_UNAVAILABLE,
    PROBE_UNSUPPORTED,
};
use vandelay::error::Error;
use vandelay::jmap::blobxfer::BlobLookup;
use vandelay::jmap::error::JmapError;
use vandelay::json::{Json, JsonObject};
use vandelay::sync::export::common::{
    after_retry, before_retry, blob_not_found, count_outcome, create_batch, dry_run_blob, find_entry, jid,
    make_creation_id, make_update_id, missing_blob, parse_creation_id, retry_if_blob_missing,
    retry_update_if_blob_missing, sole_blob, synthesize_dry_run_outcome, Entry, Maps, SendEvent, SendStep,
    SetOutcome, Tally, Uploader, Verdict,
};
use vandelay::sync::export::email::{
    self, blob_hint, build_keywords, completed, export_one, fallback_ids, fallback_properties, first_properties,
    import_call, make_import_id, matched, retry_after_reupload, send_single_import, server_index, EmailEvent, EmailRow, EmailStep, RetryEvent, SingleImport, Trouble,
};
use vandelay::sync::export::flat::{
    self, apply_calendar_updates, build_calendar_update_wire, build_wire, calendar_needs_update,
    set_collection_default, settle_default, source_default_calendar, target_properties, update_batch, FlatInput, UpdateReply,
};
use vandelay::sync::export::quarantine::{
    blob_identity, classify_blob, dedup_note, normalise_error_type, probe_note, probed, record_local_failure,
    record_refusal, BlobReads, BlobRetry, Quarantine,
};
use vandelay::sync::export::run::{
    confirm, count_destroyed, deactivate_active_sieve_script, do_destroy, print_dry_run, prune_phase,
    prune_plan_line, prune_total, reconcile_type, removal_order, run, sample, work_list, DryRow, Pass, Plan,
    PruneStep, Run,
};
use vandelay::sync::export::sieve::{
    activation_call, retry_failed, upload_failed, Activation, SieveEnd, SievePass, SieveRow,
};
use vandelay::sync::export::uidtype::{
    self, calendar_event_update_patch, choose_target, control_properties, desired_calendar_ids, event_uid, finish_update,
    merge_calendar_event_controls, settle_matched, settle_refusal, target_calendar_ids, update_failed,
    update_retry_failed,
    EventStep, UidRow, UpdateStep,
};
use vandelay::sync::prune::{candidates, TargetObj};
use vandelay::types::{ObjectType, TypeCounts};

const STAMP: &str = "2026-01-01T00:00:00Z";

fn json(text: &str) -> Json {
    Json::parse(text.as_bytes()).expect("a JSON text")
}

fn shown(o: &JsonObject) -> String {
    Json::Object(o.copy()).compact()
}

fn outcome() -> SetOutcome {
    SetOutcome {
        created: Vec::new(),
        not_created: Vec::new(),
        updated: Vec::new(),
        not_updated: Vec::new(),
        destroyed: Vec::new(),
        not_destroyed: Vec::new(),
    }
}

fn entry(id: &str, text: &str) -> (String, Json) {
    (id.to_owned(), json(text))
}

fn recorded(v: &Verdict) -> &FailedItem {
    match &v.entry {
        Entry::Record(i) => i,
        _ => panic!("expected a row"),
    }
}

#[test]
fn a_failed_hash_read_is_kept_and_never_passed_off_as_a_null() {
    let out = blob_identity(Ok(Some(4096)), Err("no such table: blobs".to_owned()));
    assert_eq!(out.size_bytes, Some(4096), "the read that worked is kept");
    assert_eq!(out.hash, None, "there is no hash to record");
    let problems = out.read_error.clone().expect("the read failure must survive");
    assert!(problems.contains("blake3: "), "got {problems}");
    assert!(
        out.annotate("refused".to_owned()).contains("blob metadata unreadable"),
        "the row has to say why the hash is absent"
    );
}

#[test]
fn a_blob_that_is_genuinely_absent_is_not_reported_as_a_failed_read() {
    let out = blob_identity(Ok(None), Ok(None));
    assert_eq!(out.size_bytes, None);
    assert_eq!(out.hash, None);
    assert_eq!(out.read_error, None, "nothing failed; the blob is just gone");
    assert_eq!(out.annotate("refused".to_owned()), "refused");
}

#[test]
fn both_reads_failing_are_reported_separately() {
    let out = blob_identity(Err("a".to_owned()), Err("b".to_owned()));
    let problems = out.read_error.expect("both failures must survive");
    assert!(problems.contains("size: "), "got {problems}");
    assert!(problems.contains("blake3: "), "got {problems}");
    assert_eq!(problems, "size: a; blake3: b");
}

#[test]
fn only_a_single_blob_is_attributed_to_a_refusal() {
    assert_eq!(sole_blob(&[7]), Some(7));
    assert_eq!(sole_blob(&[]), None);
    assert_eq!(sole_blob(&[7, 8]), None);
}

#[test]
fn source_default_is_inferred_only_when_absent_and_multiple_are_rejected() {
    let absent = vec![(9, "Later".to_owned(), false), (3, "First".to_owned(), false)];
    assert_eq!(source_default_calendar(&absent, true).unwrap(), (Some(3), true));
    assert_eq!(source_default_calendar(&absent, false).unwrap(), (None, false));

    let declared = vec![(9, "Later".to_owned(), false), (3, "First".to_owned(), true)];
    assert_eq!(source_default_calendar(&declared, false).unwrap(), (Some(3), false));

    let multiple = vec![(1, "One".to_owned(), true), (2, "Two".to_owned(), true)];
    match source_default_calendar(&multiple, true).expect_err("ambiguous default must fail") {
        Error::Partial(m) => assert!(m.contains("declares 2 defaults (1, 2)"), "got {m}"),
        other => panic!("got {other:?}"),
    }
}

#[test]
fn update_patch_clears_writable_optional_fields_but_never_server_fields() {
    let target = json(
        r#"{
            "id": "EV",
            "uid": "same",
            "baseEventId": "BASE",
            "isOrigin": true,
            "utcStart": "2026-08-04T09:00:00Z",
            "utcEnd": "2026-08-04T10:00:00Z",
            "blobId": "SERVER-BLOB",
            "description": "stale",
            "alerts": {"old": {}},
            "mayInviteSelf": true,
            "title": "same"
        }"#,
    );
    let desired = json(
        r#"{
            "uid": "same",
            "title": "same",
            "calendarIds": {"CAL": true},
            "isDraft": false,
            "useDefaultAlerts": false
        }"#,
    );
    let patch = calendar_event_update_patch(&target, &desired);
    assert!(patch.get("description").unwrap().is_null());
    assert!(patch.get("alerts").unwrap().is_null());
    assert_eq!(patch.get("mayInviteSelf").unwrap().as_bool(), Some(false));
    assert!(patch.get("calendarIds").unwrap().equals(&json(r#"{"CAL": true}"#)));
    for server_property in ["id", "uid", "baseEventId", "isOrigin", "utcStart", "utcEnd", "blobId"] {
        assert!(
            !patch.contains_key(server_property),
            "{server_property} must never enter CalendarEvent/set"
        );
    }
}

#[test]
fn duplicate_uid_targets_are_consumed_one_to_one_with_calendar_preference() {
    let targets = vec![
        json(r#"{"id":"A","uid":"same","calendarIds":{"CAL-A":true}}"#),
        json(r#"{"id":"B","uid":"same","calendarIds":{"CAL-B":true}}"#),
    ];
    let candidates = vec![0, 1];
    let mut matched = Vec::new();
    let prefer_b = vec!["CAL-B".to_owned()];
    let b = choose_target(&candidates, &targets, &matched, Some(&prefer_b)).unwrap();
    assert_eq!(jid(&targets[b]).as_deref(), Some("B"));
    matched.push("B".to_owned());

    let prefer_a = vec!["CAL-A".to_owned()];
    let a = choose_target(&candidates, &targets, &matched, Some(&prefer_a)).unwrap();
    assert_eq!(jid(&targets[a]).as_deref(), Some("A"));
    matched.push("A".to_owned());
    assert_eq!(choose_target(&candidates, &targets, &matched, None), None);
}

#[test]
fn creation_ids_are_read_back() {
    for n in [0, 7, -7, i64::MAX, i64::MIN] {
        assert_eq!(parse_creation_id(&make_creation_id(n)), Some(n));
    }
    assert_eq!(make_creation_id(42), "c42");
    assert_eq!(parse_creation_id("x42"), None);
    assert_eq!(parse_creation_id("c"), None);
    assert_eq!(make_import_id(23), "e23");
}

#[test]
fn a_dry_run_creates_everything_under_made_up_ids() {
    let o = synthesize_dry_run_outcome(ObjectType::Mailbox, &vec!["c1".to_owned(), "c2".to_owned()]);
    assert_eq!(o.created.len(), 2);
    assert!(jid(find_entry(&o.created, "c2").unwrap()).is_some());
    assert!(find_entry(&o.created, "c3").is_none());
    assert!(!dry_run_blob(5).is_empty());
}

#[test]
fn a_missing_blob_is_told_from_other_refusals() {
    let refused = vec![entry("c1", r#"{"type": "blobNotFound"}"#), entry("c2", r#"{"type": "invalidProperties"}"#)];
    assert!(blob_not_found(&refused, "c1"));
    assert!(!blob_not_found(&refused, "c2"));
    assert!(!blob_not_found(&refused, "c3"));
}

#[test]
fn uploads_are_cached_until_they_are_dropped() {
    let mut u = Uploader::new();
    assert_eq!(u.upload_with(7), None);
    u.uploaded(7, "B7".to_owned());
    assert_eq!(u.upload_with(7).as_deref(), Some("B7"));
    let touched = u.take_touched();
    assert!(touched.contains(&7));
    assert!(u.take_touched().is_empty());
    let first = before_retry(&mut u, &vec![7]);
    assert_eq!(first.as_deref(), Some("B7"));
    assert_eq!(u.cached(7), None);
    u.uploaded(7, "B8".to_owned());
    let retry = after_retry(&mut u, &vec![7], first).expect("both uploads are known");
    assert_eq!((retry.first.as_str(), retry.second.as_str()), ("B7", "B8"));
}

#[test]
fn what_is_matched_is_found_again() {
    let mut maps = Maps::new();
    maps.insert(ObjectType::Mailbox, 1, "M1".to_owned());
    maps.insert(ObjectType::Calendar, 1, "C1".to_owned());
    assert_eq!(maps.target(ObjectType::Mailbox, 1).as_deref(), Some("M1"));
    assert_eq!(maps.target(ObjectType::Calendar, 1).as_deref(), Some("C1"));
    assert_eq!(maps.target(ObjectType::Mailbox, 2), None);
}

#[test]
fn every_verdict_is_counted_once() {
    let mut c = TypeCounts::default();
    for t in [Tally::Created, Tally::Updated, Tally::Skipped, Tally::Failed, Tally::Failed] {
        count_outcome(&mut c, t);
    }
    assert_eq!((c.created, c.updated, c.skipped, c.failed), (1, 1, 1, 2));
}

#[test]
fn creations_go_out_under_their_ids() {
    let o = create_batch(&vec![entry("c1", r#"{"name": "a"}"#)]);
    assert_eq!(shown(&o), r#"{"c1":{"name":"a"}}"#);
}

#[test]
fn rows_of_failures_are_written_once_and_cleared() {
    let mut q = Quarantine::open(ObjectType::Email, false, &vec![4]);
    assert!(q.record());
    q.recorded(5, Ok(()));
    assert!(q.resolve(4));
    assert!(q.resolve(5));
    assert!(!q.resolve(5));
    assert_eq!(q.finish(), None);
    q.recorded(6, Err("disk full".to_owned()));
    assert!(q.finish().expect("an error to report").contains("disk full"));
    let mut dry = Quarantine::open(ObjectType::Email, true, &vec![4]);
    assert!(!dry.record());
    assert!(!dry.resolve(4));
}

fn reads() -> BlobReads {
    BlobReads { blob_local_id: 3, len: Ok(Some(10)), hash: Ok(Some("ff".to_owned())) }
}

#[test]
fn a_row_says_what_is_known_of_the_blob() {
    let item = record_local_failure(
        ObjectType::SieveScript,
        9,
        "c9",
        Some(reads()),
        "uploadFailed",
        "cut".to_owned(),
        STAMP,
    );
    assert_eq!(item.type_token, "sievescript");
    assert_eq!(item.local_id, 9);
    assert_eq!(item.client_id, "c9");
    assert_eq!(item.blob_local_id, Some(3));
    assert_eq!(item.size_bytes, Some(10));
    assert_eq!(item.blob_hash.as_deref(), Some("ff"));
    assert_eq!(item.error_type, "uploadFailed");
    assert_eq!(item.error_detail, "cut");
    assert_eq!(item.blob_probe, PROBE_NOT_PROBED);
    assert_eq!(item.failed_at, STAMP);
}

#[test]
fn a_refusal_keeps_the_target_s_words() {
    let err = json(r#"{"type":"overQuota","description":"full"}"#);
    let r = record_refusal(ObjectType::Mailbox, 1, "c1", None, Some(&err), None, STAMP);
    assert_eq!(r.item.error_type, "overQuota");
    assert!(r.item.error_detail.contains("full"));
    assert_eq!(r.probe, None);
    let silent = record_refusal(ObjectType::Mailbox, 1, "c1", None, None, None, STAMP);
    assert!(!silent.item.error_type.is_empty());
    assert_eq!(normalise_error_type("overQuota"), "overQuota");
    assert!(!normalise_error_type("").is_empty());
}

#[test]
fn a_blob_is_orphaned_only_where_the_target_says_so() {
    assert_eq!(classify_blob(Ok(BlobLookup::NotFound), "B").0, PROBE_ORPHANED_MARKER);
    assert_eq!(classify_blob(Ok(BlobLookup::Unsupported), "B").0, PROBE_UNSUPPORTED);
    let (state, note) = classify_blob(Ok(BlobLookup::Found { size: Some(12) }), "B");
    assert_eq!(state, PROBE_RETRIEVABLE);
    assert_eq!(note.as_deref(), Some("Blob/get reports 12 bytes for B"));
    let (state, note) = classify_blob(Err("down".to_owned()), "B");
    assert_eq!(state, PROBE_STORE_UNAVAILABLE);
    assert_eq!(note.as_deref(), Some("down"));
    let item = record_local_failure(ObjectType::Email, 1, "e1", None, "x", "d".to_owned(), STAMP);
    assert_eq!(probed(item, Err("down".to_owned()), "B").error_detail, "d; blob probe: down");
    assert!(dedup_note("B", "B").contains("same blobId"));
    assert_eq!(dedup_note("B", "C"), "");
    assert!(probe_note(PROBE_ORPHANED_MARKER).contains("can never recover"));
    assert_eq!(probe_note(PROBE_NOT_PROBED), "");
}

#[test]
fn collections_lose_what_only_the_server_sets() {
    let row = json(
        r##"{"name":"Work","isDefault":true,"color":"#111111","sortOrder":0,"isSubscribed":true,
            "isVisible":true,"includeInAvailability":"all"}"##,
    );
    let wire = build_wire(&row);
    assert_eq!(wire.str_at("name"), Some("Work"));
    assert!(wire.get("isDefault").is_none());
    let update = build_calendar_update_wire(&row).expect("a calendar to update");
    assert!(update.get("isDefault").is_none());
    assert!(!calendar_needs_update(&update, &update));
    assert!(calendar_needs_update(&json("{}"), &json(r#"{"name": "x"}"#)));
}

fn flat_input(locals: Vec<(i64, String, bool)>, rows: Vec<Result<Json, String>>) -> FlatInput {
    FlatInput {
        ty: ObjectType::AddressBook,
        keys: locals.iter().map(|l| l.1.to_lowercase()).collect(),
        locals,
        targets: vec![json(r#"{"id": "T1", "name": "Work"}"#), json(r#"{"id": "T2", "name": "Other"}"#)],
        target_keys: vec![Some("work".to_owned()), Some("other".to_owned())],
        rows,
        stamp: STAMP.to_owned(),
    }
}

#[test]
fn collections_are_matched_by_name_and_the_rest_are_created() {
    let inp = flat_input(
        vec![(1, "Work".to_owned(), false), (2, "New".to_owned(), false)],
        vec![Ok(json(r#"{"name": "Work"}"#)), Ok(json(r#"{"name": "New"}"#))],
    );
    let plan = flat::reconcile(&inp).unwrap();
    assert_eq!(plan.hits, vec![Some(0), None]);
    assert_eq!(plan.matched, vec!["T1".to_owned()]);
    assert_eq!(plan.creates.len(), 1);
    assert_eq!(plan.creates[0].0, 1);
    assert_eq!(plan.verdicts.len(), 1);
    assert_eq!(plan.verdicts[0].target.as_deref(), Some("T1"));
    assert_eq!(plan.verdicts[0].tally, Tally::Skipped);
    let (_, batch) = (0, flat::creation_batch(&inp, &plan.creates));
    assert_eq!(batch.0.len(), 1);
    let mut reply = outcome();
    reply.created.push(entry("c2", r#"{"id": "N1"}"#));
    let end = flat::after_create(ObjectType::AddressBook, &inp.locals, &plan.creates, &reply, STAMP);
    assert_eq!(end.strays, 0);
    assert_eq!(end.verdicts.len(), 1);
    assert_eq!(end.verdicts[0].target.as_deref(), Some("N1"));
    assert_eq!(end.verdicts[0].tally, Tally::Created);
    let left = flat::prune_objects(&inp.targets, &plan.matched);
    assert_eq!(candidates(&left), vec!["T2".to_owned()]);
}

#[test]
fn a_collection_that_is_refused_gets_a_row() {
    let inp = flat_input(vec![(2, "New".to_owned(), false)], vec![Ok(json(r#"{"name": "New"}"#))]);
    let plan = flat::reconcile(&inp).unwrap();
    let mut reply = outcome();
    reply.not_created.push(entry("c2", r#"{"type": "forbidden"}"#));
    let end = flat::after_create(ObjectType::AddressBook, &inp.locals, &plan.creates, &reply, STAMP);
    assert_eq!(end.verdicts.len(), 1);
    assert_eq!(end.verdicts[0].tally, Tally::Failed);
    assert_eq!(recorded(&end.verdicts[0]).error_type, "forbidden");
}

#[test]
fn calendars_are_updated_in_one_call() {
    let updates = vec![(4, "T4".to_owned(), json(r#"{"name": "n"}"#)), (5, "T5".to_owned(), json(r#"{"name": "m"}"#))];
    assert_eq!(shown(&update_batch(&updates)), r#"{"T4":{"name":"n"},"T5":{"name":"m"}}"#);
    let mut reply = outcome();
    reply.updated.push("T4".to_owned());
    reply.not_updated.push(entry("T5", r#"{"type": "forbidden"}"#));
    let v = apply_calendar_updates(&updates, &UpdateReply::Answered(reply), STAMP);
    assert_eq!(v[0].tally, Tally::Updated);
    assert_eq!(v[1].tally, Tally::Failed);
    let all = apply_calendar_updates(&updates, &UpdateReply::Failed("down".to_owned()), STAMP);
    assert!(all.iter().all(|v| v.tally == Tally::Failed));
    let dry = apply_calendar_updates(&updates, &UpdateReply::DryRun, STAMP);
    assert!(dry.iter().all(|v| v.tally == Tally::Updated));
}

#[test]
fn a_default_calendar_is_set_on_its_own() {
    assert!(set_collection_default("acc", "T", true).is_none());
    assert_eq!(
        shown(&set_collection_default("acc", "T", false).unwrap()),
        r#"{"accountId":"acc","onSuccessSetIsDefault":"T"}"#
    );
    let updates = vec![(4, "T4".to_owned(), json("{}"))];
    assert!(settle_default(&updates, 4, "T4", Ok(()), STAMP).is_none());
    let v = settle_default(&updates, 5, "T5", Ok(()), STAMP).unwrap();
    assert_eq!(v.tally, Tally::Updated);
    let v = settle_default(&updates, 4, "T4", Err("no".to_owned()), STAMP).unwrap();
    assert_eq!(v.tally, Tally::Failed);
}

#[test]
fn uids_are_matched_one_to_one() {
    let targets = vec![
        json(r#"{"id": "A", "uid": "u1", "calendarIds": {"C1": true}}"#),
        json(r#"{"id": "B", "uid": "u1", "calendarIds": {"C2": true}}"#),
    ];
    let row = |local: i64, uid: &str, calendars: Option<&str>| UidRow {
        local,
        uid: uid.to_owned(),
        calendars: calendars.map(|c| vec![c.to_owned()]),
    };
    let rows = vec![row(1, "u1", Some("C2")), row(2, "u1", None), row(3, "u1", None), row(4, "u9", None)];
    let plan = uidtype::reconcile(&rows, &targets);
    assert_eq!(plan.hits, vec![Some(1), Some(0), None, None]);
    assert_eq!(plan.matched.len(), 2);
    assert!(candidates(&uidtype::prune_objects(&targets, &plan.matched)).is_empty());
    assert_eq!(target_calendar_ids(&targets[0]), vec!["C1".to_owned()]);
}

#[test]
fn matched_cards_are_left_and_matched_events_are_updated() {
    let target = json(r#"{"id": "A", "uid": "u", "title": "old", "calendarIds": {"C": true}}"#);
    match settle_matched(ObjectType::ContactCard, 1, &target, "A", Err("unread".to_owned()), false, STAMP) {
        EventStep::Settled(v) => assert_eq!(v.tally, Tally::Skipped),
        _ => panic!("cards are settled"),
    }
    let desired = || json(r#"{"uid": "u", "title": "new", "calendarIds": {"C": true}}"#);
    match settle_matched(ObjectType::CalendarEvent, 1, &target, "A", Ok(desired()), false, STAMP) {
        EventStep::Send(patch) => {
            assert_eq!(patch.get("title").unwrap().as_str(), Some("new"));
        }
        _ => panic!("the event differs"),
    }
    match settle_matched(ObjectType::CalendarEvent, 1, &target, "A", Ok(desired()), true, STAMP) {
        EventStep::Settled(v) => assert_eq!(v.tally, Tally::Updated),
        _ => panic!("a dry run sends nothing"),
    }
    match settle_matched(ObjectType::CalendarEvent, 1, &target, "A", Err("bad".to_owned()), false, STAMP) {
        EventStep::Settled(v) => assert_eq!(v.tally, Tally::Failed),
        _ => panic!("an event that cannot be built is not sent"),
    }
}

#[test]
fn an_update_ends_in_the_target_s_answer() {
    let mut ok = outcome();
    ok.updated.push("A".to_owned());
    match finish_update(ObjectType::CalendarEvent, 1, "A", &ok, None, None, STAMP) {
        UpdateStep::Settled(v) => assert_eq!(v.tally, Tally::Updated),
        _ => panic!("expected an end"),
    }
    let mut no = outcome();
    no.not_updated.push(entry("A", r#"{"type": "forbidden"}"#));
    match finish_update(ObjectType::CalendarEvent, 1, "A", &no, None, None, STAMP) {
        UpdateStep::Refused(r) => assert_eq!(r.item.error_type, "forbidden"),
        _ => panic!("expected a refusal"),
    }
}

#[test]
fn calendars_of_events_are_resolved_or_refused() {
    let mut maps = Maps::new();
    maps.insert(ObjectType::Calendar, 1, "C1".to_owned());
    assert_eq!(desired_calendar_ids(r#"[1]"#, &maps), Some(vec!["C1".to_owned()]));
    assert_eq!(desired_calendar_ids(r#"[1, 2]"#, &maps), None);
    assert_eq!(event_uid(r#"{"uid": "u1"}"#), "u1");
    assert_eq!(event_uid("oops"), "");
    let merged = merge_calendar_event_controls(
        &vec![json(r#"{"id": "A", "title": "t"}"#)],
        &vec![json(r#"{"id": "A", "hideAttendees": true, "isDraft": true}"#)],
    );
    assert_eq!(merged.len(), 1);
    assert_eq!(merged[0].bool_at("hideAttendees"), Some(true));
    assert!(merged[0].get("isDraft").is_none());
    assert_eq!(merged[0].str_at("title"), Some("t"));
}

fn script(local: i64, name: &str, is_active: bool) -> SieveRow {
    SieveRow { local, name: Some(name.to_owned()), is_active, blob_local: local }
}

#[test]
fn the_active_script_of_the_archive_becomes_active() {
    let targets = vec![json(r#"{"id": "S1", "name": "a", "isActive": false}"#), json(r#"{"id": "S2", "name": "z", "isActive": true}"#)];
    let mut pass = SievePass::open(&targets);
    let rows = vec![script(1, "a", true), script(2, "b", false)];
    assert_eq!(pass.settle_matched(&rows[0]).unwrap().tally, Tally::Skipped);
    assert!(pass.settle_matched(&rows[1]).is_none());
    let mut reply = outcome();
    reply.created.push(entry("c2", r#"{"id": "S3"}"#));
    match pass.settle_sent(&rows[1], &reply, None, None, STAMP) {
        SieveEnd::Settled(v) => assert_eq!(v.target.as_deref(), Some("S3")),
        _ => panic!("the script was created"),
    }
    let a = pass.activation(&rows);
    assert!(matches!(a, Activation::Activate(ref id) if id == "S1"));
    assert_eq!(shown(&activation_call("acc", &a)), r#"{"accountId":"acc","onSuccessActivateScript":"S1"}"#);
    assert_eq!(pass.prune_candidates(&rows), vec!["S2".to_owned()]);
}

fn message() -> EmailRow {
    EmailRow {
        local: 5,
        blob_local_id: 3,
        mailbox_locals: vec![1],
        keywords: vec!["$seen".to_owned()],
        received_at: STAMP.to_owned(),
        message_id: Some("m@x".to_owned()),
    }
}

fn mapped() -> Maps {
    let mut maps = Maps::new();
    maps.insert(ObjectType::Mailbox, 1, "M1".to_owned());
    maps
}

fn refused() -> SingleImport {
    SingleImport::NotCreated { error_type: "blobNotFound".to_owned(), detail: "gone".to_owned() }
}

#[test]
fn a_message_is_uploaded_and_imported() {
    let (m, maps) = (message(), mapped());
    assert_eq!(shown(&build_keywords(&m)), r#"{"$seen":true}"#);
    assert!(matches!(
        export_one(&m, &maps, false, reads(), EmailEvent::Begin, STAMP),
        EmailStep::Upload
    ));
    match export_one(&m, &maps, false, reads(), EmailEvent::Uploaded(Ok("B1".to_owned())), STAMP) {
        EmailStep::Import { item, blob } => {
            assert_eq!(blob, "B1");
            assert_eq!(item.get("blobId").unwrap().as_str(), Some("B1"));
            assert!(item.get("mailboxIds").unwrap().equals(&json(r#"{"M1": true}"#)));
            let call = import_call("acc", "e5", item);
            assert!(call.get("emails").unwrap().get("e5").is_some());
        }
        _ => panic!("expected an import"),
    }
    let done = EmailEvent::Imported { blob: "B1".to_owned(), result: Ok(SingleImport::Created) };
    match export_one(&m, &maps, false, reads(), done, STAMP) {
        EmailStep::Settled(v) => assert_eq!(v.tally, Tally::Created),
        _ => panic!("expected an end"),
    }
}

#[test]
fn a_message_without_its_mailboxes_fails() {
    match export_one(&message(), &Maps::new(), false, reads(), EmailEvent::Begin, STAMP) {
        EmailStep::Settled(v) => {
            assert_eq!(v.tally, Tally::Failed);
            assert_eq!(recorded(&v).message_id.as_deref(), Some("m@x"));
        }
        _ => panic!("expected an end"),
    }
}

#[test]
fn a_message_whose_bytes_are_missing_is_uploaded_again_once() {
    let (m, maps) = (message(), mapped());
    let missed = EmailEvent::Imported { blob: "B1".to_owned(), result: Ok(refused()) };
    match export_one(&m, &maps, false, reads(), missed, STAMP) {
        EmailStep::Reupload { first } => assert_eq!(first, "B1"),
        _ => panic!("expected another upload"),
    }
    match retry_after_reupload(&m, &maps, "B1", reads(), RetryEvent::Reuploaded(Ok("B1".to_owned())), STAMP) {
        EmailStep::Import { blob, .. } => assert_eq!(blob, "B1"),
        _ => panic!("expected an import"),
    }
    let again = RetryEvent::Reimported { blob: "B1".to_owned(), result: Ok(refused()) };
    match retry_after_reupload(&m, &maps, "B1", reads(), again, STAMP) {
        EmailStep::Probe { blob, error_type, .. } => {
            assert_eq!(blob, "B1");
            assert_eq!(error_type, "blobNotFound");
        }
        _ => panic!("expected a question to the target"),
    }
    let asked = RetryEvent::Probed {
        blob: "B1".to_owned(),
        error_type: "blobNotFound".to_owned(),
        detail: "gone".to_owned(),
        lookup: Ok(BlobLookup::NotFound),
    };
    match retry_after_reupload(&m, &maps, "B1", reads(), asked, STAMP) {
        EmailStep::Settled(v) => {
            let row = recorded(&v);
            assert_eq!(row.blob_probe, PROBE_ORPHANED_MARKER);
            assert_eq!(row.target_blob_id.as_deref(), Some("B1"));
        }
        _ => panic!("expected an end"),
    }
}

#[test]
fn an_upload_that_fails_is_recorded() {
    let trouble = Trouble { error: JmapError::Transport("cut".to_owned()), shown: "cut".to_owned() };
    match export_one(&message(), &mapped(), false, reads(), EmailEvent::Uploaded(Err(trouble)), STAMP) {
        EmailStep::Settled(v) => {
            assert_eq!(v.tally, Tally::Failed);
            assert!(recorded(&v).error_detail.contains("cut"));
        }
        _ => panic!("expected an end"),
    }
}

#[test]
fn imports_are_read_by_their_id() {
    let made = json(r#"{"created": {"e5": {"id": "E1"}}}"#);
    assert!(matches!(send_single_import(&made, "e5"), SingleImport::Created));
    let exists = json(r#"{"notCreated": {"e5": {"type": "alreadyExists"}}}"#);
    assert!(matches!(send_single_import(&exists, "e5"), SingleImport::Skipped));
    let no = json(r#"{"notCreated": {"e5": {"type": "blobNotFound"}}}"#);
    assert!(matches!(send_single_import(&no, "e5"), SingleImport::NotCreated { .. }));
    assert!(matches!(send_single_import(&json("{}"), "e5"), SingleImport::NotCreated { .. }));
}

#[test]
fn messages_on_the_target_are_left_out() {
    let hits = email::reconcile(&vec!["k1".to_owned(), "k2".to_owned()], &vec!["k2".to_owned()]);
    assert_eq!(hits, vec![false, true]);
    let i = server_index(&json(
        r#"{"messageId": ["m@x"], "from": [{"email": "a@x"}], "to": [{"email": "b@x"}], "subject": "s", "sentAt": "t"}"#,
    ));
    assert_eq!(i.mids, vec!["m@x".to_owned()]);
    assert_eq!(i.from, vec!["a@x".to_owned()]);
    assert_eq!(i.to, vec!["b@x".to_owned()]);
    assert_eq!((i.subject.as_str(), i.sent_at.as_str()), ("s", "t"));
}

#[test]
fn kinds_are_worked_on_in_order() {
    let all = ObjectType::all();
    let some = vec![ObjectType::Email, ObjectType::Mailbox];
    assert_eq!(work_list(Some(&some), &all, &all, false), vec![ObjectType::Mailbox, ObjectType::Email]);
    assert_eq!(work_list(None, &some, &vec![ObjectType::Email], false), vec![ObjectType::Email]);
    assert_eq!(work_list(None, &all, &all, false).len(), all.len());
    assert_eq!(work_list(Some(&some), &Vec::new(), &all, false), Vec::new());
    assert_eq!(work_list(Some(&some), &Vec::new(), &all, true), vec![ObjectType::Mailbox, ObjectType::Email]);
    assert_eq!(work_list(None, &Vec::new(), &all, true), Vec::new());
    assert_eq!(work_list(Some(&some), &Vec::new(), &vec![ObjectType::Email], true), vec![ObjectType::Email]);
    assert_eq!(reconcile_type(ObjectType::Email), Pass::Email);
    assert_eq!(reconcile_type(ObjectType::SieveScript), Pass::Sieve);
}

fn plan(ids: &[&str]) -> Plan {
    Plan { prune_candidates: ids.iter().map(|i| (*i).to_owned()).collect(), active_sieve_target: None }
}

#[test]
fn nothing_is_removed_without_consent() {
    let none = vec![plan(&[])];
    let some = vec![plan(&["A"]), plan(&["B", "C"])];
    assert_eq!(prune_total(&some), 3);
    assert_eq!(prune_phase(&none, true, false, true, true), PruneStep::Nothing);
    assert_eq!(prune_phase(&some, false, false, true, true), PruneStep::Nothing);
    assert_eq!(prune_phase(&some, true, true, true, true), PruneStep::Nothing);
    assert_eq!(prune_phase(&some, true, false, true, false), PruneStep::Destroy);
    assert_eq!(prune_phase(&some, true, false, false, true), PruneStep::Ask);
    assert!(confirm("yes\n").is_ok());
    assert!(matches!(confirm("no\n"), Err(Error::PruneAborted)));
    assert!(matches!(confirm(""), Err(Error::PruneAborted)));
}

#[test]
fn removal_goes_backwards() {
    assert_eq!(removal_order(&vec![plan(&["A"]), plan(&[]), plan(&["B"])]), vec![2, 0]);
    let call = do_destroy("acc", ObjectType::Mailbox, &plan(&["A", "B"]));
    assert!(call.get("destroy").unwrap().equals(&json(r#"["A","B"]"#)));
    assert_eq!(call.get("accountId").unwrap().as_str(), Some("acc"));
    let mut c = TypeCounts::default();
    let mut reply = outcome();
    reply.destroyed.push("A".to_owned());
    reply.not_destroyed.push(entry("B", "{}"));
    count_destroyed(&mut c, 2, &Ok(reply));
    count_destroyed(&mut c, 2, &Err("down".to_owned()));
    assert_eq!((c.deleted, c.skipped, c.failed), (1, 1, 2));
    assert_eq!(
        shown(&deactivate_active_sieve_script("acc")),
        r#"{"accountId":"acc","onSuccessDeactivateScript":true}"#
    );
}

#[test]
fn plans_are_shown_with_a_sample() {
    let ids: Vec<String> = "a b c d e f".split(' ').map(str::to_owned).collect();
    assert_eq!(sample(&ids), "a, b, c, d, e");
    assert_eq!(sample(&Vec::new()), "");
    assert_eq!(
        prune_plan_line(ObjectType::Mailbox, &plan(&["A", "B"])),
        format!("  {:<22} {:>6} candidate(s); sample: A, B", "Mailbox", 2)
    );
}

#[test]
fn a_dry_run_prints_a_table() {
    let rows = vec![DryRow { ty: ObjectType::Email, created: 3, matched: 4, removed: 5 }];
    assert_eq!(
        print_dry_run(&rows, true),
        vec![
            format!("{:<22} {:>10} {:>10} {:>12}", "TYPE", "CREATE", "MATCHED", "WOULD-DESTROY"),
            format!("{:<22} {:>10} {:>10} {:>12}", "Email", 3, 4, 5),
        ]
    );
    assert_eq!(print_dry_run(&rows, false)[1], format!("{:<22} {:>10} {:>10}", "Email", 3, 4));
}

#[test]
fn a_run_sums_up_its_kinds() {
    let mut r = Run::begin(vec![ObjectType::Mailbox, ObjectType::Email]);
    assert_eq!(r.next_kind(), Some(ObjectType::Mailbox));
    r.finish_kind(Ok(plan(&["A"])), TypeCounts::default(), None, false);
    r.finish_kind(
        Err(Error::Partial("x".to_owned())),
        TypeCounts::default(),
        Some("unwritten".to_owned()),
        false,
    );
    assert_eq!(r.next_kind(), None);
    let s = run(r, 2, 1, false);
    assert_eq!(s.per_type.len(), 2);
    assert_eq!(s.per_type[1].1.failed, 1);
    assert_eq!(s.unrecorded_failures, vec!["unwritten".to_owned()]);
    assert_eq!((s.retries_observed, s.retry_after_sleeps), (2, 1));
}

#[test]
fn only_unmatched_objects_are_removed() {
    let o = |id: &str, matched: bool, protected: bool, may_delete: bool| TargetObj {
        id: id.to_owned(),
        matched,
        protected,
        may_delete,
    };
    let all = vec![
        o("A", true, false, true),
        o("B", false, false, true),
        o("C", false, true, true),
        o("D", false, false, false),
    ];
    assert_eq!(candidates(&all), vec!["B".to_owned()]);
}

#[test]
fn an_update_that_misses_a_blob_is_sent_once_more() {
    let ty = ObjectType::CalendarEvent;
    let missed = || {
        let mut o = outcome();
        o.not_updated.push(entry("A", r#"{"type": "blobNotFound"}"#));
        o
    };
    let mut u = Uploader::new();
    u.uploaded(3, "B1".to_owned());
    let touched = vec![3];
    let first = match retry_update_if_blob_missing("A", &mut u, &touched, SendEvent::Answered(missed())) {
        SendStep::Rebuild { first } => first,
        _ => panic!("expected another build"),
    };
    assert_eq!(first.as_deref(), Some("B1"));
    assert_eq!(u.cached(3), None);
    u.uploaded(3, "B2".to_owned());
    let built = SendEvent::Rebuilt { first, wire: Ok(json(r#"{"title": "t"}"#)) };
    let retry = match retry_update_if_blob_missing("A", &mut u, &touched, built) {
        SendStep::Send { objects, retry } => {
            assert_eq!(objects.len(), 1);
            assert_eq!(objects[0].0, "A");
            assert_eq!(objects[0].1.str_at("title"), Some("t"));
            retry
        }
        _ => panic!("expected another attempt"),
    };
    let answered = SendEvent::AnsweredAgain { retry, reply: Ok(missed()) };
    match retry_update_if_blob_missing("A", &mut u, &touched, answered) {
        SendStep::Done { outcome, retry } => {
            assert_eq!(outcome.not_updated.len(), 1);
            let retry = retry.expect("both uploads are known");
            assert_eq!((retry.first.as_str(), retry.second.as_str()), ("B1", "B2"));
        }
        _ => panic!("expected an end"),
    }
    let v = update_failed(ty, 1, "A", "cut", None, STAMP);
    assert_eq!(recorded(&v).error_type, "updateFailed");
    assert_eq!(recorded(&v).error_detail, "target A: cut");
    assert_eq!(recorded(&v).client_id, make_update_id(1));
    let v = update_retry_failed(ty, 1, "A", "cut", Some(reads()), STAMP);
    assert_eq!(recorded(&v).error_type, "updateRetryFailed");
    let retry = BlobRetry { first: "B1".to_owned(), second: "B2".to_owned() };
    match finish_update(ty, 1, "A", &missed(), Some(reads()), Some(&retry), STAMP) {
        UpdateStep::Refused(r) => {
            assert_eq!(r.probe.as_deref(), Some("B2"));
            let v = settle_refusal(r, Some(Ok(BlobLookup::NotFound)), Some("A".to_owned()));
            assert_eq!(recorded(&v).blob_probe, PROBE_ORPHANED_MARKER);
            assert_eq!(v.target.as_deref(), Some("A"));
        }
        _ => panic!("expected a refusal"),
    }
}

#[test]
fn scripts_that_cannot_be_sent_are_recorded() {
    let v = upload_failed(&script(4, "a", false), Some(reads()), "cut".to_owned(), STAMP);
    assert_eq!(recorded(&v).error_type, "blobUploadFailed");
    assert_eq!(recorded(&v).client_id, "c4");
    let v = retry_failed(ObjectType::SieveScript, 4, None, "cut", STAMP);
    assert_eq!(recorded(&v).error_type, "buildFailed");
    assert_eq!(recorded(&v).error_detail, "rebuilding after blobNotFound: cut");
    assert!(matches!(missing_blob(7), JmapError::Malformed(ref m) if m == "blob local id 7 missing"));
}

#[test]
fn an_object_that_misses_a_blob_is_created_once_more() {
    let missed = || {
        let mut o = outcome();
        o.not_created.push(entry("c4", r#"{"type": "blobNotFound"}"#));
        o
    };
    let mut u = Uploader::new();
    u.uploaded(3, "B1".to_owned());
    u.uploaded(9, "B9".to_owned());
    let touched = vec![3, 8];
    match retry_if_blob_missing("c5", &mut u, &touched, SendEvent::Answered(missed())) {
        SendStep::Done { outcome, retry } => {
            assert_eq!(outcome.not_created.len(), 1);
            assert!(retry.is_none());
        }
        _ => panic!("expected an end"),
    }
    assert_eq!(u.cached(3).as_deref(), Some("B1"));
    let first = match retry_if_blob_missing("c4", &mut u, &touched, SendEvent::Answered(missed())) {
        SendStep::Rebuild { first } => first,
        _ => panic!("expected another build"),
    };
    assert!(first.is_none(), "two blobs name none");
    assert_eq!((u.cached(3), u.cached(9).as_deref()), (None, Some("B9")));
    let failed = SendEvent::Rebuilt { first: None, wire: Err("gone".to_owned()) };
    assert!(matches!(
        retry_if_blob_missing("c4", &mut u, &touched, failed),
        SendStep::Failed(ref why) if why == "gone"
    ));
    let built = SendEvent::Rebuilt { first, wire: Ok(json(r#"{"name": "n"}"#)) };
    match retry_if_blob_missing("c4", &mut u, &touched, built) {
        SendStep::Send { objects, retry } => {
            assert_eq!(objects[0].0, "c4");
            assert!(retry.is_none());
        }
        _ => panic!("expected another attempt"),
    }
    let cut = SendEvent::AnsweredAgain { retry: None, reply: Err("cut".to_owned()) };
    assert!(matches!(retry_if_blob_missing("c4", &mut u, &touched, cut), SendStep::Failed(ref why) if why == "cut"));
    let again = SendEvent::AnsweredAgain { retry: None, reply: Ok(missed()) };
    assert!(matches!(retry_if_blob_missing("c4", &mut u, &touched, again), SendStep::Done { .. }));
}

#[test]
fn export_prune_selected_empty_calendar_event_surface_removes_target_only_events() {
    let selected = vec![ObjectType::CalendarEvent];
    let work = work_list(Some(&selected), &Vec::new(), &ObjectType::all(), true);
    let mut r = Run::begin(work);
    assert_eq!(r.next_kind(), Some(ObjectType::CalendarEvent));
    let targets = vec![json(
        r#"{"id": "STALE", "@type": "Event", "uid": "target-only", "calendarIds": {"C": true},
            "isDraft": false, "useDefaultAlerts": false}"#,
    )];
    let pairs = uidtype::reconcile(&Vec::new(), &targets);
    let found = Plan {
        prune_candidates: candidates(&uidtype::prune_objects(&targets, &pairs.matched)),
        active_sieve_target: None,
    };
    r.finish_kind(Ok(found), TypeCounts::default(), None, false);
    assert_eq!(r.next_kind(), None);
    assert_eq!(prune_phase(&r.plans, true, false, true, false), PruneStep::Destroy);
    assert_eq!(removal_order(&r.plans), vec![0]);
    let call = do_destroy("w", r.work[0], &r.plans[0]);
    assert_eq!(shown(&call), r#"{"accountId":"w","destroy":["STALE"]}"#);
    let mut reply = outcome();
    reply.destroyed.push("STALE".to_owned());
    r.finish_removal(0, &Ok(reply));
    let summary = run(r, 0, 0, false);
    assert_eq!(summary.per_type.len(), 1);
    assert_eq!(summary.per_type[0].0, ObjectType::CalendarEvent);
    let counts = &summary.per_type[0].1;
    assert_eq!(counts.created, 0);
    assert_eq!(counts.deleted, 1);
    assert_eq!(counts.failed, 0);
}

#[test]
fn export_email_blake3_fallback_matches_when_no_message_id() {
    let short = vec![json(r#"{"id": "X1", "messageId": []}"#)];
    assert_eq!(fallback_ids(&short), vec!["X1".to_owned()]);
    let full = vec![json(
        r#"{"id": "X1", "messageId": [], "from": [{"email": "a@x"}], "subject": "hello", "sentAt": "", "to": []}"#,
    )];
    let indices = completed(&short, &full);
    assert_eq!(indices.len(), 1);
    assert!(indices[0].mids.is_empty());
    assert_eq!(indices[0].from, vec!["a@x".to_owned()]);
    assert_eq!(indices[0].subject, "hello");
    let hits = email::reconcile(&vec!["k".to_owned()], &vec!["k".to_owned()]);
    let mut counts = TypeCounts::default();
    let v = matched(&message(), hits[0]).expect("the target has it");
    assert!(matches!(v.entry, Entry::Resolve));
    count_outcome(&mut counts, v.tally);
    assert_eq!(counts.skipped, 1);
    assert_eq!(counts.created, 0);
    assert_eq!(counts.failed, 0);
    assert!(matched(&message(), false).is_none());
}

#[test]
fn only_messages_without_a_message_id_are_asked_for_again() {
    let short = vec![
        json(r#"{"id": "A", "messageId": ["a@x"]}"#),
        json(r#"{"id": "B"}"#),
        json(r#"{"messageId": []}"#),
        json(r#"{"id": "C", "messageId": [7]}"#),
    ];
    assert_eq!(fallback_ids(&short), vec!["B".to_owned(), "C".to_owned()]);
    let full = vec![
        json(r#"{"id": "B", "subject": "first"}"#),
        json(r#"{"id": "B", "subject": "last"}"#),
        json(r#"{"id": "Z", "subject": "other"}"#),
    ];
    let indices = completed(&short, &full);
    let subjects: Vec<&str> = indices.iter().map(|i| i.subject.as_str()).collect();
    assert_eq!(subjects, vec!["", "last", "", ""]);
    assert_eq!(indices[0].mids, vec!["a@x".to_owned()]);
    assert_eq!(first_properties(), vec!["messageId"]);
    assert_eq!(fallback_properties(), vec!["messageId", "from", "subject", "sentAt", "to"]);
    assert_eq!(target_properties().len(), 12);
    assert_eq!(control_properties().len(), 4);
}

#[test]
fn warnings_name_a_message_and_its_size() {
    let mut m = message();
    assert_eq!(blob_hint(&m, &Ok(Some("2 KiB".to_owned()))), "message-id <m@x>, 2 KiB");
    assert_eq!(blob_hint(&m, &Ok(None)), "message-id <m@x>");
    m.message_id = None;
    assert_eq!(blob_hint(&m, &Err("busy".to_owned())), "no message-id, size unreadable: busy");
}

#[test]
fn free_namesakes_are_matched_and_nameless_collections_are_not() {
    let mut inp = flat_input(
        vec![(1, "WORK".to_owned(), false), (2, "Work".to_owned(), false), (3, "Work".to_owned(), false)],
        (0..3).map(|_| Ok(json(r#"{"name": "Work"}"#))).collect(),
    );
    inp.targets = vec![
        json(r#"{"id": "T0"}"#),
        json(r#"{"id": "T1", "name": "Work"}"#),
        json(r#"{"id": "T2", "name": "Work"}"#),
    ];
    inp.target_keys = inp.targets.iter().map(|t| t.str_at("name").map(str::to_lowercase)).collect();
    let plan = flat::reconcile(&inp).unwrap();
    assert_eq!(plan.hits, vec![Some(1), Some(2), None]);
}

/// An object after an update, on a target that takes `null` for removal.
fn updated(target: &Json, patch: &JsonObject) -> Json {
    let mut now = JsonObject::new();
    let old = match target {
        Json::Object(o) => o,
        _ => panic!("an object"),
    };
    for i in 0..old.len() {
        if !patch.contains_key(old.key_at(i)) {
            now.insert(old.key_at(i).to_owned(), old.value_at(i).copy());
        }
    }
    for i in 0..patch.len() {
        if !matches!(patch.value_at(i), Json::Null) {
            now.insert(patch.key_at(i).to_owned(), patch.value_at(i).copy());
        }
    }
    Json::Object(now)
}

#[test]
fn updates_converge_where_null_removes() {
    let target = json(r#"{"title": "old", "description": "gone", "hideAttendees": true, "color": "red"}"#);
    let desired = json(r#"{"title": "new", "color": "red"}"#);
    let patch = calendar_event_update_patch(&target, &desired);
    assert_eq!(shown(&patch), r#"{"description":null,"hideAttendees":false,"title":"new"}"#);
    let now = updated(&target, &patch);
    assert!(now.get("description").is_none());
    assert!(calendar_event_update_patch(&now, &desired).is_empty());
    let stuck = json(r#"{"title": null}"#);
    let again = updated(&target, &calendar_event_update_patch(&target, &stuck));
    assert!(!calendar_event_update_patch(&again, &stuck).is_empty(), "a wanted null is asked for again");
}
