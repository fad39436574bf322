//! Address books and calendars: collections without parents.

use vstd::prelude::*;
use vstd::string::*;

use crate::error::{Error, ErrorView};
use crate::json::{equal, views, Json, JsonObject, JsonView};
use crate::sync::export::common::{
    arrived, created_object, creation_id, entries, failed, failure, find_entry, jid, lookup,
    make_creation_id, make_update_id, on_target, parse_creation_id, update_id, verdicts, Entry, EntryView,
    SetOutcome, Tally, Verdict, VerdictView,
};
use crate::sync::export::quarantine::{
    local_failure_view, record_local_failure, record_refusal, record_update_refusal, refusal_error,
    refusal_view,
};
use crate::sync::prune::TargetObj;
use crate::text;
use crate::types::ObjectType;

verus! {

/// The local ids of the collections among the first `n` that are declared the
/// default.
pub open spec fn declared(locals: Seq<(i64, String, bool)>, n: nat) -> Seq<i64>
    decreases n,
{
    if n == 0 || n > locals.len() {
        Seq::empty()
    } else if locals[n - 1].2 {
        declared(locals, (n - 1) as nat).push(locals[n - 1].0)
    } else {
        declared(locals, (n - 1) as nat)
    }
}

/// The least local id of the first `n` collections.
pub open spec fn least(locals: Seq<(i64, String, bool)>, n: nat) -> Option<i64>
    decreases n,
{
    if n == 0 || n > locals.len() {
        None
    } else {
        match least(locals, (n - 1) as nat) {
            None => Some(locals[n - 1].0),
            Some(m) => if locals[n - 1].0 < m {
                Some(locals[n - 1].0)
            } else {
                Some(m)
            },
        }
    }
}

/// Numbers in decimal.
pub open spec fn number_texts(v: Seq<i64>) -> Seq<Seq<char>> {
    Seq::new(v.len(), |i: int| text::integer_text(v[i] as int))
}

/// The calendar that becomes the default of the target, and whether that was
/// inferred: the declared one; where none is declared and the target has a
/// default, the one with the least id. More than one is refused.
pub open spec fn source_default(locals: Seq<(i64, String, bool)>, target_has_default: bool) -> Result<
    (Option<i64>, bool),
    ErrorView,
> {
    let d = declared(locals, locals.len());
    if d.len() == 0 {
        if target_has_default {
            Ok((least(locals, locals.len()), locals.len() > 0))
        } else {
            Ok((None, false))
        }
    } else if d.len() == 1 {
        Ok((Some(d[0]), false))
    } else {
        Err(
            ErrorView::Partial(
                "calendar archive declares "@ + text::decimal_text(d.len()) + (" defaults ("@
                    + text::join_text(number_texts(d), ", "@) + ")"@),
            ),
        )
    }
}

/// See [`source_default`].
pub fn source_default_calendar(locals: &Vec<(i64, String, bool)>, target_has_default: bool) -> (r: Result<
    (Option<i64>, bool),
    Error,
>)
    ensures
        match r {
            Ok(v) => source_default(locals@, target_has_default) == Ok::<(Option<i64>, bool), ErrorView>(v),
            Err(e) => source_default(locals@, target_has_default) == Err::<(Option<i64>, bool), ErrorView>(
                e@,
            ),
        },
{
    let mut defaults: Vec<i64> = Vec::new();
    let mut min: Option<i64> = None;
    let mut i: usize = 0;
    while i < locals.len()
        invariant
            i <= locals.len(),
            defaults@ == declared(locals@, i as nat),
            min == least(locals@, i as nat),
        decreases locals.len() - i,
    {
        let local: i64 = locals[i].0;
        if locals[i].2 {
            defaults.push(local);
        }
        min = match min {
            None => Some(local),
            Some(m) => if local < m {
                Some(local)
            } else {
                Some(m)
            },
        };
        i += 1;
    }
    if defaults.len() == 0 {
        return if target_has_default {
            Ok((min, locals.len() > 0))
        } else {
            Ok((None, false))
        };
    }
    if defaults.len() == 1 {
        return Ok((Some(defaults[0]), false));
    }
    let mut shown: Vec<String> = Vec::new();
    let mut k: usize = 0;
    while k < defaults.len()
        invariant
            k <= defaults.len(),
            shown.len() == k,
            forall|j: int| 0 <= j < k ==> (#[trigger] shown@[j])@ == text::integer_text(defaults@[j] as int),
        decreases defaults.len() - k,
    {
        shown.push(text::integer(defaults[k]));
        k += 1;
    }
    assert(text::texts(shown@) =~= number_texts(defaults@));
    let tail = text::joined3(" defaults (", text::join(&shown, ", ").as_str(), ")");
    Err(
        Error::Partial(
            text::joined3(
                "calendar archive declares ",
                text::decimal(defaults.len() as u128).as_str(),
                tail.as_str(),
            ),
        ),
    )
}

/// A collection as it goes to the target: without the mark of a default, which
/// is set by a call of its own.
pub open spec fn wire_of(row: JsonView) -> JsonView {
    match row {
        JsonView::Object(m) => JsonView::Object(m.remove("isDefault"@)),
        _ => row,
    }
}

/// See [`wire_of`].
pub fn build_wire(row: &Json) -> (r: Json)
    ensures
        r@ == wire_of(row@),
{
    match row {
        Json::Object(m) => Json::Object(m.without("isDefault")),
        _ => row.copy(),
    }
}

/// Members with a key bound where it is not.
pub open spec fn defaulted(m: Map<Seq<char>, JsonView>, k: Seq<char>, v: JsonView) -> Map<Seq<char>, JsonView> {
    if m.dom().contains(k) {
        m
    } else {
        m.insert(k, v)
    }
}

fn fill(o: &mut JsonObject, key: &str, value: Json)
    ensures
        final(o)@ == defaulted(old(o)@, key@, value@),
{
    if !o.contains_key(key) {
        o.insert(key.to_owned(), value);
    }
}

/// A complete update of a calendar: what the archive does not hold is cleared on
/// the target.
pub open spec fn update_wire(row: JsonView) -> Option<JsonView> {
    match wire_of(row) {
        JsonView::Object(m) => {
            let empty = JsonView::Object(Map::<Seq<char>, JsonView>::empty());
            let m = defaulted(m, "description"@, JsonView::Null);
            let m = defaulted(m, "color"@, JsonView::Null);
            let m = defaulted(m, "timeZone"@, JsonView::Null);
            let m = defaulted(m, "defaultAlertsWithTime"@, empty);
            let m = defaulted(m, "defaultAlertsWithoutTime"@, empty);
            Some(JsonView::Object(m))
        },
        _ => None,
    }
}

/// See [`update_wire`].
pub fn build_calendar_update_wire(row: &Json) -> (r: Option<Json>)
    ensures
        match r {
            Some(j) => update_wire(row@) == Some(j@),
            None => update_wire(row@) is None,
        },
{
    match build_wire(row) {
        Json::Object(m) => {
            let mut o = m;
            fill(&mut o, "description", Json::Null);
            fill(&mut o, "color", Json::Null);
            fill(&mut o, "timeZone", Json::Null);
            fill(&mut o, "defaultAlertsWithTime", Json::Object(JsonObject::new()));
            fill(&mut o, "defaultAlertsWithoutTime", Json::Object(JsonObject::new()));
            Some(Json::Object(o))
        },
        _ => None,
    }
}

/// Whether a calendar of the target has a property as it is wanted.
pub open spec fn property_matches(target: JsonView, desired: JsonView, p: Seq<char>) -> bool {
    match (target.field(p), desired.field(p)) {
        (Some(t), Some(d)) => equal(t, d),
        _ => false,
    }
}

/// See [`property_matches`].
fn calendar_property_matches(target: &Json, desired: &Json, property: &str) -> (r: bool)
    ensures
        r == property_matches(target@, desired@, property@),
{
    match (target.get(property), desired.get(property)) {
        (Some(t), Some(d)) => t.equals(d),
        _ => false,
    }
}

/// The properties of a calendar that are brought in line.
pub open spec fn update_properties() -> Seq<Seq<char>> {
    seq![
        "name"@,
        "description"@,
        "color"@,
        "sortOrder"@,
        "isSubscribed"@,
        "isVisible"@,
        "includeInAvailability"@,
        "defaultAlertsWithTime"@,
        "defaultAlertsWithoutTime"@,
        "timeZone"@,
    ]
}

/// Whether a calendar of the target differs from what is wanted.
pub open spec fn needs_update(target: JsonView, desired: JsonView) -> bool {
    exists|i: int|
        0 <= i < update_properties().len() && !property_matches(
            target,
            desired,
            #[trigger] update_properties()[i],
        )
}

/// See [`needs_update`].
pub fn calendar_needs_update(target: &Json, desired: &Json) -> (r: bool)
    ensures
        r == needs_update(target@, desired@),
{
    let ghost p = update_properties();
    let all = calendar_property_matches(target, desired, "name") && calendar_property_matches(
        target,
        desired,
        "description",
    ) && calendar_property_matches(target, desired, "color") && calendar_property_matches(
        target,
        desired,
        "sortOrder",
    ) && calendar_property_matches(target, desired, "isSubscribed") && calendar_property_matches(
        target,
        desired,
        "isVisible",
    ) && calendar_property_matches(target, desired, "includeInAvailability") && calendar_property_matches(
        target,
        desired,
        "defaultAlertsWithTime",
    ) && calendar_property_matches(target, desired, "defaultAlertsWithoutTime") && calendar_property_matches(
        target,
        desired,
        "timeZone",
    );
    proof {
        assert(p[0] == "name"@ && p[1] == "description"@ && p[2] == "color"@ && p[3] == "sortOrder"@ && p[4]
            == "isSubscribed"@ && p[5] == "isVisible"@ && p[6] == "includeInAvailability"@ && p[7]
            == "defaultAlertsWithTime"@ && p[8] == "defaultAlertsWithoutTime"@ && p[9] == "timeZone"@);
    }
    !all
}

/// The properties that the calendars of the target are asked for with: those that
/// are brought in line, and those that decide on defaults and removal.
pub fn target_properties() -> (r: Vec<&'static str>)
    ensures
        text::strs(r@) == seq![
            "name"@,
            "description"@,
            "color"@,
            "sortOrder"@,
            "isSubscribed"@,
            "isVisible"@,
            "isDefault"@,
            "includeInAvailability"@,
            "defaultAlertsWithTime"@,
            "defaultAlertsWithoutTime"@,
            "timeZone"@,
            "myRights"@,
        ],
{
    let r: Vec<&'static str> = vec![
        "name",
        "description",
        "color",
        "sortOrder",
        "isSubscribed",
        "isVisible",
        "isDefault",
        "includeInAvailability",
        "defaultAlertsWithTime",
        "defaultAlertsWithoutTime",
        "timeZone",
        "myRights",
    ];
    assert(text::strs(r@) =~= seq![
            "name"@,
            "description"@,
            "color"@,
            "sortOrder"@,
            "isSubscribed"@,
            "isVisible"@,
            "isDefault"@,
            "includeInAvailability"@,
            "defaultAlertsWithTime"@,
            "defaultAlertsWithoutTime"@,
            "timeZone"@,
            "myRights"@,
    ]);
    r
}

/// What the matching of collections starts from: the kind, the collections of
/// the archive with the keys of their names, those of the target with the keys
/// of theirs, and the rows of the archive as they would be sent.
pub struct FlatInput {
    pub ty: ObjectType,
    pub locals: Vec<(i64, String, bool)>,
    pub keys: Vec<String>,
    pub targets: Vec<Json>,
    pub target_keys: Vec<Option<String>>,
    pub rows: Vec<Result<Json, String>>,
    pub stamp: String,
}

impl FlatInput {
    /// The lists belong together, and the keys are those of the names.
    pub open spec fn aligned(&self) -> bool {
        &&& self.keys@.len() == self.locals@.len()
        &&& self.rows@.len() == self.locals@.len()
        &&& self.target_keys@.len() == self.targets@.len()
        &&& self.keyed()
    }

    /// A collection of the target has a key exactly where it has a name, and equal
    /// names have equal keys, on either side and across.
    pub open spec fn keyed(&self) -> bool {
        &&& forall|j: int|
            0 <= j < self.targets@.len() ==> (#[trigger] self.target_keys@[j] is Some <==> self.target_name(j) is Some)
        &&& forall|a: int, b: int|
            #![trigger self.keys@[a], self.keys@[b]]
            0 <= a < self.locals@.len() && 0 <= b < self.locals@.len() && self.locals@[a].1@ == self.locals@[b].1@
                ==> self.keys@[a]@ == self.keys@[b]@
        &&& forall|a: int, j: int|
            #![trigger self.keys@[a], self.target_keys@[j]]
            0 <= a < self.locals@.len() && 0 <= j < self.targets@.len() && self.target_name(j) == Some(
                self.locals@[a].1@,
            ) ==> text::opt_text(self.target_keys@[j]) == Some(self.keys@[a]@)
        &&& forall|j: int, k: int|
            #![trigger self.target_keys@[j], self.target_keys@[k]]
            0 <= j < self.targets@.len() && 0 <= k < self.targets@.len() && self.target_name(j) == self.target_name(k)
                ==> text::opt_text(self.target_keys@[j]) == text::opt_text(self.target_keys@[k])
    }

    /// The name of a collection of the target.
    pub open spec fn target_name(&self, j: int) -> Option<Seq<char>> {
        self.targets@[j]@.text_at("name"@)
    }

    /// The id of a collection of the target.
    pub open spec fn id(&self, j: int) -> Option<Seq<char>> {
        self.targets@[j]@.text_at("id"@)
    }

    /// The default collection of the target, from place `n` on.
    pub open spec fn default_from(&self, n: nat) -> Option<int>
        decreases self.targets@.len() - n,
    {
        if n >= self.targets@.len() {
            None
        } else if self.targets@[n as int]@.bool_at("isDefault"@) == Some(true) && self.id(n as int) is Some {
            Some(n as int)
        } else {
            self.default_from(n + 1)
        }
    }

    /// The default calendar of the target.
    pub open spec fn target_default(&self) -> Option<int> {
        if self.ty == ObjectType::Calendar {
            self.default_from(0)
        } else {
            None
        }
    }

    /// The calendar of the archive that is to be the default.
    pub open spec fn chosen(&self) -> Result<(Option<i64>, bool), ErrorView> {
        if self.ty == ObjectType::Calendar {
            source_default(self.locals@, self.target_default() is Some)
        } else {
            Ok((None, false))
        }
    }

    /// Whether a collection of the target is kept for another one of the archive.
    pub open spec fn reserved(&self, source: Option<i64>, local: i64, j: int) -> bool {
        &&& source is Some
        &&& source != Some(local)
        &&& self.target_default() matches Some(d) && self.id(d) == self.id(j)
    }

    /// Whether a collection of the target matches one of the archive by name and
    /// is still free.
    pub open spec fn fits(&self, source: Option<i64>, i: int, j: int, matched: Seq<Seq<char>>) -> bool {
        &&& !self.reserved(source, self.locals@[i].0, j)
        &&& text::opt_text(self.target_keys@[j]) == Some(self.keys@[i]@)
        &&& self.id(j) matches Some(id) && !matched.contains(id)
    }

    /// The first collection of the target, from place `n` on, that fits.
    pub open spec fn first_fit(&self, source: Option<i64>, i: int, matched: Seq<Seq<char>>, n: nat) -> Option<int>
        decreases self.targets@.len() - n,
    {
        if n >= self.targets@.len() {
            None
        } else if self.fits(source, i, n as int, matched) {
            Some(n as int)
        } else {
            self.first_fit(source, i, matched, n + 1)
        }
    }

    /// The collection of the target that stands for one of the archive: the
    /// default for the default, else the first of that name that is free.
    pub open spec fn hit(&self, source: Option<i64>, i: int, matched: Seq<Seq<char>>) -> Option<int> {
        match self.target_default() {
            Some(d) => if source == Some(self.locals@[i].0) && !matched.contains(self.id(d)->0) {
                Some(d)
            } else {
                self.first_fit(source, i, matched, 0)
            },
            None => self.first_fit(source, i, matched, 0),
        }
    }

    /// The row of a collection that could not be built.
    pub open spec fn unbuilt(&self, prefix: Seq<char>, i: int, why: Seq<char>) -> VerdictView {
        let local = self.locals@[i].0;
        failed(
            local,
            local_failure_view(
                self.ty,
                local,
                prefix + text::integer_text(local as int),
                None,
                "buildFailed"@,
                why,
                self.stamp@,
            ),
            None,
        )
    }
}

/// What the matching has settled so far.
pub struct Matching {
    /// For each collection of the archive, the place of its counterpart.
    pub hits: Seq<Option<int>>,
    pub matched: Seq<Seq<char>>,
    pub verdicts: Seq<VerdictView>,
    pub updates: Seq<(i64, Seq<char>, JsonView)>,
    pub make_default: Option<(i64, Seq<char>)>,
    pub creates: Seq<(int, bool)>,
}

impl Matching {
    pub open spec fn start() -> Matching {
        Matching {
            hits: Seq::empty(),
            matched: Seq::empty(),
            verdicts: Seq::empty(),
            updates: Seq::empty(),
            make_default: None,
            creates: Seq::empty(),
        }
    }
}

/// Why there is no update for a row.
pub open spec fn update_of(row: Result<Json, String>) -> Result<JsonView, Seq<char>> {
    match row {
        Err(e) => Err(e@),
        Ok(j) => match update_wire(j@) {
            Some(w) => Ok(w),
            None => Err("calendar update is not an object"@),
        },
    }
}

/// What settles a collection that is matched: a calendar is brought in line, and
/// made the default where it is to be; an address book is left as it is.
pub open spec fn matched_step(inp: FlatInput, source: Option<i64>, m: Matching, i: int, j: int) -> Matching {
    let local = inp.locals@[i].0;
    let id = inp.id(j)->0;
    let n = Matching { hits: m.hits.push(Some(j)), matched: m.matched.push(id), ..m };
    if inp.ty == ObjectType::Calendar {
        let must = source == Some(local) && inp.targets@[j]@.bool_at("isDefault"@) != Some(true);
        let n = if must {
            Matching { make_default: Some((local, id)), ..n }
        } else {
            n
        };
        match update_of(inp.rows@[i]) {
            Ok(w) => if needs_update(inp.targets@[j]@, w) {
                Matching { updates: n.updates.push((local, id, w)), ..n }
            } else if must {
                n
            } else {
                Matching { verdicts: n.verdicts.push(on_target(local, Tally::Skipped, Some(id))), ..n }
            },
            Err(e) => Matching { verdicts: n.verdicts.push(inp.unbuilt("u"@, i, e)), ..n },
        }
    } else {
        Matching { verdicts: n.verdicts.push(on_target(local, Tally::Skipped, Some(id))), ..n }
    }
}

/// What settles a collection.
pub open spec fn step(inp: FlatInput, source: Option<i64>, m: Matching, i: int) -> Matching {
    match inp.hit(source, i, m.matched) {
        Some(j) => matched_step(inp, source, m, i, j),
        None => Matching {
            hits: m.hits.push(None),
            creates: m.creates.push(
                (
                    i,
                    if inp.ty == ObjectType::Calendar {
                        source == Some(inp.locals@[i].0)
                    } else {
                        inp.locals@[i].2
                    },
                ),
            ),
            ..m
        },
    }
}

/// The matching of the first `n` collections.
pub open spec fn matching(inp: FlatInput, source: Option<i64>, n: nat) -> Matching
    decreases n,
{
    if n == 0 || n > inp.locals@.len() {
        Matching::start()
    } else {
        step(inp, source, matching(inp, source, (n - 1) as nat), n - 1)
    }
}

/// How the collections of an archive are brought to a target.
pub struct FlatPlan {
    /// The calendar that is made the default although none is declared.
    pub inferred: Option<i64>,
    pub hits: Vec<Option<usize>>,
    pub matched: Vec<String>,
    pub verdicts: Vec<Verdict>,
    /// Calendars to bring in line: local id, id on the target, update.
    pub updates: Vec<(i64, String, Json)>,
    /// A calendar to make the default of the target.
    pub make_default: Option<(i64, String)>,
    /// Places of the collections to create, and whether each is to be a default.
    pub creates: Vec<(usize, bool)>,
}

/// The views of updates.
pub open spec fn update_views(u: Seq<(i64, String, Json)>) -> Seq<(i64, Seq<char>, JsonView)> {
    Seq::new(u.len(), |i: int| (u[i].0, u[i].1@, u[i].2@))
}

/// The views of hits.
pub open spec fn hit_views(h: Seq<Option<usize>>) -> Seq<Option<int>> {
    Seq::new(
        h.len(),
        |i: int|
            match h[i] {
                Some(j) => Some(j as int),
                None => None,
            },
    )
}

/// The views of creations.
pub open spec fn create_views(c: Seq<(usize, bool)>) -> Seq<(int, bool)> {
    Seq::new(c.len(), |i: int| (c[i].0 as int, c[i].1))
}

/// The view of a [`FlatPlan`].
pub struct PlanView {
    pub inferred: Option<i64>,
    pub matching: Matching,
}

impl View for FlatPlan {
    type V = PlanView;

    open spec fn view(&self) -> PlanView {
        PlanView { inferred: self.inferred, matching: self.settled() }
    }
}

impl FlatPlan {
    /// All of a plan but what was inferred.
    pub open spec fn settled(&self) -> Matching {
        Matching {
            hits: hit_views(self.hits@),
            matched: text::texts(self.matched@),
            verdicts: verdicts(self.verdicts@),
            updates: update_views(self.updates@),
            make_default: match self.make_default {
                Some((l, id)) => Some((l, id@)),
                None => None,
            },
            creates: create_views(self.creates@),
        }
    }
}

fn find_default(inp: &FlatInput) -> (r: Option<usize>)
    ensures
        match r {
            Some(j) => inp.target_default() == Some(j as int) && j < inp.targets@.len() && inp.id(j as int) is Some,
            None => inp.target_default() is None,
        },
{
    match inp.ty {
        ObjectType::Calendar => {},
        _ => {
            return None;
        },
    }
    let mut j: usize = 0;
    while j < inp.targets.len()
        invariant
            j <= inp.targets.len(),
            inp.ty == ObjectType::Calendar,
            inp.default_from(0) == inp.default_from(j as nat),
        decreases inp.targets.len() - j,
    {
        let t = &inp.targets[j];
        if t.str_at("id").is_some() {
            match t.bool_at("isDefault") {
                Some(true) => {
                    return Some(j);
                },
                _ => {},
            }
        }
        j += 1;
    }
    None
}

fn same_local(a: Option<i64>, b: i64) -> (r: bool)
    ensures
        r == (a == Some(b)),
{
    match a {
        Some(x) => x == b,
        None => false,
    }
}

fn find_hit(
    inp: &FlatInput,
    default: Option<usize>,
    source: Option<i64>,
    i: usize,
    matched: &Vec<String>,
) -> (r: Option<usize>)
    requires
        inp.aligned(),
        i < inp.locals@.len(),
        match default {
            Some(j) => inp.target_default() == Some(j as int) && j < inp.targets@.len() && inp.id(j as int) is Some,
            None => inp.target_default() is None,
        },
    ensures
        match r {
            Some(j) => inp.hit(source, i as int, text::texts(matched@)) == Some(j as int) && j < inp.targets@.len()
                && inp.id(j as int) is Some,
            None => inp.hit(source, i as int, text::texts(matched@)) is None,
        },
{
    let local: i64 = inp.locals[i].0;
    let ghost ids = text::texts(matched@);
    match default {
        Some(d) => if same_local(source, local) {
            match inp.targets[d].str_at("id") {
                Some(id) => if !text::listed(matched, id) {
                    return Some(d);
                },
                None => {},
            }
        },
        None => {},
    }
    let mut j: usize = 0;
    while j < inp.targets.len()
        invariant
            inp.aligned(),
            i < inp.locals@.len(),
            j <= inp.targets.len(),
            local == inp.locals@[i as int].0,
            ids == text::texts(matched@),
            match default {
                Some(d) => inp.target_default() == Some(d as int) && d < inp.targets@.len() && inp.id(d as int) is Some,
                None => inp.target_default() is None,
            },
            inp.first_fit(source, i as int, ids, 0) == inp.first_fit(source, i as int, ids, j as nat),
            inp.hit(source, i as int, ids) == inp.first_fit(source, i as int, ids, 0),
        decreases inp.targets.len() - j,
    {
        match inp.targets[j].str_at("id") {
            Some(id) => {
                let taken = match default {
                    Some(d) => match inp.targets[d].str_at("id") {
                        Some(other) => source.is_some() && !same_local(source, local) && text::same(other, id),
                        None => false,
                    },
                    None => false,
                };
                assert(taken == inp.reserved(source, local, j as int));
                if !taken && !text::listed(matched, id) {
                    match &inp.target_keys[j] {
                        Some(k) => if text::same(k.as_str(), inp.keys[i].as_str()) {
                            return Some(j);
                        },
                        None => {},
                    }
                }
            },
            None => {},
        }
        j += 1;
    }
    None
}

fn build_update(row: &Result<Json, String>) -> (r: Result<Json, String>)
    ensures
        match r {
            Ok(w) => update_of(*row) == Ok::<JsonView, Seq<char>>(w@),
            Err(e) => update_of(*row) == Err::<JsonView, Seq<char>>(e@),
        },
{
    match row {
        Err(e) => Err(e.clone()),
        Ok(j) => match build_calendar_update_wire(j) {
            Some(w) => Ok(w),
            None => Err("calendar update is not an object".to_owned()),
        },
    }
}

fn give_up(inp: &FlatInput, prefix: &str, i: usize, why: String) -> (r: Verdict)
    requires
        i < inp.locals@.len(),
    ensures
        r@ == inp.unbuilt(prefix@, i as int, why@),
{
    let local: i64 = inp.locals[i].0;
    let cid = text::joined(prefix, text::integer(local).as_str());
    failure(
        local,
        record_local_failure(inp.ty, local, cid.as_str(), None, "buildFailed", why, inp.stamp.as_str()),
        None,
    )
}

fn settle_matched(inp: &FlatInput, source: Option<i64>, plan: &mut FlatPlan, i: usize, j: usize)
    requires
        inp.aligned(),
        i < inp.locals@.len(),
        j < inp.targets@.len(),
        inp.id(j as int) is Some,
    ensures
        final(plan).settled() == matched_step(*inp, source, old(plan).settled(), i as int, j as int),
        final(plan).inferred == old(plan).inferred,
{
    let local: i64 = inp.locals[i].0;
    let id: String = match jid(&inp.targets[j]) {
        Some(id) => id,
        None => String::new(),
    };
    let ghost was = plan.settled();
    plan.hits.push(Some(j));
    assert(hit_views(plan.hits@) =~= was.hits.push(Some(j as int)));
    plan.matched.push(id.clone());
    assert(text::texts(plan.matched@) =~= was.matched.push(id@));
    match inp.ty {
        ObjectType::Calendar => {
            let declared = match inp.targets[j].bool_at("isDefault") {
                Some(true) => true,
                _ => false,
            };
            let must = same_local(source, local) && !declared;
            if must {
                plan.make_default = Some((local, id.clone()));
            }
            match build_update(&inp.rows[i]) {
                Ok(w) => if calendar_needs_update(&inp.targets[j], &w) {
                    plan.updates.push((local, id, w));
                    assert(update_views(plan.updates@) =~= was.updates.push(
                        (local, inp.id(j as int)->0, w@),
                    ));
                } else if !must {
                    plan.verdicts.push(arrived(local, Tally::Skipped, Some(id)));
                    assert(verdicts(plan.verdicts@) =~= was.verdicts.push(
                        on_target(local, Tally::Skipped, Some(id@)),
                    ));
                },
                Err(e) => {
                    let v = give_up(inp, "u", i, e);
                    plan.verdicts.push(v);
                    assert(verdicts(plan.verdicts@) =~= was.verdicts.push(v@));
                },
            }
        },
        _ => {
            plan.verdicts.push(arrived(local, Tally::Skipped, Some(id)));
            assert(verdicts(plan.verdicts@) =~= was.verdicts.push(
                on_target(local, Tally::Skipped, Some(id@)),
            ));
        },
    }
    assert(plan.settled() =~= matched_step(*inp, source, was, i as int, j as int));
}

/// Matches the collections of an archive with those of a target and settles what
/// is to be done with each. An archive that declares more than one default
/// calendar is refused as a whole.
pub fn reconcile(inp: &FlatInput) -> (r: Result<FlatPlan, Error>)
    requires
        inp.aligned(),
    ensures
        match inp.chosen() {
            Err(e) => r matches Err(x) && x@ == e,
            Ok((source, inferred)) => r matches Ok(p) && p@ == (PlanView {
                inferred: if inferred {
                    source
                } else {
                    None
                },
                matching: matching(*inp, source, inp.locals@.len()),
            }),
        },
{
    let default = find_default(inp);
    let (source, inferred) = match inp.ty {
        ObjectType::Calendar => match source_default_calendar(&inp.locals, default.is_some()) {
            Ok(v) => v,
            Err(e) => {
                return Err(e);
            },
        },
        _ => (None, false),
    };
    let mut plan = FlatPlan {
        inferred: if inferred {
            source
        } else {
            None
        },
        hits: Vec::new(),
        matched: Vec::new(),
        verdicts: Vec::new(),
        updates: Vec::new(),
        make_default: None,
        creates: Vec::new(),
    };
    assert(plan.settled().hits =~= Seq::<Option<int>>::empty());
    assert(plan.settled().matched =~= Seq::<Seq<char>>::empty());
    assert(plan.settled().verdicts =~= Seq::<VerdictView>::empty());
    assert(plan.settled().updates =~= Seq::<(i64, Seq<char>, JsonView)>::empty());
    assert(plan.settled().creates =~= Seq::<(int, bool)>::empty());
    let ghost kept = plan.inferred;
    let mut i: usize = 0;
    while i < inp.locals.len()
        invariant
            inp.aligned(),
            i <= inp.locals.len(),
            plan.inferred == kept,
            match default {
                Some(d) => inp.target_default() == Some(d as int) && d < inp.targets@.len() && inp.id(d as int) is Some,
                None => inp.target_default() is None,
            },
            plan.settled() == matching(*inp, source, i as nat),
        decreases inp.locals.len() - i,
    {
        let ghost was = plan.settled();
        match find_hit(inp, default, source, i, &plan.matched) {
            Some(j) => {
                settle_matched(inp, source, &mut plan, i, j);
            },
            None => {
                let flag = match inp.ty {
                    ObjectType::Calendar => same_local(source, inp.locals[i].0),
                    _ => inp.locals[i].2,
                };
                plan.hits.push(None);
                plan.creates.push((i, flag));
                assert(hit_views(plan.hits@) =~= was.hits.push(None));
                assert(create_views(plan.creates@) =~= was.creates.push((i as int, flag)));
            },
        }
        i += 1;
    }
    Ok(plan)
}

proof fn lemma_matched_ids(inp: FlatInput, source: Option<i64>, n: nat)
    requires
        inp.aligned(),
        n <= inp.locals@.len(),
    ensures
        ({
            let m = matching(inp, source, n);
            &&& m.hits.len() == n
            &&& forall|a: int|
                0 <= a < n ==> (#[trigger] m.hits[a] matches Some(j) ==> 0 <= j < inp.targets@.len() && (inp.id(j)
                    matches Some(id) && m.matched.contains(id)))
            &&& forall|a: int, b: int| #![trigger m.hits[a], m.hits[b]]
                0 <= a < b < n && m.hits[a] is Some && m.hits[b] is Some ==> inp.id(m.hits[a]->0) != inp.id(
                    m.hits[b]->0,
                )
        }),
    decreases n,
{
    if n > 0 {
        lemma_matched_ids(inp, source, (n - 1) as nat);
        let p = matching(inp, source, (n - 1) as nat);
        let m = matching(inp, source, n);
        let i = n - 1;
        lemma_hit(inp, source, i, p.matched);
        match inp.hit(source, i, p.matched) {
            Some(j) => {
                let id = inp.id(j)->0;
                assert(m.hits == p.hits.push(Some(j)));
                assert(m.matched == p.matched.push(id));
                assert(m.matched[p.matched.len() as int] == id);
                assert forall|a: int| 0 <= a < n implies (#[trigger] m.hits[a] matches Some(q) ==> 0 <= q
                    < inp.targets@.len() && (inp.id(q) matches Some(x) && m.matched.contains(x))) by {
                    if a < i && m.hits[a] is Some {
                        assert(p.hits[a] == m.hits[a]);
                        let x = inp.id(p.hits[a]->0)->0;
                        let w = choose|w: int| 0 <= w < p.matched.len() && p.matched[w] == x;
                        assert(m.matched[w] == x);
                    }
                }
                assert forall|a: int, b: int| #![trigger m.hits[a], m.hits[b]] 0 <= a < b < n && m.hits[a] is Some
                    && m.hits[b] is Some implies inp.id(m.hits[a]->0) != inp.id(m.hits[b]->0) by {
                    assert(p.hits[a] == m.hits[a]);
                    if b < i {
                        assert(p.hits[b] == m.hits[b]);
                    }
                }
            },
            None => {
                assert(m.hits == p.hits.push(None));
                assert forall|a: int, b: int| #![trigger m.hits[a], m.hits[b]] 0 <= a < b < n && m.hits[a] is Some
                    && m.hits[b] is Some implies inp.id(m.hits[a]->0) != inp.id(m.hits[b]->0) by {
                    assert(p.hits[a] == m.hits[a]);
                    assert(p.hits[b] == m.hits[b]);
                }
                assert forall|a: int| 0 <= a < n implies (#[trigger] m.hits[a] matches Some(q) ==> 0 <= q
                    < inp.targets@.len() && (inp.id(q) matches Some(x) && m.matched.contains(x))) by {
                    if a < i {
                        assert(p.hits[a] == m.hits[a]);
                    }
                }
            },
        }
    }
}

proof fn lemma_first_fit(inp: FlatInput, source: Option<i64>, i: int, matched: Seq<Seq<char>>, n: nat)
    ensures
        inp.first_fit(source, i, matched, n) matches Some(j) ==> n <= j < inp.targets@.len() && inp.fits(
            source,
            i,
            j,
            matched,
        ),
    decreases inp.targets@.len() - n,
{
    if n < inp.targets@.len() && !inp.fits(source, i, n as int, matched) {
        lemma_first_fit(inp, source, i, matched, n + 1);
    }
}

proof fn lemma_default(inp: FlatInput, n: nat)
    ensures
        inp.default_from(n) matches Some(d) ==> n <= d < inp.targets@.len() && inp.id(d) is Some,
    decreases inp.targets@.len() - n,
{
    if n < inp.targets@.len() {
        lemma_default(inp, n + 1);
    }
}

proof fn lemma_hit(inp: FlatInput, source: Option<i64>, i: int, matched: Seq<Seq<char>>)
    ensures
        inp.hit(source, i, matched) matches Some(j) ==> 0 <= j < inp.targets@.len() && (inp.id(j) matches Some(id)
            && !matched.contains(id)) && !inp.reserved(source, inp.locals@[i].0, j),
{
    lemma_first_fit(inp, source, i, matched, 0);
    lemma_default(inp, 0);
}

/// Collections are matched one to one: no two of the archive share a counterpart
/// on the target.
pub proof fn collections_are_matched_one_to_one(inp: FlatInput, source: Option<i64>, a: int, b: int)
    requires
        inp.aligned(),
        0 <= a < b < inp.locals@.len(),
        matching(inp, source, inp.locals@.len()).hits[a] is Some,
        matching(inp, source, inp.locals@.len()).hits[b] is Some,
    ensures
        ({
            let hits = matching(inp, source, inp.locals@.len()).hits;
            inp.id(hits[a]->0) != inp.id(hits[b]->0)
        }),
{
    lemma_matched_ids(inp, source, inp.locals@.len());
    let hits = matching(inp, source, inp.locals@.len()).hits;
    assert(hits[a] is Some && hits[b] is Some);
}

proof fn lemma_hits_grow(inp: FlatInput, source: Option<i64>, a: int, n: nat)
    requires
        inp.aligned(),
        0 <= a < n <= inp.locals@.len(),
    ensures
        matching(inp, source, n).hits.len() == n,
        matching(inp, source, n).hits[a] == inp.hit(source, a, matching(inp, source, a as nat).matched),
    decreases n,
{
    lemma_matched_ids(inp, source, n);
    lemma_matched_ids(inp, source, (n - 1) as nat);
    if a < n - 1 {
        lemma_hits_grow(inp, source, a, (n - 1) as nat);
    }
}

/// The default calendar of the target stands for no other than the default of
/// the archive, where that has one.
pub proof fn the_default_is_kept_for_the_default(inp: FlatInput, source: i64, a: int)
    requires
        inp.aligned(),
        0 <= a < inp.locals@.len(),
        inp.locals@[a].0 != source,
        matching(inp, Some(source), inp.locals@.len()).hits[a] is Some,
        inp.target_default() is Some,
    ensures
        inp.id(matching(inp, Some(source), inp.locals@.len()).hits[a]->0) != inp.id(inp.target_default()->0),
{
    lemma_hits_grow(inp, Some(source), a, inp.locals@.len());
    lemma_hit(inp, Some(source), a, matching(inp, Some(source), a as nat).matched);
}

proof fn lemma_some_fit(inp: FlatInput, source: Option<i64>, i: int, matched: Seq<Seq<char>>, n: nat, j: int)
    requires
        n <= j < inp.targets@.len(),
        inp.fits(source, i, j, matched),
    ensures
        inp.first_fit(source, i, matched, n) is Some,
    decreases j - n,
{
    if n < j && !inp.fits(source, i, n as int, matched) {
        lemma_some_fit(inp, source, i, matched, n + 1, j);
    }
}

/// A collection of the archive is never created beside a free one of the same name:
/// where the target has one that nothing earlier was matched with and that is not
/// kept for the default, it is matched.
pub proof fn a_free_namesake_is_matched(inp: FlatInput, source: Option<i64>, i: int, j: int)
    requires
        inp.aligned(),
        0 <= i < inp.locals@.len(),
        0 <= j < inp.targets@.len(),
        inp.target_name(j) == Some(inp.locals@[i].1@),
        inp.id(j) matches Some(id) && !matching(inp, source, i as nat).matched.contains(id),
        !inp.reserved(source, inp.locals@[i].0, j),
    ensures
        matching(inp, source, inp.locals@.len()).hits[i] is Some,
{
    let matched = matching(inp, source, i as nat).matched;
    lemma_hits_grow(inp, source, i, inp.locals@.len());
    assert(text::opt_text(inp.target_keys@[j]) == Some(inp.keys@[i]@));
    lemma_some_fit(inp, source, i, matched, 0, j);
}

/// A collection of the target without a name stands for the default of the archive
/// or for none.
pub proof fn a_nameless_collection_stands_for_the_default_only(inp: FlatInput, source: Option<i64>, i: int)
    requires
        inp.aligned(),
        0 <= i < inp.locals@.len(),
        matching(inp, source, inp.locals@.len()).hits[i] matches Some(j) && inp.target_name(j) is None,
    ensures
        source == Some(inp.locals@[i].0),
        matching(inp, source, inp.locals@.len()).hits[i] == inp.target_default(),
{
    let matched = matching(inp, source, i as nat).matched;
    lemma_hits_grow(inp, source, i, inp.locals@.len());
    lemma_first_fit(inp, source, i, matched, 0);
    let j = matching(inp, source, inp.locals@.len()).hits[i]->0;
    lemma_hit(inp, source, i, matched);
    assert(inp.target_keys@[j] is None);
}

/// The calls that bring calendars in line: by id on the target.
pub open spec fn update_args(u: Seq<(i64, Seq<char>, JsonView)>, n: nat) -> Map<Seq<char>, JsonView>
    decreases n,
{
    if n == 0 || n > u.len() {
        Map::empty()
    } else {
        update_args(u, (n - 1) as nat).insert(u[n - 1].1, u[n - 1].2)
    }
}

/// See [`update_args`].
pub fn update_batch(updates: &Vec<(i64, String, Json)>) -> (r: JsonObject)
    ensures
        r@ == update_args(update_views(updates@), updates@.len()),
{
    let ghost all = update_views(updates@);
    let mut map = JsonObject::new();
    let mut i: usize = 0;
    while i < updates.len()
        invariant
            i <= updates.len(),
            all == update_views(updates@),
            map@ == update_args(all, i as nat),
        decreases updates.len() - i,
    {
        assert(all[i as int] == (updates@[i as int].0, updates@[i as int].1@, updates@[i as int].2@));
        map.insert(updates[i].1.clone(), updates[i].2.copy());
        i += 1;
    }
    map
}

/// How the updates of calendars went: not made because nothing is to be changed,
/// answered, or not sent.
pub enum UpdateReply {
    DryRun,
    Answered(SetOutcome),
    Failed(String),
}

/// What settles a calendar that was to be updated.
pub open spec fn update_verdict(reply: UpdateReply, u: (i64, Seq<char>, JsonView), stamp: Seq<char>) -> VerdictView {
    let ty = ObjectType::Calendar;
    match reply {
        UpdateReply::DryRun => VerdictView {
            local: u.0,
            tally: Tally::Updated,
            entry: EntryView::Keep,
            target: None,
        },
        UpdateReply::Answered(o) => if text::texts(o.updated@).contains(u.1) {
            on_target(u.0, Tally::Updated, None)
        } else {
            failed(
                u.0,
                refusal_view(
                    ty,
                    u.0,
                    update_id(u.0),
                    None,
                    refusal_error(
                        ty,
                        ("updated"@, "notUpdated"@),
                        u.1,
                        lookup(entries(o.not_updated@), u.1, 0),
                    ),
                    None,
                    stamp,
                ).0,
                None,
            )
        },
        UpdateReply::Failed(e) => failed(
            u.0,
            local_failure_view(
                ty,
                u.0,
                update_id(u.0),
                None,
                "updateFailed"@,
                "target "@ + u.1 + (": "@ + e@),
                stamp,
            ),
            None,
        ),
    }
}

fn settle_update(reply: &UpdateReply, local: i64, target_id: &str, stamp: &str) -> (r: Verdict)
    ensures
        forall|w: JsonView| #![trigger update_verdict(*reply, (local, target_id@, w), stamp@)]
            r@ == update_verdict(*reply, (local, target_id@, w), stamp@),
{
    match reply {
        UpdateReply::DryRun => Verdict { local, tally: Tally::Updated, entry: Entry::Keep, target: None },
        UpdateReply::Answered(o) => if text::listed(&o.updated, target_id) {
            arrived(local, Tally::Updated, None)
        } else {
            let refusal = record_update_refusal(
                ObjectType::Calendar,
                local,
                target_id,
                None,
                find_entry(&o.not_updated, target_id),
                None,
                stamp,
            );
            failure(local, refusal.item, None)
        },
        UpdateReply::Failed(e) => {
            let cid = make_update_id(local);
            let why = text::joined3("target ", target_id, text::joined(": ", e.as_str()).as_str());
            failure(
                local,
                record_local_failure(
                    ObjectType::Calendar,
                    local,
                    cid.as_str(),
                    None,
                    "updateFailed",
                    why,
                    stamp,
                ),
                None,
            )
        },
    }
}

/// Settles the calendars that were to be updated, each once.
pub fn apply_calendar_updates(updates: &Vec<(i64, String, Json)>, reply: &UpdateReply, stamp: &str) -> (r: Vec<
    Verdict,
>)
    ensures
        verdicts(r@) == Seq::new(
            updates@.len(),
            |i: int| update_verdict(*reply, update_views(updates@)[i], stamp@),
        ),
{
    let mut out: Vec<Verdict> = Vec::new();
    let mut i: usize = 0;
    while i < updates.len()
        invariant
            i <= updates.len(),
            out.len() == i,
            forall|j: int|
                0 <= j < i ==> (#[trigger] out@[j])@ == update_verdict(
                    *reply,
                    update_views(updates@)[j],
                    stamp@,
                ),
        decreases updates.len() - i,
    {
        assert(update_views(updates@)[i as int] == (
            updates@[i as int].0,
            updates@[i as int].1@,
            updates@[i as int].2@,
        ));
        out.push(settle_update(reply, updates[i].0, updates[i].1.as_str(), stamp));
        i += 1;
    }
    assert(verdicts(out@) =~= Seq::new(
        updates@.len(),
        |i: int| update_verdict(*reply, update_views(updates@)[i], stamp@),
    ));
    out
}

/// The row for a collection that could not be made the default.
pub open spec fn default_failure(
    ty: ObjectType,
    local: i64,
    cid: Seq<char>,
    target: Seq<char>,
    why: Seq<char>,
    stamp: Seq<char>,
) -> VerdictView {
    failed(
        local,
        local_failure_view(
            ty,
            local,
            cid,
            None,
            "defaultSetFailed"@,
            "target "@ + target + (": "@ + why),
            stamp,
        ),
        None,
    )
}

/// The arguments of the call that makes a collection the default; in a dry run
/// nothing is sent.
pub fn set_collection_default(account: &str, target_id: &str, dry_run: bool) -> (r: Option<JsonObject>)
    ensures
        match r {
            Some(o) => !dry_run && o@ == Map::<Seq<char>, JsonView>::empty().insert(
                "accountId"@,
                JsonView::Str(account@),
            ).insert("onSuccessSetIsDefault"@, JsonView::Str(target_id@)),
            None => dry_run,
        },
{
    if dry_run {
        return None;
    }
    let mut o = JsonObject::new();
    o.insert("accountId".to_owned(), Json::text(account));
    o.insert("onSuccessSetIsDefault".to_owned(), Json::text(target_id));
    Some(o)
}

/// Settles a collection that could not be made the default.
pub fn default_not_set(ty: ObjectType, local: i64, cid: &str, target_id: &str, why: &str, stamp: &str) -> (r:
    Verdict)
    ensures
        r@ == default_failure(ty, local, cid@, target_id@, why@, stamp@),
{
    let detail = text::joined3("target ", target_id, text::joined(": ", why).as_str());
    failure(local, record_local_failure(ty, local, cid, None, "defaultSetFailed", detail, stamp), None)
}

/// Whether one of the updates is of a collection.
pub open spec fn among(u: Seq<(i64, Seq<char>, JsonView)>, local: i64) -> bool {
    exists|i: int| 0 <= i < u.len() && (#[trigger] u[i]).0 == local
}

/// Settles a matched calendar that was to be made the default. One whose
/// properties were updated as well is settled by that, unless this failed.
pub fn settle_default(
    updates: &Vec<(i64, String, Json)>,
    local: i64,
    target_id: &str,
    result: Result<(), String>,
    stamp: &str,
) -> (r: Option<Verdict>)
    ensures
        match result {
            Ok(_) => if among(update_views(updates@), local) {
                r is None
            } else {
                r matches Some(v) && v@ == on_target(local, Tally::Updated, None)
            },
            Err(e) => r matches Some(v) && v@ == default_failure(
                ObjectType::Calendar,
                local,
                update_id(local),
                target_id@,
                e@,
                stamp@,
            ),
        },
{
    match result {
        Ok(_) => {
            let mut i: usize = 0;
            while i < updates.len()
                invariant
                    i <= updates.len(),
                    result is Ok,
                    forall|j: int| 0 <= j < i ==> (#[trigger] update_views(updates@)[j]).0 != local,
                decreases updates.len() - i,
            {
                if updates[i].0 == local {
                    assert(update_views(updates@)[i as int].0 == local);
                    return None;
                }
                i += 1;
            }
            Some(arrived(local, Tally::Updated, None))
        },
        Err(e) => {
            let cid = make_update_id(local);
            Some(default_not_set(ObjectType::Calendar, local, cid.as_str(), target_id, e.as_str(), stamp))
        },
    }
}

/// The collections to create, and those that could not be built.
pub open spec fn batch_of(inp: FlatInput, creates: Seq<(int, bool)>, n: nat) -> (
    Seq<(Seq<char>, JsonView)>,
    Seq<VerdictView>,
)
    decreases n,
{
    if n == 0 || n > creates.len() {
        (Seq::empty(), Seq::empty())
    } else {
        let (sent, lost) = batch_of(inp, creates, (n - 1) as nat);
        let i = creates[n - 1].0;
        match inp.rows@[i] {
            Ok(j) => (sent.push((creation_id(inp.locals@[i].0), wire_of(j@))), lost),
            Err(e) => (sent, lost.push(inp.unbuilt("c"@, i, e@))),
        }
    }
}

/// See [`batch_of`].
pub fn creation_batch(inp: &FlatInput, creates: &Vec<(usize, bool)>) -> (r: (
    Vec<(String, Json)>,
    Vec<Verdict>,
))
    requires
        inp.aligned(),
        forall|k: int| 0 <= k < creates@.len() ==> (#[trigger] creates@[k]).0 < inp.locals@.len(),
    ensures
        (entries(r.0@), verdicts(r.1@)) == batch_of(*inp, create_views(creates@), creates@.len()),
{
    let mut sent: Vec<(String, Json)> = Vec::new();
    let mut lost: Vec<Verdict> = Vec::new();
    let ghost all = create_views(creates@);
    assert(entries(sent@) =~= Seq::<(Seq<char>, JsonView)>::empty());
    assert(verdicts(lost@) =~= Seq::<VerdictView>::empty());
    let mut k: usize = 0;
    while k < creates.len()
        invariant
            inp.aligned(),
            forall|k: int| 0 <= k < creates@.len() ==> (#[trigger] creates@[k]).0 < inp.locals@.len(),
            k <= creates.len(),
            all == create_views(creates@),
            (entries(sent@), verdicts(lost@)) == batch_of(*inp, all, k as nat),
        decreases creates.len() - k,
    {
        let i: usize = creates[k].0;
        assert(all[k as int].0 == i);
        let ghost was = (entries(sent@), verdicts(lost@));
        match &inp.rows[i] {
            Ok(j) => {
                let cid = make_creation_id(inp.locals[i].0);
                let w = build_wire(j);
                sent.push((cid, w));
                assert(entries(sent@) =~= was.0.push((creation_id(inp.locals@[i as int].0), wire_of(j@))));
            },
            Err(e) => {
                let v = give_up(inp, "c", i, e.clone());
                lost.push(v);
                assert(verdicts(lost@) =~= was.1.push(v@));
            },
        }
        k += 1;
    }
    (sent, lost)
}

/// What the answer to the creation of collections comes to.
pub struct CreateResult {
    pub verdicts: Vec<Verdict>,
    /// Refusals of objects that were never sent: counted as failed, without a
    /// row.
    pub strays: usize,
    /// Collections to make a default: local id, creation id, id on the target.
    pub make_default: Vec<(i64, String, String)>,
}

/// The view of a [`CreateResult`].
pub struct CreateView {
    pub verdicts: Seq<VerdictView>,
    pub strays: nat,
    pub make_default: Seq<(i64, Seq<char>, Seq<char>)>,
}

/// The views of collections to make a default.
pub open spec fn default_views(d: Seq<(i64, String, String)>) -> Seq<(i64, Seq<char>, Seq<char>)> {
    Seq::new(d.len(), |i: int| (d[i].0, d[i].1@, d[i].2@))
}

impl View for CreateResult {
    type V = CreateView;

    open spec fn view(&self) -> CreateView {
        CreateView {
            verdicts: verdicts(self.verdicts@),
            strays: self.strays as nat,
            make_default: default_views(self.make_default@),
        }
    }
}

/// Whether a collection was to be created as a default.
pub open spec fn wanted_default(locals: Seq<(i64, String, bool)>, creates: Seq<(int, bool)>, local: int) -> bool {
    exists|k: int|
        0 <= k < creates.len() && (#[trigger] creates[k]).1 && locals[creates[k].0].0 == local
}

/// The collections that were created, among the first `n`.
pub open spec fn after_created(
    locals: Seq<(i64, String, bool)>,
    creates: Seq<(int, bool)>,
    made: Seq<(Seq<char>, JsonView)>,
    n: nat,
) -> CreateView
    decreases n,
{
    if n == 0 || n > made.len() {
        CreateView { verdicts: Seq::empty(), strays: 0, make_default: Seq::empty() }
    } else {
        let r = after_created(locals, creates, made, (n - 1) as nat);
        let (cid, v) = made[n - 1];
        match (created_object(cid), v.text_at("id"@)) {
            (Some(local), Some(id)) => CreateView {
                verdicts: r.verdicts.push(on_target(local as i64, Tally::Created, Some(id))),
                make_default: if wanted_default(locals, creates, local) {
                    r.make_default.push((local as i64, cid, id))
                } else {
                    r.make_default
                },
                ..r
            },
            _ => r,
        }
    }
}

/// The refusals, among the first `n`, added to what was created.
pub open spec fn after_refused(
    start: CreateView,
    ty: ObjectType,
    refused: Seq<(Seq<char>, JsonView)>,
    stamp: Seq<char>,
    n: nat,
) -> CreateView
    decreases n,
{
    if n == 0 || n > refused.len() {
        start
    } else {
        let r = after_refused(start, ty, refused, stamp, (n - 1) as nat);
        let (cid, err) = refused[n - 1];
        match created_object(cid) {
            Some(local) => CreateView {
                verdicts: r.verdicts.push(
                    failed(
                        local as i64,
                        refusal_view(
                            ty,
                            local as i64,
                            cid,
                            None,
                            refusal_error(ty, ("created"@, "notCreated"@), cid, Some(err)),
                            None,
                            stamp,
                        ).0,
                        None,
                    ),
                ),
                ..r
            },
            None => CreateView { strays: r.strays + 1, ..r },
        }
    }
}

fn wants_default(locals: &Vec<(i64, String, bool)>, creates: &Vec<(usize, bool)>, local: i64) -> (r: bool)
    requires
        forall|k: int| 0 <= k < creates@.len() ==> (#[trigger] creates@[k]).0 < locals@.len(),
    ensures
        r == wanted_default(locals@, create_views(creates@), local as int),
{
    let ghost all = create_views(creates@);
    let mut k: usize = 0;
    while k < creates.len()
        invariant
            forall|k: int| 0 <= k < creates@.len() ==> (#[trigger] creates@[k]).0 < locals@.len(),
            k <= creates.len(),
            all == create_views(creates@),
            forall|q: int| 0 <= q < k ==> !((#[trigger] all[q]).1 && locals@[all[q].0].0 == local),
        decreases creates.len() - k,
    {
        let (i, flag) = creates[k];
        assert(all[k as int] == (i as int, flag));
        if flag && locals[i].0 == local {
            return true;
        }
        k += 1;
    }
    false
}

/// Settles the collections that were sent. Those that are to be a default are
/// handed out to be made one.
pub fn after_create(
    ty: ObjectType,
    locals: &Vec<(i64, String, bool)>,
    creates: &Vec<(usize, bool)>,
    outcome: &SetOutcome,
    stamp: &str,
) -> (r: CreateResult)
    requires
        forall|k: int| 0 <= k < creates@.len() ==> (#[trigger] creates@[k]).0 < locals@.len(),
    ensures
        r@ == after_refused(
            after_created(
                locals@,
                create_views(creates@),
                entries(outcome.created@),
                outcome.created@.len(),
            ),
            ty,
            entries(outcome.not_created@),
            stamp@,
            outcome.not_created@.len(),
        ),
{
    let mut r = CreateResult { verdicts: Vec::new(), strays: 0, make_default: Vec::new() };
    let ghost made = entries(outcome.created@);
    let ghost wanted = create_views(creates@);
    assert(r@.verdicts =~= Seq::<VerdictView>::empty());
    assert(r@.make_default =~= Seq::<(i64, Seq<char>, Seq<char>)>::empty());
    let mut i: usize = 0;
    while i < outcome.created.len()
        invariant
            forall|k: int| 0 <= k < creates@.len() ==> (#[trigger] creates@[k]).0 < locals@.len(),
            i <= outcome.created.len(),
            made == entries(outcome.created@),
            wanted == create_views(creates@),
            r.strays == 0,
            r@ == after_created(locals@, wanted, made, i as nat),
        decreases outcome.created.len() - i,
    {
        let entry = &outcome.created[i];
        assert(made[i as int] == (entry.0@, entry.1@));
        let ghost was = r@;
        match (parse_creation_id(entry.0.as_str()), jid(&entry.1)) {
            (Some(local), Some(id)) => {
                if wants_default(locals, creates, local) {
                    r.make_default.push((local, entry.0.clone(), id.clone()));
                    assert(default_views(r.make_default@) =~= was.make_default.push((local, entry.0@, id@)));
                }
                r.verdicts.push(arrived(local, Tally::Created, Some(id)));
                assert(verdicts(r.verdicts@) =~= was.verdicts.push(
                    on_target(local, Tally::Created, Some(id@)),
                ));
            },
            _ => {},
        }
        i += 1;
    }
    let ghost start = r@;
    let ghost refused = entries(outcome.not_created@);
    let mut k: usize = 0;
    while k < outcome.not_created.len()
        invariant
            k <= outcome.not_created.len(),
            refused == entries(outcome.not_created@),
            r.strays <= k,
            r@ == after_refused(start, ty, refused, stamp@, k as nat),
        decreases outcome.not_created.len() - k,
    {
        let entry = &outcome.not_created[k];
        assert(refused[k as int] == (entry.0@, entry.1@));
        let ghost was = r@;
        match parse_creation_id(entry.0.as_str()) {
            Some(local) => {
                let refusal = record_refusal(
                    ty,
                    local,
                    entry.0.as_str(),
                    None,
                    Some(&entry.1),
                    None,
                    stamp,
                );
                let v = failure(local, refusal.item, None);
                r.verdicts.push(v);
                assert(verdicts(r.verdicts@) =~= was.verdicts.push(v@));
            },
            None => {
                r.strays = r.strays + 1;
            },
        }
        k += 1;
    }
    r
}

/// Whether an object of the target may be removed.
pub open spec fn may_go(t: JsonView) -> bool {
    match t.field("myRights"@) {
        Some(r) => r.bool_at("mayDelete"@) != Some(false),
        None => true,
    }
}

/// The objects of a target among the first `n`, for pruning: those with an id. A
/// default is protected.
pub open spec fn prune_view(targets: Seq<JsonView>, matched: Seq<Seq<char>>, n: nat) -> Seq<
    (Seq<char>, bool, bool, bool),
>
    decreases n,
{
    if n == 0 || n > targets.len() {
        Seq::empty()
    } else {
        let rest = prune_view(targets, matched, (n - 1) as nat);
        let t = targets[n - 1];
        match t.text_at("id"@) {
            Some(id) => rest.push(
                (id, matched.contains(id), t.bool_at("isDefault"@) == Some(true), may_go(t)),
            ),
            None => rest,
        }
    }
}

/// The views of objects for pruning.
pub open spec fn obj_views(o: Seq<TargetObj>) -> Seq<(Seq<char>, bool, bool, bool)> {
    Seq::new(o.len(), |i: int| (o[i].id@, o[i].matched, o[i].protected, o[i].may_delete))
}

/// See [`prune_view`].
pub fn prune_objects(targets: &Vec<Json>, matched: &Vec<String>) -> (r: Vec<TargetObj>)
    ensures
        obj_views(r@) == prune_view(views(targets@), text::texts(matched@), targets@.len()),
{
    let ghost all = views(targets@);
    let mut out: Vec<TargetObj> = Vec::new();
    assert(obj_views(out@) =~= Seq::<(Seq<char>, bool, bool, bool)>::empty());
    let mut i: usize = 0;
    while i < targets.len()
        invariant
            i <= targets.len(),
            all == views(targets@),
            obj_views(out@) == prune_view(all, text::texts(matched@), i as nat),
        decreases targets.len() - i,
    {
        let t = &targets[i];
        assert(all[i as int] == t@);
        match jid(t) {
            Some(id) => {
                let protected = match t.bool_at("isDefault") {
                    Some(true) => true,
                    _ => false,
                };
                let may_delete = match t.get("myRights") {
                    Some(r) => match r.bool_at("mayDelete") {
                        Some(false) => false,
                        _ => true,
                    },
                    None => true,
                };
                let ghost was = obj_views(out@);
                let known = text::listed(matched, id.as_str());
                out.push(TargetObj { id, matched: known, protected, may_delete });
                assert(obj_views(out@) =~= was.push((id@, known, protected, may_delete)));
            },
            None => {},
        }
        i += 1;
    }
    out
}

/// Every calendar that was to be updated is accounted for: it counts as failed
/// exactly where a row tells why.
pub proof fn updates_are_accounted_for(reply: UpdateReply, u: (i64, Seq<char>, JsonView), stamp: Seq<char>)
    ensures
        update_verdict(reply, u, stamp).accounted(),
        update_verdict(reply, u, stamp).local == u.0,
{
}

proof fn lemma_created_are_accounted(
    locals: Seq<(i64, String, bool)>,
    creates: Seq<(int, bool)>,
    made: Seq<(Seq<char>, JsonView)>,
    n: nat,
)
    ensures
        forall|i: int|
            0 <= i < after_created(locals, creates, made, n).verdicts.len() ==> (#[trigger] after_created(
                locals,
                creates,
                made,
                n,
            ).verdicts[i]).accounted(),
    decreases n,
{
    if n > 0 && n <= made.len() {
        lemma_created_are_accounted(locals, creates, made, (n - 1) as nat);
        let p = after_created(locals, creates, made, (n - 1) as nat).verdicts;
        let q = after_created(locals, creates, made, n).verdicts;
        assert forall|i: int| 0 <= i < q.len() implies (#[trigger] q[i]).accounted() by {
            if i < p.len() {
                assert(p[i].accounted());
                assert(q[i] == p[i]);
            }
        }
    }
}

/// Every collection that the target answered for is accounted for, and every
/// refusal counts as one failure, with a row where the object is known.
pub proof fn creations_are_accounted_for(
    locals: Seq<(i64, String, bool)>,
    creates: Seq<(int, bool)>,
    made: Seq<(Seq<char>, JsonView)>,
    ty: ObjectType,
    refused: Seq<(Seq<char>, JsonView)>,
    stamp: Seq<char>,
    n: nat,
)
    requires
        n <= refused.len(),
    ensures
        ({
            let start = after_created(locals, creates, made, made.len());
            let r = after_refused(start, ty, refused, stamp, n);
            &&& forall|i: int| 0 <= i < r.verdicts.len() ==> (#[trigger] r.verdicts[i]).accounted()
            &&& r.verdicts.len() + r.strays == start.verdicts.len() + n
        }),
    decreases n,
{
    lemma_created_are_accounted(locals, creates, made, made.len());
    lemma_no_strays(locals, creates, made, made.len());
    if n > 0 {
        creations_are_accounted_for(locals, creates, made, ty, refused, stamp, (n - 1) as nat);
    }
}

proof fn lemma_no_strays(
    locals: Seq<(i64, String, bool)>,
    creates: Seq<(int, bool)>,
    made: Seq<(Seq<char>, JsonView)>,
    n: nat,
)
    ensures
        after_created(locals, creates, made, n).strays == 0,
    decreases n,
{
    if n > 0 && n <= made.len() {
        lemma_no_strays(locals, creates, made, (n - 1) as nat);
    }
}

/// A calendar that is as wanted is not updated again.
pub proof fn a_calendar_in_line_is_left_alone(desired: JsonView)
    requires
        forall|i: int|
            0 <= i < update_properties().len() ==> desired.field(#[trigger] update_properties()[i]) is Some,
    ensures
        !needs_update(desired, desired),
{
}

} // verus!
