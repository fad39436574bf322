//! The addresses of Graph, and how its answers come in pages.

use vstd::prelude::*;
use vstd::string::*;

use crate::exchange_graph::types::MailboxKind;
use crate::json::{views, Json, JsonView};
use crate::text;
use crate::web::{percent_encoded, urlencode};

verus! {

/// Where Graph is.
pub const DEFAULT_API_BASE: &'static str = "https://graph.microsoft.com/v1.0";

/// Asks for times in UTC.
pub const PREFER_TIMEZONE_UTC: &'static str = "outlook.timezone=\"UTC\"";

/// Asks for bodies as plain text.
pub const PREFER_BODY_TEXT: &'static str = "outlook.body-content-type=\"text\"";

/// Asks for bodies as HTML.
pub const PREFER_BODY_HTML: &'static str = "outlook.body-content-type=\"html\"";

/// The properties of an event that are asked for. `cancelledOccurrences` is given
/// only where it is asked for, and asking for one property leaves out all that are
/// not.
pub const EVENT_SELECT: &'static str =
    "id,iCalUId,type,seriesMasterId,originalStart,isDraft,subject,body,start,end,isAllDay,originalStartTimeZone,isCancelled,sensitivity,importance,showAs,categories,locations,recurrence,organizer,attendees,createdDateTime,lastModifiedDateTime,isReminderOn,reminderMinutesBeforeStart,cancelledOccurrences";

/// Where the data of a user are.
#[derive(Debug)]
pub struct Endpoints {
    pub api_base: String,
    pub user_path: String,
}

/// A text made safe as a part of a path: letters, digits and a few signs stand for
/// themselves, every other byte is percent-encoded.
pub open spec fn escaped_segment(s: Seq<char>) -> Seq<char> {
    percent_encoded(vstd::utf8::encode_utf8(s))
}

/// See [`escaped_segment`].
pub fn url_escape(segment: &str) -> (r: String)
    ensures
        r@ == escaped_segment(segment@),
{
    urlencode(segment)
}

/// The number of entries that a page should hold, as part of an address.
pub open spec fn top_text(head: Seq<char>, top: usize, tail: Seq<char>) -> Seq<char> {
    head + "$top="@ + (text::decimal_text(top as nat) + tail)
}

fn with_top(head: &str, top: usize, tail: &str) -> (r: String)
    ensures
        r@ == top_text(head@, top, tail@),
{
    let n = text::decimal(top as u128);
    let rest = text::joined(n.as_str(), tail);
    text::joined3(head, "$top=", rest.as_str())
}

/// A path with an id in it.
pub open spec fn id_path(head: Seq<char>, id: Seq<char>, tail: Seq<char>) -> Seq<char> {
    head + escaped_segment(id) + tail
}

fn with_id(head: &str, id: &str, tail: &str) -> (r: String)
    ensures
        r@ == id_path(head@, id@, tail@),
{
    let e = url_escape(id);
    text::joined3(head, e.as_str(), tail)
}

impl Endpoints {
    /// The address of the user.
    pub open spec fn root(self) -> Seq<char> {
        self.api_base@ + self.user_path@
    }

    /// The data of the user who signed in.
    pub fn for_me(api_base: &str) -> (r: Endpoints)
        ensures
            r.api_base@ == text::trimmed_end(api_base@, '/'),
            r.user_path@ == "/me"@,
    {
        Endpoints { api_base: text::trim_end(api_base, '/'), user_path: "/me".to_owned() }
    }

    /// The data of another user.
    pub fn for_user(api_base: &str, user_id: &str) -> (r: Endpoints)
        ensures
            r.api_base@ == text::trimmed_end(api_base@, '/'),
            r.user_path@ == "/users/"@ + user_id@,
    {
        Endpoints { api_base: text::trim_end(api_base, '/'), user_path: text::joined("/users/", user_id) }
    }

    /// The address of the user.
    pub fn me_or_user(&self) -> (r: String)
        ensures
            r@ == self.root(),
    {
        text::joined(self.api_base.as_str(), self.user_path.as_str())
    }

    fn under(&self, tail: &str) -> (r: String)
        ensures
            r@ == self.root() + tail@,
    {
        text::joined(self.me_or_user().as_str(), tail)
    }

    /// The mail folders at the top, hidden ones too.
    pub fn mail_folders_root(&self, kind: MailboxKind, top: usize) -> (r: String)
        ensures
            r@ == self.root() + top_text(
                match kind {
                    MailboxKind::Primary => "/mailFolders?"@,
                    MailboxKind::Archive => "/mailFolders/archive/childFolders?"@,
                },
                top,
                "&includeHiddenFolders=true"@,
            ),
    {
        let head = match kind {
            MailboxKind::Primary => "/mailFolders?",
            MailboxKind::Archive => "/mailFolders/archive/childFolders?",
        };
        self.under(with_top(head, top, "&includeHiddenFolders=true").as_str())
    }

    /// The folders in a mail folder, hidden ones too.
    pub fn mail_folder_child_folders(&self, folder_id: &str, top: usize) -> (r: String)
        ensures
            r@ == self.root() + top_text(
                id_path("/mailFolders/"@, folder_id@, "/childFolders?"@),
                top,
                "&includeHiddenFolders=true"@,
            ),
    {
        let head = with_id("/mailFolders/", folder_id, "/childFolders?");
        self.under(with_top(head.as_str(), top, "&includeHiddenFolders=true").as_str())
    }

    /// The messages in a folder. Whether one is read or flagged is asked for here:
    /// the message itself does not say.
    pub fn folder_messages_meta(&self, folder_id: &str, top: usize) -> (r: String)
        ensures
            r@ == self.root() + top_text(
                id_path("/mailFolders/"@, folder_id@, "/messages?"@),
                top,
                "&$select=id,isRead,flag"@,
            ),
    {
        let head = with_id("/mailFolders/", folder_id, "/messages?");
        self.under(with_top(head.as_str(), top, "&$select=id,isRead,flag").as_str())
    }

    /// A message as it was sent.
    pub fn message_mime(&self, message_id: &str) -> (r: String)
        ensures
            r@ == self.root() + id_path("/messages/"@, message_id@, "/$value"@),
    {
        self.under(with_id("/messages/", message_id, "/$value").as_str())
    }

    /// A folder that has a name of its own.
    pub fn well_known_folder(&self, well_known: &str) -> (r: String)
        ensures
            r@ == self.root() + ("/mailFolders/"@ + well_known@ + "?$select=id"@),
    {
        self.under(text::joined3("/mailFolders/", well_known, "?$select=id").as_str())
    }

    /// The calendars.
    pub fn calendars(&self, top: usize) -> (r: String)
        ensures
            r@ == self.root() + top_text("/calendars?"@, top, ""@),
    {
        self.under(with_top("/calendars?", top, "").as_str())
    }

    /// The ids of the events of a calendar, with what tells series apart.
    pub fn calendar_events_ids(&self, calendar_id: &str, top: usize) -> (r: String)
        ensures
            r@ == self.root() + top_text(
                id_path("/calendars/"@, calendar_id@, "/events?"@),
                top,
                "&$select=id,type,seriesMasterId"@,
            ),
    {
        let head = with_id("/calendars/", calendar_id, "/events?");
        self.under(with_top(head.as_str(), top, "&$select=id,type,seriesMasterId").as_str())
    }

    /// An event in full.
    pub fn event(&self, event_id: &str) -> (r: String)
        ensures
            r@ == self.root() + id_path("/events/"@, event_id@, "?$select="@ + EVENT_SELECT@),
    {
        let tail = text::joined("?$select=", EVENT_SELECT);
        self.under(with_id("/events/", event_id, tail.as_str()).as_str())
    }

    /// The address books at the top.
    pub fn contact_folders(&self, top: usize) -> (r: String)
        ensures
            r@ == self.root() + top_text("/contactFolders?"@, top, ""@),
    {
        self.under(with_top("/contactFolders?", top, "").as_str())
    }

    /// The address books in an address book.
    pub fn contact_folder_children(&self, folder_id: &str, top: usize) -> (r: String)
        ensures
            r@ == self.root() + top_text(
                id_path("/contactFolders/"@, folder_id@, "/childFolders?"@),
                top,
                ""@,
            ),
    {
        let head = with_id("/contactFolders/", folder_id, "/childFolders?");
        self.under(with_top(head.as_str(), top, "").as_str())
    }

    /// The ids of the contacts in an address book.
    pub fn contact_folder_contacts_ids(&self, folder_id: &str, top: usize) -> (r: String)
        ensures
            r@ == self.root() + top_text(
                id_path("/contactFolders/"@, folder_id@, "/contacts?"@),
                top,
                "&$select=id"@,
            ),
    {
        let head = with_id("/contactFolders/", folder_id, "/contacts?");
        self.under(with_top(head.as_str(), top, "&$select=id").as_str())
    }

    /// The ids of the contacts in the default address book, which has no id.
    pub fn default_contacts_ids(&self, top: usize) -> (r: String)
        ensures
            r@ == self.root() + top_text("/contacts?"@, top, "&$select=id"@),
    {
        self.under(with_top("/contacts?", top, "&$select=id").as_str())
    }

    /// A contact.
    pub fn contact(&self, contact_id: &str) -> (r: String)
        ensures
            r@ == self.root() + id_path("/contacts/"@, contact_id@, ""@),
    {
        self.under(with_id("/contacts/", contact_id, "").as_str())
    }

    /// The zone of the mailbox.
    pub fn mailbox_settings_timezone(&self) -> (r: String)
        ensures
            r@ == self.root() + "/mailboxSettings?$select=timeZone"@,
    {
        self.under("/mailboxSettings?$select=timeZone")
    }

    /// Who the user is.
    pub fn me_select_id_upn(&self) -> (r: String)
        ensures
            r@ == self.root() + "?$select=id,userPrincipalName,displayName,mail"@,
    {
        self.under("?$select=id,userPrincipalName,displayName,mail")
    }
}

/// Where the next page is, given a page; the last one does not say.
pub fn paged_collect(page: &Json) -> (r: Option<String>)
    ensures
        text::opt_text(r) == page@.text_at("@odata.nextLink"@),
{
    text::owned(page.str_at("@odata.nextLink"))
}

/// The entries of a page.
pub open spec fn page_entries(page: JsonView) -> Seq<JsonView> {
    match page.array_at("value"@) {
        Some(a) => a,
        None => Seq::empty(),
    }
}

/// The entries of the first `n` pages.
pub open spec fn all_entries(pages: Seq<JsonView>, n: nat) -> Seq<JsonView>
    decreases n,
{
    if n == 0 {
        Seq::empty()
    } else {
        all_entries(pages, (n - 1) as nat) + page_entries(pages[n - 1])
    }
}

/// The entries of all pages, in order.
pub fn collect_all_values(pages: &Vec<Json>) -> (r: Vec<Json>)
    ensures
        views(r@) == all_entries(views(pages@), pages@.len()),
{
    let ghost all = views(pages@);
    let mut out: Vec<Json> = Vec::new();
    assert(views(out@) =~= Seq::<JsonView>::empty());
    let mut i: usize = 0;
    while i < pages.len()
        invariant
            i <= pages.len(),
            all == views(pages@),
            views(out@) == all_entries(all, i as nat),
        decreases pages.len() - i,
    {
        assert(all[i as int] == pages@[i as int]@);
        let ghost before = views(out@);
        let ghost here = page_entries(all[i as int]);
        match pages[i].array_at("value") {
            Some(a) => {
                let mut j: usize = 0;
                assert(here.take(0) =~= Seq::<JsonView>::empty());
                assert(before + here.take(0) =~= before);
                while j < a.len()
                    invariant
                        j <= a.len(),
                        here == views(a@),
                        views(out@) == before + here.take(j as int),
                    decreases a.len() - j,
                {
                    let ghost was = views(out@);
                    assert(here[j as int] == a@[j as int]@);
                    out.push(a[j].copy());
                    assert(views(out@) =~= was.push(here[j as int]));
                    assert(here.take(j + 1) =~= here.take(j as int).push(here[j as int]));
                    assert(views(out@) =~= before + here.take(j + 1));
                    j += 1;
                }
                assert(here.take(here.len() as int) =~= here);
            },
            None => {
                assert(before + here =~= before);
            },
        }
        i += 1;
    }
    out
}

/// The ids of the first `n` entries; those without one are left out.
pub open spec fn ids_in(entries: Seq<JsonView>, n: nat) -> Seq<Seq<char>>
    decreases n,
{
    if n == 0 {
        Seq::empty()
    } else {
        let rest = ids_in(entries, (n - 1) as nat);
        match entries[n - 1].text_at("id"@) {
            Some(id) => rest.push(id),
            None => rest,
        }
    }
}

/// The ids of the entries of all pages, in order.
pub fn collect_all_ids(pages: &Vec<Json>) -> (r: Vec<String>)
    ensures
        ({
            let entries = all_entries(views(pages@), pages@.len());
            text::texts(r@) == ids_in(entries, entries.len())
        }),
{
    let items = collect_all_values(pages);
    let ghost entries = views(items@);
    let mut out: Vec<String> = Vec::new();
    assert(text::texts(out@) =~= Seq::<Seq<char>>::empty());
    let mut i: usize = 0;
    while i < items.len()
        invariant
            i <= items.len(),
            entries == views(items@),
            text::texts(out@) == ids_in(entries, i as nat),
        decreases items.len() - i,
    {
        assert(entries[i as int] == items@[i as int]@);
        let ghost was = text::texts(out@);
        match items[i].str_at("id") {
            Some(id) => {
                out.push(id.to_owned());
                assert(text::texts(out@) =~= was.push(id@));
            },
            None => {},
        }
        i += 1;
    }
    out
}

/// Whether a message is read, and whether it is flagged.
#[derive(Debug, Clone, Copy, PartialEq, Eq, Structural)]
pub struct MessageMeta {
    pub is_read: bool,
    pub flagged: bool,
}

impl Default for MessageMeta {
    fn default() -> (r: MessageMeta)
        ensures
            r == (MessageMeta { is_read: false, flagged: false }),
    {
        MessageMeta { is_read: false, flagged: false }
    }
}

/// The state of a message. One whose listing does not say counts as unread and not
/// flagged.
pub open spec fn meta_of(v: JsonView) -> MessageMeta {
    MessageMeta {
        is_read: v.bool_at("isRead"@) == Some(true),
        flagged: match v.field("flag"@) {
            Some(f) => f.text_at("flagStatus"@) == Some("flagged"@),
            None => false,
        },
    }
}

/// See [`meta_of`].
pub fn message_meta(item: &Json) -> (r: MessageMeta)
    ensures
        r == meta_of(item@),
{
    let is_read = match item.bool_at("isRead") {
        Some(b) => b,
        None => false,
    };
    let flagged = match item.get("flag") {
        Some(f) => match f.str_at("flagStatus") {
            Some(s) => text::same(s, "flagged"),
            None => false,
        },
        None => false,
    };
    MessageMeta { is_read, flagged }
}

/// The ids and states of the first `n` messages; those without an id are left out.
pub open spec fn metas_in(entries: Seq<JsonView>, n: nat) -> Seq<(Seq<char>, MessageMeta)>
    decreases n,
{
    if n == 0 {
        Seq::empty()
    } else {
        let rest = metas_in(entries, (n - 1) as nat);
        match entries[n - 1].text_at("id"@) {
            Some(id) => rest.push((id, meta_of(entries[n - 1]))),
            None => rest,
        }
    }
}

/// Ids and states.
pub open spec fn meta_views(v: Seq<(String, MessageMeta)>) -> Seq<(Seq<char>, MessageMeta)> {
    Seq::new(v.len(), |i: int| (v[i].0@, v[i].1))
}

/// The ids and states of the messages of all pages, in order.
pub fn collect_message_metas(pages: &Vec<Json>) -> (r: Vec<(String, MessageMeta)>)
    ensures
        ({
            let entries = all_entries(views(pages@), pages@.len());
            meta_views(r@) == metas_in(entries, entries.len())
        }),
{
    let items = collect_all_values(pages);
    let ghost entries = views(items@);
    let mut out: Vec<(String, MessageMeta)> = Vec::new();
    assert(meta_views(out@) =~= Seq::<(Seq<char>, MessageMeta)>::empty());
    let mut i: usize = 0;
    while i < items.len()
        invariant
            i <= items.len(),
            entries == views(items@),
            meta_views(out@) == metas_in(entries, i as nat),
        decreases items.len() - i,
    {
        assert(entries[i as int] == items@[i as int]@);
        let ghost was = meta_views(out@);
        match items[i].str_at("id") {
            Some(id) => {
                out.push((id.to_owned(), message_meta(&items[i])));
                assert(meta_views(out@) =~= was.push((id@, meta_of(entries[i as int]))));
            },
            None => {},
        }
        i += 1;
    }
    out
}

/// No message is dropped because its listing does not say whether it is read or
/// flagged: the messages with a state are those with an id.
pub proof fn messages_without_a_state_are_kept(entries: Seq<JsonView>, n: nat)
    requires
        n <= entries.len(),
    ensures
        metas_in(entries, n).len() == ids_in(entries, n).len(),
        forall|i: int|
            0 <= i < ids_in(entries, n).len() ==> (#[trigger] metas_in(entries, n)[i]).0 == ids_in(entries, n)[i],
    decreases n,
{
    if n > 0 {
        messages_without_a_state_are_kept(entries, (n - 1) as nat);
        let a = metas_in(entries, (n - 1) as nat);
        let b = metas_in(entries, n);
        assert forall|i: int| 0 <= i < b.len() implies (#[trigger] b[i]).0 == ids_in(entries, n)[i] by {
            if i < a.len() {
                assert(b[i] == a[i]);
            }
        }
    }
}

} // verus!
