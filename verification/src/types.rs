//! The kinds of objects that are moved.

use vstd::prelude::*;
use vstd::string::*;

use crate::text;

verus! {

/// A kind of object.
#[derive(Debug, Clone, Copy, PartialEq, Eq, Structural)]
pub enum ObjectType {
    Mailbox,
    AddressBook,
    Calendar,
    FileNode,
    Identity,
    SieveScript,
    ParticipantIdentity,
    Email,
    ContactCard,
    CalendarEvent,
}

/// All kinds.
pub open spec fn all_types() -> Seq<ObjectType> {
    seq![
        ObjectType::Mailbox,
        ObjectType::AddressBook,
        ObjectType::Calendar,
        ObjectType::FileNode,
        ObjectType::Identity,
        ObjectType::SieveScript,
        ObjectType::ParticipantIdentity,
        ObjectType::Email,
        ObjectType::ContactCard,
        ObjectType::CalendarEvent,
    ]
}

impl ObjectType {
    /// The name of the kind in JMAP.
    pub open spec fn jmap(self) -> Seq<char> {
        match self {
            ObjectType::Mailbox => "Mailbox"@,
            ObjectType::AddressBook => "AddressBook"@,
            ObjectType::Calendar => "Calendar"@,
            ObjectType::FileNode => "FileNode"@,
            ObjectType::Identity => "Identity"@,
            ObjectType::SieveScript => "SieveScript"@,
            ObjectType::ParticipantIdentity => "ParticipantIdentity"@,
            ObjectType::Email => "Email"@,
            ObjectType::ContactCard => "ContactCard"@,
            ObjectType::CalendarEvent => "CalendarEvent"@,
        }
    }

    /// The name of the kind in the archive.
    pub open spec fn archive(self) -> Seq<char> {
        match self {
            ObjectType::Mailbox => "mailbox"@,
            ObjectType::AddressBook => "addressbook"@,
            ObjectType::Calendar => "calendar"@,
            ObjectType::FileNode => "filenode"@,
            ObjectType::Identity => "identity"@,
            ObjectType::SieveScript => "sievescript"@,
            ObjectType::ParticipantIdentity => "participantidentity"@,
            ObjectType::Email => "email"@,
            ObjectType::ContactCard => "contactcard"@,
            ObjectType::CalendarEvent => "calendarevent"@,
        }
    }

    /// See [`ObjectType::jmap`].
    pub fn jmap_name(self) -> (r: &'static str)
        ensures
            r@ == self.jmap(),
    {
        match self {
            ObjectType::Mailbox => "Mailbox",
            ObjectType::AddressBook => "AddressBook",
            ObjectType::Calendar => "Calendar",
            ObjectType::FileNode => "FileNode",
            ObjectType::Identity => "Identity",
            ObjectType::SieveScript => "SieveScript",
            ObjectType::ParticipantIdentity => "ParticipantIdentity",
            ObjectType::Email => "Email",
            ObjectType::ContactCard => "ContactCard",
            ObjectType::CalendarEvent => "CalendarEvent",
        }
    }

    /// See [`ObjectType::archive`].
    pub fn token(self) -> (r: &'static str)
        ensures
            r@ == self.archive(),
    {
        match self {
            ObjectType::Mailbox => "mailbox",
            ObjectType::AddressBook => "addressbook",
            ObjectType::Calendar => "calendar",
            ObjectType::FileNode => "filenode",
            ObjectType::Identity => "identity",
            ObjectType::SieveScript => "sievescript",
            ObjectType::ParticipantIdentity => "participantidentity",
            ObjectType::Email => "email",
            ObjectType::ContactCard => "contactcard",
            ObjectType::CalendarEvent => "calendarevent",
        }
    }

    /// The kind that an archive name stands for.
    pub open spec fn named(token: Seq<char>) -> Option<ObjectType> {
        if token == "mailbox"@ {
            Some(ObjectType::Mailbox)
        } else if token == "addressbook"@ {
            Some(ObjectType::AddressBook)
        } else if token == "calendar"@ {
            Some(ObjectType::Calendar)
        } else if token == "filenode"@ {
            Some(ObjectType::FileNode)
        } else if token == "identity"@ {
            Some(ObjectType::Identity)
        } else if token == "sievescript"@ {
            Some(ObjectType::SieveScript)
        } else if token == "participantidentity"@ {
            Some(ObjectType::ParticipantIdentity)
        } else if token == "email"@ {
            Some(ObjectType::Email)
        } else if token == "contactcard"@ {
            Some(ObjectType::ContactCard)
        } else if token == "calendarevent"@ {
            Some(ObjectType::CalendarEvent)
        } else {
            None
        }
    }

    /// All kinds.
    pub fn all() -> (r: Vec<ObjectType>)
        ensures
            r@ == all_types(),
    {
        let r = vec![
            ObjectType::Mailbox,
            ObjectType::AddressBook,
            ObjectType::Calendar,
            ObjectType::FileNode,
            ObjectType::Identity,
            ObjectType::SieveScript,
            ObjectType::ParticipantIdentity,
            ObjectType::Email,
            ObjectType::ContactCard,
            ObjectType::CalendarEvent,
        ];
        assert(r@ =~= all_types());
        r
    }

    /// The kind that an archive name stands for.
    pub fn parse(token: &str) -> (r: Option<ObjectType>)
        ensures
            r == ObjectType::named(token@),
            match r {
                Some(t) => t.archive() == token@,
                None => forall|t: ObjectType| #[trigger] t.archive() != token@,
            },
    {
        if text::same(token, "mailbox") {
            Some(ObjectType::Mailbox)
        } else if text::same(token, "addressbook") {
            Some(ObjectType::AddressBook)
        } else if text::same(token, "calendar") {
            Some(ObjectType::Calendar)
        } else if text::same(token, "filenode") {
            Some(ObjectType::FileNode)
        } else if text::same(token, "identity") {
            Some(ObjectType::Identity)
        } else if text::same(token, "sievescript") {
            Some(ObjectType::SieveScript)
        } else if text::same(token, "participantidentity") {
            Some(ObjectType::ParticipantIdentity)
        } else if text::same(token, "email") {
            Some(ObjectType::Email)
        } else if text::same(token, "contactcard") {
            Some(ObjectType::ContactCard)
        } else if text::same(token, "calendarevent") {
            Some(ObjectType::CalendarEvent)
        } else {
            None
        }
    }
}

/// The archive name of a kind is its JMAP name in small letters.
pub proof fn archive_names_are_folded(t: ObjectType)
    ensures
        t.archive() == text::small_text(t.jmap()),
{
    reveal_strlit("Mailbox");
    reveal_strlit("mailbox");
    reveal_strlit("AddressBook");
    reveal_strlit("addressbook");
    reveal_strlit("Calendar");
    reveal_strlit("calendar");
    reveal_strlit("FileNode");
    reveal_strlit("filenode");
    reveal_strlit("Identity");
    reveal_strlit("identity");
    reveal_strlit("SieveScript");
    reveal_strlit("sievescript");
    reveal_strlit("ParticipantIdentity");
    reveal_strlit("participantidentity");
    reveal_strlit("Email");
    reveal_strlit("email");
    reveal_strlit("ContactCard");
    reveal_strlit("contactcard");
    reveal_strlit("CalendarEvent");
    reveal_strlit("calendarevent");
    assert(t.archive() =~= text::small_text(t.jmap()));
}

/// The archive's name of a kind stands for that kind and no other.
pub proof fn archive_names_tell_kinds_apart(t: ObjectType)
    ensures
        ObjectType::named(t.archive()) == Some(t),
{
    reveal_strlit("mailbox");
    reveal_strlit("addressbook");
    reveal_strlit("calendar");
    reveal_strlit("filenode");
    reveal_strlit("identity");
    reveal_strlit("sievescript");
    reveal_strlit("participantidentity");
    reveal_strlit("email");
    reveal_strlit("contactcard");
    reveal_strlit("calendarevent");
    let s = t.archive();
    assert(s.len() > 0);
    assert(s[0] == 'm' || s[0] == 'a' || s[0] == 'c' || s[0] == 'f' || s[0] == 'i' || s[0] == 's' || s[0] == 'p'
        || s[0] == 'e');
    assert("mailbox"@[0] == 'm' && "addressbook"@[0] == 'a' && "calendar"@[0] == 'c' && "filenode"@[0] == 'f'
        && "identity"@[0] == 'i' && "sievescript"@[0] == 's' && "participantidentity"@[0] == 'p' && "email"@[0]
        == 'e' && "contactcard"@[0] == 'c' && "calendarevent"@[0] == 'c');
}

/// How many objects of a kind met each outcome.
#[derive(Debug, Clone, Copy, PartialEq, Eq, Structural)]
pub struct TypeCounts {
    pub created: u64,
    pub fetched: u64,
    pub updated: u64,
    pub skipped: u64,
    pub deleted: u64,
    pub failed: u64,
}

impl TypeCounts {
    /// Nothing counted yet.
    pub open spec fn zero() -> TypeCounts {
        TypeCounts { created: 0, fetched: 0, updated: 0, skipped: 0, deleted: 0, failed: 0 }
    }

    /// Whether every counter can still be raised by `n`.
    pub open spec fn room(self, n: int) -> bool {
        &&& self.created + n <= u64::MAX
        &&& self.fetched + n <= u64::MAX
        &&& self.updated + n <= u64::MAX
        &&& self.skipped + n <= u64::MAX
        &&& self.deleted + n <= u64::MAX
        &&& self.failed + n <= u64::MAX
    }
}

impl Default for TypeCounts {
    fn default() -> (r: TypeCounts)
        ensures
            r == TypeCounts::zero(),
    {
        TypeCounts { created: 0, fetched: 0, updated: 0, skipped: 0, deleted: 0, failed: 0 }
    }
}

} // verus!
