//! An IMAP session: what is sent, and what follows from each response.

use vstd::prelude::*;
use vstd::string::*;

use crate::imap::error::{ImapError, ImapErrorView, NoError, NoView};
use crate::imap::response::{LineView, Response, ResponseView, Status, StatusLine, Untagged, UntaggedView};
use crate::text;
use crate::web::{base64_text, encode_base64};

verus! {

/// How a connection is secured.
#[derive(Debug, Clone, Copy, PartialEq, Eq, Structural)]
pub enum ConnectMode {
    ImplicitTls,
    Plain,
    StartTls,
}

/// How the server opened the session.
#[derive(Debug)]
pub struct Greeting {
    pub status: Status,
    pub text: String,
    pub code: Option<String>,
}

/// The state of a session.
pub struct ImapClient {
    /// What the server can do; nothing occurs twice (see [`ImapClient::well_formed`]).
    pub capabilities: Vec<String>,
    pub host: String,
    pub closed: bool,
    pub utf8_accept: bool,
    /// How many commands were given a tag.
    pub commands: u64,
}

/// The view of an [`ImapClient`].
pub struct ClientView {
    pub capabilities: Set<Seq<char>>,
    pub host: Seq<char>,
    pub closed: bool,
    pub utf8_accept: bool,
    pub commands: u64,
}

impl View for ImapClient {
    type V = ClientView;

    open spec fn view(&self) -> ClientView {
        ClientView {
            capabilities: text::texts(self.capabilities@).to_set(),
            host: self.host@,
            closed: self.closed,
            utf8_accept: self.utf8_accept,
            commands: self.commands,
        }
    }
}

impl ImapClient {
    /// No capability is held twice.
    pub open spec fn well_formed(&self) -> bool {
        text::texts(self.capabilities@).no_duplicates()
    }
}

impl ClientView {
    /// Whether the server can do something, whatever the case of its name.
    pub open spec fn can(self, name: Seq<char>) -> bool {
        exists|c: Seq<char>| #[trigger] self.capabilities.contains(c) && text::small_text(c) == text::small_text(name)
    }
}

/// Whether a character separates words.
pub open spec fn separates(c: char) -> bool {
    c == ' ' || c == '\t' || c == '\n' || c == '\r' || c == '\u{c}'
}

/// The words that end before `n`, and the one that is unfinished there.
pub open spec fn words_until(s: Seq<char>, n: nat) -> (Seq<Seq<char>>, Seq<char>)
    decreases n,
{
    if n == 0 {
        (Seq::empty(), Seq::empty())
    } else {
        let (done, word) = words_until(s, (n - 1) as nat);
        if separates(s[n - 1]) {
            (finished(done, word), Seq::empty())
        } else {
            (done, word.push(s[n - 1]))
        }
    }
}

/// Words with one more, where there is one.
pub open spec fn finished(done: Seq<Seq<char>>, word: Seq<char>) -> Seq<Seq<char>> {
    if word.len() > 0 {
        done.push(word)
    } else {
        done
    }
}

/// The words of a text.
pub open spec fn words(s: Seq<char>) -> Seq<Seq<char>> {
    let (done, word) = words_until(s, s.len());
    finished(done, word)
}

/// The words of a text.
pub fn parse_caps(s: &str) -> (r: Vec<String>)
    ensures
        text::texts(r@) == words(s@),
{
    let chars = text::chars_of(s);
    let mut done: Vec<String> = Vec::new();
    let mut word = String::new();
    assert(text::texts(done@) =~= Seq::<Seq<char>>::empty());
    let mut i: usize = 0;
    while i < chars.len()
        invariant
            i <= chars.len(),
            chars@ == s@,
            (text::texts(done@), word@) == words_until(s@, i as nat),
        decreases chars.len() - i,
    {
        let c: char = chars[i];
        if c == ' ' || c == '\t' || c == '\n' || c == '\r' || c == '\u{c}' {
            if !word.as_str().is_empty() {
                let ghost was = text::texts(done@);
                let ghost w = word@;
                done.push(word);
                assert(text::texts(done@) =~= was.push(w));
                word = String::new();
            }
            assert(word@ =~= Seq::<char>::empty());
        } else {
            word.push(c);
        }
        i += 1;
    }
    if !word.as_str().is_empty() {
        let ghost was = text::texts(done@);
        let ghost w = word@;
        done.push(word);
        assert(text::texts(done@) =~= was.push(w));
    }
    done
}

/// The word for a status.
pub fn status_word(status: Status) -> (r: &'static str)
    ensures
        r@ == match status {
            Status::Done => "OK"@,
            Status::No => "NO"@,
            Status::Bad => "BAD"@,
            Status::Bye => "BYE"@,
            Status::PreAuth => "PREAUTH"@,
        },
{
    match status {
        Status::Done => "OK",
        Status::No => "NO",
        Status::Bad => "BAD",
        Status::Bye => "BYE",
        Status::PreAuth => "PREAUTH",
    }
}

/// What a tagged line comes to: success, or the error that it stands for.
pub open spec fn line_error(line: LineView) -> Option<ImapErrorView> {
    match line.status {
        Status::Done => None,
        Status::No => Some(ImapErrorView::No(NoView { text: line.text, code: line.code })),
        Status::Bad => Some(ImapErrorView::Bad(line.text)),
        Status::Bye => Some(ImapErrorView::Bye(line.text)),
        Status::PreAuth => Some(ImapErrorView::Protocol("unexpected PREAUTH on tagged response"@)),
    }
}

/// An error where credentials were turned down is told apart from other refusals.
pub open spec fn sign_in_error(e: ImapErrorView) -> ImapErrorView {
    match e {
        ImapErrorView::No(n) => if n.auth_failed() {
            ImapErrorView::AuthFailed(n.text)
        } else {
            e
        },
        _ => e,
    }
}

/// What became of a command.
#[derive(Debug)]
pub struct CollectedResponse {
    pub tag: String,
    pub line: StatusLine,
    pub untagged: Vec<Untagged>,
}

/// The views of responses.
pub open spec fn untagged_views(v: Seq<Untagged>) -> Seq<UntaggedView> {
    Seq::new(v.len(), |i: int| v[i]@)
}

/// What to do after a response to a command.
#[derive(Debug)]
pub enum RunStep {
    /// Read the next response.
    More,
    /// Hand on a response that answers no command, and read the next one.
    HandOn(Untagged),
    Done(StatusLine),
    Failed(ImapError),
}

/// The view of a [`RunStep`].
pub enum RunStepView {
    More,
    HandOn(UntaggedView),
    Done(LineView),
    Failed(ImapErrorView),
}

impl View for RunStep {
    type V = RunStepView;

    open spec fn view(&self) -> RunStepView {
        match self {
            RunStep::More => RunStepView::More,
            RunStep::HandOn(u) => RunStepView::HandOn(u@),
            RunStep::Done(l) => RunStepView::Done(l@),
            RunStep::Failed(e) => RunStepView::Failed(e@),
        }
    }
}

/// A session in which the server can do what a list says.
pub open spec fn able(c: ClientView, caps: Seq<Seq<char>>) -> ClientView {
    ClientView { capabilities: caps.to_set(), ..c }
}

/// A session after a line that may say what the server can do.
pub open spec fn told(c: ClientView, line: LineView) -> ClientView {
    match line.code_args {
        Some(args) if line.code == Some("CAPABILITY"@) => able(c, words(args)),
        _ => c,
    }
}

/// A session after a response to a command, and what to do. A response with
/// another tag, and a request to go on, are out of place.
pub open spec fn run_step(c: ClientView, tag: Seq<char>, r: ResponseView) -> (ClientView, RunStepView) {
    match r {
        ResponseView::Tagged { tag: t, line } => if t == tag {
            (
                told(c, line),
                match line_error(line) {
                    None => RunStepView::Done(line),
                    Some(e) => RunStepView::Failed(e),
                },
            )
        } else {
            (
                c,
                RunStepView::Failed(
                    ImapErrorView::Protocol("expected tag "@ + tag + (", got "@ + t)),
                ),
            )
        },
        ResponseView::Untagged(UntaggedView::Bye(t)) => (
            ClientView { closed: true, ..c },
            RunStepView::Failed(ImapErrorView::Bye(t)),
        ),
        ResponseView::Untagged(UntaggedView::Capability(caps)) => (
            able(c, caps),
            RunStepView::HandOn(UntaggedView::Capability(caps)),
        ),
        ResponseView::Untagged(u) => (c, RunStepView::HandOn(u)),
        ResponseView::Continuation(_) => (
            c,
            RunStepView::Failed(
                ImapErrorView::Protocol("unexpected continuation outside AUTHENTICATE"@),
            ),
        ),
    }
}

/// What the last of the first `n` responses that says so names as what the server
/// can do.
pub open spec fn last_list(v: Seq<UntaggedView>, n: nat) -> Option<Seq<Seq<char>>>
    decreases n,
{
    if n == 0 {
        None
    } else {
        match v[n - 1] {
            UntaggedView::Capability(caps) => Some(caps),
            _ => last_list(v, (n - 1) as nat),
        }
    }
}

/// As [`run_step`], where the responses that answer no command are gathered.
pub open spec fn collect_step(c: ClientView, gathered: Seq<UntaggedView>, tag: Seq<char>, r: ResponseView) -> (
    ClientView,
    Seq<UntaggedView>,
    RunStepView,
) {
    let (next, step) = run_step(c, tag, r);
    match step {
        RunStepView::HandOn(u) => (next, gathered.push(u), RunStepView::More),
        _ => (next, gathered, step),
    }
}

/// How a command goes over some responses where those that answer no command are
/// handed on: the session then, what was handed on, in order, and how it ended,
/// if it did.
pub open spec fn streamed_run(c: ClientView, tag: Seq<char>, rs: Seq<ResponseView>) -> (
    ClientView,
    Seq<UntaggedView>,
    RunStepView,
)
    decreases rs.len(),
{
    if rs.len() == 0 {
        (c, Seq::empty(), RunStepView::More)
    } else {
        let (next, step) = run_step(c, tag, rs[0]);
        match step {
            RunStepView::HandOn(u) => {
                let (end, more, last) = streamed_run(next, tag, rs.drop_first());
                (end, seq![u] + more, last)
            },
            RunStepView::More => streamed_run(next, tag, rs.drop_first()),
            _ => (next, Seq::empty(), step),
        }
    }
}

/// How a command goes over some responses where those that answer no command are
/// gathered.
pub open spec fn collected_run(
    c: ClientView,
    gathered: Seq<UntaggedView>,
    tag: Seq<char>,
    rs: Seq<ResponseView>,
) -> (ClientView, Seq<UntaggedView>, RunStepView)
    decreases rs.len(),
{
    if rs.len() == 0 {
        (c, gathered, RunStepView::More)
    } else {
        let (next, now, step) = collect_step(c, gathered, tag, rs[0]);
        match step {
            RunStepView::More => collected_run(next, now, tag, rs.drop_first()),
            _ => (next, now, step),
        }
    }
}

fn copy_texts(v: &Vec<String>) -> (r: Vec<String>)
    ensures
        text::texts(r@).to_set() == text::texts(v@).to_set(),
        text::texts(r@).no_duplicates(),
{
    let ghost all = text::texts(v@);
    let mut out: Vec<String> = Vec::new();
    let mut i: usize = 0;
    assert(text::texts(out@) =~= all.take(0));
    while i < v.len()
        invariant
            i <= v.len(),
            all == text::texts(v@),
            text::texts(out@).no_duplicates(),
            forall|t: Seq<char>| #[trigger] text::texts(out@).contains(t) <==> all.take(i as int).contains(t),
        decreases v.len() - i,
    {
        let ghost was = text::texts(out@);
        let ghost x = all[i as int];
        let ghost before = all.take(i as int);
        let ghost after = all.take(i + 1);
        assert(x == v@[i as int]@);
        assert(after =~= before.push(x));
        if !text::listed(&out, v[i].as_str()) {
            out.push(v[i].clone());
            assert(text::texts(out@) =~= was.push(x));
        }
        proof {
            let now = text::texts(out@);
            assert(now.contains(x)) by {
                if was.contains(x) {
                    assert(now =~= was);
                } else {
                    assert(now[was.len() as int] == x);
                }
            }
            assert forall|t: Seq<char>| #[trigger] now.contains(t) implies after.contains(t) by {
                let m = choose|m: int| 0 <= m < now.len() && now[m] == t;
                if m < was.len() {
                    assert(was[m] == t);
                    assert(was.contains(t));
                    let k = choose|k: int| 0 <= k < before.len() && before[k] == t;
                    assert(after[k] == t);
                } else {
                    assert(after[i as int] == t);
                }
            }
            assert forall|t: Seq<char>| #[trigger] after.contains(t) implies now.contains(t) by {
                let k = choose|k: int| 0 <= k < after.len() && after[k] == t;
                if k < before.len() {
                    assert(before[k] == t);
                    assert(before.contains(t));
                    assert(was.contains(t));
                    let m = choose|m: int| 0 <= m < was.len() && was[m] == t;
                    assert(now[m] == t);
                }
            }
        }
        i += 1;
    }
    assert(all.take(all.len() as int) =~= all);
    assert(text::texts(out@).to_set() =~= all.to_set());
    out
}

/// The tag of a command, by its number.
pub open spec fn tag_text(n: nat) -> Seq<char> {
    "A"@ + text::padded_text(n, 4)
}

/// A command as it is sent.
pub open spec fn command_line(tag: Seq<char>, command: Seq<char>) -> Seq<char> {
    tag + " "@ + (command + "\r\n"@)
}

impl ImapClient {
    /// A session that has just begun.
    pub fn new(host: &str) -> (r: ImapClient)
        ensures
            r.well_formed(),
            r@ == (ClientView {
                capabilities: Set::empty(),
                host: host@,
                closed: false,
                utf8_accept: false,
                commands: 0,
            }),
    {
        let capabilities: Vec<String> = Vec::new();
        assert(text::texts(capabilities@).to_set() =~= Set::<Seq<char>>::empty());
        ImapClient { capabilities, host: host.to_owned(), closed: false, utf8_accept: false, commands: 0 }
    }

    /// Whether the server can do something, whatever the case of its name.
    pub fn has_capability(&self, name: &str) -> (r: bool)
        ensures
            r == self@.can(name@),
    {
        let ghost all = text::texts(self.capabilities@);
        let mut i: usize = 0;
        while i < self.capabilities.len()
            invariant
                i <= self.capabilities.len(),
                all == text::texts(self.capabilities@),
                forall|j: int|
                    0 <= j < i ==> text::small_text(#[trigger] all[j]) != text::small_text(name@),
            decreases self.capabilities.len() - i,
        {
            assert(all[i as int] == self.capabilities@[i as int]@);
            if text::same_ignoring_case(self.capabilities[i].as_str(), name) {
                assert(all.contains(all[i as int]));
                assert(self@.capabilities.contains(all[i as int]));
                return true;
            }
            i += 1;
        }
        proof {
            assert forall|c: Seq<char>| #[trigger] self@.capabilities.contains(c) implies text::small_text(c)
                != text::small_text(name@) by {
                let k = choose|k: int| 0 <= k < all.len() && all[k] == c;
                assert(text::small_text(all[k]) != text::small_text(name@));
            }
        }
        false
    }

    /// Takes in what the server says it can do.
    pub fn set_capabilities(&mut self, caps: &Vec<String>)
        ensures
            final(self).well_formed(),
            final(self)@ == able(old(self)@, text::texts(caps@)),
    {
        self.capabilities = copy_texts(caps);
    }

    fn update_capabilities_from_code(&mut self, line: &StatusLine)
        ensures
            old(self).well_formed() ==> final(self).well_formed(),
            final(self)@ == told(old(self)@, line@),
    {
        let named = match &line.code {
            Some(c) => text::same(c.as_str(), "CAPABILITY"),
            None => false,
        };
        match &line.code_args {
            Some(args) => {
                if named {
                    let caps = parse_caps(args.as_str());
                    self.set_capabilities(&caps);
                }
            },
            None => {},
        }
    }

    /// Takes in the greeting. `shown` is how a response that is none is shown.
    pub fn read_greeting(&mut self, r: Response, shown: &str) -> (g: Result<Greeting, ImapError>)
        ensures
            old(self).well_formed() ==> final(self).well_formed(),
            match r@ {
                ResponseView::Untagged(UntaggedView::StatusLine(line)) => final(self)@ == told(old(self)@, line)
                    && (g matches Ok(x) && x.status == line.status && x.text@ == line.text && text::opt_text(
                    x.code,
                ) == line.code),
                ResponseView::Untagged(UntaggedView::Bye(t)) => final(self)@ == old(self)@ && (g matches Err(e)
                    && e@ == ImapErrorView::Bye(t)),
                _ => final(self)@ == old(self)@ && (g matches Err(e) && e@ == ImapErrorView::Protocol(
                    "expected greeting, got "@ + shown@,
                )),
            },
    {
        match r {
            Response::Untagged(Untagged::StatusLine(line)) => {
                self.update_capabilities_from_code(&line);
                Ok(Greeting { status: line.status, text: line.text, code: line.code })
            },
            Response::Untagged(Untagged::Bye(t)) => Err(ImapError::Bye(t)),
            _ => Err(ImapError::Protocol(text::joined("expected greeting, got ", shown))),
        }
    }

    /// Takes in the answer to the question what the server can do: the last list
    /// in it counts. The server must have said something by then.
    pub fn send_capability(&mut self, untagged: &Vec<Untagged>) -> (r: Result<(), ImapError>)
        ensures
            old(self).well_formed() ==> final(self).well_formed(),
            ({
                let now = match last_list(untagged_views(untagged@), untagged@.len()) {
                    Some(caps) => able(old(self)@, caps),
                    None => old(self)@,
                };
                &&& final(self)@ == now
                &&& match r {
                    Ok(_) => now.capabilities.len() > 0,
                    Err(e) => now.capabilities.len() == 0 && e@ == ImapErrorView::Protocol(
                        "server returned no CAPABILITY response"@,
                    ),
                }
            }),
    {
        let ghost all = untagged_views(untagged@);
        let ghost start = self@;
        let ghost sound = self.well_formed();
        let mut i: usize = 0;
        while i < untagged.len()
            invariant
                sound ==> self.well_formed(),
                i <= untagged.len(),
                all == untagged_views(untagged@),
                self@ == (match last_list(all, i as nat) {
                    Some(caps) => able(start, caps),
                    None => start,
                }),
            decreases untagged.len() - i,
        {
            assert(all[i as int] == untagged@[i as int]@);
            match &untagged[i] {
                Untagged::Capability(caps) => self.set_capabilities(caps),
                _ => {},
            }
            i += 1;
        }
        proof {
            let names = text::texts(self.capabilities@);
            vstd::seq_lib::seq_to_set_is_finite(names);
            if names.len() == 0 {
                assert(names.to_set() =~= Set::<Seq<char>>::empty());
            } else {
                assert(names.contains(names[0]));
                assert(names.to_set().contains(names[0]));
                vstd::set_lib::lemma_set_empty_equivalency_len(names.to_set());
            }
        }
        if self.capabilities.len() == 0 {
            Err(ImapError::Protocol("server returned no CAPABILITY response".to_owned()))
        } else {
            Ok(())
        }
    }

    /// Whether a session in the clear is to be secured before anything else, given
    /// how connections are to be secured.
    pub fn connect(&self, mode: ConnectMode) -> (r: Result<bool, ImapError>)
        ensures
            mode is StartTls && !self@.can("STARTTLS"@) ==> (r matches Err(e) && e@ == ImapErrorView::Unsupported(
                "server does not advertise STARTTLS but cleartext credentials are forbidden"@,
            )),
            mode is StartTls && self@.can("STARTTLS"@) ==> r == Ok::<bool, ImapError>(true),
            !(mode is StartTls) ==> r == Ok::<bool, ImapError>(false),
    {
        match mode {
            ConnectMode::StartTls => if self.has_capability("STARTTLS") {
                Ok(true)
            } else {
                Err(
                    ImapError::Unsupported(
                        "server does not advertise STARTTLS but cleartext credentials are forbidden".to_owned(),
                    ),
                )
            },
            _ => Ok(false),
        }
    }

    /// Whether a stream may be secured: not where it is already.
    pub fn starttls(is_tls: bool) -> (r: Result<(), ImapError>)
        ensures
            match r {
                Ok(_) => !is_tls,
                Err(e) => is_tls && e@ == ImapErrorView::Protocol("STARTTLS issued but stream already TLS"@),
            },
    {
        if is_tls {
            Err(ImapError::Protocol("STARTTLS issued but stream already TLS".to_owned()))
        } else {
            Ok(())
        }
    }

    /// Whether mailbox names come in UTF-8.
    pub fn utf8_accept(&self) -> (r: bool)
        ensures
            r == self@.utf8_accept,
    {
        self.utf8_accept
    }

    /// Whether extensions can be enabled.
    pub fn can_enable(&self) -> (r: Result<(), ImapError>)
        ensures
            match r {
                Ok(_) => self@.can("ENABLE"@),
                Err(e) => !self@.can("ENABLE"@) && e@ == ImapErrorView::Unsupported(
                    "server does not advertise ENABLE"@,
                ),
            },
    {
        if self.has_capability("ENABLE") {
            Ok(())
        } else {
            Err(ImapError::Unsupported("server does not advertise ENABLE".to_owned()))
        }
    }

    /// Takes in which extensions the server enabled: those of all responses that
    /// say so, in order.
    pub fn enable(&mut self, untagged: &Vec<Untagged>) -> (r: Vec<String>)
        ensures
            old(self).well_formed() ==> final(self).well_formed(),
            text::texts(r@) == enabled_in(untagged_views(untagged@), untagged@.len()),
            final(self)@ == (ClientView {
                utf8_accept: old(self)@.utf8_accept || names_utf8(text::texts(r@)),
                ..old(self)@
            }),
    {
        let out = collect_enabled(untagged);
        let ghost all = text::texts(out@);
        let mut found = false;
        let mut i: usize = 0;
        while i < out.len()
            invariant
                i <= out.len(),
                all == text::texts(out@),
                found == exists|k: int|
                    0 <= k < i && text::small_text(#[trigger] all[k]) == text::small_text("UTF8=ACCEPT"@),
            decreases out.len() - i,
        {
            assert(all[i as int] == out@[i as int]@);
            if text::same_ignoring_case(out[i].as_str(), "UTF8=ACCEPT") {
                found = true;
            }
            i += 1;
        }
        if found {
            self.utf8_accept = true;
        }
        out
    }

    /// Whether the stream can be compressed.
    pub fn compress_deflate(&self) -> (r: Result<(), ImapError>)
        ensures
            match r {
                Ok(_) => self@.can("COMPRESS=DEFLATE"@),
                Err(e) => !self@.can("COMPRESS=DEFLATE"@) && e@ == ImapErrorView::Unsupported(
                    "server does not advertise COMPRESS=DEFLATE"@,
                ),
            },
    {
        if self.has_capability("COMPRESS=DEFLATE") {
            Ok(())
        } else {
            Err(ImapError::Unsupported("server does not advertise COMPRESS=DEFLATE".to_owned()))
        }
    }

    /// Whether a password may be sent in the clear part of the protocol.
    pub fn login(&self) -> (r: Result<(), ImapError>)
        ensures
            match r {
                Ok(_) => !self@.capabilities.contains("LOGINDISABLED"@),
                Err(e) => self@.capabilities.contains("LOGINDISABLED"@) && e@ == ImapErrorView::Unsupported(
                    "server advertises LOGINDISABLED"@,
                ),
            },
    {
        if text::listed(&self.capabilities, "LOGINDISABLED") {
            Err(ImapError::Unsupported("server advertises LOGINDISABLED".to_owned()))
        } else {
            Ok(())
        }
    }

    fn tagged(&mut self, command: &str) -> (r: (String, String))
        requires
            old(self)@.commands < u64::MAX,
        ensures
            old(self).well_formed() ==> final(self).well_formed(),
            final(self)@ == (ClientView { commands: (old(self)@.commands + 1) as u64, ..old(self)@ }),
            r.0@ == tag_text((old(self)@.commands + 1) as nat),
            r.1@ == command_line(r.0@, command@),
    {
        self.commands = self.commands + 1;
        let number = text::padded(self.commands as u128, 4);
        let tag = text::joined("A", number.as_str());
        let tail = text::joined(command, "\r\n");
        let line = text::joined3(tag.as_str(), " ", tail.as_str());
        (tag, line)
    }

    /// Gives a command its tag and puts it in the form in which it is sent. One
    /// with a literal is refused where the server wants literals announced.
    pub fn begin(&mut self, command: &str, has_literal: bool) -> (r: Result<(String, String), ImapError>)
        requires
            old(self)@.commands < u64::MAX,
        ensures
            old(self).well_formed() ==> final(self).well_formed(),
            final(self)@ == (ClientView { commands: (old(self)@.commands + 1) as u64, ..old(self)@ }),
            ({
                let refused = has_literal && !old(self)@.can("LITERAL+"@) && !old(self)@.can("LITERAL-"@);
                match r {
                    Ok((tag, line)) => !refused && tag@ == tag_text((old(self)@.commands + 1) as nat) && line@
                        == command_line(tag@, command@),
                    Err(e) => refused && e@ == ImapErrorView::Unsupported(
                        "command contains a non-ASCII literal but server does not advertise LITERAL+ or LITERAL-"@,
                    ),
                }
            }),
    {
        let plain = !has_literal || self.has_capability("LITERAL+") || self.has_capability("LITERAL-");
        let sent = self.tagged(command);
        if !plain {
            return Err(
                ImapError::Unsupported(
                    "command contains a non-ASCII literal but server does not advertise LITERAL+ or LITERAL-".to_owned(),
                ),
            );
        }
        Ok(sent)
    }

    /// Begins asking what the server can do.
    pub fn refresh_capabilities(&mut self) -> (r: (String, String))
        requires
            old(self)@.commands < u64::MAX,
        ensures
            old(self).well_formed() ==> final(self).well_formed(),
            final(self)@ == (ClientView { commands: (old(self)@.commands + 1) as u64, ..old(self)@ }),
            r.0@ == tag_text((old(self)@.commands + 1) as nat),
            r.1@ == command_line(r.0@, "CAPABILITY"@),
    {
        self.tagged("CAPABILITY")
    }

    /// Begins a command that does nothing.
    pub fn noop(&mut self) -> (r: (String, String))
        requires
            old(self)@.commands < u64::MAX,
        ensures
            old(self).well_formed() ==> final(self).well_formed(),
            final(self)@ == (ClientView { commands: (old(self)@.commands + 1) as u64, ..old(self)@ }),
            r.0@ == tag_text((old(self)@.commands + 1) as nat),
            r.1@ == command_line(r.0@, "NOOP"@),
    {
        self.tagged("NOOP")
    }

    /// Takes in a response to a command; see [`run_step`].
    pub fn run_streamed(&mut self, tag: &str, r: Response) -> (s: RunStep)
        ensures
            old(self).well_formed() ==> final(self).well_formed(),
            (final(self)@, s@) == run_step(old(self)@, tag@, r@),
    {
        match r {
            Response::Tagged { tag: t, line } => {
                if !text::same(t.as_str(), tag) {
                    let tail = text::joined(", got ", t.as_str());
                    return RunStep::Failed(
                        ImapError::Protocol(text::joined3("expected tag ", tag, tail.as_str())),
                    );
                }
                self.update_capabilities_from_code(&line);
                match line.status {
                    Status::Done => RunStep::Done(line),
                    Status::No => RunStep::Failed(ImapError::No(NoError::new(line.text, line.code))),
                    Status::Bad => RunStep::Failed(ImapError::Bad(line.text)),
                    Status::Bye => RunStep::Failed(ImapError::Bye(line.text)),
                    Status::PreAuth => RunStep::Failed(
                        ImapError::Protocol("unexpected PREAUTH on tagged response".to_owned()),
                    ),
                }
            },
            Response::Untagged(Untagged::Bye(t)) => {
                self.closed = true;
                RunStep::Failed(ImapError::Bye(t))
            },
            Response::Untagged(Untagged::Capability(caps)) => {
                self.set_capabilities(&caps);
                RunStep::HandOn(Untagged::Capability(caps))
            },
            Response::Untagged(u) => RunStep::HandOn(u),
            Response::Continuation(_) => RunStep::Failed(
                ImapError::Protocol("unexpected continuation outside AUTHENTICATE".to_owned()),
            ),
        }
    }

    /// Takes in a response to a command, gathering those that answer no command.
    pub fn run_collect(&mut self, tag: &str, untagged: &mut Vec<Untagged>, r: Response) -> (s: RunStep)
        ensures
            old(self).well_formed() ==> final(self).well_formed(),
            (final(self)@, untagged_views(final(untagged)@), s@) == collect_step(
                old(self)@,
                untagged_views(old(untagged)@),
                tag@,
                r@,
            ),
    {
        match self.run_streamed(tag, r) {
            RunStep::HandOn(u) => {
                let ghost was = untagged_views(untagged@);
                let ghost x = u@;
                untagged.push(u);
                assert(untagged_views(untagged@) =~= was.push(x));
                RunStep::More
            },
            step => step,
        }
    }

    /// Whether the session is to be closed by a command: not where it is closed.
    pub fn logout(&mut self) -> (r: bool)
        ensures
            old(self).well_formed() ==> final(self).well_formed(),
            r == !old(self)@.closed,
            final(self)@ == (ClientView { closed: true, ..old(self)@ }),
    {
        let open = !self.closed;
        self.closed = true;
        open
    }

    /// What a tagged line that ends signing in comes to.
    pub fn finish_tagged(line: StatusLine) -> (r: Result<(), ImapError>)
        ensures
            match line_error(line@) {
                None => r is Ok,
                Some(e) => r matches Err(x) && x@ == sign_in_error(e),
            },
    {
        match line.status {
            Status::Done => Ok(()),
            Status::No => {
                let no = NoError::new(line.text, line.code);
                if no.is_auth_failed() {
                    Err(ImapError::AuthFailed(no.text))
                } else {
                    Err(ImapError::No(no))
                }
            },
            Status::Bad => Err(ImapError::Bad(line.text)),
            Status::Bye => Err(ImapError::Bye(line.text)),
            Status::PreAuth => Err(ImapError::Protocol("unexpected PREAUTH on tagged response".to_owned())),
        }
    }

    /// What the error of a command that signs in comes to.
    pub fn sign_in_failed(e: ImapError) -> (r: ImapError)
        ensures
            r@ == sign_in_error(e@),
    {
        match e {
            ImapError::No(no) => if no.is_auth_failed() {
                ImapError::AuthFailed(no.text)
            } else {
                ImapError::No(no)
            },
            other => other,
        }
    }
}

/// The extensions that the first `n` responses say are enabled.
pub open spec fn enabled_in(v: Seq<UntaggedView>, n: nat) -> Seq<Seq<char>>
    decreases n,
{
    if n == 0 {
        Seq::empty()
    } else {
        let rest = enabled_in(v, (n - 1) as nat);
        match v[n - 1] {
            UntaggedView::Enabled(e) => rest + e,
            _ => rest,
        }
    }
}

/// Whether extensions name UTF-8 for mailbox names.
pub open spec fn names_utf8(v: Seq<Seq<char>>) -> bool {
    exists|i: int| 0 <= i < v.len() && text::small_text(#[trigger] v[i]) == text::small_text("UTF8=ACCEPT"@)
}

fn collect_enabled(untagged: &Vec<Untagged>) -> (r: Vec<String>)
    ensures
        text::texts(r@) == enabled_in(untagged_views(untagged@), untagged@.len()),
{
    let ghost all = untagged_views(untagged@);
    let mut out: Vec<String> = Vec::new();
    assert(text::texts(out@) =~= Seq::<Seq<char>>::empty());
    let mut i: usize = 0;
    while i < untagged.len()
        invariant
            i <= untagged.len(),
            all == untagged_views(untagged@),
            text::texts(out@) == enabled_in(all, i as nat),
        decreases untagged.len() - i,
    {
        assert(all[i as int] == untagged@[i as int]@);
        match &untagged[i] {
            Untagged::Enabled(e) => {
                extend(&mut out, e);
            },
            _ => {},
        }
        i += 1;
    }
    out
}

fn extend(out: &mut Vec<String>, more: &Vec<String>)
    ensures
        text::texts(final(out)@) == text::texts(old(out)@) + text::texts(more@),
{
    let ghost was = text::texts(out@);
    let ghost all = text::texts(more@);
    let mut i: usize = 0;
    assert(was + all.take(0) =~= was);
    while i < more.len()
        invariant
            i <= more.len(),
            all == text::texts(more@),
            text::texts(out@) == was + all.take(i as int),
        decreases more.len() - i,
    {
        let ghost here = text::texts(out@);
        assert(all[i as int] == more@[i as int]@);
        out.push(more[i].clone());
        assert(text::texts(out@) =~= here.push(all[i as int]));
        assert(all.take(i + 1) =~= all.take(i as int).push(all[i as int]));
        assert(here.push(all[i as int]) =~= was + all.take(i + 1));
        i += 1;
    }
    assert(all.take(all.len() as int) =~= all);
}

/// The bytes that PLAIN sends: no other identity, the user, the password.
pub open spec fn plain_bytes(user: Seq<char>, password: Seq<char>) -> Seq<u8> {
    seq![0u8] + vstd::utf8::encode_utf8(user) + (seq![0u8] + vstd::utf8::encode_utf8(password))
}

/// The text that XOAUTH2 sends.
pub open spec fn xoauth2_text(user: Seq<char>, token: Seq<char>) -> Seq<char> {
    "user="@ + user + ("\x01auth=Bearer "@ + token + "\x01\x01"@)
}

/// The text that OAUTHBEARER sends.
pub open spec fn oauthbearer_text(user: Seq<char>, token: Seq<char>) -> Seq<char> {
    "n,a="@ + user + (",\x01auth=Bearer "@ + token + "\x01\x01"@)
}

/// Signing in by a mechanism: what is sent, and whether it was sent.
pub struct SignIn {
    /// The command.
    pub command: String,
    /// What answers a request to go on.
    pub encoded: String,
    /// Whether it went with the command, so that no request to go on is in place.
    pub with_command: bool,
    /// Whether the first request to go on has been answered.
    pub sent: bool,
    /// Whether every request to go on gets the same answer; else those after the
    /// first get an empty one.
    pub repeats: bool,
}

/// The view of a [`SignIn`].
pub struct SignInView {
    pub command: Seq<char>,
    pub encoded: Seq<char>,
    pub with_command: bool,
    pub sent: bool,
    pub repeats: bool,
}

impl View for SignIn {
    type V = SignInView;

    open spec fn view(&self) -> SignInView {
        SignInView {
            command: self.command@,
            encoded: self.encoded@,
            with_command: self.with_command,
            sent: self.sent,
            repeats: self.repeats,
        }
    }
}

/// How signing in begins. Where the server takes it, what is to be sent goes with
/// the command.
pub open spec fn sign_in(c: ClientView, mechanism: Seq<char>, payload: Seq<u8>, repeats: bool) -> SignInView {
    let encoded = base64_text(payload);
    SignInView {
        command: if c.can("SASL-IR"@) {
            "AUTHENTICATE "@ + mechanism + (" "@ + encoded)
        } else {
            "AUTHENTICATE "@ + mechanism
        },
        encoded,
        with_command: c.can("SASL-IR"@),
        sent: false,
        repeats,
    }
}

fn begin_sign_in(c: &ImapClient, mechanism: &str, payload: &[u8], repeats: bool) -> (r: SignIn)
    ensures
        r@ == sign_in(c@, mechanism@, payload@, repeats),
{
    let encoded = encode_base64(payload);
    let head = text::joined("AUTHENTICATE ", mechanism);
    let with_command = c.has_capability("SASL-IR");
    let command = if with_command {
        let tail = text::joined(" ", encoded.as_str());
        text::joined(head.as_str(), tail.as_str())
    } else {
        head
    };
    SignIn { command, encoded, with_command, sent: false, repeats }
}

/// What follows from a response while signing in.
#[derive(Debug)]
pub enum SignInStep {
    /// Read the next response.
    More,
    /// Send a line, and read the next response.
    Send(String),
    Done,
    Failed(ImapError),
}

/// The view of a [`SignInStep`].
pub enum SignInStepView {
    More,
    Send(Seq<char>),
    Done,
    Failed(ImapErrorView),
}

impl View for SignInStep {
    type V = SignInStepView;

    open spec fn view(&self) -> SignInStepView {
        match self {
            SignInStep::More => SignInStepView::More,
            SignInStep::Send(t) => SignInStepView::Send(t@),
            SignInStep::Done => SignInStepView::Done,
            SignInStep::Failed(e) => SignInStepView::Failed(e@),
        }
    }
}

/// A session, and signing in, after a response, and what to do. Where what is to
/// be sent went with the command, the responses are those to any command: a
/// request to go on is out of place. Else requests to go on are answered, and
/// responses to other commands are passed over.
pub open spec fn sign_in_step(c: ClientView, s: SignInView, tag: Seq<char>, r: ResponseView) -> (
    ClientView,
    SignInView,
    SignInStepView,
) {
    if s.with_command {
        let (next, step) = run_step(c, tag, r);
        (
            next,
            s,
            match step {
                RunStepView::Done(_) => SignInStepView::Done,
                RunStepView::Failed(e) => SignInStepView::Failed(sign_in_error(e)),
                _ => SignInStepView::More,
            },
        )
    } else {
        match r {
            ResponseView::Continuation(_) => (
                c,
                SignInView { sent: true, ..s },
                SignInStepView::Send(
                    if s.sent && !s.repeats {
                        "\r\n"@
                    } else {
                        s.encoded + "\r\n"@
                    },
                ),
            ),
            ResponseView::Tagged { tag: t, line } => if t == tag {
                (
                    told(c, line),
                    s,
                    match line_error(line) {
                        None => SignInStepView::Done,
                        Some(e) => SignInStepView::Failed(sign_in_error(e)),
                    },
                )
            } else {
                (c, s, SignInStepView::More)
            },
            ResponseView::Untagged(UntaggedView::Capability(caps)) => (
                able(c, caps),
                s,
                SignInStepView::More,
            ),
            _ => (c, s, SignInStepView::More),
        }
    }
}

impl ImapClient {
    /// Begins signing in by PLAIN.
    pub fn authenticate_plain(&self, authcid: &str, password: &str) -> (r: SignIn)
        ensures
            r@ == sign_in(self@, "PLAIN"@, plain_bytes(authcid@, password@), true),
    {
        let mut payload: Vec<u8> = Vec::new();
        payload.push(0);
        text::append(&mut payload, authcid.as_bytes());
        payload.push(0);
        text::append(&mut payload, password.as_bytes());
        assert(payload@ =~= plain_bytes(authcid@, password@));
        begin_sign_in(self, "PLAIN", payload.as_slice(), true)
    }

    /// Begins signing in by XOAUTH2.
    pub fn authenticate_xoauth2(&self, user: &str, token: &str) -> (r: SignIn)
        ensures
            r@ == sign_in(self@, "XOAUTH2"@, vstd::utf8::encode_utf8(xoauth2_text(user@, token@)), false),
    {
        let tail = text::joined3("\x01auth=Bearer ", token, "\x01\x01");
        let payload = text::joined3("user=", user, tail.as_str());
        begin_sign_in(self, "XOAUTH2", payload.as_str().as_bytes(), false)
    }

    /// Begins signing in by OAUTHBEARER.
    pub fn authenticate_oauthbearer(&self, user: &str, token: &str) -> (r: SignIn)
        ensures
            r@ == sign_in(self@, "OAUTHBEARER"@, vstd::utf8::encode_utf8(oauthbearer_text(user@, token@)), false),
    {
        let tail = text::joined3(",\x01auth=Bearer ", token, "\x01\x01");
        let payload = text::joined3("n,a=", user, tail.as_str());
        begin_sign_in(self, "OAUTHBEARER", payload.as_str().as_bytes(), false)
    }

    /// Takes in a response while signing in; see [`sign_in_step`].
    pub fn drive_bearer_sasl(&mut self, s: &mut SignIn, tag: &str, r: Response) -> (step: SignInStep)
        ensures
            old(self).well_formed() ==> final(self).well_formed(),
            (final(self)@, final(s)@, step@) == sign_in_step(old(self)@, old(s)@, tag@, r@),
    {
        if s.with_command {
            return match self.run_streamed(tag, r) {
                RunStep::Done(_) => SignInStep::Done,
                RunStep::Failed(e) => SignInStep::Failed(ImapClient::sign_in_failed(e)),
                _ => SignInStep::More,
            };
        }
        match r {
            Response::Continuation(_) => {
                let line = if s.sent && !s.repeats {
                    "\r\n".to_owned()
                } else {
                    text::joined(s.encoded.as_str(), "\r\n")
                };
                s.sent = true;
                SignInStep::Send(line)
            },
            Response::Tagged { tag: t, line } => {
                if !text::same(t.as_str(), tag) {
                    return SignInStep::More;
                }
                self.update_capabilities_from_code(&line);
                match ImapClient::finish_tagged(line) {
                    Ok(_) => SignInStep::Done,
                    Err(e) => SignInStep::Failed(e),
                }
            },
            Response::Untagged(Untagged::Capability(caps)) => {
                self.set_capabilities(&caps);
                SignInStep::More
            },
            _ => SignInStep::More,
        }
    }
}

/// A token is sent once: after it went with the command, or answered a request to
/// go on, whatever the server asks for gets an empty line at most.
pub proof fn a_token_is_sent_once(c: ClientView, s: SignInView, tag: Seq<char>, r: ResponseView)
    requires
        s.sent || s.with_command,
        !s.repeats,
    ensures
        ({
            let (_, next, step) = sign_in_step(c, s, tag, r);
            &&& next.sent || next.with_command
            &&& !next.repeats
            &&& step matches SignInStepView::Send(line) ==> line == "\r\n"@
        }),
{
}

/// Where credentials go with the command, by whatever mechanism, a request to go
/// on is an error, and nothing more is ever sent.
pub proof fn credentials_with_the_command_are_all(
    c: ClientView,
    mechanism: Seq<char>,
    payload: Seq<u8>,
    repeats: bool,
    now: ClientView,
    tag: Seq<char>,
    r: ResponseView,
)
    requires
        c.can("SASL-IR"@),
    ensures
        ({
            let (next, s, step) = sign_in_step(now, sign_in(c, mechanism, payload, repeats), tag, r);
            &&& s == sign_in(c, mechanism, payload, repeats)
            &&& !(step is Send)
            &&& r is Continuation ==> next == now && step == SignInStepView::Failed(
                ImapErrorView::Protocol("unexpected continuation outside AUTHENTICATE"@),
            )
        }),
{
}

/// A command whose responses are gathered goes as one whose responses are handed
/// on: over the same responses both leave the session in the same state and end
/// in the same way, and what was gathered is what was handed on, in order.
pub proof fn collecting_and_streaming_agree(
    c: ClientView,
    gathered: Seq<UntaggedView>,
    tag: Seq<char>,
    rs: Seq<ResponseView>,
)
    ensures
        ({
            let (streamed, handed_on, ended) = streamed_run(c, tag, rs);
            collected_run(c, gathered, tag, rs) == (streamed, gathered + handed_on, ended)
        }),
    decreases rs.len(),
{
    if rs.len() == 0 {
        assert(gathered + Seq::<UntaggedView>::empty() =~= gathered);
    } else {
        let (next, step) = run_step(c, tag, rs[0]);
        match step {
            RunStepView::HandOn(u) => {
                collecting_and_streaming_agree(next, gathered.push(u), tag, rs.drop_first());
                let more = streamed_run(next, tag, rs.drop_first()).1;
                assert(gathered.push(u) + more =~= gathered + (seq![u] + more));
            },
            RunStepView::More => {
                collecting_and_streaming_agree(next, gathered, tag, rs.drop_first());
            },
            _ => {
                assert(gathered + Seq::<UntaggedView>::empty() =~= gathered);
            },
        }
    }
}

/// What a session is called never changes while a command runs.
pub proof fn sessions_keep_their_host(c: ClientView, tag: Seq<char>, rs: Seq<ResponseView>)
    ensures
        streamed_run(c, tag, rs).0.host == c.host,
    decreases rs.len(),
{
    if rs.len() > 0 {
        let (next, step) = run_step(c, tag, rs[0]);
        if step is HandOn || step is More {
            sessions_keep_their_host(next, tag, rs.drop_first());
        }
    }
}

/// A session that is over stays over, whatever the server says.
pub proof fn a_closed_session_stays_closed(c: ClientView, tag: Seq<char>, r: ResponseView)
    requires
        c.closed,
    ensures
        run_step(c, tag, r).0.closed,
{
}

/// A command succeeds only by a line with its own tag.
pub proof fn commands_are_answered_by_their_tag(c: ClientView, tag: Seq<char>, r: ResponseView)
    ensures
        run_step(c, tag, r).1 is Done ==> r is Tagged && r->tag == tag && r->line.status is Done,
{
}

} // verus!
