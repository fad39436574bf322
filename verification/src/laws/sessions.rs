//! Sessions with a mail server, and finding accounts and blobs on one.

use vstd::prelude::*;
use vstd::string::*;

use crate::imap::client::{
    able, command_line, enabled_in, finished, last_list, line_error, names_utf8, oauthbearer_text, plain_bytes,
    run_step, separates, sign_in, sign_in_error, sign_in_step, tag_text, told, words, words_until, xoauth2_text,
    ClientView, RunStepView, SignInStepView, SignInView,
};
use crate::imap::error::{ImapErrorView, NoView};
use crate::imap::response::{LineView, ResponseView, Status, UntaggedView};
use crate::text;
use crate::web::base64_text;

verus! {

/// What a server can do is known whatever the case in which it is named.
pub proof fn abilities_are_known_whatever_their_case(c: ClientView, caps: Seq<Seq<char>>, i: int, name: Seq<char>)
    ensures
        0 <= i < caps.len() && text::small_text(caps[i]) == text::small_text(name) ==> able(c, caps).can(name),
        (forall|k: int| 0 <= k < caps.len() ==> text::small_text(#[trigger] caps[k]) != text::small_text(name))
            ==> !able(c, caps).can(name),
        able(c, caps).host == c.host && able(c, caps).closed == c.closed && able(c, caps).utf8_accept
            == c.utf8_accept && able(c, caps).commands == c.commands,
{
    let d = able(c, caps);
    if 0 <= i < caps.len() {
        assert(caps.contains(caps[i]));
        assert(d.capabilities.contains(caps[i]));
    }
    if d.can(name) {
        let x = choose|x: Seq<char>|
            #[trigger] d.capabilities.contains(x) && text::small_text(x) == text::small_text(name);
        assert(caps.contains(x));
        let k = choose|k: int| 0 <= k < caps.len() && caps[k] == x;
        assert(text::small_text(caps[k]) == text::small_text(name));
    }
}

proof fn lemma_word(s: Seq<char>, w: Seq<char>, n: nat)
    requires
        n <= w.len(),
        forall|i: int| 0 <= i < w.len() ==> !separates(#[trigger] w[i]),
    ensures
        words_until(s + w, (s.len() + n) as nat) == (
            words_until(s, s.len()).0,
            words_until(s, s.len()).1 + w.take(n as int),
        ),
    decreases n,
{
    if n == 0 {
        lemma_words_prefix(s, w, s.len());
        assert(words_until(s, s.len()).1 + w.take(0) =~= words_until(s, s.len()).1);
    } else {
        lemma_word(s, w, (n - 1) as nat);
        assert((s + w)[s.len() + n - 1] == w[n - 1]);
        assert(!separates(w[n - 1]));
        assert((words_until(s, s.len()).1 + w.take(n - 1)).push(w[n - 1]) =~= words_until(s, s.len()).1 + w.take(
            n as int,
        ));
    }
}

proof fn lemma_words_prefix(s: Seq<char>, t: Seq<char>, n: nat)
    requires
        n <= s.len(),
    ensures
        words_until(s + t, n) == words_until(s, n),
    decreases n,
{
    if n > 0 {
        lemma_words_prefix(s, t, (n - 1) as nat);
        assert((s + t)[n - 1] == s[n - 1]);
    }
}

/// A text falls into words at blanks and line ends: a word behind a blank is one more
/// word, and further blanks make none.
pub proof fn texts_fall_into_words(s: Seq<char>, w: Seq<char>, c: char)
    requires
        w.len() > 0,
        forall|i: int| 0 <= i < w.len() ==> !separates(#[trigger] w[i]),
        separates(c),
    ensures
        words(w) == seq![w],
        words(s.push(c)) == words(s),
        words(s.push(c) + w) == words(s).push(w),
{
    let none = Seq::<char>::empty();
    lemma_word(none, w, w.len());
    assert(none + w =~= w);
    assert(w.take(w.len() as int) =~= w);
    assert(none + w.take(w.len() as int) =~= w);
    assert(Seq::<Seq<char>>::empty().push(w) =~= seq![w]);
    let t = s.push(c);
    assert(s + seq![c] =~= t);
    lemma_words_prefix(s, seq![c], s.len());
    assert(t[s.len() as int] == c);
    assert(words_until(t, t.len()) == (
        finished(words_until(s, s.len()).0, words_until(s, s.len()).1),
        Seq::<char>::empty(),
    ));
    lemma_word(t, w, w.len());
    assert((t + w).len() == t.len() + w.len());
    assert(Seq::<char>::empty() + w.take(w.len() as int) =~= w);
}

/// A command succeeds by a tagged line that says so; any other tagged line is an error
/// of its own kind, with what the server says.
pub proof fn tagged_lines_settle_a_command(line: LineView)
    ensures
        line.status == Status::Done <==> line_error(line) is None,
        line.status == Status::No ==> line_error(line) == Some(
            ImapErrorView::No(NoView { text: line.text, code: line.code }),
        ),
        line.status == Status::Bad ==> line_error(line) == Some(ImapErrorView::Bad(line.text)),
        line.status == Status::Bye ==> line_error(line) == Some(ImapErrorView::Bye(line.text)),
        line.status == Status::PreAuth ==> line_error(line) == Some(
            ImapErrorView::Protocol("unexpected PREAUTH on tagged response"@),
        ),
{
}

/// A refusal of credentials is told apart from every other error, which stays as it is.
pub proof fn refused_credentials_are_told(e: ImapErrorView, n: NoView)
    ensures
        n.auth_failed() <==> n.code is Some && text::small_text(n.code->0) == text::small_text(
            "AUTHENTICATIONFAILED"@,
        ),
        n.auth_failed() ==> sign_in_error(ImapErrorView::No(n)) == ImapErrorView::AuthFailed(n.text),
        !n.auth_failed() ==> sign_in_error(ImapErrorView::No(n)) == ImapErrorView::No(n),
        !(e is No) ==> sign_in_error(e) == e,
{
}

/// A line that says what the server can do is taken over; any other changes nothing.
pub proof fn abilities_in_lines_are_taken_over(c: ClientView, line: LineView)
    ensures
        line.code == Some("CAPABILITY"@) && line.code_args is Some ==> told(c, line) == able(
            c,
            words(line.code_args->0),
        ),
        line.code != Some("CAPABILITY"@) || line.code_args is None ==> told(c, line) == c,
{
}

/// A command ends by the line with its own tag, and by the server ending the session; a
/// line with another tag and a request to go on are errors. Everything else is handed
/// on, and what it says of the server's abilities is taken over.
pub proof fn responses_settle_a_command(
    c: ClientView,
    tag: Seq<char>,
    other: Seq<char>,
    line: LineView,
    caps: Seq<Seq<char>>,
    t: Seq<char>,
)
    ensures
        ({
            let own = run_step(c, tag, ResponseView::Tagged { tag, line });
            let strange = run_step(c, tag, ResponseView::Tagged { tag: other, line });
            let bye = run_step(c, tag, ResponseView::Untagged(UntaggedView::Bye(t)));
            let able_to = run_step(c, tag, ResponseView::Untagged(UntaggedView::Capability(caps)));
            let data = run_step(c, tag, ResponseView::Untagged(UntaggedView::Other(t)));
            let status = run_step(c, tag, ResponseView::Untagged(UntaggedView::StatusLine(line)));
            let asked = run_step(c, tag, ResponseView::Continuation(t));
            &&& line.status == Status::Done ==> own.1 == RunStepView::Done(line)
            &&& line.status != Status::Done ==> own.1 is Failed && Some(own.1->Failed_0) == line_error(line)
            &&& own.0 == told(c, line)
            &&& other != tag ==> strange.0 == c && strange.1 is Failed && strange.1->Failed_0 is Protocol
            &&& bye.0.closed && bye.0.capabilities == c.capabilities && bye.1 == RunStepView::Failed(
                ImapErrorView::Bye(t),
            )
            &&& able_to.0 == able(c, caps) && able_to.1 == RunStepView::HandOn(UntaggedView::Capability(caps))
            &&& data == (c, RunStepView::HandOn(UntaggedView::Other(t)))
            &&& status == (c, RunStepView::HandOn(UntaggedView::StatusLine(line)))
            &&& asked.0 == c && asked.1 is Failed && asked.1->Failed_0 is Protocol
        }),
{
}

/// Of several lists of what the server can do, the last counts.
pub proof fn the_last_list_counts(v: Seq<UntaggedView>, n: nat, i: int, caps: Seq<Seq<char>>)
    requires
        n <= v.len(),
    ensures
        0 <= i < n && v[i] == UntaggedView::Capability(caps) && (forall|k: int|
            i < k < n ==> !(#[trigger] v[k] is Capability)) ==> last_list(v, n) == Some(caps),
        (forall|k: int| 0 <= k < n ==> !(#[trigger] v[k] is Capability)) ==> last_list(v, n) is None,
    decreases n,
{
    if n > 0 {
        the_last_list_counts(v, (n - 1) as nat, i, caps);
    }
}

/// The extensions of all responses that say so are enabled, in order; names of
/// mailboxes come in UTF-8 where one of them is that extension, whatever its case.
pub proof fn all_enabled_extensions_count(
    v: Seq<UntaggedView>,
    n: nat,
    e: Seq<Seq<char>>,
    list: Seq<Seq<char>>,
    i: int,
)
    requires
        n < v.len(),
    ensures
        v[n as int] == UntaggedView::Enabled(e) ==> enabled_in(v, n + 1) == enabled_in(v, n) + e,
        !(v[n as int] is Enabled) ==> enabled_in(v, n + 1) == enabled_in(v, n),
        enabled_in(v, 0).len() == 0,
        0 <= i < list.len() && text::small_text(list[i]) == text::small_text("UTF8=ACCEPT"@) ==> names_utf8(list),
        (forall|k: int|
            0 <= k < list.len() ==> text::small_text(#[trigger] list[k]) != text::small_text("UTF8=ACCEPT"@))
            ==> !names_utf8(list),
{
}

/// A command is sent on one line behind its tag, and every command has a tag of its
/// own.
pub proof fn commands_have_tags_of_their_own(m: nat, n: nat, tag: Seq<char>, command: Seq<char>)
    ensures
        tag_text(m) == tag_text(n) ==> m == n,
        tag_text(n).len() >= 5 && tag_text(n)[0] == 'A',
        command_line(tag, command) == tag + seq![' '] + (command + seq!['\r', '\n']),
{
    reveal_strlit("A");
    reveal_strlit(" ");
    reveal_strlit("\r\n");
    assert(" "@ =~= seq![' ']);
    assert("\r\n"@ =~= seq!['\r', '\n']);
    let a = text::padded_text(m, 4);
    let b = text::padded_text(n, 4);
    crate::laws::texts::padding_fills_up_with_zeros(m, 4, 0);
    crate::laws::texts::padding_fills_up_with_zeros(n, 4, 0);
    if tag_text(m) == tag_text(n) {
        assert(tag_text(m).skip(1) =~= a);
        assert(tag_text(n).skip(1) =~= b);
        assert(a == b);
        lemma_padded_value(m);
        lemma_padded_value(n);
    }
}

proof fn lemma_zeros(k: nat, d: Seq<char>, v: nat)
    requires
        text::digits_value(d) == Some(v),
        d.len() >= 1,
    ensures
        text::digits_value(Seq::new(k, |i: int| '0') + d) == Some(v),
    decreases d.len(),
{
    let z = Seq::new(k, |i: int| '0');
    let s = z + d;
    assert(s.last() == d.last());
    if d.len() == 1 {
        if k > 0 {
            assert(s.drop_last() =~= z);
            lemma_only_zeros(k);
        } else {
            assert(s =~= d);
        }
    } else {
        assert(s.drop_last() =~= z + d.drop_last());
        lemma_zeros(k, d.drop_last(), text::digits_value(d.drop_last())->0);
    }
}

proof fn lemma_only_zeros(k: nat)
    requires
        k > 0,
    ensures
        text::digits_value(Seq::new(k, |i: int| '0')) == Some(0nat),
    decreases k,
{
    let z = Seq::new(k, |i: int| '0');
    assert(z.last() == '0');
    if k > 1 {
        lemma_only_zeros((k - 1) as nat);
        assert(z.drop_last() =~= Seq::new((k - 1) as nat, |i: int| '0'));
    }
}

proof fn lemma_padded_value(n: nat)
    ensures
        text::digits_value(text::padded_text(n, 4)) == Some(n),
{
    crate::laws::texts::decimals_read_back(n);
    let d = text::decimal_text(n);
    if d.len() < 4 {
        lemma_zeros((4 - d.len()) as nat, d, n);
    }
}

/// Credentials are put together as each mechanism wants them: PLAIN sends the user and
/// the password behind a zero each, and the two for tokens name the user and the token.
pub proof fn credentials_are_put_together(user: Seq<char>, secret: Seq<char>)
    ensures
        ({
            let u = vstd::utf8::encode_utf8(user);
            let p = vstd::utf8::encode_utf8(secret);
            let b = plain_bytes(user, secret);
            &&& b.len() == u.len() + p.len() + 2
            &&& b[0] == 0 && b[1int + u.len()] == 0
            &&& b.subrange(1, 1int + u.len()) == u
            &&& b.skip(2int + u.len()) == p
            &&& text::begins(xoauth2_text(user, secret), "user="@ + user)
            &&& xoauth2_text(user, secret).skip(5int + user.len()) == "\x01auth=Bearer "@ + secret + "\x01\x01"@
            &&& text::begins(oauthbearer_text(user, secret), "n,a="@ + user)
            &&& oauthbearer_text(user, secret).skip(4int + user.len()) == ",\x01auth=Bearer "@ + secret
                + "\x01\x01"@
        }),
{
    let u = vstd::utf8::encode_utf8(user);
    let p = vstd::utf8::encode_utf8(secret);
    let b = plain_bytes(user, secret);
    assert(b.subrange(1, 1int + u.len()) =~= u);
    assert(b.skip(2int + u.len()) =~= p);
    reveal_strlit("user=");
    reveal_strlit("n,a=");
    let x = xoauth2_text(user, secret);
    let y = oauthbearer_text(user, secret);
    assert(x.take(("user="@ + user).len() as int) =~= "user="@ + user);
    assert(x.skip(5int + user.len()) =~= "\x01auth=Bearer "@ + secret + "\x01\x01"@);
    assert(y.take(("n,a="@ + user).len() as int) =~= "n,a="@ + user);
    assert(y.skip(4int + user.len()) =~= ",\x01auth=Bearer "@ + secret + "\x01\x01"@);
}

/// What signs in goes with the command where the server takes it there, else it answers
/// the first request to go on.
pub proof fn signing_in_begins(c: ClientView, mechanism: Seq<char>, payload: Seq<u8>, repeats: bool)
    ensures
        ({
            let s = sign_in(c, mechanism, payload, repeats);
            &&& s.encoded == base64_text(payload)
            &&& !s.sent
            &&& s.repeats == repeats
            &&& s.with_command == c.can("SASL-IR"@)
            &&& c.can("SASL-IR"@) ==> s.command == "AUTHENTICATE "@ + mechanism + (" "@ + base64_text(payload))
            &&& !c.can("SASL-IR"@) ==> s.command == "AUTHENTICATE "@ + mechanism
        }),
{
}

/// While signing in, the first request to go on gets the credentials and the line with
/// the command's tag settles it; other responses are passed over.
pub proof fn signing_in_goes_on(
    c: ClientView,
    s: SignInView,
    tag: Seq<char>,
    other: Seq<char>,
    line: LineView,
    t: Seq<char>,
)
    requires
        !s.with_command,
    ensures
        ({
            let asked = sign_in_step(c, s, tag, ResponseView::Continuation(t));
            let own = sign_in_step(c, s, tag, ResponseView::Tagged { tag, line });
            let strange = sign_in_step(c, s, tag, ResponseView::Tagged { tag: other, line });
            &&& !s.sent || s.repeats ==> asked.2 == SignInStepView::Send(s.encoded + "\r\n"@)
            &&& s.sent && !s.repeats ==> asked.2 == SignInStepView::Send("\r\n"@)
            &&& asked.1.sent && asked.0 == c && asked.1.encoded == s.encoded && asked.1.repeats == s.repeats
            &&& line.status == Status::Done ==> own.2 is Done
            &&& line.status != Status::Done ==> own.2 is Failed && own.2->Failed_0 == sign_in_error(
                line_error(line)->0,
            )
            &&& own.0 == told(c, line)
            &&& other != tag ==> strange == (c, s, SignInStepView::More)
        }),
{
}

/// Where the credentials went with the command, the line with its tag settles it.
pub proof fn signing_in_at_once_is_settled_by_its_line(c: ClientView, s: SignInView, tag: Seq<char>, line: LineView)
    requires
        s.with_command,
    ensures
        ({
            let own = sign_in_step(c, s, tag, ResponseView::Tagged { tag, line });
            &&& line.status == Status::Done ==> own.2 is Done
            &&& line.status != Status::Done ==> own.2 is Failed && own.2->Failed_0 == sign_in_error(
                line_error(line)->0,
            )
            &&& own.0 == told(c, line) && own.1 == s
        }),
{
}

} // verus!
