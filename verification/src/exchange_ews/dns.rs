//! Service records: the question that is sent to a name server, and how its answer
//! is read.

use vstd::prelude::*;
use vstd::string::*;
use vstd::utf8::{decode_utf8, encode_utf8, encode_utf8_decode_utf8, encode_utf8_valid_utf8, valid_utf8};

use crate::sync::order::{in_order, key_values, places, stable_order};
use crate::text;

verus! {

/// A service record: where a service is offered.
#[derive(Debug)]
pub struct SrvRecord {
    pub priority: u16,
    pub weight: u16,
    pub port: u16,
    pub target: String,
}

/// The view of a [`SrvRecord`].
pub struct SrvView {
    pub priority: u16,
    pub weight: u16,
    pub port: u16,
    pub target: Seq<char>,
}

impl View for SrvRecord {
    type V = SrvView;

    open spec fn view(&self) -> SrvView {
        SrvView { priority: self.priority, weight: self.weight, port: self.port, target: self.target@ }
    }
}

/// The views of records.
pub open spec fn record_views(v: Seq<SrvRecord>) -> Seq<SrvView> {
    Seq::new(v.len(), |i: int| v[i]@)
}

/// The first `n` labels of a name, each behind its length in one byte; empty ones
/// are left out.
pub open spec fn label_bytes(labels: Seq<Seq<char>>, n: nat) -> Seq<u8>
    decreases n,
{
    if n == 0 {
        Seq::empty()
    } else {
        let rest = label_bytes(labels, (n - 1) as nat);
        let b = encode_utf8(labels[n - 1]);
        if labels[n - 1].len() == 0 {
            rest
        } else {
            rest.push((b.len() % 256) as u8) + b
        }
    }
}

/// A name as it stands in a question.
pub open spec fn qname_bytes(qname: Seq<char>) -> Seq<u8> {
    let labels = text::pieces(text::trimmed_end(qname, '.'), '.');
    label_bytes(labels, labels.len()).push(0)
}

/// Appends a name; see [`qname_bytes`].
pub fn encode_qname(out: &mut Vec<u8>, qname: &str)
    ensures
        final(out)@ == old(out)@ + qname_bytes(qname@),
{
    let ghost was = out@;
    let name = text::trim_end(qname, '.');
    let labels = text::split(name.as_str(), '.');
    let ghost all = text::texts(labels@);
    let mut i: usize = 0;
    while i < labels.len()
        invariant
            i <= labels.len(),
            all == text::texts(labels@),
            out@ == was + label_bytes(all, i as nat),
        decreases labels.len() - i,
    {
        assert(all[i as int] == labels@[i as int]@);
        let label = labels[i].as_str();
        if !label.is_empty() {
            let b = label.as_bytes();
            let ghost before = out@;
            let n: usize = b.len() % 256;
            out.push(n as u8);
            text::append(out, b);
            assert(out@ =~= was + label_bytes(all, (i + 1) as nat));
        }
        i += 1;
    }
    out.push(0);
    assert(out@ =~= was + qname_bytes(qname@));
}

/// The head of a question: a fixed id, recursion desired, one question.
pub open spec fn question_head() -> Seq<u8> {
    seq![0x12u8, 0x34, 0x01, 0x00, 0x00, 0x01, 0, 0, 0, 0, 0, 0]
}

/// The question for the service records of a name.
pub fn srv_query(qname: &str) -> (r: Vec<u8>)
    ensures
        r@ == question_head() + qname_bytes(qname@) + seq![0u8, 33, 0, 1],
{
    let mut out: Vec<u8> = vec![0x12u8, 0x34, 0x01, 0x00, 0x00, 0x01, 0, 0, 0, 0, 0, 0];
    assert(out@ =~= question_head());
    encode_qname(&mut out, qname);
    let ghost was = out@;
    out.push(0);
    out.push(33);
    out.push(0);
    out.push(1);
    assert(out@ =~= was + seq![0u8, 33, 0, 1]);
    out
}

/// The number in two bytes, the greater first.
pub open spec fn be16(b: Seq<u8>, i: int) -> int {
    b[i] * 256 + b[i + 1]
}

fn two(buf: &[u8], i: usize) -> (r: u16)
    requires
        i + 1 < buf@.len(),
    ensures
        r == be16(buf@, i as int),
{
    buf[i] as u16 * 256 + buf[i + 1] as u16
}

/// The place behind a name: behind its last label, or behind the reference that
/// ends it.
pub open spec fn behind_name(b: Seq<u8>, at: int) -> Option<int>
    decreases if at <= b.len() {
        b.len() - at
    } else {
        0
    },
{
    if at < 0 || at >= b.len() {
        None
    } else if b[at] == 0 {
        Some(at + 1)
    } else if b[at] >= 192 {
        if at + 2 <= usize::MAX {
            Some(at + 2)
        } else {
            None
        }
    } else {
        behind_name(b, at + 1 + b[at])
    }
}

/// See [`behind_name`].
pub fn skip_name(buf: &[u8], at: usize) -> (r: Option<usize>)
    ensures
        match r {
            Some(n) => behind_name(buf@, at as int) == Some(n as int),
            None => behind_name(buf@, at as int) is None,
        },
{
    let mut cursor: usize = at;
    loop
        invariant
            behind_name(buf@, at as int) == behind_name(buf@, cursor as int),
        decreases (if cursor <= buf@.len() {
            buf@.len() - cursor
        } else {
            0
        }),
    {
        if cursor >= buf.len() {
            return None;
        }
        let len: u8 = buf[cursor];
        if len == 0 {
            return Some(cursor + 1);
        }
        if len >= 192 {
            return cursor.checked_add(2);
        }
        match cursor.checked_add(1 + len as usize) {
            Some(n) => {
                cursor = n;
            },
            None => {
                assert(behind_name(buf@, cursor + 1 + len) is None);
                return None;
            },
        }
    }
}

/// The name at a place, appended to `out`. References to other places are followed
/// eight times at most.
pub open spec fn name_at(b: Seq<u8>, at: int, hops: int, out: Seq<char>) -> Option<Seq<char>>
    decreases 9 - hops, b.len() - at,
{
    if at < 0 || at >= b.len() || hops < 0 || hops > 8 {
        None
    } else if b[at] == 0 {
        Some(out)
    } else if b[at] >= 192 {
        if at + 1 >= b.len() || hops + 1 > 8 {
            None
        } else {
            name_at(b, (b[at] % 64) * 256 + b[at + 1], hops + 1, out)
        }
    } else {
        let end = at + 1 + b[at];
        if end > b.len() || !valid_utf8(b.subrange(at + 1, end)) {
            None
        } else {
            let label = decode_utf8(b.subrange(at + 1, end));
            name_at(
                b,
                end,
                hops,
                if out.len() > 0 {
                    out.push('.') + label
                } else {
                    label
                },
            )
        }
    }
}

fn slice_of(buf: &[u8], from: usize, to: usize) -> (r: Vec<u8>)
    requires
        from <= to <= buf@.len(),
    ensures
        r@ == buf@.subrange(from as int, to as int),
{
    let mut out: Vec<u8> = Vec::new();
    let mut i: usize = from;
    while i < to
        invariant
            from <= i <= to <= buf@.len(),
            out@ == buf@.subrange(from as int, i as int),
        decreases to - i,
    {
        out.push(buf[i]);
        i += 1;
        assert(buf@.subrange(from as int, i as int) =~= buf@.subrange(from as int, i - 1).push(buf@[i - 1]));
    }
    out
}

/// The name at a place; see [`name_at`].
pub fn read_name(buf: &[u8], start: usize) -> (r: Option<String>)
    ensures
        text::opt_text(r) == name_at(buf@, start as int, 0, Seq::empty()),
{
    let mut out = String::new();
    let mut cursor: usize = start;
    let mut hops: u8 = 0;
    loop
        invariant
            0 <= hops <= 8,
            name_at(buf@, start as int, 0, Seq::empty()) == name_at(buf@, cursor as int, hops as int, out@),
        decreases 9 - hops, buf@.len() - cursor,
    {
        if cursor >= buf.len() {
            return None;
        }
        let len: u8 = buf[cursor];
        if len == 0 {
            return Some(out);
        }
        if len >= 192 {
            if cursor + 1 >= buf.len() {
                return None;
            }
            hops += 1;
            if hops > 8 {
                return None;
            }
            cursor = (len % 64) as usize * 256 + buf[cursor + 1] as usize;
        } else {
            let from: usize = cursor + 1;
            let n: usize = len as usize;
            if n > buf.len() - from {
                return None;
            }
            let end: usize = from + n;
            let bytes = slice_of(buf, from, end);
            match text::from_utf8(bytes.as_slice()) {
                Some(label) => {
                    out = if out.as_str().is_empty() {
                        assert(Seq::<char>::empty() + label@ =~= label@);
                        label
                    } else {
                        let ghost was = out@;
                        let dotted = text::joined3(out.as_str(), ".", label.as_str());
                        proof {
                            reveal_strlit(".");
                            assert(was + "."@ =~= was.push('.'));
                        }
                        dotted
                    };
                    cursor = end;
                },
                None => {
                    return None;
                },
            }
        }
    }
}

/// Whether labels can be written as such: none is empty, or so long that its length
/// would be taken for a reference.
pub open spec fn plain_labels(labels: Seq<Seq<char>>) -> bool {
    forall|i: int|
        0 <= i < labels.len() ==> (#[trigger] labels[i]).len() > 0 && encode_utf8(labels[i]).len() < 192
}

proof fn lemma_first_labels(labels: Seq<Seq<char>>, k: nat, n: nat)
    requires
        k <= n,
    ensures
        label_bytes(labels, k).len() <= label_bytes(labels, n).len(),
        forall|i: int|
            0 <= i < label_bytes(labels, k).len() ==> #[trigger] label_bytes(labels, n)[i] == label_bytes(
                labels,
                k,
            )[i],
    decreases n,
{
    if k < n {
        lemma_first_labels(labels, k, (n - 1) as nat);
    }
}

/// The labels of a name in a message, each behind its length, up to the end mark.
pub open spec fn message(before: Seq<u8>, labels: Seq<Seq<char>>, after: Seq<u8>) -> Seq<u8> {
    before + label_bytes(labels, labels.len()).push(0) + after
}

proof fn lemma_labels_read(before: Seq<u8>, labels: Seq<Seq<char>>, after: Seq<u8>, k: nat)
    requires
        plain_labels(labels),
        k <= labels.len(),
    ensures
        name_at(message(before, labels, after), before.len() as int, 0, Seq::empty()) == name_at(
            message(before, labels, after),
            (before.len() + label_bytes(labels, k).len()) as int,
            0,
            text::join_text(labels.take(k as int), seq!['.']),
        ),
        k > 0 ==> text::join_text(labels.take(k as int), seq!['.']).len() > 0,
    decreases k,
{
    let b = message(before, labels, after);
    if k == 0 {
        assert(labels.take(0) =~= Seq::<Seq<char>>::empty());
    } else {
        let label = labels[k - 1];
        let bytes = encode_utf8(label);
        let was = label_bytes(labels, (k - 1) as nat);
        let at = (before.len() + was.len()) as int;
        lemma_labels_read(before, labels, after, (k - 1) as nat);
        lemma_first_labels(labels, k, labels.len());
        encode_utf8_valid_utf8(label);
        encode_utf8_decode_utf8(label);
        assert(bytes.len() > 0);
        assert(label_bytes(labels, k) == was.push((bytes.len() % 256) as u8) + bytes);
        assert(label_bytes(labels, k)[was.len() as int] == bytes.len());
        assert(b[at] == bytes.len());
        let end = at + 1 + b[at];
        assert(b.subrange(at + 1, end) =~= bytes) by {
            assert forall|i: int| 0 <= i < bytes.len() implies b[at + 1 + i] == bytes[i] by {
                assert(label_bytes(labels, k)[was.len() + 1 + i] == bytes[i]);
                assert(b[before.len() + (was.len() + 1 + i)] == label_bytes(labels, labels.len())[was.len() + 1 + i]);
            }
        }
        let parts = labels.take(k as int);
        assert(parts.drop_last() =~= labels.take(k - 1));
        assert(parts.last() == label);
        if k > 1 {
            let out = text::join_text(labels.take(k - 1), seq!['.']);
            assert(out + seq!['.'] =~= out.push('.'));
        } else {
            assert(labels.take(0) =~= Seq::<Seq<char>>::empty());
        }
    }
}

/// A name that is written into a message is read back from it, without the dots it
/// ends in.
pub proof fn written_names_are_read_back(qname: Seq<char>, before: Seq<u8>, after: Seq<u8>)
    requires
        plain_labels(text::pieces(text::trimmed_end(qname, '.'), '.')),
    ensures
        name_at(before + qname_bytes(qname) + after, before.len() as int, 0, Seq::empty()) == Some(
            text::trimmed_end(qname, '.'),
        ),
{
    let name = text::trimmed_end(qname, '.');
    let labels = text::pieces(name, '.');
    text::joined_pieces_are_the_text(name, '.');
    lemma_labels_read(before, labels, after, labels.len());
    assert(labels.take(labels.len() as int) =~= labels);
}

/// The place behind `n` questions.
pub open spec fn behind_questions(b: Seq<u8>, at: int, n: nat) -> Option<int>
    decreases n,
{
    if n == 0 {
        Some(at)
    } else {
        match behind_name(b, at) {
            None => None,
            Some(p) => if p + 4 > b.len() {
                None
            } else {
                behind_questions(b, p + 4, (n - 1) as nat)
            },
        }
    }
}

/// The service records among `n` answers; other answers are passed over.
pub open spec fn answers_at(b: Seq<u8>, at: int, n: nat) -> Option<Seq<SrvView>>
    decreases n,
{
    if n == 0 {
        Some(Seq::empty())
    } else {
        match behind_name(b, at) {
            None => None,
            Some(p) => if p + 10 > b.len() {
                None
            } else {
                let size = be16(b, p + 8);
                let end = p + 10 + size;
                if end > b.len() {
                    None
                } else if be16(b, p) == 33 && size >= 7 {
                    match name_at(b, p + 16, 0, Seq::empty()) {
                        None => None,
                        Some(target) => match answers_at(b, end, (n - 1) as nat) {
                            None => None,
                            Some(rest) => Some(
                                seq![
                                    SrvView {
                                        priority: be16(b, p + 10) as u16,
                                        weight: be16(b, p + 12) as u16,
                                        port: be16(b, p + 14) as u16,
                                        target,
                                    },
                                ] + rest,
                            ),
                        },
                    }
                } else {
                    answers_at(b, end, (n - 1) as nat)
                }
            },
        }
    }
}

/// The service records in an answer; `None` where it cannot be read.
pub open spec fn srv_records(b: Seq<u8>) -> Option<Seq<SrvView>> {
    if b.len() < 12 {
        None
    } else {
        match behind_questions(b, 12, be16(b, 4) as nat) {
            None => None,
            Some(at) => answers_at(b, at, be16(b, 6) as nat),
        }
    }
}

/// A prefix in front of records that may be missing.
pub open spec fn with_front(front: Seq<SrvView>, rest: Option<Seq<SrvView>>) -> Option<Seq<SrvView>> {
    match rest {
        Some(r) => Some(front + r),
        None => None,
    }
}

fn skip_questions(buf: &[u8], at: usize, n: u16) -> (r: Option<usize>)
    ensures
        match r {
            Some(p) => behind_questions(buf@, at as int, n as nat) == Some(p as int),
            None => behind_questions(buf@, at as int, n as nat) is None,
        },
{
    let mut cursor: usize = at;
    let mut left: u16 = n;
    while left > 0
        invariant
            behind_questions(buf@, at as int, n as nat) == behind_questions(buf@, cursor as int, left as nat),
        decreases left,
    {
        match skip_name(buf, cursor) {
            None => {
                return None;
            },
            Some(p) => {
                if buf.len() < 4 || p > buf.len() - 4 {
                    return None;
                }
                cursor = p + 4;
            },
        }
        left -= 1;
    }
    Some(cursor)
}

/// The service records in an answer; see [`srv_records`].
pub fn parse_srv_response(buf: &[u8]) -> (r: Option<Vec<SrvRecord>>)
    ensures
        match r {
            Some(v) => srv_records(buf@) == Some(record_views(v@)),
            None => srv_records(buf@) is None,
        },
{
    if buf.len() < 12 {
        return None;
    }
    let qd: u16 = two(buf, 4);
    let an: u16 = two(buf, 6);
    let begin: usize = match skip_questions(buf, 12, qd) {
        None => {
            return None;
        },
        Some(p) => p,
    };
    let ghost whole = answers_at(buf@, begin as int, an as nat);
    let mut out: Vec<SrvRecord> = Vec::new();
    let mut cursor: usize = begin;
    let mut left: u16 = an;
    proof {
        assert(record_views(out@) =~= Seq::<SrvView>::empty());
        match whole {
            Some(w) => assert(Seq::<SrvView>::empty() + w =~= w),
            None => {},
        }
    }
    while left > 0
        invariant
            12 <= buf@.len(),
            srv_records(buf@) == whole,
            whole == with_front(record_views(out@), answers_at(buf@, cursor as int, left as nat)),
        decreases left,
    {
        let p: usize = match skip_name(buf, cursor) {
            None => {
                return None;
            },
            Some(p) => p,
        };
        if p > buf.len() - 10 {
            return None;
        }
        let rtype: u16 = two(buf, p);
        let size: usize = two(buf, p + 8) as usize;
        let data: usize = p + 10;
        if size > buf.len() - data {
            return None;
        }
        let end: usize = data + size;
        let ghost rest = answers_at(buf@, end as int, (left - 1) as nat);
        let ghost front = record_views(out@);
        if rtype == 33 && size >= 7 {
            let priority: u16 = two(buf, data);
            let weight: u16 = two(buf, data + 2);
            let port: u16 = two(buf, data + 4);
            match read_name(buf, data + 6) {
                None => {
                    return None;
                },
                Some(target) => {
                    let ghost one = SrvView { priority, weight, port, target: target@ };
                    out.push(SrvRecord { priority, weight, port, target });
                    proof {
                        assert(record_views(out@) =~= front.push(one));
                        match rest {
                            Some(r) => assert(front + (seq![one] + r) =~= front.push(one) + r),
                            None => {},
                        }
                    }
                },
            }
        }
        cursor = end;
        left -= 1;
    }
    assert(record_views(out@) + Seq::<SrvView>::empty() =~= record_views(out@));
    Some(out)
}

/// The key by which records are ordered: the least priority first, and among
/// records of one priority the greatest weight.
pub open spec fn record_key(r: SrvView) -> int {
    r.priority * 65536 + (65535 - r.weight)
}

/// The keys of records.
pub open spec fn record_keys(v: Seq<SrvView>) -> Seq<int> {
    Seq::new(v.len(), |i: int| record_key(v[i]))
}

/// The places of records in the order in which they are to be tried.
pub fn srv_lookup(records: &Vec<SrvRecord>) -> (r: Vec<usize>)
    ensures
        in_order(record_keys(record_views(records@)), places(r@)),
{
    let ghost all = record_views(records@);
    let mut keys: Vec<i128> = Vec::new();
    let mut i: usize = 0;
    while i < records.len()
        invariant
            i <= records.len(),
            all == record_views(records@),
            keys.len() == i,
            forall|j: int| 0 <= j < i ==> keys@[j] == #[trigger] record_keys(all)[j],
        decreases records.len() - i,
    {
        assert(all[i as int] == records@[i as int]@);
        keys.push(records[i].priority as i128 * 65536 + (65535 - records[i].weight as i128));
        i += 1;
    }
    assert(key_values(keys@) =~= record_keys(all));
    stable_order(&keys)
}

/// Records are tried by priority, and among those of one priority by weight.
pub proof fn records_go_by_priority_and_weight(records: Seq<SrvView>, order: Seq<int>, i: int, j: int)
    requires
        in_order(record_keys(records), order),
        0 <= i < j < order.len(),
    ensures
        records[order[i]].priority <= records[order[j]].priority,
        records[order[i]].priority == records[order[j]].priority ==> records[order[i]].weight >= records[order[j]].weight,
{
    let keys = record_keys(records);
    assert(crate::sync::order::precedes(keys, order[i], order[j]));
    assert(keys[order[i]] == record_key(records[order[i]]));
    assert(keys[order[j]] == record_key(records[order[j]]));
}

/// The name servers in the first `n` lines of a resolver's configuration.
pub open spec fn servers_in(lines: Seq<Seq<char>>, n: nat) -> Seq<Seq<char>>
    decreases n,
{
    if n == 0 {
        Seq::empty()
    } else {
        let rest = servers_in(lines, (n - 1) as nat);
        match server_in(lines[n - 1]) {
            Some(s) => rest.push(s),
            None => rest,
        }
    }
}

/// The name server that a line names, leaving a comment aside.
pub open spec fn server_in(line: Seq<char>) -> Option<Seq<char>> {
    let bare = text::trim_text(text::until(line, '#'));
    if text::begins(bare, "nameserver"@) {
        let s = text::trim_text(bare.skip("nameserver"@.len() as int));
        if s.len() > 0 {
            Some(s)
        } else {
            None
        }
    } else {
        None
    }
}

/// The name servers in a resolver's configuration, in order.
pub fn resolv_conf_nameservers(conf: &str) -> (r: Vec<String>)
    ensures
        text::texts(r@) == servers_in(text::pieces(conf@, '\n'), text::pieces(conf@, '\n').len()),
{
    let lines = text::split(conf, '\n');
    let ghost all = text::texts(lines@);
    let mut out: Vec<String> = Vec::new();
    assert(text::texts(out@) =~= Seq::<Seq<char>>::empty());
    let mut i: usize = 0;
    while i < lines.len()
        invariant
            i <= lines.len(),
            all == text::texts(lines@),
            text::texts(out@) == servers_in(all, i as nat),
        decreases lines.len() - i,
    {
        assert(all[i as int] == lines@[i as int]@);
        let ghost was = text::texts(out@);
        let bare = text::trim(text::text_until(lines[i].as_str(), '#').as_str());
        match text::strip_prefix(bare.as_str(), "nameserver") {
            Some(rest) => {
                let s = text::trim(rest.as_str());
                if !s.as_str().is_empty() {
                    let ghost v = s@;
                    out.push(s);
                    assert(text::texts(out@) =~= was.push(v));
                }
            },
            None => {},
        }
        i += 1;
    }
    out
}

} // verus!
