//! Digests over length-framed encodings.
//!
//! Every digest is taken over bytes that are built here; the encodings of index
//! entries, edges and sources can be read back in one way only.

use sha2::{Digest, Sha256};
use vstd::prelude::*;
use vstd::string::*;
use vstd::utf8::*;

use crate::order::{arranged, arrangements_agree, lemma_place_index_is, placed, strict_order};
use crate::text::{optional_text, text_before, text_less, text_order_is_total, texts};

verus! {

/// Domain of the digest over the whole index.
pub const GLOBAL_INDEX_DIGEST_DOMAIN: &'static str = "ditto.context-index.global.v1";

/// Domain of the digest over one session's index.
pub const SESSION_INDEX_DIGEST_DOMAIN: &'static str = "ditto.context-index.session.v1";

/// Domain of the digest over a node's sources.
pub const PROVENANCE_DIGEST_DOMAIN: &'static str = "ditto.context-index.provenance.v1";

/// What SHA-256 gives.
pub uninterp spec fn sha256_of(bytes: Seq<u8>) -> Seq<u8>;

/// `sha2::Sha256::digest`: the SHA-256 of the bytes, which depends on the bytes
/// alone and has 32 bytes.
#[verifier::external_body]
fn sha256(bytes: &[u8]) -> (r: [u8; 32])
    ensures
        r@ == sha256_of(bytes@),
{
    Sha256::digest(bytes).into()
}

/// The digest of raw bytes.
pub fn digest_bytes(bytes: &[u8]) -> (r: [u8; 32])
    ensures
        r@ == sha256_of(bytes@),
{
    sha256(bytes)
}

/// The digest of a text's UTF-8 bytes.
pub fn digest_text(text: &str) -> (r: [u8; 32])
    ensures
        r@ == sha256_of(encode_utf8(text@)),
{
    sha256(text.as_bytes())
}

/// Whether two digests are the same.
pub fn same_digest(a: &[u8; 32], b: &[u8; 32]) -> (r: bool)
    ensures
        r == (a@ == b@),
{
    let mut i: usize = 0;
    while i < 32
        invariant
            0 <= i <= 32,
            forall|j: int| 0 <= j < i ==> a@[j] == b@[j],
        decreases 32 - i,
    {
        if a[i] != b[i] {
            return false;
        }
        i += 1;
    }
    assert(a@ =~= b@);
    true
}

/// The eight bytes of a number, most significant first.
pub open spec fn be_bytes(n: u64) -> Seq<u8> {
    seq![
        (n as nat / 0x100_0000_0000_0000) as u8,
        (n as nat / 0x1_0000_0000_0000 % 256) as u8,
        (n as nat / 0x100_0000_0000 % 256) as u8,
        (n as nat / 0x1_0000_0000 % 256) as u8,
        (n as nat / 0x100_0000 % 256) as u8,
        (n as nat / 0x1_0000 % 256) as u8,
        (n as nat / 0x100 % 256) as u8,
        (n as nat % 256) as u8,
    ]
}

/// The number that a signed number has in two's complement.
pub open spec fn unsigned(n: i64) -> u64 {
    if n < 0 {
        (n + 0x1_0000_0000_0000_0000) as u64
    } else {
        n as u64
    }
}

/// A number is its quotient by 256 and the rest, at every byte.
proof fn lemma_byte_steps(n: u64)
    ensures
        ({
            let v = n as int;
            &&& v == (v / 0x100) * 256 + v % 256
            &&& v / 0x100 == (v / 0x1_0000) * 256 + v / 0x100 % 256
            &&& v / 0x1_0000 == (v / 0x100_0000) * 256 + v / 0x1_0000 % 256
            &&& v / 0x100_0000 == (v / 0x1_0000_0000) * 256 + v / 0x100_0000 % 256
            &&& v / 0x1_0000_0000 == (v / 0x100_0000_0000) * 256 + v / 0x1_0000_0000 % 256
            &&& v / 0x100_0000_0000 == (v / 0x1_0000_0000_0000) * 256 + v / 0x100_0000_0000 % 256
            &&& v / 0x1_0000_0000_0000 == (v / 0x100_0000_0000_0000) * 256 + v
                / 0x1_0000_0000_0000 % 256
            &&& 0 <= v / 0x100_0000_0000_0000 < 256
        }),
{
    let v = n as int;
    assert(v / 0x100 / 256 == v / 0x1_0000);
    assert(v / 0x1_0000 / 256 == v / 0x100_0000);
    assert(v / 0x100_0000 / 256 == v / 0x1_0000_0000);
    assert(v / 0x1_0000_0000 / 256 == v / 0x100_0000_0000);
    assert(v / 0x100_0000_0000 / 256 == v / 0x1_0000_0000_0000);
    assert(v / 0x1_0000_0000_0000 / 256 == v / 0x100_0000_0000_0000);
}

/// Different numbers have different bytes.
pub proof fn be_bytes_tell_apart(a: u64, b: u64)
    requires
        be_bytes(a) == be_bytes(b),
    ensures
        a == b,
{
    lemma_byte_steps(a);
    lemma_byte_steps(b);
    let x = be_bytes(a);
    let y = be_bytes(b);
    assert(x[0] == y[0]);
    assert(x[1] == y[1]);
    assert(x[2] == y[2]);
    assert(x[3] == y[3]);
    assert(x[4] == y[4]);
    assert(x[5] == y[5]);
    assert(x[6] == y[6]);
    assert(x[7] == y[7]);
}

/// Appends the eight bytes of a number.
pub fn push_number(out: &mut Vec<u8>, n: u64)
    ensures
        final(out)@ == old(out)@ + be_bytes(n),
{
    out.push((n / 0x100_0000_0000_0000) as u8);
    out.push((n / 0x1_0000_0000_0000 % 256) as u8);
    out.push((n / 0x100_0000_0000 % 256) as u8);
    out.push((n / 0x1_0000_0000 % 256) as u8);
    out.push((n / 0x100_0000 % 256) as u8);
    out.push((n / 0x1_0000 % 256) as u8);
    out.push((n / 0x100 % 256) as u8);
    out.push((n % 256) as u8);
    assert(out@ =~= old(out)@ + be_bytes(n));
}

/// Appends the eight bytes of a signed number.
pub fn push_signed(out: &mut Vec<u8>, n: i64)
    ensures
        final(out)@ == old(out)@ + be_bytes(unsigned(n)),
{
    let u: u64 = if n < 0 {
        (n as i128 + 0x1_0000_0000_0000_0000) as u64
    } else {
        n as u64
    };
    push_number(out, u);
}

/// Appends bytes.
pub fn push_bytes(out: &mut Vec<u8>, bytes: &[u8])
    ensures
        final(out)@ == old(out)@ + bytes@,
{
    let mut i: usize = 0;
    while i < bytes.len()
        invariant
            0 <= i <= bytes@.len(),
            out@ =~= old(out)@ + bytes@.take(i as int),
        decreases bytes.len() - i,
    {
        out.push(bytes[i]);
        i += 1;
    }
    assert(bytes@.take(i as int) =~= bytes@);
}

/// The bytes behind their length.
pub open spec fn frame(bytes: Seq<u8>) -> Seq<u8> {
    be_bytes(bytes.len() as u64) + bytes
}

/// A text's bytes behind their length.
pub open spec fn text_frame(text: Seq<char>) -> Seq<u8> {
    frame(encode_utf8(text))
}

/// Appends a text's bytes behind their length.
pub fn push_text(out: &mut Vec<u8>, text: &str)
    ensures
        final(out)@ == old(out)@ + text_frame(text@),
{
    let bytes = text.as_bytes();
    push_number(out, bytes.len() as u64);
    push_bytes(out, bytes);
    assert(out@ =~= old(out)@ + text_frame(text@));
}

/// Bytes behind their length end where the length says: two framed texts with
/// more behind them agree only where the texts agree and what is behind them
/// does.
pub proof fn frames_tell_apart(a: Seq<u8>, x: Seq<u8>, b: Seq<u8>, y: Seq<u8>)
    requires
        frame(a) + x == frame(b) + y,
        a.len() <= u64::MAX,
        b.len() <= u64::MAX,
    ensures
        a == b,
        x == y,
{
    let s = frame(a) + x;
    let t = frame(b) + y;
    assert(s.take(8) =~= be_bytes(a.len() as u64));
    assert(t.take(8) =~= be_bytes(b.len() as u64));
    be_bytes_tell_apart(a.len() as u64, b.len() as u64);
    assert(s.subrange(8, 8 + a.len() as int) =~= a);
    assert(t.subrange(8, 8 + b.len() as int) =~= b);
    assert(s.skip(8 + a.len() as int) =~= x);
    assert(t.skip(8 + b.len() as int) =~= y);
}

/// Numbers with more behind them agree only where both do.
pub proof fn numbers_tell_apart(a: u64, x: Seq<u8>, b: u64, y: Seq<u8>)
    requires
        be_bytes(a) + x == be_bytes(b) + y,
    ensures
        a == b,
        x == y,
{
    let s = be_bytes(a) + x;
    let t = be_bytes(b) + y;
    assert(s.take(8) =~= be_bytes(a));
    assert(t.take(8) =~= be_bytes(b));
    be_bytes_tell_apart(a, b);
    assert(s.skip(8) =~= x);
    assert(t.skip(8) =~= y);
}

/// Sequences of equal length with more behind them agree only where both do.
pub proof fn prefixes_tell_apart(a: Seq<u8>, x: Seq<u8>, b: Seq<u8>, y: Seq<u8>)
    requires
        a + x == b + y,
        a.len() == b.len(),
    ensures
        a == b,
        x == y,
{
    let n = a.len() as int;
    assert((a + x).take(n) =~= a);
    assert((b + y).take(n) =~= b);
    assert((a + x).skip(n) =~= x);
    assert((b + y).skip(n) =~= y);
}

/// The digest of an index that holds nothing.
pub open spec fn empty_digest(domain: Seq<char>) -> Seq<u8> {
    sha256_of(text_frame(domain))
}

/// The digest of an index that holds nothing.
pub fn empty_state_digest(domain: &str) -> (r: [u8; 32])
    ensures
        r@ == empty_digest(domain@),
{
    let mut out: Vec<u8> = Vec::new();
    push_text(&mut out, domain);
    assert(out@ =~= text_frame(domain@));
    sha256(out.as_slice())
}

/// The bytes of one supersession edge.
pub open spec fn edge_bytes(
    superseding: Seq<char>,
    task_key: Seq<char>,
    event_seq: i64,
    superseded: Seq<char>,
) -> Seq<u8> {
    text_frame(superseding) + text_frame(task_key) + text_frame(superseded) + be_bytes(
        unsigned(event_seq),
    )
}

/// Appends the bytes of one supersession edge.
pub fn push_edge(
    out: &mut Vec<u8>,
    superseding: &str,
    task_key: &str,
    event_seq: i64,
    superseded: &str,
)
    ensures
        final(out)@ == old(out)@ + edge_bytes(superseding@, task_key@, event_seq, superseded@),
{
    push_text(out, superseding);
    push_text(out, task_key);
    push_text(out, superseded);
    push_signed(out, event_seq);
    assert(out@ =~= old(out)@ + edge_bytes(superseding@, task_key@, event_seq, superseded@));
}

/// The bytes of the edges from one node to each target, in the given order.
pub open spec fn outgoing_bytes(
    superseding: Seq<char>,
    task_key: Seq<char>,
    event_seq: i64,
    targets: Seq<Seq<char>>,
) -> Seq<u8>
    decreases targets.len(),
{
    if targets.len() == 0 {
        Seq::empty()
    } else {
        outgoing_bytes(superseding, task_key, event_seq, targets.drop_last()) + edge_bytes(
            superseding,
            task_key,
            event_seq,
            targets.last(),
        )
    }
}

/// Texts in byte order.
pub open spec fn text_order() -> spec_fn(Seq<char>, Seq<char>) -> bool {
    |a: Seq<char>, b: Seq<char>| text_less(a, b)
}

/// The digest of the edges from one node, in the order of their targets.
pub open spec fn edge_digest(
    superseding: Seq<char>,
    task_key: Seq<char>,
    event_seq: i64,
    targets: Seq<Seq<char>>,
) -> Seq<u8> {
    sha256_of(
        outgoing_bytes(superseding, task_key, event_seq, arranged(targets, text_order())),
    )
}

fn place_text(list: &mut Vec<String>, x: String)
    ensures
        texts(final(list)@) == placed(
            texts(old(list)@),
            x@,
            text_order(),
        ),
{
    let mut i: usize = list.len();
    let ghost s = texts(list@);
    let ghost before = text_order();
    while i > 0 && text_before(&x, &list[i - 1])
        invariant
            0 <= i <= list@.len(),
            s == texts(list@),
            before == text_order(),
            forall|j: int| i <= j < s.len() ==> before(x@, #[trigger] s[j]),
        decreases i,
    {
        assert(s[i - 1] == list@[i - 1]@);
        i -= 1;
    }
    proof {
        if i > 0 {
            assert(s[i - 1] == list@[i - 1]@);
        }
        lemma_place_index_is(s, x@, before, i as int);
    }
    list.insert(i, x);
    assert(texts(list@) =~= s.insert(i as int, x@));
}

/// The bytes of the edges from one node, in the order of their targets.
pub fn canonical_edge_bytes(
    superseding: &str,
    task_key: &str,
    event_seq: i64,
    targets: &Vec<String>,
) -> (out: Vec<u8>)
    ensures
        out@ == outgoing_bytes(
            superseding@,
            task_key@,
            event_seq,
            arranged(texts(targets@), text_order()),
        ),
{
    let ghost all = texts(targets@);
    let mut ordered: Vec<String> = Vec::new();
    let mut i: usize = 0;
    assert(texts(ordered@) =~= arranged(all.take(0), text_order()));
    while i < targets.len()
        invariant
            all == texts(targets@),
            0 <= i <= targets@.len(),
            texts(ordered@) == arranged(all.take(i as int), text_order()),
        decreases targets.len() - i,
    {
        place_text(&mut ordered, targets[i].clone());
        assert(all.take(i + 1).drop_last() =~= all.take(i as int));
        assert(all.take(i + 1).last() == targets@[i as int]@);
        i += 1;
    }
    assert(all.take(i as int) =~= all);
    let ghost sorted = texts(ordered@);
    let mut out: Vec<u8> = Vec::new();
    let mut j: usize = 0;
    assert(out@ =~= outgoing_bytes(superseding@, task_key@, event_seq, sorted.take(0)));
    while j < ordered.len()
        invariant
            sorted == texts(ordered@),
            0 <= j <= ordered@.len(),
            out@ == outgoing_bytes(superseding@, task_key@, event_seq, sorted.take(j as int)),
        decreases ordered.len() - j,
    {
        push_edge(&mut out, superseding, task_key, event_seq, &ordered[j]);
        assert(sorted.take(j + 1).drop_last() =~= sorted.take(j as int));
        assert(sorted.take(j + 1).last() == ordered@[j as int]@);
        j += 1;
    }
    assert(sorted.take(j as int) =~= sorted);
    out
}

/// The digest of the edges from one node, in the order of their targets.
pub fn canonical_edge_digest(
    superseding: &str,
    task_key: &str,
    event_seq: i64,
    targets: &Vec<String>,
) -> (r: [u8; 32])
    ensures
        r@ == edge_digest(superseding@, task_key@, event_seq, texts(targets@)),
{
    sha256(canonical_edge_bytes(superseding, task_key, event_seq, targets).as_slice())
}

/// The order of texts compares any two.
pub proof fn lemma_text_order()
    ensures
        strict_order(text_order()),
{
    let before = text_order();
    assert forall|a: Seq<char>, b: Seq<char>| #[trigger] before(a, b) implies !before(b, a) by {
        text_order_is_total(a, b, a);
    }
    assert forall|a: Seq<char>, b: Seq<char>, c: Seq<char>|
        !(#[trigger] before(b, a)) && !(#[trigger] before(c, b)) implies !before(c, a) by {
        text_order_is_total(a, b, c);
        text_order_is_total(c, b, a);
        text_order_is_total(c, a, b);
        text_order_is_total(b, c, a);
        text_order_is_total(a, c, b);
        text_order_is_total(b, a, c);
    }
}

/// The digest of a node's edges does not depend on the order in which it names
/// their targets.
pub proof fn edge_digests_ignore_order(
    superseding: Seq<char>,
    task_key: Seq<char>,
    event_seq: i64,
    a: Seq<Seq<char>>,
    b: Seq<Seq<char>>,
)
    requires
        a.to_multiset() == b.to_multiset(),
    ensures
        edge_digest(superseding, task_key, event_seq, a) == edge_digest(
            superseding,
            task_key,
            event_seq,
            b,
        ),
{
    let before = text_order();
    lemma_text_order();
    assert forall|x: Seq<char>, y: Seq<char>| #[trigger]
        a.contains(x) && #[trigger] a.contains(y) && x != y implies before(x, y) || before(
        y,
        x,
    ) by {
        text_order_is_total(x, y, x);
    }
    arrangements_agree(a, b, before);
}

/// An index entry for one recorded node.
#[derive(Debug, PartialEq, Eq)]
pub struct SessionIndexEntry {
    pub session_id: String,
    pub node_id: String,
    pub task_id: Option<String>,
    pub event_seq: i64,
    pub event_id: String,
    pub node_digest: [u8; 32],
    pub provenance_digest: [u8; 32],
    pub source_count: u64,
    pub causation_seq: i64,
    pub causation_event_id: String,
    pub supersession_digest: [u8; 32],
    pub supersession_count: u64,
    pub accounted_bytes: u64,
}

/// The model of an index entry.
pub struct IndexEntryModel {
    pub session_id: Seq<char>,
    pub node_id: Seq<char>,
    pub task_id: Option<Seq<char>>,
    pub event_seq: i64,
    pub event_id: Seq<char>,
    pub node_digest: Seq<u8>,
    pub provenance_digest: Seq<u8>,
    pub source_count: u64,
    pub causation_seq: i64,
    pub causation_event_id: Seq<char>,
    pub supersession_digest: Seq<u8>,
    pub supersession_count: u64,
    pub accounted_bytes: u64,
}

impl View for SessionIndexEntry {
    type V = IndexEntryModel;

    open spec fn view(&self) -> IndexEntryModel {
        IndexEntryModel {
            session_id: self.session_id@,
            node_id: self.node_id@,
            task_id: optional_text(self.task_id),
            event_seq: self.event_seq,
            event_id: self.event_id@,
            node_digest: self.node_digest@,
            provenance_digest: self.provenance_digest@,
            source_count: self.source_count,
            causation_seq: self.causation_seq,
            causation_event_id: self.causation_event_id@,
            supersession_digest: self.supersession_digest@,
            supersession_count: self.supersession_count,
            accounted_bytes: self.accounted_bytes,
        }
    }
}

/// The key of an optional task: empty where there is none.
pub open spec fn task_key_of(task_id: Option<Seq<char>>) -> Seq<char> {
    match task_id {
        Some(t) => t,
        None => Seq::empty(),
    }
}

/// The key of an optional task.
pub fn task_key(task_id: &Option<String>) -> (r: String)
    ensures
        r@ == task_key_of(optional_text(*task_id)),
{
    match task_id {
        Some(t) => t.clone(),
        None => String::new(),
    }
}

impl IndexEntryModel {
    /// The digests have their length.
    pub open spec fn digests_sized(self) -> bool {
        &&& self.node_digest.len() == 32
        &&& self.provenance_digest.len() == 32
        &&& self.supersession_digest.len() == 32
    }

    /// The identifiers are short enough for their length to be written.
    pub open spec fn texts_sized(self) -> bool {
        &&& encode_utf8(self.session_id).len() <= u64::MAX
        &&& encode_utf8(self.node_id).len() <= u64::MAX
        &&& encode_utf8(task_key_of(self.task_id)).len() <= u64::MAX
        &&& encode_utf8(self.event_id).len() <= u64::MAX
        &&& encode_utf8(self.causation_event_id).len() <= u64::MAX
    }

    /// The bytes of the entry.
    pub open spec fn bytes(self) -> Seq<u8> {
        text_frame(self.session_id) + (text_frame(self.node_id) + (text_frame(
            task_key_of(self.task_id),
        ) + (be_bytes(unsigned(self.event_seq)) + (text_frame(self.event_id) + (self.node_digest + (
        self.provenance_digest + (be_bytes(self.source_count) + (be_bytes(
            unsigned(self.causation_seq),
        ) + (text_frame(self.causation_event_id) + (self.supersession_digest + (be_bytes(
            self.supersession_count,
        ) + be_bytes(self.accounted_bytes))))))))))))
    }
}

/// The bytes that advance a digest by one entry.
pub open spec fn advance_bytes(domain: Seq<char>, prior: Seq<u8>, entry: IndexEntryModel) -> Seq<
    u8,
> {
    text_frame(domain) + (prior + entry.bytes())
}

/// The digest after one more entry.
pub open spec fn advanced_digest(domain: Seq<char>, prior: Seq<u8>, entry: IndexEntryModel) -> Seq<
    u8,
> {
    sha256_of(advance_bytes(domain, prior, entry))
}

/// The bytes that advance a digest by one entry.
pub fn advance_state_bytes(domain: &str, prior: &[u8; 32], entry: &SessionIndexEntry) -> (out: Vec<
    u8,
>)
    ensures
        out@ == advance_bytes(domain@, prior@, entry@),
{
    let ghost e = entry@;
    let mut out: Vec<u8> = Vec::new();
    let ghost o0 = out@;
    push_text(&mut out, domain);
    let ghost o1 = out@;
    push_bytes(&mut out, prior);
    let ghost o2 = out@;
    push_text(&mut out, &entry.session_id);
    let ghost o3 = out@;
    push_text(&mut out, &entry.node_id);
    let ghost o4 = out@;
    push_text(&mut out, &task_key(&entry.task_id));
    let ghost o5 = out@;
    push_signed(&mut out, entry.event_seq);
    let ghost o6 = out@;
    push_text(&mut out, &entry.event_id);
    let ghost o7 = out@;
    push_bytes(&mut out, &entry.node_digest);
    let ghost o8 = out@;
    push_bytes(&mut out, &entry.provenance_digest);
    let ghost o9 = out@;
    push_number(&mut out, entry.source_count);
    let ghost o10 = out@;
    push_signed(&mut out, entry.causation_seq);
    let ghost o11 = out@;
    push_text(&mut out, &entry.causation_event_id);
    let ghost o12 = out@;
    push_bytes(&mut out, &entry.supersession_digest);
    let ghost o13 = out@;
    push_number(&mut out, entry.supersession_count);
    let ghost o14 = out@;
    push_number(&mut out, entry.accounted_bytes);
    proof {
        let r14 = be_bytes(e.accounted_bytes);
        let r13 = be_bytes(e.supersession_count) + r14;
        lemma_concat_assoc(o13, be_bytes(e.supersession_count), r14);
        let r12 = e.supersession_digest + r13;
        lemma_concat_assoc(o12, e.supersession_digest, r13);
        let r11 = text_frame(e.causation_event_id) + r12;
        lemma_concat_assoc(o11, text_frame(e.causation_event_id), r12);
        let r10 = be_bytes(unsigned(e.causation_seq)) + r11;
        lemma_concat_assoc(o10, be_bytes(unsigned(e.causation_seq)), r11);
        let r9 = be_bytes(e.source_count) + r10;
        lemma_concat_assoc(o9, be_bytes(e.source_count), r10);
        let r8 = e.provenance_digest + r9;
        lemma_concat_assoc(o8, e.provenance_digest, r9);
        let r7 = e.node_digest + r8;
        lemma_concat_assoc(o7, e.node_digest, r8);
        let r6 = text_frame(e.event_id) + r7;
        lemma_concat_assoc(o6, text_frame(e.event_id), r7);
        let r5 = be_bytes(unsigned(e.event_seq)) + r6;
        lemma_concat_assoc(o5, be_bytes(unsigned(e.event_seq)), r6);
        let r4 = text_frame(task_key_of(e.task_id)) + r5;
        lemma_concat_assoc(o4, text_frame(task_key_of(e.task_id)), r5);
        let r3 = text_frame(e.node_id) + r4;
        lemma_concat_assoc(o3, text_frame(e.node_id), r4);
        let r2 = text_frame(e.session_id) + r3;
        lemma_concat_assoc(o2, text_frame(e.session_id), r3);
        let r1 = prior@ + r2;
        lemma_concat_assoc(o1, prior@, r2);
        let r0 = text_frame(domain@) + r1;
        lemma_concat_assoc(o0, text_frame(domain@), r1);
        assert(o0 + r0 =~= r0);
        assert(r0 == advance_bytes(domain@, prior@, e));
    }
    out
}

/// The digest after one more entry.
pub fn advance_state_digest(domain: &str, prior: &[u8; 32], entry: &SessionIndexEntry) -> (r: [u8;
    32])
    ensures
        r@ == advanced_digest(domain@, prior@, entry@),
{
    sha256(advance_state_bytes(domain, prior, entry).as_slice())
}

proof fn lemma_concat_assoc(a: Seq<u8>, b: Seq<u8>, c: Seq<u8>)
    ensures
        (a + b) + c == a + (b + c),
{
    assert((a + b) + c =~= a + (b + c));
}

/// What advances an index digest is domain-separated and sensitive to every
/// field: equal bytes come from the same domain, the same prior digest and
/// entries that agree in every field, a missing task counting as an empty one.
pub proof fn advance_bytes_tell_apart(
    d1: Seq<char>,
    p1: Seq<u8>,
    e1: IndexEntryModel,
    d2: Seq<char>,
    p2: Seq<u8>,
    e2: IndexEntryModel,
)
    requires
        advance_bytes(d1, p1, e1) == advance_bytes(d2, p2, e2),
        p1.len() == 32,
        p2.len() == 32,
        e1.digests_sized(),
        e2.digests_sized(),
        e1.texts_sized(),
        e2.texts_sized(),
        encode_utf8(d1).len() <= u64::MAX,
        encode_utf8(d2).len() <= u64::MAX,
    ensures
        d1 == d2,
        p1 == p2,
        e1.session_id == e2.session_id,
        e1.node_id == e2.node_id,
        task_key_of(e1.task_id) == task_key_of(e2.task_id),
        e1.event_seq == e2.event_seq,
        e1.event_id == e2.event_id,
        e1.node_digest == e2.node_digest,
        e1.provenance_digest == e2.provenance_digest,
        e1.source_count == e2.source_count,
        e1.causation_seq == e2.causation_seq,
        e1.causation_event_id == e2.causation_event_id,
        e1.supersession_digest == e2.supersession_digest,
        e1.supersession_count == e2.supersession_count,
        e1.accounted_bytes == e2.accounted_bytes,
{
    let (m1, m2) = (be_bytes(e1.accounted_bytes), be_bytes(e2.accounted_bytes));
    let (l1, l2) = (be_bytes(e1.supersession_count) + m1, be_bytes(e2.supersession_count) + m2);
    let (k1, k2) = (e1.supersession_digest + l1, e2.supersession_digest + l2);
    let (j1, j2) = (text_frame(e1.causation_event_id) + k1, text_frame(e2.causation_event_id) + k2);
    let (i1, i2) = (
        be_bytes(unsigned(e1.causation_seq)) + j1,
        be_bytes(unsigned(e2.causation_seq)) + j2,
    );
    let (h1, h2) = (be_bytes(e1.source_count) + i1, be_bytes(e2.source_count) + i2);
    let (g1, g2) = (e1.provenance_digest + h1, e2.provenance_digest + h2);
    let (f1, f2) = (e1.node_digest + g1, e2.node_digest + g2);
    let (n1, n2) = (text_frame(e1.event_id) + f1, text_frame(e2.event_id) + f2);
    let (c1, c2) = (be_bytes(unsigned(e1.event_seq)) + n1, be_bytes(unsigned(e2.event_seq)) + n2);
    let (b1, b2) = (
        text_frame(task_key_of(e1.task_id)) + c1,
        text_frame(task_key_of(e2.task_id)) + c2,
    );
    let (a1, a2) = (text_frame(e1.node_id) + b1, text_frame(e2.node_id) + b2);
    texts_tell_apart(d1, p1 + e1.bytes(), d2, p2 + e2.bytes());
    prefixes_tell_apart(p1, e1.bytes(), p2, e2.bytes());
    texts_tell_apart(e1.session_id, a1, e2.session_id, a2);
    texts_tell_apart(e1.node_id, b1, e2.node_id, b2);
    texts_tell_apart(task_key_of(e1.task_id), c1, task_key_of(e2.task_id), c2);
    numbers_tell_apart(unsigned(e1.event_seq), n1, unsigned(e2.event_seq), n2);
    texts_tell_apart(e1.event_id, f1, e2.event_id, f2);
    prefixes_tell_apart(e1.node_digest, g1, e2.node_digest, g2);
    prefixes_tell_apart(e1.provenance_digest, h1, e2.provenance_digest, h2);
    numbers_tell_apart(e1.source_count, i1, e2.source_count, i2);
    numbers_tell_apart(unsigned(e1.causation_seq), j1, unsigned(e2.causation_seq), j2);
    texts_tell_apart(e1.causation_event_id, k1, e2.causation_event_id, k2);
    prefixes_tell_apart(e1.supersession_digest, l1, e2.supersession_digest, l2);
    numbers_tell_apart(e1.supersession_count, m1, e2.supersession_count, m2);
    be_bytes_tell_apart(e1.accounted_bytes, e2.accounted_bytes);
}

/// Framed texts with more behind them agree only where both do.
pub proof fn texts_tell_apart(a: Seq<char>, x: Seq<u8>, b: Seq<char>, y: Seq<u8>)
    requires
        text_frame(a) + x == text_frame(b) + y,
        encode_utf8(a).len() <= u64::MAX,
        encode_utf8(b).len() <= u64::MAX,
    ensures
        a == b,
        x == y,
{
    frames_tell_apart(encode_utf8(a), x, encode_utf8(b), y);
    encode_utf8_decode_utf8(a);
    encode_utf8_decode_utf8(b);
}

/// The digest was taken over 32 bytes read from storage.
pub fn digest_from_blob(bytes: &Vec<u8>) -> (r: Option<[u8; 32]>)
    ensures
        match r {
            Some(d) => bytes@.len() == 32 && d@ == bytes@,
            None => bytes@.len() != 32,
        },
{
    if bytes.len() != 32 {
        return None;
    }
    let mut out: [u8; 32] = [0u8; 32];
    let mut i: usize = 0;
    while i < 32
        invariant
            0 <= i <= 32,
            bytes@.len() == 32,
            forall|j: int| 0 <= j < i ==> out@[j] == bytes@[j],
        decreases 32 - i,
    {
        out[i] = bytes[i];
        i += 1;
    }
    assert(out@ =~= bytes@);
    Some(out)
}

/// Eight bytes stand for their number, the first for the most.
pub proof fn bytes_stand_for_their_number(n: u64)
    ensures
        be_bytes(n).len() == 8,
        be_bytes(n)[0] * 0x100_0000_0000_0000 + be_bytes(n)[1] * 0x1_0000_0000_0000 + be_bytes(n)[2]
            * 0x100_0000_0000 + be_bytes(n)[3] * 0x1_0000_0000 + be_bytes(n)[4] * 0x100_0000
            + be_bytes(n)[5] * 0x1_0000 + be_bytes(n)[6] * 0x100 + be_bytes(n)[7] == n,
{
    lemma_byte_steps(n);
}

/// A signed number stands for itself, or in two's complement for what it lacks to
/// two to the sixty-fourth.
pub proof fn signed_numbers_wrap_around(n: i64)
    ensures
        n >= 0 ==> unsigned(n) == n,
        n < 0 ==> unsigned(n) == 0x1_0000_0000_0000_0000 + n,
{
}

/// An entry is written field by field: its session and its node first, each behind
/// its length, and its two counts last, eight bytes each.
pub proof fn entries_are_written_field_by_field(e: IndexEntryModel)
    requires
        e.digests_sized(),
    ensures
        ({
            let bytes = e.bytes();
            let n = bytes.len() as int;
            let s = 8 + encode_utf8(e.session_id).len();
            let t = s + 8 + encode_utf8(e.node_id).len();
            let u = t + 8 + encode_utf8(task_key_of(e.task_id)).len();
            let v = u + 16 + encode_utf8(e.event_id).len();
            &&& n >= v + 120
            &&& bytes.subrange(8, s as int) == encode_utf8(e.session_id)
            &&& bytes.subrange(s as int + 8, t as int) == encode_utf8(e.node_id)
            &&& bytes.subrange(t as int + 8, u as int) == encode_utf8(task_key_of(e.task_id))
            &&& bytes.subrange(u as int, u as int + 8) == be_bytes(unsigned(e.event_seq))
            &&& bytes.subrange(u as int + 16, v as int) == encode_utf8(e.event_id)
            &&& bytes.subrange(v as int, v as int + 32) == e.node_digest
            &&& bytes.subrange(v as int + 32, v as int + 64) == e.provenance_digest
            &&& bytes.subrange(v as int + 64, v as int + 72) == be_bytes(e.source_count)
            &&& bytes.subrange(v as int + 72, v as int + 80) == be_bytes(unsigned(e.causation_seq))
            &&& bytes.subrange(n - 48, n - 16) == e.supersession_digest
            &&& bytes.subrange(n - 16, n - 8) == be_bytes(e.supersession_count)
            &&& bytes.subrange(n - 8, n) == be_bytes(e.accounted_bytes)
        }),
{
    let r9 = text_frame(e.causation_event_id) + (e.supersession_digest + (be_bytes(
        e.supersession_count,
    ) + be_bytes(e.accounted_bytes)));
    let r5 = e.node_digest + (e.provenance_digest + (be_bytes(e.source_count) + (be_bytes(
        unsigned(e.causation_seq),
    ) + r9)));
    let p5 = lemma_front(e.bytes(), e.session_id, e.node_id, task_key_of(e.task_id), unsigned(
        e.event_seq,
    ), e.event_id, r5);
    let p9 = lemma_middle(
        e.bytes(),
        p5,
        e.node_digest,
        e.provenance_digest,
        e.source_count,
        unsigned(e.causation_seq),
        r9,
    );
    lemma_back(
        e.bytes(),
        p9,
        e.causation_event_id,
        e.supersession_digest,
        e.supersession_count,
        e.accounted_bytes,
    );
}

proof fn lemma_front(
    whole: Seq<u8>,
    session: Seq<char>,
    node: Seq<char>,
    task: Seq<char>,
    number: u64,
    event: Seq<char>,
    rest: Seq<u8>,
) -> (after: Seq<u8>)
    requires
        whole == text_frame(session) + (text_frame(node) + (text_frame(task) + (be_bytes(number) + (
        text_frame(event) + rest)))),
    ensures
        whole == after + rest,
        ({
            let s = 8 + encode_utf8(session).len() as int;
            let t = s + 8 + encode_utf8(node).len() as int;
            let u = t + 8 + encode_utf8(task).len() as int;
            let v = u + 16 + encode_utf8(event).len() as int;
            &&& after.len() == v
            &&& whole.subrange(8, s) == encode_utf8(session)
            &&& whole.subrange(s + 8, t) == encode_utf8(node)
            &&& whole.subrange(t + 8, u) == encode_utf8(task)
            &&& whole.subrange(u, u + 8) == be_bytes(number)
            &&& whole.subrange(u + 16, v) == encode_utf8(event)
        }),
{
    let r4 = text_frame(event) + rest;
    let r3 = be_bytes(number) + r4;
    let r2 = text_frame(task) + r3;
    let r1 = text_frame(node) + r2;
    let p0 = Seq::<u8>::empty();
    assert(whole =~= p0 + (text_frame(session) + r1));
    let p1 = lemma_next_text(whole, p0, session, r1);
    let p2 = lemma_next_text(whole, p1, node, r2);
    let p3 = lemma_next_text(whole, p2, task, r3);
    let p4 = lemma_next_field(whole, p3, be_bytes(number), r4);
    lemma_next_text(whole, p4, event, rest)
}

proof fn lemma_middle(
    whole: Seq<u8>,
    before: Seq<u8>,
    a: Seq<u8>,
    b: Seq<u8>,
    m: u64,
    n: u64,
    rest: Seq<u8>,
) -> (after: Seq<u8>)
    requires
        whole == before + (a + (b + (be_bytes(m) + (be_bytes(n) + rest)))),
        a.len() == 32,
        b.len() == 32,
    ensures
        whole == after + rest,
        ({
            let v = before.len() as int;
            &&& after.len() == v + 80
            &&& whole.subrange(v, v + 32) == a
            &&& whole.subrange(v + 32, v + 64) == b
            &&& whole.subrange(v + 64, v + 72) == be_bytes(m)
            &&& whole.subrange(v + 72, v + 80) == be_bytes(n)
        }),
{
    let r3 = be_bytes(n) + rest;
    let r2 = be_bytes(m) + r3;
    let p1 = lemma_next_field(whole, before, a, b + r2);
    let p2 = lemma_next_field(whole, p1, b, r2);
    let p3 = lemma_next_field(whole, p2, be_bytes(m), r3);
    lemma_next_field(whole, p3, be_bytes(n), rest)
}

proof fn lemma_back(
    whole: Seq<u8>,
    before: Seq<u8>,
    cause: Seq<char>,
    a: Seq<u8>,
    m: u64,
    n: u64,
)
    requires
        whole == before + (text_frame(cause) + (a + (be_bytes(m) + be_bytes(n)))),
        a.len() == 32,
    ensures
        ({
            let end = whole.len() as int;
            &&& end >= before.len() + 56
            &&& whole.subrange(end - 48, end - 16) == a
            &&& whole.subrange(end - 16, end - 8) == be_bytes(m)
            &&& whole.subrange(end - 8, end) == be_bytes(n)
        }),
{
    let r2 = be_bytes(m) + be_bytes(n);
    let p1 = lemma_next_text(whole, before, cause, a + r2);
    let p2 = lemma_next_field(whole, p1, a, r2);
    let p3 = lemma_next_field(whole, p2, be_bytes(m), be_bytes(n));
    assert(be_bytes(n) + Seq::<u8>::empty() =~= be_bytes(n));
    let p4 = lemma_next_field(whole, p3, be_bytes(n), Seq::empty());
}

/// What stands next behind a beginning.
proof fn lemma_next_field(whole: Seq<u8>, before: Seq<u8>, field: Seq<u8>, rest: Seq<u8>) -> (after:
    Seq<u8>)
    requires
        whole == before + (field + rest),
    ensures
        whole == after + rest,
        after.len() == before.len() + field.len(),
        whole.len() == after.len() + rest.len(),
        whole.subrange(before.len() as int, before.len() + field.len() as int) == field,
{
    let after = before + field;
    assert(whole =~= after + rest);
    assert(whole.subrange(before.len() as int, before.len() + field.len() as int) =~= field);
    after
}

proof fn lemma_next_text(whole: Seq<u8>, before: Seq<u8>, text: Seq<char>, rest: Seq<u8>) -> (after:
    Seq<u8>)
    requires
        whole == before + (text_frame(text) + rest),
    ensures
        whole == after + rest,
        after.len() == before.len() + 8 + encode_utf8(text).len(),
        whole.len() == after.len() + rest.len(),
        whole.subrange(before.len() as int + 8, after.len() as int) == encode_utf8(text),
{
    let after = before + text_frame(text);
    assert(whole =~= after + rest);
    assert(whole.subrange(before.len() as int + 8, after.len() as int) =~= encode_utf8(text));
    after
}

/// An edge is written by its two nodes and its task, each behind its length, the
/// superseding node first and the superseded one last, and its event at the end;
/// different edges are written differently.
pub proof fn edges_are_written_apart(
    a: Seq<char>,
    task_a: Seq<char>,
    seq_a: i64,
    target_a: Seq<char>,
    b: Seq<char>,
    task_b: Seq<char>,
    seq_b: i64,
    target_b: Seq<char>,
)
    requires
        encode_utf8(a).len() <= u64::MAX,
        encode_utf8(b).len() <= u64::MAX,
        encode_utf8(task_a).len() <= u64::MAX,
        encode_utf8(task_b).len() <= u64::MAX,
        encode_utf8(target_a).len() <= u64::MAX,
        encode_utf8(target_b).len() <= u64::MAX,
    ensures
        edge_bytes(a, task_a, seq_a, target_a).take(8 + encode_utf8(a).len() as int) == text_frame(
            a,
        ),
        edge_bytes(a, task_a, seq_a, target_a) == edge_bytes(b, task_b, seq_b, target_b) ==> a == b
            && task_a == task_b && seq_a == seq_b && target_a == target_b,
{
    let x = edge_bytes(a, task_a, seq_a, target_a);
    let y = edge_bytes(b, task_b, seq_b, target_b);
    let (x1, y1) = (lemma_edge_nested(a, task_a, seq_a, target_a), lemma_edge_nested(
        b,
        task_b,
        seq_b,
        target_b,
    ));
    assert(x.take(8 + encode_utf8(a).len() as int) =~= text_frame(a));
    if x == y {
        let (x3, y3) = (be_bytes(unsigned(seq_a)), be_bytes(unsigned(seq_b)));
        let (x2, y2) = (text_frame(target_a) + x3, text_frame(target_b) + y3);
        texts_tell_apart(a, x1, b, y1);
        texts_tell_apart(task_a, x2, task_b, y2);
        texts_tell_apart(target_a, x3, target_b, y3);
        be_bytes_tell_apart(unsigned(seq_a), unsigned(seq_b));
    }
}

proof fn lemma_edge_nested(
    a: Seq<char>,
    task: Seq<char>,
    event_seq: i64,
    target: Seq<char>,
) -> (rest: Seq<u8>)
    ensures
        edge_bytes(a, task, event_seq, target) == text_frame(a) + rest,
        rest == text_frame(task) + (text_frame(target) + be_bytes(unsigned(event_seq))),
{
    let n = be_bytes(unsigned(event_seq));
    let (f, g, h) = (text_frame(a), text_frame(task), text_frame(target));
    lemma_concat_assoc(f + g, h, n);
    lemma_concat_assoc(f, g, h + n);
    g + (h + n)
}

/// The digests over all entries, over a session's entries and over sources are
/// taken in domains of their own.
pub proof fn digest_domains_are_kept_apart()
    ensures
        GLOBAL_INDEX_DIGEST_DOMAIN@ == "ditto.context-index.global.v1"@,
        SESSION_INDEX_DIGEST_DOMAIN@ == "ditto.context-index.session.v1"@,
        PROVENANCE_DIGEST_DOMAIN@ == "ditto.context-index.provenance.v1"@,
        GLOBAL_INDEX_DIGEST_DOMAIN@ != SESSION_INDEX_DIGEST_DOMAIN@,
        GLOBAL_INDEX_DIGEST_DOMAIN@ != PROVENANCE_DIGEST_DOMAIN@,
        SESSION_INDEX_DIGEST_DOMAIN@ != PROVENANCE_DIGEST_DOMAIN@,
{
    reveal_strlit("ditto.context-index.global.v1");
    reveal_strlit("ditto.context-index.session.v1");
    reveal_strlit("ditto.context-index.provenance.v1");
    assert(GLOBAL_INDEX_DIGEST_DOMAIN@.len() == 29);
    assert(SESSION_INDEX_DIGEST_DOMAIN@.len() == 30);
    assert(PROVENANCE_DIGEST_DOMAIN@.len() == 33);
}

} // verus!
