//! The identities that recorded nodes occupy.

use vstd::prelude::*;
use vstd::utf8::*;

use crate::table::TextTable;
use crate::text::{
    byte_len, copy_optional_text, decimal, decimal_text, digit, joined, lemma_utf8_len_concat,
    optional_text, same_optional_text, same_text, utf8_len,
};

verus! {

/// Where an identity was recorded.
#[derive(Debug)]
pub struct SessionIndexIdentity {
    pub task_id: Option<String>,
    pub event_seq: i64,
    pub event_id: String,
}

/// The model of a recorded identity.
pub struct IdentityModel {
    pub task_id: Option<Seq<char>>,
    pub event_seq: i64,
    pub event_id: Seq<char>,
}

impl View for SessionIndexIdentity {
    type V = IdentityModel;

    open spec fn view(&self) -> IdentityModel {
        IdentityModel {
            task_id: optional_text(self.task_id),
            event_seq: self.event_seq,
            event_id: self.event_id@,
        }
    }
}

impl Clone for SessionIndexIdentity {
    fn clone(&self) -> (r: SessionIndexIdentity)
        ensures
            r@ == self@,
    {
        SessionIndexIdentity {
            task_id: copy_optional_text(&self.task_id),
            event_seq: self.event_seq,
            event_id: self.event_id.clone(),
        }
    }
}

impl SessionIndexIdentity {
    pub fn equals(&self, other: &SessionIndexIdentity) -> (r: bool)
        ensures
            r == (self@ == other@),
    {
        same_optional_text(&self.task_id, &other.task_id) && self.event_seq == other.event_seq
            && same_text(&self.event_id, &other.event_id)
    }
}

/// The key of a session and a node: the length of the session's name, a colon,
/// and the two names.
pub open spec fn identity_key(session_id: Seq<char>, node_id: Seq<char>) -> Seq<char> {
    decimal_text(utf8_len(session_id)) + ":"@ + session_id + node_id
}

fn identity_key_of(session_id: &str, node_id: &str) -> (r: String)
    ensures
        r@ == identity_key(session_id@, node_id@),
{
    let mut s = joined(&decimal(byte_len(session_id) as u64), ":");
    s.append(session_id);
    s.append(node_id);
    s
}

proof fn lemma_digit(a: nat)
    requires
        a < 10,
    ensures
        digit(a) as u32 == 48 + a,
        digit(a) != ':',
{
    assert(digit(0) == '0' && digit(1) == '1' && digit(2) == '2' && digit(3) == '3' && digit(4)
        == '4' && digit(5) == '5' && digit(6) == '6' && digit(7) == '7' && digit(8) == '8'
        && digit(9) == '9');
    assert(a == 0 || a == 1 || a == 2 || a == 3 || a == 4 || a == 5 || a == 6 || a == 7 || a == 8
        || a == 9);
}

proof fn lemma_decimal_digits(n: nat)
    ensures
        decimal_text(n).len() > 0,
        forall|i: int| 0 <= i < decimal_text(n).len() ==> #[trigger] decimal_text(n)[i] != ':',
    decreases n,
{
    if n < 10 {
        lemma_digit(n);
    } else {
        lemma_decimal_digits(n / 10);
        lemma_digit(n % 10);
    }
}

/// Different numbers have different decimal texts.
pub proof fn decimals_tell_apart(a: nat, b: nat)
    requires
        decimal_text(a) == decimal_text(b),
    ensures
        a == b,
    decreases a,
{
    lemma_decimal_digits(a / 10);
    lemma_decimal_digits(b / 10);
    let x = decimal_text(a);
    let y = decimal_text(b);
    if a < 10 {
        lemma_digit(a);
        assert(x.len() == 1);
        if b >= 10 {
            assert(y.len() > 1);
        } else {
            lemma_digit(b);
            assert(x[0] == y[0]);
        }
    } else {
        if b < 10 {
            assert(x.len() > 1);
        } else {
            lemma_digit(a % 10);
            lemma_digit(b % 10);
            assert(x.last() == y.last());
            assert(x.drop_last() =~= decimal_text(a / 10));
            assert(y.drop_last() =~= decimal_text(b / 10));
            decimals_tell_apart(a / 10, b / 10);
        }
    }
}

/// Different sessions and nodes have different keys.
pub proof fn identity_keys_tell_apart(
    s1: Seq<char>,
    n1: Seq<char>,
    s2: Seq<char>,
    n2: Seq<char>,
)
    requires
        identity_key(s1, n1) == identity_key(s2, n2),
    ensures
        s1 == s2,
        n1 == n2,
{
    reveal_strlit(":");
    let d1 = decimal_text(utf8_len(s1));
    let d2 = decimal_text(utf8_len(s2));
    let k1 = identity_key(s1, n1);
    let k2 = identity_key(s2, n2);
    lemma_decimal_digits(utf8_len(s1));
    lemma_decimal_digits(utf8_len(s2));
    assert(k1[d1.len() as int] == ':');
    assert(k2[d2.len() as int] == ':');
    if d1.len() < d2.len() {
        assert(k2[d1.len() as int] == d2[d1.len() as int]);
        assert(false);
    }
    if d2.len() < d1.len() {
        assert(k1[d2.len() as int] == d1[d2.len() as int]);
        assert(false);
    }
    assert(k1.take(d1.len() as int) =~= d1);
    assert(k2.take(d2.len() as int) =~= d2);
    decimals_tell_apart(utf8_len(s1), utf8_len(s2));
    let r1 = s1 + n1;
    let r2 = s2 + n2;
    assert(k1.skip(d1.len() as int + 1) =~= r1);
    assert(k2.skip(d2.len() as int + 1) =~= r2);
    lemma_utf8_len_concat(s1, n1);
    lemma_utf8_len_concat(s2, n2);
    let m = utf8_len(s1) as int;
    assert(encode_utf8(r1).take(m) =~= encode_utf8(s1));
    assert(encode_utf8(r2).take(m) =~= encode_utf8(s2));
    assert(encode_utf8(r1).skip(m) =~= encode_utf8(n1));
    assert(encode_utf8(r2).skip(m) =~= encode_utf8(n2));
    encode_utf8_decode_utf8(s1);
    encode_utf8_decode_utf8(s2);
    encode_utf8_decode_utf8(n1);
    encode_utf8_decode_utf8(n2);
}

/// A node's identity within its session, and where it was recorded.
pub struct IndexedIdentity {
    pub session_id: String,
    pub node_id: String,
    pub identity: SessionIndexIdentity,
}

/// The identities of recorded nodes, by session and node.
pub struct IdentityIndex {
    table: TextTable<IndexedIdentity>,
}

/// The recorded identity of a found entry.
pub open spec fn identity_of(found: Option<IndexedIdentity>) -> Option<IdentityModel> {
    match found {
        Some(e) => Some(e.identity@),
        None => None,
    }
}

impl IdentityIndex {
    pub closed spec fn entries(&self) -> Seq<IndexedIdentity> {
        self.table.value_list()
    }

    /// Every entry stands under the key of its own session and node.
    pub closed spec fn well_formed(&self) -> bool {
        &&& self.table.well_formed()
        &&& self.table.key_list().len() == self.table.value_list().len()
        &&& forall|i: int|
            0 <= i < self.table.value_list().len() ==> self.table.key_list()[i] == identity_key(
                (#[trigger] self.table.value_list()[i]).session_id@,
                self.table.value_list()[i].node_id@,
            )
    }

    /// Where the node of that session was recorded.
    pub closed spec fn at(&self, session_id: Seq<char>, node_id: Seq<char>) -> Option<
        IdentityModel,
    > {
        identity_of(self.table.at(identity_key(session_id, node_id)))
    }

    pub closed spec fn size(&self) -> nat {
        self.table.key_list().len()
    }

    /// An index without identities.
    pub fn new() -> (r: IdentityIndex)
        ensures
            r.well_formed(),
            r.size() == 0,
            forall|s: Seq<char>, n: Seq<char>| #[trigger] r.at(s, n) is None,
    {
        IdentityIndex { table: TextTable::new() }
    }

    pub fn len(&self) -> (n: usize)
        requires
            self.well_formed(),
        ensures
            n == self.size(),
    {
        self.table.len()
    }

    /// Where the node of that session was recorded.
    pub fn lookup(&self, session_id: &str, node_id: &str) -> (r: Option<SessionIndexIdentity>)
        requires
            self.well_formed(),
        ensures
            match r {
                Some(i) => self.at(session_id@, node_id@) == Some(i@),
                None => self.at(session_id@, node_id@) is None,
            },
    {
        match self.table.get(&identity_key_of(session_id, node_id)) {
            Some(e) => Some(e.identity.clone()),
            None => None,
        }
    }

    /// Records an identity that is new; otherwise changes nothing.
    pub fn insert(&mut self, session_id: String, node_id: String, identity: SessionIndexIdentity) -> (
    added: bool)
        requires
            old(self).well_formed(),
        ensures
            final(self).well_formed(),
            added == (old(self).at(session_id@, node_id@) is None),
            final(self).size() == old(self).size() + if added {
                1int
            } else {
                0
            },
            forall|s: Seq<char>, n: Seq<char>| #[trigger]
                final(self).at(s, n) == if added && s == session_id@ && n == node_id@ {
                    Some(identity@)
                } else {
                    old(self).at(s, n)
                },
    {
        let key = identity_key_of(&session_id, &node_id);
        let ghost k = key@;
        let ghost entry = IndexedIdentity { session_id, node_id, identity };
        let added = self.table.insert(key, IndexedIdentity { session_id, node_id, identity });
        proof {
            assert forall|s: Seq<char>, n: Seq<char>| #[trigger] self.at(s, n) == if added && s
                == session_id@ && n == node_id@ {
                Some(identity@)
            } else {
                old(self).at(s, n)
            } by {
                if identity_key(s, n) == k {
                    identity_keys_tell_apart(s, n, session_id@, node_id@);
                }
                assert(self.table.at(identity_key(s, n)) == if added && identity_key(s, n) == k {
                    Some(entry)
                } else {
                    old(self).table.at(identity_key(s, n))
                });
            }
        }
        added
    }

    /// A copy of the index.
    pub fn copy(&self) -> (r: IdentityIndex)
        requires
            self.well_formed(),
        ensures
            r.well_formed(),
            r.size() == self.size(),
            same_identities(&r, self),
    {
        let count: usize = self.table.len();
        let mut r = IdentityIndex::new();
        let mut i: usize = 0;
        while i < count
            invariant
                self.well_formed(),
                r.well_formed(),
                count == self.table.key_list().len(),
                count == self.table.value_list().len(),
                0 <= i <= count,
                r.size() == i,
                forall|j: int|
                    0 <= j < i ==> r.at(
                        (#[trigger] self.table.value_list()[j]).session_id@,
                        self.table.value_list()[j].node_id@,
                    ) == Some(self.table.value_list()[j].identity@),
                forall|s: Seq<char>, n: Seq<char>| #[trigger]
                    r.at(s, n) is Some ==> exists|j: int|
                        0 <= j < i && (#[trigger] self.table.value_list()[j]).session_id@ == s
                            && self.table.value_list()[j].node_id@ == n,
            decreases count - i,
        {
            let e = self.table.value_at(i);
            proof {
                lemma_distinct_entries(self, i as int);
            }
            let ghost before = r;
            r.insert(e.session_id.clone(), e.node_id.clone(), e.identity.clone());
            assert forall|s: Seq<char>, n: Seq<char>| #[trigger] r.at(s, n) is Some implies exists|
                j: int,
            |
                0 <= j < i + 1 && (#[trigger] self.table.value_list()[j]).session_id@ == s
                    && self.table.value_list()[j].node_id@ == n by {
                if before.at(s, n) is None {
                    assert(self.table.value_list()[i as int].session_id@ == s);
                } else {
                    let j = choose|j: int|
                        0 <= j < i && (#[trigger] self.table.value_list()[j]).session_id@ == s
                            && self.table.value_list()[j].node_id@ == n;
                    assert(self.table.value_list()[j].session_id@ == s);
                }
            }
            i += 1;
        }
        proof {
            lemma_contained(self, &r);
        }
        r
    }

    /// Whether two indexes hold the same identities.
    pub fn equals(&self, other: &IdentityIndex) -> (r: bool)
        requires
            self.well_formed(),
            other.well_formed(),
        ensures
            r == same_identities(self, other),
    {
        if self.table.len() != other.table.len() {
            proof {
                if same_identities(self, other) {
                    lemma_same_keys(self, other);
                }
            }
            return false;
        }
        let count: usize = self.table.len();
        let mut i: usize = 0;
        while i < count
            invariant
                self.well_formed(),
                other.well_formed(),
                count == self.table.key_list().len(),
                count == other.table.key_list().len(),
                count == self.table.value_list().len(),
                0 <= i <= count,
                forall|j: int|
                    0 <= j < i ==> other.at(
                        (#[trigger] self.table.value_list()[j]).session_id@,
                        self.table.value_list()[j].node_id@,
                    ) == Some(self.table.value_list()[j].identity@),
            decreases count - i,
        {
            let e = self.table.value_at(i);
            let same = match other.lookup(&e.session_id, &e.node_id) {
                Some(found) => found.equals(&e.identity),
                None => false,
            };
            if !same {
                proof {
                    lemma_entry_at(self, i as int);
                    assert(self.at(e.session_id@, e.node_id@) != other.at(
                        e.session_id@,
                        e.node_id@,
                    ));
                }
                return false;
            }
            i += 1;
        }
        proof {
            lemma_contained(self, other);
        }
        true
    }
}

/// Two indexes hold the same identities.
pub open spec fn same_identities(a: &IdentityIndex, b: &IdentityIndex) -> bool {
    forall|s: Seq<char>, n: Seq<char>| #[trigger] a.at(s, n) == b.at(s, n)
}

/// Every key of an index belongs to a session and a node that it records.
proof fn lemma_key_recorded(index: &IdentityIndex, key: Seq<char>)
    requires
        index.well_formed(),
        index.table.has(key),
    ensures
        ({
            let e = index.table.value(key);
            &&& key == identity_key(e.session_id@, e.node_id@)
            &&& index.at(e.session_id@, e.node_id@) == Some(e.identity@)
        }),
{
    let j = index.table.key_list().index_of(key);
    assert(index.table.key_list()[j] == key);
    lemma_entry_at(index, j);
}

proof fn lemma_same_keys(a: &IdentityIndex, b: &IdentityIndex)
    requires
        a.well_formed(),
        b.well_formed(),
        same_identities(a, b),
    ensures
        a.table.key_list().len() == b.table.key_list().len(),
{
    let (x, y) = (a.table.key_list(), b.table.key_list());
    assert forall|k: Seq<char>| x.contains(k) == y.contains(k) by {
        if x.contains(k) {
            lemma_key_recorded(a, k);
            let e = a.table.value(k);
            assert(b.at(e.session_id@, e.node_id@) is Some);
        }
        if y.contains(k) {
            lemma_key_recorded(b, k);
            let e = b.table.value(k);
            assert(a.at(e.session_id@, e.node_id@) is Some);
        }
    }
    assert(x.to_set() =~= y.to_set());
    a.table.lemma_keys_distinct();
    b.table.lemma_keys_distinct();
    x.unique_seq_to_set();
    y.unique_seq_to_set();
}

proof fn lemma_contained(a: &IdentityIndex, b: &IdentityIndex)
    requires
        a.well_formed(),
        b.well_formed(),
        a.table.key_list().len() == b.table.key_list().len(),
        forall|j: int|
            0 <= j < a.table.value_list().len() ==> b.at(
                (#[trigger] a.table.value_list()[j]).session_id@,
                a.table.value_list()[j].node_id@,
            ) == Some(a.table.value_list()[j].identity@),
    ensures
        same_identities(a, b),
{
    let (x, y) = (a.table.key_list(), b.table.key_list());
    assert forall|k: Seq<char>| x.to_set().contains(k) implies y.to_set().contains(k) by {
        let j = x.index_of(k);
        assert(x[j] == k);
        let e = a.table.value_list()[j];
        assert(b.at(e.session_id@, e.node_id@) is Some);
    }
    a.table.lemma_keys_distinct();
    b.table.lemma_keys_distinct();
    x.unique_seq_to_set();
    y.unique_seq_to_set();
    vstd::set_lib::lemma_subset_equality(x.to_set(), y.to_set());
    assert forall|s: Seq<char>, n: Seq<char>| #[trigger] a.at(s, n) == b.at(s, n) by {
        let key = identity_key(s, n);
        assert(x.to_set().contains(key) == y.to_set().contains(key));
        if x.contains(key) {
            lemma_key_recorded(a, key);
            let j = x.index_of(key);
            let e = a.table.value_list()[j];
            identity_keys_tell_apart(s, n, e.session_id@, e.node_id@);
        }
    }
}

/// No earlier entry records the session and node of entry `i`.
proof fn lemma_distinct_entries(index: &IdentityIndex, i: int)
    requires
        index.well_formed(),
        0 <= i < index.table.value_list().len(),
    ensures
        forall|j: int|
            0 <= j < i ==> !((#[trigger] index.table.value_list()[j]).session_id@
                == index.table.value_list()[i].session_id@ && index.table.value_list()[j].node_id@
                == index.table.value_list()[i].node_id@),
{
    index.table.lemma_keys_distinct();
    assert forall|j: int|
        0 <= j < i && (#[trigger] index.table.value_list()[j]).session_id@
            == index.table.value_list()[i].session_id@ implies index.table.value_list()[j].node_id@
        != index.table.value_list()[i].node_id@ by {
        assert(index.table.key_list()[j] != index.table.key_list()[i]);
        if index.table.value_list()[j].node_id@ == index.table.value_list()[i].node_id@ {
            assert(index.table.key_list()[i] == identity_key(
                index.table.value_list()[i].session_id@,
                index.table.value_list()[i].node_id@,
            ));
        }
    }
}

proof fn lemma_entry_at(index: &IdentityIndex, i: int)
    requires
        index.well_formed(),
        0 <= i < index.table.value_list().len(),
    ensures
        index.at(
            index.table.value_list()[i].session_id@,
            index.table.value_list()[i].node_id@,
        ) == Some(index.table.value_list()[i].identity@),
{
    let e = index.table.value_list()[i];
    let key = identity_key(e.session_id@, e.node_id@);
    assert(index.table.key_list()[i] == key);
    let j = index.table.key_list().index_of(key);
    assert(index.table.key_list()[j] == key);
    let f = index.table.value_list()[j];
    assert(index.table.at(key) == Some(f));
    index.table.lemma_key_found(i);
}

} // verus!
