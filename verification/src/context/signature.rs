//! Task signatures, their tokens and the relevance of a node to them.

use vstd::prelude::*;

use crate::binary32::Binary32;
use crate::context::node::{
    context_retrieval_document, document_refusal, ContextNode, ContextOrigin, EpistemicStatus,
    NodeModel,
};
use crate::retrieval::RetrievalError;
use crate::text::{
    ascii_lower, chars_of, contains_text, copy_optional_text, copy_texts, optional_text, push_char,
    texts,
};

verus! {

/// What a task asks for.
#[derive(Debug, Clone)]
pub struct TaskSignature {
    pub request: String,
    pub active_goal: Option<String>,
    pub entities: Vec<String>,
    pub constraints: Vec<String>,
    pub expected_effect: Option<String>,
}

/// The second version of the signature, before it is normalized.
#[derive(Debug, Clone)]
pub struct TaskSignatureV2 {
    pub request: String,
    pub active_goal: Option<String>,
    pub entities: Vec<String>,
    pub resources: Vec<String>,
    pub constraints: Vec<String>,
    pub expected_effect: Option<String>,
}

/// The list that an optional text contributes to the searchable text.
pub open spec fn optional_part(s: Option<String>) -> Seq<Seq<char>> {
    match s {
        Some(t) => seq![t@],
        None => Seq::empty(),
    }
}

/// The parts with one space between each two.
pub open spec fn spaced(parts: Seq<Seq<char>>) -> Seq<char>
    decreases parts.len(),
{
    if parts.len() == 0 {
        Seq::empty()
    } else if parts.len() == 1 {
        parts[0]
    } else {
        spaced(parts.drop_last()) + " "@ + parts.last()
    }
}

impl TaskSignature {
    /// Request, goal, entities, constraints and effect, in that order.
    pub open spec fn parts(self) -> Seq<Seq<char>> {
        seq![self.request@] + optional_part(self.active_goal) + texts(self.entities@) + texts(
            self.constraints@,
        ) + optional_part(self.expected_effect)
    }

    /// The text that a node is compared with.
    pub fn searchable_text(&self) -> (s: String)
        ensures
            s@ == spaced(self.parts()),
    {
        let mut s = self.request.clone();
        let ghost mut done: Seq<Seq<char>> = seq![self.request@];
        assert(spaced(done) =~= s@);
        if let Some(goal) = &self.active_goal {
            s.append(" ");
            s.append(goal);
            proof {
                lemma_spaced_push(done, goal@);
                done = done.push(goal@);
            }
        }
        assert(done =~= seq![self.request@] + optional_part(self.active_goal));
        append_spaced(&mut s, &self.entities, Ghost(done));
        proof {
            done = done + texts(self.entities@);
        }
        append_spaced(&mut s, &self.constraints, Ghost(done));
        proof {
            done = done + texts(self.constraints@);
        }
        if let Some(effect) = &self.expected_effect {
            s.append(" ");
            s.append(effect);
            proof {
                lemma_spaced_push(done, effect@);
                done = done.push(effect@);
            }
        }
        assert(done =~= self.parts());
        s
    }

    /// The same fields in the second version's shape, with no resources.
    pub fn to_v2_draft(&self) -> (r: TaskSignatureV2)
        ensures
            r.request@ == self.request@,
            optional_text(r.active_goal) == optional_text(self.active_goal),
            texts(r.entities@) == texts(self.entities@),
            r.resources@.len() == 0,
            texts(r.constraints@) == texts(self.constraints@),
            optional_text(r.expected_effect) == optional_text(self.expected_effect),
    {
        TaskSignatureV2 {
            request: self.request.clone(),
            active_goal: copy_optional_text(&self.active_goal),
            entities: copy_texts(&self.entities),
            resources: Vec::new(),
            constraints: copy_texts(&self.constraints),
            expected_effect: copy_optional_text(&self.expected_effect),
        }
    }
}

proof fn lemma_spaced_push(parts: Seq<Seq<char>>, part: Seq<char>)
    requires
        parts.len() > 0,
    ensures
        spaced(parts.push(part)) == spaced(parts) + " "@ + part,
{
    assert(parts.push(part).drop_last() =~= parts);
}

fn append_spaced(s: &mut String, list: &Vec<String>, done: Ghost<Seq<Seq<char>>>)
    requires
        old(s)@ == spaced(done@),
        done@.len() > 0,
    ensures
        final(s)@ == spaced(done@ + texts(list@)),
{
    let mut i: usize = 0;
    assert(done@ + texts(list@).take(0) =~= done@);
    while i < list.len()
        invariant
            0 <= i <= list@.len(),
            done@.len() > 0,
            s@ == spaced(done@ + texts(list@).take(i as int)),
        decreases list.len() - i,
    {
        s.append(" ");
        s.append(&list[i]);
        proof {
            let before = done@ + texts(list@).take(i as int);
            lemma_spaced_push(before, list@[i as int]@);
            assert(before.push(list@[i as int]@) =~= done@ + texts(list@).take(i + 1));
        }
        i += 1;
    }
    assert(texts(list@).take(i as int) =~= texts(list@));
}

/// What `char::is_alphanumeric` returns.
pub uninterp spec fn alphanumeric(c: char) -> bool;

/// What `str::to_lowercase` returns.
pub uninterp spec fn lowercase(s: Seq<char>) -> Seq<char>;

/// An ASCII letter or digit.
pub open spec fn ascii_alphanumeric(c: char) -> bool {
    '0' <= c <= '9' || 'A' <= c <= 'Z' || 'a' <= c <= 'z'
}

/// `char::is_alphanumeric`: the character is alphabetic or numeric in Unicode.
/// The result depends on the character alone; in ASCII, letters and digits are
/// alphanumeric and nothing else is.
#[verifier::external_body]
fn is_alphanumeric(c: char) -> (r: bool)
    ensures
        r == alphanumeric(c),
        (c as u32) < 128 ==> r == ascii_alphanumeric(c),
{
    c.is_alphanumeric()
}

/// `str::to_lowercase`: the Unicode lowercase of the text, which depends on the
/// text alone; in ASCII, upper-case letters become lower-case ones and nothing
/// else changes.
#[verifier::external_body]
fn to_lowercase(s: &str) -> (r: String)
    ensures
        r@ == lowercase(s@),
        ascii(s@) ==> r@ == ascii_lowercase(s@),
{
    s.to_lowercase()
}

/// The characters from `i` to `j` are alphanumeric and cannot be extended.
pub open spec fn maximal_run(s: Seq<char>, i: int, j: int) -> bool {
    &&& 0 <= i < j <= s.len()
    &&& forall|k: int| i <= k < j ==> alphanumeric(#[trigger] s[k])
    &&& i > 0 ==> !alphanumeric(s[i - 1])
    &&& j < s.len() ==> !alphanumeric(s[j])
}

/// The text is the lowercase of a maximal alphanumeric run of two characters or
/// more.
pub open spec fn is_token(s: Seq<char>, t: Seq<char>) -> bool {
    exists|i: int, j: int| #[trigger]
        maximal_run(s, i, j) && j - i > 1 && t == lowercase(s.subrange(i, j))
}

/// Every character is one of ASCII.
pub open spec fn ascii(s: Seq<char>) -> bool {
    forall|i: int| 0 <= i < s.len() ==> (#[trigger] s[i] as u32) < 128
}

/// The characters from `i` to `j` are ASCII letters and digits and cannot be
/// extended.
pub open spec fn ascii_run(s: Seq<char>, i: int, j: int) -> bool {
    &&& 0 <= i < j <= s.len()
    &&& forall|k: int| i <= k < j ==> ascii_alphanumeric(#[trigger] s[k])
    &&& i > 0 ==> !ascii_alphanumeric(s[i - 1])
    &&& j < s.len() ==> !ascii_alphanumeric(s[j])
}

/// The text in lower case, where it is ASCII.
pub open spec fn ascii_lowercase(s: Seq<char>) -> Seq<char> {
    s.map_values(|c: char| ascii_lower(c))
}

/// What a token of an ASCII text is.
pub open spec fn is_ascii_token(s: Seq<char>, t: Seq<char>) -> bool {
    exists|i: int, j: int| #[trigger]
        ascii_run(s, i, j) && j - i > 1 && t == ascii_lowercase(s.subrange(i, j))
}

/// Distinct tokens.
#[derive(Debug)]
pub struct TokenSet {
    items: Vec<String>,
}

impl TokenSet {
    pub closed spec fn list(&self) -> Seq<Seq<char>> {
        texts(self.items@)
    }

    /// The tokens as a set.
    pub open spec fn tokens(&self) -> Set<Seq<char>> {
        self.list().to_set()
    }

    /// No token occurs twice.
    pub open spec fn well_formed(&self) -> bool {
        self.list().no_duplicates()
    }

    pub fn new() -> (r: TokenSet)
        ensures
            r.well_formed(),
            r.tokens() == Set::<Seq<char>>::empty(),
    {
        let r = TokenSet { items: Vec::new() };
        assert(r.tokens() =~= Set::<Seq<char>>::empty());
        r
    }

    pub fn contains(&self, t: &str) -> (r: bool)
        ensures
            r == self.tokens().contains(t@),
    {
        contains_text(&self.items, t)
    }

    pub fn insert(&mut self, t: String)
        requires
            old(self).well_formed(),
        ensures
            final(self).well_formed(),
            final(self).tokens() == old(self).tokens().insert(t@),
    {
        if !self.contains(&t) {
            self.items.push(t);
            proof {
                assert(self.list() =~= old(self).list().push(t@));
                assert(self.tokens() =~= old(self).tokens().insert(t@)) by {
                    assert forall|x: Seq<char>| #[trigger]
                        self.tokens().contains(x) == old(self).tokens().insert(t@).contains(x) by {
                        if old(self).list().contains(x) {
                            let i = choose|i: int|
                                0 <= i < old(self).list().len() && old(self).list()[i] == x;
                            assert(self.list()[i] == x);
                        }
                        if x == t@ {
                            assert(self.list()[old(self).list().len() as int] == x);
                        }
                    }
                }
            }
        } else {
            assert(self.tokens() =~= old(self).tokens().insert(t@));
        }
    }

    pub fn len(&self) -> (n: usize)
        requires
            self.well_formed(),
        ensures
            n == self.tokens().len(),
            n == 0 ==> self.tokens() == Set::<Seq<char>>::empty(),
    {
        proof {
            self.list().unique_seq_to_set();
            if self.items@.len() == 0 {
                assert(self.tokens() =~= Set::<Seq<char>>::empty());
            }
        }
        self.items.len()
    }

    /// The number of tokens that the two sets share.
    pub fn count_shared(&self, other: &TokenSet) -> (n: usize)
        requires
            self.well_formed(),
        ensures
            n == self.tokens().intersect(other.tokens()).len(),
            n <= self.tokens().len(),
    {
        let mut n: usize = 0;
        let mut i: usize = 0;
        let ghost mine = self.list();
        let ghost theirs = other.tokens();
        assert(mine.take(0).to_set().intersect(theirs) =~= Set::<Seq<char>>::empty());
        while i < self.items.len()
            invariant
                mine == texts(self.items@),
                mine.no_duplicates(),
                theirs == other.tokens(),
                0 <= i <= self.items@.len(),
                n <= i,
                n == mine.take(i as int).to_set().intersect(theirs).len(),
            decreases self.items.len() - i,
        {
            let shared = other.contains(&self.items[i]);
            proof {
                let t = mine[i as int];
                let before = mine.take(i as int).to_set();
                let after = mine.take(i + 1).to_set();
                assert(mine.take(i + 1) =~= mine.take(i as int).push(t));
                assert(!mine.take(i as int).contains(t)) by {
                    if mine.take(i as int).contains(t) {
                        let k = choose|k: int|
                            0 <= k < mine.take(i as int).len() && mine.take(i as int)[k] == t;
                        assert(mine[k] == mine[i as int]);
                    }
                }
                assert(after =~= before.insert(t)) by {
                    assert forall|x: Seq<char>| #[trigger]
                        after.contains(x) == before.insert(t).contains(x) by {
                        if before.contains(x) {
                            let k = choose|k: int|
                                0 <= k < mine.take(i as int).len() && mine.take(i as int)[k] == x;
                            assert(mine.take(i + 1)[k] == x);
                        }
                        if x == t {
                            assert(mine.take(i + 1)[i as int] == x);
                        }
                    }
                }
                if theirs.contains(t) {
                    assert(after.intersect(theirs) =~= before.intersect(theirs).insert(t));
                } else {
                    assert(after.intersect(theirs) =~= before.intersect(theirs));
                }
            }
            if shared {
                n += 1;
            }
            i += 1;
        }
        proof {
            assert(mine.take(i as int) =~= mine);
            mine.unique_seq_to_set();
        }
        n
    }
}

/// Where the marked run that ends at `n` begins; `n` where there is none.
pub open spec fn run_start(marks: Seq<bool>, n: int) -> int
    decreases n,
{
    if n <= 0 || !marks[n - 1] {
        n
    } else {
        run_start(marks, n - 1)
    }
}

/// The run that ends at `n`, where it is longer than one character.
pub open spec fn word_at(s: Seq<char>, marks: Seq<bool>, n: int) -> Seq<Seq<char>> {
    if n - run_start(marks, n) > 1 {
        seq![s.subrange(run_start(marks, n), n)]
    } else {
        Seq::empty()
    }
}

/// The marked runs of more than one character that an unmarked character before
/// `n` closes, in order.
pub open spec fn words_closed(s: Seq<char>, marks: Seq<bool>, n: int) -> Seq<Seq<char>>
    decreases n,
{
    if n <= 0 {
        Seq::empty()
    } else if marks[n - 1] {
        words_closed(s, marks, n - 1)
    } else {
        words_closed(s, marks, n - 1) + word_at(s, marks, n - 1)
    }
}

/// The marked runs of more than one character, in order.
pub open spec fn words_of(s: Seq<char>, marks: Seq<bool>) -> Seq<Seq<char>> {
    words_closed(s, marks, s.len() as int) + word_at(s, marks, s.len() as int)
}

/// Splits characters into the runs of marked ones, and keeps those of more than
/// one character.
pub fn split_words(chars: &Vec<char>, marks: &Vec<bool>) -> (r: Vec<String>)
    requires
        chars@.len() == marks@.len(),
    ensures
        texts(r@) == words_of(chars@, marks@),
{
    let ghost s = chars@;
    let ghost m = marks@;
    let mut words: Vec<String> = Vec::new();
    let mut run: String = String::new();
    let mut start: usize = 0;
    let mut i: usize = 0;
    assert(texts(words@) =~= words_closed(s, m, 0));
    assert(run@ =~= s.subrange(0, 0));
    while i < chars.len()
        invariant
            s == chars@,
            m == marks@,
            s.len() == m.len(),
            0 <= start <= i <= s.len(),
            start == run_start(m, i as int),
            run@ == s.subrange(start as int, i as int),
            texts(words@) == words_closed(s, m, i as int),
        decreases chars.len() - i,
    {
        if marks[i] {
            push_char(&mut run, chars[i]);
            assert(run@ =~= s.subrange(start as int, i + 1));
        } else {
            if i - start > 1 {
                words.push(run);
                assert(texts(words@) =~= words_closed(s, m, i as int).push(
                    s.subrange(start as int, i as int),
                ));
            }
            assert(texts(words@) =~= words_closed(s, m, i + 1));
            run = String::new();
            start = i + 1;
            assert(run@ =~= s.subrange(i + 1, i + 1));
        }
        i += 1;
    }
    if i - start > 1 {
        words.push(run);
    }
    assert(texts(words@) =~= words_of(s, m));
    words
}

/// Which characters are alphanumeric.
pub open spec fn alphanumeric_marks(s: Seq<char>) -> Seq<bool> {
    s.map_values(|c: char| alphanumeric(c))
}

fn mark_alphanumeric(chars: &Vec<char>) -> (marks: Vec<bool>)
    ensures
        marks@ == alphanumeric_marks(chars@),
        forall|k: int|
            0 <= k < chars@.len() && (chars@[k] as u32) < 128 ==> #[trigger] alphanumeric(chars@[k])
                == ascii_alphanumeric(chars@[k]),
{
    let mut marks: Vec<bool> = Vec::new();
    let mut i: usize = 0;
    while i < chars.len()
        invariant
            0 <= i <= chars@.len(),
            marks@ =~= alphanumeric_marks(chars@).take(i as int),
            forall|k: int|
                0 <= k < i && (chars@[k] as u32) < 128 ==> #[trigger] alphanumeric(chars@[k])
                    == ascii_alphanumeric(chars@[k]),
        decreases chars.len() - i,
    {
        marks.push(is_alphanumeric(chars[i]));
        i += 1;
    }
    assert(marks@ =~= alphanumeric_marks(chars@));
    marks
}

/// The tokens of a text: its maximal alphanumeric runs of more than one
/// character, in lowercase.
pub fn tokenize(input: &str) -> (r: TokenSet)
    ensures
        r.well_formed(),
        forall|t: Seq<char>| #[trigger] r.tokens().contains(t) == is_token(input@, t),
        ascii(input@) ==> forall|t: Seq<char>| #[trigger]
            is_token(input@, t) == is_ascii_token(input@, t),
{
    let chars = chars_of(input);
    let words = split_words(&chars, &mark_alphanumeric(&chars));
    let ghost w = words_of(input@, alphanumeric_marks(input@));
    let mut out = TokenSet::new();
    let mut i: usize = 0;
    while i < words.len()
        invariant
            w == texts(words@),
            0 <= i <= words@.len(),
            forall|k: int|
                0 <= k < i && ascii(w[k]) ==> #[trigger] lowercase(w[k]) == ascii_lowercase(w[k]),
            out.well_formed(),
            forall|t: Seq<char>| #[trigger] out.tokens().contains(t) == lowered(w, i as int, t),
        decreases words.len() - i,
    {
        let ghost before = out.tokens();
        out.insert(to_lowercase(&words[i]));
        proof {
            assert(w[i as int] == words@[i as int]@);
            assert forall|t: Seq<char>| #[trigger] out.tokens().contains(t) == lowered(
                w,
                i + 1,
                t,
            ) by {
                assert(out.tokens().contains(t) == (before.contains(t) || t == lowercase(
                    w[i as int],
                )));
                if lowered(w, i as int, t) {
                    let k = choose|k: int| 0 <= k < i && lowercase(#[trigger] w[k]) == t;
                    assert(lowercase(w[k]) == t);
                }
                if lowered(w, i + 1, t) {
                    let k = choose|k: int| 0 <= k < i + 1 && lowercase(#[trigger] w[k]) == t;
                    if k < i {
                        assert(lowered(w, i as int, t));
                    }
                }
            }
        }
        i += 1;
    }
    proof {
        assert forall|t: Seq<char>| #[trigger] out.tokens().contains(t) == is_token(
            input@,
            t,
        ) by {
            lemma_lowered(input@, t);
        }
        if ascii(input@) {
            assert forall|t: Seq<char>| #[trigger] is_token(input@, t) == is_ascii_token(
                input@,
                t,
            ) by {
                lemma_ascii_token(input@, t);
            }
        }
    }
    out
}

/// The run of a text that is longer than one character is one of its words.
proof fn lemma_run_is_word(s: Seq<char>, i: int, j: int)
    requires
        maximal_run(s, i, j),
        j - i > 1,
    ensures
        words_of(s, alphanumeric_marks(s)).contains(s.subrange(i, j)),
{
    let marks = alphanumeric_marks(s);
    let n = s.len() as int;
    let closed = words_closed(s, marks, n);
    let w = words_of(s, marks);
    if j < n {
        lemma_runs_are_closed(s, n, i, j);
        let k = choose|k: int| 0 <= k < closed.len() && closed[k] == s.subrange(i, j);
        assert(w[k] == s.subrange(i, j));
    } else {
        lemma_run_begins(s, i, j);
        assert(w[closed.len() as int] == s.subrange(i, j));
    }
}

/// In an ASCII text, tokens are what ASCII makes of them.
proof fn lemma_ascii_token(s: Seq<char>, t: Seq<char>)
    requires
        ascii(s),
        forall|k: int|
            0 <= k < s.len() && (s[k] as u32) < 128 ==> #[trigger] alphanumeric(s[k])
                == ascii_alphanumeric(s[k]),
        forall|k: int|
            0 <= k < words_of(s, alphanumeric_marks(s)).len() && ascii(
                words_of(s, alphanumeric_marks(s))[k],
            ) ==> #[trigger] lowercase(words_of(s, alphanumeric_marks(s))[k])
                == ascii_lowercase(words_of(s, alphanumeric_marks(s))[k]),
    ensures
        is_token(s, t) == is_ascii_token(s, t),
{
    let w = words_of(s, alphanumeric_marks(s));
    assert forall|i: int, j: int| #[trigger] maximal_run(s, i, j) implies ascii_run(s, i, j) by {
        assert forall|k: int| i <= k < j implies ascii_alphanumeric(#[trigger] s[k]) by {
            assert(alphanumeric(s[k]));
        }
        assert(i > 0 ==> !alphanumeric(s[i - 1]));
        assert(j < s.len() ==> !alphanumeric(s[j]));
    }
    assert forall|i: int, j: int| #[trigger] ascii_run(s, i, j) implies maximal_run(s, i, j) by {
        assert forall|k: int| i <= k < j implies alphanumeric(#[trigger] s[k]) by {
            assert(ascii_alphanumeric(s[k]));
            assert(alphanumeric(s[k]) == ascii_alphanumeric(s[k]));
        }
        assert(i > 0 ==> alphanumeric(s[i - 1]) == ascii_alphanumeric(s[i - 1]));
        assert(j < s.len() ==> alphanumeric(s[j]) == ascii_alphanumeric(s[j]));
    }
    assert forall|i: int, j: int| #[trigger] maximal_run(s, i, j) && j - i > 1 implies lowercase(
        s.subrange(i, j),
    ) == ascii_lowercase(s.subrange(i, j)) by {
        lemma_run_is_word(s, i, j);
        let k = choose|k: int| 0 <= k < w.len() && w[k] == s.subrange(i, j);
        assert(ascii(w[k])) by {
            assert forall|m: int| 0 <= m < w[k].len() implies (#[trigger] w[k][m] as u32) < 128 by {
                assert(w[k][m] == s[i + m]);
            }
        }
        assert(lowercase(w[k]) == ascii_lowercase(w[k]));
    }
    if is_token(s, t) {
        let (i, j) = choose|i: int, j: int| #[trigger]
            maximal_run(s, i, j) && j - i > 1 && t == lowercase(s.subrange(i, j));
        assert(ascii_run(s, i, j) && j - i > 1 && t == ascii_lowercase(s.subrange(i, j)));
    }
    if is_ascii_token(s, t) {
        let (i, j) = choose|i: int, j: int| #[trigger]
            ascii_run(s, i, j) && j - i > 1 && t == ascii_lowercase(s.subrange(i, j));
        assert(maximal_run(s, i, j) && j - i > 1 && t == lowercase(s.subrange(i, j)));
    }
}

/// The text is the lowercase of one of the first `n` words.
spec fn lowered(words: Seq<Seq<char>>, n: int, t: Seq<char>) -> bool {
    exists|k: int| 0 <= k < n && lowercase(#[trigger] words[k]) == t
}

/// The run that ends at `n` cannot be extended to the left.
proof fn lemma_run_start(marks: Seq<bool>, n: int)
    requires
        0 <= n <= marks.len(),
    ensures
        0 <= run_start(marks, n) <= n,
        forall|k: int| run_start(marks, n) <= k < n ==> #[trigger] marks[k],
        run_start(marks, n) > 0 ==> !marks[run_start(marks, n) - 1],
    decreases n,
{
    if n > 0 && marks[n - 1] {
        lemma_run_start(marks, n - 1);
    }
}

/// A maximal run that ends at `j` begins where the run that ends there does.
proof fn lemma_run_begins(s: Seq<char>, i: int, j: int)
    requires
        maximal_run(s, i, j),
    ensures
        i == run_start(alphanumeric_marks(s), j),
{
    let marks = alphanumeric_marks(s);
    lemma_run_start(marks, j);
    let st = run_start(marks, j);
    if i < st {
        assert(alphanumeric(s[st - 1]));
        assert(marks[st - 1]);
    }
    if st < i {
        assert(marks[i - 1]);
    }
}

/// Every closed word is a maximal run.
proof fn lemma_closed_words(s: Seq<char>, n: int, k: int)
    requires
        0 <= n <= s.len(),
        0 <= k < words_closed(s, alphanumeric_marks(s), n).len(),
    ensures
        exists|i: int, j: int| #[trigger]
            maximal_run(s, i, j) && j < n && j - i > 1 && words_closed(
                s,
                alphanumeric_marks(s),
                n,
            )[k] == s.subrange(i, j),
    decreases n,
{
    let marks = alphanumeric_marks(s);
    let list = words_closed(s, marks, n);
    let fewer = words_closed(s, marks, n - 1);
    if k < fewer.len() {
        lemma_closed_words(s, n - 1, k);
        let (i, j) = choose|i: int, j: int| #[trigger]
            maximal_run(s, i, j) && j < n - 1 && j - i > 1 && fewer[k] == s.subrange(i, j);
        assert(maximal_run(s, i, j) && j < n);
        assert(list[k] == fewer[k]);
    } else {
        lemma_word_is_run(s, n - 1);
        assert(maximal_run(s, run_start(marks, n - 1), n - 1));
    }
}

/// The run that ends where no further character extends it is maximal.
proof fn lemma_word_is_run(s: Seq<char>, n: int)
    requires
        0 <= n <= s.len(),
        n < s.len() ==> !alphanumeric(s[n]),
        run_start(alphanumeric_marks(s), n) < n,
    ensures
        maximal_run(s, run_start(alphanumeric_marks(s), n), n),
{
    let marks = alphanumeric_marks(s);
    lemma_run_start(marks, n);
    let st = run_start(marks, n);
    assert forall|k: int| st <= k < n implies alphanumeric(#[trigger] s[k]) by {
        assert(marks[k]);
    }
    if st > 0 {
        assert(!marks[st - 1]);
    }
}

/// Every maximal run that ends before `n` is a closed word.
proof fn lemma_runs_are_closed(s: Seq<char>, n: int, i: int, j: int)
    requires
        maximal_run(s, i, j),
        j < n <= s.len(),
        j - i > 1,
    ensures
        words_closed(s, alphanumeric_marks(s), n).contains(s.subrange(i, j)),
    decreases n,
{
    let marks = alphanumeric_marks(s);
    let list = words_closed(s, marks, n);
    let fewer = words_closed(s, marks, n - 1);
    if j < n - 1 {
        lemma_runs_are_closed(s, n - 1, i, j);
        let k = choose|k: int| 0 <= k < fewer.len() && fewer[k] == s.subrange(i, j);
        assert(list[k] == s.subrange(i, j));
    } else {
        lemma_run_begins(s, i, j);
        assert(!marks[j]);
        assert(list[fewer.len() as int] == s.subrange(i, j));
    }
}

/// The lowercase words of a text are its tokens.
proof fn lemma_lowered(s: Seq<char>, t: Seq<char>)
    ensures
        ({
            let w = words_of(s, alphanumeric_marks(s));
            lowered(w, w.len() as int, t) == is_token(s, t)
        }),
{
    let marks = alphanumeric_marks(s);
    let n = s.len() as int;
    let closed = words_closed(s, marks, n);
    let w = words_of(s, marks);
    if lowered(w, w.len() as int, t) {
        let k = choose|k: int| 0 <= k < w.len() && lowercase(#[trigger] w[k]) == t;
        if k < closed.len() {
            lemma_closed_words(s, n, k);
            let (i, j) = choose|i: int, j: int| #[trigger]
                maximal_run(s, i, j) && j < n && j - i > 1 && closed[k] == s.subrange(i, j);
            assert(maximal_run(s, i, j) && j - i > 1 && t == lowercase(s.subrange(i, j)));
        } else {
            lemma_word_is_run(s, n);
            assert(maximal_run(s, run_start(marks, n), n));
        }
    }
    if is_token(s, t) {
        let (i, j) = choose|i: int, j: int| #[trigger]
            maximal_run(s, i, j) && j - i > 1 && t == lowercase(s.subrange(i, j));
        lemma_run_is_word(s, i, j);
        let k = choose|k: int| 0 <= k < w.len() && w[k] == s.subrange(i, j);
        assert(lowercase(w[k]) == t);
    }
}

/// Trust that a node's origin and status lend it, in tenths.
pub open spec fn authority_of(origin: ContextOrigin, epistemic: EpistemicStatus) -> int {
    match epistemic {
        EpistemicStatus::Verified => if origin == ContextOrigin::User {
            10
        } else {
            8
        },
        EpistemicStatus::Asserted => if origin == ContextOrigin::User {
            10
        } else {
            5
        },
        EpistemicStatus::Inferred => 2,
        EpistemicStatus::Disputed => -100,
    }
}

/// Trust that a node's origin and status lend it, in tenths.
pub fn authority_tenths(node: &ContextNode) -> (r: i32)
    ensures
        r == authority_of(node.origin, node.epistemic),
{
    match node.epistemic {
        EpistemicStatus::Verified => if node.origin == ContextOrigin::User {
            10
        } else {
            8
        },
        EpistemicStatus::Asserted => if node.origin == ContextOrigin::User {
            10
        } else {
            5
        },
        EpistemicStatus::Inferred => 2,
        EpistemicStatus::Disputed => -100,
    }
}

/// How many of the query's tokens a node shares, of how many, and its
/// authority.
#[derive(Debug, Clone, Copy, PartialEq, Eq, Structural)]
pub struct RelevanceTerms {
    pub matched: usize,
    pub total: usize,
    pub authority_tenths: i32,
}

/// The tokens of a text as a set.
pub open spec fn token_set(s: Seq<char>) -> Set<Seq<char>> {
    Set::new(|t: Seq<char>| is_token(s, t))
}

/// Whether the node shares a token with the query.
pub open spec fn overlaps(query: Set<Seq<char>>, n: NodeModel) -> bool {
    exists|t: Seq<char>| #[trigger] query.contains(t) && is_token(n.summary, t)
}

/// The terms of a node's relevance, given the tokens of its summary.
pub fn terms_from_tokens(
    node: &ContextNode,
    node_tokens: &TokenSet,
    query_tokens: &TokenSet,
) -> (r: RelevanceTerms)
    requires
        query_tokens.well_formed(),
    ensures
        r.matched == query_tokens.tokens().intersect(node_tokens.tokens()).len(),
        r.total == query_tokens.tokens().len(),
        r.authority_tenths == authority_of(node.origin, node.epistemic),
        r.matched <= r.total,
        (r.matched > 0) == exists|t: Seq<char>| #[trigger]
            query_tokens.tokens().contains(t) && node_tokens.tokens().contains(t),
{
    let matched: usize = query_tokens.count_shared(node_tokens);
    proof {
        let shared = query_tokens.tokens().intersect(node_tokens.tokens());
        query_tokens.list().unique_seq_to_set();
        if matched > 0 {
            assert(shared.len() > 0);
            let t = shared.choose();
            assert(shared.contains(t));
            assert(query_tokens.tokens().contains(t) && node_tokens.tokens().contains(t));
        }
        if exists|t: Seq<char>| #[trigger]
            query_tokens.tokens().contains(t) && node_tokens.tokens().contains(t) {
            let t = choose|t: Seq<char>| #[trigger]
                query_tokens.tokens().contains(t) && node_tokens.tokens().contains(t);
            assert(shared.contains(t));
            assert(shared.finite());
            if shared.len() == 0 {
                assert(shared =~= Set::<Seq<char>>::empty());
            }
        }
    }
    RelevanceTerms {
        matched,
        total: query_tokens.len(),
        authority_tenths: authority_tenths(node),
    }
}

/// The terms of a node's relevance to the query's tokens.
pub fn relevance_terms(node: &ContextNode, query_tokens: &TokenSet) -> (r: RelevanceTerms)
    requires
        query_tokens.well_formed(),
    ensures
        r.matched == query_tokens.tokens().intersect(token_set(node@.summary)).len(),
        r.total == query_tokens.tokens().len(),
        r.authority_tenths == authority_of(node.origin, node.epistemic),
        r.matched <= r.total,
        (r.matched > 0) == overlaps(query_tokens.tokens(), node@),
{
    let node_tokens = tokenize(&node.summary);
    let r = terms_from_tokens(node, &node_tokens, query_tokens);
    proof {
        assert(node_tokens.tokens() =~= token_set(node@.summary));
        if overlaps(query_tokens.tokens(), node@) {
            let t = choose|t: Seq<char>| #[trigger]
                query_tokens.tokens().contains(t) && is_token(node@.summary, t);
            assert(query_tokens.tokens().contains(t) && node_tokens.tokens().contains(t));
        }
        if r.matched > 0 {
            let t = choose|t: Seq<char>| #[trigger]
                query_tokens.tokens().contains(t) && node_tokens.tokens().contains(t);
            assert(query_tokens.tokens().contains(t) && is_token(node@.summary, t));
        }
    }
    r
}

/// A score and whether the node was named exactly.
#[derive(Debug, Clone, Copy, PartialEq, Eq, Structural)]
pub struct Relevance {
    pub score: Binary32,
    pub exact: bool,
}

/// The legacy relevance of a node: `weighted` where it shares a token with the
/// query, and zero where it does not.
pub open spec fn relevance_of(query: Set<Seq<char>>, n: NodeModel, weighted: Binary32) -> Relevance {
    Relevance {
        score: if overlaps(query, n) {
            weighted
        } else {
            Binary32 { bits: 0 }
        },
        exact: false,
    }
}

/// The relevance of a node to the query's tokens, where `weighted` is the
/// weighted sum of its terms: five times the share of matched tokens, its
/// authority and its confidence.
pub fn relevance_score(node: &ContextNode, query_tokens: &TokenSet, weighted: Binary32) -> (r:
    Relevance)
    requires
        query_tokens.well_formed(),
    ensures
        r == relevance_of(query_tokens.tokens(), node@, weighted),
{
    let terms = relevance_terms(node, query_tokens);
    if terms.matched == 0 {
        return Relevance { score: Binary32::zero(), exact: false };
    }
    Relevance { score: weighted, exact: false }
}

/// What matching a node against a prepared query gave: the lexical overlap, the
/// weighted sum of its terms, and whether the query names the node.
#[derive(Debug, Clone, Copy)]
pub struct QueryMatch {
    pub lexical_overlap: Binary32,
    pub weighted: Binary32,
    pub exact: Result<bool, RetrievalError>,
}

/// The relevance that a match gives once the document is in bounds.
pub open spec fn matched_relevance(m: QueryMatch) -> Result<Relevance, RetrievalError> {
    match m.exact {
        Err(e) => Err(e),
        Ok(exact) => if !exact && m.lexical_overlap.is_zero_spec() {
            Ok(Relevance { score: Binary32 { bits: 0 }, exact: false })
        } else {
            Ok(Relevance { score: m.weighted, exact })
        },
    }
}

/// The relevance of a node to a prepared query.
pub open spec fn v2_relevance_of(n: NodeModel, m: QueryMatch) -> Result<
    Relevance,
    RetrievalError,
> {
    match document_refusal(n) {
        Some(e) => Err(e),
        None => matched_relevance(m),
    }
}

/// Decides relevance from what matching a bounded document gave.
pub fn relevance_from_match(m: &QueryMatch) -> (r: Result<Relevance, RetrievalError>)
    ensures
        r == matched_relevance(*m),
{
    match m.exact {
        Err(e) => Err(e),
        Ok(exact) => {
            if !exact && m.lexical_overlap.is_zero() {
                return Ok(Relevance { score: Binary32::zero(), exact: false });
            }
            Ok(Relevance { score: m.weighted, exact })
        },
    }
}

/// The relevance of a node to a prepared query, refused where its document is
/// too long.
pub fn v2_relevance(node: &ContextNode, m: &QueryMatch) -> (r: Result<Relevance, RetrievalError>)
    ensures
        r == v2_relevance_of(node@, *m),
{
    match context_retrieval_document(node) {
        Err(e) => Err(e),
        Ok(document) => relevance_from_match(m),
    }
}

} // verus!
