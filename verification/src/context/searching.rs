//! What a task signature is searched for: every word of every part.

use vstd::prelude::*;

use crate::binary32::Binary32;
use crate::context::node::{ContextOrigin, EpistemicStatus, NodeModel};
use crate::context::signature::{
    alphanumeric, ascii_alphanumeric, ascii_lowercase, ascii_run, authority_of, is_ascii_token,
    is_token, lowercase, matched_relevance, maximal_run, optional_part, overlaps, relevance_of,
    spaced, token_set, v2_relevance_of, QueryMatch, TaskSignature,
};
use crate::text::{ascii_lower, texts};

verus! {

/// A word that stands alone is a token in lower case: two or more alphanumeric
/// characters with none beside them.
pub proof fn standing_words_are_tokens(before: Seq<char>, word: Seq<char>, after: Seq<char>)
    requires
        word.len() >= 2,
        forall|k: int| 0 <= k < word.len() ==> alphanumeric(#[trigger] word[k]),
        before.len() > 0 ==> !alphanumeric(before[before.len() - 1]),
        after.len() > 0 ==> !alphanumeric(after[0]),
    ensures
        is_token(before + word + after, lowercase(word)),
{
    let s = before + word + after;
    let (i, j) = (before.len() as int, (before.len() + word.len()) as int);
    assert(s.subrange(i, j) =~= word);
    assert forall|k: int| i <= k < j implies alphanumeric(#[trigger] s[k]) by {
        assert(s[k] == word[k - i]);
    }
    assert(maximal_run(s, i, j));
}

/// Every token is the lower case of such a word, and of nothing shorter.
pub proof fn tokens_are_standing_words(s: Seq<char>, t: Seq<char>) -> (w: (int, int))
    requires
        is_token(s, t),
    ensures
        0 <= w.0 && w.0 + 2 <= w.1 <= s.len(),
        t == lowercase(s.subrange(w.0, w.1)),
        forall|k: int| w.0 <= k < w.1 ==> alphanumeric(#[trigger] s[k]),
        w.0 > 0 ==> !alphanumeric(s[w.0 - 1]),
        w.1 < s.len() ==> !alphanumeric(s[w.1]),
{
    choose|i: int, j: int| #[trigger]
        maximal_run(s, i, j) && j - i > 1 && t == lowercase(s.subrange(i, j))
}

/// A space parts words: the tokens of two texts with a space between them are
/// those of the one and those of the other.
pub proof fn spaces_part_words(a: Seq<char>, b: Seq<char>, t: Seq<char>)
    requires
        !alphanumeric(' '),
    ensures
        is_token(a + seq![' '] + b, t) <==> is_token(a, t) || is_token(b, t),
{
    let w = a + seq![' '] + b;
    let n = a.len() as int;
    assert(w[n] == ' ');
    if is_token(a, t) {
        let (i, j) = tokens_are_standing_words(a, t);
        assert(w.subrange(i, j) =~= a.subrange(i, j));
        assert forall|k: int| i <= k < j implies alphanumeric(#[trigger] w[k]) by {
            assert(w[k] == a[k]);
        }
        assert(maximal_run(w, i, j));
    }
    if is_token(b, t) {
        let (i, j) = tokens_are_standing_words(b, t);
        let (p, q) = (n + 1 + i, n + 1 + j);
        assert(w.subrange(p, q) =~= b.subrange(i, j));
        assert forall|k: int| p <= k < q implies alphanumeric(#[trigger] w[k]) by {
            assert(w[k] == b[k - n - 1]);
        }
        assert(maximal_run(w, p, q));
    }
    if is_token(w, t) {
        let (i, j) = tokens_are_standing_words(w, t);
        if i <= n < j {
            assert(alphanumeric(w[n]));
        }
        if j <= n {
            assert(w.subrange(i, j) =~= a.subrange(i, j));
            assert forall|k: int| i <= k < j implies alphanumeric(#[trigger] a[k]) by {
                assert(w[k] == a[k]);
            }
            assert(maximal_run(a, i, j));
        } else {
            let (p, q) = (i - n - 1, j - n - 1);
            assert(w.subrange(i, j) =~= b.subrange(p, q));
            assert forall|k: int| p <= k < q implies alphanumeric(#[trigger] b[k]) by {
                assert(w[k + n + 1] == b[k]);
            }
            assert(maximal_run(b, p, q));
        }
    }
}

/// The tokens of parts with spaces between them are those of the parts.
proof fn lemma_tokens_of_spaced(parts: Seq<Seq<char>>, t: Seq<char>)
    requires
        !alphanumeric(' '),
        parts.len() > 0,
    ensures
        is_token(spaced(parts), t) <==> exists|k: int|
            0 <= k < parts.len() && is_token(#[trigger] parts[k], t),
    decreases parts.len(),
{
    if parts.len() == 1 {
        if exists|k: int| 0 <= k < parts.len() && is_token(#[trigger] parts[k], t) {
            assert(is_token(parts[0], t));
        }
    } else {
        let rest = parts.drop_last();
        reveal_strlit(" ");
        assert(" "@ =~= seq![' ']);
        lemma_tokens_of_spaced(rest, t);
        spaces_part_words(spaced(rest), parts.last(), t);
        if is_token(spaced(rest), t) {
            let k = choose|k: int| 0 <= k < rest.len() && is_token(#[trigger] rest[k], t);
            assert(parts[k] == rest[k]);
        }
        if is_token(parts.last(), t) {
            assert(parts[parts.len() - 1] == parts.last());
        }
        if exists|k: int| 0 <= k < parts.len() && is_token(#[trigger] parts[k], t) {
            let k = choose|k: int| 0 <= k < parts.len() && is_token(#[trigger] parts[k], t);
            if k < rest.len() {
                assert(rest[k] == parts[k]);
            }
        }
    }
}

/// A part stands in the text as it is, parted by a space from what comes before
/// and after it.
proof fn lemma_part_stands(parts: Seq<Seq<char>>, k: int) -> (around: (Seq<char>, Seq<char>))
    requires
        0 <= k < parts.len(),
    ensures
        spaced(parts) == around.0 + parts[k] + around.1,
        around.0.len() > 0 ==> around.0[around.0.len() - 1] == ' ',
        around.1.len() > 0 ==> around.1[0] == ' ',
    decreases parts.len(),
{
    reveal_strlit(" ");
    assert(" "@ =~= seq![' ']);
    let rest = parts.drop_last();
    if parts.len() == 1 {
        let around = (Seq::<char>::empty(), Seq::<char>::empty());
        assert(spaced(parts) =~= around.0 + parts[k] + around.1);
        around
    } else if k == parts.len() - 1 {
        let around = (spaced(rest) + seq![' '], Seq::<char>::empty());
        assert(spaced(parts) =~= around.0 + parts[k] + around.1);
        around
    } else {
        let inner = lemma_part_stands(rest, k);
        let around = (inner.0, inner.1 + seq![' '] + parts.last());
        assert(spaced(parts) =~= around.0 + parts[k] + around.1);
        around
    }
}

proof fn lemma_parts(signature: TaskSignature, part: Seq<char>, k: int) -> (i: int)
    requires
        part == signature.request@ || signature.active_goal is Some && part
            == signature.active_goal->0@ || 0 <= k < signature.entities@.len() && part
            == signature.entities@[k]@ || 0 <= k < signature.constraints@.len() && part
            == signature.constraints@[k]@ || signature.expected_effect is Some && part
            == signature.expected_effect->0@,
    ensures
        0 <= i < signature.parts().len(),
        signature.parts()[i] == part,
{
    let parts = signature.parts();
    let g = optional_part(signature.active_goal).len() as int;
    let e = signature.entities@.len() as int;
    let c = signature.constraints@.len() as int;
    if part == signature.request@ {
        0
    } else if signature.active_goal is Some && part == signature.active_goal->0@ {
        assert(parts[1] == signature.active_goal->0@);
        1
    } else if 0 <= k < e && part == signature.entities@[k]@ {
        assert(parts[1 + g + k] == texts(signature.entities@)[k]);
        1 + g + k
    } else if 0 <= k < c && part == signature.constraints@[k]@ {
        assert(parts[1 + g + e + k] == texts(signature.constraints@)[k]);
        1 + g + e + k
    } else {
        assert(parts[1 + g + e + c] == signature.expected_effect->0@);
        1 + g + e + c
    }
}

/// Nothing that a signature says is left out of the search: the request, the goal,
/// every entity, every constraint and the expected effect each stand in the
/// searched text as they are, parted by spaces from the rest.
pub proof fn signatures_are_searched_whole(signature: TaskSignature, part: Seq<char>, k: int) -> (
    around: (Seq<char>, Seq<char>))
    requires
        part == signature.request@ || signature.active_goal is Some && part
            == signature.active_goal->0@ || 0 <= k < signature.entities@.len() && part
            == signature.entities@[k]@ || 0 <= k < signature.constraints@.len() && part
            == signature.constraints@[k]@ || signature.expected_effect is Some && part
            == signature.expected_effect->0@,
    ensures
        spaced(signature.parts()) == around.0 + part + around.1,
        around.0.len() > 0 ==> around.0[around.0.len() - 1] == ' ',
        around.1.len() > 0 ==> around.1[0] == ' ',
{
    let i = lemma_parts(signature, part, k);
    lemma_part_stands(signature.parts(), i)
}

/// A signature is searched for the words of its parts and for no other: a token of
/// the searched text is a token of the request, of the goal, of some entity, of
/// some constraint or of the expected effect, and every such token is searched
/// for. A space is not alphanumeric.
pub proof fn signatures_are_searched_for_their_own_words(signature: TaskSignature, t: Seq<char>)
    requires
        !alphanumeric(' '),
    ensures
        token_set(spaced(signature.parts())).contains(t) <==> {
            ||| is_token(signature.request@, t)
            ||| signature.active_goal is Some && is_token(signature.active_goal->0@, t)
            ||| exists|k: int|
                0 <= k < signature.entities@.len() && is_token(
                    (#[trigger] signature.entities@[k])@,
                    t,
                )
            ||| exists|k: int|
                0 <= k < signature.constraints@.len() && is_token(
                    (#[trigger] signature.constraints@[k])@,
                    t,
                )
            ||| signature.expected_effect is Some && is_token(signature.expected_effect->0@, t)
        },
{
    let parts = signature.parts();
    let g = optional_part(signature.active_goal).len() as int;
    let e = signature.entities@.len() as int;
    let c = signature.constraints@.len() as int;
    lemma_tokens_of_spaced(parts, t);
    if is_token(spaced(parts), t) {
        let i = choose|i: int| 0 <= i < parts.len() && is_token(#[trigger] parts[i], t);
        if i == 0 {
            assert(parts[i] == signature.request@);
        } else if i < 1 + g {
            assert(parts[i] == signature.active_goal->0@);
        } else if i < 1 + g + e {
            assert(parts[i] == texts(signature.entities@)[i - 1 - g]);
            assert(is_token(signature.entities@[i - 1 - g]@, t));
        } else if i < 1 + g + e + c {
            assert(parts[i] == texts(signature.constraints@)[i - 1 - g - e]);
            assert(is_token(signature.constraints@[i - 1 - g - e]@, t));
        } else {
            assert(parts[i] == signature.expected_effect->0@);
        }
    }
    if is_token(signature.request@, t) {
        let i = lemma_parts(signature, signature.request@, 0);
        assert(is_token(parts[i], t));
    }
    if signature.active_goal is Some && is_token(signature.active_goal->0@, t) {
        let i = lemma_parts(signature, signature.active_goal->0@, 0);
        assert(is_token(parts[i], t));
    }
    if signature.expected_effect is Some && is_token(signature.expected_effect->0@, t) {
        let i = lemma_parts(signature, signature.expected_effect->0@, 0);
        assert(is_token(parts[i], t));
    }
    if exists|k: int| 0 <= k < e && is_token((#[trigger] signature.entities@[k])@, t) {
        let k = choose|k: int| 0 <= k < e && is_token((#[trigger] signature.entities@[k])@, t);
        let i = lemma_parts(signature, signature.entities@[k]@, k);
        assert(is_token(parts[i], t));
    }
    if exists|k: int| 0 <= k < c && is_token((#[trigger] signature.constraints@[k])@, t) {
        let k = choose|k: int| 0 <= k < c && is_token((#[trigger] signature.constraints@[k])@, t);
        let i = lemma_parts(signature, signature.constraints@[k]@, k);
        assert(is_token(parts[i], t));
    }
}

/// A node is relevant to a signature by its weight where a word of its summary is
/// one of the searched words, and not at all where none is. No node is named
/// exactly by a legacy signature.
pub proof fn shared_words_make_relevance(
    searched: Seq<char>,
    n: NodeModel,
    weighted: Binary32,
    t: Seq<char>,
)
    ensures
        is_token(searched, t) && is_token(n.summary, t) ==> relevance_of(
            token_set(searched),
            n,
            weighted,
        ).score == weighted,
        (forall|u: Seq<char>| !(#[trigger] is_token(searched, u) && is_token(n.summary, u)))
            ==> relevance_of(token_set(searched), n, weighted).score.bits == 0,
        !relevance_of(token_set(searched), n, weighted).exact,
{
    let query = token_set(searched);
    if is_token(searched, t) && is_token(n.summary, t) {
        assert(query.contains(t));
    }
    if overlaps(query, n) {
        let u = choose|u: Seq<char>| #[trigger] query.contains(u) && is_token(n.summary, u);
        assert(is_token(searched, u));
    }
}

/// A query's match counts for its weight where the query names the node or shares
/// a word with it, and for nothing otherwise; a failed match fails.
pub proof fn matches_count_where_they_match(m: QueryMatch)
    ensures
        m.exact is Err ==> matched_relevance(m) is Err && matched_relevance(m)->Err_0
            == m.exact->Err_0,
        m.exact is Ok ==> matched_relevance(m) is Ok && matched_relevance(m)->Ok_0.exact
            == m.exact->Ok_0,
        m.exact is Ok && (m.exact->Ok_0 || (m.lexical_overlap.bits != 0 && m.lexical_overlap.bits
            != 0x8000_0000)) ==> matched_relevance(m)->Ok_0.score == m.weighted,
        m.exact is Ok && !m.exact->Ok_0 && (m.lexical_overlap.bits == 0 || m.lexical_overlap.bits
            == 0x8000_0000) ==> matched_relevance(m)->Ok_0.score.bits == 0,
{
}

/// A match counts for a node whose document is in bounds, and a longer document is
/// refused whatever it matches.
pub proof fn long_documents_are_not_matched(n: NodeModel, m: QueryMatch)
    ensures
        n.document_len() <= 65_536 ==> v2_relevance_of(n, m) == matched_relevance(m),
        n.document_len() > 65_536 ==> v2_relevance_of(n, m) is Err,
{
}

/// What the user said or confirmed weighs most, what anybody confirmed weighs more
/// than what was merely said, and that more than what was inferred; what is
/// disputed weighs against a node more than anything can weigh for it.
pub proof fn trust_follows_origin_and_status(a: ContextOrigin, b: ContextOrigin)
    ensures
        authority_of(ContextOrigin::User, EpistemicStatus::Verified) == 10,
        authority_of(ContextOrigin::User, EpistemicStatus::Asserted) == 10,
        a != ContextOrigin::User ==> authority_of(a, EpistemicStatus::Verified) == 8,
        a != ContextOrigin::User ==> authority_of(a, EpistemicStatus::Asserted) == 5,
        authority_of(a, EpistemicStatus::Inferred) == 2,
        authority_of(a, EpistemicStatus::Disputed) == -100,
        authority_of(a, EpistemicStatus::Inferred) < authority_of(b, EpistemicStatus::Asserted),
        authority_of(a, EpistemicStatus::Asserted) <= authority_of(
            ContextOrigin::User,
            EpistemicStatus::Verified,
        ),
{
}

/// A run of two or more ASCII letters and digits that nothing alphanumeric touches
/// is a token of an ASCII text, its letters lowered.
pub proof fn ascii_words_are_tokens(s: Seq<char>, i: int, j: int, t: Seq<char>)
    requires
        0 <= i,
        i + 1 < j <= s.len(),
        t.len() == j - i,
        forall|k: int|
            i <= k < j ==> ('a' <= #[trigger] s[k] <= 'z' || 'A' <= s[k] <= 'Z' || '0' <= s[k]
                <= '9'),
        i > 0 ==> s[i - 1] == ' ',
        j < s.len() ==> s[j] == ' ',
        forall|k: int|
            0 <= k < t.len() ==> #[trigger] t[k] as int == (if 'A' <= s[i + k] <= 'Z' {
                s[i + k] as int + 32
            } else {
                s[i + k] as int
            }),
    ensures
        is_ascii_token(s, t),
{
    assert forall|k: int| 0 <= k < t.len() implies #[trigger] t[k] == ascii_lowercase(
        s.subrange(i, j),
    )[k] by {
        let c = s[i + k];
        assert('a' <= c <= 'z' || 'A' <= c <= 'Z' || '0' <= c <= '9');
        assert(ascii_lowercase(s.subrange(i, j))[k] == ascii_lower(c));
        assert(ascii_lower(c) as int == t[k] as int);
    }
    assert(t =~= ascii_lowercase(s.subrange(i, j)));
    assert(ascii_run(s, i, j));
}

/// A token of an ASCII text has at least two characters, all of them lower-case
/// letters or digits; it stands somewhere in the text, and what stands next to it
/// there is neither letter nor digit.
pub proof fn ascii_tokens_are_lowered_words(s: Seq<char>, t: Seq<char>, k: int)
    requires
        is_ascii_token(s, t),
        0 <= k < t.len(),
    ensures
        2 <= t.len() <= s.len(),
        'a' <= t[k] <= 'z' || '0' <= t[k] <= '9',
        exists|i: int, j: int|
            {
                &&& ascii_lowercase(#[trigger] s.subrange(i, j)) == t
                &&& 0 <= i < j <= s.len() && j - i == t.len()
                &&& i > 0 ==> !('a' <= s[i - 1] <= 'z' || 'A' <= s[i - 1] <= 'Z' || '0' <= s[i
                    - 1] <= '9')
                &&& j < s.len() ==> !('a' <= s[j] <= 'z' || 'A' <= s[j] <= 'Z' || '0' <= s[j]
                    <= '9')
            },
{
    let (i, j) = choose|i: int, j: int| #[trigger]
        ascii_run(s, i, j) && j - i > 1 && t == ascii_lowercase(s.subrange(i, j));
    assert(ascii_alphanumeric(s[i + k]));
}

} // verus!
