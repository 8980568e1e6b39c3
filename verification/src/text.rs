//! Strings as sequences of characters: blankness, byte length, byte order,
//! decimal numbers and lists of strings.

use vstd::prelude::*;
use vstd::string::*;
use vstd::utf8::*;

verus! {

/// The code points with the Unicode `White_Space` property.
pub open spec fn white_space(c: char) -> bool {
    let u = c as u32;
    ||| 0x9 <= u <= 0xd
    ||| u == 0x20
    ||| u == 0x85
    ||| u == 0xa0
    ||| u == 0x1680
    ||| 0x2000 <= u <= 0x200a
    ||| u == 0x2028
    ||| u == 0x2029
    ||| u == 0x202f
    ||| u == 0x205f
    ||| u == 0x3000
}

/// Nothing remains of the text once white space is trimmed from both ends.
pub open spec fn blank(s: Seq<char>) -> bool {
    forall|i: int| 0 <= i < s.len() ==> white_space(#[trigger] s[i])
}

/// The number of bytes in the UTF-8 encoding of the text.
pub open spec fn utf8_len(s: Seq<char>) -> nat {
    encode_utf8(s).len()
}

/// Lexicographic order on bytes.
pub open spec fn bytes_less(a: Seq<u8>, b: Seq<u8>) -> bool
    decreases a.len(),
{
    if b.len() == 0 {
        false
    } else if a.len() == 0 {
        true
    } else if a[0] != b[0] {
        a[0] < b[0]
    } else {
        bytes_less(a.drop_first(), b.drop_first())
    }
}

/// Texts are ordered by their UTF-8 bytes.
pub open spec fn text_less(a: Seq<char>, b: Seq<char>) -> bool {
    bytes_less(encode_utf8(a), encode_utf8(b))
}

/// The texts of a list of strings.
pub open spec fn texts(list: Seq<String>) -> Seq<Seq<char>> {
    list.map_values(|s: String| s@)
}

/// The text inside an optional string.
pub open spec fn optional_text(s: Option<String>) -> Option<Seq<char>> {
    match s {
        Some(t) => Some(t@),
        None => None,
    }
}

/// The list holds at least one text and none of them is blank.
pub open spec fn names_sources(list: Seq<Seq<char>>) -> bool {
    &&& list.len() > 0
    &&& forall|i: int| 0 <= i < list.len() ==> !blank(#[trigger] list[i])
}

pub fn is_white_space(c: char) -> (r: bool)
    ensures
        r == white_space(c),
{
    let u: u32 = c as u32;
    (0x9 <= u && u <= 0xd) || u == 0x20 || u == 0x85 || u == 0xa0 || u == 0x1680 || (0x2000 <= u
        && u <= 0x200a) || u == 0x2028 || u == 0x2029 || u == 0x202f || u == 0x205f || u == 0x3000
}

/// Whether trimming leaves nothing of the text.
pub fn is_blank(s: &str) -> (r: bool)
    ensures
        r == blank(s@),
{
    for c in it: s.chars()
        invariant
            it.seq() == s@,
            forall|i: int| 0 <= i < it.index() ==> white_space(#[trigger] s@[i]),
    {
        if !is_white_space(c) {
            assert(!white_space(s@[it.index() as int]));
            return false;
        }
    }
    true
}

/// The length of the text in bytes.
pub fn byte_len(s: &str) -> (n: usize)
    ensures
        n == utf8_len(s@),
{
    s.as_bytes().len()
}

/// Whether `a` comes strictly before `b` in byte order.
pub fn bytes_before(a: &[u8], b: &[u8]) -> (r: bool)
    ensures
        r == bytes_less(a@, b@),
{
    let mut i: usize = 0;
    proof {
        assert(a@.skip(0) =~= a@);
        assert(b@.skip(0) =~= b@);
    }
    while i < a.len() && i < b.len()
        invariant
            0 <= i <= a@.len(),
            i <= b@.len(),
            bytes_less(a@, b@) == bytes_less(a@.skip(i as int), b@.skip(i as int)),
        decreases a.len() - i,
    {
        if a[i] != b[i] {
            return a[i] < b[i];
        }
        proof {
            assert(a@.skip(i as int).drop_first() =~= a@.skip(i + 1));
            assert(b@.skip(i as int).drop_first() =~= b@.skip(i + 1));
        }
        i += 1;
    }
    i < b.len()
}

/// Whether `a` comes strictly before `b`.
pub fn text_before(a: &str, b: &str) -> (r: bool)
    ensures
        r == text_less(a@, b@),
{
    bytes_before(a.as_bytes(), b.as_bytes())
}

/// Whether two texts are the same.
pub fn same_text(a: &str, b: &str) -> (r: bool)
    ensures
        r == (a@ == b@),
{
    let x = a.as_bytes();
    let y = b.as_bytes();
    proof {
        encode_utf8_decode_utf8(a@);
        encode_utf8_decode_utf8(b@);
    }
    if x.len() != y.len() {
        return false;
    }
    let mut i: usize = 0;
    while i < x.len()
        invariant
            0 <= i <= x@.len(),
            x@.len() == y@.len(),
            forall|j: int| 0 <= j < i ==> x@[j] == y@[j],
            x@ == encode_utf8(a@),
            y@ == encode_utf8(b@),
        decreases x.len() - i,
    {
        if x[i] != y[i] {
            return false;
        }
        i += 1;
    }
    assert(x@ =~= y@);
    true
}

/// Whether two lists hold the same texts in the same order.
pub fn same_texts(a: &Vec<String>, b: &Vec<String>) -> (r: bool)
    ensures
        r == (texts(a@) == texts(b@)),
{
    if a.len() != b.len() {
        assert(texts(a@).len() != texts(b@).len());
        return false;
    }
    let mut i: usize = 0;
    while i < a.len()
        invariant
            0 <= i <= a@.len(),
            a@.len() == b@.len(),
            forall|j: int| 0 <= j < i ==> #[trigger] texts(a@)[j] == texts(b@)[j],
        decreases a.len() - i,
    {
        if !same_text(&a[i], &b[i]) {
            assert(texts(a@)[i as int] != texts(b@)[i as int]);
            return false;
        }
        i += 1;
    }
    assert(texts(a@) =~= texts(b@));
    true
}

/// Whether two optional texts are the same.
pub fn same_optional_text(a: &Option<String>, b: &Option<String>) -> (r: bool)
    ensures
        r == (optional_text(*a) == optional_text(*b)),
{
    match (a, b) {
        (Some(x), Some(y)) => same_text(x, y),
        (None, None) => true,
        _ => false,
    }
}

/// A copy of a list of strings.
pub fn copy_texts(a: &Vec<String>) -> (r: Vec<String>)
    ensures
        texts(r@) == texts(a@),
{
    let mut r: Vec<String> = Vec::new();
    let mut i: usize = 0;
    while i < a.len()
        invariant
            0 <= i <= a@.len(),
            r@.len() == i,
            forall|j: int| 0 <= j < i ==> (#[trigger] r@[j])@ == a@[j]@,
        decreases a.len() - i,
    {
        r.push(a[i].clone());
        i += 1;
    }
    assert(texts(r@) =~= texts(a@));
    r
}

/// A copy of an optional string.
pub fn copy_optional_text(a: &Option<String>) -> (r: Option<String>)
    ensures
        optional_text(r) == optional_text(*a),
{
    match a {
        Some(x) => Some(x.clone()),
        None => None,
    }
}

/// Whether the list names at least one source and no blank one.
pub fn has_provenance(source_event_ids: &Vec<String>) -> (r: bool)
    ensures
        r == names_sources(texts(source_event_ids@)),
{
    if source_event_ids.len() == 0 {
        return false;
    }
    let mut i: usize = 0;
    while i < source_event_ids.len()
        invariant
            0 <= i <= source_event_ids@.len(),
            forall|j: int| 0 <= j < i ==> !blank(#[trigger] texts(source_event_ids@)[j]),
        decreases source_event_ids.len() - i,
    {
        if is_blank(&source_event_ids[i]) {
            assert(blank(texts(source_event_ids@)[i as int]));
            return false;
        }
        i += 1;
    }
    true
}

/// Whether the list contains the text.
pub fn contains_text(list: &Vec<String>, s: &str) -> (r: bool)
    ensures
        r == texts(list@).contains(s@),
{
    let mut i: usize = 0;
    while i < list.len()
        invariant
            0 <= i <= list@.len(),
            forall|j: int| 0 <= j < i ==> #[trigger] texts(list@)[j] != s@,
        decreases list.len() - i,
    {
        if same_text(&list[i], s) {
            assert(texts(list@)[i as int] == s@);
            return true;
        }
        i += 1;
    }
    false
}

/// The characters of a text.
pub fn chars_of(s: &str) -> (v: Vec<char>)
    ensures
        v@ == s@,
{
    let mut v: Vec<char> = Vec::new();
    for c in it: s.chars()
        invariant
            it.seq() == s@,
            v@ =~= s@.take(it.index() as int),
    {
        v.push(c);
    }
    assert(v@ =~= s@);
    v
}

/// The text begins with the prefix.
pub open spec fn starts_with(s: Seq<char>, prefix: Seq<char>) -> bool {
    prefix.len() <= s.len() && s.take(prefix.len() as int) == prefix
}

/// The text ends with the suffix.
pub open spec fn ends_with(s: Seq<char>, suffix: Seq<char>) -> bool {
    suffix.len() <= s.len() && s.skip(s.len() - suffix.len()) == suffix
}

/// Whether `part` stands in `whole` from position `at` on.
pub fn stands_at(whole: &Vec<char>, at: usize, part: &Vec<char>) -> (r: bool)
    ensures
        r == (at + part@.len() <= whole@.len() && whole@.subrange(at as int, at + part@.len())
            == part@),
{
    if at > whole.len() || part.len() > whole.len() - at {
        return false;
    }
    let mut i: usize = 0;
    while i < part.len()
        invariant
            0 <= i <= part@.len(),
            at + part@.len() <= whole.len(),
            forall|j: int| 0 <= j < i ==> whole@[at + j] == #[trigger] part@[j],
        decreases part.len() - i,
    {
        if whole[at + i] != part[i] {
            assert(whole@.subrange(at as int, at + part@.len())[i as int] != part@[i as int]);
            return false;
        }
        i += 1;
    }
    assert(whole@.subrange(at as int, at + part@.len()) =~= part@);
    true
}

/// Whether the characters from `from` on are all white space.
pub fn blank_from(s: &Vec<char>, from: usize) -> (r: bool)
    requires
        from <= s@.len(),
    ensures
        r == blank(s@.skip(from as int)),
{
    let mut i: usize = from;
    while i < s.len()
        invariant
            from <= i <= s@.len(),
            forall|j: int| from <= j < i ==> white_space(#[trigger] s@[j]),
        decreases s.len() - i,
    {
        if !is_white_space(s[i]) {
            assert(!white_space(s@.skip(from as int)[i - from]));
            return false;
        }
        i += 1;
    }
    true
}

/// `String::push`: appends the character.
#[verifier::external_body]
pub(crate) fn push_char(s: &mut String, c: char)
    ensures
        final(s)@ == old(s)@.push(c),
{
    s.push(c)
}

/// The number of bytes of one character.
pub fn char_width(c: char) -> (n: usize)
    ensures
        n == utf8_len(seq![c]),
        1 <= n <= 4,
{
    let u: u32 = c as u32;
    proof {
        char_is_scalar(c);
        let s = seq![c];
        assert(s.drop_first() =~= Seq::empty());
        assert(encode_utf8(s.drop_first()) =~= Seq::empty());
        assert(encode_utf8(s) =~= encode_scalar(u));
    }
    if u <= 0x7f {
        1
    } else if u <= 0x7ff {
        2
    } else if u <= 0xffff {
        3
    } else {
        4
    }
}

/// The longest beginning of the text that has at most `max` bytes.
pub open spec fn cut(s: Seq<char>, max: nat) -> Seq<char>
    decreases s.len(),
{
    if utf8_len(s) <= max || s.len() == 0 {
        s
    } else {
        cut(s.drop_last(), max)
    }
}

proof fn lemma_utf8_len_grows(s: Seq<char>, k: int)
    requires
        0 <= k <= s.len(),
    ensures
        utf8_len(s.take(k)) <= utf8_len(s),
{
    lemma_utf8_len_concat(s.take(k), s.skip(k));
    assert(s.take(k) + s.skip(k) =~= s);
}

proof fn lemma_cut(s: Seq<char>, max: nat, k: int)
    requires
        0 <= k < s.len(),
        utf8_len(s.take(k)) <= max,
        utf8_len(s.take(k + 1)) > max,
    ensures
        cut(s, max) == s.take(k),
    decreases s.len(),
{
    lemma_utf8_len_grows(s, k + 1);
    let rest = s.drop_last();
    if k == rest.len() {
        assert(s.take(k) =~= rest);
        assert(cut(rest, max) == rest);
    } else {
        assert(rest.take(k) =~= s.take(k));
        assert(rest.take(k + 1) =~= s.take(k + 1));
        lemma_cut(rest, max, k);
    }
}

/// Cuts a text at the last character boundary within `max` bytes.
pub fn cut_text(s: &str, max: usize) -> (r: String)
    ensures
        r@ == cut(s@, max as nat),
        utf8_len(r@) <= max,
{
    let mut out: String = String::new();
    let mut used: usize = 0;
    proof {
        assert(encode_utf8(Seq::<char>::empty()) =~= Seq::empty());
    }
    for c in it: s.chars()
        invariant
            it.seq() == s@,
            out@ =~= s@.take(it.index() as int),
            used == utf8_len(out@),
            used <= max,
    {
        let width: usize = char_width(c);
        let ghost k = it.index() as int;
        proof {
            assert(s@.take(k + 1) =~= s@.take(k) + seq![c]);
            lemma_utf8_len_concat(s@.take(k), seq![c]);
        }
        if width > max - used {
            proof {
                lemma_cut(s@, max as nat, k);
            }
            return out;
        }
        push_char(&mut out, c);
        assert(out@ =~= s@.take(k + 1));
        used = used + width;
    }
    assert(out@ =~= s@);
    out
}

/// The decimal digit of a number below ten.
pub open spec fn digit(n: nat) -> char {
    (('0' as u32) + n) as char
}

/// The decimal representation of a natural number.
pub open spec fn decimal_text(n: nat) -> Seq<char>
    decreases n,
{
    if n < 10 {
        seq![digit(n)]
    } else {
        decimal_text(n / 10).push(digit(n % 10))
    }
}

fn digit_text(n: u128) -> (s: &'static str)
    requires
        n < 10,
    ensures
        s@ == seq![digit(n as nat)],
{
    proof {
        reveal_strlit("0");
        reveal_strlit("1");
        reveal_strlit("2");
        reveal_strlit("3");
        reveal_strlit("4");
        reveal_strlit("5");
        reveal_strlit("6");
        reveal_strlit("7");
        reveal_strlit("8");
        reveal_strlit("9");
        assert(digit(0) == '0' && digit(1) == '1' && digit(2) == '2' && digit(3) == '3' && digit(4)
            == '4' && digit(5) == '5' && digit(6) == '6' && digit(7) == '7' && digit(8) == '8'
            && digit(9) == '9');
    }
    let s = if n == 0 {
        "0"
    } else if n == 1 {
        "1"
    } else if n == 2 {
        "2"
    } else if n == 3 {
        "3"
    } else if n == 4 {
        "4"
    } else if n == 5 {
        "5"
    } else if n == 6 {
        "6"
    } else if n == 7 {
        "7"
    } else if n == 8 {
        "8"
    } else {
        "9"
    };
    assert(s@ =~= seq![digit(n as nat)]);
    s
}

/// The number in decimal digits.
pub fn wide_decimal(n: u128) -> (s: String)
    ensures
        s@ == decimal_text(n as nat),
    decreases n,
{
    if n < 10 {
        digit_text(n).to_owned()
    } else {
        let mut s = wide_decimal(n / 10);
        s.append(digit_text(n % 10));
        assert(s@ =~= decimal_text((n / 10) as nat).push(digit((n % 10) as nat)));
        s
    }
}

/// The number in decimal digits.
pub fn decimal(n: u64) -> (s: String)
    ensures
        s@ == decimal_text(n as nat),
{
    wide_decimal(n as u128)
}

/// The decimal representation of an integer.
pub open spec fn signed_decimal_text(n: int) -> Seq<char> {
    if n < 0 {
        "-"@ + decimal_text((-n) as nat)
    } else {
        decimal_text(n as nat)
    }
}

/// The number in decimal digits, with a sign where it is negative.
pub fn signed_decimal(n: i64) -> (s: String)
    ensures
        s@ == signed_decimal_text(n as int),
{
    if n < 0 {
        joined("-", &wide_decimal((-(n as i128)) as u128))
    } else {
        wide_decimal(n as u128)
    }
}

/// The text contains the part somewhere.
pub open spec fn contains_part(s: Seq<char>, part: Seq<char>) -> bool {
    exists|i: int|
        0 <= i && i + part.len() <= s.len() && #[trigger] s.subrange(i, i + part.len()) == part
}

/// Whether the text contains the part somewhere.
pub fn has_part(s: &str, part: &str) -> (r: bool)
    ensures
        r == contains_part(s@, part@),
{
    let whole = chars_of(s);
    let wanted = chars_of(part);
    if wanted.len() > whole.len() {
        return false;
    }
    let last: usize = whole.len() - wanted.len();
    let mut i: usize = 0;
    loop
        invariant
            whole@ == s@,
            wanted@ == part@,
            last == s@.len() - part@.len(),
            last <= whole.len(),
            0 <= i <= last,
            forall|j: int| 0 <= j < i ==> #[trigger] s@.subrange(j, j + part@.len()) != part@,
        decreases last - i,
    {
        if stands_at(&whole, i, &wanted) {
            assert(s@.subrange(i as int, i + part@.len()) == part@);
            return true;
        }
        if i == last {
            assert forall|j: int| 0 <= j && j + part@.len() <= s@.len() implies #[trigger] s@.subrange(
                j,
                j + part@.len(),
            ) != part@ by {}
            return false;
        }
        i += 1;
    }
}

/// The two texts one after the other.
pub fn joined(a: &str, b: &str) -> (s: String)
    ensures
        s@ == a@ + b@,
{
    let mut s = a.to_owned();
    s.append(b);
    s
}

/// The three texts one after the other.
pub fn joined3(a: &str, b: &str, c: &str) -> (s: String)
    ensures
        s@ == a@ + b@ + c@,
{
    let mut s = a.to_owned();
    s.append(b);
    s.append(c);
    s
}

/// The encoding of two texts one after the other is their encodings one after
/// the other.
pub proof fn lemma_utf8_len_concat(a: Seq<char>, b: Seq<char>)
    ensures
        encode_utf8(a + b) == encode_utf8(a) + encode_utf8(b),
        utf8_len(a + b) == utf8_len(a) + utf8_len(b),
    decreases a.len(),
{
    if a.len() == 0 {
        assert(a + b =~= b);
        assert(encode_utf8(a) =~= Seq::<u8>::empty());
        assert(encode_utf8(a) + encode_utf8(b) =~= encode_utf8(b));
    } else {
        lemma_utf8_len_concat(a.drop_first(), b);
        assert((a + b).drop_first() =~= a.drop_first() + b);
        assert((a + b)[0] == a[0]);
        assert(encode_utf8(a + b) =~= encode_utf8(a) + encode_utf8(b));
    }
}

/// Byte order is irreflexive.
pub proof fn lemma_bytes_less_irreflexive(a: Seq<u8>)
    ensures
        !bytes_less(a, a),
    decreases a.len(),
{
    if a.len() > 0 {
        lemma_bytes_less_irreflexive(a.drop_first());
    }
}

/// Byte order is transitive.
pub proof fn lemma_bytes_less_transitive(a: Seq<u8>, b: Seq<u8>, c: Seq<u8>)
    requires
        bytes_less(a, b),
        bytes_less(b, c),
    ensures
        bytes_less(a, c),
    decreases a.len(),
{
    if a.len() > 0 && b.len() > 0 && c.len() > 0 && a[0] == b[0] && b[0] == c[0] {
        lemma_bytes_less_transitive(a.drop_first(), b.drop_first(), c.drop_first());
    }
}

/// Two byte strings of which neither comes first are equal.
pub proof fn lemma_bytes_less_total(a: Seq<u8>, b: Seq<u8>)
    requires
        !bytes_less(a, b),
        !bytes_less(b, a),
    ensures
        a == b,
    decreases a.len(),
{
    if a.len() > 0 && b.len() > 0 {
        lemma_bytes_less_total(a.drop_first(), b.drop_first());
        assert(a =~= seq![a[0]] + a.drop_first());
        assert(b =~= seq![b[0]] + b.drop_first());
    } else {
        assert(a =~= b);
    }
}

/// The order of texts is a strict total order.
pub proof fn text_order_is_total(a: Seq<char>, b: Seq<char>, c: Seq<char>)
    ensures
        !text_less(a, a),
        text_less(a, b) && text_less(b, c) ==> text_less(a, c),
        !(text_less(a, b) && text_less(b, a)),
        text_less(a, b) || text_less(b, a) || a == b,
{
    let (x, y, z) = (encode_utf8(a), encode_utf8(b), encode_utf8(c));
    lemma_bytes_less_irreflexive(x);
    if bytes_less(x, y) && bytes_less(y, z) {
        lemma_bytes_less_transitive(x, y, z);
    }
    if bytes_less(x, y) && bytes_less(y, x) {
        lemma_bytes_less_transitive(x, y, x);
    }
    if !bytes_less(x, y) && !bytes_less(y, x) {
        lemma_bytes_less_total(x, y);
        encode_utf8_decode_utf8(a);
        encode_utf8_decode_utf8(b);
    }
}

/// An ASCII letter in lower case; any other character as it is.
pub open spec fn ascii_lower(c: char) -> char {
    if 'A' <= c <= 'Z' {
        (c as u8 + 32) as char
    } else {
        c
    }
}

/// Two texts are the same but for the case of ASCII letters.
pub open spec fn same_but_case(a: Seq<char>, b: Seq<char>) -> bool {
    &&& a.len() == b.len()
    &&& forall|i: int| 0 <= i < a.len() ==> ascii_lower(#[trigger] a[i]) == ascii_lower(b[i])
}

fn lower(c: char) -> (r: char)
    ensures
        r == ascii_lower(c),
{
    if 'A' <= c && c <= 'Z' {
        (c as u8 + 32) as char
    } else {
        c
    }
}

/// Whether two texts are the same but for the case of ASCII letters.
pub fn is_same_but_case(a: &str, b: &str) -> (r: bool)
    ensures
        r == same_but_case(a@, b@),
{
    let x = chars_of(a);
    let y = chars_of(b);
    if x.len() != y.len() {
        return false;
    }
    let mut i: usize = 0;
    while i < x.len()
        invariant
            x@ == a@,
            y@ == b@,
            x@.len() == y@.len(),
            0 <= i <= x@.len(),
            forall|j: int| 0 <= j < i ==> ascii_lower(#[trigger] a@[j]) == ascii_lower(b@[j]),
        decreases x.len() - i,
    {
        if lower(x[i]) != lower(y[i]) {
            assert(ascii_lower(a@[i as int]) != ascii_lower(b@[i as int]));
            return false;
        }
        i += 1;
    }
    true
}

/// The first byte at which two byte strings differ decides which comes first, the
/// smaller byte before the greater; where one ends, it comes before what goes on.
pub proof fn first_difference_decides(common: Seq<u8>, a: Seq<u8>, b: Seq<u8>)
    ensures
        bytes_less(common, common + b) <==> b.len() > 0,
        !bytes_less(common + b, common),
        a.len() > 0 && b.len() > 0 && a[0] != b[0] ==> (bytes_less(common + a, common + b)
            <==> a[0] < b[0]),
    decreases common.len(),
{
    if common.len() == 0 {
        assert(common + a =~= a);
        assert(common + b =~= b);
    } else {
        let rest = common.drop_first();
        first_difference_decides(rest, a, b);
        assert((common + a).drop_first() =~= rest + a);
        assert((common + b).drop_first() =~= rest + b);
    }
}

/// Spaces, tabs and line ends leave nothing of a text; one visible ASCII character
/// is enough to make it say something.
pub proof fn visible_characters_count(s: Seq<char>, k: int)
    ensures
        0 <= k < s.len() && '!' <= s[k] <= '~' ==> !blank(s),
        (forall|i: int|
            0 <= i < s.len() ==> (#[trigger] s[i]) == ' ' || s[i] == '\t' || s[i] == '\n' || s[i]
                == '\r') ==> blank(s),
{
}

/// A text that is cut keeps its longest beginning that fits, whole characters only.
pub proof fn cuts_keep_the_longest_beginning(s: Seq<char>, max: nat, k: int)
    requires
        0 <= k <= s.len(),
    ensures
        utf8_len(cut(s, max)) <= max,
        cut(s, max).len() <= s.len(),
        cut(s, max) == s.take(cut(s, max).len() as int),
        utf8_len(s.take(k)) <= max ==> k <= cut(s, max).len(),
    decreases s.len(),
{
    if s.len() == 0 {
        assert(encode_utf8(s) =~= Seq::<u8>::empty());
        assert(cut(s, max) =~= s.take(0));
    } else if utf8_len(s) <= max {
        assert(cut(s, max) =~= s.take(s.len() as int));
    } else {
        let rest = s.drop_last();
        if k == s.len() {
            assert(s.take(k) =~= s);
            cuts_keep_the_longest_beginning(rest, max, 0);
        } else {
            cuts_keep_the_longest_beginning(rest, max, k);
            assert(rest.take(k) =~= s.take(k));
        }
        assert(rest.take(cut(rest, max).len() as int) =~= s.take(cut(rest, max).len() as int));
    }
}

/// The number that decimal digits stand for.
pub open spec fn decimal_value(s: Seq<char>) -> int
    decreases s.len(),
{
    if s.len() == 0 {
        0
    } else {
        decimal_value(s.drop_last()) * 10 + (s.last() as u32 - 48)
    }
}

/// A number written in decimal reads back as itself, in digits alone and without
/// leading zeros; a negative one is written behind a minus sign.
pub proof fn decimals_read_back(n: nat)
    ensures
        decimal_value(decimal_text(n)) == n,
        decimal_text(n).len() > 0,
        n > 0 ==> decimal_text(n)[0] != '0',
        forall|i: int|
            0 <= i < decimal_text(n).len() ==> '0' <= (#[trigger] decimal_text(n)[i]) <= '9',
        signed_decimal_text(n as int) == decimal_text(n),
        n > 0 ==> signed_decimal_text(-(n as int)) == seq!['-'] + decimal_text(n),
    decreases n,
{
    reveal_strlit("-");
    assert("-"@ =~= seq!['-']);
    lemma_digits(n % 10);
    if n < 10 {
        assert(decimal_text(n).drop_last() =~= Seq::empty());
        assert(decimal_value(Seq::empty()) == 0);
    } else {
        decimals_read_back(n / 10);
        assert(decimal_text(n).drop_last() =~= decimal_text(n / 10));
    }
}

proof fn lemma_digits(a: nat)
    requires
        a < 10,
    ensures
        digit(a) as u32 == 48 + a,
        '0' <= digit(a) <= '9',
        a > 0 ==> digit(a) != '0',
{
    assert(digit(0) == '0' && digit(1) == '1' && digit(2) == '2' && digit(3) == '3' && digit(4)
        == '4' && digit(5) == '5' && digit(6) == '6' && digit(7) == '7' && digit(8) == '8'
        && digit(9) == '9');
    assert(a == 0 || a == 1 || a == 2 || a == 3 || a == 4 || a == 5 || a == 6 || a == 7 || a == 8
        || a == 9);
}

/// A text starts and ends with what stands at its ends, and contains whatever
/// stands anywhere in it; and where it is said to, it does.
pub proof fn parts_are_found_where_they_stand(a: Seq<char>, part: Seq<char>, b: Seq<char>)
    ensures
        starts_with(part + b, part),
        ends_with(a + part, part),
        contains_part(a + part + b, part),
        starts_with(a, part) ==> a == part + a.skip(part.len() as int),
        ends_with(a, part) ==> a == a.take(a.len() - part.len()) + part,
        contains_part(a, part) ==> exists|i: int|
            0 <= i && i + part.len() <= a.len() && a == #[trigger] a.take(i) + part + a.skip(
                i + part.len(),
            ),
{
    assert((part + b).take(part.len() as int) =~= part);
    assert((a + part).skip((a + part).len() - part.len()) =~= part);
    let s = a + part + b;
    assert(s.subrange(a.len() as int, (a.len() + part.len()) as int) =~= part);
    if starts_with(a, part) {
        assert(a =~= a.take(part.len() as int) + a.skip(part.len() as int));
    }
    if ends_with(a, part) {
        assert(a =~= a.take(a.len() - part.len()) + a.skip(a.len() - part.len()));
    }
    if contains_part(a, part) {
        let i = choose|i: int|
            0 <= i && i + part.len() <= a.len() && #[trigger] a.subrange(i, i + part.len()) == part;
        assert(a =~= a.take(i) + a.subrange(i, i + part.len()) + a.skip(i + part.len()));
    }
}

/// Only the case of the letters A to Z is passed over: a capital letter agrees with
/// its small one and with itself, and with nothing else.
pub proof fn only_the_case_of_letters_is_ignored(a: char, b: char)
    ensures
        same_but_case(seq![a], seq![a]),
        same_but_case(seq![a], seq![b]) <==> a == b || ('A' <= a <= 'Z' && b as u32 == a as u32
            + 32) || ('A' <= b <= 'Z' && a as u32 == b as u32 + 32),
{
    let (x, y) = (seq![a], seq![b]);
    if 'A' <= a <= 'Z' {
        lemma_lower(a);
    }
    if 'A' <= b <= 'Z' {
        lemma_lower(b);
    }
    if same_but_case(x, y) {
        assert(ascii_lower(x[0]) == ascii_lower(y[0]));
    }
}

proof fn lemma_lower(c: char)
    requires
        'A' <= c <= 'Z',
    ensures
        ascii_lower(c) as u32 == c as u32 + 32,
        !('A' <= ascii_lower(c) <= 'Z'),
{
}

/// A text starts with each of its beginnings, itself and nothing among them, and
/// with nothing else.
pub proof fn texts_start_with_their_beginnings(s: Seq<char>, t: Seq<char>)
    ensures
        starts_with(s + t, s),
        starts_with(s, s),
        starts_with(s, Seq::empty()),
        starts_with(s, t) ==> t.len() <= s.len() && s == t + s.skip(t.len() as int),
{
    assert((s + t).take(s.len() as int) =~= s);
    assert(s.take(s.len() as int) =~= s);
    assert(s.take(0) =~= Seq::<char>::empty());
    if starts_with(s, t) {
        assert(s =~= s.take(t.len() as int) + s.skip(t.len() as int));
    }
}

} // verus!
