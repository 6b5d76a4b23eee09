//! Text as sequences of characters: trimming, splitting, cutting, padding and counting.

use vstd::prelude::*;
use vstd::string::{StrSliceExecFns, StringExecFns};
use vstd::utf8::{decode_utf8, encode_utf8, is_char_boundary};

verus! {

/// The character has the Unicode property White_Space.
pub open spec fn white_space(c: char) -> bool {
    let p = c as u32;
    ||| 0x09 <= p <= 0x0d
    ||| p == 0x20
    ||| p == 0x85
    ||| p == 0xa0
    ||| p == 0x1680
    ||| 0x2000 <= p <= 0x200a
    ||| p == 0x2028
    ||| p == 0x2029
    ||| p == 0x202f
    ||| p == 0x205f
    ||| p == 0x3000
}

/// Whether the character has the Unicode property White_Space.
pub fn is_white_space(c: char) -> (r: bool)
    ensures
        r == white_space(c),
{
    let p: u32 = c as u32;
    (0x09 <= p && p <= 0x0d) || p == 0x20 || p == 0x85 || p == 0xa0 || p == 0x1680 || (0x2000 <= p
        && p <= 0x200a) || p == 0x2028 || p == 0x2029 || p == 0x202f || p == 0x205f || p == 0x3000
}

/// The text without its leading white space.
pub open spec fn trim_start(s: Seq<char>) -> Seq<char>
    decreases s.len(),
{
    if s.len() > 0 && white_space(s.first()) {
        trim_start(s.drop_first())
    } else {
        s
    }
}

/// The text without its trailing white space.
pub open spec fn trim_end(s: Seq<char>) -> Seq<char>
    decreases s.len(),
{
    if s.len() > 0 && white_space(s.last()) {
        trim_end(s.drop_last())
    } else {
        s
    }
}

/// The text without leading and trailing white space.
pub open spec fn trimmed(s: Seq<char>) -> Seq<char> {
    trim_end(trim_start(s))
}

/// The characters of a text.
pub fn chars_of(s: &str) -> (r: Vec<char>)
    ensures
        r@ == s@,
{
    let mut out: Vec<char> = Vec::new();
    for c in it: s.chars()
        invariant
            out@ == it.seq().take(it.index()),
            it.seq() == s@,
    {
        out.push(c);
    }
    out
}

/// The text without leading and trailing white space.
pub fn trim(s: &str) -> (r: String)
    ensures
        r@ == trimmed(s@),
{
    let chars = chars_of(s);
    let len: usize = chars.len();
    let mut from: usize = 0;
    proof {
        assert(s@.subrange(0, len as int) =~= s@);
    }
    while from < len && is_white_space(chars[from])
        invariant
            len == s@.len(),
            chars@ == s@,
            from <= len,
            trim_start(s@) == trim_start(s@.subrange(from as int, len as int)),
        decreases len - from,
    {
        proof {
            let rest = s@.subrange(from as int, len as int);
            assert(rest.drop_first() =~= s@.subrange(from + 1, len as int));
        }
        from += 1;
    }
    let mut to: usize = len;
    while from < to && is_white_space(chars[to - 1])
        invariant
            len == s@.len(),
            chars@ == s@,
            from <= to <= len,
            trimmed(s@) == trim_end(s@.subrange(from as int, to as int)),
        decreases to,
    {
        proof {
            let rest = s@.subrange(from as int, to as int);
            assert(rest.drop_last() =~= s@.subrange(from as int, to - 1));
        }
        to -= 1;
    }
    s.substring_char(from, to).to_owned()
}

/// What follows `prefix` in a text that begins with it.
pub open spec fn after_prefix(s: Seq<char>, prefix: Seq<char>) -> Option<Seq<char>> {
    if prefix.is_prefix_of(s) {
        Some(s.skip(prefix.len() as int))
    } else {
        None
    }
}

/// The view of an optional text.
pub open spec fn text_opt(s: Option<String>) -> Option<Seq<char>> {
    match s {
        Some(t) => Some(t@),
        None => None,
    }
}

/// The view of a result that fails with a text.
pub open spec fn text_result<T>(r: Result<T, String>) -> Result<T, Seq<char>> {
    match r {
        Ok(t) => Ok(t),
        Err(e) => Err(e@),
    }
}

/// What follows `prefix` in a text that begins with it.
pub fn strip_prefix(s: &str, prefix: &str) -> (r: Option<String>)
    ensures
        text_opt(r) == after_prefix(s@, prefix@),
{
    let chars = chars_of(s);
    let head = chars_of(prefix);
    if head.len() > chars.len() {
        return None;
    }
    let mut i: usize = 0;
    while i < head.len()
        invariant
            chars@ == s@,
            head@ == prefix@,
            i <= head.len() <= chars.len(),
            forall|k: int| 0 <= k < i ==> s@[k] == prefix@[k],
        decreases head.len() - i,
    {
        if chars[i] != head[i] {
            assert(s@[i as int] != prefix@[i as int]);
            return None;
        }
        i += 1;
    }
    proof {
        assert(prefix@ =~= s@.subrange(0, prefix@.len() as int));
        assert(s@.skip(prefix@.len() as int) =~= s@.subrange(
            prefix@.len() as int,
            s@.len() as int,
        ));
    }
    Some(s.substring_char(head.len(), chars.len()).to_owned())
}

/// A word, that is a maximal run without white space, begins at position `i`.
pub open spec fn word_begins(s: Seq<char>, i: int) -> bool {
    !white_space(s[i]) && (i == 0 || white_space(s[i - 1]))
}

/// The number of words in a text.
pub open spec fn word_count(s: Seq<char>) -> nat
    decreases s.len(),
{
    if s.len() == 0 {
        0
    } else {
        word_count(s.drop_last()) + if word_begins(s, s.len() - 1) {
            1nat
        } else {
            0nat
        }
    }
}

/// The number of words in a text.
pub fn count_words(s: &str) -> (r: usize)
    ensures
        r == word_count(s@),
{
    let chars = chars_of(s);
    let mut n: usize = 0;
    let mut i: usize = 0;
    while i < chars.len()
        invariant
            chars@ == s@,
            i <= chars.len(),
            n <= i,
            n == word_count(s@.take(i as int)),
        decreases chars.len() - i,
    {
        proof {
            let head = s@.take(i + 1);
            assert(head.drop_last() =~= s@.take(i as int));
            assert(word_begins(head, i as int) == word_begins(s@, i as int));
        }
        if !is_white_space(chars[i]) && (i == 0 || is_white_space(chars[i - 1])) {
            n += 1;
        }
        i += 1;
    }
    proof {
        assert(s@.take(chars.len() as int) =~= s@);
    }
    n
}

/// The last character boundary at or before the byte `i`.
pub open spec fn boundary_at_or_before(bytes: Seq<u8>, i: int) -> int
    decreases i,
{
    if i <= 0 || is_char_boundary(bytes, i) {
        i
    } else {
        boundary_at_or_before(bytes, i - 1)
    }
}

/// What is left of a text of more than `max` bytes when it is cut at the last character
/// boundary within them.
pub open spec fn beginning(s: Seq<char>, max: int) -> Seq<char> {
    let bytes = encode_utf8(s);
    decode_utf8(bytes.take(boundary_at_or_before(bytes, max)))
}

/// Cuts a text of more than `max` bytes at the last character boundary within them.
pub(crate) fn beginning_of(s: &str, max: usize) -> (r: String)
    requires
        max < encode_utf8(s@).len(),
    ensures
        r@ == beginning(s@, max as int),
{
    let ghost all = encode_utf8(s@);
    proof {
        vstd::utf8::encode_utf8_valid_utf8(s@);
        vstd::utf8::is_char_boundary_start_end_of_seq(all);
    }
    let mut end: usize = max;
    while end > 0 && !s.is_char_boundary(end)
        invariant
            all == encode_utf8(s@),
            boundary_at_or_before(all, max as int) == boundary_at_or_before(all, end as int),
            end <= max < all.len(),
        decreases end,
    {
        end -= 1;
    }
    let head = s.split_at(end).0;
    proof {
        assert(all.take(end as int) =~= all.subrange(0, end as int));
        vstd::utf8::encode_utf8_decode_utf8(head@);
    }
    head.to_owned()
}

/// Joining texts joins their encodings.
pub proof fn lemma_encode_concat(a: Seq<char>, b: Seq<char>)
    ensures
        encode_utf8(a + b) == encode_utf8(a) + encode_utf8(b),
    decreases a.len(),
{
    if a.len() == 0 {
        assert(a + b =~= b);
        assert(encode_utf8(a) + encode_utf8(b) =~= encode_utf8(b));
    } else {
        lemma_encode_concat(a.drop_first(), b);
        assert((a + b).drop_first() =~= a.drop_first() + b);
        assert((a + b)[0] == a[0]);
        assert(encode_utf8(a + b) =~= encode_utf8(a) + encode_utf8(b));
    }
}

/// The encoding of every beginning of a text ends at a character boundary of the whole.
proof fn lemma_prefix_ends_at_boundary(a: Seq<char>, b: Seq<char>)
    ensures
        is_char_boundary(encode_utf8(a + b), encode_utf8(a).len() as int),
    decreases a.len(),
{
    let s = a + b;
    let all = encode_utf8(s);
    vstd::utf8::encode_utf8_valid_utf8(s);
    if a.len() == 0 {
        vstd::utf8::is_char_boundary_start_end_of_seq(all);
    } else {
        lemma_prefix_ends_at_boundary(a.drop_first(), b);
        lemma_encode_concat(a, b);
        vstd::utf8::encode_utf8_first_scalar(s);
        assert(s.drop_first() =~= a.drop_first() + b);
        assert(vstd::utf8::pop_first_scalar(all) =~= encode_utf8(s.drop_first()));
    }
}

/// No character boundary lies between the one found and the limit.
proof fn lemma_last_boundary(bytes: Seq<u8>, max: int, i: int)
    requires
        0 <= max,
        vstd::utf8::valid_utf8(bytes),
    ensures
        0 <= boundary_at_or_before(bytes, max) <= max,
        is_char_boundary(bytes, boundary_at_or_before(bytes, max)),
        boundary_at_or_before(bytes, max) < i <= max ==> !is_char_boundary(bytes, i),
    decreases max,
{
    vstd::utf8::is_char_boundary_start_end_of_seq(bytes);
    if max > 0 && !is_char_boundary(bytes, max) {
        lemma_last_boundary(bytes, max - 1, i);
    }
}

/// The first `k` characters are the longest beginning of a text that fits `max` bytes, and are
/// not all of it.
pub open spec fn longest_beginning(s: Seq<char>, max: int, k: int) -> bool {
    &&& 0 <= k < s.len()
    &&& encode_utf8(s.take(k)).len() <= max
    &&& encode_utf8(s.take(k + 1)).len() > max
}

/// Cutting at the last character boundary within the limit leaves the longest beginning that
/// fits it.
pub proof fn lemma_longest_beginning(s: Seq<char>, max: int) -> (k: int)
    requires
        0 <= max < encode_utf8(s).len(),
    ensures
        longest_beginning(s, max, k),
        beginning(s, max) == s.take(k),
{
    let all = encode_utf8(s);
    vstd::utf8::encode_utf8_valid_utf8(s);
    let end = boundary_at_or_before(all, max);
    lemma_last_boundary(all, max, end);
    let head = decode_utf8(all.take(end));
    let rest = decode_utf8(all.subrange(end, all.len() as int));
    assert(all.take(end) =~= all.subrange(0, end));
    vstd::utf8::valid_utf8_split(all, end);
    vstd::utf8::decode_utf8_split(all, end);
    vstd::utf8::encode_utf8_decode_utf8(s);
    assert(s =~= head + rest);
    vstd::utf8::decode_utf8_encode_utf8(all.take(end));
    vstd::utf8::decode_utf8_encode_utf8(all.subrange(end, all.len() as int));
    let k = head.len() as int;
    assert(s.take(k) =~= head);
    if k == s.len() {
        assert(head =~= s);
    }
    let longer = s.take(k + 1);
    assert(s =~= longer + s.skip(k + 1));
    lemma_prefix_ends_at_boundary(longer, s.skip(k + 1));
    assert(longer =~= head + seq![s[k]]);
    lemma_encode_concat(head, seq![s[k]]);
    assert(encode_utf8(seq![s[k]]).len() > 0);
    lemma_last_boundary(all, max, encode_utf8(longer).len() as int);
    k
}

/// A text has no more characters than bytes.
pub proof fn lemma_no_more_chars_than_bytes(s: Seq<char>)
    ensures
        s.len() <= encode_utf8(s).len(),
    decreases s.len(),
{
    if s.len() > 0 {
        lemma_no_more_chars_than_bytes(s.drop_first());
    }
}

/// A run of `n` spaces.
pub open spec fn spaces(n: int) -> Seq<char> {
    Seq::new(
        if n > 0 {
            n as nat
        } else {
            0
        },
        |i: int| ' ',
    )
}

/// The text filled up with spaces on the right to at least `width` characters.
pub open spec fn padded(s: Seq<char>, width: int) -> Seq<char> {
    s + spaces(width - s.len())
}

/// The text filled up with spaces on the right to at least `width` characters.
pub fn pad(s: &str, width: usize) -> (r: String)
    ensures
        r@ == padded(s@, width as int),
{
    let len: usize = s.unicode_len();
    let mut out: String = s.to_owned();
    let mut n: usize = len;
    proof {
        reveal_strlit(" ");
        assert(out@ =~= s@ + spaces(0));
    }
    while n < width
        invariant
            len == s@.len(),
            len <= n,
            n <= width || n == len,
            out@ == s@ + spaces(n - len),
        decreases width - n,
    {
        out.append(" ");
        proof {
            reveal_strlit(" ");
            assert(spaces(n - len) + " "@ =~= spaces(n + 1 - len));
            assert(s@ + spaces(n - len) + " "@ =~= s@ + spaces(n + 1 - len));
        }
        n += 1;
    }
    proof {
        assert(spaces(n - len) =~= spaces(width - len));
    }
    out
}

/// The decimal digit for a number below ten.
pub open spec fn digit_char(d: nat) -> char {
    ('0' as u32 + d) as char
}

/// A number in decimal, without leading zeros.
pub open spec fn decimal(n: nat) -> Seq<char>
    decreases n,
{
    if n < 10 {
        seq![digit_char(n)]
    } else {
        decimal(n / 10).push(digit_char(n % 10))
    }
}

/// A digit below ten as a text of one character.
fn digit_text(d: u32) -> (r: &'static str)
    requires
        d < 10,
    ensures
        r@ == seq![digit_char(d as nat)],
{
    proof {
        reveal_strlit("0");
        reveal_strlit("1");
        reveal_strlit("2");
        reveal_strlit("3");
        reveal_strlit("4");
        reveal_strlit("5");
        reveal_strlit("6");
        reveal_strlit("7");
        reveal_strlit("8");
        reveal_strlit("9");
    }
    match d {
        0 => "0",
        1 => "1",
        2 => "2",
        3 => "3",
        4 => "4",
        5 => "5",
        6 => "6",
        7 => "7",
        8 => "8",
        _ => "9",
    }
}

/// A number in decimal, without leading zeros.
pub fn decimal_text(n: u32) -> (r: String)
    ensures
        r@ == decimal(n as nat),
    decreases n,
{
    if n < 10 {
        digit_text(n).to_owned()
    } else {
        let mut out = decimal_text(n / 10);
        out.append(digit_text(n % 10));
        out
    }
}

/// All of the text is white space.
pub open spec fn blank(s: Seq<char>) -> bool {
    forall|i: int| 0 <= i < s.len() ==> white_space(#[trigger] s[i])
}

/// The text neither begins nor ends with white space.
pub open spec fn tight(s: Seq<char>) -> bool {
    s.len() > 0 ==> !white_space(s[0]) && !white_space(s[s.len() - 1])
}

/// Leading white space is of no account at the start.
proof fn lemma_trim_start(before: Seq<char>, rest: Seq<char>)
    requires
        blank(before),
    ensures
        trim_start(before + rest) == trim_start(rest),
    decreases before.len(),
{
    if before.len() == 0 {
        assert(before + rest =~= rest);
    } else {
        assert(white_space(before[0]));
        assert((before + rest).first() == before[0]);
        assert((before + rest).drop_first() =~= before.drop_first() + rest);
        assert(blank(before.drop_first()));
        lemma_trim_start(before.drop_first(), rest);
    }
}

/// Trailing white space is of no account at the end.
proof fn lemma_trim_end(rest: Seq<char>, after: Seq<char>)
    requires
        blank(after),
    ensures
        trim_end(rest + after) == trim_end(rest),
    decreases after.len(),
{
    if after.len() == 0 {
        assert(rest + after =~= rest);
    } else {
        assert(white_space(after[after.len() - 1]));
        assert((rest + after).last() == after.last());
        assert((rest + after).drop_last() =~= rest + after.drop_last());
        assert(blank(after.drop_last()));
        lemma_trim_end(rest, after.drop_last());
    }
}

/// Trimming takes away all white space around a text that has none at its ends, and no more.
pub proof fn law_trimming(before: Seq<char>, s: Seq<char>, after: Seq<char>)
    requires
        forall|i: int| 0 <= i < before.len() ==> white_space(#[trigger] before[i]),
        forall|i: int| 0 <= i < after.len() ==> white_space(#[trigger] after[i]),
        s.len() > 0 ==> !white_space(s[0]) && !white_space(s[s.len() - 1]),
    ensures
        trimmed(before + s + after) == s,
{
    assert(before + s + after =~= before + (s + after));
    lemma_trim_start(before, s + after);
    if s.len() == 0 {
        assert(s + after =~= after + s);
        lemma_trim_start(after, s);
        assert(trim_start(s) == s);
    } else {
        assert((s + after).first() == s[0]);
        assert(trim_start(s + after) == s + after);
        lemma_trim_end(s, after);
    }
}

/// Every text is a text without white space at its ends, with white space around it.
pub proof fn law_trimming_splits(s: Seq<char>)
    ensures
        tight(trimmed(s)),
        exists|i: int, j: int|
            0 <= i <= j <= s.len() && trimmed(s) == #[trigger] s.subrange(i, j) && blank(s.take(i))
                && blank(s.skip(j)),
{
    let i = lemma_trim_start_splits(s);
    let rest = s.skip(i);
    let j = lemma_trim_end_splits(rest);
    assert(rest.take(j) =~= s.subrange(i, i + j));
    assert(rest.skip(j) =~= s.skip(i + j));
    assert(trimmed(s) == s.subrange(i, i + j));
    if j > 0 {
        assert(rest.take(j)[0] == rest[0]);
    }
}

/// What is trimmed at the start is white space.
proof fn lemma_trim_start_splits(s: Seq<char>) -> (i: int)
    ensures
        0 <= i <= s.len(),
        trim_start(s) == s.skip(i),
        blank(s.take(i)),
        i < s.len() ==> !white_space(s[i]),
    decreases s.len(),
{
    if s.len() > 0 && white_space(s.first()) {
        let k = lemma_trim_start_splits(s.drop_first());
        assert(s.drop_first().skip(k) =~= s.skip(k + 1));
        assert forall|m: int| 0 <= m < k + 1 implies white_space(#[trigger] s.take(k + 1)[m]) by {
            if m > 0 {
                assert(s.drop_first().take(k)[m - 1] == s[m]);
            }
        }
        k + 1
    } else {
        assert(s.skip(0) =~= s);
        0
    }
}

/// What is trimmed at the end is white space.
proof fn lemma_trim_end_splits(s: Seq<char>) -> (j: int)
    ensures
        0 <= j <= s.len(),
        trim_end(s) == s.take(j),
        blank(s.skip(j)),
        j > 0 ==> !white_space(s[j - 1]),
    decreases s.len(),
{
    if s.len() > 0 && white_space(s.last()) {
        let head = s.drop_last();
        let k = lemma_trim_end_splits(head);
        assert(head.take(k) =~= s.take(k));
        assert forall|m: int| 0 <= m < s.len() - k implies white_space(#[trigger] s.skip(k)[m]) by {
            if m < head.len() - k {
                assert(head.skip(k)[m] == s[k + m]);
            }
        }
        k
    } else {
        assert(s.take(s.len() as int) =~= s);
        s.len() as int
    }
}

/// White space that follows a text adds no word to it.
proof fn lemma_blank_adds_no_word(a: Seq<char>, gap: Seq<char>)
    requires
        blank(gap),
    ensures
        word_count(a + gap) == word_count(a),
    decreases gap.len(),
{
    if gap.len() == 0 {
        assert(a + gap =~= a);
    } else {
        assert(white_space(gap[gap.len() - 1]));
        assert((a + gap).drop_last() =~= a + gap.drop_last());
        assert(blank(gap.drop_last()));
        lemma_blank_adds_no_word(a, gap.drop_last());
    }
}

/// Words are set apart by white space: white space holds none, a text without white space is
/// one, and two texts with white space between them hold those of both.
pub proof fn law_words(a: Seq<char>, gap: Seq<char>, b: Seq<char>, word: Seq<char>)
    requires
        gap.len() > 0,
        forall|i: int| 0 <= i < gap.len() ==> white_space(#[trigger] gap[i]),
        word.len() > 0,
        forall|i: int| 0 <= i < word.len() ==> !white_space(#[trigger] word[i]),
    ensures
        word_count(Seq::empty()) == 0,
        word_count(gap) == 0,
        word_count(word) == 1,
        word_count(a + gap + b) == word_count(a) + word_count(b),
    decreases word.len() + b.len(),
{
    lemma_blank_adds_no_word(Seq::empty(), gap);
    assert(Seq::empty() + gap =~= gap);
    assert(!white_space(word[word.len() - 1]));
    if word.len() == 1 {
        assert(word.drop_last() =~= Seq::empty());
    } else {
        assert(!white_space(word[word.len() - 2]));
        assert forall|i: int| 0 <= i < word.drop_last().len() implies !white_space(
            #[trigger] word.drop_last()[i],
        ) by {
            assert(!white_space(word[i]));
        }
        law_words(a, gap, b, word.drop_last());
    }
    if b.len() == 0 {
        assert(a + gap + b =~= a + gap);
        lemma_blank_adds_no_word(a, gap);
    } else {
        let s = a + gap + b;
        law_words(a, gap, b.drop_last(), word);
        assert(s.drop_last() =~= a + gap + b.drop_last());
        assert(s[s.len() - 1] == b[b.len() - 1]);
        if b.len() == 1 {
            assert(s[s.len() - 2] == gap[gap.len() - 1]);
        } else {
            assert(s[s.len() - 2] == b[b.len() - 2]);
        }
        assert(word_begins(s, s.len() - 1) == word_begins(b, b.len() - 1));
    }
}

/// What follows a prefix is what, put behind the prefix, gives the text again; without such a
/// rest there is none.
pub proof fn law_prefix(prefix: Seq<char>, rest: Seq<char>, s: Seq<char>)
    ensures
        after_prefix(prefix + rest, prefix) == Some(rest),
        after_prefix(s, prefix) matches Some(found) ==> s == prefix + found,
        after_prefix(s, prefix) is None ==> s != prefix + rest,
{
    assert((prefix + rest).subrange(0, prefix.len() as int) =~= prefix);
    assert((prefix + rest).skip(prefix.len() as int) =~= rest);
    if let Some(found) = after_prefix(s, prefix) {
        assert(s =~= prefix + found);
    }
}

/// Filling up keeps the text at the beginning, adds nothing but spaces, and adds just as many
/// as the width lacks.
pub proof fn law_padding(s: Seq<char>, width: int)
    requires
        width >= 0,
    ensures
        padded(s, width).take(s.len() as int) == s,
        padded(s, width).len() == if s.len() >= width {
            s.len() as int
        } else {
            width
        },
        forall|i: int|
            s.len() <= i < padded(s, width).len() ==> #[trigger] padded(s, width)[i] == ' ',
{
    assert(padded(s, width).take(s.len() as int) =~= s);
}

/// A number below ten is one digit, and a further digit is appended to the number before it.
pub proof fn law_decimal(n: nat, d: nat)
    requires
        d < 10,
    ensures
        decimal(d) == seq![('0' as u32 + d) as char],
        n > 0 ==> decimal(n * 10 + d) == decimal(n) + seq![('0' as u32 + d) as char],
{
    if n > 0 {
        assert((n * 10 + d) / 10 == n && (n * 10 + d) % 10 == d);
        assert(decimal(n * 10 + d) =~= decimal(n) + seq![('0' as u32 + d) as char]);
    }
}

/// Optional texts, and results that fail with a text, are seen as they are.
pub proof fn law_text_views(text: String, n: u64)
    ensures
        text_opt(Some(text)) == Some(text@),
        text_opt(None) is None,
        text_result(Ok::<u64, String>(n)) == Ok::<u64, Seq<char>>(n),
        text_result(Err::<u64, String>(text)) == Err::<u64, Seq<char>>(text@),
{
}

} // verus!
