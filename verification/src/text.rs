//! Text primitives over sequences of characters: whitespace, trimming,
//! splitting, decimal numbers and case.

use vstd::prelude::*;
use vstd::string::*;

verus! {

/// The number of bytes that `text` takes in UTF-8.
pub open spec fn utf8_len(text: Seq<char>) -> nat {
    vstd::utf8::encode_utf8(text).len()
}

/// Whether `c` has the Unicode property `White_Space`.
pub open spec fn is_space(c: char) -> bool {
    let u = c as u32;
    ||| 0x09 <= u <= 0x0D
    ||| u == 0x20
    ||| u == 0x85
    ||| u == 0xA0
    ||| u == 0x1680
    ||| 0x2000 <= u <= 0x200A
    ||| u == 0x2028
    ||| u == 0x2029
    ||| u == 0x202F
    ||| u == 0x205F
    ||| u == 0x3000
}

/// `text` without the white space it starts with.
pub open spec fn trim_start(text: Seq<char>) -> Seq<char>
    decreases text.len(),
{
    if text.len() > 0 && is_space(text[0]) {
        trim_start(text.drop_first())
    } else {
        text
    }
}

/// `text` without the white space it ends with.
pub open spec fn trim_end(text: Seq<char>) -> Seq<char>
    decreases text.len(),
{
    if text.len() > 0 && is_space(text.last()) {
        trim_end(text.drop_last())
    } else {
        text
    }
}

/// `text` without the white space on either side.
pub open spec fn trimmed(text: Seq<char>) -> Seq<char> {
    trim_end(trim_start(text))
}

/// The pieces of `text` between the occurrences of `sep`: one more piece than
/// there are separators, empty pieces included.
pub open spec fn split_on(text: Seq<char>, sep: char) -> Seq<Seq<char>>
    decreases text.len(),
{
    if text.len() == 0 {
        seq![Seq::<char>::empty()]
    } else {
        let before = split_on(text.drop_last(), sep);
        if text.last() == sep {
            before.push(Seq::<char>::empty())
        } else {
            before.update(before.len() - 1, before.last().push(text.last()))
        }
    }
}

/// The maximal runs of characters of `text` that are not white space, in order.
pub open spec fn words_of(text: Seq<char>) -> Seq<Seq<char>>
    decreases text.len(),
{
    if text.len() == 0 {
        Seq::<Seq<char>>::empty()
    } else {
        let before = words_of(text.drop_last());
        if is_space(text.last()) {
            before
        } else if text.len() >= 2 && !is_space(text[text.len() - 2]) && before.len() > 0 {
            before.update(before.len() - 1, before.last().push(text.last()))
        } else {
            before.push(seq![text.last()])
        }
    }
}

/// The views of a vector of character vectors.
pub open spec fn views(parts: Seq<Vec<char>>) -> Seq<Seq<char>> {
    parts.map_values(|part: Vec<char>| part@)
}

/// How often `c` occurs in `text`.
pub open spec fn count_of(text: Seq<char>, c: char) -> nat
    decreases text.len(),
{
    if text.len() == 0 {
        0
    } else {
        count_of(text.drop_last(), c) + if text.last() == c {
            1nat
        } else {
            0nat
        }
    }
}

/// Whether `needle` stands in `haystack` at `at`.
pub open spec fn occurs_at(haystack: Seq<char>, needle: Seq<char>, at: int) -> bool {
    0 <= at && at + needle.len() <= haystack.len() && haystack.subrange(
        at,
        at + needle.len(),
    ) == needle
}

/// Whether `needle` occurs somewhere in `haystack`.
pub open spec fn contains_text(haystack: Seq<char>, needle: Seq<char>) -> bool {
    exists|at: int| occurs_at(haystack, needle, at)
}

/// Whether `c` is one of the digits `0` to `9`.
pub open spec fn is_digit(c: char) -> bool {
    '0' <= c && c <= '9'
}

/// The value of a decimal digit.
pub open spec fn digit_of(c: char) -> nat {
    (c as u32 - 0x30) as nat
}

/// Whether `text` holds digits only.
pub open spec fn all_digits(text: Seq<char>) -> bool {
    forall|i: int| 0 <= i < text.len() ==> is_digit(#[trigger] text[i])
}

/// The number that a run of decimal digits writes.
pub open spec fn number_of(digits: Seq<char>) -> nat
    decreases digits.len(),
{
    if digits.len() == 0 {
        0
    } else {
        number_of(digits.drop_last()) * 10 + digit_of(digits.last())
    }
}

/// The number that `text` writes in decimal, as an unsigned integer is read:
/// an optional `+`, then one digit or more and nothing else.
pub open spec fn unsigned_decimal(text: Seq<char>) -> Option<nat> {
    let digits = if text.len() > 0 && text[0] == '+' {
        text.drop_first()
    } else {
        text
    };
    if digits.len() > 0 && all_digits(digits) {
        Some(number_of(digits))
    } else {
        None
    }
}

/// `unsigned_decimal`, where the number is at most `max`.
pub open spec fn decimal_up_to(text: Seq<char>, max: nat) -> Option<nat> {
    match unsigned_decimal(text) {
        Some(n) => if n <= max {
            Some(n)
        } else {
            None
        },
        None => None,
    }
}

/// The decimal digit for `d`, which is below ten.
pub open spec fn digit_char(d: nat) -> char {
    (0x30 + d) as char
}

/// `n` written in decimal, without leading zeros.
pub open spec fn decimal_text(n: nat) -> Seq<char>
    decreases n,
{
    if n < 10 {
        seq![digit_char(n)]
    } else {
        decimal_text(n / 10).push(digit_char(n % 10))
    }
}

/// `c` with the letters `a` to `z` mapped to `A` to `Z`.
pub open spec fn ascii_upper(c: char) -> char {
    if 'a' <= c && c <= 'z' {
        ((c as u32) - 32) as char
    } else {
        c
    }
}

/// Whether `c` is white space.
pub fn is_whitespace(c: char) -> (r: bool)
    ensures
        r == is_space(c),
{
    let u: u32 = c as u32;
    (0x09 <= u && u <= 0x0D) || u == 0x20 || u == 0x85 || u == 0xA0 || u == 0x1680 || (0x2000 <= u
        && u <= 0x200A) || u == 0x2028 || u == 0x2029 || u == 0x202F || u == 0x205F || u == 0x3000
}

/// `c` in upper case, if it is one of the letters `a` to `z`.
pub fn to_ascii_uppercase(c: char) -> (r: char)
    ensures
        r == ascii_upper(c),
{
    if 'a' <= c && c <= 'z' {
        let b: u8 = c as u8;
        (b - 32) as char
    } else {
        c
    }
}

/// The characters of `text`.
pub fn chars_of(text: &str) -> (chars: Vec<char>)
    ensures
        chars@ == text@,
{
    let mut chars: Vec<char> = Vec::new();
    for c in it: text.chars()
        invariant
            chars@ == it.seq().take(it.index() as int),
            it.seq() == text@,
    {
        chars.push(c);
    }
    chars
}

/// Whether `chars` spells `word`.
pub fn same(chars: &Vec<char>, word: &str) -> (r: bool)
    ensures
        r == (chars@ == word@),
{
    let other = chars_of(word);
    same_chars(chars, &other)
}

/// Whether the two hold the same characters.
pub fn same_chars(a: &Vec<char>, b: &Vec<char>) -> (r: bool)
    ensures
        r == (a@ == b@),
{
    if a.len() != b.len() {
        return false;
    }
    let n = a.len();
    let mut i: usize = 0;
    while i < n
        invariant
            a@.len() == n,
            b@.len() == n,
            i <= n,
            forall|j: int| 0 <= j < i ==> a@[j] == b@[j],
        decreases n - i,
    {
        if a[i] != b[i] {
            return false;
        }
        i += 1;
    }
    assert(a@ =~= b@);
    true
}

/// The characters of `chars` from `from` up to `to`.
pub fn part(chars: &Vec<char>, from: usize, to: usize) -> (piece: Vec<char>)
    requires
        from <= to <= chars@.len(),
    ensures
        piece@ == chars@.subrange(from as int, to as int),
{
    let mut piece: Vec<char> = Vec::new();
    let mut i: usize = from;
    while i < to
        invariant
            from <= i <= to,
            to <= chars@.len(),
            piece@ == chars@.subrange(from as int, i as int),
        decreases to - i,
    {
        piece.push(chars[i]);
        i += 1;
        assert(piece@ =~= chars@.subrange(from as int, i as int));
    }
    piece
}

/// `chars` without the white space on either side.
pub fn trim(chars: &Vec<char>) -> (piece: Vec<char>)
    ensures
        piece@ == trimmed(chars@),
{
    let n = chars.len();
    let mut a: usize = 0;
    assert(chars@.skip(0) =~= chars@);
    while a < n && is_whitespace(chars[a])
        invariant
            a <= n,
            n == chars@.len(),
            trim_start(chars@) == trim_start(chars@.skip(a as int)),
        decreases n - a,
    {
        assert(chars@.skip(a as int).drop_first() =~= chars@.skip(a as int + 1));
        a += 1;
    }
    assert(trim_start(chars@) == chars@.skip(a as int));
    let mut b: usize = n;
    while b > a && is_whitespace(chars[b - 1])
        invariant
            a <= b <= n,
            n == chars@.len(),
            trimmed(chars@) == trim_end(chars@.subrange(a as int, b as int)),
        decreases b,
    {
        assert(chars@.subrange(a as int, b as int).drop_last() =~= chars@.subrange(
            a as int,
            b as int - 1,
        ));
        b -= 1;
    }
    part(chars, a, b)
}

/// Splits `chars` at every `sep`.
pub fn split(chars: &Vec<char>, sep: char) -> (parts: Vec<Vec<char>>)
    ensures
        views(parts@) == split_on(chars@, sep),
{
    let n = chars.len();
    let mut parts: Vec<Vec<char>> = Vec::new();
    let mut piece: Vec<char> = Vec::new();
    let mut i: usize = 0;
    assert(views(parts@).push(piece@) =~= split_on(chars@.take(0), sep));
    while i < n
        invariant
            i <= n,
            n == chars@.len(),
            views(parts@).push(piece@) == split_on(chars@.take(i as int), sep),
        decreases n - i,
    {
        let ghost before = split_on(chars@.take(i as int), sep);
        assert(chars@.take(i as int + 1).drop_last() =~= chars@.take(i as int));
        if chars[i] == sep {
            parts.push(piece);
            piece = Vec::new();
            assert(views(parts@).push(piece@) =~= before.push(Seq::<char>::empty()));
        } else {
            piece.push(chars[i]);
            assert(views(parts@).push(piece@) =~= before.update(
                before.len() - 1,
                before.last().push(chars@[i as int]),
            ));
        }
        i += 1;
    }
    assert(chars@.take(n as int) =~= chars@);
    parts.push(piece);
    assert(views(parts@) =~= split_on(chars@, sep));
    parts
}

/// Splits `chars` into its words: the runs of characters between white space.
pub fn split_whitespace(chars: &Vec<char>) -> (words: Vec<Vec<char>>)
    ensures
        views(words@) == words_of(chars@),
{
    let n = chars.len();
    let mut words: Vec<Vec<char>> = Vec::new();
    let mut word: Vec<char> = Vec::new();
    let mut i: usize = 0;
    assert(views(words@) =~= words_of(chars@.take(0)));
    while i < n
        invariant
            i <= n,
            n == chars@.len(),
            word@.len() > 0 <==> (i > 0 && !is_space(chars@[i as int - 1])),
            word@.len() == 0 ==> views(words@) == words_of(chars@.take(i as int)),
            word@.len() > 0 ==> views(words@).push(word@) == words_of(chars@.take(i as int)),
        decreases n - i,
    {
        let ghost before = words_of(chars@.take(i as int));
        assert(chars@.take(i as int + 1).drop_last() =~= chars@.take(i as int));
        if is_whitespace(chars[i]) {
            if word.len() > 0 {
                words.push(word);
                word = Vec::new();
                assert(views(words@) =~= before);
            }
        } else {
            let continued = word.len() > 0;
            word.push(chars[i]);
            if continued {
                assert(views(words@).push(word@) =~= before.update(
                    before.len() - 1,
                    before.last().push(chars@[i as int]),
                ));
            } else {
                assert(word@ =~= seq![chars@[i as int]]);
                assert(views(words@).push(word@) =~= before.push(seq![chars@[i as int]]));
            }
        }
        i += 1;
    }
    assert(chars@.take(n as int) =~= chars@);
    if word.len() > 0 {
        words.push(word);
        assert(views(words@) =~= words_of(chars@));
    }
    words
}

/// Counts the occurrences of `c`.
pub fn count(chars: &Vec<char>, c: char) -> (k: usize)
    ensures
        k == count_of(chars@, c),
{
    let n = chars.len();
    let mut k: usize = 0;
    let mut i: usize = 0;
    while i < n
        invariant
            i <= n,
            n == chars@.len(),
            k <= i,
            k == count_of(chars@.take(i as int), c),
        decreases n - i,
    {
        assert(chars@.take(i as int + 1).drop_last() =~= chars@.take(i as int));
        if chars[i] == c {
            k += 1;
        }
        i += 1;
    }
    assert(chars@.take(n as int) =~= chars@);
    k
}

/// Whether `needle` occurs in `haystack`.
pub fn contains(haystack: &Vec<char>, needle: &Vec<char>) -> (r: bool)
    ensures
        r == contains_text(haystack@, needle@),
{
    let n = haystack.len();
    let m = needle.len();
    if m > n {
        return false;
    }
    let mut at: usize = 0;
    while at <= n - m
        invariant
            m <= n,
            n == haystack@.len(),
            m == needle@.len(),
            at <= n - m + 1,
            forall|k: int| 0 <= k < at ==> !occurs_at(haystack@, needle@, k),
        decreases n - m + 1 - at,
    {
        let mut j: usize = 0;
        while j < m && haystack[at + j] == needle[j]
            invariant
                j <= m,
                m <= n,
                at <= n - m,
                n == haystack@.len(),
                m == needle@.len(),
                forall|k: int| 0 <= k < j ==> haystack@[at + k] == needle@[k],
            decreases m - j,
        {
            j += 1;
        }
        if j == m {
            assert(haystack@.subrange(at as int, at + m) =~= needle@);
            assert(occurs_at(haystack@, needle@, at as int));
            return true;
        }
        assert(haystack@.subrange(at as int, at + m)[j as int] != needle@[j as int]);
        at += 1;
    }
    false
}

/// Reads `chars` as an unsigned decimal number that is at most `max`.
pub fn parse_decimal(chars: &Vec<char>, max: u64) -> (r: Option<u64>)
    ensures
        match r {
            Some(n) => decimal_up_to(chars@, max as nat) == Some(n as nat),
            None => decimal_up_to(chars@, max as nat) is None,
        },
{
    let n = chars.len();
    let start: usize = if n > 0 && chars[0] == '+' {
        1
    } else {
        0
    };
    if start == n {
        return None;
    }
    let ghost digits = chars@.skip(start as int);
    assert(digits =~= if chars@.len() > 0 && chars@[0] == '+' {
        chars@.drop_first()
    } else {
        chars@
    });
    let mut value: u64 = 0;
    let mut too_large = false;
    let mut i: usize = start;
    assert(digits.take(0) =~= Seq::<char>::empty());
    while i < n
        invariant
            start <= i <= n,
            n == chars@.len(),
            digits == chars@.skip(start as int),
            digits == (if chars@.len() > 0 && chars@[0] == '+' {
                chars@.drop_first()
            } else {
                chars@
            }),
            all_digits(digits.take(i - start)),
            !too_large ==> value == number_of(digits.take(i - start)) && value <= max,
            too_large ==> number_of(digits.take(i - start)) > max,
        decreases n - i,
    {
        let c = chars[i];
        assert(digits.take(i - start + 1).drop_last() =~= digits.take(i - start));
        assert(digits.take(i - start + 1).last() == c);
        if !('0' <= c && c <= '9') {
            assert(digits[i - start] == c);
            assert(!is_digit(digits[i - start]));
            return None;
        }
        let d: u64 = (c as u32 - 0x30) as u64;
        if !too_large {
            if d > max || value > (max - d) / 10 {
                too_large = true;
            } else {
                value = value * 10 + d;
            }
        }
        i += 1;
    }
    assert(digits.take(n - start) =~= digits);
    if too_large {
        None
    } else {
        Some(value)
    }
}

/// The one-character text of a decimal digit.
fn digit_text(d: u64) -> (text: &'static str)
    requires
        d < 10,
    ensures
        text@ == seq![digit_char(d as nat)],
{
    proof {
        reveal_strlit("0");
        reveal_strlit("1");
        reveal_strlit("2");
        reveal_strlit("3");
        reveal_strlit("4");
        reveal_strlit("5");
        reveal_strlit("6");
        reveal_strlit("7");
        reveal_strlit("8");
        reveal_strlit("9");
    }
    let text = if d == 0 {
        "0"
    } else if d == 1 {
        "1"
    } else if d == 2 {
        "2"
    } else if d == 3 {
        "3"
    } else if d == 4 {
        "4"
    } else if d == 5 {
        "5"
    } else if d == 6 {
        "6"
    } else if d == 7 {
        "7"
    } else if d == 8 {
        "8"
    } else {
        "9"
    };
    assert(text@ =~= seq![digit_char(d as nat)]);
    text
}

/// Appends `n`, written in decimal, to `out`.
pub fn push_decimal(out: &mut String, n: u64)
    ensures
        final(out)@ == old(out)@ + decimal_text(n as nat),
    decreases n,
{
    if n >= 10 {
        push_decimal(out, n / 10);
    }
    out.append(digit_text(n % 10));
    assert(final(out)@ =~= old(out)@ + decimal_text(n as nat));
}

/// What `str::to_lowercase` makes of a text: its lower-case form by the
/// Unicode case mappings.
pub uninterp spec fn lowercase(text: Seq<char>) -> Seq<char>;

/// `str::to_lowercase` of std: the result is the lower-case form of `text`,
/// which `lowercase` names.
#[verifier::external_body]
pub(crate) fn to_lowercase(text: &str) -> (lower: String)
    ensures
        lower@ == lowercase(text@),
{
    text.to_lowercase()
}

/// A text always splits into at least one piece.
pub proof fn lemma_split_some(text: Seq<char>, sep: char)
    ensures
        split_on(text, sep).len() >= 1,
    decreases text.len(),
{
    if text.len() > 0 {
        lemma_split_some(text.drop_last(), sep);
    }
}

/// There is one piece more than there are separators.
pub proof fn lemma_split_count(text: Seq<char>, sep: char)
    ensures
        split_on(text, sep).len() == count_of(text, sep) + 1,
    decreases text.len(),
{
    if text.len() > 0 {
        lemma_split_count(text.drop_last(), sep);
    }
}

/// Text without a separator, put behind `text`, goes to the last piece.
pub proof fn lemma_split_append(text: Seq<char>, more: Seq<char>, sep: char)
    requires
        forall|i: int| 0 <= i < more.len() ==> more[i] != sep,
    ensures
        split_on(text, sep).len() >= 1,
        split_on(text + more, sep) == split_on(text, sep).update(
            split_on(text, sep).len() - 1,
            split_on(text, sep).last() + more,
        ),
    decreases more.len(),
{
    lemma_split_some(text, sep);
    let pieces = split_on(text, sep);
    if more.len() == 0 {
        assert(text + more =~= text);
        assert(pieces.last() + more =~= pieces.last());
        assert(pieces.update(pieces.len() - 1, pieces.last()) =~= pieces);
    } else {
        let front = more.drop_last();
        lemma_split_append(text, front, sep);
        assert((text + more).drop_last() =~= text + front);
        assert((pieces.last() + front).push(more.last()) =~= pieces.last() + more);
        let before = split_on(text + front, sep);
        assert(before.update(before.len() - 1, before.last().push(more.last())) =~= pieces.update(
            pieces.len() - 1,
            pieces.last() + more,
        ));
    }
}

/// A separator behind `text` opens a new, empty piece.
pub proof fn lemma_split_push(text: Seq<char>, sep: char)
    ensures
        split_on(text.push(sep), sep) == split_on(text, sep).push(Seq::<char>::empty()),
{
    assert(text.push(sep).drop_last() =~= text);
}

/// Three texts without a comma, joined by commas, split into the three.
pub proof fn lemma_split_three(a: Seq<char>, b: Seq<char>, c: Seq<char>, sep: char)
    requires
        forall|i: int| 0 <= i < a.len() ==> a[i] != sep,
        forall|i: int| 0 <= i < b.len() ==> b[i] != sep,
        forall|i: int| 0 <= i < c.len() ==> c[i] != sep,
    ensures
        split_on(a + seq![sep] + b + seq![sep] + c, sep) == seq![a, b, c],
{
    let empty = Seq::<char>::empty();
    lemma_split_append(empty, a, sep);
    assert(empty + a =~= a);
    assert(split_on(a, sep) =~= seq![a]);
    lemma_split_push(a, sep);
    assert(a.push(sep) =~= a + seq![sep]);
    lemma_split_append(a + seq![sep], b, sep);
    assert(split_on(a + seq![sep] + b, sep) =~= seq![a, b]);
    lemma_split_push(a + seq![sep] + b, sep);
    assert((a + seq![sep] + b).push(sep) =~= a + seq![sep] + b + seq![sep]);
    lemma_split_append(a + seq![sep] + b + seq![sep], c, sep);
    assert(split_on(a + seq![sep] + b + seq![sep] + c, sep) =~= seq![a, b, c]);
}

/// A number written in decimal reads back as itself.
pub proof fn lemma_decimal_text(n: nat)
    ensures
        decimal_text(n).len() >= 1,
        all_digits(decimal_text(n)),
        number_of(decimal_text(n)) == n,
        unsigned_decimal(decimal_text(n)) == Some(n),
    decreases n,
{
    let last = digit_char(n % 10);
    assert(is_digit(last) && digit_of(last) == n % 10);
    assert(decimal_text(n).last() == last);
    if n < 10 {
        assert(decimal_text(n).drop_last() =~= Seq::<char>::empty());
        assert(number_of(Seq::<char>::empty()) == 0);
    } else {
        lemma_decimal_text(n / 10);
        assert(decimal_text(n).drop_last() =~= decimal_text(n / 10));
    }
    assert(number_of(decimal_text(n)) == n);
    assert(is_digit(decimal_text(n)[0]));
}

/// A text that neither starts nor ends with white space is its own trimmed
/// form.
pub proof fn lemma_trimmed_same(text: Seq<char>)
    requires
        text.len() > 0,
        !is_space(text[0]),
        !is_space(text.last()),
    ensures
        trimmed(text) == text,
{
}

/// No piece of a split text holds the separator.
pub proof fn lemma_split_pieces(text: Seq<char>, sep: char)
    ensures
        forall|i: int, j: int|
            0 <= i < split_on(text, sep).len() && 0 <= j < split_on(text, sep)[i].len()
                ==> #[trigger] split_on(text, sep)[i][j] != sep,
    decreases text.len(),
{
    if text.len() > 0 {
        lemma_split_pieces(text.drop_last(), sep);
        lemma_split_some(text.drop_last(), sep);
    }
}

/// A word is not empty and holds no white space.
pub proof fn lemma_words(text: Seq<char>)
    ensures
        forall|i: int| 0 <= i < words_of(text).len() ==> (#[trigger] words_of(text)[i]).len() > 0,
        forall|i: int, j: int|
            0 <= i < words_of(text).len() && 0 <= j < words_of(text)[i].len() ==> !is_space(
                #[trigger] words_of(text)[i][j],
            ),
    decreases text.len(),
{
    if text.len() > 0 {
        lemma_words(text.drop_last());
        let before = words_of(text.drop_last());
        let words = words_of(text);
        assert forall|i: int| 0 <= i < words.len() implies (#[trigger] words[i]).len() > 0
            && forall|j: int| 0 <= j < words[i].len() ==> !is_space(#[trigger] words[i][j]) by {
            if i < before.len() - 1 || is_space(text.last()) {
                assert(words[i] == before[i]);
            } else if i == before.len() - 1 {
                assert(words[i] == before[i] || words[i] == before[i].push(text.last()));
            } else {
                assert(words[i] == seq![text.last()]);
            }
        }
    }
}

/// A trimmed text neither starts nor ends with white space.
pub proof fn lemma_trimmed(text: Seq<char>)
    ensures
        trimmed(text).len() > 0 ==> !is_space(trimmed(text)[0]) && !is_space(
            trimmed(text).last(),
        ),
{
    lemma_trim_start(text);
    lemma_trim_end(trim_start(text));
}

proof fn lemma_trim_start(text: Seq<char>)
    ensures
        trim_start(text).len() > 0 ==> !is_space(trim_start(text)[0]),
        trim_start(text).len() > 0 ==> trim_start(text).last() == text.last(),
        trim_start(text).len() <= text.len(),
    decreases text.len(),
{
    if text.len() > 0 && is_space(text[0]) {
        lemma_trim_start(text.drop_first());
    }
}

proof fn lemma_trim_end(text: Seq<char>)
    ensures
        trim_end(text).len() > 0 ==> !is_space(trim_end(text).last()),
        trim_end(text).len() > 0 ==> trim_end(text)[0] == text[0],
        trim_end(text).len() <= text.len(),
    decreases text.len(),
{
    if text.len() > 0 && is_space(text.last()) {
        lemma_trim_end(text.drop_last());
    }
}

/// A text that ends with a character of a word has a word.
pub proof fn lemma_words_some(text: Seq<char>)
    requires
        text.len() > 0,
        !is_space(text.last()),
    ensures
        words_of(text).len() > 0,
{
}

/// The words of two texts, one behind the other, are the words of both where
/// the first text does not end within a word.
pub proof fn lemma_words_append(first: Seq<char>, second: Seq<char>)
    requires
        first.len() == 0 || is_space(first.last()),
    ensures
        words_of(first + second) == words_of(first) + words_of(second),
    decreases second.len(),
{
    if second.len() == 0 {
        assert(first + second =~= first);
        assert(words_of(first) + words_of(second) =~= words_of(first));
    } else {
        let front = second.drop_last();
        let c = second.last();
        let whole = first + second;
        lemma_words_append(first, front);
        assert(whole.drop_last() =~= first + front);
        assert(whole.last() == c);
        let before = words_of(first + front);
        if is_space(c) {
        } else if front.len() == 0 {
            assert(words_of(second) =~= seq![seq![c]]);
            assert(whole.len() >= 2 ==> whole[whole.len() - 2] == first.last());
            assert(words_of(whole) =~= words_of(first) + words_of(second));
        } else {
            assert(whole[whole.len() - 2] == front.last());
            assert(second[second.len() - 2] == front.last());
            if !is_space(front.last()) {
                lemma_words_some(front);
                assert(before.last() == words_of(front).last());
            }
            assert(words_of(whole) =~= words_of(first) + words_of(second));
        }
    }
}

/// White space behind a text adds no word.
pub proof fn lemma_words_space(text: Seq<char>, space: char)
    requires
        is_space(space),
    ensures
        words_of(text.push(space)) == words_of(text),
{
    assert(text.push(space).drop_last() =~= text);
}

} // verus!
