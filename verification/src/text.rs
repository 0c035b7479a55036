//! Character-level text operations, specified over `Seq<char>`.

use vstd::prelude::*;

verus! {

/// The text of an optional string.
pub open spec fn text_view(text: Option<String>) -> Option<Seq<char>> {
    match text {
        Some(s) => Some(s@),
        None => None,
    }
}

/// The characters of `s`, in order.
pub fn chars_of(s: &str) -> (chars: Vec<char>)
    ensures
        chars@ == s@,
{
    let mut chars: Vec<char> = Vec::new();
    for c in it: s.chars()
        invariant
            it.seq() == s@,
            chars@ == it.seq().take(it.index() as int),
    {
        chars.push(c);
        assert(chars@ =~= it.seq().take(it.index() + 1));
    }
    assert(chars@ =~= s@);
    chars
}

/// `String::from_iter` over the characters of a vector: the string that
/// consists of exactly those characters, in order.
#[verifier::external_body]
pub(crate) fn string_from_chars(chars: &Vec<char>) -> (s: String)
    ensures
        s@ == chars@,
{
    String::from_iter(chars)
}

/// What `{:?}` prints for a list of strings.
pub uninterp spec fn debug_text(items: Seq<Seq<char>>) -> Seq<char>;

/// `std::fmt::Debug` for `Vec<String>`, through `format!`: the text depends
/// on the strings of the list alone.
#[verifier::external_body]
pub(crate) fn debug_list(items: &Vec<String>) -> (text: String)
    ensures
        text@ == debug_text(items@.map_values(|item: String| item@)),
{
    format!("{:?}", items)
}

/// The upper-case form of a text.
pub uninterp spec fn uppercase_text(s: Seq<char>) -> Seq<char>;

/// The lower-case form of a text.
pub uninterp spec fn lowercase_text(s: Seq<char>) -> Seq<char>;

/// `str::to_uppercase`: the upper-case form that Unicode gives the text,
/// which depends on the text alone.
#[verifier::external_body]
pub(crate) fn to_uppercase(s: &str) -> (upper: String)
    ensures
        upper@ == uppercase_text(s@),
{
    s.to_uppercase()
}

/// `str::to_lowercase`: the lower-case form that Unicode gives the text,
/// which depends on the text alone.
#[verifier::external_body]
pub(crate) fn to_lowercase(s: &str) -> (lower: String)
    ensures
        lower@ == lowercase_text(s@),
{
    s.to_lowercase()
}

/// Appends the characters of `s` to `out`.
pub fn push_str_chars(out: &mut Vec<char>, s: &str)
    ensures
        final(out)@ == old(out)@ + s@,
{
    let ghost before = out@;
    for c in it: s.chars()
        invariant
            it.seq() == s@,
            out@ == before + it.seq().take(it.index() as int),
    {
        out.push(c);
        assert(out@ =~= before + it.seq().take(it.index() + 1));
    }
    assert(out@ =~= before + s@);
}

/// Appends the elements of `items` to `out`.
pub fn push_chars(out: &mut Vec<char>, items: &Vec<char>)
    ensures
        final(out)@ == old(out)@ + items@,
{
    let ghost before = out@;
    let mut i: usize = 0;
    while i < items.len()
        invariant
            i <= items.len(),
            out@ == before + items@.take(i as int),
        decreases items.len() - i,
    {
        out.push(items[i]);
        i += 1;
        assert(out@ =~= before + items@.take(i as int));
    }
    assert(out@ =~= before + items@);
}

/// Whether two vectors hold the same characters.
pub fn chars_equal(a: &Vec<char>, b: &Vec<char>) -> (same: bool)
    ensures
        same == (a@ == b@),
{
    if a.len() != b.len() {
        return false;
    }
    let mut i: usize = 0;
    while i < a.len()
        invariant
            i <= a.len(),
            a.len() == b.len(),
            forall|j: int| 0 <= j < i ==> a@[j] == b@[j],
        decreases a.len() - i,
    {
        if a[i] != b[i] {
            return false;
        }
        i += 1;
    }
    assert(a@ =~= b@);
    true
}

/// Whether two string slices hold the same text.
pub fn str_equal(a: &str, b: &str) -> (same: bool)
    ensures
        same == (a@ == b@),
{
    let x = chars_of(a);
    let y = chars_of(b);
    chars_equal(&x, &y)
}

/// The code point of `c`, with the upper-case ASCII letters mapped to their
/// lower-case counterparts.
pub open spec fn ascii_folded(c: char) -> u32 {
    if 'A' <= c && c <= 'Z' {
        (c as u32 + 32) as u32
    } else {
        c as u32
    }
}

/// Two texts are the same up to the case of their ASCII letters.
pub open spec fn same_ignoring_ascii_case(a: Seq<char>, b: Seq<char>) -> bool {
    &&& a.len() == b.len()
    &&& forall|i: int| 0 <= i < a.len() ==> ascii_folded(#[trigger] a[i]) == ascii_folded(b[i])
}

fn fold_ascii(c: char) -> (folded: u32)
    ensures
        folded == ascii_folded(c),
{
    if 'A' <= c && c <= 'Z' {
        c as u32 + 32
    } else {
        c as u32
    }
}

/// ASCII case-insensitive comparison of two vectors of characters.
pub fn chars_equal_ignoring_ascii_case(a: &Vec<char>, b: &Vec<char>) -> (same: bool)
    ensures
        same == same_ignoring_ascii_case(a@, b@),
{
    if a.len() != b.len() {
        return false;
    }
    let mut i: usize = 0;
    while i < a.len()
        invariant
            i <= a.len(),
            a.len() == b.len(),
            forall|j: int| 0 <= j < i ==> ascii_folded(#[trigger] a@[j]) == ascii_folded(b@[j]),
        decreases a.len() - i,
    {
        if fold_ascii(a[i]) != fold_ascii(b[i]) {
            return false;
        }
        i += 1;
    }
    true
}

/// ASCII case-insensitive comparison of two string slices.
pub fn equal_ignoring_ascii_case(a: &str, b: &str) -> (same: bool)
    ensures
        same == same_ignoring_ascii_case(a@, b@),
{
    let x = chars_of(a);
    let y = chars_of(b);
    chars_equal_ignoring_ascii_case(&x, &y)
}

/// `s` without the run of `c` at its end.
pub open spec fn without_trailing(s: Seq<char>, c: char) -> Seq<char>
    decreases s.len(),
{
    if s.len() > 0 && s.last() == c {
        without_trailing(s.drop_last(), c)
    } else {
        s
    }
}

/// The length of `chars` once the run of `c` at its end is removed.
pub fn len_without_trailing(chars: &Vec<char>, c: char) -> (len: usize)
    ensures
        len <= chars.len(),
        chars@.take(len as int) == without_trailing(chars@, c),
{
    let mut len: usize = chars.len();
    assert(chars@.take(len as int) =~= chars@);
    while len > 0 && chars[len - 1] == c
        invariant
            len <= chars.len(),
            without_trailing(chars@.take(len as int), c) == without_trailing(chars@, c),
        decreases len,
    {
        assert(chars@.take(len as int).drop_last() =~= chars@.take(len - 1));
        len -= 1;
    }
    len
}

/// Removing a trailing run leaves a prefix of the text, and what was removed
/// consists of `c` alone.
pub proof fn lemma_without_trailing_is_prefix(s: Seq<char>, c: char)
    ensures
        without_trailing(s, c).len() <= s.len(),
        without_trailing(s, c) == s.take(without_trailing(s, c).len() as int),
        forall|i: int| without_trailing(s, c).len() <= i < s.len() ==> s[i] == c,
        without_trailing(s, c).len() > 0 ==> without_trailing(s, c).last() != c,
    decreases s.len(),
{
    if s.len() > 0 && s.last() == c {
        lemma_without_trailing_is_prefix(s.drop_last(), c);
        let t = without_trailing(s, c);
        assert(t =~= s.take(t.len() as int));
        assert forall|i: int| t.len() <= i < s.len() implies s[i] == c by {
            if i < s.len() - 1 {
                assert(s.drop_last()[i] == s[i]);
            }
        }
    } else {
        assert(s =~= s.take(s.len() as int));
    }
}

/// The decimal digit for a value below ten.
pub open spec fn digit_char(d: nat) -> char
    recommends
        d < 10,
{
    (('0' as u32) + d as u32) as char
}

/// `n` in decimal notation, without sign or leading zeros.
pub open spec fn decimal_text(n: nat) -> Seq<char>
    decreases n,
{
    if n < 10 {
        seq![digit_char(n)]
    } else {
        decimal_text(n / 10).push(digit_char(n % 10))
    }
}

fn digit_of(d: u64) -> (c: char)
    requires
        d < 10,
    ensures
        c == digit_char(d as nat),
{
    let code: u8 = 48 + d as u8;
    assert('0' as u32 == 48);
    code as char
}

/// Appends the decimal notation of `n` to `out`.
pub fn push_decimal(out: &mut Vec<char>, n: u64)
    ensures
        final(out)@ == old(out)@ + decimal_text(n as nat),
    decreases n,
{
    let ghost before = out@;
    if n >= 10 {
        push_decimal(out, n / 10);
    }
    out.push(digit_of(n % 10));
    assert(out@ =~= before + decimal_text(n as nat));
}

/// Whether `c` is one of the ten ASCII digits.
pub open spec fn is_digit(c: char) -> bool {
    '0' <= c && c <= '9'
}

/// The value of the decimal notation `s`, read as digits alone.
pub open spec fn digits_value(s: Seq<char>) -> nat
    decreases s.len(),
{
    if s.len() == 0 {
        0
    } else {
        digits_value(s.drop_last()) * 10 + (s.last() as u32 - '0' as u32) as nat
    }
}

/// Every character of `s` is an ASCII digit.
pub open spec fn all_digits(s: Seq<char>) -> bool {
    forall|i: int| 0 <= i < s.len() ==> is_digit(#[trigger] s[i])
}

/// `s` without one leading plus sign.
pub open spec fn without_plus(s: Seq<char>) -> Seq<char> {
    if s.len() > 0 && s[0] == '+' {
        s.drop_first()
    } else {
        s
    }
}

/// The number that `s` denotes as an unsigned 64-bit integer: an optional
/// plus sign followed by one or more ASCII digits whose value fits.
pub open spec fn parsed_u64(s: Seq<char>) -> Option<u64> {
    let digits = without_plus(s);
    if digits.len() > 0 && all_digits(digits) && digits_value(digits) <= u64::MAX {
        Some(digits_value(digits) as u64)
    } else {
        None
    }
}

proof fn lemma_digits_value_prefix(s: Seq<char>, i: int)
    requires
        0 <= i <= s.len(),
    ensures
        digits_value(s.take(i)) <= digits_value(s),
    decreases s.len(),
{
    if i == s.len() {
        assert(s.take(i) =~= s);
    } else {
        assert(s.drop_last().take(i) =~= s.take(i));
        lemma_digits_value_prefix(s.drop_last(), i);
    }
}

/// Reads an unsigned 64-bit integer in decimal notation.
pub fn parse_u64(text: &str) -> (value: Option<u64>)
    ensures
        value == parsed_u64(text@),
{
    let chars = chars_of(text);
    let n: usize = chars.len();
    let start: usize = if n > 0 && chars[0] == '+' {
        1
    } else {
        0
    };
    let ghost digits = without_plus(text@);
    assert(digits =~= chars@.subrange(start as int, n as int));
    if start == n {
        return None;
    }
    let mut value: u64 = 0;
    let mut i: usize = start;
    assert(digits.take(0) =~= Seq::<char>::empty());
    while i < n
        invariant
            start <= i <= n,
            n == chars.len(),
            digits == chars@.subrange(start as int, n as int),
            digits == without_plus(text@),
            all_digits(digits.take(i - start)),
            value == digits_value(digits.take(i - start)),
        decreases n - i,
    {
        let c: char = chars[i];
        let ghost k = i - start;
        assert(digits[k] == c);
        if !('0' <= c && c <= '9') {
            return None;
        }
        let d: u64 = (c as u32 - '0' as u32) as u64;
        proof {
            assert(digits.take(k + 1).drop_last() =~= digits.take(k));
            assert(digits.take(k + 1).last() == c);
            assert forall|j: int| 0 <= j < k + 1 implies is_digit(
                #[trigger] digits.take(k + 1)[j],
            ) by {
                if j < k {
                    assert(digits.take(k)[j] == digits.take(k + 1)[j]);
                }
            }
        }
        if value > (u64::MAX - d) / 10 {
            proof {
                lemma_digits_value_prefix(digits, k + 1);
            }
            return None;
        }
        value = value * 10 + d;
        i += 1;
    }
    assert(digits.take(n - start) =~= digits);
    Some(value)
}

/// Whether `c` has the Unicode property White_Space.
pub open spec fn is_whitespace(c: char) -> bool {
    let code = c as u32;
    ||| (0x09 <= code && code <= 0x0D)
    ||| code == 0x20
    ||| code == 0x85
    ||| code == 0xA0
    ||| code == 0x1680
    ||| (0x2000 <= code && code <= 0x200A)
    ||| code == 0x2028
    ||| code == 0x2029
    ||| code == 0x202F
    ||| code == 0x205F
    ||| code == 0x3000
}

/// Checks `is_whitespace`.
pub fn char_is_whitespace(c: char) -> (white: bool)
    ensures
        white == is_whitespace(c),
{
    let code: u32 = c as u32;
    (0x09 <= code && code <= 0x0D) || code == 0x20 || code == 0x85 || code == 0xA0 || code
        == 0x1680 || (0x2000 <= code && code <= 0x200A) || code == 0x2028 || code == 0x2029
        || code == 0x202F || code == 0x205F || code == 0x3000
}

/// `s` without the whitespace at its start.
pub open spec fn trimmed_start(s: Seq<char>) -> Seq<char>
    decreases s.len(),
{
    if s.len() > 0 && is_whitespace(s[0]) {
        trimmed_start(s.drop_first())
    } else {
        s
    }
}

/// `s` without the whitespace at its end.
pub open spec fn trimmed_end(s: Seq<char>) -> Seq<char>
    decreases s.len(),
{
    if s.len() > 0 && is_whitespace(s.last()) {
        trimmed_end(s.drop_last())
    } else {
        s
    }
}

/// `s` without the whitespace at its start and at its end.
pub open spec fn trimmed(s: Seq<char>) -> Seq<char> {
    trimmed_end(trimmed_start(s))
}

/// A text that neither starts nor ends with whitespace is its own trimmed
/// form.
pub proof fn lemma_trimmed_unchanged(s: Seq<char>)
    requires
        s.len() > 0 ==> !is_whitespace(s[0]) && !is_whitespace(s.last()),
    ensures
        trimmed(s) == s,
{
}

/// The characters of `s` without the whitespace at its start and end.
pub fn trim(s: &str) -> (kept: Vec<char>)
    ensures
        kept@ == trimmed(s@),
{
    let chars = chars_of(s);
    let mut start: usize = 0;
    assert(chars@.skip(0) =~= chars@);
    while start < chars.len() && char_is_whitespace(chars[start])
        invariant
            start <= chars.len(),
            trimmed_start(chars@) == trimmed_start(chars@.skip(start as int)),
        decreases chars.len() - start,
    {
        assert(chars@.skip(start as int).drop_first() =~= chars@.skip(start + 1));
        start += 1;
    }
    let ghost rest = chars@.skip(start as int);
    assert(trimmed_start(chars@) == rest);
    let mut end: usize = chars.len();
    assert(rest.take(end - start) =~= rest);
    while end > start && char_is_whitespace(chars[end - 1])
        invariant
            start <= end <= chars.len(),
            rest == chars@.skip(start as int),
            trimmed_end(rest) == trimmed_end(rest.take(end - start)),
        decreases end,
    {
        assert(rest.take(end - start).drop_last() =~= rest.take(end - start - 1));
        end -= 1;
    }
    assert(trimmed_end(rest) == rest.take(end - start));
    let mut kept: Vec<char> = Vec::new();
    let mut i: usize = start;
    while i < end
        invariant
            start <= i <= end <= chars.len(),
            kept@ == chars@.subrange(start as int, i as int),
        decreases end - i,
    {
        kept.push(chars[i]);
        i += 1;
        assert(kept@ =~= chars@.subrange(start as int, i as int));
    }
    assert(kept@ =~= rest.take(end - start));
    kept
}

/// Whether `a` comes before `b` in the order of strings: character by
/// character by code point, a proper prefix before what it is a prefix of.
pub open spec fn precedes(a: Seq<char>, b: Seq<char>) -> bool
    decreases a.len(),
{
    if b.len() == 0 {
        false
    } else if a.len() == 0 {
        true
    } else if a[0] != b[0] {
        a[0] < b[0]
    } else {
        precedes(a.drop_first(), b.drop_first())
    }
}

/// How two texts stand in the order of strings.
#[derive(Clone, Copy, Debug, PartialEq, Eq, Structural)]
pub enum TextOrder {
    Before,
    Same,
    After,
}

/// Of two texts, one comes before the other or they are the same, and
/// only one of the three holds.
pub proof fn lemma_precedes_total(a: Seq<char>, b: Seq<char>)
    ensures
        precedes(a, b) || a == b || precedes(b, a),
        !(precedes(a, b) && precedes(b, a)),
        !precedes(a, a),
    decreases a.len(),
{
    if a.len() > 0 && b.len() > 0 && a[0] == b[0] {
        lemma_precedes_total(a.drop_first(), b.drop_first());
        if a.drop_first() == b.drop_first() {
            assert(a =~= seq![a[0]] + a.drop_first());
            assert(b =~= seq![b[0]] + b.drop_first());
        }
    } else if a.len() == 0 && b.len() == 0 {
        assert(a =~= b);
    }
    if a.len() > 0 {
        lemma_precedes_irreflexive(a);
    }
}

proof fn lemma_precedes_irreflexive(a: Seq<char>)
    ensures
        !precedes(a, a),
    decreases a.len(),
{
    if a.len() > 0 {
        lemma_precedes_irreflexive(a.drop_first());
    }
}

/// The order of strings is transitive.
pub proof fn lemma_precedes_transitive(a: Seq<char>, b: Seq<char>, c: Seq<char>)
    requires
        precedes(a, b),
        precedes(b, c),
    ensures
        precedes(a, c),
    decreases a.len(),
{
    if a.len() > 0 && a[0] == b[0] && b[0] == c[0] {
        lemma_precedes_transitive(a.drop_first(), b.drop_first(), c.drop_first());
    }
}

/// How `a` stands to `b` in the order of strings.
pub fn order_of(a: &Vec<char>, b: &Vec<char>) -> (order: TextOrder)
    ensures
        order == TextOrder::Before <==> precedes(a@, b@),
        order == TextOrder::Same <==> a@ == b@,
        order == TextOrder::After <==> precedes(b@, a@),
{
    let mut i: usize = 0;
    assert(a@.skip(0) =~= a@);
    assert(b@.skip(0) =~= b@);
    proof {
        lemma_precedes_total(a@, b@);
    }
    while i < a.len() && i < b.len()
        invariant
            i <= a.len(),
            i <= b.len(),
            a@.take(i as int) == b@.take(i as int),
            precedes(a@, b@) == precedes(a@.skip(i as int), b@.skip(i as int)),
            precedes(b@, a@) == precedes(b@.skip(i as int), a@.skip(i as int)),
        decreases a.len() - i,
    {
        let x: char = a[i];
        let y: char = b[i];
        assert(a@.skip(i as int)[0] == x);
        assert(b@.skip(i as int)[0] == y);
        assert(a@.skip(i as int).drop_first() =~= a@.skip(i + 1));
        assert(b@.skip(i as int).drop_first() =~= b@.skip(i + 1));
        if x != y {
            assert(a@[i as int] != b@[i as int]);
            if x < y {
                return TextOrder::Before;
            } else {
                return TextOrder::After;
            }
        }
        i += 1;
        assert(a@.take(i as int) =~= a@.take(i - 1).push(x));
        assert(b@.take(i as int) =~= b@.take(i - 1).push(y));
    }
    if i < b.len() {
        assert(a@.skip(i as int).len() == 0);
        assert(b@.take(i as int).len() != b@.len());
        TextOrder::Before
    } else if i < a.len() {
        assert(b@.skip(i as int).len() == 0);
        assert(a@.take(i as int).len() != a@.len());
        TextOrder::After
    } else {
        assert(a@.take(i as int) =~= a@);
        assert(b@.take(i as int) =~= b@);
        TextOrder::Same
    }
}

/// Every text stands before the next one.
pub open spec fn strictly_sorted(texts: Seq<Seq<char>>) -> bool {
    forall|i: int, j: int| 0 <= i < j < texts.len() ==> precedes(texts[i], texts[j])
}

/// The texts of a list of character vectors.
pub open spec fn texts_of(items: Seq<Vec<char>>) -> Seq<Seq<char>> {
    items.map_values(|item: Vec<char>| item@)
}

/// Puts `item` into a sorted list without repetitions, unless it is there.
pub fn insert_sorted(sorted: &mut Vec<Vec<char>>, item: Vec<char>)
    requires
        strictly_sorted(texts_of(old(sorted)@)),
    ensures
        strictly_sorted(texts_of(final(sorted)@)),
        forall|text: Seq<char>|
            texts_of(final(sorted)@).contains(text) <==> (texts_of(old(sorted)@).contains(text)
                || text == item@),
        final(sorted)@.len() == old(sorted)@.len() + if texts_of(old(sorted)@).contains(item@) {
            0int
        } else {
            1int
        },
{
    let ghost before = texts_of(sorted@);
    let mut position: usize = 0;
    let mut found: TextOrder = TextOrder::Before;
    while found == TextOrder::Before && position < sorted.len()
        invariant
            position <= sorted.len(),
            texts_of(sorted@) == before,
            sorted@.len() == old(sorted)@.len(),
            strictly_sorted(before),
            forall|i: int| 0 <= i < position ==> precedes(#[trigger] before[i], item@),
            found == TextOrder::Same ==> position < sorted.len() && before[position as int]
                == item@,
            found == TextOrder::After ==> position < sorted.len() && precedes(
                item@,
                before[position as int],
            ),
        decreases sorted.len() - position, if found == TextOrder::Before { 1int } else { 0int },
    {
        assert(before[position as int] == sorted@[position as int]@);
        found = order_of(&sorted[position], &item);
        if found == TextOrder::Before {
            position += 1;
        }
    }
    if found == TextOrder::Same {
        assert(before.contains(item@));
        return ;
    }
    proof {
        if before.contains(item@) {
            let k = choose|k: int| 0 <= k < before.len() && before[k] == item@;
            lemma_precedes_total(item@, item@);
            if k < position {
                assert(precedes(before[k], item@));
            } else if k == position {
                assert(precedes(item@, before[k]));
            } else {
                assert(precedes(before[position as int], before[k]));
                lemma_precedes_transitive(item@, before[position as int], before[k]);
            }
        }
    }
    sorted.insert(position, item);
    proof {
        let after = texts_of(sorted@);
        assert(after =~= before.insert(position as int, item@));
        assert forall|i: int, j: int| 0 <= i < j < after.len() implies precedes(
            after[i],
            after[j],
        ) by {
            if j < position {
                assert(after[i] == before[i] && after[j] == before[j]);
            } else if j == position {
                assert(after[i] == before[i]);
            } else if i == position {
                assert(after[j] == before[j - 1]);
                if j - 1 > position {
                    lemma_precedes_transitive(item@, before[position as int], before[j - 1]);
                }
            } else if i < position {
                assert(after[i] == before[i] && after[j] == before[j - 1]);
                if i < j - 1 {
                } else {
                    assert(i == position - 1 && j == position + 1) by {
                        assert(i >= j - 1);
                    }
                }
            } else {
                assert(after[i] == before[i - 1] && after[j] == before[j - 1]);
            }
        }
        assert forall|text: Seq<char>| after.contains(text) <==> (before.contains(text) || text
            == item@) by {
            if after.contains(text) {
                let k = choose|k: int| 0 <= k < after.len() && after[k] == text;
                if k < position {
                    assert(before[k] == text);
                } else if k > position {
                    assert(before[k - 1] == text);
                }
            }
            if before.contains(text) {
                let k = choose|k: int| 0 <= k < before.len() && before[k] == text;
                if k < position {
                    assert(after[k] == text);
                } else {
                    assert(after[k + 1] == text);
                }
            }
            if text == item@ {
                assert(after[position as int] == text);
            }
        }
    }
}

/// Whether `needle` occurs in `haystack` at `at`.
pub open spec fn occurs_at(haystack: Seq<char>, needle: Seq<char>, at: int) -> bool {
    0 <= at && at + needle.len() <= haystack.len() && haystack.subrange(
        at,
        at + needle.len(),
    ) == needle
}

/// Whether `needle` occurs in `haystack`.
pub open spec fn contains_text(haystack: Seq<char>, needle: Seq<char>) -> bool {
    exists|at: int| occurs_at(haystack, needle, at)
}

fn found_at(haystack: &Vec<char>, needle: &Vec<char>, at: usize) -> (found: bool)
    requires
        at + needle.len() <= haystack.len(),
    ensures
        found == occurs_at(haystack@, needle@, at as int),
{
    let mut k: usize = 0;
    while k < needle.len()
        invariant
            k <= needle.len(),
            at + needle.len() <= haystack.len(),
            forall|j: int| 0 <= j < k ==> haystack@[at + j] == needle@[j],
        decreases needle.len() - k,
    {
        if haystack[at + k] != needle[k] {
            assert(haystack@.subrange(at as int, at + needle.len())[k as int] != needle@[k as int]);
            return false;
        }
        k += 1;
    }
    assert(haystack@.subrange(at as int, at + needle.len()) =~= needle@);
    true
}

/// Whether `needle` occurs in `haystack`.
pub fn text_contains(haystack: &Vec<char>, needle: &Vec<char>) -> (found: bool)
    ensures
        found == contains_text(haystack@, needle@),
{
    if needle.len() > haystack.len() {
        return false;
    }
    let last: usize = haystack.len() - needle.len();
    let mut at: usize = 0;
    loop
        invariant
            at <= last,
            last == haystack.len() - needle.len(),
            forall|j: int| 0 <= j < at ==> !occurs_at(haystack@, needle@, j),
        decreases last - at,
    {
        if found_at(haystack, needle, at) {
            return true;
        }
        if at == last {
            return false;
        }
        at += 1;
    }
}

/// The texts joined, with `separator` between one and the next.
pub open spec fn joined(items: Seq<Seq<char>>, separator: Seq<char>) -> Seq<char>
    decreases items.len(),
{
    if items.len() == 0 {
        Seq::empty()
    } else if items.len() == 1 {
        items[0]
    } else {
        joined(items.drop_last(), separator) + separator + items.last()
    }
}

/// Appends the strings to `out`, with `separator` between one and the next.
pub fn push_joined(out: &mut Vec<char>, items: &Vec<String>, separator: &str)
    ensures
        final(out)@ == old(out)@ + joined(items@.map_values(|item: String| item@), separator@),
{
    let ghost before = out@;
    let ghost texts = items@.map_values(|item: String| item@);
    let mut i: usize = 0;
    assert(out@ =~= before + joined(texts.take(0), separator@));
    while i < items.len()
        invariant
            i <= items.len(),
            texts == items@.map_values(|item: String| item@),
            out@ == before + joined(texts.take(i as int), separator@),
        decreases items.len() - i,
    {
        if i > 0 {
            push_str_chars(out, separator);
        }
        push_str_chars(out, items[i].as_str());
        i += 1;
        proof {
            assert(texts.take(i as int).drop_last() =~= texts.take(i - 1));
            assert(texts.take(i as int).last() == items@[i - 1]@);
            assert(out@ =~= before + joined(texts.take(i as int), separator@));
        }
    }
    assert(texts.take(i as int) =~= texts);
}

/// `text` with every occurrence of `pattern` replaced by `with`, the
/// occurrences taken from the left and none of them overlapping another.
/// An empty pattern occurs nowhere.
pub open spec fn replaced(text: Seq<char>, pattern: Seq<char>, with: Seq<char>) -> Seq<char>
    decreases text.len(),
{
    if pattern.len() == 0 || text.len() < pattern.len() {
        text
    } else if text.take(pattern.len() as int) == pattern {
        with + replaced(text.skip(pattern.len() as int), pattern, with)
    } else {
        seq![text[0]] + replaced(text.drop_first(), pattern, with)
    }
}

/// `text` with every occurrence of `pattern` replaced by `with`.
pub fn replace_all(text: &Vec<char>, pattern: &Vec<char>, with: &Vec<char>) -> (out: Vec<char>)
    ensures
        out@ == replaced(text@, pattern@, with@),
{
    let mut out: Vec<char> = Vec::new();
    let n: usize = text.len();
    let m: usize = pattern.len();
    if m == 0 {
        push_chars(&mut out, text);
        assert(out@ =~= text@);
        return out;
    }
    let mut i: usize = 0;
    assert(text@.skip(0) =~= text@);
    while i < n
        invariant
            i <= n,
            n == text@.len(),
            m == pattern@.len(),
            m > 0,
            out@ + replaced(text@.skip(i as int), pattern@, with@) == replaced(
                text@,
                pattern@,
                with@,
            ),
        decreases n - i,
    {
        let ghost rest = text@.skip(i as int);
        let ghost done = out@;
        if n - i >= m && found_at(text, pattern, i) {
            assert(rest.take(m as int) =~= text@.subrange(i as int, i + m));
            push_chars(&mut out, with);
            i += m;
            assert(rest.skip(m as int) =~= text@.skip(i as int));
            assert(out@ + replaced(text@.skip(i as int), pattern@, with@) =~= done + (with@
                + replaced(rest.skip(m as int), pattern@, with@)));
        } else {
            if n - i >= m {
                assert(rest.take(m as int) =~= text@.subrange(i as int, i + m));
            }
            out.push(text[i]);
            i += 1;
            assert(rest.drop_first() =~= text@.skip(i as int));
            assert(out@ + replaced(text@.skip(i as int), pattern@, with@) =~= done + (seq![
                rest[0],
            ] + replaced(rest.drop_first(), pattern@, with@)));
        }
    }
    assert(text@.skip(n as int).len() == 0);
    assert(out@ =~= out@ + replaced(text@.skip(n as int), pattern@, with@));
    out
}

/// The position of the first `c` in `text`, or the length of `text` where
/// there is none.
pub open spec fn first_index_of(text: Seq<char>, c: char) -> int
    decreases text.len(),
{
    if text.len() == 0 {
        0
    } else if text[0] == c {
        0
    } else {
        1 + first_index_of(text.drop_first(), c)
    }
}

/// The position of the first `c` in `text`.
pub fn index_of_char(text: &Vec<char>, c: char) -> (index: usize)
    ensures
        index == first_index_of(text@, c),
        index <= text.len(),
{
    let mut i: usize = 0;
    assert(text@.skip(0) =~= text@);
    while i < text.len()
        invariant
            i <= text.len(),
            first_index_of(text@, c) == i + first_index_of(text@.skip(i as int), c),
        decreases text.len() - i,
    {
        assert(text@.skip(i as int)[0] == text@[i as int]);
        assert(text@.skip(i as int).drop_first() =~= text@.skip(i + 1));
        if text[i] == c {
            return i;
        }
        i += 1;
    }
    i
}

/// The first line of a text: what stands before the first line feed, or
/// the whole text where there is none; a carriage return before the line
/// feed belongs to the line ending.
pub open spec fn first_line(text: Seq<char>) -> Seq<char> {
    let end = first_index_of(text, '\n');
    if 0 < end < text.len() && text[end - 1] == '\r' {
        text.take(end - 1)
    } else {
        text.take(end)
    }
}

/// The first line of a text.
pub fn first_line_of(text: &str) -> (line: Vec<char>)
    ensures
        line@ == first_line(text@),
{
    let mut chars = chars_of(text);
    let end: usize = index_of_char(&chars, '\n');
    if 0 < end && end < chars.len() && chars[end - 1] == '\r' {
        chars.truncate(end - 1);
    } else {
        chars.truncate(end);
    }
    assert(chars@ =~= first_line(text@));
    chars
}

/// Appends the characters from `from` up to `to`.
pub fn push_range(out: &mut Vec<char>, text: &Vec<char>, from: usize, to: usize)
    requires
        from <= to <= text.len(),
    ensures
        final(out)@ == old(out)@ + text@.subrange(from as int, to as int),
{
    let ghost before = out@;
    let mut i: usize = from;
    assert(out@ =~= before + text@.subrange(from as int, i as int));
    while i < to
        invariant
            from <= i <= to <= text.len(),
            out@ == before + text@.subrange(from as int, i as int),
        decreases to - i,
    {
        out.push(text[i]);
        i += 1;
        assert(out@ =~= before + text@.subrange(from as int, i as int));
    }
}

/// `n` in decimal notation, with zeros in front up to `width` digits.
pub open spec fn padded_decimal_text(n: nat, width: nat) -> Seq<char>
    decreases width,
{
    if decimal_text(n).len() >= width {
        decimal_text(n)
    } else {
        seq!['0'] + padded_decimal_text(n, (width - 1) as nat)
    }
}

/// The number of digits of `n`.
pub fn decimal_len(n: u64) -> (len: usize)
    ensures
        len == decimal_text(n as nat).len(),
        1 <= len <= 20,
    decreases n,
{
    if n < 10 {
        1
    } else {
        let shorter = decimal_len(n / 10);
        proof {
            lemma_decimal_len_bound(n as nat);
        }
        shorter + 1
    }
}

proof fn lemma_decimal_len_bound(n: nat)
    requires
        n <= u64::MAX,
    ensures
        decimal_text(n).len() <= 20,
{
    reveal_with_fuel(decimal_text, 21);
}

/// Appends `n` in decimal notation, with zeros in front up to `width`
/// digits.
pub fn push_padded_decimal(out: &mut Vec<char>, n: u64, width: usize)
    ensures
        final(out)@ == old(out)@ + padded_decimal_text(n as nat, width as nat),
{
    let ghost before = out@;
    let len = decimal_len(n);
    let mut remaining: usize = width;
    assert(out@ + padded_decimal_text(n as nat, remaining as nat) =~= before
        + padded_decimal_text(n as nat, width as nat));
    while remaining > len
        invariant
            len == decimal_text(n as nat).len(),
            out@ + padded_decimal_text(n as nat, remaining as nat) == before
                + padded_decimal_text(n as nat, width as nat),
        decreases remaining,
    {
        let ghost done = out@;
        out.push('0');
        remaining -= 1;
        assert(out@ + padded_decimal_text(n as nat, remaining as nat) =~= done + (seq!['0']
            + padded_decimal_text(n as nat, remaining as nat)));
    }
    let ghost padded = out@;
    push_decimal(out, n);
    assert(out@ =~= padded + padded_decimal_text(n as nat, remaining as nat));
}

/// Ten times a positive number is written as the number followed by a
/// zero.
pub proof fn lemma_decimal_times_ten(n: nat)
    requires
        n > 0,
    ensures
        decimal_text(n * 10) == decimal_text(n).push('0'),
{
    assert((n * 10) / 10 == n);
    assert((n * 10) % 10 == 0);
    assert(digit_char(0) == '0');
}

} // verus!
