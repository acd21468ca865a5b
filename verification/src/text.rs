//! Text helpers shared by the rest of the library.
//!
//! A string is described by its view, a sequence of characters.

use vstd::prelude::*;

verus! {

/// The views of a sequence of strings.
pub open spec fn texts(strings: Seq<String>) -> Seq<Seq<char>> {
    strings.map_values(|s: String| s@)
}

/// The view of an optional string.
pub open spec fn opt_text(text: Option<String>) -> Option<Seq<char>> {
    match text {
        Some(text) => Some(text@),
        None => None,
    }
}

/// Whether a character has the Unicode property White_Space.
pub open spec fn is_space(c: char) -> bool {
    let n = c as int;
    ||| 0x09 <= n <= 0x0d
    ||| n == 0x20
    ||| n == 0x85
    ||| n == 0xa0
    ||| n == 0x1680
    ||| 0x2000 <= n <= 0x200a
    ||| n == 0x2028
    ||| n == 0x2029
    ||| n == 0x202f
    ||| n == 0x205f
    ||| n == 0x3000
}

/// A text without its leading white space.
pub open spec fn trimmed_start(text: Seq<char>) -> Seq<char>
    decreases text.len(),
{
    if text.len() > 0 && is_space(text[0]) {
        trimmed_start(text.drop_first())
    } else {
        text
    }
}

/// A text without its trailing white space.
pub open spec fn trimmed_end(text: Seq<char>) -> Seq<char>
    decreases text.len(),
{
    if text.len() > 0 && is_space(text.last()) {
        trimmed_end(text.drop_last())
    } else {
        text
    }
}

/// A text without its leading and trailing white space.
pub open spec fn trimmed(text: Seq<char>) -> Seq<char> {
    trimmed_end(trimmed_start(text))
}

/// Whether nothing is left of a text once its white space is trimmed.
pub open spec fn is_blank(text: Seq<char>) -> bool {
    trimmed(text).len() == 0
}

/// One character with `A` to `Z` mapped to `a` to `z`.
pub open spec fn lower_char(c: char) -> char {
    if 'A' <= c <= 'Z' {
        (c as int + 32) as char
    } else {
        c
    }
}

/// A text with `A` to `Z` mapped to `a` to `z`.
pub open spec fn ascii_lower(text: Seq<char>) -> Seq<char> {
    text.map_values(|c: char| lower_char(c))
}

/// Whether `needle` occurs in `text`, as a run of adjacent characters.
pub open spec fn has_infix(text: Seq<char>, needle: Seq<char>) -> bool {
    exists|i: int|
        0 <= i <= text.len() - needle.len() && #[trigger] text.subrange(i, i + needle.len())
            == needle
}

/// The order of texts: lexicographic, by code point.
pub open spec fn text_le(a: Seq<char>, b: Seq<char>) -> bool
    decreases a.len(),
{
    if a.len() == 0 {
        true
    } else if b.len() == 0 {
        false
    } else if a[0] == b[0] {
        text_le(a.drop_first(), b.drop_first())
    } else {
        (a[0] as int) < (b[0] as int)
    }
}

/// Where a text goes in an ascending sequence: behind the texts before it.
pub open spec fn place(sorted: Seq<Seq<char>>, text: Seq<char>) -> int
    decreases sorted.len(),
{
    if sorted.len() == 0 || text_le(text, sorted[0]) {
        0
    } else {
        1 + place(sorted.drop_first(), text)
    }
}

/// An ascending sequence with one more text, if it was not there.
pub open spec fn placed(sorted: Seq<Seq<char>>, text: Seq<char>) -> Seq<Seq<char>> {
    let at = place(sorted, text);
    if at < sorted.len() && sorted[at] == text {
        sorted
    } else {
        sorted.insert(at, text)
    }
}

/// Texts put one after the other, with a separator between them.
pub open spec fn join(parts: Seq<Seq<char>>, separator: Seq<char>) -> Seq<char>
    decreases parts.len(),
{
    if parts.len() == 0 {
        Seq::empty()
    } else if parts.len() == 1 {
        parts[0]
    } else {
        join(parts.drop_last(), separator) + separator + parts.last()
    }
}

/// The decimal digits of a number, most significant first.
pub open spec fn decimal(n: nat) -> Seq<char>
    decreases n,
{
    if n < 10 {
        seq![digit(n)]
    } else {
        decimal(n / 10).push(digit(n % 10))
    }
}

/// One decimal digit as a character.
pub open spec fn digit(n: nat) -> char {
    (48 + n) as char
}

/// The number that some decimal digits stand for.
pub open spec fn number_of(digits: Seq<char>) -> int
    decreases digits.len(),
{
    if digits.len() == 0 {
        0
    } else {
        10 * number_of(digits.drop_last()) + (digits.last() as int - '0' as int)
    }
}

/// The decimal digits of a number stand for it, and are digits.
pub proof fn lemma_decimal_reads_back(n: nat)
    ensures
        number_of(decimal(n)) == n,
        decimal(n).len() > 0,
        forall|i: int| 0 <= i < decimal(n).len() ==> '0' <= #[trigger] decimal(n)[i] <= '9',
    decreases n,
{
    if n >= 10 {
        lemma_decimal_reads_back(n / 10);
        assert(decimal(n).drop_last() =~= decimal(n / 10));
        assert(digit(n % 10) as int == 48 + n % 10);
    } else {
        assert(decimal(n).drop_last() =~= Seq::empty());
        assert(number_of(Seq::<char>::empty()) == 0);
        assert(digit(n) as int == 48 + n);
    }
}

/// Adding a string adds its view.
pub proof fn lemma_texts_push(strings: Seq<String>, s: String)
    ensures
        texts(strings.push(s)) == texts(strings).push(s@),
{
    assert(texts(strings.push(s)) =~= texts(strings).push(s@));
}

/// Trimming leaves no white space at either end.
pub proof fn lemma_trimmed_ends(text: Seq<char>)
    ensures
        trimmed(text).len() > 0 ==> !is_space(trimmed(text)[0]) && !is_space(trimmed(text).last()),
{
    lemma_trimmed_start_end(text);
    lemma_trimmed_end_ends(trimmed_start(text));
}

proof fn lemma_trimmed_start_end(text: Seq<char>)
    ensures
        trimmed_start(text).len() > 0 ==> !is_space(trimmed_start(text)[0]),
    decreases text.len(),
{
    if text.len() > 0 && is_space(text[0]) {
        lemma_trimmed_start_end(text.drop_first());
    }
}

proof fn lemma_trimmed_end_ends(text: Seq<char>)
    ensures
        trimmed_end(text).len() > 0 ==> !is_space(trimmed_end(text).last()) && trimmed_end(text)[0]
            == text[0],
    decreases text.len(),
{
    if text.len() > 0 && is_space(text.last()) {
        lemma_trimmed_end_ends(text.drop_last());
    }
}

/// A text with no white space at either end is its own trimmed form.
pub proof fn lemma_trimmed_fixed(text: Seq<char>)
    requires
        text.len() > 0 ==> !is_space(text[0]) && !is_space(text.last()),
    ensures
        trimmed(text) == text,
{
}

/// Trimming twice is trimming once.
pub proof fn lemma_trimmed_idempotent(text: Seq<char>)
    ensures
        trimmed(trimmed(text)) == trimmed(text),
{
    lemma_trimmed_ends(text);
    lemma_trimmed_fixed(trimmed(text));
}

/// Lowering a text twice is lowering it once.
pub proof fn lemma_ascii_lower_idempotent(text: Seq<char>)
    ensures
        ascii_lower(ascii_lower(text)) == ascii_lower(text),
{
    assert(ascii_lower(ascii_lower(text)) =~= ascii_lower(text));
}

/// Lowering a trimmed text leaves it trimmed.
pub proof fn lemma_lowered_trimmed(text: Seq<char>)
    ensures
        trimmed(ascii_lower(trimmed(text))) == ascii_lower(trimmed(text)),
{
    lemma_trimmed_ends(text);
    lemma_trimmed_fixed(ascii_lower(trimmed(text)));
}

/// A text comes no later than itself.
pub proof fn lemma_text_le_reflexive(a: Seq<char>)
    ensures
        text_le(a, a),
    decreases a.len(),
{
    if a.len() > 0 {
        lemma_text_le_reflexive(a.drop_first());
    }
}

/// Of two texts one comes no later than the other.
pub proof fn lemma_text_le_total(a: Seq<char>, b: Seq<char>)
    ensures
        text_le(a, b) || text_le(b, a),
    decreases a.len(),
{
    if a.len() > 0 && b.len() > 0 && a[0] == b[0] {
        lemma_text_le_total(a.drop_first(), b.drop_first());
    }
}

/// Two texts that each come no later than the other are equal.
pub proof fn lemma_text_le_antisymmetric(a: Seq<char>, b: Seq<char>)
    requires
        text_le(a, b),
        text_le(b, a),
    ensures
        a == b,
    decreases a.len(),
{
    if a.len() > 0 && b.len() > 0 {
        lemma_text_le_antisymmetric(a.drop_first(), b.drop_first());
        assert(a =~= seq![a[0]] + a.drop_first());
        assert(b =~= seq![b[0]] + b.drop_first());
    } else {
        assert(a =~= b);
    }
}

/// The order of texts is transitive.
pub proof fn lemma_text_le_transitive(a: Seq<char>, b: Seq<char>, c: Seq<char>)
    requires
        text_le(a, b),
        text_le(b, c),
    ensures
        text_le(a, c),
    decreases a.len(),
{
    if a.len() > 0 && b.len() > 0 && c.len() > 0 && a[0] == b[0] && b[0] == c[0] {
        lemma_text_le_transitive(a.drop_first(), b.drop_first(), c.drop_first());
    }
}

/// Ascending, with nothing occurring twice.
pub open spec fn ascending(sorted: Seq<Seq<char>>) -> bool {
    forall|i: int, j: int|
        0 <= i < j < sorted.len() ==> text_le(#[trigger] sorted[i], #[trigger] sorted[j])
            && sorted[i] != sorted[j]
}

proof fn lemma_place(sorted: Seq<Seq<char>>, text: Seq<char>)
    requires
        ascending(sorted),
    ensures
        0 <= place(sorted, text) <= sorted.len(),
        forall|i: int|
            0 <= i < place(sorted, text) ==> !text_le(text, #[trigger] sorted[i]),
        forall|i: int|
            place(sorted, text) <= i < sorted.len() ==> text_le(
                text,
                #[trigger] sorted[i],
            ),
    decreases sorted.len(),
{
    if sorted.len() == 0 {
    } else if text_le(text, sorted[0]) {
        assert forall|i: int| 0 <= i < sorted.len() implies text_le(
            text,
            #[trigger] sorted[i],
        ) by {
            if i > 0 {
                lemma_text_le_transitive(text, sorted[0], sorted[i]);
            }
        }
    } else {
        let rest = sorted.drop_first();
        assert(ascending(rest));
        lemma_place(rest, text);
        assert forall|i: int| 0 <= i < place(sorted, text) implies !text_le(
            text,
            #[trigger] sorted[i],
        ) by {
            if i > 0 {
                assert(sorted[i] == rest[i - 1]);
            }
        }
        assert forall|i: int| place(sorted, text) <= i < sorted.len() implies text_le(
            text,
            #[trigger] sorted[i],
        ) by {
            assert(sorted[i] == rest[i - 1]);
        }
    }
}

/// Adding a text to an ascending sequence keeps it ascending, and adds nothing else.
pub proof fn lemma_placed(sorted: Seq<Seq<char>>, text: Seq<char>)
    requires
        ascending(sorted),
    ensures
        ascending(placed(sorted, text)),
        forall|t: Seq<char>|
            #[trigger] placed(sorted, text).contains(t) <==> sorted.contains(t) || t == text,
{
    lemma_place(sorted, text);
    let at = place(sorted, text);
    let after = placed(sorted, text);
    if at < sorted.len() && sorted[at] == text {
    } else {
        assert forall|i: int, j: int| 0 <= i < j < after.len() implies text_le(
            #[trigger] after[i],
            #[trigger] after[j],
        ) && after[i] != after[j] by {
            if i < at && j == at {
                lemma_text_le_total(sorted[i], text);
                lemma_text_le_reflexive(text);
            } else if i == at {
                assert(after[j] == sorted[j - 1]);
                if sorted[j - 1] == text && j - 1 > at {
                    lemma_text_le_antisymmetric(sorted[at], text);
                }
            } else if i < at {
                if j > at {
                    assert(after[j] == sorted[j - 1]);
                }
            } else {
                assert(after[i] == sorted[i - 1]);
                assert(after[j] == sorted[j - 1]);
            }
        }
        assert forall|t: Seq<char>| #[trigger]
            after.contains(t) <==> sorted.contains(t) || t == text by {
            if sorted.contains(t) {
                let i = choose|i: int| 0 <= i < sorted.len() && sorted[i] == t;
                if i < at {
                    assert(after[i] == t);
                } else {
                    assert(after[i + 1] == t);
                }
            }
            if t == text {
                assert(after[at] == t);
            }
            if after.contains(t) {
                let i = choose|i: int| 0 <= i < after.len() && after[i] == t;
                if i < at {
                    assert(sorted[i] == t);
                } else if i > at {
                    assert(sorted[i - 1] == t);
                }
            }
        }
    }
}

/// The characters of a string.
pub fn chars_of(text: &str) -> (chars: Vec<char>)
    ensures
        chars@ == text@,
{
    let mut chars: Vec<char> = Vec::new();
    for c in it: text.chars()
        invariant
            chars@ == text@.take(it.index() as int),
            it.seq() == text@,
    {
        chars.push(c);
        assert(text@.take(it.index() as int + 1) =~= text@.take(it.index() as int).push(c));
    }
    chars
}

/// The code point of a character.
pub fn code_point(c: char) -> (n: u32)
    ensures
        n as int == c as int,
{
    c as u32
}

/// Whether a character is white space.
pub fn is_white_space(c: char) -> (r: bool)
    ensures
        r == is_space(c),
{
    let n: u32 = c as u32;
    (0x09 <= n && n <= 0x0d) || n == 0x20 || n == 0x85 || n == 0xa0 || n == 0x1680 || (0x2000 <= n
        && n <= 0x200a) || n == 0x2028 || n == 0x2029 || n == 0x202f || n == 0x205f || n == 0x3000
}

/// A string without its leading and trailing white space.
pub fn trim(text: &str) -> (r: &str)
    ensures
        r@ == trimmed(text@),
{
    let chars = chars_of(text);
    let mut from: usize = 0;
    assert(text@.skip(0) =~= text@);
    while from < chars.len() && is_white_space(chars[from])
        invariant
            from <= chars.len(),
            chars@ == text@,
            trimmed_start(text@) == trimmed_start(text@.skip(from as int)),
        decreases chars.len() - from,
    {
        assert(text@.skip(from as int).drop_first() =~= text@.skip(from as int + 1));
        from = from + 1;
    }
    assert(trimmed_start(text@) == text@.skip(from as int));
    let mut to: usize = chars.len();
    assert(text@.skip(from as int) =~= text@.subrange(from as int, to as int));
    while from < to && is_white_space(chars[to - 1])
        invariant
            from <= to <= chars.len(),
            chars@ == text@,
            trimmed(text@) == trimmed_end(text@.subrange(from as int, to as int)),
        decreases to - from,
    {
        assert(text@.subrange(from as int, to as int).drop_last() =~= text@.subrange(
            from as int,
            to as int - 1,
        ));
        to = to - 1;
    }
    text.substring_char(from, to)
}

/// The letter that `A` to `Z` is mapped to, as a string.
fn lower_letter(c: char) -> (r: &'static str)
    requires
        'A' <= c <= 'Z',
    ensures
        r@ == seq![lower_char(c)],
{
    let letters = "abcdefghijklmnopqrstuvwxyz";
    proof {
        reveal_strlit("abcdefghijklmnopqrstuvwxyz");
    }
    let at: usize = (c as u32 - 65) as usize;
    let letter = letters.substring_char(at, at + 1);
    assert(letters@[at as int] as int == 97 + at);
    assert(letter@ =~= seq![lower_char(c)]);
    letter
}

/// A copy of a string with `A` to `Z` mapped to `a` to `z`.
pub fn to_ascii_lower(text: &str) -> (r: String)
    ensures
        r@ == ascii_lower(text@),
{
    let chars = chars_of(text);
    let mut lowered = String::new();
    let mut from: usize = 0;
    let mut i: usize = 0;
    assert(lowered@ =~= ascii_lower(text@).take(0));
    while i < chars.len()
        invariant
            from <= i <= chars.len(),
            chars@ == text@,
            lowered@ == ascii_lower(text@).take(from as int),
            forall|j: int| from <= j < i ==> !('A' <= #[trigger] text@[j] <= 'Z'),
        decreases chars.len() - i,
    {
        let c: char = chars[i];
        if 'A' <= c && c <= 'Z' {
            lowered.append(text.substring_char(from, i));
            lowered.append(lower_letter(c));
            assert(lowered@ =~= ascii_lower(text@).take(i as int + 1));
            from = i + 1;
        }
        i = i + 1;
    }
    lowered.append(text.substring_char(from, i));
    assert(lowered@ =~= ascii_lower(text@));
    lowered
}

/// Whether `needle` stands in `chars` at a position.
fn stands_at(chars: &Vec<char>, needle: &Vec<char>, at: usize) -> (r: bool)
    requires
        at + needle@.len() <= chars@.len(),
    ensures
        r == (chars@.subrange(at as int, at + needle@.len()) == needle@),
{
    let ghost part = chars@.subrange(at as int, at + needle@.len());
    let length: usize = chars.len();
    let mut i: usize = 0;
    while i < needle.len()
        invariant
            i <= needle@.len(),
            at + needle@.len() <= chars@.len() == length,
            part == chars@.subrange(at as int, at + needle@.len()),
            forall|j: int| 0 <= j < i ==> part[j] == needle@[j],
        decreases needle.len() - i,
    {
        if chars[at + i] != needle[i] {
            assert(part[i as int] != needle@[i as int]);
            return false;
        }
        i = i + 1;
    }
    assert(part =~= needle@);
    true
}

/// Whether `needle` occurs in `text`.
pub fn contains_text(text: &str, needle: &str) -> (r: bool)
    ensures
        r == has_infix(text@, needle@),
{
    let chars = chars_of(text);
    let wanted = chars_of(needle);
    if wanted.len() > chars.len() {
        return false;
    }
    let last: usize = chars.len() - wanted.len();
    let mut at: usize = 0;
    while at < last
        invariant
            chars@ == text@,
            wanted@ == needle@,
            last == chars@.len() - wanted@.len(),
            at <= last,
            forall|i: int|
                0 <= i < at ==> #[trigger] text@.subrange(i, i + needle@.len()) != needle@,
        decreases last - at,
    {
        if stands_at(&chars, &wanted, at) {
            return true;
        }
        at = at + 1;
    }
    stands_at(&chars, &wanted, last)
}

/// Whether two strings hold the same characters.
pub fn same_text(a: &str, b: &str) -> (r: bool)
    ensures
        r == (a@ == b@),
{
    let left = a.as_bytes();
    let right = b.as_bytes();
    proof {
        vstd::utf8::encode_utf8_decode_utf8(a@);
        vstd::utf8::encode_utf8_decode_utf8(b@);
    }
    if left.len() != right.len() {
        return false;
    }
    let mut i: usize = 0;
    while i < left.len()
        invariant
            i <= left.len(),
            left@.len() == right@.len(),
            left@ == vstd::utf8::encode_utf8(a@),
            right@ == vstd::utf8::encode_utf8(b@),
            forall|j: int| 0 <= j < i ==> left@[j] == right@[j],
        decreases left.len() - i,
    {
        if left[i] != right[i] {
            return false;
        }
        i = i + 1;
    }
    assert(left@ =~= right@);
    true
}

/// Whether `a` comes no later than `b` in the order of texts.
pub fn comes_no_later(a: &str, b: &str) -> (r: bool)
    ensures
        r == text_le(a@, b@),
{
    let left = chars_of(a);
    let right = chars_of(b);
    let mut i: usize = 0;
    assert(a@.skip(0) =~= a@);
    assert(b@.skip(0) =~= b@);
    while i < left.len() && i < right.len()
        invariant
            i <= left.len(),
            i <= right.len(),
            left@ == a@,
            right@ == b@,
            text_le(a@, b@) == text_le(a@.skip(i as int), b@.skip(i as int)),
        decreases left.len() - i,
    {
        assert(a@.skip(i as int).drop_first() =~= a@.skip(i as int + 1));
        assert(b@.skip(i as int).drop_first() =~= b@.skip(i as int + 1));
        let x: u32 = code_point(left[i]);
        let y: u32 = code_point(right[i]);
        if x != y {
            return x < y;
        }
        i = i + 1;
    }
    i == left.len()
}

/// Whether a string starts with another one.
pub fn has_prefix(text: &str, prefix: &str) -> (r: bool)
    ensures
        r == prefix@.is_prefix_of(text@),
{
    let chars = chars_of(text);
    let head = chars_of(prefix);
    if head.len() > chars.len() {
        return false;
    }
    let mut i: usize = 0;
    while i < head.len()
        invariant
            i <= head.len(),
            head.len() <= chars.len(),
            chars@ == text@,
            head@ == prefix@,
            forall|j: int| 0 <= j < i ==> prefix@[j] == #[trigger] text@[j],
        decreases head.len() - i,
    {
        if chars[i] != head[i] {
            assert(text@.subrange(0, prefix@.len() as int)[i as int] != prefix@[i as int]);
            return false;
        }
        i = i + 1;
    }
    assert(text@.subrange(0, prefix@.len() as int) =~= prefix@);
    true
}

/// Whether a string is among the given ones.
pub fn holds_text(strings: &Vec<String>, text: &str) -> (r: bool)
    ensures
        r == texts(strings@).contains(text@),
{
    let mut i: usize = 0;
    while i < strings.len()
        invariant
            i <= strings.len(),
            forall|j: int| 0 <= j < i ==> texts(strings@)[j] != text@,
        decreases strings.len() - i,
    {
        if same_text(strings[i].as_str(), text) {
            assert(texts(strings@)[i as int] == text@);
            return true;
        }
        i = i + 1;
    }
    false
}

/// A copy of a list of strings.
pub fn copy_texts(strings: &Vec<String>) -> (r: Vec<String>)
    ensures
        texts(r@) == texts(strings@),
{
    let mut r: Vec<String> = Vec::new();
    let mut i: usize = 0;
    while i < strings.len()
        invariant
            i <= strings.len(),
            texts(r@) =~= texts(strings@).take(i as int),
        decreases strings.len() - i,
    {
        let copy = strings[i].clone();
        proof {
            lemma_texts_push(r@, copy);
        }
        r.push(copy);
        i = i + 1;
    }
    assert(texts(strings@).take(i as int) =~= texts(strings@));
    r
}

/// A copy of an optional string.
pub fn copy_opt(text: &Option<String>) -> (r: Option<String>)
    ensures
        opt_text(r) == opt_text(*text),
{
    match text {
        Some(text) => Some(text.clone()),
        None => None,
    }
}

/// Two strings put one after the other.
pub fn joined2(a: &str, b: &str) -> (r: String)
    ensures
        r@ == a@ + b@,
{
    let mut r = a.to_owned();
    r.append(b);
    r
}

/// Three strings put one after the other.
pub fn joined3(a: &str, b: &str, c: &str) -> (r: String)
    ensures
        r@ == a@ + b@ + c@,
{
    let mut r = a.to_owned();
    r.append(b);
    r.append(c);
    r
}

/// Four strings put one after the other.
pub fn joined4(a: &str, b: &str, c: &str, d: &str) -> (r: String)
    ensures
        r@ == a@ + b@ + c@ + d@,
{
    let mut r = joined3(a, b, c);
    r.append(d);
    r
}

/// Adds a text to an ascending list, if it is not there.
pub fn place_text(sorted: &mut Vec<String>, text: &str)
    ensures
        texts(final(sorted)@) == placed(texts(old(sorted)@), text@),
{
    let ghost views = texts(sorted@);
    let mut at: usize = 0;
    assert(views.skip(0) =~= views);
    while at < sorted.len() && !comes_no_later(text, sorted[at].as_str())
        invariant
            at <= sorted.len(),
            views == texts(sorted@),
            place(views, text@) == at + place(views.skip(at as int), text@),
        decreases sorted.len() - at,
    {
        assert(views.skip(at as int).drop_first() =~= views.skip(at as int + 1));
        at = at + 1;
    }
    assert(place(views, text@) == at);
    if at < sorted.len() && same_text(sorted[at].as_str(), text) {
        return ;
    }
    let copy = text.to_owned();
    let ghost before = sorted@;
    sorted.insert(at, copy);
    assert(texts(sorted@) =~= views.insert(at as int, text@));
}

/// Strings put one after the other, with a separator between them.
pub fn join_texts(parts: &Vec<String>, separator: &str) -> (r: String)
    ensures
        r@ == join(texts(parts@), separator@),
{
    let ghost all = texts(parts@);
    let mut joined = String::new();
    let mut i: usize = 0;
    assert(all.take(0) =~= Seq::empty());
    assert(joined@ =~= Seq::empty());
    while i < parts.len()
        invariant
            i <= parts.len(),
            all == texts(parts@),
            joined@ == join(all.take(i as int), separator@),
        decreases parts.len() - i,
    {
        assert(all.take(i as int + 1).drop_last() =~= all.take(i as int));
        if i > 0 {
            joined.append(separator);
        }
        joined.append(parts[i].as_str());
        assert(i == 0 ==> joined@ =~= all[0]);
        i = i + 1;
    }
    assert(all.take(i as int) =~= all);
    joined
}

/// The decimal digits of a number, as a string.
pub fn decimal_text(n: u64) -> (r: String)
    ensures
        r@ == decimal(n as nat),
    decreases n,
{
    if n < 10 {
        digit_text(n).to_owned()
    } else {
        let mut text = decimal_text(n / 10);
        text.append(digit_text(n % 10));
        text
    }
}

fn digit_text(n: u64) -> (r: &'static str)
    requires
        n < 10,
    ensures
        r@ == seq![digit(n as nat)],
{
    proof {
        reveal_strlit("0");
        reveal_strlit("1");
        reveal_strlit("2");
        reveal_strlit("3");
        reveal_strlit("4");
        reveal_strlit("5");
        reveal_strlit("6");
        reveal_strlit("7");
        reveal_strlit("8");
        reveal_strlit("9");
    }
    match n {
        0 => "0",
        1 => "1",
        2 => "2",
        3 => "3",
        4 => "4",
        5 => "5",
        6 => "6",
        7 => "7",
        8 => "8",
        _ => "9",
    }
}

/// A trimmed text is the text without some white space at either end, and without any more:
/// what is left neither starts nor ends with white space.
pub proof fn law_trimming_takes_white_space_only(text: Seq<char>)
    ensures
        exists|from: int, to: int|
            0 <= from <= to <= text.len() && #[trigger] text.subrange(from, to) == trimmed(text)
                && (forall|i: int| 0 <= i < from ==> is_space(#[trigger] text[i])) && (forall|
                i: int,
            |
                to <= i < text.len() ==> is_space(#[trigger] text[i])),
        trimmed(text).len() > 0 ==> !is_space(trimmed(text)[0]) && !is_space(trimmed(text).last()),
        is_blank(text) <==> forall|i: int| 0 <= i < text.len() ==> is_space(#[trigger] text[i]),
{
    lemma_trimmed_ends(text);
    let from = lemma_start_cut(text);
    let rest = trimmed_start(text);
    let kept = lemma_end_cut(rest);
    let to = from + kept;
    assert(text.subrange(from, to) =~= trimmed(text));
    assert forall|i: int| to <= i < text.len() implies is_space(#[trigger] text[i]) by {
        assert(rest[i - from] == text[i]);
    }
    if is_blank(text) {
        assert(kept == 0);
        assert forall|i: int| 0 <= i < text.len() implies is_space(#[trigger] text[i]) by {
            if i >= from {
                assert(rest[i - from] == text[i]);
            }
        }
    } else {
        assert(trimmed(text)[0] == text[from]);
    }
}

proof fn lemma_start_cut(text: Seq<char>) -> (from: int)
    ensures
        0 <= from <= text.len(),
        trimmed_start(text) == text.skip(from),
        forall|i: int| 0 <= i < from ==> is_space(#[trigger] text[i]),
    decreases text.len(),
{
    if text.len() > 0 && is_space(text[0]) {
        let rest = text.drop_first();
        let from = lemma_start_cut(rest);
        assert(rest.skip(from) =~= text.skip(from + 1));
        assert forall|i: int| 0 <= i < from + 1 implies is_space(#[trigger] text[i]) by {
            if i > 0 {
                assert(rest[i - 1] == text[i]);
            }
        }
        from + 1
    } else {
        assert(text.skip(0) =~= text);
        0
    }
}

proof fn lemma_end_cut(text: Seq<char>) -> (kept: int)
    ensures
        0 <= kept <= text.len(),
        trimmed_end(text) == text.take(kept),
        forall|i: int| kept <= i < text.len() ==> is_space(#[trigger] text[i]),
    decreases text.len(),
{
    if text.len() > 0 && is_space(text.last()) {
        let rest = text.drop_last();
        let kept = lemma_end_cut(rest);
        assert(rest.take(kept) =~= text.take(kept));
        assert forall|i: int| kept <= i < text.len() implies is_space(#[trigger] text[i]) by {
            if i < rest.len() {
                assert(rest[i] == text[i]);
            }
        }
        kept
    } else {
        assert(text.take(text.len() as int) =~= text);
        text.len() as int
    }
}

/// Lowering a text keeps its length and every character but the letters from `A` to `Z`,
/// which become those from `a` to `z`.
pub proof fn law_lowering_touches_capitals_only(text: Seq<char>, i: int)
    requires
        0 <= i < text.len(),
    ensures
        ascii_lower(text).len() == text.len(),
        !('A' <= text[i] <= 'Z') ==> ascii_lower(text)[i] == text[i],
        'A' <= text[i] <= 'Z' ==> 'a' <= ascii_lower(text)[i] <= 'z' && ascii_lower(text)[i] as int
            - 'a' as int == text[i] as int - 'A' as int,
{
}

/// Texts are ordered by their first difference: a text comes no later than another exactly
/// where it is the start of the other, or has the smaller character where they first differ.
pub proof fn law_texts_are_ordered_by_their_first_difference(a: Seq<char>, b: Seq<char>)
    ensures
        text_le(a, b) <==> a.is_prefix_of(b) || exists|k: int| first_differs(a, b, k)
            && (#[trigger] a[k] as int) < b[k] as int,
    decreases a.len(),
{
    if a.len() == 0 {
        assert(b.subrange(0, 0) =~= a);
    } else if b.len() > 0 {
        if a[0] == b[0] {
            let x = a.drop_first();
            let y = b.drop_first();
            law_texts_are_ordered_by_their_first_difference(x, y);
            if x.is_prefix_of(y) {
                assert forall|i: int| 0 <= i < a.len() implies #[trigger] b[i] == a[i] by {
                    if i > 0 {
                        assert(y.subrange(0, x.len() as int)[i - 1] == x[i - 1]);
                    }
                }
                assert(b.subrange(0, a.len() as int) =~= a);
            }
            if exists|k: int| first_differs(x, y, k) && (#[trigger] x[k] as int) < y[k] as int {
                let k = choose|k: int|
                    first_differs(x, y, k) && (#[trigger] x[k] as int) < y[k] as int;
                assert(a[k + 1] == x[k]);
                assert(b[k + 1] == y[k]);
                assert forall|i: int| 0 <= i < k + 1 implies #[trigger] a[i] == b[i] by {
                    if i > 0 {
                        assert(x[i - 1] == y[i - 1]);
                    }
                }
                assert(first_differs(a, b, k + 1));
            }
            if a.is_prefix_of(b) {
                assert(y.subrange(0, x.len() as int) =~= x) by {
                    assert forall|i: int| 0 <= i < x.len() implies #[trigger] y[i] == x[i] by {
                        assert(b.subrange(0, a.len() as int)[i + 1] == a[i + 1]);
                    }
                }
            }
            if exists|k: int| first_differs(a, b, k) && (#[trigger] a[k] as int) < b[k] as int {
                let k = choose|k: int|
                    first_differs(a, b, k) && (#[trigger] a[k] as int) < b[k] as int;
                assert(k > 0);
                assert(x[k - 1] == a[k]);
                assert(y[k - 1] == b[k]);
                assert forall|i: int| 0 <= i < k - 1 implies #[trigger] x[i] == y[i] by {
                    assert(a[i + 1] == b[i + 1]);
                }
                assert(first_differs(x, y, k - 1));
            }
        } else {
            if a.is_prefix_of(b) {
                assert(b.subrange(0, a.len() as int)[0] == a[0]);
            }
            assert(first_differs(a, b, 0));
            if exists|k: int| first_differs(a, b, k) && (#[trigger] a[k] as int) < b[k] as int {
                let k = choose|k: int|
                    first_differs(a, b, k) && (#[trigger] a[k] as int) < b[k] as int;
                if k > 0 {
                    assert(a[0] == b[0]);
                }
            }
        }
    }
}

/// Whether two texts first differ at a position that both have.
pub open spec fn first_differs(a: Seq<char>, b: Seq<char>, k: int) -> bool {
    &&& 0 <= k < a.len()
    &&& k < b.len()
    &&& a[k] != b[k]
    &&& forall|i: int| 0 <= i < k ==> #[trigger] a[i] == b[i]
}

/// White space is the twenty-five characters that Unicode gives that property.
pub proof fn law_white_space(c: char)
    ensures
        is_space(c) <==> {
            ||| c == '\t'
            ||| c == '\n'
            ||| c == '\u{b}'
            ||| c == '\u{c}'
            ||| c == '\r'
            ||| c == ' '
            ||| c == '\u{85}'
            ||| c == '\u{a0}'
            ||| c == '\u{1680}'
            ||| '\u{2000}' <= c <= '\u{200a}'
            ||| c == '\u{2028}'
            ||| c == '\u{2029}'
            ||| c == '\u{202f}'
            ||| c == '\u{205f}'
            ||| c == '\u{3000}'
        },
{
}

} // verus!
