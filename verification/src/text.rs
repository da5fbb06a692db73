//! Text helpers: searching, trimming, splitting, and integers in decimal.
//!
//! All of them speak of a string as the sequence of its `char`s.

use vstd::prelude::*;
use vstd::string::*;

verus! {

/// `String::push`: appends one character.
pub assume_specification [ String::push ](s: &mut String, c: char)
    ensures
        final(s)@ == old(s)@.push(c),
;

// ---------------------------------------------------------------------------
// Characters
// ---------------------------------------------------------------------------

/// The Unicode `White_Space` property.
pub open spec fn is_space(c: char) -> bool {
    ||| '\u{9}' <= c <= '\u{d}'
    ||| c == ' '
    ||| c == '\u{85}'
    ||| c == '\u{a0}'
    ||| c == '\u{1680}'
    ||| '\u{2000}' <= c <= '\u{200a}'
    ||| c == '\u{2028}'
    ||| c == '\u{2029}'
    ||| c == '\u{202f}'
    ||| c == '\u{205f}'
    ||| c == '\u{3000}'
}

pub open spec fn is_digit(c: char) -> bool {
    '0' <= c <= '9'
}

pub open spec fn is_upper(c: char) -> bool {
    'A' <= c <= 'Z'
}

pub open spec fn is_lower(c: char) -> bool {
    'a' <= c <= 'z'
}

/// ASCII letters and digits.
pub open spec fn is_alphanumeric(c: char) -> bool {
    is_digit(c) || is_upper(c) || is_lower(c)
}

/// The value of a decimal digit.
pub open spec fn digit_value(c: char) -> int {
    c as int - '0' as int
}

/// The decimal digit of value `d`.
pub open spec fn digit_char(d: int) -> char {
    ('0' as int + d) as char
}

/// The lower-case hexadecimal digit of value `d`.
pub open spec fn hex_char(d: int) -> char {
    if d < 10 {
        ('0' as int + d) as char
    } else {
        ('a' as int + d - 10) as char
    }
}

/// ASCII upper case; every other character stays.
pub open spec fn upper_char(c: char) -> char {
    if is_lower(c) {
        (c as int - 32) as char
    } else {
        c
    }
}

pub fn char_is_space(c: char) -> (r: bool)
    ensures
        r == is_space(c),
{
    ('\u{9}' <= c && c <= '\u{d}') || c == ' ' || c == '\u{85}' || c == '\u{a0}' || c == '\u{1680}'
        || ('\u{2000}' <= c && c <= '\u{200a}') || c == '\u{2028}' || c == '\u{2029}' || c
        == '\u{202f}' || c == '\u{205f}' || c == '\u{3000}'
}

pub fn char_is_digit(c: char) -> (r: bool)
    ensures
        r == is_digit(c),
{
    '0' <= c && c <= '9'
}

pub fn char_is_upper(c: char) -> (r: bool)
    ensures
        r == is_upper(c),
{
    'A' <= c && c <= 'Z'
}

pub fn char_is_alphanumeric(c: char) -> (r: bool)
    ensures
        r == is_alphanumeric(c),
{
    char_is_digit(c) || char_is_upper(c) || ('a' <= c && c <= 'z')
}

pub fn char_upper(c: char) -> (r: char)
    ensures
        r == upper_char(c),
{
    if 'a' <= c && c <= 'z' {
        ((c as u8) - 32) as char
    } else {
        c
    }
}

fn char_of_digit(d: u8) -> (r: char)
    requires
        d < 10,
    ensures
        r == digit_char(d as int),
{
    (48 + d) as char
}

fn char_of_hex(d: u8) -> (r: char)
    requires
        d < 16,
    ensures
        r == hex_char(d as int),
{
    if d < 10 {
        (48 + d) as char
    } else {
        (87 + d) as char
    }
}

// ---------------------------------------------------------------------------
// Strings as sequences of characters
// ---------------------------------------------------------------------------

/// The characters of each of a list of strings.
pub open spec fn texts(v: Seq<String>) -> Seq<Seq<char>> {
    Seq::new(v.len(), |i: int| v[i]@)
}

pub fn chars_of(s: &str) -> (r: Vec<char>)
    ensures
        r@ == s@,
{
    let mut r: Vec<char> = Vec::new();
    for c in it: s.chars()
        invariant
            r@ == it.seq().take(it.index()),
            it.seq() == s@,
    {
        r.push(c);
        proof {
            assert(r@ =~= it.seq().take(it.index() + 1));
        }
    }
    assert(r@ =~= s@);
    r
}

pub fn same_text(a: &str, b: &str) -> (r: bool)
    ensures
        r == (a@ == b@),
{
    let x = chars_of(a);
    let y = chars_of(b);
    if x.len() != y.len() {
        return false;
    }
    for i in 0..x.len()
        invariant
            x@ == a@,
            y@ == b@,
            x.len() == y.len(),
            forall|j: int| 0 <= j < i ==> x@[j] == y@[j],
    {
        if x[i] != y[i] {
            return false;
        }
    }
    assert(x@ =~= y@);
    true
}

/// Concatenation of two strings.
pub fn join(a: &str, b: &str) -> (r: String)
    ensures
        r@ == a@ + b@,
{
    a.to_string().concat(b)
}

pub fn starts_with(s: &str, prefix: &str) -> (r: bool)
    ensures
        r == prefix@.is_prefix_of(s@),
{
    let x = chars_of(s);
    let p = chars_of(prefix);
    if p.len() > x.len() {
        return false;
    }
    for i in 0..p.len()
        invariant
            x@ == s@,
            p@ == prefix@,
            p.len() <= x.len(),
            forall|j: int| 0 <= j < i ==> x@[j] == p@[j],
    {
        if x[i] != p[i] {
            assert(s@.subrange(0, prefix@.len() as int)[i as int] != prefix@[i as int]);
            return false;
        }
    }
    assert(s@.subrange(0, prefix@.len() as int) =~= prefix@);
    true
}

pub fn ends_with(s: &str, suffix: &str) -> (r: bool)
    ensures
        r == suffix@.is_suffix_of(s@),
{
    let x = chars_of(s);
    let p = chars_of(suffix);
    if p.len() > x.len() {
        return false;
    }
    let offset: usize = x.len() - p.len();
    for i in 0..p.len()
        invariant
            x@ == s@,
            p@ == suffix@,
            offset + p.len() == x.len(),
            forall|j: int| 0 <= j < i ==> x@[offset + j] == p@[j],
    {
        if x[offset + i] != p[i] {
            assert(s@.subrange(offset as int, s@.len() as int)[i as int] != suffix@[i as int]);
            return false;
        }
    }
    assert(s@.subrange(offset as int, s@.len() as int) =~= suffix@);
    true
}

pub fn contains_char(s: &str, c: char) -> (r: bool)
    ensures
        r == s@.contains(c),
{
    let x = chars_of(s);
    for i in 0..x.len()
        invariant
            x@ == s@,
            forall|j: int| 0 <= j < i ==> x@[j] != c,
    {
        if x[i] == c {
            return true;
        }
    }
    false
}

/// `part` stands in `s` at position `i`.
pub open spec fn occurs_at(s: Seq<char>, part: Seq<char>, i: int) -> bool {
    0 <= i <= s.len() - part.len() && s.subrange(i, i + part.len()) == part
}

/// `part` stands somewhere in `s`.
pub open spec fn occurs(s: Seq<char>, part: Seq<char>) -> bool {
    exists|i: int| occurs_at(s, part, i)
}

fn matches_at(x: &Vec<char>, p: &Vec<char>, i: usize) -> (r: bool)
    requires
        i + p.len() <= x.len(),
    ensures
        r == occurs_at(x@, p@, i as int),
{
    for j in 0..p.len()
        invariant
            i + p.len() <= x.len(),
            forall|k: int| 0 <= k < j ==> x@[i + k] == p@[k],
    {
        if x[i + j] != p[j] {
            assert(x@.subrange(i as int, i + p@.len())[j as int] != p@[j as int]);
            return false;
        }
    }
    assert(x@.subrange(i as int, i + p@.len()) =~= p@);
    true
}

pub fn contains_text(s: &str, part: &str) -> (r: bool)
    ensures
        r == occurs(s@, part@),
{
    let x = chars_of(s);
    let p = chars_of(part);
    if p.len() > x.len() {
        return false;
    }
    let last: usize = x.len() - p.len();
    let mut i: usize = 0;
    while i <= last
        invariant
            x@ == s@,
            p@ == part@,
            last + p.len() == x.len(),
            i <= last + 1,
            forall|j: int| 0 <= j < i ==> !occurs_at(s@, part@, j),
        decreases last + 1 - i,
    {
        if matches_at(&x, &p, i) {
            return true;
        }
        if i == last {
            return false;
        }
        i = i + 1;
    }
    false
}

/// The text that the formatting trait `Debug` of `str` writes: the string in double
/// quotes with its special characters escaped.
pub uninterp spec fn debug_text(s: Seq<char>) -> Seq<char>;

/// `Debug` of `str`, through `format`: the result is a function of the string
/// alone. Which characters are escaped, and how, is not said here.
#[verifier::external_body]
pub(crate) fn quoted(s: &str) -> (r: String)
    ensures
        r@ == debug_text(s@),
{
    format!("{:?}", s)
}

/// `std::str::from_utf8`: the text that bytes encode, where they are valid UTF-8.
#[verifier::external_body]
pub(crate) fn utf8_text(bytes: &[u8]) -> (r: Option<String>)
    ensures
        r is Some <==> vstd::utf8::valid_utf8(bytes@),
        r matches Some(s) ==> s@ == vstd::utf8::decode_utf8(bytes@),
{
    std::str::from_utf8(bytes).ok().map(|s| s.to_string())
}

/// The text that bytes encode, with what is not valid UTF-8 replaced.
pub uninterp spec fn lossy_text(bytes: Seq<u8>) -> Seq<char>;

/// `String::from_utf8_lossy`: the text is a function of the bytes, and the encoded one
/// where they are valid UTF-8. How other bytes are replaced is not said here.
#[verifier::external_body]
pub(crate) fn text_lossy(bytes: &[u8]) -> (r: String)
    ensures
        r@ == lossy_text(bytes@),
        vstd::utf8::valid_utf8(bytes@) ==> r@ == vstd::utf8::decode_utf8(bytes@),
{
    String::from_utf8_lossy(bytes).into_owned()
}

/// The characters of an optional string.
pub open spec fn opt_text(o: Option<String>) -> Option<Seq<char>> {
    match o {
        Some(s) => Some(s@),
        None => None,
    }
}

// ---------------------------------------------------------------------------
// Trimming
// ---------------------------------------------------------------------------

/// `s` without its leading white space.
pub open spec fn trim_start(s: Seq<char>) -> Seq<char>
    decreases s.len(),
{
    if s.len() > 0 && is_space(s[0]) {
        trim_start(s.drop_first())
    } else {
        s
    }
}

/// `s` without its trailing white space.
pub open spec fn trim_end(s: Seq<char>) -> Seq<char>
    decreases s.len(),
{
    if s.len() > 0 && is_space(s.last()) {
        trim_end(s.drop_last())
    } else {
        s
    }
}

/// `s` without its leading and trailing white space.
pub open spec fn trimmed(s: Seq<char>) -> Seq<char> {
    trim_end(trim_start(s))
}

/// A text that neither starts nor ends with white space stays as it is.
pub proof fn trimming_keeps_clean_text(s: Seq<char>)
    requires
        s.len() > 0 ==> !is_space(s[0]) && !is_space(s.last()),
    ensures
        trimmed(s) == s,
{
}

/// Trimming twice is trimming once.
pub proof fn trimming_is_idempotent(s: Seq<char>)
    ensures
        trimmed(trimmed(s)) == trimmed(s),
{
    lemma_trim_start_clean(s);
    let t = trim_start(s);
    lemma_trim_end_clean(t);
    trimming_keeps_clean_text(trimmed(s));
}

proof fn lemma_trim_start_clean(s: Seq<char>)
    ensures
        trim_start(s).len() > 0 ==> !is_space(trim_start(s)[0]),
    decreases s.len(),
{
    if s.len() > 0 && is_space(s[0]) {
        lemma_trim_start_clean(s.drop_first());
    }
}

proof fn lemma_trim_end_clean(s: Seq<char>)
    requires
        s.len() > 0 ==> !is_space(s[0]),
    ensures
        trim_end(s).len() > 0 ==> !is_space(trim_end(s)[0]) && !is_space(trim_end(s).last()),
    decreases s.len(),
{
    if s.len() > 0 && is_space(s.last()) {
        lemma_trim_end_clean(s.drop_last());
    }
}

/// White space added behind a text does not change its trimmed form.
pub proof fn trimming_drops_trailing_space(s: Seq<char>, c: char)
    requires
        is_space(c),
    ensures
        trimmed(s.push(c)) == trimmed(s),
    decreases s.len(),
{
    let p = s.push(c);
    if s.len() == 0 {
        assert(p.drop_first() =~= Seq::<char>::empty());
        assert(trim_start(p) == trim_start(p.drop_first()));
        assert(s =~= Seq::<char>::empty());
    } else if is_space(s[0]) {
        trimming_drops_trailing_space(s.drop_first(), c);
        assert(p.drop_first() =~= s.drop_first().push(c));
    } else {
        assert(p.drop_last() =~= s);
    }
}

/// Where trimming from the left stops.
proof fn lemma_trim_start_at(s: Seq<char>, a: int)
    requires
        0 <= a <= s.len(),
        forall|i: int| 0 <= i < a ==> is_space(s[i]),
        a < s.len() ==> !is_space(s[a]),
    ensures
        trim_start(s) == s.subrange(a, s.len() as int),
    decreases s.len(),
{
    if a > 0 {
        let t = s.drop_first();
        assert forall|i: int| 0 <= i < a - 1 implies is_space(t[i]) by {
            assert(t[i] == s[i + 1]);
        }
        lemma_trim_start_at(t, a - 1);
        assert(t.subrange(a - 1, t.len() as int) =~= s.subrange(a, s.len() as int));
    } else {
        assert(s.subrange(0, s.len() as int) =~= s);
    }
}

/// Where trimming from the right stops.
proof fn lemma_trim_end_at(s: Seq<char>, b: int)
    requires
        0 <= b <= s.len(),
        forall|i: int| b <= i < s.len() ==> is_space(s[i]),
        b > 0 ==> !is_space(s[b - 1]),
    ensures
        trim_end(s) == s.subrange(0, b),
    decreases s.len(),
{
    if b < s.len() {
        let t = s.drop_last();
        lemma_trim_end_at(t, b);
        assert(t.subrange(0, b) =~= s.subrange(0, b));
    } else {
        assert(s.subrange(0, b) =~= s);
    }
}

/// The text without its leading and trailing white space.
pub fn trim(s: &str) -> (r: String)
    ensures
        r@ == trimmed(s@),
{
    let x = chars_of(s);
    let n: usize = x.len();
    let mut a: usize = 0;
    while a < n && char_is_space(x[a])
        invariant
            n == x.len(),
            a <= n,
            forall|i: int| 0 <= i < a ==> is_space(x@[i]),
        decreases n - a,
    {
        a = a + 1;
    }
    let mut b: usize = n;
    while a < b && char_is_space(x[b - 1])
        invariant
            n == x.len(),
            a <= b <= n,
            forall|i: int| b <= i < n ==> is_space(x@[i]),
        decreases b,
    {
        b = b - 1;
    }
    proof {
        lemma_trim_start_at(s@, a as int);
        let t = s@.subrange(a as int, n as int);
        assert forall|i: int| b - a <= i < t.len() implies is_space(t[i]) by {
            assert(t[i] == x@[a + i]);
        }
        lemma_trim_end_at(t, b - a);
        assert(t.subrange(0, b - a) =~= s@.subrange(a as int, b as int));
    }
    s.substring_char(a, b).to_string()
}

// ---------------------------------------------------------------------------
// Splitting
// ---------------------------------------------------------------------------

/// The pieces of `s` between the occurrences of `sep`: one more than there are
/// separators.
pub open spec fn split(s: Seq<char>, sep: char) -> Seq<Seq<char>>
    decreases s.len(),
{
    if s.len() == 0 {
        seq![Seq::empty()]
    } else {
        let pieces = split(s.drop_last(), sep);
        if s.last() == sep {
            pieces.push(Seq::empty())
        } else {
            pieces.drop_last().push(pieces.last().push(s.last()))
        }
    }
}

/// `s` without one trailing carriage return.
pub open spec fn strip_cr(s: Seq<char>) -> Seq<char> {
    if s.len() > 0 && s.last() == '\r' {
        s.drop_last()
    } else {
        s
    }
}

/// The lines of `s`: what stands before each `\n`, without one `\r` at its end,
/// and what stands behind the last `\n` unless that is empty.
pub open spec fn lines(s: Seq<char>) -> Seq<Seq<char>> {
    let pieces = split(s, '\n');
    let full = Seq::new((pieces.len() - 1) as nat, |i: int| strip_cr(pieces[i]));
    if pieces.last().len() == 0 {
        full
    } else {
        full.push(pieces.last())
    }
}

/// A text without a separator is its own only piece.
pub proof fn text_without_separator_is_one_piece(s: Seq<char>, sep: char)
    requires
        !s.contains(sep),
    ensures
        split(s, sep) == seq![s],
    decreases s.len(),
{
    if s.len() > 0 {
        assert forall|i: int| 0 <= i < s.drop_last().len() implies s.drop_last()[i] != sep by {
            assert(s.contains(s[i]));
        }
        text_without_separator_is_one_piece(s.drop_last(), sep);
        assert(s.contains(s.last()));
        assert(s.drop_last().push(s.last()) =~= s);
        assert(split(s, sep) =~= seq![s]);
    } else {
        assert(s =~= Seq::<char>::empty());
        assert(split(s, sep) =~= seq![s]);
    }
}

/// Two texts without a separator, put together with one, are split into the two
/// again.
pub proof fn joined_pieces_are_split_again(a: Seq<char>, b: Seq<char>, sep: char)
    requires
        !a.contains(sep),
        !b.contains(sep),
    ensures
        split(a.push(sep) + b, sep) == seq![a, b],
    decreases b.len(),
{
    let s = a.push(sep) + b;
    if b.len() == 0 {
        text_without_separator_is_one_piece(a, sep);
        assert(s.drop_last() =~= a);
        assert(b =~= Seq::<char>::empty());
        assert(split(s, sep) =~= seq![a, b]);
    } else {
        assert forall|i: int| 0 <= i < b.drop_last().len() implies b.drop_last()[i] != sep by {
            assert(b.contains(b[i]));
        }
        joined_pieces_are_split_again(a, b.drop_last(), sep);
        assert(s.drop_last() =~= a.push(sep) + b.drop_last());
        assert(b.contains(b.last()));
        assert(b.drop_last().push(b.last()) =~= b);
        assert(seq![a, b.drop_last()].drop_last() =~= seq![a]);
        assert(split(s, sep) =~= seq![a, b]);
    }
}

pub fn split_at_char(s: &str, sep: char) -> (r: Vec<String>)
    ensures
        texts(r@) == split(s@, sep),
        r.len() >= 1,
{
    let x = chars_of(s);
    let mut done: Vec<String> = Vec::new();
    let mut current: String = String::new();
    assert(texts(done@).push(current@) =~= split(x@.take(0), sep));
    for i in 0..x.len()
        invariant
            texts(done@).push(current@) == split(x@.take(i as int), sep),
    {
        let ghost before = texts(done@);
        let ghost head = current@;
        proof {
            assert(x@.take(i + 1).drop_last() =~= x@.take(i as int));
            assert(x@.take(i + 1).last() == x@[i as int]);
            assert(before.push(head).drop_last() =~= before);
            assert(before.push(head).last() == head);
        }
        if x[i] == sep {
            done.push(current);
            current = String::new();
            assert(texts(done@) =~= before.push(head));
        } else {
            current.push(x[i]);
        }
    }
    assert(x@.take(x@.len() as int) =~= s@);
    let ghost before = texts(done@);
    let ghost head = current@;
    done.push(current);
    assert(texts(done@) =~= before.push(head));
    done
}

pub fn lines_of(s: &str) -> (r: Vec<String>)
    ensures
        texts(r@) == lines(s@),
{
    let pieces = split_at_char(s, '\n');
    let n: usize = pieces.len();
    let mut r: Vec<String> = Vec::new();
    for i in 0..n - 1
        invariant
            n == pieces.len(),
            n >= 1,
            r.len() == i,
            forall|j: int| 0 <= j < i ==> r@[j]@ == strip_cr(#[trigger] pieces@[j]@),
    {
        let piece = &pieces[i];
        let len: usize = piece.as_str().unicode_len();
        if len > 0 && piece.as_str().get_char(len - 1) == '\r' {
            let stripped = piece.as_str().substring_char(0, len - 1).to_string();
            assert(stripped@ =~= piece@.drop_last());
            r.push(stripped);
        } else {
            r.push(piece.clone());
        }
    }
    let ghost full = Seq::new((n - 1) as nat, |i: int| strip_cr(split(s@, '\n')[i]));
    assert forall|j: int| 0 <= j < n - 1 implies texts(r@)[j] == full[j] by {
        assert(texts(pieces@)[j] == pieces@[j]@);
    }
    assert(texts(r@) =~= full);
    let tail = pieces[n - 1].clone();
    assert(tail@ == split(s@, '\n').last());
    if !tail.as_str().is_empty() {
        r.push(tail);
        assert(texts(r@) =~= full.push(tail@));
    }
    r
}

// ---------------------------------------------------------------------------
// Integers in decimal
// ---------------------------------------------------------------------------

/// The decimal digits of `n`, without leading zeros.
pub open spec fn decimal(n: nat) -> Seq<char>
    decreases n,
{
    if n < 10 {
        seq![digit_char(n as int)]
    } else {
        decimal(n / 10).push(digit_char((n % 10) as int))
    }
}

/// `i` in decimal, with a leading `-` where it is negative.
pub open spec fn signed_decimal(i: int) -> Seq<char> {
    if i < 0 {
        seq!['-'] + decimal((-i) as nat)
    } else {
        decimal(i as nat)
    }
}

/// A number in decimal is one or more digits, which stand for that number.
pub proof fn decimal_writes_its_number(n: nat)
    ensures
        decimal(n).len() > 0,
        all_digits(decimal(n)),
        digits_value(decimal(n)) == n,
    decreases n,
{
    if n >= 10 {
        decimal_writes_its_number(n / 10);
        let head = decimal(n / 10);
        let s = decimal(n);
        assert(s.drop_last() =~= head);
        assert forall|i: int| 0 <= i < s.len() implies is_digit(#[trigger] s[i]) by {
            if i < head.len() {
                assert(s[i] == head[i]);
            }
        }
    } else {
        let s = decimal(n);
        assert(s.drop_last() =~= Seq::<char>::empty());
        assert(digits_value(s.drop_last()) == 0);
    }
}

fn push_decimal(out: &mut String, n: u128)
    ensures
        final(out)@ == old(out)@ + decimal(n as nat),
    decreases n,
{
    if n >= 10 {
        push_decimal(out, n / 10);
    }
    let ghost mid = out@;
    out.push(char_of_digit((n % 10) as u8));
    proof {
        if n >= 10 {
            assert(out@ =~= old(out)@ + decimal(n as nat / 10).push(digit_char((n % 10) as int)));
        } else {
            assert(out@ =~= old(out)@ + seq![digit_char(n as int)]);
        }
    }
}

pub fn decimal_text(n: u128) -> (r: String)
    ensures
        r@ == decimal(n as nat),
{
    let mut r: String = String::new();
    push_decimal(&mut r, n);
    assert(r@ =~= decimal(n as nat));
    r
}

pub fn signed_decimal_text(i: i64) -> (r: String)
    ensures
        r@ == signed_decimal(i as int),
{
    let mut r: String = String::new();
    if i < 0 {
        r.push('-');
        assert(r@ =~= seq!['-']);
        push_decimal(&mut r, (-(i as i128)) as u128);
    } else {
        push_decimal(&mut r, i as u128);
        assert(r@ =~= decimal(i as nat));
    }
    r
}

/// The two lower-case hexadecimal digits of a byte.
pub open spec fn hex_byte(b: u8) -> Seq<char> {
    seq![hex_char(b as int / 16), hex_char(b as int % 16)]
}

pub fn push_hex_byte(out: &mut String, b: u8)
    ensures
        final(out)@ == old(out)@ + hex_byte(b),
{
    out.push(char_of_hex(b / 16));
    out.push(char_of_hex(b % 16));
    assert(out@ =~= old(out)@ + hex_byte(b));
}

/// The number that a sequence of decimal digits stands for.
pub open spec fn digits_value(s: Seq<char>) -> nat
    decreases s.len(),
{
    if s.len() == 0 {
        0
    } else {
        digits_value(s.drop_last()) * 10 + digit_value(s.last()) as nat
    }
}

pub open spec fn all_digits(s: Seq<char>) -> bool {
    forall|i: int| 0 <= i < s.len() ==> is_digit(#[trigger] s[i])
}

/// `s` without one leading `+`.
pub open spec fn strip_plus(s: Seq<char>) -> Seq<char> {
    if s.len() > 0 && s[0] == '+' {
        s.drop_first()
    } else {
        s
    }
}

/// The unsigned integer that `s` writes: an optional `+` and at least one decimal
/// digit, where the value does not exceed `max`.
pub open spec fn unsigned_value(s: Seq<char>, max: nat) -> Option<nat> {
    let d = strip_plus(s);
    if d.len() > 0 && all_digits(d) && digits_value(d) <= max {
        Some(digits_value(d))
    } else {
        None
    }
}

/// More digits never make a smaller number.
proof fn lemma_digits_value_grows(s: Seq<char>, i: int)
    requires
        0 <= i <= s.len(),
        all_digits(s),
    ensures
        digits_value(s.take(i)) <= digits_value(s),
    decreases s.len() - i,
{
    if i == s.len() {
        assert(s.take(i) =~= s);
    } else {
        lemma_digits_value_grows(s, i + 1);
        assert(s.take(i + 1).drop_last() =~= s.take(i));
        assert(s.take(i + 1).last() == s[i]);
    }
}

/// Reads an unsigned decimal integer of at most `max`.
pub fn parse_unsigned(s: &str, max: u64) -> (r: Option<u64>)
    ensures
        match r {
            Some(v) => unsigned_value(s@, max as nat) == Some(v as nat),
            None => unsigned_value(s@, max as nat) is None,
        },
{
    let x = chars_of(s);
    let n: usize = x.len();
    let start: usize = if n > 0 && x[0] == '+' {
        1
    } else {
        0
    };
    let ghost d = strip_plus(s@);
    assert(d =~= x@.subrange(start as int, n as int));
    if start == n {
        return None;
    }
    let mut value: u64 = 0;
    let mut i: usize = start;
    assert(d.take(0) =~= Seq::<char>::empty());
    while i < n
        invariant
            x@ == s@,
            n == x.len(),
            start <= i <= n,
            start < n,
            d == strip_plus(s@),
            d == x@.subrange(start as int, n as int),
            value == digits_value(d.take(i - start)),
            value <= max,
            forall|j: int| 0 <= j < i - start ==> is_digit(#[trigger] d[j]),
        decreases n - i,
    {
        let c = x[i];
        assert(d[i - start] == c);
        if !char_is_digit(c) {
            return None;
        }
        let next: u128 = (value as u128) * 10 + ((c as u8) - 48) as u128;
        proof {
            assert(d.take(i - start + 1).drop_last() =~= d.take(i - start));
            assert(next == digits_value(d.take(i - start + 1)));
        }
        if next > max as u128 {
            proof {
                if all_digits(d) {
                    lemma_digits_value_grows(d, i - start + 1);
                }
            }
            return None;
        }
        value = next as u64;
        i = i + 1;
    }
    assert(d.take(n - start) =~= d);
    Some(value)
}

/// Why a text is not an integer.
#[derive(Debug, Clone, Copy, PartialEq, Eq, Structural)]
pub enum IntegerError {
    Empty,
    InvalidDigit,
    TooLarge,
    TooSmall,
}

impl IntegerError {
    pub open spec fn text(self) -> Seq<char> {
        match self {
            IntegerError::Empty => "cannot parse integer from empty string"@,
            IntegerError::InvalidDigit => "invalid digit found in string"@,
            IntegerError::TooLarge => "number too large to fit in target type"@,
            IntegerError::TooSmall => "number too small to fit in target type"@,
        }
    }

    pub fn message(&self) -> (r: String)
        ensures
            r@ == self.text(),
    {
        match self {
            IntegerError::Empty => "cannot parse integer from empty string".to_string(),
            IntegerError::InvalidDigit => "invalid digit found in string".to_string(),
            IntegerError::TooLarge => "number too large to fit in target type".to_string(),
            IntegerError::TooSmall => "number too small to fit in target type".to_string(),
        }
    }
}

/// What the digits `d` write as a 64-bit integer, negated where `negative`. Of
/// several faults the leftmost one counts.
pub open spec fn scan_i64(negative: bool, d: Seq<char>) -> Result<int, IntegerError>
    decreases d.len(),
{
    if d.len() == 0 {
        Ok(0int)
    } else {
        match scan_i64(negative, d.drop_last()) {
            Err(e) => Err(e),
            Ok(v) => {
                let w = if negative {
                    v * 10 - digit_value(d.last())
                } else {
                    v * 10 + digit_value(d.last())
                };
                if !is_digit(d.last()) {
                    Err(IntegerError::InvalidDigit)
                } else if w > i64::MAX {
                    Err(IntegerError::TooLarge)
                } else if w < i64::MIN {
                    Err(IntegerError::TooSmall)
                } else {
                    Ok(w)
                }
            },
        }
    }
}

/// The 64-bit integer that `s` writes: an optional sign and at least one decimal
/// digit.
pub open spec fn i64_value(s: Seq<char>) -> Result<int, IntegerError> {
    if s.len() == 0 {
        Err(IntegerError::Empty)
    } else if s[0] == '-' || s[0] == '+' {
        if s.len() == 1 {
            Err(IntegerError::InvalidDigit)
        } else {
            scan_i64(s[0] == '-', s.drop_first())
        }
    } else {
        scan_i64(false, s)
    }
}

proof fn lemma_scan_stops(negative: bool, d: Seq<char>, i: int)
    requires
        0 <= i <= d.len(),
        scan_i64(negative, d.take(i)) is Err,
    ensures
        scan_i64(negative, d) == scan_i64(negative, d.take(i)),
    decreases d.len() - i,
{
    if i == d.len() {
        assert(d.take(i) =~= d);
    } else {
        assert(d.take(i + 1).drop_last() =~= d.take(i));
        lemma_scan_stops(negative, d, i + 1);
    }
}

/// Reads a signed 64-bit decimal integer.
pub fn parse_i64(s: &str) -> (r: Result<i64, IntegerError>)
    ensures
        match r {
            Ok(v) => i64_value(s@) == Ok::<int, IntegerError>(v as int),
            Err(e) => i64_value(s@) == Err::<int, IntegerError>(e),
        },
{
    let x = chars_of(s);
    let n: usize = x.len();
    if n == 0 {
        return Err(IntegerError::Empty);
    }
    let signed = x[0] == '-' || x[0] == '+';
    let negative = x[0] == '-';
    if signed && n == 1 {
        return Err(IntegerError::InvalidDigit);
    }
    let start: usize = if signed {
        1
    } else {
        0
    };
    let ghost d = x@.subrange(start as int, n as int);
    proof {
        if signed {
            assert(d =~= s@.drop_first());
        } else {
            assert(d =~= s@);
        }
        assert(d.take(0) =~= Seq::<char>::empty());
    }
    let mut value: i64 = 0;
    let mut i: usize = start;
    while i < n
        invariant
            x@ == s@,
            n == x.len(),
            start <= i <= n,
            d == x@.subrange(start as int, n as int),
            i64_value(s@) == scan_i64(negative, d),
            scan_i64(negative, d.take(i - start)) == Ok::<int, IntegerError>(value as int),
        decreases n - i,
    {
        let c = x[i];
        proof {
            assert(d[i - start] == c);
            assert(d.take(i - start + 1).drop_last() =~= d.take(i - start));
            assert(d.take(i - start + 1).last() == c);
        }
        if !char_is_digit(c) {
            proof {
                lemma_scan_stops(negative, d, i - start + 1);
            }
            return Err(IntegerError::InvalidDigit);
        }
        let digit: i128 = ((c as u8) - 48) as i128;
        let next: i128 = if negative {
            (value as i128) * 10 - digit
        } else {
            (value as i128) * 10 + digit
        };
        if next > i64::MAX as i128 {
            proof {
                lemma_scan_stops(negative, d, i - start + 1);
            }
            return Err(IntegerError::TooLarge);
        }
        if next < i64::MIN as i128 {
            proof {
                lemma_scan_stops(negative, d, i - start + 1);
            }
            return Err(IntegerError::TooSmall);
        }
        value = next as i64;
        i = i + 1;
    }
    assert(d.take(n - start) =~= d);
    Ok(value)
}

// ---------------------------------------------------------------------------
// What is written is read back
// ---------------------------------------------------------------------------

/// A number that was written in decimal is read back, with or without a plus sign in
/// front of it, wherever it is small enough.
pub proof fn written_number_is_read_back(n: nat, max: nat)
    ensures
        n <= max ==> unsigned_value(decimal(n), max) == Some(n),
        n <= max ==> unsigned_value(seq!['+'] + decimal(n), max) == Some(n),
        n > max ==> unsigned_value(decimal(n), max) is None,
{
    decimal_writes_its_number(n);
    let s = decimal(n);
    assert(is_digit(s[0]));
    assert(strip_plus(s) == s);
    assert((seq!['+'] + s).drop_first() =~= s);
}

/// Two different numbers never look the same in decimal.
pub proof fn decimals_are_distinct(a: nat, b: nat)
    requires
        decimal(a) == decimal(b),
    ensures
        a == b,
{
    decimal_writes_its_number(a);
    decimal_writes_its_number(b);
}

proof fn lemma_scan_reads_decimal(negative: bool, n: nat)
    requires
        if negative {
            -(n as int) >= i64::MIN
        } else {
            n <= i64::MAX
        },
    ensures
        scan_i64(negative, decimal(n)) == Ok::<int, IntegerError>(
            if negative {
                -(n as int)
            } else {
                n as int
            },
        ),
    decreases n,
{
    let s = decimal(n);
    if n >= 10 {
        lemma_scan_reads_decimal(negative, n / 10);
        assert(s.drop_last() =~= decimal(n / 10));
    } else {
        assert(s.drop_last() =~= Seq::<char>::empty());
        assert(scan_i64(negative, s.drop_last()) == Ok::<int, IntegerError>(0int));
    }
}

/// A signed number that was written in decimal is read back, over the whole range of 64
/// bits.
pub proof fn written_integer_is_read_back(v: i64)
    ensures
        i64_value(signed_decimal(v as int)) == Ok::<int, IntegerError>(v as int),
{
    let s = signed_decimal(v as int);
    if v < 0 {
        let n = (-(v as int)) as nat;
        decimal_writes_its_number(n);
        lemma_scan_reads_decimal(true, n);
        assert(s.drop_first() =~= decimal(n));
    } else {
        decimal_writes_its_number(v as nat);
        lemma_scan_reads_decimal(false, v as nat);
        assert(is_digit(s[0]));
    }
}

/// What is read as an unsigned number holds digits only, behind at most one plus sign,
/// and does not exceed the limit.
pub proof fn unsigned_numbers_are_digits(s: &str, max: u64, r: Option<u64>)
    requires
        call_ensures(parse_unsigned, (s, max), r),
    ensures
        r matches Some(v) ==> v <= max && s@.len() > 0 && ('0' <= s@.last() <= '9') && (forall|
            i: int,
        |
            0 < i < s@.len() ==> '0' <= #[trigger] s@[i] <= '9') && ('0' <= s@[0] <= '9' || s@[0]
            == '+'),
        forall|n: u64| s@ == #[trigger] decimal(n as nat) && n <= max ==> r == Some(n),
        forall|n: u64| s@ == #[trigger] decimal(n as nat) && n > max ==> r is None,
{
    if r is Some {
        let d = strip_plus(s@);
        assert forall|i: int| 0 < i < s@.len() implies '0' <= #[trigger] s@[i] <= '9' by {
            if s@[0] == '+' {
                assert(s@[i] == d[i - 1]);
            } else {
                assert(s@[i] == d[i]);
            }
        }
        if s@[0] == '+' {
            assert(d.last() == s@.last());
        } else {
            assert(is_digit(d[0]));
            assert(is_digit(d[d.len() - 1]));
        }
    }
    assert forall|n: u64| s@ == #[trigger] decimal(n as nat) && n <= max implies r == Some(n) by {
        written_number_is_read_back(n as nat, max as nat);
    }
    assert forall|n: u64| s@ == #[trigger] decimal(n as nat) && n > max implies r is None by {
        written_number_is_read_back(n as nat, max as nat);
    }
}

/// A signed integer is read back as it was written, and nothing is read from a text
/// that is empty or holds a character that is no digit behind its first one.
pub proof fn integers_are_read_exactly(s: &str, r: Result<i64, IntegerError>)
    requires
        call_ensures(parse_i64, (s,), r),
    ensures
        forall|v: i64| s@ == #[trigger] signed_decimal(v as int) ==> r == Ok::<i64, IntegerError>(v),
        s@.len() == 0 <==> r == Err::<i64, IntegerError>(IntegerError::Empty),
        forall|i: int| 0 < i < s@.len() && !('0' <= #[trigger] s@[i] <= '9') ==> r is Err,
        s@.len() > 0 && !('0' <= s@[0] <= '9') && s@[0] != '+' && s@[0] != '-' ==> r is Err,
{
    assert forall|v: i64| s@ == #[trigger] signed_decimal(v as int) implies r == Ok::<
        i64,
        IntegerError,
    >(v) by {
        written_integer_is_read_back(v);
    }
    if s@.len() > 0 {
        let signed = s@[0] == '-' || s@[0] == '+';
        let d = if signed {
            s@.drop_first()
        } else {
            s@
        };
        let negative = s@[0] == '-';
        lemma_scan_is_never_empty(negative, d);
        if r is Ok {
            assert(scan_i64(negative, d) is Ok);
            lemma_scanned_digits(negative, d);
            assert forall|i: int| 0 < i < s@.len() implies '0' <= #[trigger] s@[i] <= '9' by {
                if signed {
                    assert(d[i - 1] == s@[i]);
                } else {
                    assert(d[i] == s@[i]);
                }
            }
            if !signed {
                assert(is_digit(d[0]));
            }
        }
    }
}

proof fn lemma_scan_is_never_empty(negative: bool, d: Seq<char>)
    ensures
        scan_i64(negative, d) != Err::<int, IntegerError>(IntegerError::Empty),
    decreases d.len(),
{
    if d.len() > 0 {
        lemma_scan_is_never_empty(negative, d.drop_last());
    }
}

proof fn lemma_scanned_digits(negative: bool, d: Seq<char>)
    requires
        scan_i64(negative, d) is Ok,
    ensures
        all_digits(d),
    decreases d.len(),
{
    if d.len() > 0 {
        lemma_scanned_digits(negative, d.drop_last());
        assert forall|i: int| 0 <= i < d.len() implies is_digit(#[trigger] d[i]) by {
            if i < d.len() - 1 {
                assert(d.drop_last()[i] == d[i]);
            }
        }
    }
}

/// A byte's two hexadecimal digits are lower-case ones, the higher one first, and tell
/// it from every other byte.
pub proof fn hex_tells_bytes_apart(a: u8, b: u8)
    ensures
        hex_byte(a).len() == 2,
        forall|i: int|
            0 <= i < 2 ==> '0' <= #[trigger] hex_byte(a)[i] <= '9' || 'a' <= hex_byte(a)[i] <= 'f',
        hex_byte(a) == hex_byte(b) ==> a == b,
        a < 160 && b >= 160 ==> hex_byte(a)[0] != hex_byte(b)[0],
        a < b && a / 16 == b / 16 ==> (hex_byte(a)[1] as int) < hex_byte(b)[1] as int,
        a / 16 < b / 16 ==> (hex_byte(a)[0] as int) < hex_byte(b)[0] as int,
{
    let x = hex_byte(a);
    let y = hex_byte(b);
    assert(x[0] == hex_char(a as int / 16) && x[1] == hex_char(a as int % 16));
    assert(y[0] == hex_char(b as int / 16) && y[1] == hex_char(b as int % 16));
}

/// Trimming drops white space from both ends and nothing else: what is left begins and
/// ends with another character, and only white space stood around it.
pub proof fn trimming_drops_only_space(s: &str, r: String)
    requires
        call_ensures(trim, (s,), r),
    ensures
        r@.len() > 0 ==> !is_space(r@[0]) && !is_space(r@.last()),
        exists|a: int, b: int|
            0 <= a <= b <= s@.len() && r@ == #[trigger] s@.subrange(a, b) && (forall|i: int|
                0 <= i < a || b <= i < s@.len() ==> is_space(#[trigger] s@[i])),
        forall|c: char| c == ' ' || c == '\t' || c == '\n' || c == '\r' ==> #[trigger] is_space(c),
        forall|c: char| '!' <= c <= '~' ==> !#[trigger] is_space(c),
{
    let t = trim_start(s@);
    let a = lemma_trim_start_is_suffix(s@);
    let b = lemma_trim_end_is_prefix(t);
    let m = trim_end(t);
    assert(m =~= s@.subrange(a, a + b));
    assert forall|i: int| 0 <= i < a || a + b <= i < s@.len() implies is_space(
        #[trigger] s@[i],
    ) by {
        if i >= a + b {
            assert(t[i - a] == s@[i]);
        }
    }
    if m.len() > 0 {
        assert(m[0] == t[0]);
    }
}

proof fn lemma_trim_start_is_suffix(s: Seq<char>) -> (a: int)
    ensures
        0 <= a <= s.len(),
        trim_start(s) == s.subrange(a, s.len() as int),
        forall|i: int| 0 <= i < a ==> is_space(#[trigger] s[i]),
        trim_start(s).len() > 0 ==> !is_space(trim_start(s)[0]),
    decreases s.len(),
{
    if s.len() > 0 && is_space(s[0]) {
        let rest = s.drop_first();
        let a = lemma_trim_start_is_suffix(rest);
        assert(rest.subrange(a, rest.len() as int) =~= s.subrange(a + 1, s.len() as int));
        assert forall|i: int| 0 <= i < a + 1 implies is_space(#[trigger] s[i]) by {
            if i > 0 {
                assert(rest[i - 1] == s[i]);
            }
        }
        a + 1
    } else {
        assert(s.subrange(0, s.len() as int) =~= s);
        0
    }
}

proof fn lemma_trim_end_is_prefix(s: Seq<char>) -> (b: int)
    ensures
        0 <= b <= s.len(),
        trim_end(s) == s.subrange(0, b),
        forall|i: int| b <= i < s.len() ==> is_space(#[trigger] s[i]),
        trim_end(s).len() > 0 ==> !is_space(trim_end(s).last()),
    decreases s.len(),
{
    if s.len() > 0 && is_space(s.last()) {
        let rest = s.drop_last();
        let b = lemma_trim_end_is_prefix(rest);
        assert(rest.subrange(0, b) =~= s.subrange(0, b));
        assert forall|i: int| b <= i < s.len() implies is_space(#[trigger] s[i]) by {
            if i < s.len() - 1 {
                assert(rest[i] == s[i]);
            }
        }
        b
    } else {
        assert(s.subrange(0, s.len() as int) =~= s);
        s.len() as int
    }
}

// ---------------------------------------------------------------------------
// What is split is put together again
// ---------------------------------------------------------------------------

/// The pieces with a separator between each two.
pub open spec fn joined(pieces: Seq<Seq<char>>, sep: char) -> Seq<char>
    decreases pieces.len(),
{
    if pieces.len() == 0 {
        Seq::empty()
    } else if pieces.len() == 1 {
        pieces[0]
    } else {
        joined(pieces.drop_last(), sep).push(sep) + pieces.last()
    }
}

proof fn lemma_split_pieces(s: Seq<char>, sep: char)
    ensures
        split(s, sep).len() > 0,
        joined(split(s, sep), sep) == s,
        forall|i: int, j: int|
            #![trigger split(s, sep)[i][j]]
            0 <= i < split(s, sep).len() && 0 <= j < split(s, sep)[i].len() ==> split(
                s,
                sep,
            )[i][j] != sep,
    decreases s.len(),
{
    let p = split(s, sep);
    if s.len() == 0 {
        assert(joined(p, sep) =~= s);
    } else {
        let init = s.drop_last();
        let c = s.last();
        let before = split(init, sep);
        lemma_split_pieces(init, sep);
        assert(s =~= init.push(c));
        assert forall|i: int, j: int|
            #![trigger p[i][j]]
            0 <= i < p.len() && 0 <= j < p[i].len() implies p[i][j] != sep by {
            if i < before.len() && (c == sep || i < before.len() - 1) {
                assert(p[i] == before[i]);
                assert(before[i][j] != sep);
            } else if c != sep {
                assert(p[i] == before.last().push(c));
                if j < before.last().len() {
                    assert(before[before.len() - 1][j] != sep);
                }
            }
        }
        if c == sep {
            assert(p.drop_last() =~= before);
            assert(joined(p, sep) =~= s);
        } else if before.len() == 1 {
            assert(p.len() == 1);
            assert(joined(p, sep) =~= s);
        } else {
            assert(p.drop_last() =~= before.drop_last());
            assert(joined(before, sep) == joined(before.drop_last(), sep).push(sep)
                + before.last());
            assert(joined(p, sep) =~= s);
        }
    }
}

/// Splitting loses nothing: no piece holds the separator, and the pieces put together
/// with it are the text again. There is always at least one piece.
pub proof fn splitting_loses_nothing(s: &str, sep: char, r: Vec<String>)
    requires
        call_ensures(split_at_char, (s, sep), r),
    ensures
        r@.len() > 0,
        joined(texts(r@), sep) == s@,
        forall|i: int| 0 <= i < r@.len() ==> !(#[trigger] r@[i])@.contains(sep),
{
    lemma_split_pieces(s@, sep);
    assert forall|i: int| 0 <= i < r@.len() implies !(#[trigger] r@[i])@.contains(sep) by {
        assert(texts(r@)[i] == r@[i]@);
        assert forall|j: int| 0 <= j < r@[i]@.len() implies r@[i]@[j] != sep by {
            assert(split(s@, sep)[i][j] != sep);
        }
    }
}

/// What stands before the first separator is the first piece.
pub proof fn first_piece_ends_at_the_separator(s: Seq<char>, sep: char, p: int)
    requires
        0 <= p < s.len(),
        s[p] == sep,
        forall|j: int| 0 <= j < p ==> #[trigger] s[j] != sep,
    ensures
        split(s, sep).len() >= 2,
        split(s, sep)[0] == s.take(p),
    decreases s.len(),
{
    let init = s.drop_last();
    if p == s.len() - 1 {
        assert forall|j: int| 0 <= j < init.len() implies init[j] != sep by {
            assert(init[j] == s[j]);
        }
        text_without_separator_is_one_piece(init, sep);
        assert(s.take(p) =~= init);
    } else {
        assert forall|j: int| 0 <= j < p implies #[trigger] init[j] != sep by {
            assert(init[j] == s[j]);
        }
        first_piece_ends_at_the_separator(init, sep, p);
        assert(init.take(p) =~= s.take(p));
    }
}

// ---------------------------------------------------------------------------
// What the operations promise
// ---------------------------------------------------------------------------

/// White space is what Unicode calls so: the tab and line characters, the blank, the next
/// line and no-break space, the spaces of typography, and the ideographic one.
pub proof fn white_space_is_unicodes(c: char, r: bool)
    requires
        call_ensures(char_is_space, (c,), r),
    ensures
        ({
            let n = c as int;
            r <==> 9 <= n <= 13 || n == 32 || n == 0x85 || n == 0xa0 || n == 0x1680 || 0x2000 <= n
                <= 0x200a || n == 0x2028 || n == 0x2029 || n == 0x202f || n == 0x205f || n == 0x3000
        }),
{
}

/// Upper case moves the letters from `a` to `z` up by 32, and keeps every other character.
pub proof fn upper_case_is_ascii(c: char, r: char)
    requires
        call_ensures(char_upper, (c,), r),
    ensures
        97 <= c as int <= 122 ==> r as int == c as int - 32,
        !(97 <= c as int <= 122) ==> r == c,
{
}

/// The last digit of a number in decimal is its remainder by ten, and the digits before it
/// are those of a tenth of it.
pub proof fn decimal_goes_by_tens(n: u128, r: String, tenth: String)
    requires
        call_ensures(decimal_text, (n,), r),
        call_ensures(decimal_text, ((n / 10) as u128,), tenth),
    ensures
        r@.len() > 0,
        r@.last() as int == 48 + n % 10,
        n < 10 ==> r@.len() == 1,
        n >= 10 ==> r@.drop_last() == tenth@,
{
    if n >= 10 {
        assert(r@.drop_last() =~= decimal((n / 10) as nat));
    }
}

/// A negative number in decimal is a minus sign and the digits of the positive one.
pub proof fn negative_numbers_have_a_sign(i: i64, digits: String, r: String)
    requires
        call_ensures(signed_decimal_text, (i,), r),
        i < 0,
        call_ensures(decimal_text, ((-(i as int)) as u128,), digits),
    ensures
        r@ == seq!['-'] + digits@,
{
}

/// A prefix, a suffix and a part of a text are told by its characters, one by one.
pub proof fn parts_are_compared_by_character(
    s: &str,
    part: &str,
    at: int,
    begins: bool,
    ends: bool,
    holds: bool,
    same: bool,
)
    requires
        call_ensures(starts_with, (s, part), begins),
        call_ensures(ends_with, (s, part), ends),
        call_ensures(contains_text, (s, part), holds),
        call_ensures(same_text, (s, part), same),
    ensures
        begins <==> part@.len() <= s@.len() && forall|i: int|
            0 <= i < part@.len() ==> #[trigger] s@[i] == part@[i],
        ends <==> part@.len() <= s@.len() && forall|i: int|
            0 <= i < part@.len() ==> #[trigger] part@[i] == s@[s@.len() - part@.len() + i],
        same <==> part@.len() == s@.len() && forall|i: int|
            0 <= i < part@.len() ==> #[trigger] s@[i] == part@[i],
        0 <= at <= s@.len() - part@.len() && (forall|i: int|
            0 <= i < part@.len() ==> #[trigger] part@[i] == s@[at + i]) ==> holds,
        begins || ends ==> holds,
{
    let (x, p) = (s@, part@);
    if p.len() <= x.len() {
        let head = x.subrange(0, p.len() as int);
        let tail = x.subrange(x.len() - p.len(), x.len() as int);
        if begins {
            assert forall|i: int| 0 <= i < p.len() implies #[trigger] x[i] == p[i] by {
                assert(head[i] == x[i]);
            }
            assert(occurs_at(x, p, 0));
        } else if forall|i: int| 0 <= i < p.len() ==> #[trigger] x[i] == p[i] {
            assert(head =~= p);
        }
        if ends {
            assert forall|i: int| 0 <= i < p.len() implies #[trigger] p[i] == x[x.len() - p.len()
                + i] by {
                assert(tail[i] == x[x.len() - p.len() + i]);
            }
            assert(occurs_at(x, p, x.len() - p.len()));
        } else if forall|i: int| 0 <= i < p.len() ==> #[trigger] p[i] == x[x.len() - p.len() + i] {
            assert(tail =~= p);
        }
        if p.len() == x.len() && !same {
            if forall|i: int| 0 <= i < p.len() ==> #[trigger] x[i] == p[i] {
                assert(x =~= p);
            }
        }
        if 0 <= at <= x.len() - p.len() && (forall|i: int|
            0 <= i < p.len() ==> #[trigger] p[i] == x[at + i]) {
            assert(x.subrange(at, at + p.len()) =~= p);
            assert(occurs_at(x, p, at));
        }
    }
}

/// A text of one line without a line end is that line; a line end, with or without a
/// carriage return before it, is no part of the line and begins no other one.
pub proof fn line_ends_are_dropped(line: Seq<char>, s: &str, r: Vec<String>)
    requires
        call_ensures(lines_of, (s,), r),
        line.len() > 0,
        !line.contains('\n'),
        line.last() != '\r',
        s@ == line || s@ == line.push('\n') || s@ == line.push('\r').push('\n'),
    ensures
        r@.len() == 1,
        r@[0]@ == line,
{
    let empty = Seq::<char>::empty();
    let all = lines(s@);
    if s@ == line {
        text_without_separator_is_one_piece(line, '\n');
        assert(all =~= seq![line]);
    } else if s@ == line.push('\n') {
        joined_pieces_are_split_again(line, empty, '\n');
        assert(line.push('\n') + empty =~= s@);
        assert(strip_cr(line) == line);
        assert(all =~= seq![line]);
    } else {
        let first = line.push('\r');
        assert forall|i: int| 0 <= i < first.len() implies first[i] != '\n' by {
            if i < line.len() {
                assert(line.contains(line[i]));
            }
        }
        joined_pieces_are_split_again(first, empty, '\n');
        assert(first.push('\n') + empty =~= s@);
        assert(first.drop_last() =~= line);
        assert(strip_cr(first) == line);
        assert(all =~= seq![line]);
    }
    assert(texts(r@).len() == r@.len());
    assert(texts(r@)[0] == r@[0]@);
}

/// Two lines are told apart by the line end between them.
pub proof fn two_lines_are_two(a: Seq<char>, b: Seq<char>, s: &str, r: Vec<String>)
    requires
        call_ensures(lines_of, (s,), r),
        !a.contains('\n'),
        a.len() > 0 ==> a.last() != '\r',
        !b.contains('\n'),
        b.len() > 0,
        s@ == a.push('\n') + b,
    ensures
        r@.len() == 2,
        r@[0]@ == a,
        r@[1]@ == b,
{
    joined_pieces_are_split_again(a, b, '\n');
    assert(strip_cr(a) == a);
    assert(lines(s@) =~= seq![a, b]);
    assert(texts(r@).len() == r@.len());
    assert(texts(r@)[0] == r@[0]@ && texts(r@)[1] == r@[1]@);
}

/// Why a text is no integer, in words.
pub proof fn integer_faults_in_words(e: &IntegerError, r: String)
    requires
        call_ensures(IntegerError::message, (e,), r),
    ensures
        *e == IntegerError::Empty ==> r@ == "cannot parse integer from empty string"@,
        *e == IntegerError::InvalidDigit ==> r@ == "invalid digit found in string"@,
        *e == IntegerError::TooLarge ==> r@ == "number too large to fit in target type"@,
        *e == IntegerError::TooSmall ==> r@ == "number too small to fit in target type"@,
{
}

} // verus!
