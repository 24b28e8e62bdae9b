//! Text as a sequence of characters: the operations on strings that the rest
//! of the library is built from, each with an exact meaning over `Seq<char>`.

use vstd::prelude::*;
use vstd::string::*;

verus! {

/// `String::push` appends one character, as its documentation says.
pub assume_specification[ String::push ](s: &mut String, c: char)
    ensures
        final(s)@ == old(s)@.push(c),
;

/// The characters of a string, in order.
pub fn chars_of(s: &str) -> (r: Vec<char>)
    ensures
        r@ == s@,
{
    let mut out: Vec<char> = Vec::new();
    for c in it: s.chars()
        invariant
            out@ == s@.take(it.index() as int),
            it.seq() == s@,
    {
        proof {
            assert(s@.take(it.index() as int).push(c) == s@.take(it.index() as int + 1));
        }
        out.push(c);
    }
    assert(s@.take(s@.len() as int) == s@);
    out
}

/// The string that holds the characters `v[from..to]`.
pub fn string_of(v: &Vec<char>, from: usize, to: usize) -> (r: String)
    requires
        from <= to <= v@.len(),
    ensures
        r@ == v@.subrange(from as int, to as int),
{
    let mut out = String::new();
    let mut i: usize = from;
    while i < to
        invariant
            from <= i <= to <= v@.len(),
            out@ == v@.subrange(from as int, i as int),
        decreases to - i,
    {
        out.push(v[i]);
        i += 1;
        assert(v@.subrange(from as int, i as int) == v@.subrange(from as int, i - 1).push(v@[i - 1]));
    }
    out
}

/// Whether two strings hold the same characters.
pub fn str_eq(a: &str, b: &str) -> (r: bool)
    ensures
        r == (a@ == b@),
{
    let x = chars_of(a);
    let y = chars_of(b);
    chars_eq(&x, &y)
}

/// Whether two lists of characters are the same.
pub fn chars_eq(x: &Vec<char>, y: &Vec<char>) -> (r: bool)
    ensures
        r == (x@ == y@),
{
    if x.len() != y.len() {
        return false;
    }
    let mut i: usize = 0;
    while i < x.len()
        invariant
            i <= x@.len() == y@.len(),
            forall|j: int| 0 <= j < i ==> x@[j] == y@[j],
        decreases x@.len() - i,
    {
        if x[i] != y[i] {
            return false;
        }
        i += 1;
    }
    assert(x@ =~= y@);
    true
}

/// The decimal digit `d` as a character.
pub open spec fn digit_char(d: nat) -> char {
    (48 + d) as char
}

/// The decimal notation of a natural number.
pub open spec fn decimal(n: nat) -> Seq<char>
    decreases n,
{
    if n < 10 {
        seq![digit_char(n)]
    } else {
        decimal(n / 10).push(digit_char(n % 10))
    }
}

/// Appends the decimal notation of `n`.
pub fn push_decimal(out: &mut String, n: u128)
    ensures
        final(out)@ == old(out)@ + decimal(n as nat),
    decreases n,
{
    if n >= 10 {
        push_decimal(out, n / 10);
    }
    let d: u8 = 48 + (n % 10) as u8;
    out.push(d as char);
    assert(final(out)@ =~= old(out)@ + decimal(n as nat));
}

/// Decimal notation of `n` as a string of its own.
pub fn decimal_string(n: u128) -> (r: String)
    ensures
        r@ == decimal(n as nat),
{
    let mut out = String::new();
    push_decimal(&mut out, n);
    assert(out@ =~= decimal(n as nat));
    out
}

/// The decimal notation of an integer, with a minus sign where it is negative.
pub open spec fn signed_decimal(n: int) -> Seq<char> {
    if n < 0 {
        seq!['-'] + decimal((-n) as nat)
    } else {
        decimal(n as nat)
    }
}

/// Appends the decimal notation of a signed number.
pub fn push_signed(out: &mut String, n: i64)
    ensures
        final(out)@ == old(out)@ + signed_decimal(n as int),
{
    if n < 0 {
        out.push('-');
        let m: i128 = -(n as i128);
        push_decimal(out, m as u128);
        assert(final(out)@ =~= old(out)@ + signed_decimal(n as int));
    } else {
        push_decimal(out, n as u128);
    }
}

/// `decimal(n)` filled up with zeros on the left to at least `width` characters.
pub open spec fn zero_padded(n: nat, width: nat) -> Seq<char> {
    let d = decimal(n);
    if d.len() < width {
        Seq::new((width - d.len()) as nat, |i: int| '0') + d
    } else {
        d
    }
}

/// Appends `n` in decimal, filled up with zeros to at least `width` characters.
pub fn push_zero_padded(out: &mut String, n: u128, width: usize)
    ensures
        final(out)@ == old(out)@ + zero_padded(n as nat, width as nat),
{
    let d = decimal_string(n);
    let dv = chars_of(d.as_str());
    let mut k: usize = dv.len();
    let ghost start = out@;
    while k < width
        invariant
            dv@.len() <= k,
            k <= width || k == dv@.len(),
            out@ == start + Seq::new((k - dv@.len()) as nat, |i: int| '0'),
        decreases width - k,
    {
        out.push('0');
        k += 1;
        assert(out@ =~= start + Seq::new((k - dv@.len()) as nat, |i: int| '0'));
    }
    out.append(d.as_str());
    assert(final(out)@ =~= old(out)@ + zero_padded(n as nat, width as nat));
}

/// Whether `c` is an ASCII decimal digit.
pub open spec fn is_digit(c: char) -> bool {
    '0' <= c <= '9'
}

/// Whether `s` is one or more decimal digits.
pub open spec fn is_decimal(s: Seq<char>) -> bool {
    s.len() > 0 && forall|i: int| 0 <= i < s.len() ==> is_digit(#[trigger] s[i])
}

/// The number that a sequence of decimal digits denotes.
pub open spec fn decimal_value(s: Seq<char>) -> nat
    decreases s.len(),
{
    if s.len() == 0 {
        0
    } else {
        decimal_value(s.drop_last()) * 10 + ((s.last() as nat - 48) as nat)
    }
}

/// The number that `s` denotes when read as an unsigned integer of at most
/// `max`: decimal digits, after at most one plus sign.
pub open spec fn unsigned_of(s: Seq<char>, max: nat) -> Option<nat> {
    let body = if s.len() > 0 && s[0] == '+' { s.skip(1) } else { s };
    if is_decimal(body) && decimal_value(body) <= max {
        Some(decimal_value(body))
    } else {
        None
    }
}

pub proof fn lemma_decimal_value_mono(s: Seq<char>, i: int)
    requires
        0 <= i <= s.len(),
    ensures
        decimal_value(s.take(i)) <= decimal_value(s),
    decreases s.len(),
{
    if i == s.len() {
        assert(s.take(i) == s);
    } else {
        lemma_decimal_value_mono(s.drop_last(), i);
        assert(s.drop_last().take(i) == s.take(i));
    }
}

/// The digits `v[from..]` as a number of at most `max`.
fn digits_from(v: &Vec<char>, from: usize, max: u128) -> (r: Option<u128>)
    requires
        from <= v@.len(),
        max >= 9,
    ensures
        match r {
            Some(n) => is_decimal(v@.skip(from as int)) && n == decimal_value(v@.skip(from as int))
                && n <= max,
            None => !is_decimal(v@.skip(from as int)) || decimal_value(v@.skip(from as int)) > max,
        },
{
    let ghost body = v@.skip(from as int);
    if from == v.len() {
        return None;
    }
    let mut acc: u128 = 0;
    let mut i: usize = from;
    while i < v.len()
        invariant
            from <= i <= v@.len(),
            max >= 9,
            body == v@.skip(from as int),
            acc == decimal_value(body.take(i - from)),
            acc <= max,
            forall|j: int| 0 <= j < i - from ==> is_digit(#[trigger] body[j]),
        decreases v@.len() - i,
    {
        let c = v[i];
        assert(body[i - from] == c);
        if !('0' <= c && c <= '9') {
            assert(!is_decimal(body));
            return None;
        }
        let d: u128 = (c as u32 - 48) as u128;
        proof {
            assert(body.take(i - from + 1).drop_last() == body.take(i - from));
            assert(body.take(i - from + 1).last() == c);
            assert(acc * 10 + d == decimal_value(body.take(i - from + 1)));
        }
        if acc > (max - d) / 10 {
            proof {
                lemma_decimal_value_mono(body, i - from + 1);
            }
            return None;
        }
        acc = acc * 10 + d;
        i += 1;
    }
    assert(body.take(i - from) == body);
    Some(acc)
}

/// Reads `s` as an unsigned integer of at most `max`.
pub fn parse_unsigned(s: &str, max: u128) -> (r: Option<u128>)
    requires
        max >= 9,
    ensures
        match r {
            Some(n) => unsigned_of(s@, max as nat) == Some(n as nat),
            None => unsigned_of(s@, max as nat) is None,
        },
{
    let v = chars_of(s);
    if v.len() > 0 && v[0] == '+' {
        digits_from(&v, 1, max)
    } else {
        assert(v@.skip(0) == v@);
        digits_from(&v, 0, max)
    }
}

/// The number that `s` denotes when read as a 64-bit signed integer: decimal
/// digits after at most one sign.
pub open spec fn signed_of(s: Seq<char>) -> Option<int> {
    if s.len() > 0 && s[0] == '-' {
        let body = s.skip(1);
        if is_decimal(body) && decimal_value(body) <= 0x8000_0000_0000_0000 {
            Some(-(decimal_value(body) as int))
        } else {
            None
        }
    } else {
        match unsigned_of(s, 0x7fff_ffff_ffff_ffff) {
            Some(n) => Some(n as int),
            None => None,
        }
    }
}

/// Reads `s` as a 64-bit signed integer.
pub fn parse_i64(s: &str) -> (r: Option<i64>)
    ensures
        match r {
            Some(n) => signed_of(s@) == Some(n as int),
            None => signed_of(s@) is None,
        },
{
    let v = chars_of(s);
    if v.len() > 0 && v[0] == '-' {
        match digits_from(&v, 1, 0x8000_0000_0000_0000) {
            Some(n) => {
                let m: i128 = -(n as i128);
                Some(m as i64)
            },
            None => None,
        }
    } else {
        match parse_unsigned(s, 0x7fff_ffff_ffff_ffff) {
            Some(n) => Some(n as i64),
            None => None,
        }
    }
}

/// Reading the decimal notation of a number gives the number back.
pub proof fn law_decimal_round_trip(n: nat)
    ensures
        is_decimal(decimal(n)),
        decimal_value(decimal(n)) == n,
        n <= u64::MAX ==> unsigned_of(decimal(n), u64::MAX as nat) == Some(n),
    decreases n,
{
    reveal_with_fuel(decimal_value, 2);
    if n >= 10 {
        law_decimal_round_trip(n / 10);
        let d = decimal(n);
        assert(d.drop_last() == decimal(n / 10));
        assert(d.last() == digit_char(n % 10));
        assert forall|i: int| 0 <= i < d.len() implies is_digit(#[trigger] d[i]) by {
            if i < d.len() - 1 {
                assert(d[i] == decimal(n / 10)[i]);
            }
        }
    } else {
        assert(decimal(n).drop_last() =~= Seq::<char>::empty());
    }
    assert(is_digit(decimal(n)[0]));
}

/// Whether `c` has the Unicode property `White_Space`.
pub open spec fn is_space(c: char) -> bool {
    ||| '\u{9}' <= c <= '\u{d}'
    ||| c == ' '
    ||| c == '\u{85}'
    ||| c == '\u{a0}'
    ||| c == '\u{1680}'
    ||| '\u{2000}' <= c <= '\u{200a}'
    ||| c == '\u{2028}'
    ||| c == '\u{2029}'
    ||| c == '\u{202f}'
    ||| c == '\u{205f}'
    ||| c == '\u{3000}'
}

/// Whether a character is white space.
pub fn space(c: char) -> (r: bool)
    ensures
        r == is_space(c),
{
    ('\u{9}' <= c && c <= '\u{d}') || c == ' ' || c == '\u{85}' || c == '\u{a0}' || c == '\u{1680}'
        || ('\u{2000}' <= c && c <= '\u{200a}') || c == '\u{2028}' || c == '\u{2029}'
        || c == '\u{202f}' || c == '\u{205f}' || c == '\u{3000}'
}

/// `s` without the white space at its start.
pub open spec fn trim_start(s: Seq<char>) -> Seq<char>
    decreases s.len(),
{
    if s.len() > 0 && is_space(s[0]) {
        trim_start(s.drop_first())
    } else {
        s
    }
}

/// `s` without the white space at its end.
pub open spec fn trim_end(s: Seq<char>) -> Seq<char>
    decreases s.len(),
{
    if s.len() > 0 && is_space(s.last()) {
        trim_end(s.drop_last())
    } else {
        s
    }
}

/// `s` without the white space at either end.
pub open spec fn trim(s: Seq<char>) -> Seq<char> {
    trim_end(trim_start(s))
}

/// The position of the first character of `trim_start(v)`.
pub fn start_of_text(v: &Vec<char>) -> (r: usize)
    ensures
        r <= v@.len(),
        v@.skip(r as int) == trim_start(v@),
        forall|j: int| 0 <= j < r ==> is_space(#[trigger] v@[j]),
        r < v@.len() ==> !is_space(v@[r as int]),
{
    let mut i: usize = 0;
    assert(v@.skip(0) == v@);
    while i < v.len() && space(v[i])
        invariant
            i <= v@.len(),
            trim_start(v@.skip(i as int)) == trim_start(v@),
            forall|j: int| 0 <= j < i ==> is_space(#[trigger] v@[j]),
        decreases v@.len() - i,
    {
        assert(v@.skip(i as int).drop_first() == v@.skip(i + 1));
        i += 1;
    }
    i
}

/// The characters of `v` without the white space at either end.
pub fn trim_chars(v: &Vec<char>) -> (r: Vec<char>)
    ensures
        r@ == trim(v@),
{
    let from = start_of_text(v);
    let mut to: usize = v.len();
    while to > from && space(v[to - 1])
        invariant
            from <= to <= v@.len(),
            trim_end(v@.subrange(from as int, to as int)) == trim_end(v@.skip(from as int)),
        decreases to - from,
    {
        assert(v@.subrange(from as int, to as int).drop_last() == v@.subrange(
            from as int,
            to - 1,
        ));
        to -= 1;
    }
    slice_chars(v, from, to)
}

/// `v[from..to]`.
pub fn slice_chars(v: &Vec<char>, from: usize, to: usize) -> (r: Vec<char>)
    requires
        from <= to <= v@.len(),
    ensures
        r@ == v@.subrange(from as int, to as int),
{
    let mut out: Vec<char> = Vec::new();
    let mut i: usize = from;
    while i < to
        invariant
            from <= i <= to <= v@.len(),
            out@ == v@.subrange(from as int, i as int),
        decreases to - i,
    {
        out.push(v[i]);
        i += 1;
        assert(v@.subrange(from as int, i as int) == v@.subrange(from as int, i - 1).push(v@[i - 1]));
    }
    out
}

/// The whole of `v` as a string.
pub fn to_text(v: &Vec<char>) -> (r: String)
    ensures
        r@ == v@,
{
    let r = string_of(v, 0, v.len());
    assert(v@.subrange(0, v@.len() as int) == v@);
    r
}

/// `s` without the white space at either end.
pub fn trimmed(s: &str) -> (r: String)
    ensures
        r@ == trim(s@),
{
    let v = chars_of(s);
    let t = trim_chars(&v);
    to_text(&t)
}

/// Whether `s` begins with `p`.
pub open spec fn has_prefix(s: Seq<char>, p: Seq<char>) -> bool {
    p.len() <= s.len() && s.take(p.len() as int) == p
}

/// Whether `s` ends with `p`.
pub open spec fn has_suffix(s: Seq<char>, p: Seq<char>) -> bool {
    p.len() <= s.len() && s.skip(s.len() - p.len()) == p
}

/// Whether `v[at..]` begins with `p`.
pub fn prefix_at(v: &Vec<char>, at: usize, p: &Vec<char>) -> (r: bool)
    requires
        at <= v@.len(),
    ensures
        r == has_prefix(v@.skip(at as int), p@),
{
    if p.len() > v.len() - at {
        return false;
    }
    let mut i: usize = 0;
    while i < p.len()
        invariant
            i <= p@.len(),
            at + p@.len() <= v.len(),
            forall|j: int| 0 <= j < i ==> v@[at + j] == p@[j],
        decreases p@.len() - i,
    {
        if v[at + i] != p[i] {
            assert(v@.skip(at as int).take(p@.len() as int)[i as int] != p@[i as int]);
            return false;
        }
        i += 1;
    }
    assert(v@.skip(at as int).take(p@.len() as int) =~= p@);
    true
}

/// Whether `s` begins with `p`.
pub fn starts_with(s: &str, p: &str) -> (r: bool)
    ensures
        r == has_prefix(s@, p@),
{
    let v = chars_of(s);
    let w = chars_of(p);
    assert(v@.skip(0) == v@);
    prefix_at(&v, 0, &w)
}

/// Whether `s` ends with `p`.
pub fn ends_with(s: &str, p: &str) -> (r: bool)
    ensures
        r == has_suffix(s@, p@),
{
    let v = chars_of(s);
    let w = chars_of(p);
    if w.len() > v.len() {
        return false;
    }
    let r = prefix_at(&v, v.len() - w.len(), &w);
    assert(v@.skip(v@.len() - w@.len()).take(w@.len() as int) == v@.skip(v@.len() - w@.len()));
    r
}

/// `s` without the prefix `p`, where it has it.
pub open spec fn without_prefix(s: Seq<char>, p: Seq<char>) -> Option<Seq<char>> {
    if has_prefix(s, p) {
        Some(s.skip(p.len() as int))
    } else {
        None
    }
}

/// `s` without the suffix `p`, where it has it.
pub open spec fn without_suffix(s: Seq<char>, p: Seq<char>) -> Option<Seq<char>> {
    if has_suffix(s, p) {
        Some(s.take(s.len() - p.len()))
    } else {
        None
    }
}

/// What stands behind `p`, where `s` begins with it.
pub fn strip_prefix(s: &str, p: &str) -> (r: Option<String>)
    ensures
        match r {
            Some(t) => without_prefix(s@, p@) == Some(t@),
            None => without_prefix(s@, p@) is None,
        },
{
    if starts_with(s, p) {
        let v = chars_of(s);
        let w = chars_of(p);
        let t = string_of(&v, w.len(), v.len());
        assert(v@.subrange(w@.len() as int, v@.len() as int) == v@.skip(w@.len() as int));
        Some(t)
    } else {
        None
    }
}

/// What stands before `p`, where `s` ends with it.
pub fn strip_suffix(s: &str, p: &str) -> (r: Option<String>)
    ensures
        match r {
            Some(t) => without_suffix(s@, p@) == Some(t@),
            None => without_suffix(s@, p@) is None,
        },
{
    if ends_with(s, p) {
        let v = chars_of(s);
        let w = chars_of(p);
        let t = string_of(&v, 0, v.len() - w.len());
        assert(v@.subrange(0, v@.len() - w@.len()) == v@.take(v@.len() - w@.len()));
        Some(t)
    } else {
        None
    }
}

/// Whether `p` occurs in `s`.
pub open spec fn occurs_in(p: Seq<char>, s: Seq<char>) -> bool {
    exists|i: int| 0 <= i <= s.len() && has_prefix(#[trigger] s.skip(i), p)
}

/// The least position at which `p` occurs in `s`, at `from` or later.
pub open spec fn first_at(s: Seq<char>, p: Seq<char>, i: int) -> bool {
    &&& 0 <= i <= s.len()
    &&& has_prefix(s.skip(i), p)
    &&& forall|j: int| 0 <= j < i ==> !has_prefix(#[trigger] s.skip(j), p)
}

/// The position of the first occurrence of `p` in `v`.
pub fn find_in(v: &Vec<char>, p: &Vec<char>) -> (r: Option<usize>)
    ensures
        match r {
            Some(i) => first_at(v@, p@, i as int),
            None => !occurs_in(p@, v@),
        },
{
    let mut i: usize = 0;
    loop
        invariant
            i <= v@.len(),
            forall|j: int| 0 <= j < i ==> !has_prefix(#[trigger] v@.skip(j), p@),
        decreases v@.len() - i,
    {
        if prefix_at(v, i, p) {
            return Some(i);
        }
        if i == v.len() {
            return None;
        }
        i += 1;
    }
}

/// Whether `p` occurs in `s`.
pub fn contains(s: &str, p: &str) -> (r: bool)
    ensures
        r == occurs_in(p@, s@),
{
    let v = chars_of(s);
    let w = chars_of(p);
    find_in(&v, &w).is_some()
}

/// `s` with every `c` replaced by `by`.
pub open spec fn replace_char(s: Seq<char>, c: char, by: Seq<char>) -> Seq<char>
    decreases s.len(),
{
    if s.len() == 0 {
        Seq::empty()
    } else {
        replace_char(s.drop_last(), c, by) + (if s.last() == c { by } else { seq![s.last()] })
    }
}

/// `s` with every `c` replaced by `by`.
pub fn replaced(s: &str, c: char, by: &str) -> (r: String)
    ensures
        r@ == replace_char(s@, c, by@),
{
    let v = chars_of(s);
    let mut out = String::new();
    let mut i: usize = 0;
    while i < v.len()
        invariant
            i <= v@.len(),
            out@ == replace_char(v@.take(i as int), c, by@),
        decreases v@.len() - i,
    {
        let ghost before = out@;
        if v[i] == c {
            out.append(by);
        } else {
            out.push(v[i]);
            assert(out@ =~= before + seq![v@[i as int]]);
        }
        assert(v@.take(i + 1).drop_last() == v@.take(i as int));
        i += 1;
    }
    assert(v@.take(v@.len() as int) == v@);
    out
}

/// The pieces of `s` between the occurrences of `sep`.
pub open spec fn split(s: Seq<char>, sep: char) -> Seq<Seq<char>>
    decreases s.len(),
{
    if s.len() == 0 {
        seq![Seq::empty()]
    } else {
        let init = split(s.drop_last(), sep);
        if s.last() == sep {
            init.push(Seq::empty())
        } else {
            init.update(init.len() - 1, init.last().push(s.last()))
        }
    }
}

/// The views of a sequence of strings.
pub open spec fn texts(v: Seq<String>) -> Seq<Seq<char>> {
    Seq::new(v.len(), |i: int| v[i]@)
}

/// Pushing a string pushes its text.
pub broadcast proof fn lemma_texts_push(v: Seq<String>, s: String)
    ensures
        #[trigger] texts(v.push(s)) == texts(v).push(s@),
{
    assert(texts(v.push(s)) =~= texts(v).push(s@));
}

pub proof fn lemma_split_nonempty(s: Seq<char>, sep: char)
    ensures
        split(s, sep).len() > 0,
    decreases s.len(),
{
    if s.len() > 0 {
        lemma_split_nonempty(s.drop_last(), sep);
    }
}

/// The pieces of `v` between the occurrences of `sep`.
pub fn split_chars(v: &Vec<char>, sep: char) -> (r: Vec<String>)
    ensures
        texts(r@) == split(v@, sep),
{
    let mut done: Vec<String> = Vec::new();
    let mut piece = String::new();
    let mut i: usize = 0;
    assert(texts(done@).push(piece@) =~= split(v@.take(0), sep));
    while i < v.len()
        invariant
            i <= v@.len(),
            texts(done@).push(piece@) == split(v@.take(i as int), sep),
        decreases v@.len() - i,
    {
        let ghost before = split(v@.take(i as int), sep);
        let ghost d0 = done@;
        let ghost p0 = piece@;
        assert(before.last() == p0);
        if v[i] == sep {
            done.push(piece);
            piece = String::new();
            assert(texts(done@) =~= texts(d0).push(p0));
        } else {
            piece.push(v[i]);
            assert(texts(done@).push(piece@) =~= before.update(
                before.len() - 1,
                before.last().push(v@[i as int]),
            ));
        }
        assert(v@.take(i + 1).drop_last() == v@.take(i as int));
        i += 1;
    }
    let ghost d0 = done@;
    let ghost p0 = piece@;
    done.push(piece);
    assert(texts(done@) =~= texts(d0).push(p0));
    assert(v@.take(v@.len() as int) == v@);
    done
}

/// `parts` one after the other, with `sep` between two of them.
pub open spec fn join(parts: Seq<Seq<char>>, sep: Seq<char>) -> Seq<char>
    decreases parts.len(),
{
    if parts.len() == 0 {
        Seq::empty()
    } else if parts.len() == 1 {
        parts[0]
    } else {
        join(parts.drop_last(), sep) + sep + parts.last()
    }
}

/// The strings of `parts` one after the other, with `sep` between two of them.
pub fn joined(parts: &Vec<String>, sep: &str) -> (r: String)
    ensures
        r@ == join(texts(parts@), sep@),
{
    let mut out = String::new();
    let mut i: usize = 0;
    while i < parts.len()
        invariant
            i <= parts@.len(),
            out@ == join(texts(parts@).take(i as int), sep@),
        decreases parts@.len() - i,
    {
        let ghost t = texts(parts@);
        if i > 0 {
            out.append(sep);
        }
        out.append(parts[i].as_str());
        assert(t.take(i + 1).drop_last() == t.take(i as int));
        assert(t.take(i + 1).last() == parts@[i as int]@);
        if i == 0 {
            assert(out@ =~= t.take(1)[0]);
        }
        i += 1;
    }
    assert(texts(parts@).take(parts@.len() as int) == texts(parts@));
    out
}

/// The maximal runs of characters of `s` that are not white space.
pub open spec fn words(s: Seq<char>) -> Seq<Seq<char>>
    decreases s.len(),
{
    if s.len() == 0 {
        Seq::empty()
    } else {
        let init = words(s.drop_last());
        let c = s.last();
        if is_space(c) {
            init
        } else if s.len() == 1 || is_space(s[s.len() - 2]) {
            init.push(seq![c])
        } else {
            init.update(init.len() - 1, init.last().push(c))
        }
    }
}

/// The words of `s`: its maximal runs of characters that are not white space.
pub fn split_words(s: &str) -> (r: Vec<String>)
    ensures
        texts(r@) == words(s@),
{
    let v = chars_of(s);
    let mut done: Vec<String> = Vec::new();
    let mut word = String::new();
    let mut open: bool = false;
    let mut i: usize = 0;
    assert(texts(done@) =~= words(v@.take(0)));
    while i < v.len()
        invariant
            i <= v@.len(),
            open == (i > 0 && !is_space(v@[i - 1])),
            words(v@.take(i as int)) == (if open { texts(done@).push(word@) } else { texts(done@) }),
            !open ==> word@ == Seq::<char>::empty(),
        decreases v@.len() - i,
    {
        let ghost before = words(v@.take(i as int));
        let ghost d0 = done@;
        let ghost w0 = word@;
        let c = v[i];
        proof {
            assert(v@.take(i + 1).drop_last() == v@.take(i as int));
            assert(v@.take(i + 1).last() == c);
            if i > 0 {
                assert(v@.take(i + 1)[i - 1] == v@[i - 1]);
            }
        }
        if space(c) {
            if open {
                done.push(word);
                word = String::new();
                assert(texts(done@) =~= texts(d0).push(w0));
            }
            open = false;
        } else {
            word.push(c);
            if open {
                assert(texts(done@).push(word@) =~= before.update(
                    before.len() - 1,
                    before.last().push(c),
                ));
            } else {
                assert(word@ =~= seq![c]);
            }
            open = true;
        }
        i += 1;
    }
    if open {
        let ghost d0 = done@;
        let ghost w0 = word@;
        done.push(word);
        assert(texts(done@) =~= texts(d0).push(w0));
    }
    assert(v@.take(v@.len() as int) == v@);
    done
}

/// `s` without one carriage return at its end, where it has one.
pub open spec fn without_return(s: Seq<char>) -> Seq<char> {
    if s.len() > 0 && s.last() == '\r' {
        s.drop_last()
    } else {
        s
    }
}

/// The lines of `s`. A line ends with a line feed, or with a carriage return
/// and a line feed; what follows the last line feed is a line unless it is empty.
pub open spec fn lines(s: Seq<char>) -> Seq<Seq<char>> {
    let p = split(s, '\n');
    let ended = Seq::new((p.len() - 1) as nat, |i: int| without_return(p[i]));
    if p.last().len() == 0 {
        ended
    } else {
        ended.push(p.last())
    }
}

/// The lines of `s`.
pub fn split_lines(s: &str) -> (r: Vec<String>)
    ensures
        texts(r@) == lines(s@),
{
    let v = chars_of(s);
    let parts = split_chars(&v, '\n');
    proof {
        lemma_split_nonempty(s@, '\n');
        assert(texts(parts@).len() == parts@.len());
    }
    let mut out: Vec<String> = Vec::new();
    let mut i: usize = 0;
    let last: usize = parts.len() - 1;
    while i < last
        invariant
            i <= last,
            last == parts@.len() - 1,
            texts(out@) == Seq::new(i as nat, |k: int| without_return(texts(parts@)[k])),
        decreases last - i,
    {
        let ghost o0 = out@;
        let pv = chars_of(parts[i].as_str());
        let line = if pv.len() > 0 && pv[pv.len() - 1] == '\r' {
            let t = string_of(&pv, 0, pv.len() - 1);
            assert(pv@.subrange(0, pv@.len() - 1) == pv@.drop_last());
            t
        } else {
            parts[i].clone()
        };
        assert(line@ == without_return(texts(parts@)[i as int]));
        let ghost text = line@;
        out.push(line);
        i += 1;
        assert(texts(out@) =~= texts(o0).push(text));
        assert(texts(out@) =~= Seq::new(i as nat, |k: int| without_return(texts(parts@)[k])));
    }
    let tail = parts[last].clone();
    assert(texts(parts@).last() == tail@);
    if !tail.as_str().is_empty() {
        let ghost o0 = out@;
        out.push(tail);
        assert(texts(out@) =~= texts(o0).push(tail@));
    }
    out
}

/// Lexicographic order of character sequences by code point, which is also the
/// byte order of their UTF-8 form.
pub open spec fn text_lt(a: Seq<char>, b: Seq<char>) -> bool
    decreases a.len(),
{
    if b.len() == 0 {
        false
    } else if a.len() == 0 {
        true
    } else if a[0] != b[0] {
        a[0] < b[0]
    } else {
        text_lt(a.drop_first(), b.drop_first())
    }
}

pub proof fn lemma_text_lt_irreflexive(a: Seq<char>)
    ensures
        !text_lt(a, a),
    decreases a.len(),
{
    if a.len() > 0 {
        lemma_text_lt_irreflexive(a.drop_first());
    }
}

pub proof fn lemma_text_lt_transitive(a: Seq<char>, b: Seq<char>, c: Seq<char>)
    requires
        text_lt(a, b),
        text_lt(b, c),
    ensures
        text_lt(a, c),
    decreases a.len(),
{
    if a.len() > 0 && b.len() > 0 && c.len() > 0 && a[0] == b[0] && b[0] == c[0] {
        lemma_text_lt_transitive(a.drop_first(), b.drop_first(), c.drop_first());
    }
}

pub proof fn lemma_text_lt_total(a: Seq<char>, b: Seq<char>)
    ensures
        text_lt(a, b) || text_lt(b, a) || a == b,
    decreases a.len(),
{
    if a.len() > 0 && b.len() > 0 && a[0] == b[0] {
        lemma_text_lt_total(a.drop_first(), b.drop_first());
        if a.drop_first() == b.drop_first() {
            assert(a =~= seq![a[0]] + a.drop_first());
            assert(b =~= seq![b[0]] + b.drop_first());
        }
    } else if a.len() == 0 && b.len() == 0 {
        assert(a =~= b);
    }
}

pub proof fn lemma_text_lt_asymmetric(a: Seq<char>, b: Seq<char>)
    requires
        text_lt(a, b),
    ensures
        !text_lt(b, a),
{
    if text_lt(b, a) {
        lemma_text_lt_transitive(a, b, a);
        lemma_text_lt_irreflexive(a);
    }
}

pub proof fn lemma_text_not_lt_transitive(a: Seq<char>, b: Seq<char>, c: Seq<char>)
    requires
        !text_lt(a, b),
        !text_lt(b, c),
    ensures
        !text_lt(a, c),
{
    if text_lt(a, c) {
        lemma_text_lt_total(b, c);
        if text_lt(c, b) {
            lemma_text_lt_transitive(a, c, b);
        }
    }
}

/// Whether `x` comes before `y` in the order of texts.
pub fn chars_before(x: &Vec<char>, y: &Vec<char>) -> (r: bool)
    ensures
        r == text_lt(x@, y@),
{
    let mut i: usize = 0;
    assert(x@.skip(0) == x@);
    assert(y@.skip(0) == y@);
    loop
        invariant
            i <= x@.len(),
            i <= y@.len(),
            text_lt(x@, y@) == text_lt(x@.skip(i as int), y@.skip(i as int)),
        decreases x@.len() - i,
    {
        if i == y.len() {
            return false;
        }
        if i == x.len() {
            return true;
        }
        if x[i] != y[i] {
            return x[i] < y[i];
        }
        assert(x@.skip(i as int).drop_first() == x@.skip(i + 1));
        assert(y@.skip(i as int).drop_first() == y@.skip(i + 1));
        i += 1;
    }
}

/// Whether `a` comes before `b` in the order of texts.
pub fn str_before(a: &str, b: &str) -> (r: bool)
    ensures
        r == text_lt(a@, b@),
{
    let x = chars_of(a);
    let y = chars_of(b);
    chars_before(&x, &y)
}

/// The ASCII capital of an ASCII small letter; other characters unchanged.
pub open spec fn ascii_upper(c: char) -> char {
    if 'a' <= c <= 'z' {
        (c as u8 - 32) as char
    } else {
        c
    }
}

/// The ASCII small letter of an ASCII capital; other characters unchanged.
pub open spec fn ascii_lower(c: char) -> char {
    if 'A' <= c <= 'Z' {
        (c as u8 + 32) as char
    } else {
        c
    }
}

/// Whether every character of `s` is ASCII.
pub open spec fn all_ascii(s: Seq<char>) -> bool {
    forall|i: int| 0 <= i < s.len() ==> #[trigger] s[i] < '\u{80}'
}

/// What `str::to_uppercase` returns for a text.
pub uninterp spec fn uppercase_of(s: Seq<char>) -> Seq<char>;

/// What `str::to_lowercase` returns for a text.
pub uninterp spec fn lowercase_of(s: Seq<char>) -> Seq<char>;

/// `str::to_uppercase`. Its result depends on the text alone, and on ASCII text
/// it maps the small letters `a` to `z` to their capitals and keeps the rest.
/// What it does to other text is not stated.
#[verifier::external_body]
pub(crate) fn uppercase(s: &str) -> (r: String)
    ensures
        r@ == uppercase_of(s@),
        all_ascii(s@) ==> r@ == Seq::new(s@.len(), |i: int| ascii_upper(s@[i])),
{
    s.to_uppercase()
}

/// `str::to_lowercase`. Its result depends on the text alone, and on ASCII text
/// it maps the capitals `A` to `Z` to their small letters and keeps the rest.
/// What it does to other text is not stated.
#[verifier::external_body]
pub(crate) fn lowercase(s: &str) -> (r: String)
    ensures
        r@ == lowercase_of(s@),
        all_ascii(s@) ==> r@ == Seq::new(s@.len(), |i: int| ascii_lower(s@[i])),
{
    s.to_lowercase()
}

/// Position of the first `c` in `v`.
pub fn find_char(v: &Vec<char>, c: char) -> (r: Option<usize>)
    ensures
        match r {
            Some(i) => i < v@.len() && v@[i as int] == c && forall|j: int|
                0 <= j < i ==> #[trigger] v@[j] != c,
            None => !v@.contains(c),
        },
{
    let mut i: usize = 0;
    while i < v.len()
        invariant
            i <= v@.len(),
            forall|j: int| 0 <= j < i ==> #[trigger] v@[j] != c,
        decreases v@.len() - i,
    {
        if v[i] == c {
            return Some(i);
        }
        i += 1;
    }
    None
}

/// Position of the last `c` in `v`.
pub fn rfind_char(v: &Vec<char>, c: char) -> (r: Option<usize>)
    ensures
        match r {
            Some(i) => i < v@.len() && v@[i as int] == c && forall|j: int|
                i < j < v@.len() ==> #[trigger] v@[j] != c,
            None => !v@.contains(c),
        },
{
    let mut i: usize = v.len();
    while i > 0
        invariant
            i <= v@.len(),
            forall|j: int| i <= j < v@.len() ==> #[trigger] v@[j] != c,
        decreases i,
    {
        if v[i - 1] == c {
            return Some(i - 1);
        }
        i -= 1;
    }
    None
}

/// Whether `t` is one of the strings of `v`.
pub fn member(v: &Vec<String>, t: &str) -> (r: bool)
    ensures
        r == texts(v@).contains(t@),
{
    let mut i: usize = 0;
    while i < v.len()
        invariant
            i <= v@.len(),
            forall|j: int| 0 <= j < i ==> texts(v@)[j] != t@,
        decreases v@.len() - i,
    {
        if str_eq(v[i].as_str(), t) {
            assert(texts(v@)[i as int] == t@);
            return true;
        }
        i += 1;
    }
    false
}

/// What the format `{:?}` writes for a text.
pub uninterp spec fn debug_of(s: Seq<char>) -> Seq<char>;

/// Whether `s` is ASCII text that needs no escapes inside double quotes.
pub open spec fn is_plain(s: Seq<char>) -> bool {
    forall|i: int|
        0 <= i < s.len() ==> ' ' <= #[trigger] s[i] <= '~' && s[i] != '"' && s[i] != '\\'
}

/// The format `{:?}` of std, applied to a text. What it writes depends on the
/// text alone: the text in double quotes, with escapes where characters need
/// them. The escapes are not stated.
#[verifier::external_body]
pub(crate) fn debug_quoted(s: &str) -> (r: String)
    ensures
        r@ == debug_of(s@),
        is_plain(s@) ==> r@ == seq!['"'] + s@ + seq!['"'],
{
    format!("{s:?}")
}

/// What std says of a text that is no `u64`.
pub uninterp spec fn u64_error_of(s: Seq<char>) -> Seq<char>;

/// The message of the error of `str::parse::<u64>`. It depends on the text alone;
/// how it is worded is not stated.
#[verifier::external_body]
pub(crate) fn u64_error(s: &str) -> (r: String)
    requires
        unsigned_of(s@, u64::MAX as nat) is None,
    ensures
        r@ == u64_error_of(s@),
{
    s.parse::<u64>().map(|_| String::new()).unwrap_or_else(|e| e.to_string())
}

/// What std says of a text that is no `usize`.
pub uninterp spec fn usize_error_of(s: Seq<char>) -> Seq<char>;

/// The message of the error of `str::parse::<usize>`. It depends on the text alone; how it
/// is worded is not stated.
#[verifier::external_body]
pub(crate) fn usize_error(s: &str) -> (r: String)
    requires
        unsigned_of(s@, usize::MAX as nat) is None,
    ensures
        r@ == usize_error_of(s@),
{
    s.parse::<usize>().map(|_| String::new()).unwrap_or_else(|e| e.to_string())
}

/// `s` without any `c` at its start.
pub open spec fn trim_start_char(s: Seq<char>, c: char) -> Seq<char>
    decreases s.len(),
{
    if s.len() > 0 && s[0] == c {
        trim_start_char(s.skip(1), c)
    } else {
        s
    }
}

/// `s` without any `c` at its end.
pub open spec fn trim_end_char(s: Seq<char>, c: char) -> Seq<char>
    decreases s.len(),
{
    if s.len() > 0 && s.last() == c {
        trim_end_char(s.drop_last(), c)
    } else {
        s
    }
}

/// `s` without any `c` at either end.
pub open spec fn trim_char(s: Seq<char>, c: char) -> Seq<char> {
    trim_end_char(trim_start_char(s, c), c)
}

/// `s` without any `c` at either end.
pub fn trimmed_of(s: &str, c: char) -> (r: String)
    ensures
        r@ == trim_char(s@, c),
{
    let v = chars_of(s);
    let n: usize = v.len();
    let mut a: usize = 0;
    assert(v@.skip(0) =~= v@);
    while a < n && v[a] == c
        invariant
            a <= n == v@.len(),
            trim_start_char(s@, c) == trim_start_char(v@.skip(a as int), c),
        decreases n - a,
    {
        assert(v@.skip(a as int).skip(1) =~= v@.skip(a + 1));
        a += 1;
    }
    let mut b: usize = n;
    let ghost t = v@.skip(a as int);
    assert(t == trim_start_char(s@, c));
    assert(v@.subrange(a as int, n as int) =~= t);
    while a < b && v[b - 1] == c
        invariant
            a <= b <= n == v@.len(),
            trim_end_char(t, c) == trim_end_char(v@.subrange(a as int, b as int), c),
        decreases b - a,
    {
        assert(v@.subrange(a as int, b as int).drop_last() =~= v@.subrange(a as int, b - 1));
        b -= 1;
    }
    string_of(&v, a, b)
}

/// The characters of `s` up to the first `c`; all of them where there is none.
pub open spec fn before_char(s: Seq<char>, c: char) -> Seq<char>
    decreases s.len(),
{
    if s.len() == 0 || s[0] == c {
        Seq::empty()
    } else {
        seq![s[0]] + before_char(s.skip(1), c)
    }
}

/// Everything up to the first `c`.
pub proof fn lemma_before_char(s: Seq<char>, c: char, i: int)
    requires
        0 <= i <= s.len(),
        forall|j: int| 0 <= j < i ==> #[trigger] s[j] != c,
        i < s.len() ==> s[i] == c,
    ensures
        before_char(s, c) == s.take(i),
    decreases s.len(),
{
    if i > 0 {
        let t = s.skip(1);
        assert forall|j: int| 0 <= j < i - 1 implies #[trigger] t[j] != c by {
            assert(s[j + 1] != c);
        }
        lemma_before_char(t, c, i - 1);
        assert(s.take(i) =~= seq![s[0]] + t.take(i - 1));
    } else {
        assert(s.take(0) =~= Seq::<char>::empty());
    }
}

/// A text with ASCII capitals made small.
pub open spec fn ascii_lowered(s: Seq<char>) -> Seq<char> {
    Seq::new(s.len(), |i: int| ascii_lower(s[i]))
}

/// A text with ASCII capitals made small.
pub fn ascii_lower_text(s: &str) -> (r: String)
    ensures
        r@ == ascii_lowered(s@),
{
    let v = chars_of(s);
    let mut out = String::new();
    let mut i: usize = 0;
    while i < v.len()
        invariant
            i <= v@.len(),
            v@ == s@,
            out@ == ascii_lowered(s@).take(i as int),
        decreases v@.len() - i,
    {
        let c = v[i];
        out.push(
            if 'A' <= c && c <= 'Z' {
                (c as u8 + 32) as char
            } else {
                c
            },
        );
        i += 1;
        assert(ascii_lowered(s@).take(i as int) =~= ascii_lowered(s@).take(i - 1).push(
            ascii_lower(s@[i - 1]),
        ));
    }
    assert(ascii_lowered(s@).take(i as int) =~= ascii_lowered(s@));
    out
}

/// The characters of `s` behind the first `c`; none where there is no `c`.
pub open spec fn after_char(s: Seq<char>, c: char) -> Seq<char>
    decreases s.len(),
{
    if s.len() == 0 {
        Seq::empty()
    } else if s[0] == c {
        s.skip(1)
    } else {
        after_char(s.skip(1), c)
    }
}

/// Everything behind the first `c`.
pub proof fn lemma_after_char(s: Seq<char>, c: char, i: int)
    requires
        0 <= i <= s.len(),
        forall|j: int| 0 <= j < i ==> #[trigger] s[j] != c,
        i < s.len() ==> s[i] == c,
    ensures
        after_char(s, c) == (if i < s.len() {
            s.skip(i + 1)
        } else {
            Seq::empty()
        }),
    decreases s.len(),
{
    if i > 0 {
        let t = s.skip(1);
        assert forall|j: int| 0 <= j < i - 1 implies #[trigger] t[j] != c by {
            assert(s[j + 1] != c);
        }
        lemma_after_char(t, c, i - 1);
        if i < s.len() {
            assert(t.skip(i) =~= s.skip(i + 1));
        }
    }
}

/// `s` parted at the first `c`: what stands before it and what stands behind it.
pub fn part_at(s: &str, c: char) -> (r: (String, String))
    ensures
        r.0@ == before_char(s@, c),
        r.1@ == after_char(s@, c),
{
    let v = chars_of(s);
    let n: usize = v.len();
    match find_char(&v, c) {
        Some(i) => {
            proof {
                lemma_before_char(s@, c, i as int);
                lemma_after_char(s@, c, i as int);
                assert(s@.take(i as int) =~= s@.subrange(0, i as int));
                assert(s@.skip(i + 1) =~= s@.subrange(i + 1, n as int));
            }
            (string_of(&v, 0, i), string_of(&v, i + 1, n))
        },
        None => {
            proof {
                assert forall|j: int| 0 <= j < n implies #[trigger] s@[j] != c by {
                    assert(s@.contains(s@[j]));
                }
                lemma_before_char(s@, c, n as int);
                lemma_after_char(s@, c, n as int);
                assert(s@.take(n as int) =~= s@);
            }
            (s.to_owned(), String::new())
        },
    }
}

/// `s` without any `c` at its end.
pub fn trimmed_end_of(s: &str, c: char) -> (r: String)
    ensures
        r@ == trim_end_char(s@, c),
{
    let v = chars_of(s);
    let n: usize = v.len();
    let mut b: usize = n;
    assert(v@.subrange(0, n as int) =~= s@);
    while 0 < b && v[b - 1] == c
        invariant
            b <= n == v@.len(),
            trim_end_char(s@, c) == trim_end_char(v@.subrange(0, b as int), c),
        decreases b,
    {
        assert(v@.subrange(0, b as int).drop_last() =~= v@.subrange(0, b - 1));
        b -= 1;
    }
    string_of(&v, 0, b)
}

/// `s` without any `c` at its start.
pub fn trimmed_start_of(s: &str, c: char) -> (r: String)
    ensures
        r@ == trim_start_char(s@, c),
{
    let v = chars_of(s);
    let n: usize = v.len();
    let mut a: usize = 0;
    assert(v@.skip(0) =~= v@);
    while a < n && v[a] == c
        invariant
            a <= n == v@.len(),
            trim_start_char(s@, c) == trim_start_char(v@.skip(a as int), c),
        decreases n - a,
    {
        assert(v@.skip(a as int).skip(1) =~= v@.skip(a + 1));
        a += 1;
    }
    assert(v@.subrange(a as int, n as int) =~= v@.skip(a as int));
    string_of(&v, a, n)
}

/// `s`, filled up with blanks on the right to at least `width` characters.
pub open spec fn padded(s: Seq<char>, width: nat) -> Seq<char> {
    if s.len() < width {
        s + Seq::new((width - s.len()) as nat, |i: int| ' ')
    } else {
        s
    }
}

/// Appends `s`, filled up with blanks on the right to at least `width` characters.
pub fn push_padded(out: &mut String, s: &str, width: usize)
    ensures
        final(out)@ == old(out)@ + padded(s@, width as nat),
{
    let ghost start = out@;
    let n: usize = chars_of(s).len();
    out.append(s);
    let mut k: usize = n;
    assert(out@ =~= start + s@ + Seq::new(0, |i: int| ' '));
    while k < width
        invariant
            n == s@.len(),
            n <= k,
            k <= width || k == n,
            out@ == start + s@ + Seq::new((k - n) as nat, |i: int| ' '),
        decreases width - k,
    {
        out.push(' ');
        k += 1;
        assert(out@ =~= start + s@ + Seq::new((k - n) as nat, |i: int| ' '));
    }
    assert(out@ =~= start + padded(s@, width as nat));
}

proof fn lemma_value_after_zeros(k: nat, d: Seq<char>)
    ensures
        decimal_value(Seq::new(k, |i: int| '0') + d) == decimal_value(d),
    decreases d.len(), k,
{
    let z = Seq::new(k, |i: int| '0');
    let s = z + d;
    if d.len() > 0 {
        lemma_value_after_zeros(k, d.drop_last());
        assert(s.drop_last() =~= z + d.drop_last());
    } else if k > 0 {
        lemma_value_after_zeros((k - 1) as nat, d);
        assert(s.drop_last() =~= Seq::new((k - 1) as nat, |i: int| '0') + d);
    } else {
        assert(s =~= d);
    }
}

/// A number that is filled up with zeros is still that number, in digits, and takes at least
/// as many places as asked for, and no more than that unless the number itself needs more.
pub proof fn law_zero_padded_is_the_number(n: nat, width: nat)
    ensures
        is_decimal(zero_padded(n, width)),
        decimal_value(zero_padded(n, width)) == n,
        zero_padded(n, width).len() >= width,
        zero_padded(n, width).len() > width ==> zero_padded(n, width) == decimal(n),
{
    law_decimal_round_trip(n);
    let d = decimal(n);
    if d.len() < width {
        let k = (width - d.len()) as nat;
        lemma_value_after_zeros(k, d);
        let s = zero_padded(n, width);
        assert forall|i: int| 0 <= i < s.len() implies is_digit(#[trigger] s[i]) by {
            if i >= k {
                assert(s[i] == d[i - k]);
            }
        }
    }
}

/// The digits stand for the values that they are read as, and nothing but a digit is one.
pub proof fn law_digits(c: char, s: Seq<char>)
    ensures
        "0123456789"@.contains(c) <==> is_digit(c),
        forall|d: int|
            0 <= d < 10 && #[trigger] "0123456789"@[d] == c ==> decimal_value(s.push(c))
                == decimal_value(s) * 10 + d,
        decimal_value(Seq::empty()) == 0,
{
    reveal_strlit("0123456789");
    let t = "0123456789"@;
    assert(s.push(c).drop_last() =~= s);
    if is_digit(c) {
        assert(t[c as int - 48] == c);
    }
    assert forall|d: int| 0 <= d < 10 implies (#[trigger] t[d]) as int == 48 + d by {}
}

/// A number with or without its sign is read back from its decimal notation.
pub proof fn law_signed_round_trip(n: int)
    requires
        i64::MIN <= n <= i64::MAX,
    ensures
        signed_of(signed_decimal(n)) == Some(n),
{
    if n < 0 {
        law_decimal_round_trip((-n) as nat);
        assert(signed_decimal(n).skip(1) =~= decimal((-n) as nat));
    } else {
        law_decimal_round_trip(n as nat);
        assert(is_digit(decimal(n as nat)[0]));
    }
}

/// A number is read from every text of digits up to the bound, with one plus sign at most,
/// and from no other text.
pub proof fn law_unsigned_reading(s: Seq<char>, max: nat)
    ensures
        is_decimal(s) ==> unsigned_of(s, max) == (if decimal_value(s) <= max {
            Some(decimal_value(s))
        } else {
            None
        }),
        is_decimal(s) ==> unsigned_of(seq!['+'] + s, max) == unsigned_of(s, max),
        s.len() == 0 ==> unsigned_of(s, max) is None,
        forall|i: int|
            1 <= i < s.len() && !is_digit(#[trigger] s[i]) ==> unsigned_of(s, max) is None,
        s.len() > 0 && !is_digit(s[0]) && s[0] != '+' ==> unsigned_of(s, max) is None,
{
    if is_decimal(s) {
        assert(is_digit(s[0]));
        assert((seq!['+'] + s).skip(1) =~= s);
    }
    if s.len() > 0 && s[0] == '+' {
        assert forall|i: int| 1 <= i < s.len() && !is_digit(#[trigger] s[i]) implies unsigned_of(
            s,
            max,
        ) is None by {
            assert(s.skip(1)[i - 1] == s[i]);
        }
    }
}

proof fn lemma_trim_start(s: Seq<char>) -> (i: int)
    ensures
        0 <= i <= s.len(),
        trim_start(s) == s.skip(i),
        forall|k: int| 0 <= k < i ==> is_space(#[trigger] s[k]),
        i < s.len() ==> !is_space(s[i]),
    decreases s.len(),
{
    if s.len() > 0 && is_space(s[0]) {
        let t = s.drop_first();
        let i = lemma_trim_start(t);
        assert(t.skip(i) =~= s.skip(i + 1));
        assert forall|k: int| 0 <= k < i + 1 implies is_space(#[trigger] s[k]) by {
            if k > 0 {
                assert(t[k - 1] == s[k]);
            }
        }
        if i < t.len() {
            assert(t[i] == s[i + 1]);
        }
        i + 1
    } else {
        assert(s.skip(0) =~= s);
        0
    }
}

proof fn lemma_trim_end(s: Seq<char>) -> (j: int)
    ensures
        0 <= j <= s.len(),
        trim_end(s) == s.take(j),
        forall|k: int| j <= k < s.len() ==> is_space(#[trigger] s[k]),
        j > 0 ==> !is_space(s[j - 1]),
    decreases s.len(),
{
    if s.len() > 0 && is_space(s.last()) {
        let t = s.drop_last();
        let j = lemma_trim_end(t);
        assert(t.take(j) =~= s.take(j));
        assert forall|k: int| j <= k < s.len() implies is_space(#[trigger] s[k]) by {
            if k < t.len() {
                assert(t[k] == s[k]);
            }
        }
        if j > 0 {
            assert(t[j - 1] == s[j - 1]);
        }
        j
    } else {
        assert(s.take(s.len() as int) =~= s);
        s.len() as int
    }
}

/// Trimming takes white space off both ends, all of it, and nothing else: the text between
/// two runs of white space is what is left of them, unless it begins or ends with some.
pub proof fn law_trim(left: Seq<char>, s: Seq<char>, right: Seq<char>)
    requires
        forall|i: int| 0 <= i < left.len() ==> is_space(#[trigger] left[i]),
        forall|i: int| 0 <= i < right.len() ==> is_space(#[trigger] right[i]),
        s.len() > 0 ==> !is_space(s[0]) && !is_space(s.last()),
    ensures
        trim(left + s + right) == s,
{
    let all = left + s + right;
    let i = lemma_trim_start(all);
    if s.len() > 0 {
        assert(all[left.len() as int] == s[0]);
        if i < left.len() {
            assert(all[i] == left[i]);
        }
        assert(i == left.len());
        let t = all.skip(i);
        assert(t =~= s + right);
        let j = lemma_trim_end(t);
        assert(t[s.len() - 1] == s.last());
        if j > s.len() {
            assert(t[j - 1] == right[j - 1 - s.len()]);
        }
        assert(t.take(j) =~= s);
    } else {
        if i < all.len() {
            if i < left.len() {
                assert(all[i] == left[i]);
            } else {
                assert(all[i] == right[i - left.len()]);
            }
        }
        assert(all.skip(i) =~= Seq::<char>::empty());
        assert(trim(all) =~= s);
    }
}

/// What is left of a trimmed text neither begins nor ends with white space.
pub proof fn law_trimmed_ends(s: Seq<char>)
    ensures
        trim(s).len() > 0 ==> !is_space(trim(s)[0]) && !is_space(trim(s).last()),
        trim(trim(s)) == trim(s),
{
    let i = lemma_trim_start(s);
    let t = s.skip(i);
    let j = lemma_trim_end(t);
    if trim(s).len() > 0 {
        assert(trim(s)[0] == t[0]);
        assert(t[0] == s[i]);
    }
    assert(Seq::<char>::empty() + trim(s) + Seq::<char>::empty() =~= trim(s));
    law_trim(Seq::empty(), trim(s), Seq::empty());
}

/// The small letters and the capitals of ASCII, in their order, stand for each other, and
/// every other character for itself.
pub proof fn law_ascii_case(c: char)
    ensures
        forall|i: int|
            0 <= i < 26 ==> ascii_upper(#[trigger] "abcdefghijklmnopqrstuvwxyz"@[i])
                == "ABCDEFGHIJKLMNOPQRSTUVWXYZ"@[i] && ascii_lower("ABCDEFGHIJKLMNOPQRSTUVWXYZ"@[i])
                == "abcdefghijklmnopqrstuvwxyz"@[i],
        !"abcdefghijklmnopqrstuvwxyz"@.contains(c) ==> ascii_upper(c) == c,
        !"ABCDEFGHIJKLMNOPQRSTUVWXYZ"@.contains(c) ==> ascii_lower(c) == c,
{
    reveal_strlit("abcdefghijklmnopqrstuvwxyz");
    reveal_strlit("ABCDEFGHIJKLMNOPQRSTUVWXYZ");
    let small = "abcdefghijklmnopqrstuvwxyz"@;
    let capital = "ABCDEFGHIJKLMNOPQRSTUVWXYZ"@;
    assert forall|i: int| 0 <= i < 26 implies (#[trigger] small[i]) as int == 97 + i by {}
    assert forall|i: int| 0 <= i < 26 implies (#[trigger] capital[i]) as int == 65 + i by {}
    if 'a' <= c <= 'z' {
        assert(small[c as int - 97] == c);
    }
    if 'A' <= c <= 'Z' {
        assert(capital[c as int - 65] == c);
    }
}

/// The pieces between separators hold none of them, and put together again with the
/// separator between them they are the text.
pub proof fn law_split_and_join(s: Seq<char>, sep: char)
    ensures
        join(split(s, sep), seq![sep]) == s,
        forall|i: int, k: int|
            0 <= i < split(s, sep).len() && 0 <= k < split(s, sep)[i].len()
                ==> #[trigger] split(s, sep)[i][k] != sep,
        split(s, sep).len() == s.filter(|c: char| c == sep).len() + 1,
    decreases s.len(),
{
    reveal(Seq::filter);
    if s.len() == 0 {
        assert(split(s, sep).drop_last() =~= Seq::<Seq<char>>::empty());
        assert(join(split(s, sep), seq![sep]) =~= s);
    } else {
        let front = s.drop_last();
        law_split_and_join(front, sep);
        lemma_split_nonempty(front, sep);
        let init = split(front, sep);
        let all = split(s, sep);
        if s.last() == sep {
            assert(all.drop_last() =~= init);
            assert(join(all, seq![sep]) =~= s);
        } else {
            assert(all.drop_last() =~= init.drop_last());
            assert(all.last() == init.last().push(s.last()));
            assert(join(all, seq![sep]) =~= join(init, seq![sep]).push(s.last()));
            assert(join(all, seq![sep]) =~= s);
        }
    }
}

/// Texts are ordered by the first character in which they differ; a text comes before every
/// longer one that begins with it.
pub proof fn law_text_order(head: Seq<char>, a: Seq<char>, b: Seq<char>)
    requires
        a.len() > 0 && b.len() > 0 ==> a[0] != b[0],
    ensures
        text_lt(head + a, head + b) == (if a.len() > 0 && b.len() > 0 {
            a[0] < b[0]
        } else {
            a.len() == 0 && b.len() > 0
        }),
    decreases head.len(),
{
    if head.len() > 0 {
        let rest = head.drop_first();
        law_text_order(rest, a, b);
        assert((head + a).drop_first() =~= rest + a);
        assert((head + b).drop_first() =~= rest + b);
    } else {
        assert(head + a =~= a);
        assert(head + b =~= b);
    }
}

/// A text is parted at a character into what stands before its first occurrence and what
/// stands behind it.
pub proof fn law_parted(before: Seq<char>, c: char, after: Seq<char>)
    requires
        !before.contains(c),
    ensures
        before_char(before + seq![c] + after, c) == before,
        after_char(before + seq![c] + after, c) == after,
        before_char(before, c) == before,
        after_char(before, c).len() == 0,
{
    let s = before + seq![c] + after;
    let n = before.len() as int;
    assert forall|j: int| 0 <= j < n implies #[trigger] s[j] != c by {
        assert(before.contains(before[j]));
    }
    assert forall|j: int| 0 <= j < n implies #[trigger] before[j] != c by {
        assert(before.contains(before[j]));
    }
    lemma_before_char(s, c, n);
    lemma_after_char(s, c, n);
    lemma_before_char(before, c, n);
    lemma_after_char(before, c, n);
    assert(s.take(n) =~= before);
    assert(s.skip(n + 1) =~= after);
    assert(before.take(n) =~= before);
}

/// Replacing a character that a text does not hold changes nothing.
pub proof fn law_replacing_what_is_not_there(s: Seq<char>, c: char, by: Seq<char>)
    requires
        !s.contains(c),
    ensures
        replace_char(s, c, by) == s,
    decreases s.len(),
{
    if s.len() > 0 {
        let t = s.drop_last();
        assert forall|k: int| 0 <= k < t.len() implies t[k] != c by {
            assert(s.contains(s[k]));
        }
        assert(s.contains(s.last()));
        law_replacing_what_is_not_there(t, c, by);
        assert(replace_char(s, c, by) =~= s);
    }
}

/// Every occurrence of a character is replaced, and nothing else.
pub proof fn law_replacing(a: Seq<char>, c: char, b: Seq<char>, by: Seq<char>)
    requires
        !b.contains(c),
    ensures
        replace_char(a + seq![c] + b, c, by) == replace_char(a, c, by) + by + b,
    decreases b.len(),
{
    let s = a + seq![c] + b;
    if b.len() == 0 {
        assert(s.drop_last() =~= a);
        assert(replace_char(s, c, by) =~= replace_char(a, c, by) + by + b);
    } else {
        let t = b.drop_last();
        assert forall|k: int| 0 <= k < t.len() implies t[k] != c by {
            assert(b.contains(b[k]));
        }
        assert(b.contains(b.last()));
        law_replacing(a, c, t, by);
        assert(s.drop_last() =~= a + seq![c] + t);
        assert(replace_char(s, c, by) =~= replace_char(a, c, by) + by + b);
    }
}
/// A run of one character.
pub open spec fn run_of(c: char, n: nat) -> Seq<char> {
    Seq::new(n, |i: int| c)
}

/// What stands between runs of a character is left when the character is taken off the
/// ends, off the start or off the end alone.
pub proof fn law_trimmed_of_a_character(s: Seq<char>, c: char, i: nat, j: nat)
    requires
        s.len() > 0 ==> s[0] != c && s.last() != c,
    ensures
        trim_char(run_of(c, i) + s + run_of(c, j), c) == s,
        trim_end_char(s + run_of(c, j), c) == s,
        s.len() > 0 ==> trim_start_char(run_of(c, i) + s, c) == s,
{
    lemma_trimmed_end(s, c, j);
    assert(run_of(c, i) + s + run_of(c, j) =~= run_of(c, i) + (s + run_of(c, j)));
    if s.len() == 0 {
        assert(run_of(c, i) + s + run_of(c, j) =~= run_of(c, i + j) + s);
        lemma_trimmed_start(s, c, i + j);
    } else {
        lemma_trimmed_start(s + run_of(c, j), c, i);
        lemma_trimmed_start(s, c, i);
    }
}

proof fn lemma_trimmed_end(s: Seq<char>, c: char, j: nat)
    requires
        s.len() > 0 ==> s.last() != c,
    ensures
        trim_end_char(s + run_of(c, j), c) == s,
    decreases j,
{
    if j == 0 {
        assert(s + run_of(c, 0) =~= s);
    } else {
        let k = (j - 1) as nat;
        assert((s + run_of(c, j)).drop_last() =~= s + run_of(c, k));
        lemma_trimmed_end(s, c, k);
    }
}

pub proof fn lemma_trimmed_start(s: Seq<char>, c: char, i: nat)
    requires
        s.len() > 0 ==> s[0] != c,
    ensures
        trim_start_char(run_of(c, i) + s, c) == s,
    decreases i,
{
    if i == 0 {
        assert(run_of(c, 0) + s =~= s);
    } else {
        let k = (i - 1) as nat;
        assert((run_of(c, i) + s).skip(1) =~= run_of(c, k) + s);
        lemma_trimmed_start(s, c, k);
    }
}

/// A word behind a space is one word more, and spaces at the end add none.
pub proof fn law_words(s: Seq<char>, c: char, w: Seq<char>)
    requires
        is_space(c),
        w.len() > 0,
        forall|i: int| 0 <= i < w.len() ==> !is_space(#[trigger] w[i]),
    ensures
        words(Seq::empty()).len() == 0,
        words(s.push(c)) == words(s),
        words(w) == seq![w],
        words(s.push(c) + w) == words(s).push(w),
{
    assert(s.push(c).drop_last() =~= s);
    lemma_word(s.push(c), w);
    lemma_word(Seq::empty(), w);
    assert(Seq::<char>::empty() + w =~= w);
    assert(words(w) =~= seq![w]);
}

proof fn lemma_word(s: Seq<char>, w: Seq<char>)
    requires
        s.len() == 0 || is_space(s.last()),
        w.len() > 0,
        forall|i: int| 0 <= i < w.len() ==> !is_space(#[trigger] w[i]),
    ensures
        words(s + w) == words(s).push(w),
    decreases w.len(),
{
    let t = s + w;
    let v = w.drop_last();
    assert(t.drop_last() =~= s + v);
    assert(t.last() == w.last());
    assert(w.last() == w[w.len() - 1]);
    if w.len() == 1 {
        assert(s + v =~= s);
        assert(w =~= seq![w.last()]);
        if s.len() > 0 {
            assert(t[t.len() - 2] == s.last());
        }
    } else {
        assert forall|i: int| 0 <= i < v.len() implies !is_space(#[trigger] v[i]) by {
            assert(v[i] == w[i]);
        }
        lemma_word(s, v);
        assert(t[t.len() - 2] == w[w.len() - 2]);
        assert(v.push(w.last()) =~= w);
        assert(words(t) =~= words(s).push(w));
    }
}

/// A text is brought to a width by spaces behind it, and a text of that width or more
/// stays as it is.
pub proof fn law_padded(s: Seq<char>, width: nat)
    ensures
        s.len() >= width ==> padded(s, width) == s,
        s.len() <= width ==> padded(s, width).len() == width,
        padded(s, width).take(s.len() as int) == s,
        forall|i: int| s.len() <= i < padded(s, width).len() ==> #[trigger] padded(s, width)[i] == ' ',
{
    assert(padded(s, width).take(s.len() as int) =~= s);
}
} // verus!
