//! Text: what the standard library does to strings, as far as the rest of the
//! crate relies on it, and the renderings that are built on top.

use vstd::prelude::*;
use vstd::string::*;

verus! {

/// The characters of an optional string.
pub open spec fn option_text(o: Option<String>) -> Option<Seq<char>> {
    match o {
        Some(s) => Some(s@),
        None => None,
    }
}

/// The characters of a string, or of the message that stands in its place.
pub open spec fn result_text(r: Result<String, String>) -> Result<Seq<char>, Seq<char>> {
    match r {
        Ok(s) => Ok(s@),
        Err(e) => Err(e@),
    }
}

// ---------------------------------------------------------------------------
// Characters
// ---------------------------------------------------------------------------

/// `String::push`: the character is appended to the end of the string.
pub assume_specification[ String::push ](s: &mut String, c: char)
    ensures
        final(s)@ == old(s)@.push(c),
;

/// The characters with the Unicode property `White_Space`.
pub open spec fn white_space(c: char) -> bool {
    ||| '\u{9}' <= c && c <= '\u{d}'
    ||| c == '\u{20}' || c == '\u{85}' || c == '\u{a0}' || c == '\u{1680}'
    ||| '\u{2000}' <= c && c <= '\u{200a}'
    ||| c == '\u{2028}' || c == '\u{2029}' || c == '\u{202f}' || c == '\u{205f}'
    ||| c == '\u{3000}'
}

/// `char::is_whitespace`: whether the character has the property `White_Space`.
pub assume_specification[ char::is_whitespace ](c: char) -> (r: bool)
    ensures
        r == white_space(c),
;

/// The Unicode lower case of a text.
pub uninterp spec fn lowercase(s: Seq<char>) -> Seq<char>;

/// No character of the text is an ASCII capital.
pub open spec fn has_no_capitals(s: Seq<char>) -> bool {
    forall|i: int| 0 <= i < s.len() ==> !('A' <= #[trigger] s[i] && s[i] <= 'Z')
}

/// All characters of the text are ASCII.
pub open spec fn is_ascii_text(s: Seq<char>) -> bool {
    forall|i: int| 0 <= i < s.len() ==> #[trigger] s[i] as int <= 127
}

/// A character with an ASCII capital made small.
pub open spec fn ascii_lowered(c: char) -> char {
    if 'A' <= c && c <= 'Z' {
        (c as int + 32) as char
    } else {
        c
    }
}

/// A text with its ASCII capitals made small.
pub open spec fn ascii_lowercase(s: Seq<char>) -> Seq<char> {
    Seq::new(s.len(), |i: int| ascii_lowered(s[i]))
}

/// `str::to_lowercase`: the lower case of the text, in which no ASCII capital is
/// left. In a text of ASCII characters the capitals become small letters, and all
/// else stays. How other characters and their neighbours map is left to the Unicode
/// tables of the standard library.
pub assume_specification[ str::to_lowercase ](s: &str) -> (r: String)
    ensures
        r@ == lowercase(s@),
        has_no_capitals(r@),
        is_ascii_text(s@) ==> r@ == ascii_lowercase(s@),
;

/// The characters of `s`, one by one.
pub fn chars_of(s: &str) -> (v: Vec<char>)
    ensures
        v@ == s@,
{
    let mut v: Vec<char> = Vec::new();
    for c in it: s.chars()
        invariant
            v@ == it.seq().take(it.index()),
            it.seq() == s@,
    {
        v.push(c);
    }
    assert(v@ == s@);
    v
}

/// The characters `from..to` of `v` as a string.
pub fn text_of(v: &Vec<char>, from: usize, to: usize) -> (s: String)
    requires
        from <= to <= v@.len(),
    ensures
        s@ == v@.subrange(from as int, to as int),
{
    let mut s = String::new();
    let mut i: usize = from;
    while i < to
        invariant
            from <= i <= to <= v@.len(),
            s@ == v@.subrange(from as int, i as int),
        decreases to - i,
    {
        s.push(v[i]);
        i += 1;
    }
    s
}

/// Whether two texts are the same.
pub fn same_text(a: &str, b: &str) -> (r: bool)
    ensures
        r == (a@ == b@),
{
    a.to_owned() == b.to_owned()
}

/// `a` followed by `b`.
pub fn joined(a: &str, b: &str) -> (r: String)
    ensures
        r@ == a@ + b@,
{
    let mut r = a.to_owned();
    r.append(b);
    r
}

// ---------------------------------------------------------------------------
// White space at the ends
// ---------------------------------------------------------------------------

/// `s` without the white space it begins with.
pub open spec fn trim_start(s: Seq<char>) -> Seq<char>
    decreases s.len(),
{
    if s.len() > 0 && white_space(s[0]) {
        trim_start(s.skip(1))
    } else {
        s
    }
}

/// `s` without the white space it ends with.
pub open spec fn trim_end(s: Seq<char>) -> Seq<char>
    decreases s.len(),
{
    if s.len() > 0 && white_space(s.last()) {
        trim_end(s.drop_last())
    } else {
        s
    }
}

/// `s` without the white space at either end.
pub open spec fn trimmed(s: Seq<char>) -> Seq<char> {
    trim_end(trim_start(s))
}

/// Neither the first nor the last character of `s` is white space.
pub open spec fn is_trimmed(s: Seq<char>) -> bool {
    s.len() > 0 ==> !white_space(s[0]) && !white_space(s.last())
}

/// A trimmed text has no white space at either end, and trimming leaves a text
/// that has none unchanged.
pub proof fn trimming_settles(s: Seq<char>)
    ensures
        is_trimmed(trimmed(s)),
        is_trimmed(s) ==> trimmed(s) == s,
        trimmed(trimmed(s)) == trimmed(s),
{
    lemma_trim_start_head(s);
    lemma_trim_end_keeps_head(trim_start(s));
    lemma_trim_end_last(trim_start(s));
}

proof fn lemma_trim_start_head(s: Seq<char>)
    ensures
        trim_start(s).len() > 0 ==> !white_space(trim_start(s)[0]),
    decreases s.len(),
{
    if s.len() > 0 && white_space(s[0]) {
        lemma_trim_start_head(s.skip(1));
    }
}

proof fn lemma_trim_end_last(s: Seq<char>)
    ensures
        trim_end(s).len() > 0 ==> !white_space(trim_end(s).last()),
    decreases s.len(),
{
    if s.len() > 0 && white_space(s.last()) {
        lemma_trim_end_last(s.drop_last());
    }
}

proof fn lemma_trim_end_keeps_head(s: Seq<char>)
    ensures
        trim_end(s).len() > 0 ==> trim_end(s)[0] == s[0],
    decreases s.len(),
{
    if s.len() > 0 && white_space(s.last()) {
        lemma_trim_end_keeps_head(s.drop_last());
    }
}

/// All characters of the text are white space.
pub open spec fn is_blank(s: Seq<char>) -> bool {
    forall|i: int| 0 <= i < s.len() ==> white_space(#[trigger] s[i])
}

/// Trimming takes off white space at the ends and nothing else: the text is what is
/// left, between two blank pieces, and what is left neither begins nor ends with white
/// space.
pub proof fn trimming_takes_off_blanks(s: Seq<char>) -> (r: (Seq<char>, Seq<char>))
    ensures
        s == r.0 + trimmed(s) + r.1,
        is_blank(r.0),
        is_blank(r.1),
        trimmed(s).len() > 0 ==> !white_space(trimmed(s)[0]) && !white_space(trimmed(s).last()),
{
    trimming_settles(s);
    let front = lemma_trim_start_takes_off_blanks(s);
    let back = lemma_trim_end_takes_off_blanks(trim_start(s));
    assert(s =~= front + trimmed(s) + back);
    (front, back)
}

/// A text between blank pieces is trimmed to what it is trimmed to without them.
pub proof fn blanks_around_do_not_matter(front: Seq<char>, s: Seq<char>, back: Seq<char>)
    requires
        is_blank(front),
        is_blank(back),
    ensures
        trimmed(front + s + back) == trimmed(s),
{
    lemma_blank_front(front, s + back);
    assert(front + s + back =~= front + (s + back));
    if is_blank(s) {
        lemma_blank_front(s, back);
        lemma_blank_front(back, Seq::empty());
        lemma_blank_front(s, Seq::empty());
        assert(back + Seq::empty() =~= back);
        assert(s + Seq::empty() =~= s);
    } else {
        let i = choose|i: int| 0 <= i < s.len() && !white_space(#[trigger] s[i]);
        lemma_trim_start_stops(s, back, i);
        lemma_blank_back(trim_start(s), back);
    }
}

proof fn lemma_trim_start_takes_off_blanks(s: Seq<char>) -> (front: Seq<char>)
    ensures
        s == front + trim_start(s),
        is_blank(front),
    decreases s.len(),
{
    if s.len() > 0 && white_space(s[0]) {
        let rest = lemma_trim_start_takes_off_blanks(s.skip(1));
        let front = seq![s[0]] + rest;
        assert(s =~= seq![s[0]] + s.skip(1));
        assert(seq![s[0]] + (rest + trim_start(s)) =~= front + trim_start(s));
        front
    } else {
        assert(s =~= Seq::empty() + s);
        Seq::empty()
    }
}

proof fn lemma_trim_end_takes_off_blanks(s: Seq<char>) -> (back: Seq<char>)
    ensures
        s == trim_end(s) + back,
        is_blank(back),
    decreases s.len(),
{
    if s.len() > 0 && white_space(s.last()) {
        let rest = lemma_trim_end_takes_off_blanks(s.drop_last());
        let back = rest.push(s.last());
        assert(s =~= s.drop_last().push(s.last()));
        assert((trim_end(s) + rest).push(s.last()) =~= trim_end(s) + back);
        back
    } else {
        assert(s =~= s + Seq::empty());
        Seq::empty()
    }
}

proof fn lemma_blank_front(front: Seq<char>, s: Seq<char>)
    requires
        is_blank(front),
    ensures
        trim_start(front + s) == trim_start(s),
    decreases front.len(),
{
    if front.len() > 0 {
        lemma_blank_front(front.skip(1), s);
        assert((front + s)[0] == front[0]);
        assert((front + s).skip(1) =~= front.skip(1) + s);
    } else {
        assert(front + s =~= s);
    }
}

proof fn lemma_blank_back(s: Seq<char>, back: Seq<char>)
    requires
        is_blank(back),
    ensures
        trim_end(s + back) == trim_end(s),
    decreases back.len(),
{
    if back.len() > 0 {
        lemma_blank_back(s, back.drop_last());
        assert((s + back).last() == back[back.len() - 1]);
        assert((s + back).drop_last() =~= s + back.drop_last());
    } else {
        assert(s + back =~= s);
    }
}

proof fn lemma_trim_start_stops(s: Seq<char>, t: Seq<char>, i: int)
    requires
        0 <= i < s.len(),
        !white_space(s[i]),
    ensures
        trim_start(s + t) == trim_start(s) + t,
    decreases s.len(),
{
    assert((s + t)[0] == s[0]);
    if white_space(s[0]) {
        assert((s + t).skip(1) =~= s.skip(1) + t);
        assert(s.skip(1)[i - 1] == s[i]);
        lemma_trim_start_stops(s.skip(1), t, i - 1);
    }
}

/// `s` without the white space at either end.
pub fn trim(s: &str) -> (r: String)
    ensures
        r@ == trimmed(s@),
{
    let v = chars_of(s);
    let mut from: usize = 0;
    assert(v@.skip(0) == v@);
    while from < v.len() && v[from].is_whitespace()
        invariant
            from <= v@.len(),
            trim_start(v@) == trim_start(v@.skip(from as int)),
        decreases v@.len() - from,
    {
        assert(v@.skip(from as int).skip(1) == v@.skip(from + 1));
        from += 1;
    }
    let mut to: usize = v.len();
    assert(v@.subrange(from as int, to as int) == v@.skip(from as int));
    while from < to && v[to - 1].is_whitespace()
        invariant
            from <= to <= v@.len(),
            trimmed(v@) == trim_end(v@.subrange(from as int, to as int)),
        decreases to,
    {
        assert(v@.subrange(from as int, to as int).drop_last() == v@.subrange(
            from as int,
            to - 1,
        ));
        to -= 1;
    }
    text_of(&v, from, to)
}

// ---------------------------------------------------------------------------
// Numbers
// ---------------------------------------------------------------------------

/// The character that stands for a digit below sixteen.
pub open spec fn digit(d: nat) -> char {
    "0123456789abcdef"@[d as int]
}

/// A number in decimal, without leading zeros.
pub open spec fn decimal(n: nat) -> Seq<char>
    decreases n,
{
    if n < 10 {
        seq![digit(n)]
    } else {
        decimal(n / 10).push(digit(n % 10))
    }
}

/// A number in hexadecimal, with exactly `width` digits.
pub open spec fn hexadecimal(n: nat, width: nat) -> Seq<char>
    decreases width,
{
    if width == 0 {
        Seq::empty()
    } else {
        hexadecimal(n / 16, (width - 1) as nat).push(digit(n % 16))
    }
}

/// The value of a digit, by its place in ASCII.
pub open spec fn digit_value(c: char) -> int {
    if 48 <= c as int <= 57 {
        c as int - 48
    } else {
        c as int - 87
    }
}

/// The number that a row of digits stands for in a positional system.
pub open spec fn number_read(s: Seq<char>, base: int) -> int
    decreases s.len(),
{
    if s.len() == 0 {
        0
    } else {
        number_read(s.drop_last(), base) * base + digit_value(s.last())
    }
}

/// The character is a decimal digit.
pub open spec fn is_decimal_digit(c: char) -> bool {
    48 <= c as int <= 57
}

/// A number in decimal reads back as that number. It is made of decimal digits, and
/// only the number zero begins with a zero.
pub proof fn decimals_read_back(n: nat)
    ensures
        number_read(decimal(n), 10) == n,
        decimal(n).len() > 0,
        forall|i: int| 0 <= i < decimal(n).len() ==> is_decimal_digit(#[trigger] decimal(n)[i]),
        decimal(n)[0] == '0' ==> n == 0,
    decreases n,
{
    reveal_strlit("0123456789abcdef");
    reveal_with_fuel(number_read, 2);
    let d = decimal(n);
    if n >= 10 {
        decimals_read_back(n / 10);
        assert(d.drop_last() =~= decimal(n / 10));
        assert(d[0] == decimal(n / 10)[0]);
    } else {
        assert(d.drop_last() =~= Seq::empty());
    }
}

/// A number in hexadecimal has the digits that were asked for, and reads back as that
/// number, as far as they reach.
pub proof fn hexadecimals_read_back(n: nat, width: nat)
    ensures
        number_read(hexadecimal(n, width), 16) == n as int % vstd::arithmetic::power::pow(16, width),
        hexadecimal(n, width).len() == width,
    decreases width,
{
    if width == 0 {
        vstd::arithmetic::power::lemma_pow0(16);
    } else {
        let less = (width - 1) as nat;
        hexadecimals_read_back(n / 16, less);
        reveal_strlit("0123456789abcdef");
        let h = hexadecimal(n, width);
        assert(h.drop_last() =~= hexadecimal(n / 16, less));
        assert(digit_value(h.last()) == n % 16);
        let p = vstd::arithmetic::power::pow(16, less);
        assert(vstd::arithmetic::power::pow(16, width) == 16 * p) by {
            reveal(vstd::arithmetic::power::pow);
        }
        vstd::arithmetic::power::lemma_pow_positive(16, less);
        vstd::arithmetic::div_mod::lemma_mod_breakdown(n as int, 16, p);
    }
}

/// The character that stands for `d`.
pub fn digit_char(d: u8) -> (c: char)
    requires
        d < 16,
    ensures
        c == digit(d as nat),
{
    let digits = "0123456789abcdef";
    proof {
        reveal_strlit("0123456789abcdef");
    }
    digits.get_char(d as usize)
}

/// `n` in decimal.
pub fn decimal_text(n: u64) -> (r: String)
    ensures
        r@ == decimal(n as nat),
    decreases n,
{
    let mut r = if n < 10 {
        String::new()
    } else {
        decimal_text(n / 10)
    };
    r.push(digit_char((n % 10) as u8));
    r
}

/// `n` in hexadecimal, with eight digits.
pub fn hexadecimal_text(n: u32) -> (r: String)
    ensures
        r@ == hexadecimal(n as nat, 8),
{
    hexadecimal_digits(n, 8)
}

fn hexadecimal_digits(n: u32, width: u8) -> (r: String)
    ensures
        r@ == hexadecimal(n as nat, width as nat),
    decreases width,
{
    if width == 0 {
        String::new()
    } else {
        let mut r = hexadecimal_digits(n / 16, width - 1);
        r.push(digit_char((n % 16) as u8));
        r
    }
}

} // verus!
