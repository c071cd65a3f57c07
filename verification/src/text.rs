//! Text helpers: decimal rendering, lossy UTF-8 decoding, whitespace
//! trimming and parsing of unsigned decimal numbers.

use vstd::prelude::*;
use vstd::string::*;
use vstd::utf8::*;

verus! {

/// The character of the decimal digit `d`.
pub open spec fn digit_char(d: int) -> char {
    if d == 0 {
        '0'
    } else if d == 1 {
        '1'
    } else if d == 2 {
        '2'
    } else if d == 3 {
        '3'
    } else if d == 4 {
        '4'
    } else if d == 5 {
        '5'
    } else if d == 6 {
        '6'
    } else if d == 7 {
        '7'
    } else if d == 8 {
        '8'
    } else {
        '9'
    }
}

/// The decimal rendering of `n`, most significant digit first, without
/// leading zeros (`0` renders as `"0"`).
pub open spec fn spec_decimal(n: nat) -> Seq<char>
    decreases n,
{
    if n < 10 {
        seq![digit_char(n as int)]
    } else {
        spec_decimal(n / 10).push(digit_char((n % 10) as int))
    }
}

/// The decimal rendering of `n` left-padded with zeros to at least two
/// characters, as `{:02}` renders it.
pub open spec fn spec_decimal_2(n: nat) -> Seq<char> {
    if n < 10 {
        seq!['0'] + spec_decimal(n)
    } else {
        spec_decimal(n)
    }
}

/// The string literal holding the decimal digit `d`.
fn digit_str(d: u64) -> (s: &'static str)
    requires
        d < 10,
    ensures
        s@ == seq![digit_char(d as int)],
{
    proof {
        reveal_strlit("0");
        reveal_strlit("1");
        reveal_strlit("2");
        reveal_strlit("3");
        reveal_strlit("4");
        reveal_strlit("5");
        reveal_strlit("6");
        reveal_strlit("7");
        reveal_strlit("8");
        reveal_strlit("9");
    }
    match d {
        0 => "0",
        1 => "1",
        2 => "2",
        3 => "3",
        4 => "4",
        5 => "5",
        6 => "6",
        7 => "7",
        8 => "8",
        _ => "9",
    }
}

/// Appends the decimal rendering of `n` to `s`.
pub fn push_decimal(s: &mut String, n: u64)
    ensures
        final(s)@ == old(s)@ + spec_decimal(n as nat),
    decreases n,
{
    if n >= 10 {
        push_decimal(s, n / 10);
    }
    s.append(digit_str(n % 10));
}

/// Appends the decimal rendering of `n`, zero-padded to two characters.
pub fn push_decimal_2(s: &mut String, n: u64)
    ensures
        final(s)@ == old(s)@ + spec_decimal_2(n as nat),
{
    if n < 10 {
        proof {
            reveal_strlit("0");
        }
        s.append("0");
    }
    push_decimal(s, n);
}

/// The decimal rendering of `n` as a new string.
pub fn decimal_string(n: u64) -> (s: String)
    ensures
        s@ == spec_decimal(n as nat),
{
    let mut s = String::new();
    push_decimal(&mut s, n);
    s
}

/// What lossy UTF-8 decoding makes of a byte sequence: valid sequences
/// decode to their characters, every invalid sequence becomes U+FFFD.
pub uninterp spec fn utf8_lossy(bytes: Seq<u8>) -> Seq<char>;

/// Decodes bytes as UTF-8, replacing invalid sequences with U+FFFD.
///
/// Calls `String::from_utf8_lossy`. The contract names its result and
/// states what its documentation says of valid input: the characters that
/// the bytes encode. What it makes of invalid input is left to the name.
#[verifier::external_body]
pub(crate) fn from_utf8_lossy(bytes: &[u8]) -> (s: String)
    ensures
        s@ == utf8_lossy(bytes@),
        valid_utf8(bytes@) ==> s@ == decode_utf8(bytes@),
{
    String::from_utf8_lossy(bytes).into_owned()
}

/// A character with the Unicode `White_Space` property, which is what
/// `char::is_whitespace` tests.
pub open spec fn is_unicode_whitespace(c: char) -> bool {
    let u = c as u32;
    ||| 0x09 <= u <= 0x0D
    ||| u == 0x20
    ||| u == 0x85
    ||| u == 0xA0
    ||| u == 0x1680
    ||| 0x2000 <= u <= 0x200A
    ||| u == 0x2028
    ||| u == 0x2029
    ||| u == 0x202F
    ||| u == 0x205F
    ||| u == 0x3000
}

/// `s` without its leading whitespace.
pub open spec fn trim_start(s: Seq<char>) -> Seq<char>
    decreases s.len(),
{
    if s.len() > 0 && is_unicode_whitespace(s[0]) {
        trim_start(s.drop_first())
    } else {
        s
    }
}

/// `s` without its trailing whitespace.
pub open spec fn trim_end(s: Seq<char>) -> Seq<char>
    decreases s.len(),
{
    if s.len() > 0 && is_unicode_whitespace(s.last()) {
        trim_end(s.drop_last())
    } else {
        s
    }
}

/// `s` without leading and trailing whitespace.
pub open spec fn spec_trim(s: Seq<char>) -> Seq<char> {
    trim_end(trim_start(s))
}

/// Removes leading and trailing whitespace.
///
/// Calls `str::trim`, whose documentation defines whitespace by the
/// Unicode `White_Space` property; the contract states that result.
#[verifier::external_body]
pub(crate) fn str_trim(s: &str) -> (r: &str)
    ensures
        r@ == spec_trim(s@),
{
    s.trim()
}

/// An ASCII decimal digit.
pub open spec fn is_digit(b: u8) -> bool {
    0x30 <= b <= 0x39
}

/// Every byte of `s` is an ASCII decimal digit.
pub open spec fn all_digits(s: Seq<u8>) -> bool {
    forall|i: int| 0 <= i < s.len() ==> is_digit(#[trigger] s[i])
}

/// The number that a sequence of decimal digits denotes.
pub open spec fn digits_value(s: Seq<u8>) -> nat
    decreases s.len(),
{
    if s.len() == 0 {
        0
    } else {
        digits_value(s.drop_last()) * 10 + (s.last() - 0x30) as nat
    }
}

/// The digits of an unsigned number: a single leading `+` is dropped.
pub open spec fn unsigned_digits(s: Seq<u8>) -> Seq<u8> {
    if s.len() > 0 && s[0] == 0x2B {
        s.drop_first()
    } else {
        s
    }
}

/// What `str::parse` gives for an unsigned integer type whose largest value
/// is `max`: an optional `+` followed by at least one decimal digit, and a
/// value that fits; anything else is an error.
pub open spec fn spec_parse_unsigned(s: Seq<u8>, max: nat) -> Option<nat> {
    let d = unsigned_digits(s);
    if d.len() > 0 && all_digits(d) && digits_value(d) <= max {
        Some(digits_value(d))
    } else {
        None
    }
}

proof fn lemma_digits_value_step(s: Seq<u8>, i: int)
    requires
        0 <= i < s.len(),
    ensures
        digits_value(s.subrange(0, i + 1)) == digits_value(s.subrange(0, i)) * 10 + (s[i]
            - 0x30) as nat,
{
    assert(s.subrange(0, i + 1).drop_last() =~= s.subrange(0, i));
}

/// Parses the bytes of a decimal number, with an optional leading `+`, that
/// is at most `max`, as `str::parse` does for unsigned types.
pub fn parse_unsigned(bytes: &[u8], max: u64) -> (r: Option<u64>)
    ensures
        r matches Some(v) ==> spec_parse_unsigned(bytes@, max as nat) == Some(v as nat),
        r is None ==> spec_parse_unsigned(bytes@, max as nat) is None,
{
    let mut start: usize = 0;
    if bytes.len() > 0 && bytes[0] == 0x2B {
        start = 1;
    }
    let ghost d = unsigned_digits(bytes@);
    assert(d =~= bytes@.subrange(start as int, bytes@.len() as int));
    if start == bytes.len() {
        return None;
    }
    let mut acc: u64 = 0;
    let mut i: usize = start;
    while i < bytes.len()
        invariant
            start <= i <= bytes@.len(),
            d =~= bytes@.subrange(start as int, bytes@.len() as int),
            d == unsigned_digits(bytes@),
            acc <= max,
            acc == digits_value(d.subrange(0, i - start)),
            all_digits(d.subrange(0, i - start)),
        decreases bytes@.len() - i,
    {
        let b = bytes[i];
        proof {
            lemma_digits_value_step(d, i - start);
        }
        assert(d[i - start] == b);
        if b < 0x30 || b > 0x39 {
            assert(!is_digit(d[i - start]));
            assert(!all_digits(d));
            return None;
        }
        let digit = (b - 0x30) as u64;
        if digit > max || acc > (max - digit) / 10 {
            assert(acc * 10 + digit > max) by (nonlinear_arith)
                requires
                    digit > max || acc > (max - digit) / 10,
                    digit <= 9,
            ;
            proof {
                lemma_digits_value_bound(d, i - start + 1, max as nat);
            }
            return None;
        }
        assert(acc * 10 + digit <= max) by (nonlinear_arith)
            requires
                acc <= (max - digit) / 10,
                digit <= max,
        ;
        acc = acc * 10 + digit;
        i = i + 1;
        assert(all_digits(d.subrange(0, i - start))) by {
            assert forall|k: int| 0 <= k < i - start implies is_digit(
                #[trigger] d.subrange(0, i - start)[k],
            ) by {
                if k < i - start - 1 {
                    assert(d.subrange(0, i - start)[k] == d.subrange(0, i - start - 1)[k]);
                }
            }
        }
    }
    assert(d.subrange(0, i - start) =~= d);
    Some(acc)
}

proof fn lemma_digits_value_bound(d: Seq<u8>, k: int, max: nat)
    requires
        0 < k <= d.len(),
        digits_value(d.subrange(0, k)) > max,
    ensures
        all_digits(d) ==> digits_value(d) > max,
    decreases d.len() - k,
{
    if k < d.len() {
        lemma_digits_value_step(d, k);
        lemma_digits_value_bound(d, k + 1, max);
    } else {
        assert(d.subrange(0, k) =~= d);
    }
}

/// The string made of the given characters.
///
/// Calls `FromIterator<&char>` for `String` (through `collect`), which
/// appends the characters in order; the contract states that string.
#[verifier::external_body]
pub(crate) fn string_from_chars(chars: &[char]) -> (s: String)
    ensures
        s@ == chars@,
{
    chars.iter().collect()
}

/// The characters of a string, in order.
pub fn chars_of(s: &str) -> (v: Vec<char>)
    ensures
        v@ == s@,
{
    broadcast use vstd::string::group_string_axioms;

    let mut v: Vec<char> = Vec::new();
    for c in it: s.chars()
        invariant
            v@ == it.seq().subrange(0, it.index() as int),
    {
        v.push(c);
    }
    v
}

/// The pieces of `s` between the `sep` characters, as `str::split` with a
/// character pattern yields them: `n` separators give `n + 1` pieces, some
/// of which may be empty.
pub open spec fn spec_split_char(s: Seq<char>, sep: char) -> Seq<Seq<char>>
    decreases s.len(),
{
    if s.len() == 0 {
        seq![Seq::empty()]
    } else {
        let r = spec_split_char(s.drop_last(), sep);
        if s.last() == sep {
            r.push(Seq::empty())
        } else {
            r.update(r.len() - 1, r.last().push(s.last()))
        }
    }
}

/// Splitting always yields at least one piece.
pub proof fn lemma_split_char_nonempty(s: Seq<char>, sep: char)
    ensures
        spec_split_char(s, sep).len() >= 1,
    decreases s.len(),
{
    if s.len() > 0 {
        lemma_split_char_nonempty(s.drop_last(), sep);
    }
}

/// The views of a sequence of strings.
pub open spec fn strings_view(v: Seq<String>) -> Seq<Seq<char>> {
    v.map_values(|s: String| s@)
}

/// The pieces of a character sequence between the `sep` characters, as
/// `str::split` yields them.
pub fn split_chars(chars: &[char], sep: char) -> (pieces: Vec<Vec<char>>)
    ensures
        pieces@.map_values(|v: Vec<char>| v@) == spec_split_char(chars@, sep),
{
    let mut pieces: Vec<Vec<char>> = Vec::new();
    let mut cur: Vec<char> = Vec::new();
    let mut i: usize = 0;
    assert(chars@.subrange(0, 0) =~= Seq::<char>::empty());
    assert(pieces@.map_values(|v: Vec<char>| v@).push(cur@) =~= spec_split_char(
        chars@.subrange(0, 0),
        sep,
    ));
    while i < chars.len()
        invariant
            i <= chars@.len(),
            pieces@.map_values(|v: Vec<char>| v@).push(cur@) == spec_split_char(
                chars@.subrange(0, i as int),
                sep,
            ),
        decreases chars@.len() - i,
    {
        let c = chars[i];
        let ghost pre = chars@.subrange(0, i as int);
        proof {
            assert(chars@.subrange(0, i + 1).drop_last() =~= pre);
            lemma_split_char_nonempty(pre, sep);
        }
        if c == sep {
            pieces.push(cur);
            cur = Vec::new();
        } else {
            cur.push(c);
        }
        i = i + 1;
        assert(pieces@.map_values(|v: Vec<char>| v@).push(cur@) =~= spec_split_char(
            chars@.subrange(0, i as int),
            sep,
        ));
    }
    pieces.push(cur);
    assert(chars@.subrange(0, i as int) =~= chars@);
    assert(pieces@.map_values(|v: Vec<char>| v@) =~= spec_split_char(chars@, sep));
    pieces
}

/// The pieces of `s` between the `sep` characters, as `str::split` yields
/// them.
pub fn split_char(s: &str, sep: char) -> (pieces: Vec<String>)
    ensures
        strings_view(pieces@) == spec_split_char(s@, sep),
{
    let chars = chars_of(s);
    let parts = split_chars(chars.as_slice(), sep);
    let mut pieces: Vec<String> = Vec::new();
    let mut i: usize = 0;
    while i < parts.len()
        invariant
            i <= parts@.len(),
            parts@.map_values(|v: Vec<char>| v@) == spec_split_char(s@, sep),
            strings_view(pieces@) == parts@.map_values(|v: Vec<char>| v@).subrange(0, i as int),
        decreases parts@.len() - i,
    {
        let piece = string_from_chars(parts[i].as_slice());
        assert(piece@ == parts@.map_values(|v: Vec<char>| v@)[i as int]);
        let ghost before = pieces@;
        pieces.push(piece);
        assert(strings_view(pieces@) =~= strings_view(before).push(piece@));
        i = i + 1;
        assert(strings_view(pieces@) =~= parts@.map_values(|v: Vec<char>| v@).subrange(
            0,
            i as int,
        ));
    }
    assert(parts@.map_values(|v: Vec<char>| v@).subrange(0, i as int) =~= parts@.map_values(
        |v: Vec<char>| v@,
    ));
    pieces
}

/// `pat` occurs in `s` at `i`.
pub open spec fn occurs_at(s: Seq<char>, pat: Seq<char>, i: int) -> bool {
    0 <= i && i + pat.len() <= s.len() && s.subrange(i, i + pat.len()) == pat
}

/// The first index at or after `from` where `pat` occurs in `s`, or -1.
pub open spec fn spec_find(s: Seq<char>, pat: Seq<char>, from: int) -> int
    decreases s.len() + 1 - from,
{
    if from < 0 || from + pat.len() > s.len() {
        -1
    } else if occurs_at(s, pat, from) {
        from
    } else {
        spec_find(s, pat, from + 1)
    }
}

/// A search finds nothing or an occurrence at or after its start, and no
/// occurrence between its start and what it finds.
pub proof fn lemma_find(s: Seq<char>, pat: Seq<char>, from: int)
    requires
        0 <= from,
    ensures
        spec_find(s, pat, from) == -1 || (from <= spec_find(s, pat, from) && occurs_at(
            s,
            pat,
            spec_find(s, pat, from),
        )),
        forall|k: int|
            from <= k && (spec_find(s, pat, from) == -1 || k < spec_find(s, pat, from))
                ==> !occurs_at(s, pat, k),
    decreases s.len() + 1 - from,
{
    if from + pat.len() > s.len() {
    } else if !occurs_at(s, pat, from) {
        lemma_find(s, pat, from + 1);
    }
}
/// The trimmed, lossily decoded text of a byte field.
pub open spec fn spec_bytes_to_string(bytes: Seq<u8>) -> Seq<char> {
    spec_trim(utf8_lossy(bytes))
}

/// The text of a byte field: decoded lossily and trimmed of whitespace.
pub fn bytes_to_string(bytes: &[u8]) -> (r: Option<String>)
    ensures
        r matches Some(s) && s@ == spec_bytes_to_string(bytes@),
{
    let s = from_utf8_lossy(bytes);
    let t = str_trim(s.as_str());
    Some(t.to_owned())
}

/// Ten to the power `n`.
pub open spec fn pow10(n: nat) -> nat
    decreases n,
{
    if n == 0 {
        1
    } else {
        10 * pow10((n - 1) as nat)
    }
}

/// A number of `n` decimal digits is below ten to the power `n`.
pub proof fn lemma_digits_value_below(d: Seq<u8>)
    requires
        all_digits(d),
    ensures
        digits_value(d) < pow10(d.len()),
    decreases d.len(),
{
    if d.len() > 0 {
        let p = d.drop_last();
        assert(all_digits(p)) by {
            assert forall|i: int| 0 <= i < p.len() implies is_digit(#[trigger] p[i]) by {
                assert(p[i] == d[i]);
            }
        }
        lemma_digits_value_below(p);
        assert(is_digit(d[d.len() - 1]));
        let v = digits_value(p);
        let q = pow10(p.len());
        assert(v * 10 + (d.last() - 0x30) < 10 * q) by (nonlinear_arith)
            requires
                v < q,
                0 <= d.last() - 0x30 <= 9,
        ;
    }
}

/// The byte that stands for a character where only ASCII matters: the
/// character's own code below 128, and 0xFF (no ASCII character) above.
pub open spec fn narrow(c: char) -> u8 {
    if (c as u32) < 128 {
        c as u8
    } else {
        0xff
    }
}

/// The bytes that stand for a sequence of characters where only ASCII
/// matters.
pub open spec fn spec_narrow(s: Seq<char>) -> Seq<u8> {
    s.map_values(|c: char| narrow(c))
}

/// The bytes that stand for a sequence of characters where only ASCII
/// matters.
pub fn narrow_chars(s: &[char]) -> (v: Vec<u8>)
    ensures
        v@ == spec_narrow(s@),
{
    let mut v: Vec<u8> = Vec::new();
    let mut i: usize = 0;
    while i < s.len()
        invariant
            i <= s@.len(),
            v@ == spec_narrow(s@.subrange(0, i as int)),
        decreases s@.len() - i,
    {
        let c = s[i];
        let b = if (c as u32) < 128 {
            c as u8
        } else {
            0xff
        };
        v.push(b);
        i = i + 1;
        assert(v@ =~= spec_narrow(s@.subrange(0, i as int)));
    }
    assert(s@.subrange(0, i as int) =~= s@);
    v
}

/// The pieces of `s` from `from` on between the occurrences of `pat`, taken
/// from the left without overlap, as `str::split` with a string pattern
/// yields them.
pub open spec fn spec_split_str_from(s: Seq<char>, pat: Seq<char>, from: int) -> Seq<Seq<char>>
    recommends
        pat.len() > 0,
        0 <= from <= s.len(),
    decreases s.len() + 1 - from,
    when pat.len() > 0 && 0 <= from <= s.len()
{
    let i = spec_find(s, pat, from);
    if i < 0 {
        seq![s.subrange(from, s.len() as int)]
    } else {
        proof {
            lemma_find(s, pat, from);
        }
        seq![s.subrange(from, i)] + spec_split_str_from(s, pat, i + pat.len())
    }
}

/// The pieces of `s` between the occurrences of a nonempty `pat`.
pub open spec fn spec_split_str(s: Seq<char>, pat: Seq<char>) -> Seq<Seq<char>> {
    spec_split_str_from(s, pat, 0)
}

/// Whether `pat` occurs in `s` at `i`.
fn occurs_at_exec(s: &[char], pat: &[char], i: usize) -> (b: bool)
    ensures
        b == occurs_at(s@, pat@, i as int),
{
    let n = s.len();
    if pat.len() > n || i > n - pat.len() {
        return false;
    }
    let mut k: usize = 0;
    while k < pat.len()
        invariant
            k <= pat@.len(),
            n == s@.len(),
            i + pat@.len() <= s@.len(),
            forall|j: int| 0 <= j < k ==> s@[i + j] == pat@[j],
        decreases pat@.len() - k,
    {
        if s[i + k] != pat[k] {
            assert(s@.subrange(i as int, i + pat@.len())[k as int] != pat@[k as int]);
            return false;
        }
        k = k + 1;
    }
    assert(s@.subrange(i as int, i + pat@.len()) =~= pat@);
    true
}

/// The first index at or after `from` where `pat` occurs in `s`.
pub fn find_chars(s: &[char], pat: &[char], from: usize) -> (r: Option<usize>)
    ensures
        match r {
            Some(i) => spec_find(s@, pat@, from as int) == i,
            None => spec_find(s@, pat@, from as int) == -1,
        },
{
    let n = s.len();
    if from > n || pat.len() > n - from {
        return None;
    }
    let mut i = from;
    while i < n - pat.len()
        invariant
            from <= i <= n - pat@.len(),
            pat@.len() <= n,
            n == s@.len(),
            spec_find(s@, pat@, from as int) == spec_find(s@, pat@, i as int),
        decreases n - i,
    {
        if occurs_at_exec(s, pat, i) {
            return Some(i);
        }
        i = i + 1;
    }
    if occurs_at_exec(s, pat, i) {
        return Some(i);
    }
    assert(spec_find(s@, pat@, i + 1) == -1);
    None
}

/// The pieces of `s` between the occurrences of a nonempty `pat`, as
/// `str::split` with a string pattern yields them.
pub fn split_str_chars(s: &[char], pat: &[char]) -> (pieces: Vec<Vec<char>>)
    requires
        pat@.len() > 0,
    ensures
        pieces@.map_values(|v: Vec<char>| v@) == spec_split_str(s@, pat@),
{
    let n = s.len();
    let mut pieces: Vec<Vec<char>> = Vec::new();
    let mut pos: usize = 0;
    loop
        invariant
            pat@.len() > 0,
            n == s@.len(),
            pos <= n,
            pieces@.map_values(|v: Vec<char>| v@) + spec_split_str_from(s@, pat@, pos as int)
                == spec_split_str(s@, pat@),
        decreases n + 1 - pos,
    {
        let ghost before = pieces@;
        match find_chars(s, pat, pos) {
            Some(i) => {
                proof {
                    lemma_find(s@, pat@, pos as int);
                }
                let piece = slice_to_vec(s, pos, i);
                pieces.push(piece);
                assert(pieces@.map_values(|v: Vec<char>| v@) =~= before.map_values(
                    |v: Vec<char>| v@,
                ).push(s@.subrange(pos as int, i as int)));
                pos = i + pat.len();
            },
            None => {
                let piece = slice_to_vec(s, pos, n);
                pieces.push(piece);
                assert(pieces@.map_values(|v: Vec<char>| v@) =~= before.map_values(
                    |v: Vec<char>| v@,
                ).push(s@.subrange(pos as int, n as int)));
                assert(pieces@.map_values(|v: Vec<char>| v@) =~= spec_split_str(s@, pat@));
                return pieces;
            },
        }
    }
}

/// The characters of `s` from `from` to `to`.
pub fn slice_to_vec(s: &[char], from: usize, to: usize) -> (v: Vec<char>)
    requires
        from <= to <= s@.len(),
    ensures
        v@ == s@.subrange(from as int, to as int),
{
    let mut v: Vec<char> = Vec::new();
    let mut i = from;
    while i < to
        invariant
            from <= i <= to,
            to <= s@.len(),
            v@ == s@.subrange(from as int, i as int),
        decreases to - i,
    {
        v.push(s[i]);
        i = i + 1;
        assert(v@ =~= s@.subrange(from as int, i as int));
    }
    v
}

/// The unsigned number that a piece of text holds, as `str::parse` reads it
/// for a type whose largest value is `max`.
pub open spec fn spec_number(piece: Seq<char>, max: nat) -> Option<nat> {
    spec_parse_unsigned(spec_narrow(piece), max)
}

/// The unsigned number that a string holds, as `str::parse` reads it for a
/// type whose largest value is `max`.
pub fn parse_number(s: &str, max: u64) -> (r: Option<u64>)
    ensures
        r matches Some(v) ==> spec_number(s@, max as nat) == Some(v as nat),
        r is None ==> spec_number(s@, max as nat) is None,
{
    let chars = chars_of(s);
    let bytes = narrow_chars(chars.as_slice());
    parse_unsigned(bytes.as_slice(), max)
}

/// The unsigned number that a sequence of characters holds, as
/// `str::parse` reads it for a type whose largest value is `max`.
pub fn parse_number_chars(chars: &[char], max: u64) -> (r: Option<u64>)
    ensures
        r matches Some(v) ==> spec_number(chars@, max as nat) == Some(v as nat),
        r is None ==> spec_number(chars@, max as nat) is None,
{
    let bytes = narrow_chars(chars);
    parse_unsigned(bytes.as_slice(), max)
}

/// Splitting at a separator between two texts splits each of them.
pub proof fn lemma_split_char_concat(a: Seq<char>, b: Seq<char>, sep: char)
    ensures
        spec_split_char(a + seq![sep] + b, sep) == spec_split_char(a, sep) + spec_split_char(
            b,
            sep,
        ),
    decreases b.len(),
{
    let u = a + seq![sep] + b;
    if b.len() == 0 {
        assert(u.drop_last() =~= a);
        assert(spec_split_char(b, sep) =~= seq![Seq::<char>::empty()]);
        assert(spec_split_char(u, sep) =~= spec_split_char(a, sep) + spec_split_char(b, sep));
    } else {
        let b0 = b.drop_last();
        assert(u.drop_last() =~= a + seq![sep] + b0);
        lemma_split_char_concat(a, b0, sep);
        lemma_split_char_nonempty(b0, sep);
        lemma_split_char_nonempty(a, sep);
        let ra = spec_split_char(a, sep);
        let rb = spec_split_char(b0, sep);
        if b.last() == sep {
            assert(spec_split_char(u, sep) =~= (ra + rb).push(Seq::empty()));
            assert(spec_split_char(b, sep) =~= rb.push(Seq::empty()));
            assert(spec_split_char(u, sep) =~= ra + spec_split_char(b, sep));
        } else {
            let r = ra + rb;
            assert(spec_split_char(u, sep) == r.update(r.len() - 1, r.last().push(b.last())));
            assert(spec_split_char(b, sep) == rb.update(rb.len() - 1, rb.last().push(b.last())));
            assert(r.update(r.len() - 1, r.last().push(b.last())) =~= ra + rb.update(
                rb.len() - 1,
                rb.last().push(b.last()),
            ));
        }
    }
}

/// A text without the separator is a single piece.
pub proof fn lemma_split_char_none(a: Seq<char>, sep: char)
    requires
        forall|i: int| 0 <= i < a.len() ==> a[i] != sep,
    ensures
        spec_split_char(a, sep) == seq![a],
    decreases a.len(),
{
    if a.len() == 0 {
        assert(a =~= Seq::<char>::empty());
    } else {
        let a0 = a.drop_last();
        assert(a[a.len() - 1] != sep);
        assert forall|i: int| 0 <= i < a0.len() implies a0[i] != sep by {
            assert(a0[i] == a[i]);
        }
        lemma_split_char_none(a0, sep);
        let r = spec_split_char(a0, sep);
        assert(r.len() == 1 && r.last() == a0);
        assert(spec_split_char(a, sep) == r.update(0, a0.push(a.last())));
        assert(a0.push(a.last()) =~= a);
        assert(r.update(0, a0.push(a.last())) =~= seq![a]);
    }
}

/// Every character of a decimal rendering is a digit.
pub proof fn lemma_decimal_digits(n: nat)
    ensures
        forall|i: int|
            0 <= i < spec_decimal(n).len() ==> '0' <= #[trigger] spec_decimal(n)[i] <= '9',
        spec_decimal(n).len() >= 1,
    decreases n,
{
    if n >= 10 {
        lemma_decimal_digits(n / 10);
    }
}

/// The number that a decimal rendering denotes is the number rendered.
pub proof fn lemma_decimal_value(n: nat)
    ensures
        all_digits(spec_narrow(spec_decimal(n))),
        digits_value(spec_narrow(spec_decimal(n))) == n,
        spec_narrow(spec_decimal(n)).len() == spec_decimal(n).len(),
    decreases n,
{
    if n < 10 {
        let b = narrow(digit_char(n as int));
        assert(b == 0x30 + n);
        assert(spec_narrow(spec_decimal(n)) =~= seq![b]);
        assert(seq![b].drop_last() =~= Seq::<u8>::empty());
        assert(digits_value(Seq::<u8>::empty()) == 0);
        assert(digits_value(seq![b]) == digits_value(seq![b].drop_last()) * 10 + (b
            - 0x30) as nat);
    } else {
        lemma_decimal_value(n / 10);
        let p = spec_narrow(spec_decimal(n / 10));
        let c = digit_char((n % 10) as int);
        let q = p.push(narrow(c));
        assert(narrow(c) == 0x30 + n % 10);
        assert(spec_narrow(spec_decimal(n)) =~= q);
        assert(q.drop_last() =~= p);
        assert(digits_value(q) == digits_value(q.drop_last()) * 10 + (q.last() - 0x30) as nat);
        assert(digits_value(q) == (n / 10) * 10 + n % 10);
        assert forall|i: int| 0 <= i < q.len() implies is_digit(#[trigger] q[i]) by {
            if i < p.len() {
                assert(is_digit(p[i]));
            }
        }
    }
}

/// Leading zeros do not change the number that digits denote.
pub proof fn lemma_leading_zero(x: Seq<u8>)
    ensures
        digits_value(seq![0x30u8] + x) == digits_value(x),
    decreases x.len(),
{
    let y = seq![0x30u8] + x;
    if x.len() == 0 {
        assert(y.drop_last() =~= Seq::<u8>::empty());
        assert(y.last() == 0x30u8);
        assert(digits_value(Seq::<u8>::empty()) == 0);
        assert(digits_value(y) == digits_value(y.drop_last()) * 10 + (y.last() - 0x30) as nat);
        assert(x =~= Seq::<u8>::empty());
    } else {
        lemma_leading_zero(x.drop_last());
        assert(y.drop_last() =~= seq![0x30u8] + x.drop_last());
        assert(y.last() == x.last());
        assert(digits_value(y) == digits_value(y.drop_last()) * 10 + (y.last() - 0x30) as nat);
        assert(digits_value(x) == digits_value(x.drop_last()) * 10 + (x.last() - 0x30) as nat);
    }
}

/// Parsing a decimal rendering gives the number rendered.
pub proof fn lemma_parse_decimal(n: nat, max: nat)
    requires
        n <= max,
    ensures
        spec_number(spec_decimal(n), max) == Some(n),
{
    lemma_decimal_value(n);
    lemma_decimal_digits(n);
    let d = spec_narrow(spec_decimal(n));
    assert(d[0] != 0x2B) by {
        assert('0' <= spec_decimal(n)[0] <= '9');
    }
    assert(unsigned_digits(d) == d);
}

/// A decimal rendering of a number above `max` does not parse.
pub proof fn lemma_parse_decimal_too_big(n: nat, max: nat)
    requires
        n > max,
    ensures
        spec_number(spec_decimal(n), max) is None,
{
    lemma_decimal_value(n);
    lemma_decimal_digits(n);
    let d = spec_narrow(spec_decimal(n));
    assert(d[0] != 0x2B) by {
        assert('0' <= spec_decimal(n)[0] <= '9');
    }
    assert(unsigned_digits(d) == d);
}

/// Parsing a zero-padded two-digit rendering gives the number rendered.
pub proof fn lemma_parse_decimal_2(n: nat, max: nat)
    requires
        n <= max,
        n < 100,
    ensures
        spec_number(spec_decimal_2(n), max) == Some(n),
{
    if n < 10 {
        lemma_decimal_value(n);
        let d = spec_narrow(spec_decimal(n));
        assert(spec_narrow(seq!['0'] + spec_decimal(n)) =~= seq![0x30u8] + d);
        lemma_leading_zero(d);
        let e = seq![0x30u8] + d;
        assert(unsigned_digits(e) == e);
        assert forall|i: int| 0 <= i < e.len() implies is_digit(#[trigger] e[i]) by {
            if i > 0 {
                assert(e[i] == d[i - 1]);
            }
        }
    } else {
        lemma_parse_decimal(n, max);
    }
}

} // verus!
