//! Parsing of colour settings: `RRGGBB` hex colours and comma-separated lists of them.
use vstd::prelude::*;

verus! {

broadcast use vstd::string::axiom_spec_iter;

/// A colour as red, green and blue bytes.
pub type Rgb = [u8; 3];

/// Unicode `White_Space` characters, the ones `str::trim` removes.
pub open spec fn is_white_space(c: char) -> bool {
    ||| '\u{9}' <= c <= '\u{d}'
    ||| c == ' '
    ||| c == '\u{85}'
    ||| c == '\u{a0}'
    ||| c == '\u{1680}'
    ||| '\u{2000}' <= c <= '\u{200a}'
    ||| c == '\u{2028}'
    ||| c == '\u{2029}'
    ||| c == '\u{202f}'
    ||| c == '\u{205f}'
    ||| c == '\u{3000}'
}

/// `s` without its leading white space.
pub open spec fn trim_start(s: Seq<char>) -> Seq<char>
    decreases s.len(),
{
    if s.len() > 0 && is_white_space(s[0]) {
        trim_start(s.drop_first())
    } else {
        s
    }
}

/// `s` without its trailing white space.
pub open spec fn trim_end(s: Seq<char>) -> Seq<char>
    decreases s.len(),
{
    if s.len() > 0 && is_white_space(s.last()) {
        trim_end(s.drop_last())
    } else {
        s
    }
}

/// `s` without leading `#` characters.
pub open spec fn strip_hashes(s: Seq<char>) -> Seq<char>
    decreases s.len(),
{
    if s.len() > 0 && s[0] == '#' {
        strip_hashes(s.drop_first())
    } else {
        s
    }
}

/// The value of a hexadecimal digit, either case.
pub open spec fn hex_digit(c: char) -> Option<u8> {
    if '0' <= c <= '9' {
        Some((c as u32 - '0' as u32) as u8)
    } else if 'a' <= c <= 'f' {
        Some((c as u32 - 'a' as u32 + 10) as u8)
    } else if 'A' <= c <= 'F' {
        Some((c as u32 - 'A' as u32 + 10) as u8)
    } else {
        None
    }
}

/// The byte that a two-character base-16 numeral denotes: two digits, or a `+`
/// sign and one digit.
pub open spec fn hex_byte(a: char, b: char) -> Option<u8> {
    if a == '+' {
        hex_digit(b)
    } else {
        match (hex_digit(a), hex_digit(b)) {
            (Some(x), Some(y)) => Some((16 * x + y) as u8),
            _ => None,
        }
    }
}

/// Whether every character is ASCII.
pub open spec fn all_ascii(s: Seq<char>) -> bool {
    forall|i: int| 0 <= i < s.len() ==> (#[trigger] s[i]) as u32 <= 0x7f
}

/// The colour a setting denotes: after trimming white space and leading `#`s,
/// six ASCII characters forming three base-16 bytes.
pub open spec fn spec_parse_rgb(text: Seq<char>) -> Option<Seq<u8>> {
    let t = strip_hashes(trim_end(trim_start(text)));
    if t.len() == 6 && all_ascii(t) {
        match (hex_byte(t[0], t[1]), hex_byte(t[2], t[3]), hex_byte(t[4], t[5])) {
            (Some(r), Some(g), Some(b)) => Some(seq![r, g, b]),
            _ => None,
        }
    } else {
        None
    }
}

/// The pieces of `s` between commas, in order: one more than there are commas,
/// empty pieces included.
pub open spec fn split_commas(s: Seq<char>) -> Seq<Seq<char>>
    decreases s.len(),
{
    if s.len() == 0 {
        seq![Seq::empty()]
    } else {
        let init = split_commas(s.drop_last());
        if s.last() == ',' {
            init.push(Seq::empty())
        } else {
            init.update(init.len() - 1, init.last().push(s.last()))
        }
    }
}

/// The colours of a comma-separated list: `expected` entries, each a colour.
pub open spec fn spec_parse_color_list(text: Seq<char>, expected: nat) -> Option<Seq<Seq<u8>>> {
    let pieces = split_commas(text);
    if pieces.len() == expected && forall|i: int|
        0 <= i < pieces.len() ==> (#[trigger] spec_parse_rgb(pieces[i])) is Some {
        Some(pieces.map_values(|p: Seq<char>| spec_parse_rgb(p).unwrap()))
    } else {
        None
    }
}

/// Whether `c` is a decimal digit.
pub open spec fn is_decimal_digit(c: char) -> bool {
    '0' <= c <= '9'
}

/// The number a string of decimal digits denotes.
pub open spec fn decimal_value(digits: Seq<char>) -> nat
    decreases digits.len(),
{
    if digits.len() == 0 {
        0
    } else {
        decimal_value(digits.drop_last()) * 10 + (digits.last() as nat - '0' as nat) as nat
    }
}

/// The digits of an unsigned decimal numeral: an optional `+` sign, then at least
/// one decimal digit and nothing else.
pub open spec fn numeral_digits(text: Seq<char>) -> Option<Seq<char>> {
    let digits = unsigned_part(text);
    if digits.len() > 0 && all_decimal(digits) {
        Some(digits)
    } else {
        None
    }
}

/// `text` without a leading `+` sign.
pub open spec fn unsigned_part(text: Seq<char>) -> Seq<char> {
    if text.len() > 0 && text[0] == '+' { text.drop_first() } else { text }
}

/// Whether every character is a decimal digit.
pub open spec fn all_decimal(s: Seq<char>) -> bool {
    forall|i: int| 0 <= i < s.len() ==> is_decimal_digit(#[trigger] s[i])
}

/// The `u64` a setting denotes: a decimal numeral whose value fits in a `u64`.
pub open spec fn spec_parse_u64(text: Seq<char>) -> Option<u64> {
    match numeral_digits(text) {
        Some(d) => if decimal_value(d) <= u64::MAX { Some(decimal_value(d) as u64) } else { None },
        None => None,
    }
}

/// The upper-case base-16 digit of a value below 16.
pub open spec fn hex_char(v: u8) -> char {
    if v < 10 {
        ('0' as u8 + v) as char
    } else {
        ('A' as u8 + v - 10) as char
    }
}

/// The two upper-case base-16 digits of a byte.
pub open spec fn hex_pair(b: u8) -> Seq<char> {
    seq![hex_char(b / 16), hex_char(b % 16)]
}

/// A colour written `#RRGGBB`.
pub open spec fn rgb_setting(rgb: Seq<u8>) -> Seq<char> {
    seq!['#'] + hex_pair(rgb[0]) + hex_pair(rgb[1]) + hex_pair(rgb[2])
}

proof fn lemma_hex_pair(b: u8)
    ensures
        hex_byte(hex_pair(b)[0], hex_pair(b)[1]) == Some(b),
        hex_pair(b)[0] as u32 <= 0x7f,
        hex_pair(b)[1] as u32 <= 0x7f,
        !is_white_space(hex_pair(b)[1]),
        hex_pair(b)[0] != '#',
        hex_pair(b)[0] != '+',
{
    let hi = b / 16;
    let lo = b % 16;
    assert(b == 16 * hi + lo);
}

/// Every colour written `#RRGGBB` reads back as that colour.
pub proof fn law_rgb_setting_roundtrip(rgb: Seq<u8>)
    requires
        rgb.len() == 3,
    ensures
        spec_parse_rgb(rgb_setting(rgb)) == Some(rgb),
{
    let s = rgb_setting(rgb);
    let digits = hex_pair(rgb[0]) + hex_pair(rgb[1]) + hex_pair(rgb[2]);
    lemma_hex_pair(rgb[0]);
    lemma_hex_pair(rgb[1]);
    lemma_hex_pair(rgb[2]);
    assert(s.len() == 7);
    assert(trim_start(s) == s);
    assert(s.last() == hex_pair(rgb[2])[1]);
    assert(trim_end(s) == s);
    assert(s.drop_first() =~= digits);
    assert(strip_hashes(s.drop_first()) == digits);
    assert(strip_hashes(s) == digits);
    assert(all_ascii(digits));
    assert(seq![rgb[0], rgb[1], rgb[2]] =~= rgb);
}

/// Whether every character is white space.
pub open spec fn all_white_space(s: Seq<char>) -> bool {
    forall|i: int| 0 <= i < s.len() ==> is_white_space(#[trigger] s[i])
}

/// Whether every character is `#`.
pub open spec fn all_hashes(s: Seq<char>) -> bool {
    forall|i: int| 0 <= i < s.len() ==> #[trigger] s[i] == '#'
}

proof fn lemma_trim_start_prefix(pre: Seq<char>, rest: Seq<char>)
    requires
        all_white_space(pre),
        rest.len() > 0,
        !is_white_space(rest[0]),
    ensures
        trim_start(pre + rest) == rest,
    decreases pre.len(),
{
    if pre.len() == 0 {
        assert(pre + rest =~= rest);
    } else {
        assert((pre + rest).drop_first() =~= pre.drop_first() + rest);
        lemma_trim_start_prefix(pre.drop_first(), rest);
    }
}

proof fn lemma_trim_end_suffix(rest: Seq<char>, suf: Seq<char>)
    requires
        all_white_space(suf),
        rest.len() > 0,
        !is_white_space(rest.last()),
    ensures
        trim_end(rest + suf) == rest,
    decreases suf.len(),
{
    if suf.len() == 0 {
        assert(rest + suf =~= rest);
    } else {
        assert((rest + suf).drop_last() =~= rest + suf.drop_last());
        lemma_trim_end_suffix(rest, suf.drop_last());
    }
}

proof fn lemma_strip_hashes_prefix(hashes: Seq<char>, rest: Seq<char>)
    requires
        all_hashes(hashes),
        rest.len() > 0,
        rest[0] != '#',
    ensures
        strip_hashes(hashes + rest) == rest,
    decreases hashes.len(),
{
    if hashes.len() == 0 {
        assert(hashes + rest =~= rest);
    } else {
        assert((hashes + rest).drop_first() =~= hashes.drop_first() + rest);
        lemma_strip_hashes_prefix(hashes.drop_first(), rest);
    }
}

proof fn lemma_hex_digit_char(c: char)
    requires
        hex_digit(c) is Some,
    ensures
        !is_white_space(c),
        c != '#',
        c != '+',
        c as u32 <= 0x7f,
        hex_digit(c)->0 < 16,
{
}

/// Six base-16 digits (either case), preceded by any number of `#`s and
/// surrounded by any white space, read as the colour whose bytes the digit pairs
/// denote.
pub proof fn law_rgb_digits_read_as_colour(
    pre: Seq<char>,
    hashes: Seq<char>,
    digits: Seq<char>,
    suf: Seq<char>,
)
    requires
        all_white_space(pre),
        all_hashes(hashes),
        all_white_space(suf),
        digits.len() == 6,
        forall|j: int| 0 <= j < 6 ==> hex_digit(#[trigger] digits[j]) is Some,
    ensures
        spec_parse_rgb(pre + hashes + digits + suf) == Some(
            seq![
                (16 * hex_digit(digits[0])->0 + hex_digit(digits[1])->0) as u8,
                (16 * hex_digit(digits[2])->0 + hex_digit(digits[3])->0) as u8,
                (16 * hex_digit(digits[4])->0 + hex_digit(digits[5])->0) as u8,
            ],
        ),
{
    assert forall|j: int| 0 <= j < 6 implies {
        &&& !is_white_space(#[trigger] digits[j])
        &&& digits[j] != '#'
        &&& digits[j] != '+'
        &&& digits[j] as u32 <= 0x7f
    } by {
        lemma_hex_digit_char(digits[j]);
    }
    let core = hashes + digits;
    if hashes.len() > 0 {
        assert(core[0] == hashes[0]);
    } else {
        assert(core[0] == digits[0]);
    }
    assert(!is_white_space(core[0]));
    assert(pre + hashes + digits + suf =~= pre + (core + suf));
    assert((core + suf)[0] == core[0]);
    lemma_trim_start_prefix(pre, core + suf);
    assert(core.last() == digits[5]);
    lemma_trim_end_suffix(core, suf);
    lemma_strip_hashes_prefix(hashes, digits);
    assert(all_ascii(digits));
}

/// The decimal digit character of a value below ten.
pub open spec fn decimal_char(d: nat) -> char {
    ('0' as u8 + d) as char
}

/// The decimal numeral of `n`, without leading zeros.
pub open spec fn decimal_numeral(n: nat) -> Seq<char>
    decreases n,
{
    if n < 10 {
        seq![decimal_char(n)]
    } else {
        decimal_numeral(n / 10).push(decimal_char(n % 10))
    }
}

proof fn lemma_decimal_numeral(n: nat)
    ensures
        decimal_numeral(n).len() > 0,
        all_decimal(decimal_numeral(n)),
        decimal_value(decimal_numeral(n)) == n,
        decimal_numeral(n)[0] != '+',
    decreases n,
{
    if n >= 10 {
        lemma_decimal_numeral(n / 10);
        let s = decimal_numeral(n);
        assert(s.drop_last() =~= decimal_numeral(n / 10));
        assert(s[0] == decimal_numeral(n / 10)[0]);
        assert(s.last() == decimal_char(n % 10));
        assert(decimal_char(n % 10) as nat == '0' as nat + n % 10);
        assert(n == (n / 10) * 10 + n % 10);
        assert(decimal_value(s) == decimal_value(s.drop_last()) * 10 + (s.last() as nat - '0' as nat) as nat);
        assert(decimal_value(s.drop_last()) == n / 10);
    } else {
        let s = decimal_numeral(n);
        assert(s.drop_last() =~= Seq::<char>::empty());
        assert(decimal_char(n) as nat == '0' as nat + n);
        assert(s.last() == decimal_char(n));
        assert(decimal_value(s.drop_last()) == 0);
        assert(decimal_value(s) == decimal_value(s.drop_last()) * 10 + (s.last() as nat - '0' as nat) as nat);
    }
}

/// The decimal numeral of a number, with or without a `+` sign, reads as that
/// number when it fits in a `u64`, and is refused when it does not.
pub proof fn law_decimal_numeral_reads_back(n: nat)
    ensures
        n <= u64::MAX ==> spec_parse_u64(decimal_numeral(n)) == Some(n as u64),
        n <= u64::MAX ==> spec_parse_u64(seq!['+'] + decimal_numeral(n)) == Some(n as u64),
        n > u64::MAX ==> spec_parse_u64(decimal_numeral(n)) is None,
        n > u64::MAX ==> spec_parse_u64(seq!['+'] + decimal_numeral(n)) is None,
{
    lemma_decimal_numeral(n);
    assert((seq!['+'] + decimal_numeral(n)).drop_first() =~= decimal_numeral(n));
}

/// Whether `s` holds no comma.
pub open spec fn no_comma(s: Seq<char>) -> bool {
    forall|i: int| 0 <= i < s.len() ==> #[trigger] s[i] != ','
}

proof fn lemma_split_commas_nonempty(s: Seq<char>)
    ensures
        split_commas(s).len() > 0,
    decreases s.len(),
{
    if s.len() > 0 {
        lemma_split_commas_nonempty(s.drop_last());
    }
}

/// Text without commas is a single piece.
pub proof fn law_text_without_commas_is_one_piece(s: Seq<char>)
    requires
        no_comma(s),
    ensures
        split_commas(s) == seq![s],
    decreases s.len(),
{
    if s.len() == 0 {
        assert(s =~= Seq::<char>::empty());
        assert(split_commas(s) =~= seq![s]);
    } else {
        law_text_without_commas_is_one_piece(s.drop_last());
        assert(s[s.len() - 1] != ',');
        assert(s.drop_last().push(s.last()) =~= s);
        let init = split_commas(s.drop_last());
        assert(init == seq![s.drop_last()]);
        assert(init.len() == 1);
        assert(split_commas(s) == init.update(0, init.last().push(s.last())));
        assert(split_commas(s) =~= seq![s]);
    }
}

/// The first comma ends the first piece; the pieces of the rest follow.
pub proof fn law_first_comma_ends_first_piece(a: Seq<char>, b: Seq<char>)
    requires
        no_comma(a),
    ensures
        split_commas(a + seq![','] + b) == seq![a] + split_commas(b),
    decreases b.len(),
{
    let t = a + seq![','] + b;
    if b.len() == 0 {
        assert(t.drop_last() =~= a);
        law_text_without_commas_is_one_piece(a);
        assert(split_commas(b) =~= seq![Seq::<char>::empty()]);
        assert(split_commas(t) =~= seq![a] + split_commas(b));
    } else {
        law_first_comma_ends_first_piece(a, b.drop_last());
        assert(t.drop_last() =~= a + seq![','] + b.drop_last());
        assert(t.last() == b.last());
        let init = split_commas(b.drop_last());
        lemma_split_commas_nonempty(b.drop_last());
        assert(split_commas(t.drop_last()) == seq![a] + init);
        if b.last() == ',' {
            assert(split_commas(t) == (seq![a] + init).push(Seq::empty()));
            assert(split_commas(b) == init.push(Seq::empty()));
        } else {
            assert(split_commas(t) == (seq![a] + init).update(init.len() as int, init.last().push(b.last())));
            assert(split_commas(b) == init.update(init.len() - 1, init.last().push(b.last())));
        }
        assert(split_commas(t) =~= seq![a] + split_commas(b));
    }
}

/// A list of colours separated by a comma parses as its first colour followed by
/// the colours of the rest, one more entry than the rest.
pub proof fn law_color_list_prepends_first_entry(a: Seq<char>, b: Seq<char>, n: nat)
    requires
        no_comma(a),
    ensures
        spec_parse_color_list(a + seq![','] + b, n + 1) == (match (
            spec_parse_rgb(a),
            spec_parse_color_list(b, n),
        ) {
            (Some(c), Some(rest)) => Some(seq![c] + rest),
            _ => None,
        }),
{
    law_first_comma_ends_first_piece(a, b);
    let pieces = split_commas(a + seq![','] + b);
    let rest = split_commas(b);
    assert(pieces == seq![a] + rest);
    assert(forall|i: int| 0 <= i < rest.len() ==> #[trigger] pieces[i + 1] == rest[i]);
    if spec_parse_rgb(a) is Some && spec_parse_color_list(b, n) is Some {
        assert forall|i: int| 0 <= i < pieces.len() implies (#[trigger] spec_parse_rgb(
            pieces[i],
        )) is Some by {
            if i > 0 {
                assert(pieces[i] == rest[i - 1]);
            }
        }
        assert(pieces.map_values(|p: Seq<char>| spec_parse_rgb(p).unwrap()) =~= seq![
            spec_parse_rgb(a).unwrap(),
        ] + rest.map_values(|p: Seq<char>| spec_parse_rgb(p).unwrap()));
    } else if spec_parse_rgb(a) is None {
        assert(pieces[0] == a);
    } else if rest.len() != n {
    } else {
        let i = choose|i: int| 0 <= i < rest.len() && (#[trigger] spec_parse_rgb(rest[i])) is None;
        assert(pieces[i + 1] == rest[i]);
    }
}

/// A single entry without commas parses as a one-colour list.
pub proof fn law_single_entry_list(a: Seq<char>)
    requires
        no_comma(a),
    ensures
        spec_parse_color_list(a, 1) == (match spec_parse_rgb(a) {
            Some(c) => Some(seq![c]),
            None => None,
        }),
{
    law_text_without_commas_is_one_piece(a);
    let pieces = split_commas(a);
    assert(pieces[0] == a);
    if spec_parse_rgb(a) is Some {
        assert(pieces.map_values(|p: Seq<char>| spec_parse_rgb(p).unwrap()) =~= seq![
            spec_parse_rgb(a).unwrap(),
        ]);
    }
}

/// The characters of a string slice.
fn chars_of(text: &str) -> (chars: Vec<char>)
    ensures
        chars@ == text@,
{
    let mut chars: Vec<char> = Vec::new();
    for c in it: text.chars()
        invariant
            chars@ == it.seq().take(it.index() as int),
    {
        chars.push(c);
    }
    chars
}

fn is_white_space_char(c: char) -> (b: bool)
    ensures
        b == is_white_space(c),
{
    ('\u{9}' <= c && c <= '\u{d}') || c == ' ' || c == '\u{85}' || c == '\u{a0}' || c == '\u{1680}'
        || ('\u{2000}' <= c && c <= '\u{200a}') || c == '\u{2028}' || c == '\u{2029}' || c
        == '\u{202f}' || c == '\u{205f}' || c == '\u{3000}'
}

fn hex_digit_value(c: char) -> (v: Option<u8>)
    ensures
        v == hex_digit(c),
{
    if '0' <= c && c <= '9' {
        Some((c as u32 - '0' as u32) as u8)
    } else if 'a' <= c && c <= 'f' {
        Some((c as u32 - 'a' as u32 + 10) as u8)
    } else if 'A' <= c && c <= 'F' {
        Some((c as u32 - 'A' as u32 + 10) as u8)
    } else {
        None
    }
}

fn hex_byte_value(a: char, b: char) -> (v: Option<u8>)
    ensures
        v == hex_byte(a, b),
{
    if a == '+' {
        return hex_digit_value(b);
    }
    match (hex_digit_value(a), hex_digit_value(b)) {
        (Some(x), Some(y)) => Some(16 * x + y),
        _ => None,
    }
}

/// The bounds `lo .. hi` of `chars[lo0 .. hi0]` with leading white space removed.
fn skip_white_space_start(chars: &Vec<char>, lo0: usize, hi: usize) -> (lo: usize)
    requires
        lo0 <= hi <= chars@.len(),
    ensures
        lo0 <= lo <= hi,
        chars@.subrange(lo as int, hi as int) == trim_start(chars@.subrange(lo0 as int, hi as int)),
{
    let mut lo = lo0;
    while lo < hi && is_white_space_char(chars[lo])
        invariant
            lo0 <= lo <= hi <= chars@.len(),
            trim_start(chars@.subrange(lo as int, hi as int)) == trim_start(
                chars@.subrange(lo0 as int, hi as int),
            ),
        decreases hi - lo,
    {
        assert(chars@.subrange(lo as int, hi as int).drop_first() =~= chars@.subrange(
            lo + 1,
            hi as int,
        ));
        lo = lo + 1;
    }
    lo
}

/// The end of `chars[lo .. hi0]` with trailing white space removed.
fn skip_white_space_end(chars: &Vec<char>, lo: usize, hi0: usize) -> (hi: usize)
    requires
        lo <= hi0 <= chars@.len(),
    ensures
        lo <= hi <= hi0,
        chars@.subrange(lo as int, hi as int) == trim_end(chars@.subrange(lo as int, hi0 as int)),
{
    let mut hi = hi0;
    while lo < hi && is_white_space_char(chars[hi - 1])
        invariant
            lo <= hi <= hi0 <= chars@.len(),
            trim_end(chars@.subrange(lo as int, hi as int)) == trim_end(
                chars@.subrange(lo as int, hi0 as int),
            ),
        decreases hi - lo,
    {
        assert(chars@.subrange(lo as int, hi as int).drop_last() =~= chars@.subrange(
            lo as int,
            hi - 1,
        ));
        hi = hi - 1;
    }
    hi
}

/// The start of `chars[lo0 .. hi]` with leading `#`s removed.
fn skip_hashes(chars: &Vec<char>, lo0: usize, hi: usize) -> (lo: usize)
    requires
        lo0 <= hi <= chars@.len(),
    ensures
        lo0 <= lo <= hi,
        chars@.subrange(lo as int, hi as int) == strip_hashes(chars@.subrange(lo0 as int, hi as int)),
{
    let mut lo = lo0;
    while lo < hi && chars[lo] == '#'
        invariant
            lo0 <= lo <= hi <= chars@.len(),
            strip_hashes(chars@.subrange(lo as int, hi as int)) == strip_hashes(
                chars@.subrange(lo0 as int, hi as int),
            ),
        decreases hi - lo,
    {
        assert(chars@.subrange(lo as int, hi as int).drop_first() =~= chars@.subrange(
            lo + 1,
            hi as int,
        ));
        lo = lo + 1;
    }
    lo
}

/// The colour a sequence of characters denotes (see `spec_parse_rgb`).
#[verifier::rlimit(40)]
pub fn parse_rgb_chars(chars: &Vec<char>) -> (rgb: Option<Rgb>)
    ensures
        match rgb {
            Some(c) => spec_parse_rgb(chars@) == Some(c@),
            None => spec_parse_rgb(chars@) is None,
        },
{
    assert(chars@.subrange(0, chars@.len() as int) =~= chars@);
    let lo = skip_white_space_start(chars, 0, chars.len());
    let hi = skip_white_space_end(chars, lo, chars.len());
    let lo = skip_hashes(chars, lo, hi);
    let ghost t = chars@.subrange(lo as int, hi as int);

    if hi - lo != 6 {
        return None;
    }
    let mut i: usize = lo;
    while i < hi
        invariant
            lo <= i <= hi <= chars@.len(),
            t == chars@.subrange(lo as int, hi as int),
            t == strip_hashes(trim_end(trim_start(chars@))),
            hi - lo == 6,
            forall|j: int| lo <= j < i ==> (#[trigger] chars@[j]) as u32 <= 0x7f,
        decreases hi - i,
    {
        if chars[i] as u32 > 0x7f {
            assert(t[i - lo] == chars@[i as int]);
            return None;
        }
        i = i + 1;
    }
    assert(all_ascii(t)) by {
        assert forall|j: int| 0 <= j < t.len() implies (#[trigger] t[j]) as u32 <= 0x7f by {
            assert(t[j] == chars@[lo + j]);
        }
    }
    let r = hex_byte_value(chars[lo], chars[lo + 1]);
    let g = hex_byte_value(chars[lo + 2], chars[lo + 3]);
    let b = hex_byte_value(chars[lo + 4], chars[lo + 5]);
    match (r, g, b) {
        (Some(r), Some(g), Some(b)) => {
            let rgb: Rgb = [r, g, b];
            assert(rgb@ =~= seq![r, g, b]);
            Some(rgb)
        },
        _ => None,
    }
}

/// Parse an `RRGGBB` colour, optionally preceded by `#`s and surrounded by white space.
pub fn parse_rgb(text: &str) -> (rgb: Option<Rgb>)
    ensures
        match rgb {
            Some(c) => spec_parse_rgb(text@) == Some(c@),
            None => spec_parse_rgb(text@) is None,
        },
{
    let chars = chars_of(text);
    parse_rgb_chars(&chars)
}

/// Parse an unsigned decimal numeral (an optional `+` and decimal digits);
/// `None` when it is malformed or does not fit in a `u64`.
pub fn parse_u64(text: &str) -> (value: Option<u64>)
    ensures
        value == spec_parse_u64(text@),
{
    let chars = chars_of(text);
    let start: usize = if chars.len() > 0 && chars[0] == '+' { 1 } else { 0 };
    let ghost digits = unsigned_part(text@);
    assert(digits =~= chars@.subrange(start as int, chars@.len() as int));
    if start == chars.len() {
        return None;
    }
    let mut value: u64 = 0;
    let mut overflow = false;
    let mut i: usize = start;
    while i < chars.len()
        invariant
            start <= i <= chars@.len(),
            start < chars@.len(),
            chars@ == text@,
            digits == unsigned_part(text@),
            digits == chars@.subrange(start as int, chars@.len() as int),
            forall|j: int| start <= j < i ==> is_decimal_digit(#[trigger] chars@[j]),
            !overflow ==> value == decimal_value(chars@.subrange(start as int, i as int)),
            overflow ==> decimal_value(chars@.subrange(start as int, i as int)) > u64::MAX,
        decreases chars@.len() - i,
    {
        let c = chars[i];
        if !('0' <= c && c <= '9') {
            assert(!is_decimal_digit(digits[i - start]));
            assert(!all_decimal(digits));
            return None;
        }
        let ghost prefix = chars@.subrange(start as int, i + 1);
        assert(prefix.drop_last() =~= chars@.subrange(start as int, i as int));
        assert(prefix.last() == c);
        let d: u64 = (c as u32 - '0' as u32) as u64;
        if !overflow {
            if value > (u64::MAX - d) / 10 {
                overflow = true;
                assert(decimal_value(prefix) > u64::MAX) by (nonlinear_arith)
                    requires
                        decimal_value(prefix) == value * 10 + d,
                        value > (u64::MAX - d) / 10,
                        d <= 9,
                ;
            } else {
                assert(value * 10 + d <= u64::MAX) by (nonlinear_arith)
                    requires
                        value <= (u64::MAX - d) / 10,
                        d <= 9,
                ;
                value = value * 10 + d;
            }
        } else {
            assert(decimal_value(prefix) >= decimal_value(prefix.drop_last())) by (nonlinear_arith)
                requires
                    decimal_value(prefix) == decimal_value(prefix.drop_last()) * 10 + d,
            ;
        }
        i = i + 1;
    }
    assert(chars@.subrange(start as int, chars@.len() as int) == digits);
    assert(numeral_digits(text@) == Some(digits));
    if overflow {
        None
    } else {
        Some(value)
    }
}

/// A numeric setting: the value of `text` when it is a `u64` numeral, `default`
/// when it is absent or malformed.
pub fn setting_u64(text: Option<&str>, default: u64) -> (value: u64)
    ensures
        value == match text {
            Some(t) => match spec_parse_u64(t@) {
                Some(v) => v,
                None => default,
            },
            None => default,
        },
{
    match text {
        Some(t) => match parse_u64(t) {
            Some(v) => v,
            None => default,
        },
        None => default,
    }
}

fn split_on_commas(chars: &Vec<char>) -> (pieces: Vec<Vec<char>>)
    ensures
        pieces@.map_values(|v: Vec<char>| v@) == split_commas(chars@),
{
    let mut done: Vec<Vec<char>> = Vec::new();
    let mut cur: Vec<char> = Vec::new();
    assert(chars@.take(0) =~= Seq::<char>::empty());
    assert(done@.map_values(|v: Vec<char>| v@).push(cur@) =~= seq![Seq::<char>::empty()]);
    for i in 0..chars.len()
        invariant
            split_commas(chars@.take(i as int)) == done@.map_values(|v: Vec<char>| v@).push(cur@),
    {
        let ghost prev = done@.map_values(|v: Vec<char>| v@).push(cur@);
        assert(chars@.take(i + 1).drop_last() =~= chars@.take(i as int));
        assert(chars@.take(i + 1).last() == chars@[i as int]);
        if chars[i] == ',' {
            let finished = cur;
            done.push(finished);
            cur = Vec::new();
            assert(done@.map_values(|v: Vec<char>| v@).push(cur@) =~= prev.push(Seq::empty()));
        } else {
            cur.push(chars[i]);
            assert(done@.map_values(|v: Vec<char>| v@).push(cur@) =~= prev.update(
                prev.len() - 1,
                prev.last().push(chars@[i as int]),
            ));
        }
    }
    assert(chars@.take(chars@.len() as int) =~= chars@);
    let ghost before = done@.map_values(|v: Vec<char>| v@).push(cur@);
    done.push(cur);
    assert(done@.map_values(|v: Vec<char>| v@) =~= before);
    done
}

/// Parse a comma-separated list of exactly `expected` colours; `None` when the
/// count differs or an entry is not a colour.
pub fn parse_color_list(text: &str, expected: usize) -> (colors: Option<Vec<Rgb>>)
    ensures
        match colors {
            Some(v) => spec_parse_color_list(text@, expected as nat) == Some(
                v@.map_values(|c: Rgb| c@),
            ),
            None => spec_parse_color_list(text@, expected as nat) is None,
        },
{
    let chars = chars_of(text);
    let pieces = split_on_commas(&chars);
    let ghost spec_pieces = split_commas(text@);
    assert(pieces@.len() == spec_pieces.len());
    assert(forall|i: int| 0 <= i < pieces@.len() ==> #[trigger] pieces@[i]@ == spec_pieces[i]) by {
        assert forall|i: int| 0 <= i < pieces@.len() implies #[trigger] pieces@[i]@ == spec_pieces[i] by {
            assert(pieces@.map_values(|v: Vec<char>| v@)[i] == pieces@[i]@);
        }
    }
    let mut colors: Vec<Rgb> = Vec::new();
    for i in 0..pieces.len()
        invariant
            pieces@.len() == spec_pieces.len(),
            spec_pieces == split_commas(text@),
            forall|j: int| 0 <= j < pieces@.len() ==> #[trigger] pieces@[j]@ == spec_pieces[j],
            colors@.len() == i,
            forall|j: int|
                0 <= j < i ==> spec_parse_rgb(spec_pieces[j]) == Some(
                    (#[trigger] colors@[j])@,
                ),
    {
        match parse_rgb_chars(&pieces[i]) {
            Some(c) => colors.push(c),
            None => {
                assert(spec_parse_rgb(spec_pieces[i as int]) is None);
                return None;
            },
        }
    }
    if pieces.len() != expected {
        return None;
    }
    assert forall|i: int| 0 <= i < spec_pieces.len() implies (#[trigger] spec_parse_rgb(
        spec_pieces[i],
    )) is Some by {
        assert(spec_parse_rgb(spec_pieces[i]) == Some(colors@[i]@));
    }
    assert(colors@.map_values(|c: Rgb| c@) =~= spec_pieces.map_values(
        |p: Seq<char>| spec_parse_rgb(p).unwrap(),
    ));
    Some(colors)
}

} // verus!
