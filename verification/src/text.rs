//! Text operations that the other modules share, with their meaning over
//! sequences of characters.

use vstd::prelude::*;

verus! {

/// The characters with the Unicode property `White_Space`.
pub open spec fn is_white_space(c: char) -> bool {
    let u = c as u32;
    ||| 0x09 <= u <= 0x0d
    ||| u == 0x20
    ||| u == 0x85
    ||| u == 0xa0
    ||| u == 0x1680
    ||| 0x2000 <= u <= 0x200a
    ||| u == 0x2028
    ||| u == 0x2029
    ||| u == 0x202f
    ||| u == 0x205f
    ||| u == 0x3000
}

/// Tells white space from other characters.
pub fn white_space(c: char) -> (r: bool)
    ensures
        r == is_white_space(c),
{
    let u: u32 = c as u32;
    0x09 <= u && u <= 0x0d || u == 0x20 || u == 0x85 || u == 0xa0 || u == 0x1680 || 0x2000 <= u && u
        <= 0x200a || u == 0x2028 || u == 0x2029 || u == 0x202f || u == 0x205f || u == 0x3000
}

/// `s` without its leading white space.
pub open spec fn trim_front(s: Seq<char>) -> Seq<char>
    decreases s.len(),
{
    if s.len() > 0 && is_white_space(s.first()) {
        trim_front(s.drop_first())
    } else {
        s
    }
}

/// `s` without its trailing white space.
pub open spec fn trim_back(s: Seq<char>) -> Seq<char>
    decreases s.len(),
{
    if s.len() > 0 && is_white_space(s.last()) {
        trim_back(s.drop_last())
    } else {
        s
    }
}

/// `s` without the white space at both ends.
pub open spec fn trimmed(s: Seq<char>) -> Seq<char> {
    trim_back(trim_front(s))
}

/// `str::trim` removes leading and trailing white space, which is what the
/// Unicode property `White_Space` says it is.
pub assume_specification[ str::trim ](s: &str) -> (r: &str)
    ensures
        r@ == trimmed(s@),
;

/// All characters of `s` are white space.
pub open spec fn is_blank(s: Seq<char>) -> bool {
    forall|i: int| 0 <= i < s.len() ==> is_white_space(#[trigger] s[i])
}

/// Leading white space in front of `s` goes.
proof fn lemma_trim_front_skips(blank: Seq<char>, s: Seq<char>)
    requires
        is_blank(blank),
    ensures
        trim_front(blank + s) == trim_front(s),
    decreases blank.len(),
{
    if blank.len() > 0 {
        assert(is_white_space(blank[0]));
        assert((blank + s).drop_first() == blank.drop_first() + s);
        lemma_trim_front_skips(blank.drop_first(), s);
    } else {
        assert(blank + s == s);
    }
}

/// Trailing white space behind `s` goes.
proof fn lemma_trim_back_skips(s: Seq<char>, blank: Seq<char>)
    requires
        is_blank(blank),
    ensures
        trim_back(s + blank) == trim_back(s),
    decreases blank.len(),
{
    if blank.len() > 0 {
        assert(is_white_space(blank[blank.len() - 1]));
        assert((s + blank).drop_last() == s + blank.drop_last());
        lemma_trim_back_skips(s, blank.drop_last());
    } else {
        assert(s + blank == s);
    }
}

/// Text behind `s` stays when leading white space goes, unless all of it goes.
proof fn lemma_trim_front_keeps(s: Seq<char>, blank: Seq<char>)
    requires
        is_blank(blank),
    ensures
        trim_front(s).len() > 0 ==> trim_front(s + blank) == trim_front(s) + blank,
        trim_front(s).len() == 0 ==> trim_front(s + blank).len() == 0,
    decreases s.len(),
{
    if s.len() == 0 {
        assert(s + blank == blank + s);
        lemma_trim_front_skips(blank, s);
    } else if is_white_space(s[0]) {
        assert((s + blank).drop_first() == s.drop_first() + blank);
        lemma_trim_front_keeps(s.drop_first(), blank);
    }
}

/// White space around a text does not change what trimming leaves of it.
pub proof fn trimming_ignores_white_space(before: Seq<char>, s: Seq<char>, after: Seq<char>)
    requires
        is_blank(before),
        is_blank(after),
    ensures
        trimmed(before + s + after) == trimmed(s),
{
    assert(before + s + after == before + (s + after));
    lemma_trim_front_skips(before, s + after);
    lemma_trim_front_keeps(s, after);
    if trim_front(s).len() > 0 {
        lemma_trim_back_skips(trim_front(s), after);
    } else {
        assert(trim_front(s + after) == trim_front(s));
    }
}

/// The lower-case letter of an ASCII capital; any other character itself.
pub open spec fn ascii_lower(c: char) -> char {
    if 'A' <= c <= 'Z' {
        ((c as u8) + 32) as char
    } else {
        c
    }
}

/// `s` with each ASCII capital as its lower-case letter.
pub open spec fn ascii_lowered(s: Seq<char>) -> Seq<char> {
    s.map_values(|c: char| ascii_lower(c))
}

/// Lowering letters commutes with removing leading white space.
proof fn lemma_lowered_front(s: Seq<char>)
    ensures
        trim_front(ascii_lowered(s)) == ascii_lowered(trim_front(s)),
    decreases s.len(),
{
    if s.len() > 0 {
        assert(ascii_lowered(s)[0] == ascii_lower(s[0]));
        assert(is_white_space(ascii_lower(s[0])) == is_white_space(s[0]));
        assert(ascii_lowered(s).drop_first() == ascii_lowered(s.drop_first()));
        lemma_lowered_front(s.drop_first());
    }
}

/// Lowering letters commutes with removing trailing white space.
proof fn lemma_lowered_back(s: Seq<char>)
    ensures
        trim_back(ascii_lowered(s)) == ascii_lowered(trim_back(s)),
    decreases s.len(),
{
    if s.len() > 0 {
        let last = s[s.len() - 1];
        assert(ascii_lowered(s).last() == ascii_lower(last));
        assert(is_white_space(ascii_lower(last)) == is_white_space(last));
        assert(ascii_lowered(s).drop_last() == ascii_lowered(s.drop_last()));
        lemma_lowered_back(s.drop_last());
    }
}

/// Lowering ASCII letters keeps a text inside or outside ASCII.
proof fn lemma_lowered_ascii(s: Seq<char>)
    ensures
        vstd::utf8::is_ascii_chars(ascii_lowered(s)) == vstd::utf8::is_ascii_chars(s),
{
    let lowered = ascii_lowered(s);
    assert forall|i: int| 0 <= i < s.len() implies ('\0' <= #[trigger] lowered[i] <= '\u{7f}')
        == ('\0' <= s[i] <= '\u{7f}') by {
        assert(lowered[i] == ascii_lower(s[i]));
    }
    if vstd::utf8::is_ascii_chars(lowered) {
        assert forall|i: int| 0 <= i < s.len() implies '\0' <= #[trigger] s[i] <= '\u{7f}' by {
            assert('\0' <= lowered[i] <= '\u{7f}');
        }
    }
}

/// Two texts that differ in the case of ASCII letters alone have the same trimmed
/// lower-case form.
pub proof fn lowercase_ignores_letter_case(s: Seq<char>, t: Seq<char>)
    requires
        ascii_lowered(s) == ascii_lowered(t),
    ensures
        lowercase(trimmed(s)) == lowercase(trimmed(t)),
{
    lemma_lowered_front(s);
    lemma_lowered_front(t);
    lemma_lowered_back(trim_front(s));
    lemma_lowered_back(trim_front(t));
    lemma_lowered_ascii(trimmed(s));
    lemma_lowered_ascii(trimmed(t));
}

/// What `str::to_lowercase` returns for text that is not all ASCII and holds no
/// ASCII capitals.
pub uninterp spec fn unicode_lowercase(s: Seq<char>) -> Seq<char>;

/// `s` in lower case.
pub open spec fn lowercase(s: Seq<char>) -> Seq<char> {
    if vstd::utf8::is_ascii_chars(s) {
        ascii_lowered(s)
    } else {
        unicode_lowercase(ascii_lowered(s))
    }
}

/// `str::to_lowercase` maps ASCII text letter by letter. What it does with
/// other text follows the Unicode tables and is only named here; the case of the
/// ASCII letters in it makes no difference, neither for themselves nor, as both
/// cases are cased letters, for a sigma beside them.
pub assume_specification[ str::to_lowercase ](s: &str) -> (r: String)
    ensures
        vstd::utf8::is_ascii_chars(s@) ==> r@ == ascii_lowered(s@),
        !vstd::utf8::is_ascii_chars(s@) ==> r@ == unicode_lowercase(ascii_lowered(s@)),
;

/// `String::push` appends one character.
pub assume_specification[ String::push ](s: &mut String, c: char)
    ensures
        final(s)@ == old(s)@.push(c),
;

/// `needle` stands somewhere in `s`.
pub open spec fn has_infix(s: Seq<char>, needle: Seq<char>) -> bool {
    exists|i: int|
        0 <= i <= s.len() - needle.len() && #[trigger] s.subrange(i, i + needle.len()) == needle
}

/// `str::contains` with a string pattern: whether the pattern is a substring.
#[verifier::external_body]
pub(crate) fn contains_text(s: &str, needle: &str) -> (r: bool)
    ensures
        r == has_infix(s@, needle@),
{
    s.contains(needle)
}

/// Whether two texts are the same.
pub fn same_text(a: &str, b: &str) -> (r: bool)
    ensures
        r == (a@ == b@),
{
    let x: &[u8] = a.as_bytes();
    let y: &[u8] = b.as_bytes();
    if x.len() != y.len() {
        return false;
    }
    for i in 0..x.len()
        invariant
            x@.len() == y@.len(),
            x@ == vstd::utf8::encode_utf8(a@),
            y@ == vstd::utf8::encode_utf8(b@),
            forall|j: int| 0 <= j < i ==> x@[j] == y@[j],
    {
        if x[i] != y[i] {
            return false;
        }
    }
    proof {
        assert(x@ == y@);
        vstd::utf8::encode_utf8_decode_utf8(a@);
        vstd::utf8::encode_utf8_decode_utf8(b@);
    }
    true
}

/// `prefix` is the beginning of `s`.
pub open spec fn has_prefix(s: Seq<char>, prefix: Seq<char>) -> bool {
    prefix.len() <= s.len() && s.take(prefix.len() as int) == prefix
}

/// What follows `prefix` in `s`, where `s` begins with it.
pub fn strip_prefix<'a>(s: &'a str, prefix: &str) -> (r: Option<&'a str>)
    ensures
        r is Some <==> has_prefix(s@, prefix@),
        r matches Some(rest) ==> s@ == prefix@ + rest@,
{
    let n: usize = prefix.unicode_len();
    let len: usize = s.unicode_len();
    if len < n {
        return None;
    }
    let head = s.substring_char(0, n);
    assert(head@ == s@.take(n as int));
    if !same_text(head, prefix) {
        return None;
    }
    let rest = s.substring_char(n, len);
    assert(s@ == prefix@ + rest@);
    Some(rest)
}

/// The pieces of `s` between separators; one more than there are separators.
pub open spec fn split_on(s: Seq<char>, separator: char) -> Seq<Seq<char>>
    decreases s.len(),
{
    if s.len() == 0 {
        seq![Seq::empty()]
    } else {
        let before = split_on(s.drop_last(), separator);
        if s.last() == separator {
            before.push(Seq::empty())
        } else {
            before.drop_last().push(before.last().push(s.last()))
        }
    }
}

/// Splits `s` at each `separator`.
pub fn split_text(s: &str, separator: char) -> (r: Vec<String>)
    ensures
        r@.map_values(|p: String| p@) == split_on(s@, separator),
{
    let mut pieces: Vec<String> = Vec::new();
    let mut current = String::new();
    for c in it: s.chars()
        invariant
            it.seq() == s@,
            pieces@.map_values(|p: String| p@).push(current@) == split_on(
                s@.take(it.index() as int),
                separator,
            ),
    {
        proof {
            let n = it.index() as int;
            assert(s@.take(n + 1).drop_last() == s@.take(n));
            assert(s@.take(n + 1).last() == c);
        }
        let ghost before = pieces@.map_values(|p: String| p@);
        if c == separator {
            let ghost piece = current@;
            pieces.push(current);
            assert(pieces@.map_values(|p: String| p@) == before.push(piece));
            current = String::new();
        } else {
            current.push(c);
            assert(before.push(current@).drop_last() == before);
        }
    }
    assert(s@.take(s@.len() as int) == s@);
    pieces.push(current);
    pieces
}

/// `c` is one of the digits `0` to `9`.
pub open spec fn is_digit(c: char) -> bool {
    '0' <= c <= '9'
}

/// Whether `s` consists of digits alone.
pub open spec fn all_digits(s: Seq<char>) -> bool {
    forall|i: int| 0 <= i < s.len() ==> is_digit(#[trigger] s[i])
}

/// The number that a sequence of digits stands for in base ten.
pub open spec fn digits_value(s: Seq<char>) -> int
    decreases s.len(),
{
    if s.len() == 0 {
        0
    } else {
        10 * digits_value(s.drop_last()) + (s.last() as int - '0' as int)
    }
}

/// The digits of `s`, which may follow one plus sign.
pub open spec fn unsigned_digits(s: Seq<char>) -> Seq<char> {
    if s.len() > 0 && s[0] == '+' {
        s.drop_first()
    } else {
        s
    }
}

/// The number that `s` writes down: an optional plus sign and then one or more
/// digits, and nothing else; `None` for any other text and for a number that is
/// too large.
pub open spec fn parsed_u64(s: Seq<char>) -> Option<u64> {
    let digits = unsigned_digits(s);
    if digits.len() > 0 && all_digits(digits) && digits_value(digits) <= u64::MAX {
        Some(digits_value(digits) as u64)
    } else {
        None
    }
}

/// More digits never make a number smaller.
proof fn lemma_digits_value_grows(s: Seq<char>, n: int)
    requires
        0 <= n <= s.len(),
        all_digits(s),
    ensures
        0 <= digits_value(s.take(n)) <= digits_value(s),
    decreases s.len(),
{
    if n == s.len() {
        assert(s.take(n) == s);
        if n > 0 {
            assert(is_digit(s[n - 1]));
            lemma_digits_value_grows(s.drop_last(), n - 1);
        }
    } else {
        assert(is_digit(s[s.len() - 1]));
        lemma_digits_value_grows(s.drop_last(), n);
        assert(s.drop_last().take(n) == s.take(n));
    }
}

/// Reads an unsigned number in base ten.
pub fn parse_u64(s: &str) -> (r: Option<u64>)
    ensures
        r == parsed_u64(s@),
{
    proof {
        reveal_strlit("+");
    }
    let digits = match strip_prefix(s, "+") {
        Some(rest) => {
            assert(s@[0] == '+');
            assert(s@.drop_first() == rest@);
            rest
        },
        None => {
            assert(s@.len() > 0 && s@[0] == '+' ==> s@.take(1) == "+"@);
            s
        },
    };
    assert(digits@ == unsigned_digits(s@));
    if digits.is_empty() {
        return None;
    }
    let mut value: u64 = 0;
    for c in it: digits.chars()
        invariant
            it.seq() == digits@,
            digits@ == unsigned_digits(s@),
            all_digits(digits@.take(it.index() as int)),
            value == digits_value(digits@.take(it.index() as int)),
    {
        let ghost n = it.index() as int;
        proof {
            assert(digits@[n] == c);
            assert(digits@.take(n + 1).drop_last() == digits@.take(n));
            assert(digits@.take(n + 1).last() == c);
        }
        if !('0' <= c && c <= '9') {
            assert(!is_digit(digits@[n]));
            return None;
        }
        let digit: u64 = (c as u32 - '0' as u32) as u64;
        if value > (u64::MAX - digit) / 10 {
            proof {
                if all_digits(digits@) {
                    lemma_digits_value_grows(digits@, n + 1);
                }
            }
            return None;
        }
        value = value * 10 + digit;
        assert(all_digits(digits@.take(n + 1)));
    }
    assert(digits@.take(digits@.len() as int) == digits@);
    Some(value)
}

/// `n` in base ten, without leading zeros.
pub open spec fn decimal(n: nat) -> Seq<char>
    decreases n,
{
    let digit = ('0' as u8 + n % 10) as u8 as char;
    if n < 10 {
        seq![digit]
    } else {
        decimal(n / 10).push(digit)
    }
}

/// Writes a number in base ten.
pub fn decimal_text(n: u64) -> (r: String)
    ensures
        r@ == decimal(n as nat),
    decreases n,
{
    let mut text = if n < 10 {
        String::new()
    } else {
        decimal_text(n / 10)
    };
    let digit: u8 = 48 + (n % 10) as u8;
    text.push(digit as char);
    assert(text@ == decimal(n as nat));
    text
}

/// Reading the decimal text of a number gives the number back.
pub proof fn decimal_round_trip(n: u64)
    ensures
        parsed_u64(decimal(n as nat)) == Some(n),
{
    lemma_decimal_digits(n as nat);
    assert(is_digit(decimal(n as nat)[0]));
    assert(unsigned_digits(decimal(n as nat)) == decimal(n as nat));
}

/// Decimal text is made of digits and has the value that it was made from.
proof fn lemma_decimal_digits(n: nat)
    ensures
        decimal(n).len() > 0,
        all_digits(decimal(n)),
        digits_value(decimal(n)) == n,
    decreases n,
{
    let digit = ('0' as u8 + n % 10) as u8 as char;
    if n < 10 {
        assert(decimal(n).drop_last() == Seq::<char>::empty());
        assert(digits_value(decimal(n).drop_last()) == 0);
    } else {
        lemma_decimal_digits(n / 10);
        assert(decimal(n).drop_last() == decimal(n / 10));
    }
}

/// Splitting never gives nothing.
proof fn lemma_split_is_not_empty(s: Seq<char>, separator: char)
    ensures
        split_on(s, separator).len() > 0,
    decreases s.len(),
{
    if s.len() > 0 {
        lemma_split_is_not_empty(s.drop_last(), separator);
    }
}

/// The pieces on both sides of a separator.
pub proof fn lemma_split_joins(a: Seq<char>, b: Seq<char>, separator: char)
    ensures
        split_on(a.push(separator) + b, separator) == split_on(a, separator) + split_on(
            b,
            separator,
        ),
    decreases b.len(),
{
    let whole = a.push(separator) + b;
    if b.len() == 0 {
        assert(whole == a.push(separator));
        assert(whole.drop_last() == a);
        assert(split_on(b, separator) == seq![Seq::<char>::empty()]);
        assert(split_on(whole, separator) == split_on(a, separator).push(Seq::empty()));
    } else {
        assert(whole.drop_last() == a.push(separator) + b.drop_last());
        lemma_split_joins(a, b.drop_last(), separator);
        lemma_split_is_not_empty(b.drop_last(), separator);
        let before = split_on(b.drop_last(), separator);
        let all = split_on(a, separator) + before;
        assert(whole.last() == b.last());
        if b.last() == separator {
            assert(all.push(Seq::empty()) == split_on(a, separator) + before.push(Seq::empty()));
        } else {
            assert(all.last() == before.last());
            assert(all.drop_last() == split_on(a, separator) + before.drop_last());
            assert(split_on(whole, separator) == split_on(a, separator) + split_on(b, separator));
        }
    }
}

/// A text without separators is its own and only piece.
pub proof fn lemma_single_piece(s: Seq<char>, separator: char)
    requires
        !s.contains(separator),
    ensures
        split_on(s, separator) == seq![s],
    decreases s.len(),
{
    if s.len() > 0 {
        assert(s.contains(s[s.len() - 1]));
        assert forall|c: char| s.drop_last().contains(c) implies s.contains(c) by {
            let i = s.drop_last().index_of(c);
            assert(s[i] == c);
        }
        lemma_single_piece(s.drop_last(), separator);
        assert(s.drop_last().push(s.last()) == s);
        assert(split_on(s, separator) == seq![s]);
    } else {
        assert(s == Seq::<char>::empty());
    }
}

/// Some pieces with a separator between each two of them.
pub open spec fn joined_by(pieces: Seq<Seq<char>>, separator: char) -> Seq<char>
    decreases pieces.len(),
{
    if pieces.len() == 0 {
        Seq::empty()
    } else if pieces.len() == 1 {
        pieces[0]
    } else {
        joined_by(pieces.drop_last(), separator).push(separator) + pieces.last()
    }
}

/// Joining the pieces gives the text back, and no piece holds a separator.
proof fn lemma_split_inverts(s: Seq<char>, separator: char)
    ensures
        split_on(s, separator).len() > 0,
        joined_by(split_on(s, separator), separator) == s,
        forall|i: int|
            0 <= i < split_on(s, separator).len() ==> !(#[trigger] split_on(
                s,
                separator,
            )[i]).contains(separator),
    decreases s.len(),
{
    let pieces = split_on(s, separator);
    if s.len() == 0 {
        assert(pieces[0] == s);
    } else {
        lemma_split_inverts(s.drop_last(), separator);
        let before = split_on(s.drop_last(), separator);
        assert(s == s.drop_last().push(s.last()));
        if s.last() == separator {
            assert(pieces.drop_last() == before);
            assert(joined_by(pieces, separator) == s);
        } else {
            let grown = before.last().push(s.last());
            assert(pieces.last() == grown);
            assert(!before[before.len() - 1].contains(separator));
            assert(!grown.contains(separator)) by {
                assert forall|i: int| 0 <= i < grown.len() implies grown[i] != separator by {
                    if i < grown.len() - 1 {
                        assert(before.last()[i] == grown[i]);
                        assert(before.last().contains(before.last()[i]));
                    }
                }
            }
            assert(pieces.drop_last() == before.drop_last());
            if pieces.len() > 1 {
                assert(joined_by(pieces, separator) == joined_by(
                    before.drop_last(),
                    separator,
                ).push(separator) + grown);
            }
            assert(joined_by(pieces, separator) == s);
            assert forall|i: int| 0 <= i < pieces.len() implies !(#[trigger] pieces[i]).contains(
                separator,
            ) by {
                if i < pieces.len() - 1 {
                    assert(pieces[i] == before[i]);
                }
            }
        }
    }
}

/// Splitting a text gives the pieces that, joined by separators, are the text, and
/// none of which holds a separator.
pub proof fn splitting_inverts_joining(s: &str, separator: char, r: Vec<String>)
    requires
        call_ensures(split_text, (s, separator), r),
    ensures
        joined_by(r@.map_values(|p: String| p@), separator) == s@,
        forall|i: int| 0 <= i < r@.len() ==> !(#[trigger] r@[i])@.contains(separator),
        r@.len() > 0,
{
    lemma_split_inverts(s@, separator);
    let pieces = r@.map_values(|p: String| p@);
    assert forall|i: int| 0 <= i < r@.len() implies !(#[trigger] r@[i])@.contains(separator) by {
        assert(pieces[i] == r@[i]@);
    }
}

/// Exactly the white space at both ends goes when a text is trimmed.
pub proof fn trimming_stops_at_the_text(s: Seq<char>)
    ensures
        exists|from: int, to: int|
            0 <= from <= to <= s.len() && #[trigger] s.subrange(from, to) == trimmed(s) && is_blank(
                s.take(from),
            ) && is_blank(s.skip(to)),
        trimmed(s).len() > 0 ==> !is_white_space(trimmed(s)[0]) && !is_white_space(
            trimmed(s).last(),
        ),
{
    let from = lemma_trim_front_cut(s);
    let kept = trim_front(s);
    let n = lemma_trim_back_cut(kept);
    assert(kept.take(n) == s.subrange(from, from + n));
    assert forall|i: int| 0 <= i < s.skip(from + n).len() implies is_white_space(
        #[trigger] s.skip(from + n)[i],
    ) by {
        assert(kept.skip(n)[i] == s.skip(from + n)[i]);
    }
    assert(s.subrange(from, from + n) == trimmed(s));
    if n > 0 {
        assert(trimmed(s)[0] == kept[0]);
    }
}

/// Where the leading white space of a text ends.
proof fn lemma_trim_front_cut(s: Seq<char>) -> (from: int)
    ensures
        0 <= from <= s.len(),
        trim_front(s) == s.skip(from),
        is_blank(s.take(from)),
        trim_front(s).len() > 0 ==> !is_white_space(trim_front(s)[0]),
    decreases s.len(),
{
    if s.len() > 0 && is_white_space(s.first()) {
        let from = lemma_trim_front_cut(s.drop_first()) + 1;
        assert(s.drop_first().skip(from - 1) == s.skip(from));
        assert forall|i: int| 0 <= i < from implies is_white_space(#[trigger] s.take(from)[i]) by {
            if i > 0 {
                assert(s.drop_first().take(from - 1)[i - 1] == s[i]);
            }
        }
        from
    } else {
        assert(s.skip(0) == s);
        0
    }
}

/// Where the trailing white space of a text begins.
proof fn lemma_trim_back_cut(s: Seq<char>) -> (n: int)
    ensures
        0 <= n <= s.len(),
        trim_back(s) == s.take(n),
        is_blank(s.skip(n)),
        trim_back(s).len() > 0 ==> !is_white_space(trim_back(s).last()),
    decreases s.len(),
{
    if s.len() > 0 && is_white_space(s.last()) {
        let n = lemma_trim_back_cut(s.drop_last());
        assert(s.drop_last().take(n) == s.take(n));
        assert forall|i: int| 0 <= i < s.skip(n).len() implies is_white_space(
            #[trigger] s.skip(n)[i],
        ) by {
            if n + i < s.len() - 1 {
                assert(s.drop_last().skip(n)[i] == s[n + i]);
            }
        }
        n
    } else {
        assert(s.take(s.len() as int) == s);
        s.len() as int
    }
}

/// A number is written with decimal digits alone, behind at most one plus sign.
pub proof fn numbers_are_digits(s: &str, r: Option<u64>)
    requires
        call_ensures(parse_u64, (s,), r),
    ensures
        r is Some ==> s@.len() > 0 && (s@[0] == '+' ==> s@.len() > 1),
        r is Some ==> forall|i: int|
            0 <= i < s@.len() && !(i == 0 && s@[0] == '+') ==> '0' <= #[trigger] s@[i] <= '9',
{
    if r is Some {
        let digits = unsigned_digits(s@);
        assert forall|i: int| 0 <= i < s@.len() && !(i == 0 && s@[0] == '+') implies '0'
            <= #[trigger] s@[i] <= '9' by {
            if s@[0] == '+' {
                assert(digits[i - 1] == s@[i]);
            } else {
                assert(digits[i] == s@[i]);
            }
        }
    }
}

/// One digit is its own number. A digit behind a number makes it ten times as large
/// and adds itself, as far as that fits in 64 bits; any other character makes it no
/// number. A plus sign in front of a digit changes nothing.
pub proof fn numbers_grow_by_digits(
    s: &str,
    longer: &str,
    signed: &str,
    c: char,
    r: Option<u64>,
    r_longer: Option<u64>,
    r_signed: Option<u64>,
)
    requires
        call_ensures(parse_u64, (s,), r),
        call_ensures(parse_u64, (longer,), r_longer),
        call_ensures(parse_u64, (signed,), r_signed),
        longer@ == s@.push(c),
        signed@ == seq!['+'] + s@,
    ensures
        s@.len() == 0 && '0' <= c <= '9' ==> r_longer == Some((c as u32 - '0' as u32) as u64),
        s@.len() == 1 && s@[0] == '+' && '0' <= c <= '9' ==> r_longer == Some(
            (c as u32 - '0' as u32) as u64,
        ),
        r matches Some(n) ==> ('0' <= c <= '9' ==> r_longer == (if 10 * n + (c as u32 - '0' as u32)
            <= u64::MAX {
            Some((10 * n + (c as u32 - '0' as u32)) as u64)
        } else {
            None
        })),
        r is None && s@.len() > 1 ==> r_longer is None,
        !('0' <= c <= '9') ==> r_longer is None,
        s@.len() > 0 && s@[0] != '+' ==> r_signed == r,
        s@.len() == 0 ==> r is None,
{
    let digits = unsigned_digits(s@);
    let more = unsigned_digits(longer@);
    if s@.len() > 0 || c != '+' {
        assert(more == digits.push(c));
        assert(more.drop_last() == digits);
        assert(more.last() == c);
        assert(all_digits(more) <==> all_digits(digits) && is_digit(c)) by {
            if all_digits(more) {
                assert(is_digit(more[digits.len() as int]));
                assert forall|i: int| 0 <= i < digits.len() implies is_digit(
                    #[trigger] digits[i],
                ) by {
                    assert(is_digit(more[i]));
                }
            }
        }
        if all_digits(digits) {
            lemma_digits_value_grows(digits, 0);
            assert(digits.take(0) == Seq::<char>::empty());
        }
        if digits.len() == 0 {
            assert(digits_value(digits) == 0);
        }
    } else {
        assert(more == Seq::<char>::empty());
    }
    if s@.len() > 0 && s@[0] != '+' {
        assert(signed@.drop_first() == s@);
        assert(digits == s@);
    }
}

/// The decimal text of a number is read back as the number, and has no zeros in
/// front.
pub proof fn written_numbers_read_back(n: u64, text: String, s: &str, r: Option<u64>)
    requires
        call_ensures(decimal_text, (n,), text),
        call_ensures(parse_u64, (s,), r),
        s@ == text@,
    ensures
        r == Some(n),
        forall|i: int| 0 <= i < text@.len() ==> '0' <= #[trigger] text@[i] <= '9',
        text@.len() > 1 ==> text@[0] != '0',
{
    decimal_round_trip(n);
    lemma_decimal_digits(n as nat);
    lemma_no_leading_zero(n as nat);
    assert forall|i: int| 0 <= i < text@.len() implies '0' <= #[trigger] text@[i] <= '9' by {
        assert(is_digit(decimal(n as nat)[i]));
    }
}

/// Decimal text does not begin with a zero, unless it is one.
proof fn lemma_no_leading_zero(n: nat)
    ensures
        decimal(n).len() > 0,
        n > 0 ==> decimal(n)[0] != '0',
        n < 10 ==> decimal(n).len() == 1,
    decreases n,
{
    if n >= 10 {
        lemma_no_leading_zero(n / 10);
        assert(decimal(n)[0] == decimal(n / 10)[0]);
    }
}

/// A prefix is stripped exactly where the text is the prefix and something behind
/// it, which is what is left.
pub proof fn stripping_leaves_the_rest(s: &str, prefix: &str, r: Option<&str>, rest: Seq<char>)
    requires
        call_ensures(strip_prefix, (s, prefix), r),
    ensures
        r matches Some(left) ==> s@ == prefix@ + left@,
        s@ == prefix@ + rest ==> (r matches Some(left) && left@ == rest),
{
    if s@ == prefix@ + rest {
        assert(s@.take(prefix@.len() as int) == prefix@);
        assert(s@.skip(prefix@.len() as int) == rest);
        if let Some(left) = r {
            assert(s@.skip(prefix@.len() as int) == left@);
        }
    }
}

} // verus!
