//! Text encodings used on the wire and on disk: RFC 4648 base-32 (through the
//! `base32` crate), decimal numbers, and the case and whitespace helpers of std.
use vstd::prelude::*;
use vstd::string::*;

verus! {

/// The RFC 4648 base-32 alphabet.
pub open spec fn base32_alphabet() -> Seq<char> {
    seq![
        'A', 'B', 'C', 'D', 'E', 'F', 'G', 'H', 'I', 'J', 'K', 'L', 'M', 'N', 'O', 'P',
        'Q', 'R', 'S', 'T', 'U', 'V', 'W', 'X', 'Y', 'Z', '2', '3', '4', '5', '6', '7',
    ]
}

/// Byte `i` of `d`, or zero past its end.
pub open spec fn byte_or_zero(d: Seq<u8>, i: int) -> int {
    if 0 <= i < d.len() {
        d[i] as int
    } else {
        0
    }
}

/// The 40-bit big-endian value of the `g`-th group of five bytes, zero-filled.
pub open spec fn group_value(d: Seq<u8>, g: int) -> int {
    byte_or_zero(d, 5 * g) * 0x1_0000_0000 + byte_or_zero(d, 5 * g + 1) * 0x100_0000
        + byte_or_zero(d, 5 * g + 2) * 0x1_0000 + byte_or_zero(d, 5 * g + 3) * 0x100
        + byte_or_zero(d, 5 * g + 4)
}

/// The five-bit value that the `k`-th output symbol stands for.
pub open spec fn symbol_value(d: Seq<u8>, k: int) -> int {
    (group_value(d, k / 8) / vstd::arithmetic::power2::pow2((5 * (7 - k % 8)) as nat) as int)
        % 32
}

/// Number of symbols that carry data: `ceil(8 * n / 5)`.
pub open spec fn base32_data_len(n: nat) -> nat {
    (8 * n + 4) / 5
}

/// Length of the encoding of `n` bytes, with or without `=` padding to a multiple of 8.
pub open spec fn base32_len(padding: bool, n: nat) -> nat {
    if padding {
        ((n + 4) / 5) * 8
    } else {
        base32_data_len(n)
    }
}

/// RFC 4648 base-32 encoding of `d`.
pub open spec fn base32_encoding(padding: bool, d: Seq<u8>) -> Seq<char> {
    Seq::new(
        base32_len(padding, d.len()),
        |k: int|
            if k < base32_data_len(d.len()) {
                base32_alphabet()[symbol_value(d, k)]
            } else {
                '='
            },
    )
}

/// What `base32::decode` returns for a text.
pub uninterp spec fn base32_decoding(s: Seq<char>) -> Option<Seq<u8>>;

/// The view of an optional byte vector.
pub open spec fn opt_bytes(o: Option<Vec<u8>>) -> Option<Seq<u8>> {
    match o {
        Some(v) => Some(v@),
        None => None,
    }
}

/// Relies on `base32::encode` with the RFC 4648 alphabet: five bytes become
/// eight symbols, a last partial group is zero-filled, and the tail is cut or
/// padded with `=`.
#[verifier::external_body]
pub(crate) fn base32_encode(padding: bool, data: &[u8]) -> (r: String)
    ensures
        r@ == base32_encoding(padding, data@),
{
    base32::encode(base32::Alphabet::RFC4648 { padding }, data)
}

/// A character that `base32::decode` reads: a symbol of the alphabet in
/// either case, or `=`.
pub open spec fn is_base32_text_char(c: char) -> bool {
    ('A' <= c && c <= 'Z') || ('a' <= c && c <= 'z') || ('2' <= c && c <= '7') || c == '='
}

/// Relies on `base32::decode` with the RFC 4648 alphabet (which reads padded
/// and unpadded text alike): it fails exactly on a character that is not a
/// symbol in either case or `=`, and a text that `base32::encode` produced
/// decodes to the bytes it was made from.
#[verifier::external_body]
pub(crate) fn base32_decode(padding: bool, text: &str) -> (r: Option<Vec<u8>>)
    ensures
        opt_bytes(r) == base32_decoding(text@),
        r is Some <==> forall|i: int| 0 <= i < text@.len() ==> is_base32_text_char(#[trigger] text@[i]),
        forall|p: bool, d: Seq<u8>|
            #[trigger] base32_encoding(p, d) == text@ ==> opt_bytes(r) == Some(d),
{
    base32::decode(base32::Alphabet::RFC4648 { padding }, text)
}

/// Decimal digits of `n`, most significant first, without leading zeros.
pub open spec fn decimal_digits(n: nat) -> Seq<char>
    decreases n,
{
    let digit = seq!['0', '1', '2', '3', '4', '5', '6', '7', '8', '9'][(n % 10) as int];
    if n < 10 {
        seq![digit]
    } else {
        decimal_digits(n / 10).push(digit)
    }
}

/// The decimal form of `n`.
pub(crate) fn decimal_text(n: usize) -> (r: String)
    ensures
        r@ == decimal_digits(n as nat),
    decreases n,
{
    let digits = "0123456789";
    proof {
        reveal_strlit("0123456789");
        let table = seq!['0', '1', '2', '3', '4', '5', '6', '7', '8', '9'];
        assert forall|k: int| 0 <= k < 10 implies #[trigger] digits@[k] == table[k] by {}
    }
    let d = n % 10;
    let last = digits.substring_char(d, d + 1);
    if n < 10 {
        assert(last@ =~= decimal_digits(n as nat));
        last.to_owned()
    } else {
        let mut text = decimal_text(n / 10);
        text.append(last);
        assert(text@ =~= decimal_digits(n as nat));
        text
    }
}

/// ASCII lower case of one character; other characters are kept.
pub open spec fn ascii_lower(c: char) -> char {
    if 'A' <= c && c <= 'Z' {
        ((c as u32) + 32) as char
    } else {
        c
    }
}

/// The text with `A`..`Z` turned into `a`..`z` and every other character
/// kept.
pub(crate) fn ascii_lowercase(s: &str) -> (r: String)
    ensures
        r@ == s@.map_values(|c: char| ascii_lower(c)),
{
    let letters = "abcdefghijklmnopqrstuvwxyz";
    proof {
        reveal_strlit("abcdefghijklmnopqrstuvwxyz");
        assert forall|k: int| 0 <= k < 26 implies #[trigger] letters@[k] == ((k + 97) as u32) as char by {
        }
    }
    let n = s.unicode_len();
    let mut out = String::new();
    let mut i: usize = 0;
    while i < n
        invariant
            n == s@.len(),
            i <= n,
            letters@.len() == 26,
            forall|k: int| 0 <= k < 26 ==> #[trigger] letters@[k] == ((k + 97) as u32) as char,
            out@ == s@.take(i as int).map_values(|c: char| ascii_lower(c)),
        decreases n - i,
    {
        let c = s.get_char(i);
        if 'A' <= c && c <= 'Z' {
            let k = (c as u32 - 65) as usize;
            out.append(letters.substring_char(k, k + 1));
        } else {
            out.append(s.substring_char(i, i + 1));
        }
        assert(out@ =~= s@.take(i + 1).map_values(|c: char| ascii_lower(c)));
        i += 1;
    }
    assert(s@.take(n as int) =~= s@);
    out
}

/// ASCII upper case of one character; other characters are kept.
pub open spec fn ascii_upper(c: char) -> char {
    if 'a' <= c && c <= 'z' {
        ((c as u32) - 32) as char
    } else {
        c
    }
}

pub open spec fn is_ascii_char(c: char) -> bool {
    (c as u32) < 128
}

/// What `str::to_uppercase` returns for a text.
pub uninterp spec fn uppercase_of(s: Seq<char>) -> Seq<char>;

/// Relies on `str::to_uppercase`: the result depends on the characters alone,
/// and on ASCII text the Unicode mapping turns `a`..`z` into `A`..`Z` and
/// keeps every other character.
#[verifier::external_body]
pub(crate) fn uppercase(s: &str) -> (r: String)
    ensures
        r@ == uppercase_of(s@),
        (forall|i: int| 0 <= i < s@.len() ==> is_ascii_char(#[trigger] s@[i])) ==> r@ == s@.map_values(
            |c: char| ascii_upper(c),
        ),
{
    s.to_uppercase()
}

/// A character with the Unicode `White_Space` property, as
/// `char::is_whitespace` has it.
pub open spec fn is_white_space(c: char) -> bool {
    ('\u{9}' <= c && c <= '\u{d}') || c == ' ' || c == '\u{85}' || c == '\u{a0}' || c == '\u{1680}'
        || ('\u{2000}' <= c && c <= '\u{200a}') || c == '\u{2028}' || c == '\u{2029}' || c
        == '\u{202f}' || c == '\u{205f}' || c == '\u{3000}'
}

/// The text without its leading white space.
pub open spec fn trim_start_of(s: Seq<char>) -> Seq<char>
    decreases s.len(),
{
    if s.len() > 0 && is_white_space(s[0]) {
        trim_start_of(s.drop_first())
    } else {
        s
    }
}

/// The text without its trailing white space.
pub open spec fn trim_end_of(s: Seq<char>) -> Seq<char>
    decreases s.len(),
{
    if s.len() > 0 && is_white_space(s.last()) {
        trim_end_of(s.drop_last())
    } else {
        s
    }
}

/// The text without leading and trailing white space.
pub open spec fn trimmed(s: Seq<char>) -> Seq<char> {
    trim_end_of(trim_start_of(s))
}

/// Relies on `str::trim`: the text without leading and trailing characters
/// of the Unicode `White_Space` property.
#[verifier::external_body]
pub(crate) fn trim(s: &str) -> (r: &str)
    ensures
        r@ == trimmed(s@),
{
    s.trim()
}

/// What `str::to_lowercase` returns for a text.
pub uninterp spec fn lowercase_of(s: Seq<char>) -> Seq<char>;

/// Relies on `str::to_lowercase`: the result depends on the characters alone.
#[verifier::external_body]
pub(crate) fn lowercase(s: &str) -> (r: String)
    ensures
        r@ == lowercase_of(s@),
{
    s.to_lowercase()
}

/// `pattern` occurs in `text` as a run of consecutive characters.
pub open spec fn is_infix(pattern: Seq<char>, text: Seq<char>) -> bool {
    exists|i: int|
        0 <= i && i + pattern.len() <= text.len() && #[trigger] text.subrange(i, i + pattern.len())
            == pattern
}

/// Whether `pattern` occurs in `text`.
pub(crate) fn contains_text(text: &str, pattern: &str) -> (r: bool)
    ensures
        r == is_infix(pattern@, text@),
{
    let n = text.unicode_len();
    let m = pattern.unicode_len();
    if m > n {
        return false;
    }
    let target = pattern.to_owned();
    let mut i: usize = 0;
    loop
        invariant
            n == text@.len(),
            m == pattern@.len(),
            m <= n,
            i <= n - m,
            target@ == pattern@,
            forall|j: int| 0 <= j < i ==> #[trigger] text@.subrange(j, j + m) != pattern@,
        decreases n - m - i,
    {
        let part = text.substring_char(i, i + m).to_owned();
        if part == target {
            assert(text@.subrange(i as int, i + pattern@.len()) == pattern@);
            return true;
        }
        if i == n - m {
            assert forall|j: int|
                0 <= j && j + pattern@.len() <= text@.len() implies #[trigger] text@.subrange(
                j,
                j + pattern@.len(),
            ) != pattern@ by {
                assert(text@.subrange(j, j + m) != pattern@);
            }
            return false;
        }
        i += 1;
    }
}

} // verus!
