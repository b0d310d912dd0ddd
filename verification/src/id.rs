use rand::RngCore;
use vstd::prelude::*;
use vstd::utf8::{encode_utf8, is_ascii_chars};

use crate::text::{ascii_lower, ascii_lower_char, chars_eq_str, chars_of};

verus! {

/// Shortest identifier, in bytes.
pub const MIN_ID_LEN: usize = 3;

/// Longest identifier, in bytes.
pub const MAX_ID_LEN: usize = 64;

/// The pattern every identifier must match.
pub const ID_PATTERN: &'static str = "^[a-z0-9][a-z0-9_-]{2,63}$";

/// Why an identifier was refused.
#[derive(Debug, Clone, Copy, PartialEq, Eq, Structural)]
pub enum IdError {
    Empty,
    TooShort,
    TooLong,
    InvalidFormat,
    Reserved,
}

/// A character that may start an identifier.
pub open spec fn id_head_char(c: char) -> bool {
    ('a' <= c <= 'z') || ('0' <= c <= '9')
}

/// A character that may follow the first one.
pub open spec fn id_tail_char(c: char) -> bool {
    id_head_char(c) || c == '_' || c == '-'
}

/// Whether the whole text matches `ID_PATTERN`.
pub open spec fn id_format(s: Seq<char>) -> bool {
    &&& 3 <= s.len() <= 64
    &&& id_head_char(s[0])
    &&& forall|k: int| 1 <= k < s.len() ==> id_tail_char(#[trigger] s[k])
}

/// The command words that cannot be used as identifiers.
pub open spec fn reserved_words() -> Seq<Seq<char>> {
    seq![
        "list"@,
        "add"@,
        "rm"@,
        "connect"@,
        "exec"@,
        "run"@,
        "doctor"@,
        "secret"@,
        "config"@,
        "push"@,
        "pull"@,
        "xfer"@,
        "test"@,
        "ui"@,
        "agent"@
    ]
}

/// Whether `s` is one of the reserved words.
pub open spec fn is_reserved(s: Seq<char>) -> bool {
    reserved_words().contains(s)
}

/// The outcome of `validate_id` on the characters `s`; lengths count UTF-8 bytes.
pub open spec fn validate_id_spec(s: Seq<char>) -> Result<(), IdError> {
    let n = encode_utf8(s).len();
    if s.len() == 0 {
        Err(IdError::Empty)
    } else if n < 3 {
        Err(IdError::TooShort)
    } else if n > 64 {
        Err(IdError::TooLong)
    } else if is_reserved(s) {
        Err(IdError::Reserved)
    } else if !id_format(s) {
        Err(IdError::InvalidFormat)
    } else {
        Ok(())
    }
}

/// What `regex::Regex::new(pattern)` followed by `is_match(text)` gives: `None` when the
/// pattern does not compile.
pub uninterp spec fn regex_is_match(pattern: Seq<char>, text: Seq<char>) -> Option<bool>;

/// Compiles `pattern` with `regex::Regex::new` and tests `text` with `Regex::is_match`.
/// The result is named by `regex_is_match`; for the identifier pattern the contract also says
/// what the anchored pattern accepts, which is how the regex crate reads `^`, a class,
/// a `{2,63}` repetition and `$` (end of the text, no multi-line mode).
#[verifier::external_body]
fn regex_match(pattern: &str, text: &str) -> (r: Option<bool>)
    ensures
        r == regex_is_match(pattern@, text@),
        pattern@ == ID_PATTERN@ ==> r == Some(id_format(text@)),
{
    match regex::Regex::new(pattern) {
        Ok(re) => Some(re.is_match(text)),
        Err(_) => None,
    }
}

/// What `str::to_lowercase` returns: the Unicode lower-case mapping of the text.
pub uninterp spec fn unicode_lowercase(s: Seq<char>) -> Seq<char>;

/// Whether every character is ASCII.
pub open spec fn all_ascii(s: Seq<char>) -> bool {
    is_ascii_chars(s)
}

/// The lower-case form of a text: on ASCII text `A`..`Z` become `a`..`z`; beyond ASCII it is
/// the Unicode mapping.
pub open spec fn lowercased(s: Seq<char>) -> Seq<char> {
    if all_ascii(s) {
        ascii_lower(s)
    } else {
        unicode_lowercase(s)
    }
}

/// Text made of ASCII characters other than `A`..`Z` is its own lower-case form.
pub proof fn lemma_lowercased_unchanged(s: Seq<char>)
    requires
        forall|k: int| 0 <= k < s.len() ==> ('\0' <= #[trigger] s[k] <= '\u{7f}') && !('A' <= s[k] <= 'Z'),
    ensures
        lowercased(s) == s,
{
    assert(ascii_lower(s) =~= s);
}

/// `str::to_lowercase` from std. Its result is named by `unicode_lowercase`; on ASCII text
/// the Unicode lower-case mapping only turns `A`..`Z` into `a`..`z`.
#[verifier::external_body]
pub(crate) fn str_to_lowercase(s: &str) -> (r: String)
    ensures
        r@ == unicode_lowercase(s@),
        all_ascii(s@) ==> r@ == ascii_lower(s@),
{
    s.to_lowercase()
}

/// Lower-cases a text.
pub(crate) fn text_lowercase(s: &str) -> (r: String)
    ensures
        r@ == lowercased(s@),
{
    str_to_lowercase(s)
}

/// Normalize an identifier by lowercasing it.
pub fn normalize_id(input: &str) -> (r: String)
    ensures
        r@ == lowercased(input@),
{
    text_lowercase(input)
}

/// Whether the characters are one of the reserved words.
fn is_reserved_exec(v: &Vec<char>) -> (r: bool)
    ensures
        r == is_reserved(v@),
{
    let words: [&str; 15] = [
        "list",
        "add",
        "rm",
        "connect",
        "exec",
        "run",
        "doctor",
        "secret",
        "config",
        "push",
        "pull",
        "xfer",
        "test",
        "ui",
        "agent",
    ];
    proof {
        reveal_strlit("list");
        reveal_strlit("add");
        reveal_strlit("rm");
        reveal_strlit("connect");
        reveal_strlit("exec");
        reveal_strlit("run");
        reveal_strlit("doctor");
        reveal_strlit("secret");
        reveal_strlit("config");
        reveal_strlit("push");
        reveal_strlit("pull");
        reveal_strlit("xfer");
        reveal_strlit("test");
        reveal_strlit("ui");
        reveal_strlit("agent");
        assert(words@.map_values(|w: &str| w@) =~= reserved_words());
    }
    let mut i: usize = 0;
    while i < 15
        invariant
            i <= 15,
            words@.map_values(|w: &str| w@) == reserved_words(),
            forall|k: int| 0 <= k < i ==> reserved_words()[k] != v@,
        decreases 15 - i,
    {
        if chars_eq_str(v, words[i]) {
            assert(words@.map_values(|w: &str| w@)[i as int] == words[i as int]@);
            return true;
        }
        assert(words@.map_values(|w: &str| w@)[i as int] == words[i as int]@);
        i = i + 1;
    }
    false
}

/// Validate an identifier against repository rules.
pub fn validate_id(candidate: &str) -> (r: Result<(), IdError>)
    ensures
        r == validate_id_spec(candidate@),
{
    if candidate.is_empty() {
        return Err(IdError::Empty);
    }
    let byte_len = candidate.as_bytes().len();
    if byte_len < MIN_ID_LEN {
        return Err(IdError::TooShort);
    }
    if byte_len > MAX_ID_LEN {
        return Err(IdError::TooLong);
    }
    let chars = chars_of(candidate);
    if is_reserved_exec(&chars) {
        return Err(IdError::Reserved);
    }
    match regex_match(ID_PATTERN, candidate) {
        Some(true) => Ok(()),
        _ => Err(IdError::InvalidFormat),
    }
}


/// Five bytes from `rand::thread_rng`. Nothing is promised of their values.
#[verifier::external_body]
fn random_five_bytes() -> (r: Vec<u8>)
    ensures
        r@.len() == 5,
{
    let mut bytes = [0u8;5];
    rand::thread_rng().fill_bytes(&mut bytes);
    bytes.to_vec()
}

/// A character of the RFC 4648 base32 alphabet: `A`..`Z` for 0 to 25, `2`..`7` for 26 to 31.
pub open spec fn base32_char(v: nat) -> char {
    if v < 26 {
        (65 + v) as char
    } else {
        (50 + v - 26) as char
    }
}

/// `32` to the power `k`.
pub open spec fn pow32(k: nat) -> nat
    decreases k,
{
    if k == 0 {
        1
    } else {
        32 * pow32((k - 1) as nat)
    }
}

/// The byte at `i`, or 0 past the end.
pub open spec fn group_byte(b: Seq<u8>, i: int) -> nat {
    if 0 <= i < b.len() {
        b[i] as nat
    } else {
        0
    }
}

/// One group of one to five bytes in base32 without padding: the 40-bit value they start, cut
/// into 5-bit characters, as many as the bytes' bits need.
pub open spec fn base32_group(b: Seq<u8>) -> Seq<char> {
    let n: nat = group_byte(b, 0) * 4294967296 + group_byte(b, 1) * 16777216 + group_byte(b, 2) * 65536
        + group_byte(b, 3) * 256 + group_byte(b, 4);
    Seq::new((b.len() * 8 + 4) / 5, |j: int| base32_char((n / pow32((7 - j) as nat)) % 32))
}

/// What `data_encoding::BASE32_NOPAD.encode(bytes)` returns: each group of five bytes in
/// turn, the last group possibly shorter.
pub open spec fn base32_nopad(bytes: Seq<u8>) -> Seq<char>
    decreases bytes.len(),
{
    if bytes.len() == 0 {
        Seq::empty()
    } else if bytes.len() <= 5 {
        base32_group(bytes)
    } else {
        base32_group(bytes.take(5)) + base32_nopad(bytes.skip(5))
    }
}

/// A character of the RFC 4648 base32 alphabet.
pub open spec fn is_base32_char(c: char) -> bool {
    ('A' <= c <= 'Z') || ('2' <= c <= '7')
}

/// `data_encoding::BASE32_NOPAD.encode`: RFC 4648 base32 without padding (`base32_nopad`),
/// one output character per five input bits rounded up, each from `A`..`Z` and `2`..`7`.
/// `encode_len` asserts that the input is not longer than `usize::MAX / 512`.
#[verifier::external_body]
fn base32_encode(bytes: &[u8]) -> (r: String)
    requires
        bytes@.len() <= 4096,
    ensures
        r@ == base32_nopad(bytes@),
        r@.len() == (bytes@.len() * 8 + 4) / 5,
        forall|k: int| 0 <= k < r@.len() ==> is_base32_char(#[trigger] r@[k]),
{
    data_encoding::BASE32_NOPAD.encode(bytes)
}

/// A prefix that `generate_id` can extend into a valid identifier.
pub open spec fn id_prefix_ok(p: Seq<char>) -> bool {
    &&& p.len() <= 56
    &&& p.len() > 0 ==> id_head_char(p[0])
    &&& forall|k: int| 0 <= k < p.len() ==> id_tail_char(#[trigger] p[k])
}

/// Whether `s` starts with `p`.
pub open spec fn starts_with(s: Seq<char>, p: Seq<char>) -> bool {
    p.len() <= s.len() && s.take(p.len() as int) == p
}

/// Generate a random ID with the given prefix using lowercase base32 characters.
/// With a prefix of lowercase letters, digits, `_` and `-` (not starting with `_` or `-`)
/// the first candidate is always valid; other prefixes never yield a valid identifier.
pub fn generate_id(prefix: &str) -> (r: String)
    requires
        id_prefix_ok(prefix@),
    ensures
        validate_id_spec(r@) == Ok::<(), IdError>(()),
        starts_with(r@, prefix@),
        r@.len() == prefix@.len() + 8,
{
    let bytes = random_five_bytes();
    let encoded = base32_encode(bytes.as_slice());
    assert(encoded@.len() == 8);
    proof {
        assert(all_ascii(encoded@)) by {
            assert forall|k: int| 0 <= k < encoded@.len() implies '\0' <= #[trigger] encoded@[k]
                <= '\u{7f}' by {
                assert(is_base32_char(encoded@[k]));
            }
        }
    }
    let lower = str_to_lowercase(encoded.as_str());
    let mut candidate = prefix.to_owned();
    candidate.append(lower.as_str());
    proof {
        let c = candidate@;
        assert(c =~= prefix@ + ascii_lower(encoded@));
        assert forall|k: int| prefix@.len() <= k < c.len() implies id_tail_char(#[trigger] c[k])
            && ('a' <= c[k] <= 'z' || '2' <= c[k] <= '7') by {
            let j = k - prefix@.len();
            assert(c[k] == ascii_lower_char(encoded@[j]));
            assert(is_base32_char(encoded@[j]));
        }
        assert(id_format(c)) by {
            if prefix@.len() == 0 {
                assert(c[0] == ascii_lower_char(encoded@[0]));
                assert(is_base32_char(encoded@[0]));
            } else {
                assert(c[0] == prefix@[0]);
            }
            assert forall|k: int| 1 <= k < c.len() implies id_tail_char(#[trigger] c[k]) by {
                if k < prefix@.len() {
                    assert(c[k] == prefix@[k]);
                }
            }
        }
        assert(is_ascii_chars(c)) by {
            assert forall|k: int| 0 <= k < c.len() implies '\0' <= #[trigger] c[k] <= '\u{7f}' by {
                if k < prefix@.len() {
                    assert(c[k] == prefix@[k]);
                    assert(id_tail_char(prefix@[k]));
                }
            }
        }
        vstd::utf8::is_ascii_chars_encode_utf8(c);
        assert(!is_reserved(c)) by {
            if reserved_words().contains(c) {
                let i = choose|i: int| 0 <= i < reserved_words().len() && reserved_words()[i] == c;
                reveal_strlit("list");
                reveal_strlit("add");
                reveal_strlit("rm");
                reveal_strlit("connect");
                reveal_strlit("exec");
                reveal_strlit("run");
                reveal_strlit("doctor");
                reveal_strlit("secret");
                reveal_strlit("config");
                reveal_strlit("push");
                reveal_strlit("pull");
                reveal_strlit("xfer");
                reveal_strlit("test");
                reveal_strlit("ui");
                reveal_strlit("agent");
                assert(reserved_words()[i].len() <= 7);
            }
        }
        assert(c.take(prefix@.len() as int) =~= prefix@);
    }
    candidate
}

} // verus!
