//! Core logic of a URL-shortening service: validating or generating short
//! codes, and a code-to-URL store with atomic insert-if-absent semantics.
use rand::Rng;
use vstd::prelude::*;
use vstd::string::StrSliceExecFns;
use vstd::string::StringExecFns;

pub mod error;
pub mod response;
pub mod service;
pub mod store;

verus! {

/// Length of generated codes when the configuration does not say otherwise.
pub const DEFAULT_CODE_LEN: usize = 6;

/// Longest code a caller may supply.
pub const MAX_CODE_LEN: usize = 32;

/// How many candidate codes generation tries before giving up.
pub const MAX_GENERATE_ATTEMPTS: usize = 5;

/// The 62-symbol alphabet of short codes: digits and ASCII letters.
pub open spec fn is_code_char(c: char) -> bool {
    ('0' <= c && c <= '9') || ('A' <= c && c <= 'Z') || ('a' <= c && c <= 'z')
}

/// Every character of `s` lies in the code alphabet.
pub open spec fn all_code_chars(s: Seq<char>) -> bool {
    forall|i: int| 0 <= i < s.len() ==> is_code_char(s[i])
}

/// A code acceptable as the key of a stored link: non-empty, at most
/// `MAX_CODE_LEN` characters, all drawn from the code alphabet.
pub open spec fn valid_code(s: Seq<char>) -> bool {
    1 <= s.len() <= MAX_CODE_LEN && all_code_chars(s)
}

/// Law: a code with any character outside the 62-symbol alphabet is
/// never valid, whatever else it looks like — so the create operation
/// rejects it, regardless of the URL beside it.
pub proof fn lemma_bad_char_never_valid(code: Seq<char>, i: int)
    requires
        0 <= i < code.len(),
        !is_code_char(code[i]),
    ensures
        !valid_code(code),
{
}

/// Law: a code longer than `MAX_CODE_LEN` characters is never valid — so
/// the create operation rejects it, regardless of the URL beside it.
pub proof fn lemma_long_code_never_valid(code: Seq<char>)
    requires
        code.len() > MAX_CODE_LEN,
    ensures
        !valid_code(code),
{
}

/// Does every character of `s` lie in the 62-symbol code alphabet?
pub fn is_base62(s: &str) -> (b: bool)
    ensures
        b == all_code_chars(s@),
{
    let len = s.unicode_len();
    let mut i: usize = 0;
    while i < len
        invariant
            len == s@.len(),
            i <= len,
            forall|j: int| 0 <= j < i ==> is_code_char(s@[j]),
        decreases len - i,
    {
        let c = s.get_char(i);
        if !(('0' <= c && c <= '9') || ('A' <= c && c <= 'Z') || ('a' <= c && c <= 'z')) {
            return false;
        }
        i += 1;
    }
    true
}

/// A character with the Unicode `White_Space` property, the set that
/// surrounding-whitespace trimming removes.
pub open spec fn is_space(c: char) -> bool {
    ||| c == ' '
    ||| ('\u{09}' <= c && c <= '\u{0D}')
    ||| c == '\u{85}'
    ||| c == '\u{A0}'
    ||| c == '\u{1680}'
    ||| ('\u{2000}' <= c && c <= '\u{200A}')
    ||| c == '\u{2028}'
    ||| c == '\u{2029}'
    ||| c == '\u{202F}'
    ||| c == '\u{205F}'
    ||| c == '\u{3000}'
}

fn is_space_char(c: char) -> (b: bool)
    ensures
        b == is_space(c),
{
    c == ' ' || ('\u{09}' <= c && c <= '\u{0D}') || c == '\u{85}' || c == '\u{A0}' || c
        == '\u{1680}' || ('\u{2000}' <= c && c <= '\u{200A}') || c == '\u{2028}' || c == '\u{2029}'
        || c == '\u{202F}' || c == '\u{205F}' || c == '\u{3000}'
}

/// `s` with its leading whitespace removed.
pub open spec fn trim_front(s: Seq<char>) -> Seq<char>
    decreases s.len(),
{
    if s.len() == 0 {
        s
    } else if is_space(s[0]) {
        trim_front(s.drop_first())
    } else {
        s
    }
}

/// `s` with its trailing whitespace removed.
pub open spec fn trim_back(s: Seq<char>) -> Seq<char>
    decreases s.len(),
{
    if s.len() == 0 {
        s
    } else if is_space(s.last()) {
        trim_back(s.drop_last())
    } else {
        s
    }
}

/// `s` with surrounding whitespace removed.
pub open spec fn trimmed(s: Seq<char>) -> Seq<char> {
    trim_back(trim_front(s))
}

proof fn lemma_trim_front_at(s: Seq<char>, i: int)
    requires
        0 <= i <= s.len(),
        forall|j: int| 0 <= j < i ==> is_space(s[j]),
        i == s.len() || !is_space(s[i]),
    ensures
        trim_front(s) == s.subrange(i, s.len() as int),
    decreases i,
{
    if i == 0 {
        assert(s.subrange(0, s.len() as int) =~= s);
    } else {
        lemma_trim_front_at(s.drop_first(), i - 1);
        assert(s.drop_first().subrange(i - 1, s.drop_first().len() as int) =~= s.subrange(
            i,
            s.len() as int,
        ));
    }
}

proof fn lemma_trim_back_at(s: Seq<char>, i: int)
    requires
        0 <= i <= s.len(),
        forall|j: int| i <= j < s.len() ==> is_space(s[j]),
        i == 0 || !is_space(s[i - 1]),
    ensures
        trim_back(s) == s.subrange(0, i),
    decreases s.len() - i,
{
    if i == s.len() {
        assert(s.subrange(0, i) =~= s);
    } else {
        lemma_trim_back_at(s.drop_last(), i);
    }
}

/// `s` without its surrounding whitespace, as `str::trim` would give it.
pub fn trim_spaces(s: &str) -> (r: &str)
    ensures
        r@ == trimmed(s@),
{
    let len = s.unicode_len();
    let mut start: usize = 0;
    loop
        invariant_except_break
            len == s@.len(),
            start <= len,
            forall|j: int| 0 <= j < start ==> is_space(s@[j]),
        ensures
            len == s@.len(),
            start <= len,
            forall|j: int| 0 <= j < start ==> is_space(s@[j]),
            start == len || !is_space(s@[start as int]),
        decreases len - start,
    {
        if start >= len {
            break ;
        }
        if !is_space_char(s.get_char(start)) {
            break ;
        }
        start += 1;
    }
    let mut end: usize = len;
    loop
        invariant_except_break
            len == s@.len(),
            start <= end <= len,
            start == len || !is_space(s@[start as int]),
            forall|j: int| end <= j < len ==> is_space(s@[j]),
        ensures
            start <= end <= len,
            forall|j: int| end <= j < len ==> is_space(s@[j]),
            end == start || !is_space(s@[end - 1]),
        decreases end,
    {
        if end <= start {
            break ;
        }
        if !is_space_char(s.get_char(end - 1)) {
            break ;
        }
        end -= 1;
    }
    proof {
        lemma_trim_front_at(s@, start as int);
        let t = s@.subrange(start as int, s@.len() as int);
        lemma_trim_back_at(t, end - start);
        assert(t.subrange(0, end - start) =~= s@.subrange(start as int, end as int));
    }
    s.substring_char(start, end)
}

/// The code a create request supplies, after normalization: an absent
/// value, and a value that is empty once surrounding whitespace is
/// trimmed, both mean that no code was supplied.
pub open spec fn supplied_code(code: Option<String>) -> Option<Seq<char>> {
    match code {
        Option::None => Option::None,
        Option::Some(s) => if trimmed(s@).len() == 0 {
            Option::None
        } else {
            Option::Some(trimmed(s@))
        },
    }
}

/// Normalizes the optional caller-supplied code: trims surrounding
/// whitespace and treats an absent or trimmed-empty value as "no code
/// supplied".
pub fn normalize_code(code: Option<String>) -> (r: Option<String>)
    ensures
        match supplied_code(code) {
            Option::Some(c) => r matches Option::Some(rc) && rc@ == c,
            Option::None => r is None,
        },
{
    match code {
        Option::None => Option::None,
        Option::Some(s) => {
            let t = trim_spaces(s.as_str());
            if t.unicode_len() == 0 {
                Option::None
            } else {
                Option::Some(t.to_owned())
            }
        },
    }
}

/// Relies on `rand::thread_rng` and `rand::Rng::gen_range`: a value drawn
/// uniformly at random from `0..bound`. Nothing beyond membership in the
/// range is assumed of the draw.
#[verifier::external_body]
fn random_below(bound: usize) -> (r: usize)
    requires
        1 <= bound,
    ensures
        r < bound,
{
    rand::thread_rng().gen_range(0..bound)
}

/// Relies on `String::from_utf8`: a vector of ASCII bytes decodes to the
/// string whose characters are exactly those bytes.
#[verifier::external_body]
fn ascii_to_string(bytes: Vec<u8>) -> (r: String)
    requires
        forall|i: int| 0 <= i < bytes@.len() ==> bytes@[i] < 128,
    ensures
        r@.len() == bytes@.len(),
        forall|i: int| 0 <= i < bytes@.len() ==> r@[i] == bytes@[i] as char,
{
    String::from_utf8(bytes).unwrap_or_default()
}

/// The fixed index-to-symbol table of the code alphabet, as bytes: index
/// 0 through 9 are the digits `'0'` to `'9'`, 10 through 35 the letters
/// `'A'` to `'Z'`, 36 through 61 the letters `'a'` to `'z'`.
pub open spec fn code_symbol(i: int) -> u8 {
    if i < 10 {
        (48 + i) as u8
    } else if i < 36 {
        (55 + i) as u8
    } else {
        (61 + i) as u8
    }
}

/// Law: the index-to-symbol table is injective on the alphabet's 62
/// indices — distinct draws always give distinct characters, so the
/// table maps `0..62` one-to-one onto the 62-symbol alphabet.
pub proof fn lemma_code_symbol_injective(i: int, j: int)
    requires
        0 <= i < 62,
        0 <= j < 62,
        i != j,
    ensures
        code_symbol(i) != code_symbol(j),
{
}

/// The byte of the code alphabet at index `i`, exactly as the table
/// `code_symbol` fixes it.
pub fn code_byte(i: usize) -> (b: u8)
    requires
        i < 62,
    ensures
        b == code_symbol(i as int),
        b < 128,
        is_code_char(b as char),
{
    if i < 10 {
        48 + (i as u8)
    } else if i < 36 {
        55 + (i as u8)
    } else {
        61 + (i as u8)
    }
}

/// A candidate code of `len` characters, each drawn independently and
/// uniformly at random from the 62-symbol alphabet.
pub fn generate_code(len: usize) -> (r: String)
    ensures
        r@.len() == len as nat,
        all_code_chars(r@),
{
    let mut bytes: Vec<u8> = Vec::new();
    let mut k: usize = 0;
    while k < len
        invariant
            k <= len,
            bytes@.len() == k,
            forall|i: int| 0 <= i < k ==> bytes@[i] < 128 && is_code_char(bytes@[i] as char),
        decreases len - k,
    {
        let idx = random_below(62);
        let b = code_byte(idx);
        bytes.push(b);
        k += 1;
    }
    let r = ascii_to_string(bytes);
    proof {
        assert forall|i: int| 0 <= i < r@.len() implies is_code_char(r@[i]) by {
            assert(r@[i] == bytes@[i] as char);
        }
    }
    r
}

} // verus!
