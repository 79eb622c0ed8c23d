//! A three-part version number and its textual form.

use vstd::prelude::*;

verus! {

/// A structure that represents a semantic version (eg. `1.0.0`) with a major
/// part (`1`), middle part (`0`) and a minor part (`0`).
#[derive(Debug, Clone, Copy, PartialEq, Eq, Hash, Structural)]
pub struct Version {
    /// Major number.
    pub major: u8,

    /// Middle number.
    pub middle: u8,

    /// Minor number.
    pub minor: u8,
}

impl View for Version {
    type V = Version;

    /// A version is a plain value; it is its own abstraction.
    open spec fn view(&self) -> Version {
        *self
    }
}

impl Version {
    /// Create a new instance with the specified parts.
    pub fn new(major: u8, middle: u8, minor: u8) -> (r: Self)
        ensures
            r == (Version { major, middle, minor }),
    {
        Version { major, middle, minor }
    }

    /// Returns the major number from this version.
    pub fn major(&self) -> (r: u8)
        ensures
            r == self.major,
    {
        self.major
    }

    /// Returns the middle number from this version.
    pub fn middle(&self) -> (r: u8)
        ensures
            r == self.middle,
    {
        self.middle
    }

    /// Returns the minor number from this version.
    pub fn minor(&self) -> (r: u8)
        ensures
            r == self.minor,
    {
        self.minor
    }

    /// Parse a version string: exactly three decimal digit groups separated
    /// by dots, each with a value at most 255.  Any other shape — too few or
    /// too many groups, an empty group, a non-digit character, a value out
    /// of range — yields `None` rather than an error.
    pub fn parse(input: &str) -> (r: Option<Version>)
        ensures
            r == spec_version_parse(input@),
    {
        let ghost s = input@;
        let n: usize = input.unicode_len();
        let (i, g1) = scan_group(input, 0);
        if i >= n {
            proof {
                assert forall|a: int, b: int| !version_shape(s, a, b) by {
                    if version_shape(s, a, b) {
                        assert(!is_dot(s[a]));
                    }
                }
            }
            return None;
        }
        let major = match g1 {
            Some(v) => v,
            None => {
                proof {
                    assert forall|a: int, b: int| !version_shape(s, a, b) by {
                        if version_shape(s, a, b) {
                            lemma_shape_first(s, a, b, i as int);
                            assert(!group_ok(s.subrange(0, i as int)));
                        }
                    }
                }
                return None;
            },
        };
        let (j, g2) = scan_group(input, i + 1);
        if j >= n {
            proof {
                assert forall|a: int, b: int| !version_shape(s, a, b) by {
                    if version_shape(s, a, b) {
                        lemma_shape_first(s, a, b, i as int);
                        assert(!is_dot(s[b]));
                    }
                }
            }
            return None;
        }
        let middle = match g2 {
            Some(v) => v,
            None => {
                proof {
                    assert forall|a: int, b: int| !version_shape(s, a, b) by {
                        if version_shape(s, a, b) {
                            lemma_shape_first(s, a, b, i as int);
                            lemma_shape_second(s, a, b, j as int);
                            assert(!group_ok(s.subrange(i as int + 1, j as int)));
                        }
                    }
                }
                return None;
            },
        };
        let (k, g3) = scan_group(input, j + 1);
        if k < n {
            proof {
                assert forall|a: int, b: int| !version_shape(s, a, b) by {
                    if version_shape(s, a, b) {
                        lemma_shape_first(s, a, b, i as int);
                        lemma_shape_second(s, a, b, j as int);
                        assert(is_digit_char(s.subrange(j as int + 1, s.len() as int)[k - j - 1]));
                    }
                }
            }
            return None;
        }
        let minor = match g3 {
            Some(v) => v,
            None => {
                proof {
                    assert forall|a: int, b: int| !version_shape(s, a, b) by {
                        if version_shape(s, a, b) {
                            lemma_shape_first(s, a, b, i as int);
                            lemma_shape_second(s, a, b, j as int);
                            assert(!group_ok(s.subrange(j as int + 1, s.len() as int)));
                        }
                    }
                }
                return None;
            },
        };
        proof {
            assert(version_shape(s, i as int, j as int));
            lemma_parse_of_shape(s, i as int, j as int);
        }
        Some(Version::new(major, middle, minor))
    }

    /// Render the version in its canonical textual form: the three parts in
    /// decimal without leading zeros, joined by dots.
    pub fn to_text(&self) -> (r: String)
        ensures
            r@ == spec_version_text(*self),
    {
        let mut bytes: Vec<u8> = Vec::new();
        push_u8_text(self.major, &mut bytes);
        bytes.push(46);
        push_u8_text(self.middle, &mut bytes);
        bytes.push(46);
        push_u8_text(self.minor, &mut bytes);
        let ghost text = spec_version_text(*self);
        proof {
            lemma_version_text_bytes(*self);
            assert(bytes@ =~= ascii_bytes(text));
            assert(bytes@ == vstd::utf8::encode_utf8(text));
            vstd::utf8::encode_utf8_valid_utf8(text);
        }
        match crate::serde::utils::bytes_to_string(bytes) {
            Ok(st) => {
                proof {
                    vstd::utf8::encode_utf8_decode_utf8(st@);
                    vstd::utf8::encode_utf8_decode_utf8(text);
                }
                st
            },
            Err(_) => vstd::pervasive::unreached(),
        }
    }

    /// Converts the version to a triple of signed 16-bit integers.
    pub fn to_signed_triple(&self) -> (r: (i16, i16, i16))
        ensures
            r == (self.major as i16, self.middle as i16, self.minor as i16),
    {
        (self.major as i16, self.middle as i16, self.minor as i16)
    }
}

impl From<(u8, u8, u8)> for Version {
    /// Build a version from its three parts, major first.
    fn from(value: (u8, u8, u8)) -> (r: Self)
        ensures
            r == (Version { major: value.0, middle: value.1, minor: value.2 }),
    {
        Version::new(value.0, value.1, value.2)
    }
}

impl vstd::std_specs::convert::FromSpecImpl<(u8, u8, u8)> for Version {
    open spec fn obeys_from_spec() -> bool {
        true
    }

    open spec fn from_spec(value: (u8, u8, u8)) -> Version {
        Version { major: value.0, middle: value.1, minor: value.2 }
    }
}

impl From<Version> for (u8, u8, u8) {
    /// The three parts of a version, major first.
    fn from(value: Version) -> (r: Self)
        ensures
            r == (value.major, value.middle, value.minor),
    {
        (value.major, value.middle, value.minor)
    }
}

impl vstd::std_specs::convert::FromSpecImpl<Version> for (u8, u8, u8) {
    open spec fn obeys_from_spec() -> bool {
        true
    }

    open spec fn from_spec(value: Version) -> (u8, u8, u8) {
        (value.major, value.middle, value.minor)
    }
}

/// Whether `c` is the ASCII dot that separates the three parts.
pub open spec fn is_dot(c: char) -> bool {
    c as u32 == 46
}

/// Whether `c` is an ASCII decimal digit.
pub open spec fn is_digit_char(c: char) -> bool {
    48 <= c as u32 <= 57
}

/// The numeric value of an ASCII decimal digit.
pub open spec fn digit_val(c: char) -> int {
    c as u32 - 48
}

/// The ASCII decimal digit with value `d`.
pub open spec fn digit_char(d: int) -> char {
    ((48 + d) as u32) as char
}

/// Every character of `s` is an ASCII decimal digit.
pub open spec fn all_digits(s: Seq<char>) -> bool {
    forall|k: int| 0 <= k < s.len() ==> is_digit_char(#[trigger] s[k])
}

/// The value of a sequence of decimal digits, most significant first.
pub open spec fn digits_val(s: Seq<char>) -> int
    decreases s.len(),
{
    if s.len() == 0 {
        0
    } else {
        digits_val(s.drop_last()) * 10 + digit_val(s.last())
    }
}

/// A parsable digit group: nonempty, all decimal digits, value at most 255.
pub open spec fn group_ok(s: Seq<char>) -> bool {
    s.len() > 0 && all_digits(s) && digits_val(s) <= 255
}

/// Positions `i < j` split `s` into exactly three parsable digit groups
/// separated by dots.  At most one such pair of positions can exist.
pub open spec fn version_shape(s: Seq<char>, i: int, j: int) -> bool {
    &&& 0 <= i < j < s.len()
    &&& is_dot(s[i])
    &&& is_dot(s[j])
    &&& group_ok(s.subrange(0, i))
    &&& group_ok(s.subrange(i + 1, j))
    &&& group_ok(s.subrange(j + 1, s.len() as int))
}

/// The version value read off a split of `s` at dot positions `i` and `j`.
pub open spec fn shape_version(s: Seq<char>, i: int, j: int) -> Version {
    Version {
        major: digits_val(s.subrange(0, i)) as u8,
        middle: digits_val(s.subrange(i + 1, j)) as u8,
        minor: digits_val(s.subrange(j + 1, s.len() as int)) as u8,
    }
}

/// What parsing a version string yields: the value read off the unique
/// three-group split when one exists, and nothing otherwise.
pub open spec fn spec_version_parse(s: Seq<char>) -> Option<Version> {
    if exists|i: int, j: int| version_shape(s, i, j) {
        let (i, j) = choose|i: int, j: int| version_shape(s, i, j);
        Some(shape_version(s, i, j))
    } else {
        None
    }
}

/// The canonical decimal digits of `n`, without leading zeros.
pub open spec fn u8_digits(n: int) -> Seq<char>
    decreases n,
{
    if n < 10 {
        seq![digit_char(n)]
    } else {
        u8_digits(n / 10) + seq![digit_char(n % 10)]
    }
}

/// The canonical text of a version: the three parts in decimal, joined by
/// dots.
pub open spec fn spec_version_text(v: Version) -> Seq<char> {
    u8_digits(v.major as int) + seq![46u32 as char] + u8_digits(v.middle as int) + seq![
        46u32 as char,
    ] + u8_digits(v.minor as int)
}

/// At most one pair of dot positions splits `s` into three digit groups.
proof fn lemma_shape_unique(s: Seq<char>, i1: int, j1: int, i2: int, j2: int)
    requires
        version_shape(s, i1, j1),
        version_shape(s, i2, j2),
    ensures
        i1 == i2,
        j1 == j2,
{
    if i1 < i2 {
        assert(is_digit_char(s.subrange(0, i2)[i1]));
    }
    if i2 < i1 {
        assert(is_digit_char(s.subrange(0, i1)[i2]));
    }
    if j1 < j2 {
        assert(is_digit_char(s.subrange(i2 + 1, j2)[j1 - i2 - 1]));
    }
    if j2 < j1 {
        assert(is_digit_char(s.subrange(i1 + 1, j1)[j2 - i1 - 1]));
    }
}

/// A split that satisfies [`version_shape`] determines the parse result.
proof fn lemma_parse_of_shape(s: Seq<char>, i: int, j: int)
    requires
        version_shape(s, i, j),
    ensures
        spec_version_parse(s) == Some(shape_version(s, i, j)),
{
    let (i0, j0) = choose|i0: int, j0: int| version_shape(s, i0, j0);
    lemma_shape_unique(s, i0, j0, i, j);
}

/// The bytes that spell an ASCII character sequence, one byte per character.
pub open spec fn ascii_bytes(s: Seq<char>) -> Seq<u8> {
    Seq::new(s.len(), |k: int| s[k] as u8)
}

/// The canonical digits of `n` are decimal digits with value `n`.
proof fn lemma_u8_digits_ok(n: int)
    requires
        0 <= n,
    ensures
        all_digits(u8_digits(n)),
        digits_val(u8_digits(n)) == n,
        u8_digits(n).len() >= 1,
        low_chars(u8_digits(n)),
    decreases n,
{
    if n < 10 {
        assert((48 + n) as u32 as char as u32 == 48 + n);
        assert(digit_val(digit_char(n)) == n);
        assert(digit_char(n) as u8 == 48 + n);
        let w = u8_digits(n);
        assert(w =~= seq![digit_char(n)]);
        assert(w.drop_last() =~= Seq::<char>::empty());
        assert(w.last() == digit_char(n));
        assert(digits_val(w.drop_last()) == 0);
        assert(digits_val(w) == digits_val(w.drop_last()) * 10 + digit_val(w.last()));
        assert forall|k: int| 0 <= k < w.len() implies low_char(#[trigger] w[k]) by {
            assert(w[k] == digit_char(n));
        }
    } else {
        lemma_u8_digits_ok(n / 10);
        assert((48 + n % 10) as u32 as char as u32 == 48 + n % 10);
        assert(digit_val(digit_char(n % 10)) == n % 10);
        assert(digit_char(n % 10) as u8 == 48 + n % 10);
        let w = u8_digits(n);
        assert(w.drop_last() =~= u8_digits(n / 10));
        assert(w.last() == digit_char(n % 10));
        assert(digits_val(w) == digits_val(w.drop_last()) * 10 + digit_val(w.last()));
        assert forall|k: int| 0 <= k < w.len() implies low_char(#[trigger] w[k]) by {
            if k < w.len() - 1 {
                assert(w[k] == u8_digits(n / 10)[k]);
            } else {
                assert(w[k] == digit_char(n % 10));
            }
        }
    }
}

/// A character in the ASCII range whose one-byte and scalar casts agree.
pub open spec fn low_char(c: char) -> bool {
    (c as u32) < 128 && (c as u8) == (c as u32)
}

/// Every character of `s` is in the ASCII range.
pub open spec fn low_chars(s: Seq<char>) -> bool {
    forall|k: int| 0 <= k < s.len() ==> low_char(#[trigger] s[k])
}

/// UTF-8 encodes a sequence of ASCII-range characters byte for byte.
proof fn lemma_low_chars_encode(s: Seq<char>)
    requires
        low_chars(s),
    ensures
        vstd::utf8::encode_utf8(s) == ascii_bytes(s),
    decreases s.len(),
{
    if s.len() == 0 {
        assert(vstd::utf8::encode_utf8(s) =~= ascii_bytes(s));
    } else {
        let v = s[0] as u32;
        assert(low_char(s[0]));
        assert(v & 0x7F == v) by (bit_vector)
            requires
                v < 128,
        ;
        assert(vstd::utf8::encode_scalar(v) =~= seq![s[0] as u8]);
        let t = s.drop_first();
        assert forall|k: int| 0 <= k < t.len() implies low_char(#[trigger] t[k]) by {
            assert(t[k] == s[k + 1]);
        }
        lemma_low_chars_encode(t);
        assert(vstd::utf8::encode_utf8(s) =~= ascii_bytes(s));
    }
}

/// Append the decimal digits of `v`, without leading zeros, as ASCII bytes.
fn push_u8_text(v: u8, out: &mut Vec<u8>)
    ensures
        final(out)@ == old(out)@ + ascii_bytes(u8_digits(v as int)),
{
    let ghost n: int = v as int;
    if v >= 100 {
        out.push(48 + v / 100);
        out.push(48 + (v / 10) % 10);
        out.push(48 + v % 10);
        proof {
            vstd::arithmetic::div_mod::lemma_div_denominator(n, 10, 10);
            assert(n / 10 / 10 == n / 100);
            assert(n / 10 >= 10);
            assert(n / 100 < 10);
            assert(u8_digits(n / 100) =~= seq![digit_char(n / 100)]);
            assert(u8_digits(n / 10) =~= u8_digits(n / 10 / 10) + seq![digit_char(n / 10 % 10)]);
            assert(u8_digits(n) =~= u8_digits(n / 10) + seq![digit_char(n % 10)]);
            assert((48 + n / 100) as u32 as char as u32 == 48 + n / 100);
            assert((48 + n / 10 % 10) as u32 as char as u32 == 48 + n / 10 % 10);
            assert((48 + n % 10) as u32 as char as u32 == 48 + n % 10);
            assert(digit_char(n / 100) as u8 == 48 + n / 100);
            assert(digit_char(n / 10 % 10) as u8 == 48 + n / 10 % 10);
            assert(digit_char(n % 10) as u8 == 48 + n % 10);
            assert(u8_digits(n) =~= seq![
                digit_char(n / 100),
                digit_char(n / 10 % 10),
                digit_char(n % 10),
            ]);
            assert(ascii_bytes(u8_digits(n)) =~= seq![
                (48 + v / 100) as u8,
                (48 + (v / 10) % 10) as u8,
                (48 + v % 10) as u8,
            ]);
            assert(out@ =~= old(out)@ + seq![
                (48 + v / 100) as u8,
                (48 + (v / 10) % 10) as u8,
                (48 + v % 10) as u8,
            ]);
            assert(out@ =~= old(out)@ + ascii_bytes(u8_digits(n)));
        }
    } else if v >= 10 {
        out.push(48 + v / 10);
        out.push(48 + v % 10);
        proof {
            assert((48 + n / 10) as u32 as char as u32 == 48 + n / 10);
            assert((48 + n % 10) as u32 as char as u32 == 48 + n % 10);
            assert(digit_char(n / 10) as u8 == 48 + n / 10);
            assert(digit_char(n % 10) as u8 == 48 + n % 10);
            assert(u8_digits(n / 10) =~= seq![digit_char(n / 10)]);
            assert(u8_digits(n) =~= seq![digit_char(n / 10), digit_char(n % 10)]);
            assert(ascii_bytes(u8_digits(n)) =~= seq![(48 + v / 10) as u8, (48 + v % 10) as u8]);
            assert(out@ =~= old(out)@ + seq![(48 + v / 10) as u8, (48 + v % 10) as u8]);
            assert(out@ =~= old(out)@ + ascii_bytes(u8_digits(n)));
        }
    } else {
        out.push(48 + v);
        proof {
            assert((48 + n) as u32 as char as u32 == 48 + n);
            assert(digit_char(n) as u8 == 48 + n);
            assert(u8_digits(n) =~= seq![digit_char(n)]);
            assert(ascii_bytes(u8_digits(n)) =~= seq![(48 + v) as u8]);
            assert(out@ =~= old(out)@ + seq![(48 + v) as u8]);
            assert(out@ =~= old(out)@ + ascii_bytes(u8_digits(n)));
        }
    }
}

/// The canonical text of a version is spelt in ASCII, so its UTF-8 bytes
/// are one per character: the digit bytes of the parts joined by dot bytes.
proof fn lemma_version_text_bytes(v: Version)
    ensures
        vstd::utf8::encode_utf8(spec_version_text(v)) == ascii_bytes(spec_version_text(v)),
        ascii_bytes(spec_version_text(v)) == ascii_bytes(u8_digits(v.major as int)) + seq![46u8]
            + ascii_bytes(u8_digits(v.middle as int)) + seq![46u8] + ascii_bytes(
            u8_digits(v.minor as int),
        ),
{
    lemma_u8_digits_ok(v.major as int);
    lemma_u8_digits_ok(v.middle as int);
    lemma_u8_digits_ok(v.minor as int);
    let text = spec_version_text(v);
    assert(46u32 as char as u32 == 46);
    assert((46u32 as char) as u8 == 46);
    let a1 = u8_digits(v.major as int);
    let a2 = u8_digits(v.middle as int);
    let a3 = u8_digits(v.minor as int);
    let l1 = a1.len() as int;
    let l2 = a2.len() as int;
    assert forall|k: int| 0 <= k < text.len() implies low_char(#[trigger] text[k]) by {
        if k < l1 {
            assert(text[k] == a1[k]);
            assert(low_char(a1[k]));
        } else if k == l1 {
            assert(text[k] == 46u32 as char);
        } else if k < l1 + 1 + l2 {
            assert(text[k] == a2[k - l1 - 1]);
            assert(low_char(a2[k - l1 - 1]));
        } else if k == l1 + 1 + l2 {
            assert(text[k] == 46u32 as char);
        } else {
            assert(text[k] == a3[k - l1 - l2 - 2]);
            assert(low_char(a3[k - l1 - l2 - 2]));
        }
    }
    lemma_low_chars_encode(text);
    assert(ascii_bytes(text) =~= ascii_bytes(u8_digits(v.major as int)) + seq![46u8] + ascii_bytes(
        u8_digits(v.middle as int),
    ) + seq![46u8] + ascii_bytes(u8_digits(v.minor as int)));
}

/// **Textual round trip.**  Parsing the canonical text of any version gives
/// back exactly that version.
pub proof fn lemma_version_text_parses(v: Version)
    ensures
        spec_version_parse(spec_version_text(v)) == Some(v),
{
    lemma_u8_digits_ok(v.major as int);
    lemma_u8_digits_ok(v.middle as int);
    lemma_u8_digits_ok(v.minor as int);
    let s = spec_version_text(v);
    let a1 = u8_digits(v.major as int);
    let a2 = u8_digits(v.middle as int);
    let a3 = u8_digits(v.minor as int);
    let i = a1.len() as int;
    let j = i + 1 + a2.len() as int;
    assert(46u32 as char as u32 == 46);
    assert(s[i] == 46u32 as char);
    assert(s[j] == 46u32 as char);
    assert(s.subrange(0, i) =~= a1);
    assert(s.subrange(i + 1, j) =~= a2);
    assert(s.subrange(j + 1, s.len() as int) =~= a3);
    assert(version_shape(s, i, j));
    lemma_parse_of_shape(s, i, j);
    assert(shape_version(s, i, j) == v);
}

/// In a three-group split, the first dot of `s` is the first separator.
proof fn lemma_shape_first(s: Seq<char>, a: int, b: int, i: int)
    requires
        version_shape(s, a, b),
        0 <= i < s.len(),
        is_dot(s[i]),
        forall|k: int| 0 <= k < i ==> !is_dot(#[trigger] s[k]),
    ensures
        a == i,
{
    if a > i {
        assert(is_digit_char(s.subrange(0, a)[i]));
    }
}

/// In a three-group split, the first dot after the first separator is the
/// second separator.
proof fn lemma_shape_second(s: Seq<char>, a: int, b: int, j: int)
    requires
        version_shape(s, a, b),
        a + 1 <= j < s.len(),
        is_dot(s[j]),
        forall|k: int| a + 1 <= k < j ==> !is_dot(#[trigger] s[k]),
    ensures
        b == j,
{
    if b > j {
        assert(is_digit_char(s.subrange(a + 1, b)[j - a - 1]));
    }
    if b < j {
        assert(is_digit_char(s.subrange(b + 1, s.len() as int)[j - b - 1]));
    }
}

/// Scan one decimal group of `input` starting at `start`: stop at the first
/// dot at or after `start`, or at the end of the string.  Returns the stop
/// position together with the group's value, if the group is parsable.
fn scan_group(input: &str, start: usize) -> (r: (usize, Option<u8>))
    requires
        start <= input@.len(),
    ensures
        ({
            let stop = r.0 as int;
            let g = input@.subrange(start as int, stop);
            &&& start <= r.0 <= input@.len()
            &&& (forall|k: int| start <= k < stop ==> !is_dot(#[trigger] input@[k]))
            &&& (r.0 < input@.len() ==> is_dot(input@[stop]))
            &&& (match r.1 {
                Some(v) => group_ok(g) && digits_val(g) == v,
                None => !group_ok(g),
            })
        }),
{
    let n: usize = input.unicode_len();
    let mut i: usize = start;
    let mut val: u16 = 0;
    let mut bad: bool = false;
    loop
        invariant
            start <= i <= n,
            n == input@.len(),
            forall|k: int| start <= k < i ==> !is_dot(#[trigger] input@[k]),
            bad <==> !(all_digits(input@.subrange(start as int, i as int)) && digits_val(
                input@.subrange(start as int, i as int),
            ) <= 255),
            !bad ==> val == digits_val(input@.subrange(start as int, i as int)) && val <= 255,
        ensures
            start <= i <= n,
            n == input@.len(),
            forall|k: int| start <= k < i ==> !is_dot(#[trigger] input@[k]),
            i < n ==> is_dot(input@[i as int]),
            bad <==> !(all_digits(input@.subrange(start as int, i as int)) && digits_val(
                input@.subrange(start as int, i as int),
            ) <= 255),
            !bad ==> val == digits_val(input@.subrange(start as int, i as int)) && val <= 255,
        decreases n - i,
    {
        if i >= n {
            break;
        }
        let c = input.get_char(i);
        let cu: u32 = c as u32;
        if cu == 46 {
            break;
        }
        let ghost g = input@.subrange(start as int, i as int);
        let ghost g2 = input@.subrange(start as int, i as int + 1);
        proof {
            assert(g2.drop_last() =~= g);
            assert(g2.last() == input@[i as int]);
            assert forall|k: int| 0 <= k < g.len() implies g2[k] == g[k] by {}
        }
        if cu < 48 || cu > 57 {
            bad = true;
            proof {
                assert(!is_digit_char(g2.last()));
            }
        } else if !bad {
            let d: u16 = (cu - 48) as u16;
            let nv: u16 = val * 10 + d;
            proof {
                assert(digits_val(g2) == digits_val(g) * 10 + digit_val(input@[i as int]));
                assert(digit_val(input@[i as int]) == d);
                assert(all_digits(g2));
            }
            if nv > 255 {
                bad = true;
            } else {
                val = nv;
            }
        } else {
            proof {
                if all_digits(g) {
                    assert(digits_val(g) > 255);
                    assert(digits_val(g2) == digits_val(g) * 10 + digit_val(input@[i as int]));
                    assert(digit_val(input@[i as int]) >= 0);
                } else {
                    let w = choose|w: int| 0 <= w < g.len() && !is_digit_char(g[w]);
                    assert(!is_digit_char(g2[w]));
                }
            }
        }
        i += 1;
    }
    if bad || i == start {
        (i, None)
    } else {
        (i, Some(val as u8))
    }
}

impl Default for Version {
    /// The all-zero version `0.0.0`.
    fn default() -> (r: Self)
        ensures
            r == (Version { major: 0u8, middle: 0u8, minor: 0u8 }),
    {
        Version { major: 0, middle: 0, minor: 0 }
    }
}

} // verus!
