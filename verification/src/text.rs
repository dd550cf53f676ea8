use vstd::prelude::*;

verus! {

// Byte-level text helpers shared by the device catalog: ASCII case folding,
// substring search, identifier slugs, and decimal rendering of indexes.
// Device names are handled as their UTF-8 bytes; every byte the slug keeps
// is ASCII, so the finished identifiers convert back to strings directly.

/// The byte value of `'_'`, the slug separator.
pub const UNDERSCORE: u8 = 95;

pub open spec fn is_alnum_byte(b: u8) -> bool {
    (48 <= b <= 57) || (65 <= b <= 90) || (97 <= b <= 122)
}

pub open spec fn lower_byte(b: u8) -> u8 {
    if 65 <= b <= 90 {
        (b + 32) as u8
    } else {
        b
    }
}

pub open spec fn lower_bytes(s: Seq<u8>) -> Seq<u8> {
    s.map_values(|b: u8| lower_byte(b))
}

/// ASCII characters read off a byte sequence, value for value.
pub open spec fn ascii_chars(s: Seq<u8>) -> Seq<char> {
    s.map_values(|b: u8| b as char)
}

pub open spec fn all_ascii(s: Seq<u8>) -> bool {
    forall|i: int| 0 <= i < s.len() ==> s[i] < 128
}

/// Case-fold a byte string: ASCII upper-case letters become lower-case,
/// every other byte is kept.
pub fn to_lower_bytes(s: &[u8]) -> (r: Vec<u8>)
    ensures
        r@ == lower_bytes(s@),
{
    let mut r: Vec<u8> = Vec::new();
    let mut i: usize = 0;
    while i < s.len()
        invariant
            i <= s@.len(),
            r@ == lower_bytes(s@.take(i as int)),
        decreases s@.len() - i,
    {
        let b = s[i];
        if 65 <= b && b <= 90 {
            r.push(b + 32);
        } else {
            r.push(b);
        }
        proof {
            assert(lower_bytes(s@.take(i + 1)) =~= lower_bytes(s@.take(i as int)).push(
                lower_byte(s@[i as int]),
            ));
        }
        i = i + 1;
    }
    proof {
        assert(s@.take(s@.len() as int) =~= s@);
    }
    r
}

/// `needle` occurs as a contiguous run somewhere in `hay`.
pub open spec fn contains_seq(hay: Seq<u8>, needle: Seq<u8>) -> bool {
    exists|i: int|
        0 <= i && i + needle.len() <= hay.len() && #[trigger] hay.subrange(i, i + needle.len())
            == needle
}

fn matches_at(hay: &[u8], needle: &[u8], at: usize) -> (r: bool)
    requires
        at + needle@.len() <= hay@.len(),
    ensures
        r == (hay@.subrange(at as int, at + needle@.len()) == needle@),
{
    let hay_len = hay.len();
    let mut j: usize = 0;
    while j < needle.len()
        invariant
            at + needle@.len() <= hay_len,
            hay_len == hay@.len(),
            j <= needle@.len(),
            forall|k: int| 0 <= k < j ==> hay@[at + k] == needle@[k],
        decreases needle@.len() - j,
    {
        if hay[at + j] != needle[j] {
            proof {
                assert(hay@.subrange(at as int, at + needle@.len())[j as int] == hay@[at + j]);
            }
            return false;
        }
        j = j + 1;
    }
    proof {
        assert(hay@.subrange(at as int, at + needle@.len()) =~= needle@);
    }
    true
}

/// Substring search, the heart of the name heuristics.
pub fn contains_bytes(hay: &[u8], needle: &[u8]) -> (r: bool)
    ensures
        r == contains_seq(hay@, needle@),
{
    if needle.len() > hay.len() {
        return false;
    }
    if needle.len() == 0 {
        proof {
            assert(hay@.subrange(0, 0 + needle@.len() as int) =~= needle@);
        }
        return true;
    }
    let hay_len = hay.len();
    let mut i: usize = 0;
    let last = hay_len - needle.len();
    while i <= last
        invariant
            0 < needle@.len() <= hay@.len(),
            hay_len == hay@.len(),
            last == hay@.len() - needle@.len(),
            last < hay_len,
            i <= last + 1,
            forall|k: int|
                0 <= k < i ==> #[trigger] hay@.subrange(k, k + needle@.len()) != needle@,
        decreases last + 1 - i,
    {
        if matches_at(hay, needle, i) {
            return true;
        }
        i = i + 1;
    }
    false
}

// --- Slug construction -----------------------------------------------------
//
// A device name becomes an identifier slug in three steps: each byte is
// mapped to its lower-case form when ASCII-alphanumeric and to `'_'`
// otherwise; runs of `'_'` are collapsed to a single separator; a leading
// and a trailing separator are trimmed.

pub open spec fn map_slug_byte(b: u8) -> u8 {
    if is_alnum_byte(b) {
        lower_byte(b)
    } else {
        UNDERSCORE
    }
}

pub open spec fn map_slug(s: Seq<u8>) -> Seq<u8> {
    s.map_values(|b: u8| map_slug_byte(b))
}

/// Collapse runs of `'_'`: a separator is dropped when the previously kept
/// byte was already a separator (`prev_us`).
pub open spec fn collapse_us(s: Seq<u8>, prev_us: bool) -> Seq<u8>
    decreases s.len(),
{
    if s.len() == 0 {
        Seq::<u8>::empty()
    } else if s[0] == UNDERSCORE && prev_us {
        collapse_us(s.drop_first(), true)
    } else {
        seq![s[0]] + collapse_us(s.drop_first(), s[0] == UNDERSCORE)
    }
}

/// Drop one leading and one trailing separator. The collapse step leaves at
/// most one at either end, so this is a full trim of the slug.
pub open spec fn trim_us(s: Seq<u8>) -> Seq<u8> {
    let f = if s.len() > 0 && s[0] == UNDERSCORE {
        s.drop_first()
    } else {
        s
    };
    if f.len() > 0 && f[f.len() - 1] == UNDERSCORE {
        f.drop_last()
    } else {
        f
    }
}

/// The identifier slug of a raw device name, as bytes.
pub open spec fn slug_of(name: Seq<u8>) -> Seq<u8> {
    trim_us(collapse_us(map_slug(name), false))
}

fn map_slug_exec(s: &[u8]) -> (r: Vec<u8>)
    ensures
        r@ == map_slug(s@),
{
    let mut r: Vec<u8> = Vec::new();
    let mut i: usize = 0;
    while i < s.len()
        invariant
            i <= s@.len(),
            r@ == map_slug(s@.take(i as int)),
        decreases s@.len() - i,
    {
        let b = s[i];
        let alnum = (48 <= b && b <= 57) || (65 <= b && b <= 90) || (97 <= b && b <= 122);
        if alnum {
            if 65 <= b && b <= 90 {
                r.push(b + 32);
            } else {
                r.push(b);
            }
        } else {
            r.push(UNDERSCORE);
        }
        proof {
            assert(map_slug(s@.take(i + 1)) =~= map_slug(s@.take(i as int)).push(
                map_slug_byte(s@[i as int]),
            ));
        }
        i = i + 1;
    }
    proof {
        assert(s@.take(s@.len() as int) =~= s@);
    }
    r
}

fn collapse_us_exec(s: &Vec<u8>) -> (r: Vec<u8>)
    ensures
        r@ == collapse_us(s@, false),
{
    let mut r: Vec<u8> = Vec::new();
    let mut prev_us = false;
    let mut i: usize = 0;
    proof {
        assert(s@.skip(0) =~= s@);
        assert(r@ + collapse_us(s@, false) =~= collapse_us(s@, false));
    }
    while i < s.len()
        invariant
            i <= s@.len(),
            collapse_us(s@, false) == r@ + collapse_us(s@.skip(i as int), prev_us),
        decreases s@.len() - i,
    {
        let b = s[i];
        let ghost rest = s@.skip(i as int);
        proof {
            assert(rest.drop_first() =~= s@.skip(i + 1));
            assert(rest[0] == s@[i as int]);
        }
        if b == UNDERSCORE && prev_us {
            // dropped: still inside a separator run
            proof {
                assert(collapse_us(rest, true) == collapse_us(s@.skip(i + 1), true));
            }
        } else {
            proof {
                assert(collapse_us(rest, prev_us) == seq![b] + collapse_us(
                    s@.skip(i + 1),
                    b == UNDERSCORE,
                ));
                assert(r@ + (seq![b] + collapse_us(s@.skip(i + 1), b == UNDERSCORE)) =~= (r@
                    + seq![b]) + collapse_us(s@.skip(i + 1), b == UNDERSCORE));
            }
            r.push(b);
            prev_us = b == UNDERSCORE;
            proof {
                assert(r@ =~= r@.drop_last() + seq![b]);
            }
        }
        i = i + 1;
    }
    proof {
        assert(s@.skip(s@.len() as int) =~= Seq::<u8>::empty());
        assert(collapse_us(s@, false) =~= r@);
    }
    r
}

fn trim_us_exec(s: Vec<u8>) -> (r: Vec<u8>)
    ensures
        r@ == trim_us(s@),
{
    let mut v = s;
    if v.len() > 0 && v[0] == UNDERSCORE {
        v.remove(0);
    }
    if v.len() > 0 && v[v.len() - 1] == UNDERSCORE {
        v.pop();
        proof {
            assert(v@ =~= trim_us(s@));
        }
    }
    v
}

/// The identifier slug of a raw device name.
pub fn slug_bytes(name: &[u8]) -> (r: Vec<u8>)
    ensures
        r@ == slug_of(name@),
{
    let mapped = map_slug_exec(name);
    let collapsed = collapse_us_exec(&mapped);
    trim_us_exec(collapsed)
}

// --- Decimal rendering ------------------------------------------------------

/// The decimal digits of `n`, most significant first.
pub open spec fn dec_digits(n: nat) -> Seq<u8>
    decreases n,
{
    if n < 10 {
        seq![(48 + n) as u8]
    } else {
        dec_digits(n / 10) + seq![(48 + n % 10) as u8]
    }
}

/// Render an index in decimal.
pub fn dec_bytes(n: usize) -> (r: Vec<u8>)
    ensures
        r@ == dec_digits(n as nat),
    decreases n,
{
    if n < 10 {
        let mut r: Vec<u8> = Vec::new();
        r.push(48 + (n as u8));
        proof {
            assert(r@ =~= dec_digits(n as nat));
        }
        r
    } else {
        let mut r = dec_bytes(n / 10);
        r.push(48 + ((n % 10) as u8));
        proof {
            assert(r@ =~= dec_digits(n as nat));
        }
        r
    }
}

// --- Bytes back to strings --------------------------------------------------

/// Relies on `String::from_utf8`: a sequence of ASCII bytes is valid UTF-8
/// and decodes to the characters of the same scalar values. The fallback arm
/// is unreachable for the ASCII inputs this accepts.
#[verifier::external_body]
pub(crate) fn ascii_to_string(bytes: Vec<u8>) -> (r: String)
    requires
        all_ascii(bytes@),
    ensures
        r@ == ascii_chars(bytes@),
{
    String::from_utf8(bytes).unwrap_or_default()
}

} // verus!
