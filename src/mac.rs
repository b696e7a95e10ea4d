use vstd::prelude::*;
use vstd::string::StrSliceExecFns;

use crate::error::Error;

verus! {

/// A hardware address: six bytes, or the wildcard that stands for any address.
#[derive(Debug, Clone, Copy)]
pub enum Mac {
    Specific([u8; 6]),
    Any,
}

/// `c` is a hexadecimal digit, in either case.
pub open spec fn is_hex_char(c: char) -> bool {
    (48 <= c as int <= 57) || (65 <= c as int <= 70) || (97 <= c as int <= 102)
}

/// The value of a hexadecimal digit.
pub open spec fn hex_value(c: char) -> int {
    if c as int <= 57 {
        c as int - 48
    } else if c as int <= 70 {
        c as int - 55
    } else {
        c as int - 87
    }
}

/// The text with every colon taken out.
pub open spec fn strip_colons(s: Seq<char>) -> Seq<char>
    decreases s.len(),
{
    if s.len() == 0 {
        Seq::empty()
    } else if s.last() == ':' {
        strip_colons(s.drop_last())
    } else {
        strip_colons(s.drop_last()).push(s.last())
    }
}

/// Twelve hexadecimal digits once the colons are taken out.
pub open spec fn is_address_text(s: Seq<char>) -> bool {
    let d = strip_colons(s);
    d.len() == 12 && forall|i: int| 0 <= i < 12 ==> is_hex_char(#[trigger] d[i])
}

/// The six bytes that twelve hexadecimal digits spell, two digits a byte, high digit first.
pub open spec fn octets_of_digits(d: Seq<char>) -> Seq<u8> {
    Seq::new(6, |k: int| (hex_value(d[2 * k]) * 16 + hex_value(d[2 * k + 1])) as u8)
}

/// The address that a valid address text spells.
pub open spec fn parsed_octets(s: Seq<char>) -> Seq<u8> {
    octets_of_digits(strip_colons(s))
}

/// The upper-case hexadecimal digit of a value below 16.
pub open spec fn upper_digit(n: int) -> char {
    if n < 10 {
        (48 + n) as char
    } else {
        (55 + n) as char
    }
}

/// A byte as two upper-case hexadecimal digits.
pub open spec fn octet_text(b: u8) -> Seq<char> {
    seq![upper_digit(b as int / 16), upper_digit(b as int % 16)]
}

/// Bytes as upper-case hexadecimal pairs joined by colons.
pub open spec fn octets_text(a: Seq<u8>) -> Seq<char>
    decreases a.len(),
{
    if a.len() == 0 {
        Seq::empty()
    } else if a.len() == 1 {
        octet_text(a[0])
    } else {
        octets_text(a.drop_last()) + seq![':'] + octet_text(a.last())
    }
}

/// The text of an address: `*` for the wildcard, else the colon-separated upper-case form.
pub open spec fn mac_text(m: Mac) -> Seq<char> {
    match m {
        Mac::Specific(a) => octets_text(a@),
        Mac::Any => seq!['*'],
    }
}

/// The upper-case form of a character: lower-case ASCII letters are raised, others kept.
pub open spec fn to_upper(c: char) -> char {
    if 97 <= c as int <= 122 {
        (c as int - 32) as char
    } else {
        c
    }
}

/// The canonical text of twelve digits: upper case, a colon after every pair.
pub open spec fn canonical_text(d: Seq<char>) -> Seq<char> {
    Seq::new(17, |i: int| if i % 3 == 2 { ':' } else { to_upper(d[2 * (i / 3) + i % 3]) })
}

/// Character `i` of the colon-separated text of `a`.
pub open spec fn text_cell(a: Seq<u8>, i: int) -> char {
    if i % 3 == 2 {
        ':'
    } else if i % 3 == 0 {
        upper_digit(a[i / 3] as int / 16)
    } else {
        upper_digit(a[i / 3] as int % 16)
    }
}

proof fn lemma_octets_text_cells(a: Seq<u8>)
    requires
        a.len() >= 1,
    ensures
        octets_text(a).len() == 3 * a.len() - 1,
        forall|i: int| 0 <= i < 3 * a.len() - 1 ==> #[trigger] octets_text(a)[i] == text_cell(a, i),
    decreases a.len(),
{
    if a.len() == 1 {
        assert(octets_text(a) == octet_text(a[0]));
    } else {
        let p = a.drop_last();
        lemma_octets_text_cells(p);
        let n = a.len() as int;
        assert forall|i: int| 0 <= i < 3 * n - 1 implies #[trigger] octets_text(a)[i] == text_cell(a, i) by {
            if i < 3 * n - 4 {
                assert(octets_text(a)[i] == octets_text(p)[i]);
                assert(i / 3 < n - 1);
                assert(p[i / 3] == a[i / 3]);
            } else if i == 3 * n - 4 {
                assert(i % 3 == 2);
            } else {
                assert(i / 3 == n - 1);
            }
        }
    }
}

proof fn lemma_upper_digit_of_hex(c: char)
    requires
        is_hex_char(c),
    ensures
        upper_digit(hex_value(c)) == to_upper(c),
{
}

/// Reading an address text and writing the address back gives the text's canonical
/// form: its twelve digits in upper case, a colon after every pair.
pub proof fn lemma_parse_format_round_trip(s: Seq<char>)
    requires
        is_address_text(s),
    ensures
        octets_text(parsed_octets(s)) == canonical_text(strip_colons(s)),
{
    let d = strip_colons(s);
    let o = parsed_octets(s);
    lemma_octets_text_cells(o);
    assert forall|i: int| 0 <= i < 17 implies #[trigger] octets_text(o)[i] == canonical_text(d)[i] by {
        let q = i / 3;
        let h = hex_value(d[2 * q]);
        let l = hex_value(d[2 * q + 1]);
        assert(is_hex_char(d[2 * q]));
        assert(is_hex_char(d[2 * q + 1]));
        lemma_upper_digit_of_hex(d[2 * q]);
        lemma_upper_digit_of_hex(d[2 * q + 1]);
        assert(0 <= h < 16 && 0 <= l < 16);
        assert(o[q] as int == h * 16 + l);
        assert((h * 16 + l) / 16 == h && (h * 16 + l) % 16 == l) by (nonlinear_arith)
            requires
                0 <= h < 16,
                0 <= l < 16,
        ;
    }
    assert(octets_text(o) =~= canonical_text(d));
}

/// `source` begins with `prefix`.
pub open spec fn has_prefix(source: Seq<u8>, prefix: Seq<u8>) -> bool {
    prefix.len() <= source.len() && source.subrange(0, prefix.len() as int) == prefix
}

/// Relies on String::push: appends one character at the end.
#[verifier::external_body]
fn push_char(s: &mut String, c: char)
    ensures
        final(s)@ == old(s)@.push(c),
{
    s.push(c)
}

pub(crate) fn is_hex_digit(c: char) -> (r: bool)
    ensures
        r == is_hex_char(c),
{
    ('0' <= c && c <= '9') || ('A' <= c && c <= 'F') || ('a' <= c && c <= 'f')
}

pub(crate) fn hex_digit_value(c: char) -> (r: u8)
    requires
        is_hex_char(c),
    ensures
        r as int == hex_value(c),
        r < 16,
{
    let v = c as u32;
    if v <= 57 {
        (v - 48) as u8
    } else if v <= 70 {
        (v - 55) as u8
    } else {
        (v - 87) as u8
    }
}

fn upper_hex_digit(n: u8) -> (c: char)
    requires
        n < 16,
    ensures
        c == upper_digit(n as int),
{
    if n < 10 {
        (48 + n) as char
    } else {
        (55 + n) as char
    }
}

impl Mac {
    /// Parses twelve hexadecimal digits, in either case, with colons anywhere between them.
    pub fn parse(text: &str) -> (r: Result<Mac, Error>)
        ensures
            match r {
                Ok(Mac::Specific(a)) => is_address_text(text@) && a@ == parsed_octets(text@),
                Ok(Mac::Any) => false,
                Err(e) => !is_address_text(text@) && e == Error::Parse,
            },
    {
        let n = text.unicode_len();
        let mut digits: Vec<char> = Vec::new();
        let mut i: usize = 0;
        while i < n
            invariant
                n == text@.len(),
                i <= n,
                digits@ == strip_colons(text@.take(i as int)),
            decreases n - i,
        {
            let c = text.get_char(i);
            assert(text@.take(i as int + 1).drop_last() =~= text@.take(i as int));
            if c != ':' {
                digits.push(c);
            }
            i = i + 1;
        }
        assert(text@.take(n as int) =~= text@);
        if digits.len() != 12 {
            return Err(Error::Parse);
        }
        let mut j: usize = 0;
        while j < 12
            invariant
                digits@ == strip_colons(text@),
                digits@.len() == 12,
                j <= 12,
                forall|k: int| 0 <= k < j ==> is_hex_char(#[trigger] digits@[k]),
            decreases 12 - j,
        {
            let c = digits[j];
            if !is_hex_digit(c) {
                return Err(Error::Parse);
            }
            j = j + 1;
        }
        let mut out: [u8; 6] = [0u8; 6];
        let mut k: usize = 0;
        while k < 6
            invariant
                digits@ == strip_colons(text@),
                is_address_text(text@),
                k <= 6,
                forall|m: int| 0 <= m < k ==> out@[m] == #[trigger] parsed_octets(text@)[m],
            decreases 6 - k,
        {
            let hi = hex_digit_value(digits[2 * k]);
            let lo = hex_digit_value(digits[2 * k + 1]);
            out[k] = hi * 16 + lo;
            k = k + 1;
        }
        assert(out@ =~= parsed_octets(text@));
        Ok(Mac::Specific(out))
    }

    /// Reads an address from a slice of exactly six bytes.
    pub fn from_bytes(bytes: &[u8]) -> (r: Result<Mac, Error>)
        ensures
            match r {
                Ok(Mac::Specific(a)) => bytes@.len() == 6 && a@ == bytes@,
                Ok(Mac::Any) => false,
                Err(e) => bytes@.len() != 6 && e == (Error::Length { got: bytes@.len() as usize }),
            },
    {
        if bytes.len() != 6 {
            return Err(Error::Length { got: bytes.len() });
        }
        let a: [u8; 6] = [bytes[0], bytes[1], bytes[2], bytes[3], bytes[4], bytes[5]];
        assert(a@ =~= bytes@);
        Ok(Mac::Specific(a))
    }

    /// The address made of these six bytes.
    pub fn from_array(bytes: [u8; 6]) -> (r: Mac)
        ensures
            r == Mac::Specific(bytes),
    {
        Mac::Specific(bytes)
    }

    /// The six bytes of a specific address; none for the wildcard.
    pub fn octets(&self) -> (r: Option<[u8; 6]>)
        ensures
            r == match *self {
                Mac::Specific(a) => Some(a),
                Mac::Any => None,
            },
    {
        match self {
            Mac::Specific(a) => Some(*a),
            Mac::Any => None,
        }
    }

    /// Whether this is the wildcard.
    pub fn is_any(&self) -> (r: bool)
        ensures
            r == (*self is Any),
    {
        match self {
            Mac::Specific(_) => false,
            Mac::Any => true,
        }
    }

    /// Whether `source` is exactly this address; the wildcard matches nothing here.
    pub fn matches_exact(&self, source: &[u8]) -> (r: bool)
        ensures
            r == match *self {
                Mac::Specific(a) => source@ == a@,
                Mac::Any => false,
            },
    {
        match self {
            Mac::Any => false,
            Mac::Specific(a) => {
                if source.len() != 6 {
                    return false;
                }
                let mut i: usize = 0;
                while i < 6
                    invariant
                        *self == Mac::Specific(*a),
                        source@.len() == 6,
                        i <= 6,
                        forall|k: int| 0 <= k < i ==> source@[k] == a@[k],
                    decreases 6 - i,
                {
                    if source[i] != a[i] {
                        assert(source@[i as int] != a@[i as int]);
                        return false;
                    }
                    i = i + 1;
                }
                assert(source@ =~= a@);
                true
            },
        }
    }

    /// The address as text: `*` for the wildcard, else `AC:63:BE:12:34:56` form.
    pub fn to_text(&self) -> (r: String)
        ensures
            r@ == mac_text(*self),
    {
        let mut out = String::new();
        match self {
            Mac::Any => {
                push_char(&mut out, '*');
            },
            Mac::Specific(a) => {
                let mut k: usize = 0;
                while k < 6
                    invariant
                        k <= 6,
                        out@ == octets_text(a@.take(k as int)),
                    decreases 6 - k,
                {
                    if k > 0 {
                        push_char(&mut out, ':');
                    }
                    push_char(&mut out, upper_hex_digit(a[k] / 16));
                    push_char(&mut out, upper_hex_digit(a[k] % 16));
                    assert(a@.take(k as int + 1).drop_last() =~= a@.take(k as int));
                    proof {
                        if k == 0 {
                            assert(out@ =~= octets_text(a@.take(1)));
                        } else {
                            assert(out@ =~= octets_text(a@.take(k as int + 1)));
                        }
                    }
                    k = k + 1;
                }
                assert(a@.take(6) =~= a@);
            },
        }
        out
    }
}

/// Whether the first three bytes of `source` are `prefix`.
pub fn matches_prefix(source: &[u8], prefix: &[u8; 3]) -> (r: bool)
    ensures
        r == has_prefix(source@, prefix@),
{
    if source.len() < 3 {
        return false;
    }
    let mut i: usize = 0;
    while i < 3
        invariant
            source@.len() >= 3,
            prefix@.len() == 3,
            i <= 3,
            forall|k: int| 0 <= k < i ==> source@[k] == prefix@[k],
        decreases 3 - i,
    {
        if source[i] != prefix[i] {
            return false;
        }
        i = i + 1;
    }
    assert(source@.subrange(0, 3) =~= prefix@);
    true
}

} // verus!
