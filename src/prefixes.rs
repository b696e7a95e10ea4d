use vstd::prelude::*;
use vstd::string::StrSliceExecFns;

use crate::error::Error;
use crate::mac::{hex_value, is_hex_char};

verus! {

/// Address-block prefixes registered to Amazon Technologies Inc.
pub const AMAZON_PREFIXES: [[u8; 3]; 22] = [
    [0x00, 0xFC, 0x8B],
    [0x0C, 0x47, 0xC9],
    [0x18, 0x74, 0x2E],
    [0x34, 0xD2, 0x70],
    [0x38, 0xF7, 0x3D],
    [0x40, 0xB4, 0xCD],
    [0x44, 0x65, 0x0D],
    [0x50, 0xF5, 0xDA],
    [0x68, 0x37, 0xE9],
    [0x68, 0x54, 0xFD],
    [0x6C, 0x56, 0x97],
    [0x74, 0x75, 0x48],
    [0x74, 0xC2, 0x46],
    [0x78, 0xE1, 0x03],
    [0x84, 0xD6, 0xD0],
    [0x88, 0x71, 0xE5],
    [0xA0, 0x02, 0xDC],
    [0xAC, 0x63, 0xBE],
    [0xF0, 0x27, 0x2D],
    [0xF0, 0xD2, 0xF1],
    [0xFC, 0x65, 0xDE],
    [0xFC, 0xA1, 0x83],
];

/// The built-in prefix table, as a vector.
pub fn amazon_prefixes() -> (r: Vec<[u8; 3]>)
    ensures
        r@ == AMAZON_PREFIXES@,
{
    let mut r: Vec<[u8; 3]> = Vec::new();
    let mut i: usize = 0;
    while i < 22
        invariant
            i <= 22,
            r@ == AMAZON_PREFIXES@.take(i as int),
        decreases 22 - i,
    {
        r.push(AMAZON_PREFIXES[i]);
        assert(AMAZON_PREFIXES@.take(i as int + 1) =~= AMAZON_PREFIXES@.take(i as int).push(
            AMAZON_PREFIXES@[i as int],
        ));
        i = i + 1;
    }
    assert(AMAZON_PREFIXES@.take(22) =~= AMAZON_PREFIXES@);
    r
}

/// One row of a manufacturer registry.
#[derive(Debug, Clone)]
pub struct RegistryRow {
    /// The kind of registry the block comes from.
    pub registry: String,
    /// The block's prefix as six hexadecimal digits.
    pub assignment: String,
    /// The organization the block is registered to.
    pub organization: String,
    /// The organization's postal address.
    pub address: String,
}

/// `needle` occurs in `hay` as a contiguous run.
pub open spec fn contains_run(hay: Seq<char>, needle: Seq<char>) -> bool {
    exists|i: int| 0 <= i <= hay.len() - needle.len() && #[trigger] hay.subrange(i, i + needle.len()) == needle
}

/// Six hexadecimal digits.
pub open spec fn is_assignment_text(s: Seq<char>) -> bool {
    s.len() == 6 && forall|i: int| 0 <= i < 6 ==> is_hex_char(#[trigger] s[i])
}

/// The three bytes that six hexadecimal digits spell.
pub open spec fn assignment_octets(s: Seq<char>) -> Seq<u8> {
    Seq::new(3, |k: int| (hex_value(s[2 * k]) * 16 + hex_value(s[2 * k + 1])) as u8)
}

/// The table built from rows: the prefix of each row whose organization holds `needle`, in order.
pub open spec fn prefix_table(rows: Seq<RegistryRow>, needle: Seq<char>) -> Seq<Seq<u8>>
    decreases rows.len(),
{
    if rows.len() == 0 {
        Seq::empty()
    } else {
        let rest = prefix_table(rows.drop_last(), needle);
        if contains_run(rows.last().organization@, needle) {
            rest.push(assignment_octets(rows.last().assignment@))
        } else {
            rest
        }
    }
}

/// Every row whose organization holds `needle` has a well-formed assignment.
pub open spec fn selected_rows_well_formed(rows: Seq<RegistryRow>, needle: Seq<char>) -> bool {
    forall|i: int|
        0 <= i < rows.len() && contains_run(#[trigger] rows[i].organization@, needle)
            ==> is_assignment_text(rows[i].assignment@)
}

fn chars_of(s: &str) -> (r: Vec<char>)
    ensures
        r@ == s@,
{
    let n = s.unicode_len();
    let mut r: Vec<char> = Vec::new();
    let mut i: usize = 0;
    while i < n
        invariant
            n == s@.len(),
            i <= n,
            r@ == s@.take(i as int),
        decreases n - i,
    {
        r.push(s.get_char(i));
        assert(s@.take(i as int + 1) =~= s@.take(i as int).push(s@[i as int]));
        i = i + 1;
    }
    assert(s@.take(n as int) =~= s@);
    r
}

/// Whether `needle` occurs in `hay`, matching case exactly.
pub fn contains_text(hay: &str, needle: &str) -> (r: bool)
    ensures
        r == contains_run(hay@, needle@),
{
    let h = chars_of(hay);
    let n = chars_of(needle);
    if n.len() > h.len() {
        return false;
    }
    let mut i: usize = 0;
    while i <= h.len() - n.len()
        invariant
            h@ == hay@,
            n@ == needle@,
            n@.len() <= h@.len(),
            i <= h@.len() - n@.len() + 1,
            forall|p: int| 0 <= p < i ==> #[trigger] h@.subrange(p, p + n@.len()) != n@,
        decreases h@.len() - n@.len() + 1 - i,
    {
        let mut j: usize = 0;
        let mut same = true;
        while j < n.len()
            invariant
                h@ == hay@,
                n@ == needle@,
                i + n@.len() <= h@.len(),
                h@.len() <= usize::MAX,
                j <= n@.len(),
                same == forall|k: int| 0 <= k < j ==> h@[i + k] == n@[k],
            decreases n@.len() - j,
        {
            if h[i + j] != n[j] {
                same = false;
            }
            j = j + 1;
        }
        if same {
            assert(h@.subrange(i as int, i + n@.len()) =~= n@);
            return true;
        }
        assert(h@.subrange(i as int, i + n@.len()) != n@) by {
            let k = choose|k: int| 0 <= k < n@.len() && h@[i + k] != n@[k];
            assert(h@.subrange(i as int, i + n@.len())[k] != n@[k]);
        }
        i = i + 1;
    }
    false
}

/// Reads six hexadecimal digits as a three-byte prefix.
pub fn parse_assignment(text: &str) -> (r: Result<[u8; 3], Error>)
    ensures
        match r {
            Ok(p) => is_assignment_text(text@) && p@ == assignment_octets(text@),
            Err(e) => !is_assignment_text(text@) && e == Error::Parse,
        },
{
    let d = chars_of(text);
    if d.len() != 6 {
        return Err(Error::Parse);
    }
    let mut j: usize = 0;
    while j < 6
        invariant
            d@ == text@,
            d@.len() == 6,
            j <= 6,
            forall|k: int| 0 <= k < j ==> is_hex_char(#[trigger] d@[k]),
        decreases 6 - j,
    {
        if !crate::mac::is_hex_digit(d[j]) {
            return Err(Error::Parse);
        }
        j = j + 1;
    }
    let mut out: [u8; 3] = [0u8; 3];
    let mut k: usize = 0;
    while k < 3
        invariant
            d@ == text@,
            is_assignment_text(text@),
            k <= 3,
            forall|m: int| 0 <= m < k ==> out@[m] == #[trigger] assignment_octets(text@)[m],
        decreases 3 - k,
    {
        let hi = crate::mac::hex_digit_value(d[2 * k]);
        let lo = crate::mac::hex_digit_value(d[2 * k + 1]);
        out[k] = hi * 16 + lo;
        k = k + 1;
    }
    assert(out@ =~= assignment_octets(text@));
    Ok(out)
}

/// Builds a prefix table from registry rows, taking each row whose organization holds
/// `needle`; fails if a taken row's assignment is not six hexadecimal digits.
pub fn build_prefix_table(rows: &Vec<RegistryRow>, needle: &str) -> (r: Result<
    Vec<[u8; 3]>,
    Error,
>)
    ensures
        match r {
            Ok(t) => selected_rows_well_formed(rows@, needle@) && t@.map_values(
                |p: [u8; 3]| p@,
            ) == prefix_table(rows@, needle@),
            Err(e) => !selected_rows_well_formed(rows@, needle@) && e == Error::Parse,
        },
{
    let mut t: Vec<[u8; 3]> = Vec::new();
    let mut i: usize = 0;
    while i < rows.len()
        invariant
            i <= rows@.len(),
            selected_rows_well_formed(rows@.take(i as int), needle@),
            t@.map_values(|p: [u8; 3]| p@) == prefix_table(rows@.take(i as int), needle@),
        decreases rows@.len() - i,
    {
        let row = &rows[i];
        assert(rows@.take(i as int + 1).drop_last() =~= rows@.take(i as int));
        if contains_text(row.organization.as_str(), needle) {
            match parse_assignment(row.assignment.as_str()) {
                Ok(p) => {
                    t.push(p);
                    assert(t@.map_values(|p: [u8; 3]| p@) =~= prefix_table(
                        rows@.take(i as int),
                        needle@,
                    ).push(p@));
                },
                Err(e) => {
                    assert(!selected_rows_well_formed(rows@, needle@)) by {
                        assert(contains_run(rows@[i as int].organization@, needle@));
                    }
                    return Err(e);
                },
            }
        }
        i = i + 1;
    }
    assert(rows@.take(rows@.len() as int) =~= rows@);
    Ok(t)
}

} // verus!
