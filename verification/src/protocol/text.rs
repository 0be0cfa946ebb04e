//! Byte-level handling of the NUL-padded name fields of the wire format:
//! trimming padding and whitespace, ASCII upper-casing, and the one checked
//! conversion from raw bytes to an owned string.

use vstd::prelude::*;

verus! {

use vstd::string::StringSliceAdditionalSpecFns;
use vstd::utf8::{decode_utf8, valid_utf8};

/// An ASCII whitespace byte, the byte-level reading of the whitespace
/// trimming that name fields receive before use.
pub open spec fn is_space_byte(b: u8) -> bool {
    b == 0x20 || b == 0x09 || b == 0x0a || b == 0x0b || b == 0x0c || b == 0x0d
}

/// The sequence with all trailing NUL padding bytes removed.
pub open spec fn trim_nul(s: Seq<u8>) -> Seq<u8>
    decreases s.len(),
{
    if s.len() > 0 && s.last() == 0 {
        trim_nul(s.drop_last())
    } else {
        s
    }
}

/// The sequence with all trailing ASCII whitespace removed.
pub open spec fn trim_end_spaces(s: Seq<u8>) -> Seq<u8>
    decreases s.len(),
{
    if s.len() > 0 && is_space_byte(s.last()) {
        trim_end_spaces(s.drop_last())
    } else {
        s
    }
}

/// The sequence with all leading ASCII whitespace removed.
pub open spec fn trim_start_spaces(s: Seq<u8>) -> Seq<u8>
    decreases s.len(),
{
    if s.len() > 0 && is_space_byte(s.first()) {
        trim_start_spaces(s.drop_first())
    } else {
        s
    }
}

/// Trailing NUL padding removed, then whitespace removed from both ends.
pub open spec fn trim_name(s: Seq<u8>) -> Seq<u8> {
    trim_start_spaces(trim_end_spaces(trim_nul(s)))
}

/// The sequence with every ASCII lower-case letter replaced by its
/// upper-case counterpart.
pub open spec fn ascii_upper(s: Seq<u8>) -> Seq<u8> {
    s.map_values(|b: u8| if 0x61 <= b <= 0x7a { (b - 0x20) as u8 } else { b })
}

/// Remove trailing NUL padding bytes.
pub fn trim_trailing_nul(v: &[u8]) -> (r: Vec<u8>)
    ensures
        r@ == trim_nul(v@),
{
    let mut end: usize = v.len();
    proof {
        assert(v@.subrange(0, v@.len() as int) =~= v@);
    }
    while end > 0 && v[end - 1] == 0
        invariant
            end <= v@.len(),
            trim_nul(v@) == trim_nul(v@.subrange(0, end as int)),
        decreases end,
    {
        proof {
            assert(v@.subrange(0, end as int).drop_last() =~= v@.subrange(0, end - 1));
        }
        end -= 1;
    }
    let mut r: Vec<u8> = Vec::new();
    let mut i: usize = 0;
    while i < end
        invariant
            i <= end <= v@.len(),
            r@ =~= v@.subrange(0, i as int),
        decreases end - i,
    {
        r.push(v[i]);
        i += 1;
    }
    proof {
        let t = v@.subrange(0, end as int);
        assert(!(t.len() > 0 && t.last() == 0));
        assert(trim_nul(t) == t);
    }
    r
}

fn is_space(b: u8) -> (r: bool)
    ensures
        r == is_space_byte(b),
{
    b == 0x20 || b == 0x09 || b == 0x0a || b == 0x0b || b == 0x0c || b == 0x0d
}

/// Remove trailing NUL padding, then ASCII whitespace from both ends.
pub fn trim_name_bytes(v: &[u8]) -> (r: Vec<u8>)
    ensures
        r@ == trim_name(v@),
{
    let nul_trimmed = trim_trailing_nul(v);
    let mut end: usize = nul_trimmed.len();
    proof {
        assert(nul_trimmed@.subrange(0, nul_trimmed@.len() as int) =~= nul_trimmed@);
    }
    while end > 0 && is_space(nul_trimmed[end - 1])
        invariant
            end <= nul_trimmed@.len(),
            trim_end_spaces(nul_trimmed@) == trim_end_spaces(nul_trimmed@.subrange(0, end as int)),
        decreases end,
    {
        proof {
            assert(nul_trimmed@.subrange(0, end as int).drop_last() =~= nul_trimmed@.subrange(
                0,
                end - 1,
            ));
        }
        end -= 1;
    }
    proof {
        let t = nul_trimmed@.subrange(0, end as int);
        assert(!(t.len() > 0 && is_space_byte(t.last())));
        assert(trim_end_spaces(t) == t);
    }
    let mut start: usize = 0;
    while start < end && is_space(nul_trimmed[start])
        invariant
            start <= end <= nul_trimmed@.len(),
            trim_end_spaces(nul_trimmed@) == nul_trimmed@.subrange(0, end as int),
            trim_start_spaces(nul_trimmed@.subrange(0, end as int)) == trim_start_spaces(
                nul_trimmed@.subrange(start as int, end as int),
            ),
        decreases end - start,
    {
        proof {
            assert(nul_trimmed@.subrange(start as int, end as int).drop_first()
                =~= nul_trimmed@.subrange(start + 1, end as int));
        }
        start += 1;
    }
    proof {
        let t = nul_trimmed@.subrange(start as int, end as int);
        assert(!(t.len() > 0 && is_space_byte(t.first())));
        assert(trim_start_spaces(t) == t);
    }
    let mut r: Vec<u8> = Vec::new();
    let mut i: usize = start;
    while i < end
        invariant
            start <= i <= end <= nul_trimmed@.len(),
            r@ =~= nul_trimmed@.subrange(start as int, i as int),
        decreases end - i,
    {
        r.push(nul_trimmed[i]);
        i += 1;
    }
    r
}

/// Replace every ASCII lower-case letter by its upper-case counterpart.
pub fn to_ascii_upper(v: &[u8]) -> (r: Vec<u8>)
    ensures
        r@ == ascii_upper(v@),
{
    let mut r: Vec<u8> = Vec::new();
    let mut i: usize = 0;
    while i < v.len()
        invariant
            i <= v@.len(),
            r@ =~= ascii_upper(v@.subrange(0, i as int)),
        decreases v@.len() - i,
    {
        let b = v[i];
        if 0x61 <= b && b <= 0x7a {
            r.push(b - 0x20);
        } else {
            r.push(b);
        }
        proof {
            assert(ascii_upper(v@.subrange(0, i + 1)).drop_last() =~= ascii_upper(
                v@.subrange(0, i as int),
            ));
            assert(r@ =~= ascii_upper(v@.subrange(0, i + 1)));
        }
        i += 1;
    }
    proof {
        assert(v@.subrange(0, v@.len() as int) =~= v@);
    }
    r
}

/// Compare two byte strings.
pub fn bytes_eq(a: &[u8], b: &[u8]) -> (r: bool)
    ensures
        r == (a@ == b@),
{
    if a.len() != b.len() {
        return false;
    }
    let mut i: usize = 0;
    while i < a.len()
        invariant
            a@.len() == b@.len(),
            i <= a@.len(),
            forall|j: int| 0 <= j < i ==> a@[j] == b@[j],
        decreases a@.len() - i,
    {
        if a[i] != b[i] {
            return false;
        }
        i += 1;
    }
    proof {
        assert(a@ =~= b@);
    }
    true
}

/// Compare two string slices by their bytes; equal bytes mean equal
/// strings because UTF-8 decoding undoes encoding.
pub fn str_eq(a: &str, b: &str) -> (r: bool)
    ensures
        r == (a@ == b@),
{
    let r = bytes_eq(a.as_bytes(), b.as_bytes());
    proof {
        if a.spec_bytes() == b.spec_bytes() {
            vstd::utf8::encode_utf8_decode_utf8(a@);
            vstd::utf8::encode_utf8_decode_utf8(b@);
        }
    }
    r
}

/// Relies on String::from_utf8: returns the decoded string exactly when the
/// bytes are valid UTF-8, stated over vstd's UTF-8 model.
#[verifier::external_body]
pub fn bytes_to_string(v: Vec<u8>) -> (r: Option<String>)
    ensures
        match r {
            Some(s) => valid_utf8(v@) && s@ == decode_utf8(v@),
            None => !valid_utf8(v@),
        },
{
    String::from_utf8(v).ok()
}

} // verus!
