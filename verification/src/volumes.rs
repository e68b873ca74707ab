//! Decoding of volume-lister output: the lister's text arrives either as
//! UTF-16 little-endian (with or without a byte-order mark) or as plain
//! bytes, and the heuristic here decides which before decoding.

use vstd::prelude::*;
use crate::journal::{le16, read_le16};
use crate::strutil;

verus! {

/// Whether the bytes begin with the UTF-16LE byte-order mark.
pub open spec fn has_bom(b: Seq<u8>) -> bool {
    b.len() >= 2 && b[0] == 0xFF && b[1] == 0xFE
}

/// The bytes behind the byte-order mark, if one leads.
pub open spec fn bom_body(b: Seq<u8>) -> Seq<u8> {
    if has_bom(b) {
        b.skip(2)
    } else {
        b
    }
}

/// The little-endian sampling heuristic: every second byte of the first
/// 64 code units is zero, as ASCII-heavy UTF-16LE text has it.
pub open spec fn looks_utf16(body: Seq<u8>) -> bool {
    forall|j: int| 0 <= j < body.len() && j < 128 && j % 2 == 1 ==> body[j] == 0
}

/// The code units of an even-length byte body, little-endian.
pub open spec fn body_units(body: Seq<u8>) -> Seq<u16> {
    Seq::new((body.len() / 2) as nat, |i: int| le16(body, 2 * i))
}

/// What the UTF-16 decoder yields: empty input decodes to the empty
/// string; otherwise the body behind any byte-order mark must have even
/// length and pass the sampling heuristic (a mark alone is also
/// decisive), and decodes lossily as little-endian code units.
pub open spec fn utf16_decode_spec(b: Seq<u8>) -> Option<Seq<char>> {
    if b.len() == 0 {
        Some(Seq::empty())
    } else {
        let body = bom_body(b);
        if body.len() % 2 != 0 {
            None
        } else if !(has_bom(b) || looks_utf16(body)) {
            None
        } else {
            Some(strutil::utf16_lossy_of(body_units(body)))
        }
    }
}

/// Decodes bytes as UTF-16 little-endian when they look like it.
pub fn decode_utf16le_if_applicable(bytes: &Vec<u8>) -> (r: Option<String>)
    ensures
        match r {
            Some(s) => utf16_decode_spec(bytes@) == Some(s@),
            None => utf16_decode_spec(bytes@) is None,
        },
{
    if bytes.len() == 0 {
        let empty = String::new();
        proof {
            assert(empty@ =~= Seq::<char>::empty());
        }
        return Some(empty);
    }
    let bom = bytes.len() >= 2 && bytes[0] == 0xFF && bytes[1] == 0xFE;
    let start: usize = if bom {
        2
    } else {
        0
    };
    let body_len = bytes.len() - start;
    proof {
        assert(bom_body(bytes@) =~= bytes@.skip(start as int));
    }
    if body_len % 2 != 0 {
        return None;
    }
    let mut looks = bom;
    if !bom {
        let mut ok = true;
        let mut k: usize = 0;
        while k < 64 && 2 * k + 1 < body_len
            invariant_except_break
                ok,
            invariant
                start == 0,
                body_len == bytes@.len(),
                k <= 64,
                forall|j: int| 0 <= j < 2 * k && j % 2 == 1 ==> bytes@[j] == 0,
            ensures
                ok ==> forall|j: int| 0 <= j < 2 * k && j % 2 == 1 ==> bytes@[j] == 0,
                ok ==> k == 64 || 2 * k + 1 >= body_len,
                !ok ==> exists|j: int|
                    0 <= j < body_len && j < 128 && j % 2 == 1 && bytes@[j] != 0,
            decreases 64 - k,
        {
            if bytes[2 * k + 1] != 0 {
                proof {
                    let j = 2 * (k as int) + 1;
                    assert(0 <= j < body_len && j < 128 && j % 2 == 1 && bytes@[j] != 0);
                }
                ok = false;
                break;
            }
            k = k + 1;
            proof {
                assert forall|j: int| 0 <= j < 2 * k && j % 2 == 1 implies bytes@[j] == 0 by {
                    if j == 2 * k - 1 {
                    } else {
                        assert(j < 2 * (k - 1));
                    }
                }
            }
        }
        proof {
            if ok {
                assert forall|j: int|
                    0 <= j < bom_body(bytes@).len() && j < 128 && j % 2 == 1 implies bom_body(
                    bytes@,
                )[j] == 0 by {
                    assert(bom_body(bytes@)[j] == bytes@[j]);
                    assert(j < 2 * k || 2 * k + 1 >= body_len);
                    if !(j < 2 * k) {
                        assert(j >= 2 * k && j < body_len && j % 2 == 1);
                        assert(j >= 2 * k + 1);
                        assert(false);
                    }
                }
            }
        }
        looks = ok;
    }
    if !looks {
        proof {
            if !has_bom(bytes@) && looks_utf16(bom_body(bytes@)) {
                assert(false);
            }
        }
        return None;
    }
    let count = body_len / 2;
    proof {
        assert(start + 2 * count <= bytes@.len());
    }
    let mut units: Vec<u16> = Vec::new();
    let mut i: usize = 0;
    while i < count
        invariant
            start + 2 * count <= usize::MAX,
            start + 2 * count <= bytes@.len(),
            count == bom_body(bytes@).len() / 2,
            bom_body(bytes@) == bytes@.skip(start as int),
            i <= count,
            units@ =~= body_units(bom_body(bytes@)).take(i as int),
        decreases count - i,
    {
        let u = read_le16(bytes.as_slice(), start + 2 * i);
        proof {
            assert(le16(bytes@, start + 2 * i as int) == le16(bom_body(bytes@), 2 * i as int)) by {
                assert(bom_body(bytes@)[2 * i as int] == bytes@[start + 2 * i as int]);
                assert(bom_body(bytes@)[2 * i as int + 1] == bytes@[start + 2 * i as int + 1]);
            }
        }
        units.push(u);
        i = i + 1;
        proof {
            assert(units@ =~= body_units(bom_body(bytes@)).take(i as int));
        }
    }
    proof {
        assert(units@ =~= body_units(bom_body(bytes@)));
    }
    Some(strutil::utf16_lossy(&units))
}

/// Decodes the lister's output: as UTF-16 when it looks like it, else as
/// lossy UTF-8.
pub fn decode_powershell_text(bytes: &Vec<u8>) -> (r: String)
    ensures
        r@ == (match utf16_decode_spec(bytes@) {
            Some(s) => s,
            None => strutil::utf8_lossy_of(bytes@),
        }),
{
    match decode_utf16le_if_applicable(bytes) {
        Some(s) => s,
        None => strutil::utf8_lossy(bytes),
    }
}

} // verus!
