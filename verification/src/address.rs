use vstd::prelude::*;
use vstd::slice::slice_subrange;
use vstd::string::*;
use crate::text::chars_of;
use crate::text::find;
use crate::text::find_char;

verus! {

/// Whether every character of `s` is a decimal digit.
pub open spec fn is_digits(s: Seq<char>) -> bool {
    forall|i: int| 0 <= i < s.len() ==> '0' <= #[trigger] s[i] <= '9'
}

/// The number that a string of decimal digits denotes.
pub open spec fn numeral(digits: Seq<char>) -> nat
    decreases digits.len(),
{
    if digits.len() == 0 {
        0
    } else {
        (10 * numeral(digits.drop_last()) + (digits.last() as u32 - 48)) as nat
    }
}

/// The byte that one part of a dotted address stands for: the number it denotes, where
/// it is a decimal numeral of at most 255, with or without a plus sign before it; zero
/// for anything else.
pub open spec fn octet(part: Seq<char>) -> u8 {
    let digits = if part.len() > 0 && part[0] == '+' {
        part.skip(1)
    } else {
        part
    };
    if digits.len() > 0 && is_digits(digits) && numeral(digits) <= 255 {
        numeral(digits) as u8
    } else {
        0
    }
}

/// The parts of `address` from offset `from` on, as the dots separate them.
pub open spec fn parts(address: Seq<char>, from: int) -> Seq<Seq<char>>
    decreases address.len() - from,
{
    if from < 0 || from > address.len() {
        Seq::empty()
    } else {
        let end = find(address, from, '.');
        let part = address.subrange(from, end);
        if from <= end < address.len() {
            seq![part] + parts(address, end + 1)
        } else {
            seq![part]
        }
    }
}

/// The four bytes of a dotted address, or `None` if it does not have exactly four parts.
pub open spec fn dotted_quad(address: Seq<char>) -> Option<Seq<u8>> {
    let parts = parts(address, 0);
    if parts.len() == 4 {
        Some(Seq::new(4, |i: int| octet(parts[i])))
    } else {
        None
    }
}

/// The number whose little-endian bytes are the four given ones.
pub open spec fn little_endian(octets: Seq<u8>) -> nat {
    (octets[0] + 256 * octets[1] + 65536 * octets[2] + 16777216 * octets[3]) as nat
}

/// The value of a numeral never falls below that of its beginning.
proof fn lemma_numeral_grows(digits: Seq<char>, k: int)
    requires
        is_digits(digits),
        0 <= k <= digits.len(),
    ensures
        numeral(digits.take(k)) <= numeral(digits),
    decreases digits.len() - k,
{
    if k == digits.len() {
        assert(digits.take(k) =~= digits);
    } else {
        lemma_numeral_grows(digits, k + 1);
        assert(digits.take(k + 1).drop_last() =~= digits.take(k));
        assert(digits.take(k + 1).last() == digits[k]);
    }
}

/// Reads one part of a dotted address.
fn parse_octet(part: &[char]) -> (value: u8)
    ensures
        value == octet(part@),
{
    let n: usize = part.len();
    let skip: usize = if n > 0 && part[0] == '+' {
        1
    } else {
        0
    };
    let digits = slice_subrange(part, skip, n);
    assert(digits@ =~= if part@.len() > 0 && part@[0] == '+' {
        part@.skip(1)
    } else {
        part@
    });
    let m: usize = n - skip;
    if m == 0 {
        return 0;
    }
    let mut value: u32 = 0;
    let mut i: usize = 0;
    assert(digits@.take(0) =~= Seq::<char>::empty());
    while i < m
        invariant
            digits@ == (if part@.len() > 0 && part@[0] == '+' {
                part@.skip(1)
            } else {
                part@
            }),
            m == digits@.len(),
            i <= m,
            is_digits(digits@.take(i as int)),
            value == numeral(digits@.take(i as int)),
            value <= 255,
        decreases m - i,
    {
        let c: char = digits[i];
        if c < '0' || c > '9' {
            assert(!is_digits(digits@)) by {
                if is_digits(digits@) {
                    assert('0' <= digits@[i as int] <= '9');
                }
            }
            return 0;
        }
        let d: u32 = c as u32 - 48;
        proof {
            assert(digits@.take(i + 1).drop_last() =~= digits@.take(i as int));
            assert(digits@.take(i + 1).last() == c);
            assert(is_digits(digits@.take(i + 1))) by {
                assert forall|j: int| 0 <= j < i + 1 implies '0' <= #[trigger] digits@.take(i + 1)[j]
                    <= '9' by {
                    if j < i {
                        assert(digits@.take(i as int)[j] == digits@.take(i + 1)[j]);
                    }
                }
            }
        }
        value = 10 * value + d;
        i = i + 1;
        if value > 255 {
            proof {
                if is_digits(digits@) {
                    lemma_numeral_grows(digits@, i as int);
                }
            }
            return 0;
        }
    }
    assert(digits@.take(m as int) =~= digits@);
    value as u8
}

/// Reads a dotted IPv4 address such as `127.0.0.1`. A part that is no number up to 255
/// counts as zero; an address that does not have exactly four parts is refused.
pub fn parse_dotted_quad(address: &str) -> (octets: Option<[u8; 4]>)
    ensures
        match dotted_quad(address@) {
            Some(bytes) => octets matches Some(found) && found@ == bytes,
            None => octets is None,
        },
{
    let chars = chars_of(address);
    let n: usize = chars.len();
    let mut found: [u8; 4] = [0, 0, 0, 0];
    let mut count: usize = 0;
    let mut pos: usize = 0;
    let ghost mut done: Seq<Seq<char>> = Seq::empty();
    loop
        invariant
            n == chars@.len(),
            chars@ == address@,
            pos <= n,
            count <= 4,
            count == done.len(),
            parts(chars@, 0) == done + parts(chars@, pos as int),
            forall|k: int| 0 <= k < count ==> found@[k] == octet(#[trigger] done[k]),
        decreases n - pos,
    {
        if count == 4 {
            assert(parts(chars@, pos as int).len() >= 1);
            return None;
        }
        let end: usize = find_char(chars.as_slice(), pos, '.');
        let ghost part = chars@.subrange(pos as int, end as int);
        let ghost before = done;
        let value: u8 = parse_octet(slice_subrange(chars.as_slice(), pos, end));
        found[count] = value;
        count = count + 1;
        proof {
            done = before.push(part);
        }
        if end >= n {
            proof {
                assert(parts(chars@, 0) =~= done);
                if count == 4 {
                    assert(found@ =~= dotted_quad(address@)->0);
                }
            }
            return if count == 4 {
                Some(found)
            } else {
                None
            };
        }
        proof {
            assert(done + parts(chars@, end + 1) =~= before + (seq![part] + parts(
                chars@,
                end + 1,
            )));
        }
        pos = end + 1;
    }
}

/// The address that the four bytes stand for, as the number whose little-endian bytes
/// they are.
pub fn socket_address(octets: [u8; 4]) -> (address: u32)
    ensures
        address == little_endian(octets@),
{
    let a: u32 = octets[0] as u32;
    let b: u32 = octets[1] as u32;
    let c: u32 = octets[2] as u32;
    let d: u32 = octets[3] as u32;
    a + 256 * b + 65536 * c + 16777216 * d
}

} // verus!
