//! Fixed-width lowercase hexadecimal rendering of 64-bit digests.

use vstd::prelude::*;

verus! {

/// The sixteen lowercase hexadecimal digit characters, in value order.
pub open spec fn hex_digits() -> Seq<char> {
    seq!['0', '1', '2', '3', '4', '5', '6', '7', '8', '9', 'a', 'b', 'c', 'd', 'e', 'f']
}

/// The nibble of `h` that the fixed-width rendering puts at position `i`:
/// position 0 holds the most significant four bits.
pub open spec fn nibble_at(h: u64, i: int) -> u64 {
    (h >> (((15 - i) * 4) as u64)) & 0xf
}

/// The fixed-width (sixteen character) lowercase hexadecimal rendering of `h`.
pub open spec fn hex_of(h: u64) -> Seq<char> {
    Seq::new(16, |i: int| hex_digits()[nibble_at(h, i) as int])
}

/// The one-character string for one nibble value.
fn hex_digit_str(n: u64) -> (d: &'static str)
    requires
        n < 16,
    ensures
        d@.len() == 1,
        d@[0] == hex_digits()[n as int],
{
    if n == 0 {
        proof { reveal_strlit("0"); }
        "0"
    } else if n == 1 {
        proof { reveal_strlit("1"); }
        "1"
    } else if n == 2 {
        proof { reveal_strlit("2"); }
        "2"
    } else if n == 3 {
        proof { reveal_strlit("3"); }
        "3"
    } else if n == 4 {
        proof { reveal_strlit("4"); }
        "4"
    } else if n == 5 {
        proof { reveal_strlit("5"); }
        "5"
    } else if n == 6 {
        proof { reveal_strlit("6"); }
        "6"
    } else if n == 7 {
        proof { reveal_strlit("7"); }
        "7"
    } else if n == 8 {
        proof { reveal_strlit("8"); }
        "8"
    } else if n == 9 {
        proof { reveal_strlit("9"); }
        "9"
    } else if n == 10 {
        proof { reveal_strlit("a"); }
        "a"
    } else if n == 11 {
        proof { reveal_strlit("b"); }
        "b"
    } else if n == 12 {
        proof { reveal_strlit("c"); }
        "c"
    } else if n == 13 {
        proof { reveal_strlit("d"); }
        "d"
    } else if n == 14 {
        proof { reveal_strlit("e"); }
        "e"
    } else {
        proof { reveal_strlit("f"); }
        "f"
    }
}

/// Renders `h` as its fixed-width sixteen-character lowercase hex string,
/// most significant nibble first.
pub fn digest_hex(h: u64) -> (s: String)
    ensures
        s@ == hex_of(h),
{
    let mut s = String::new();
    let mut i: usize = 0;
    while i < 16
        invariant
            i <= 16,
            s@ =~= hex_of(h).take(i as int),
        decreases 16 - i,
    {
        let shift: u64 = ((15 - i) * 4) as u64;
        let n: u64 = (h >> shift) & 0xf;
        assert((h >> shift) & 0xf < 16) by (bit_vector);
        assert(n == nibble_at(h, i as int));
        let d = hex_digit_str(n);
        s.append(d);
        assert(s@ =~= hex_of(h).take(i as int + 1));
        i = i + 1;
    }
    assert(s@ =~= hex_of(h));
    s
}

} // verus!
