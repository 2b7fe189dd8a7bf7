use vstd::prelude::*;

verus! {

broadcast use vstd::std_specs::vec::group_vec_axioms, vstd::seq::group_seq_axioms;

/// Bytes that pass through percent-encoding unchanged: ASCII letters,
/// digits, and `- . _ ~`.
pub open spec fn is_unreserved(b: u8) -> bool {
    (0x41 <= b <= 0x5a) || (0x61 <= b <= 0x7a) || (0x30 <= b <= 0x39) || b == 0x2d || b == 0x2e
        || b == 0x5f || b == 0x7e
}

/// Upper-case hexadecimal digit for a value below 16.
pub open spec fn hex_digit(n: u8) -> u8 {
    if n < 10 {
        (0x30 + n) as u8
    } else {
        (0x41 + n - 10) as u8
    }
}

/// The percent-encoding of one byte.
pub open spec fn pe_byte(b: u8) -> Seq<u8> {
    if is_unreserved(b) {
        seq![b]
    } else {
        seq![0x25u8, hex_digit(b / 16), hex_digit(b % 16)]
    }
}

/// The percent-encoding of a byte sequence, byte by byte in order.
pub open spec fn pe(bs: Seq<u8>) -> Seq<u8>
    decreases bs.len(),
{
    if bs.len() == 0 {
        Seq::empty()
    } else {
        pe_byte(bs[0]) + pe(bs.subrange(1, bs.len() as int))
    }
}

/// Appending one more byte to a percent-encoded sequence.
proof fn lemma_pe_snoc(bs: Seq<u8>, b: u8)
    ensures
        pe(bs.push(b)) == pe(bs) + pe_byte(b),
    decreases bs.len(),
{
    let s = bs.push(b);
    if bs.len() == 0 {
        assert(s[0] == b);
        assert(s.subrange(1, s.len() as int) =~= Seq::<u8>::empty());
        assert(pe(Seq::<u8>::empty()) == Seq::<u8>::empty());
        assert(pe(bs) + pe_byte(b) =~= pe_byte(b));
        assert(pe(s) =~= pe_byte(b) + Seq::<u8>::empty());
        assert(pe_byte(b) + Seq::<u8>::empty() =~= pe_byte(b));
    } else {
        assert(s[0] == bs[0]);
        assert(s.subrange(1, s.len() as int) =~= bs.subrange(1, bs.len() as int).push(b));
        lemma_pe_snoc(bs.subrange(1, bs.len() as int), b);
        assert(pe(s) =~= pe(bs) + pe_byte(b));
    }
}

/// Upper-case hexadecimal digit of a value below 16.
pub(crate) fn hex_digit_exec(n: u8) -> (r: u8)
    requires
        n < 16,
    ensures
        r == hex_digit(n),
{
    if n < 10 {
        0x30 + n
    } else {
        0x41 + n - 10
    }
}

/// Percent-encode a byte sequence for use in a URL query component:
/// unreserved bytes pass through, every other byte becomes `%` followed
/// by its two upper-case hexadecimal digits.
pub fn percent_encode(src: &[u8]) -> (r: Vec<u8>)
    ensures
        r@ == pe(src@),
{
    let mut r: Vec<u8> = Vec::new();
    let mut i: usize = 0;
    while i < src.len()
        invariant
            i <= src.len(),
            r@ == pe(src@.take(i as int)),
        decreases src.len() - i,
    {
        let b = src[i];
        if (0x41 <= b && b <= 0x5a) || (0x61 <= b && b <= 0x7a) || (0x30 <= b && b <= 0x39) || b
            == 0x2d || b == 0x2e || b == 0x5f || b == 0x7e {
            r.push(b);
        } else {
            r.push(0x25);
            r.push(hex_digit_exec(b / 16));
            r.push(hex_digit_exec(b % 16));
        }
        proof {
            lemma_pe_snoc(src@.take(i as int), b);
            assert(src@.take(i + 1 as int) =~= src@.take(i as int).push(b));
            assert(r@ =~= pe(src@.take(i as int)) + pe_byte(b));
        }
        i = i + 1;
    }
    proof {
        assert(src@.take(src@.len() as int) =~= src@);
    }
    r
}

} // verus!
