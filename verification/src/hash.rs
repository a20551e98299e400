use vstd::prelude::*;

verus! {

/// FNV-1a offset basis.
pub const FNV_OFFSET: u64 = 0xcbf29ce484222325;

/// FNV-1a prime.
pub const FNV_PRIME: u64 = 0x100000001b3;

/// One FNV-1a step: xor the byte in, then multiply (wrapping) by the prime.
pub open spec fn fnv_step(hash: u64, byte: u8) -> u64 {
    (hash ^ (byte as u64)).wrapping_mul(FNV_PRIME)
}

/// FNV-1a over a whole byte sequence.
pub open spec fn fnv1a(bytes: Seq<u8>) -> u64
    decreases bytes.len(),
{
    if bytes.len() == 0 {
        FNV_OFFSET
    } else {
        fnv_step(fnv1a(bytes.drop_last()), bytes.last())
    }
}

/// Lower-case hexadecimal digit for a nibble.
pub open spec fn hex_digit(nibble: u64) -> char {
    if nibble < 10 {
        ((nibble + 48) as u8) as char
    } else {
        ((nibble + 87) as u8) as char
    }
}

/// The sixteen lower-case hexadecimal digits of `value`, most significant first.
pub open spec fn hex16(value: u64) -> Seq<char> {
    Seq::new(16, |i: int| hex_digit((value >> ((60 - 4 * i) as u64)) & 15))
}


/// Renders a nibble as its lower-case hexadecimal digit.
fn hex_char(nibble: u64) -> (c: char)
    requires
        nibble < 16,
    ensures
        c == hex_digit(nibble),
{
    if nibble < 10 {
        ((nibble + 48) as u8) as char
    } else {
        ((nibble + 87) as u8) as char
    }
}

/// Stable 64-bit FNV-1a digest of `bytes`, rendered as sixteen lower-case hex digits.
pub fn deterministic_hash(bytes: &[u8]) -> (digest: String)
    ensures
        digest@ == hex16(fnv1a(bytes@)),
{
    let mut hash: u64 = FNV_OFFSET;
    let mut i: usize = 0;
    while i < bytes.len()
        invariant
            i <= bytes@.len(),
            hash == fnv1a(bytes@.take(i as int)),
        decreases bytes@.len() - i,
    {
        assert(bytes@.take(i as int + 1).drop_last() =~= bytes@.take(i as int));
        hash = hash ^ (bytes[i] as u64);
        hash = hash.wrapping_mul(FNV_PRIME);
        i = i + 1;
    }
    assert(bytes@.take(bytes@.len() as int) =~= bytes@);
    let mut digest = String::new();
    let mut k: u64 = 0;
    while k < 16
        invariant
            k <= 16,
            digest@ == hex16(hash).take(k as int),
        decreases 16 - k,
    {
        let shift: u64 = 60 - 4 * k;
        let nibble: u64 = (hash >> shift) & 15;
        assert(nibble < 16) by (bit_vector)
            requires nibble == (hash >> shift) & 15;
        let c = hex_char(nibble);
        crate::text::push_char(&mut digest, c);
        assert(hex16(hash).take(k as int + 1) =~= hex16(hash).take(k as int).push(c));
        k = k + 1;
    }
    assert(hex16(hash).take(16) =~= hex16(hash));
    digest
}

} // verus!
