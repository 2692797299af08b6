//! Byte helpers shared by the codec and the key exchange.
use vstd::prelude::*;

verus! {

/// The big-endian encoding of a 32-bit value.
pub open spec fn be32(n: u32) -> Seq<u8> {
    seq![
        (n / 0x100_0000) as u8,
        ((n / 0x1_0000) % 0x100) as u8,
        ((n / 0x100) % 0x100) as u8,
        (n % 0x100) as u8,
    ]
}

/// The value of four big-endian bytes.
pub open spec fn be32_value(b: Seq<u8>) -> int
    recommends
        b.len() == 4,
{
    b[0] * 0x100_0000 + b[1] * 0x1_0000 + b[2] * 0x100 + b[3]
}

/// The big-endian encoding of a 16-bit value.
pub open spec fn be16(n: u16) -> Seq<u8> {
    seq![(n / 0x100) as u8, (n % 0x100) as u8]
}

/// Decoding the encoding of a 32-bit value gives the value back.
pub proof fn lemma_be32_value(n: u32)
    ensures
        be32(n).len() == 4,
        be32_value(be32(n)) == n as int,
{
    let b = be32(n);
    assert(b[0] as int == n as int / 0x100_0000);
    assert(b[1] as int == (n as int / 0x1_0000) % 0x100);
    assert(b[2] as int == (n as int / 0x100) % 0x100);
    assert(b[3] as int == n as int % 0x100);
    assert(be32_value(b) == n as int) by (nonlinear_arith)
        requires
            b[0] as int == n as int / 0x100_0000,
            b[1] as int == (n as int / 0x1_0000) % 0x100,
            b[2] as int == (n as int / 0x100) % 0x100,
            b[3] as int == n as int % 0x100,
            0 <= n <= u32::MAX,
    {
    }
}

/// Compile a 32-bit value into its four big-endian bytes.
pub fn compile_u32(nu32: u32) -> (r: Vec<u8>)
    ensures
        r@ == be32(nu32),
        be32_value(r@) == nu32 as int,
{
    proof {
        lemma_be32_value(nu32);
    }
    let v = vec![
        (nu32 / 0x100_0000) as u8,
        ((nu32 / 0x1_0000) % 0x100) as u8,
        ((nu32 / 0x100) % 0x100) as u8,
        (nu32 % 0x100) as u8,
    ];
    assert(v@ =~= be32(nu32));
    v
}

/// Compile a 16-bit value into its two big-endian bytes.
pub fn compile_u16(nu16: u16) -> (r: Vec<u8>)
    ensures
        r@ == be16(nu16),
        r@[0] * 0x100 + r@[1] == nu16 as int,
{
    let v = vec![(nu16 / 0x100) as u8, (nu16 % 0x100) as u8];
    assert(v@ =~= be16(nu16));
    v
}

/// Read four big-endian bytes starting at `at`.
pub fn read_u32(bytes: &Vec<u8>, at: usize) -> (r: u32)
    requires
        at + 4 <= bytes@.len(),
    ensures
        r as int == be32_value(bytes@.subrange(at as int, at + 4)),
{
    let len = bytes.len();
    assert(at + 3 < len);
    let b0 = bytes[at] as u32;
    let b1 = bytes[at + 1] as u32;
    let b2 = bytes[at + 2] as u32;
    let b3 = bytes[at + 3] as u32;
    b0 * 0x100_0000 + b1 * 0x1_0000 + b2 * 0x100 + b3
}

/// Fill a buffer with bytes from the operating system's secure random source.
///
/// Relies on `rand::rngs::OsRng::fill_bytes`, which overwrites the buffer in
/// place and keeps its length.
#[verifier::external_body]
fn fill_random(buf: &mut Vec<u8>)
    ensures
        final(buf)@.len() == old(buf)@.len(),
{
    rand::RngCore::fill_bytes(&mut rand::rngs::OsRng, buf.as_mut_slice())
}

/// A number drawn uniformly from `0..bound`.
///
/// Relies on `rand::Rng::gen_range` over `thread_rng()`, which returns a value
/// of the half-open range and panics only on an empty one.
#[verifier::external_body]
pub(crate) fn random_below(bound: u64) -> (r: u64)
    requires
        bound > 0,
    ensures
        r < bound,
{
    rand::Rng::gen_range(&mut rand::thread_rng(), 0..bound)
}

/// A cryptographically secure random nonce of `size` bytes.
pub fn gen_nonce(size: usize) -> (r: Vec<u8>)
    ensures
        r@.len() == size,
{
    let mut buf: Vec<u8> = Vec::new();
    let mut i: usize = 0;
    while i < size
        invariant
            i <= size,
            buf@.len() == i,
        decreases size - i,
    {
        buf.push(0);
        i += 1;
    }
    fill_random(&mut buf);
    buf
}

/// A random delay in `0..bound` milliseconds, or none where `bound` is zero.
pub fn jitter(bound: u64) -> (r: u64)
    ensures
        bound == 0 ==> r == 0,
        bound > 0 ==> r < bound,
{
    if bound == 0 {
        0
    } else {
        random_below(bound)
    }
}

/// The byte-wise exclusive or of two byte strings, as long as the shorter one.
pub fn xor(lhs: Vec<u8>, rhs: Vec<u8>) -> (r: Vec<u8>)
    ensures
        r@.len() == if lhs@.len() <= rhs@.len() { lhs@.len() } else { rhs@.len() },
        forall|i: int| 0 <= i < r@.len() ==> #[trigger] r@[i] == lhs@[i] ^ rhs@[i],
{
    let n = if lhs.len() <= rhs.len() { lhs.len() } else { rhs.len() };
    let mut r: Vec<u8> = Vec::new();
    let mut i: usize = 0;
    while i < n
        invariant
            i <= n,
            n <= lhs@.len(),
            n <= rhs@.len(),
            r@.len() == i,
            forall|j: int| 0 <= j < i ==> #[trigger] r@[j] == lhs@[j] ^ rhs@[j],
        decreases n - i,
    {
        r.push(lhs[i] ^ rhs[i]);
        i += 1;
    }
    r
}

/// Byte-wise equality of two byte strings.
pub(crate) fn same_bytes(a: &Vec<u8>, b: &Vec<u8>) -> (r: bool)
    ensures
        r == (a@ == b@),
{
    if a.len() != b.len() {
        return false;
    }
    let mut i: usize = 0;
    while i < a.len()
        invariant
            0 <= i <= a@.len(),
            a@.len() == b@.len(),
            forall|j: int| 0 <= j < i ==> a@[j] == b@[j],
        decreases a@.len() - i,
    {
        if a[i] != b[i] {
            return false;
        }
        i += 1;
    }
    assert(a@ =~= b@);
    true
}

/// Combining two contributions by exclusive or does not depend on their order.
pub proof fn lemma_xor_commutes(a: Seq<u8>, b: Seq<u8>, i: int)
    requires
        0 <= i < a.len(),
        i < b.len(),
    ensures
        a[i] ^ b[i] == b[i] ^ a[i],
{
    let x = a[i];
    let y = b[i];
    assert(x ^ y == y ^ x) by (bit_vector);
}

} // verus!
