//! Per-page tweaks and XTS-AES (IEEE 1619-2007) page transforms.

use crate::bytes::{
    le_nat, lemma_le_nat_bound, lemma_le_nat_concat, lemma_pow256_pos, pow256,
    le_bytes, lemma_le_bytes_len, lemma_le_nat_le_bytes, lemma_pow256_values, u32_to_le_bytes,
};
use crate::guid::{guid_swap_fields, uuid_to_bytes_le};
use crate::layout::PAGE_SIZE;
use aes::cipher::{BlockCipherDecrypt, BlockCipherEncrypt, KeyInit};
use aes::{Aes128Dec, Aes128Enc};
use vstd::prelude::*;

verus! {

/// The `b`-th 16-byte block of `s`.
pub open spec fn block_at(s: Seq<u8>, b: int) -> Seq<u8> {
    s.subrange(16 * b, 16 * b + 16)
}

/// The AES-128 encryption of one 16-byte block under a 16-byte key.
pub uninterp spec fn aes128_encrypt_block(key: Seq<u8>, block: Seq<u8>) -> Seq<u8>;

/// The AES-128 decryption of one 16-byte block under a 16-byte key.
pub uninterp spec fn aes128_decrypt_block(key: Seq<u8>, block: Seq<u8>) -> Seq<u8>;

/// Encrypts every 16-byte block of `data` in place with AES-128 under `key`, by
/// `aes::Aes128Enc::new` and `BlockCipherEncrypt::encrypt_blocks`.
///
/// Claimed: each block of the result is the AES-128 encryption of the block at the same
/// place, and decrypting it under the same key gives that block back (AES is a keyed
/// permutation whose decryption inverts its encryption).
#[verifier::external_body]
fn aes128_encrypt_blocks(key: &[u8; 16], data: &mut [u8])
    requires
        old(data)@.len() % 16 == 0,
    ensures
        final(data)@.len() == old(data)@.len(),
        forall|b: int|
            0 <= b < old(data)@.len() / 16 ==> #[trigger] block_at(final(data)@, b)
                == aes128_encrypt_block(key@, block_at(old(data)@, b)),
        forall|b: int|
            0 <= b < old(data)@.len() / 16 ==> aes128_decrypt_block(
                key@,
                #[trigger] block_at(final(data)@, b),
            ) == block_at(old(data)@, b),
{
    let cipher = Aes128Enc::new(key.into());
    let (blocks, _) = aes::Block::slice_as_chunks_mut(data);
    cipher.encrypt_blocks(blocks);
}

/// Decrypts every 16-byte block of `data` in place with AES-128 under `key`, by
/// `aes::Aes128Dec::new` and `BlockCipherDecrypt::decrypt_blocks`.
///
/// Claimed: each block of the result is the AES-128 decryption of the block at the same
/// place, and encrypting it under the same key gives that block back.
#[verifier::external_body]
fn aes128_decrypt_blocks(key: &[u8; 16], data: &mut [u8])
    requires
        old(data)@.len() % 16 == 0,
    ensures
        final(data)@.len() == old(data)@.len(),
        forall|b: int|
            0 <= b < old(data)@.len() / 16 ==> #[trigger] block_at(final(data)@, b)
                == aes128_decrypt_block(key@, block_at(old(data)@, b)),
        forall|b: int|
            0 <= b < old(data)@.len() / 16 ==> aes128_encrypt_block(
                key@,
                #[trigger] block_at(final(data)@, b),
            ) == block_at(old(data)@, b),
{
    let cipher = Aes128Dec::new(key.into());
    let (blocks, _) = aes::Block::slice_as_chunks_mut(data);
    cipher.decrypt_blocks(blocks);
}

/// The tweak input of the page with data unit `data_unit`: the data unit, the region id
/// (both little-endian) and the first 8 bytes of the VDUID in its little-endian field order.
pub open spec fn spec_tweak(data_unit: u32, region_id: Seq<u8>, vduid: Seq<u8>) -> Seq<u8> {
    le_bytes(data_unit as nat, 4) + region_id + vduid
}

/// Stores the fields common to every [`Tweak`] of an XVC region.
#[derive(Clone, Copy, Debug)]
pub struct TweakGenerator {
    region_id: [u8; 4],
    vduid: [u8; 8],
}

impl TweakGenerator {
    /// The 4 little-endian bytes of the region id.
    pub closed spec fn region_id_bytes(self) -> Seq<u8> {
        self.region_id@
    }

    /// The first 8 bytes of the VDUID in the little-endian field order.
    pub closed spec fn vduid_bytes(self) -> Seq<u8> {
        self.vduid@
    }

    /// The tweak for data unit `data_unit`.
    pub open spec fn spec_with_data_unit(self, data_unit: u32) -> Seq<u8> {
        spec_tweak(data_unit, self.region_id_bytes(), self.vduid_bytes())
    }

    /// Creates the generator of a region, from its id and the VDUID given by its
    /// RFC 4122 bytes.
    pub fn new(region_id: u32, vduid: [u8; 16]) -> (g: Self)
        ensures
            g.region_id_bytes() == le_bytes(region_id as nat, 4),
            g.vduid_bytes() == guid_swap_fields(vduid@).subrange(0, 8),
    {
        let le = uuid_to_bytes_le(vduid);
        let v = [le[0], le[1], le[2], le[3], le[4], le[5], le[6], le[7]];
        let g = Self { region_id: u32_to_le_bytes(region_id), vduid: v };
        assert(g.vduid@ =~= guid_swap_fields(vduid@).subrange(0, 8));
        g
    }

    /// The tweak for data unit `data_unit`: `data_unit` (little-endian), the region id and
    /// the VDUID prefix.
    pub fn with_data_unit(self, data_unit: u32) -> (t: Tweak)
        ensures
            t@ == self.spec_with_data_unit(data_unit),
            t@.len() == 16,
    {
        let mut buf = [0u8; 16];
        let du = u32_to_le_bytes(data_unit);
        let mut i: usize = 0;
        while i < 4
            invariant
                i <= 4,
                buf@.len() == 16,
                forall|k: int| 0 <= k < i ==> buf@[k] == du@[k],
            decreases 4 - i,
        {
            buf[i] = du[i];
            i = i + 1;
        }
        let mut i: usize = 0;
        while i < 4
            invariant
                i <= 4,
                buf@.len() == 16,
                forall|k: int| 0 <= k < 4 ==> buf@[k] == du@[k],
                forall|k: int| 0 <= k < i ==> buf@[4 + k] == self.region_id@[k],
            decreases 4 - i,
        {
            buf[4 + i] = self.region_id[i];
            i = i + 1;
        }
        let mut i: usize = 0;
        while i < 8
            invariant
                i <= 8,
                buf@.len() == 16,
                forall|k: int| 0 <= k < 4 ==> buf@[k] == du@[k],
                forall|k: int| 0 <= k < 4 ==> buf@[4 + k] == self.region_id@[k],
                forall|k: int| 0 <= k < i ==> buf@[8 + k] == self.vduid@[k],
            decreases 8 - i,
        {
            buf[8 + i] = self.vduid[i];
            i = i + 1;
        }
        let t = Tweak(buf);
        assert(t@ =~= self.spec_with_data_unit(data_unit));
        t
    }
}

/// Distinct data units give distinct tweaks: every page of a region is encrypted with a
/// tweak of its own.
pub proof fn lemma_tweak_injective(g: TweakGenerator, a: u32, b: u32)
    requires
        a != b,
    ensures
        g.spec_with_data_unit(a) != g.spec_with_data_unit(b),
{
    lemma_pow256_values();
    lemma_le_bytes_len(a as nat, 4);
    lemma_le_bytes_len(b as nat, 4);
    lemma_le_nat_le_bytes(a as nat, 4);
    lemma_le_nat_le_bytes(b as nat, 4);
    let ta = g.spec_with_data_unit(a);
    let tb = g.spec_with_data_unit(b);
    assert(ta.subrange(0, 4) =~= le_bytes(a as nat, 4));
    assert(tb.subrange(0, 4) =~= le_bytes(b as nat, 4));
}

/// The per-page tweak input, made by [`TweakGenerator::with_data_unit`].
#[derive(Clone, Copy, Debug)]
pub struct Tweak([u8; 16]);

impl View for Tweak {
    type V = Seq<u8>;

    closed spec fn view(&self) -> Seq<u8> {
        self.0@
    }
}

impl Tweak {
    /// The 16 bytes of the tweak.
    pub fn bytes(&self) -> (b: [u8; 16])
        ensures
            b@ == self@,
    {
        self.0
    }

    /// The tweak encrypted under the tweak key: the first XTS mask of the page.
    fn encrypt(self, tweak_key: &[u8; 16]) -> (t: [u8; 16])
        requires
            self@.len() == 16,
        ensures
            t@ == aes128_encrypt_block(tweak_key@, self@),
    {
        let mut block = self.0;
        aes128_encrypt_blocks(tweak_key, &mut block);
        assert(block_at(self.0@, 0) =~= self.0@);
        assert(block_at(block@, 0) =~= block@);
        block
    }
}

/// Multiplication by the primitive element `x` of GF(2^128), on the little-endian
/// 16-byte representation used by XTS (IEEE 1619-2007, 5.2).
pub open spec fn gf_double(t: Seq<u8>) -> Seq<u8> {
    Seq::new(
        16,
        |j: int|
            if j == 0 {
                (((t[0] % 128) * 2) as u8) ^ (if t[15] >= 128 {
                    0x87u8
                } else {
                    0u8
                })
            } else {
                ((t[j] % 128) * 2 + t[j - 1] / 128) as u8
            },
    )
}

/// The XTS mask of block `i` of a page whose first mask is `t0`.
pub open spec fn xts_mask(t0: Seq<u8>, i: nat) -> Seq<u8>
    decreases i,
{
    if i == 0 {
        t0
    } else {
        gf_double(xts_mask(t0, (i - 1) as nat))
    }
}

/// The mask of the first block is the encrypted tweak, and the mask of each next block is
/// the mask before it multiplied by `x` in GF(2^128).
pub proof fn lemma_xts_mask_step(t0: Seq<u8>, i: nat)
    ensures
        xts_mask(t0, 0) == t0,
        xts_mask(t0, i + 1) == gf_double(xts_mask(t0, i)),
{
}

/// Each block of a decrypted page is the AES decryption of the ciphertext block xored with
/// its mask, xored again with that mask; the mask of block `i + 1` is the mask of block `i`
/// multiplied by `x`, and the mask of block 0 is the encrypted tweak.
pub proof fn lemma_xts_decrypt_blocks(
    tweak_key: Seq<u8>,
    data_key: Seq<u8>,
    tweak: Seq<u8>,
    page: Seq<u8>,
    b: int,
    j: int,
)
    requires
        page.len() % 16 == 0,
        0 <= b < page.len() / 16,
        0 <= j < 16,
    ensures
        ({
            let t0 = aes128_encrypt_block(tweak_key, tweak);
            let m = xts_mask(t0, b as nat);
            let x = Seq::new(16, |k: int| page[16 * b + k] ^ m[k]);
            &&& xts_decrypt(tweak_key, data_key, tweak, page)[16 * b + j]
                == aes128_decrypt_block(data_key, x)[j] ^ m[j]
            &&& xts_mask(t0, (b + 1) as nat) == gf_double(m)
        }),
{
    let t0 = aes128_encrypt_block(tweak_key, tweak);
    let m = xts_mask(t0, b as nat);
    let masked = xor_masks(page, t0);
    let k = 16 * b + j;
    assert(k / 16 == b && k % 16 == j);
    assert(16 * b + 16 <= page.len()) by (nonlinear_arith)
        requires
            page.len() % 16 == 0,
            0 <= b < page.len() / 16,
    ;
    let c = block_at(page, b);
    let x = Seq::new(16, |k: int| c[k] ^ m[k]);
    assert(x =~= Seq::new(16, |k: int| page[16 * b + k] ^ m[k]));
    assert(block_at(masked, b) =~= x);
}

/// XORs every block `i` of `p` with the `i`-th mask derived from `t0`.
pub open spec fn xor_masks(p: Seq<u8>, t0: Seq<u8>) -> Seq<u8> {
    Seq::new(p.len(), |k: int| p[k] ^ xts_mask(t0, (k / 16) as nat)[k % 16])
}

/// Encrypts every block of `p` under `key`.
pub open spec fn encrypt_blocks(key: Seq<u8>, p: Seq<u8>) -> Seq<u8> {
    Seq::new(p.len(), |k: int| aes128_encrypt_block(key, block_at(p, k / 16))[k % 16])
}

/// Decrypts every block of `p` under `key`.
pub open spec fn decrypt_blocks(key: Seq<u8>, p: Seq<u8>) -> Seq<u8> {
    Seq::new(p.len(), |k: int| aes128_decrypt_block(key, block_at(p, k / 16))[k % 16])
}

/// XTS-AES decryption of a page: each block is `P = AES_dec(C xor T) xor T`, where the
/// mask `T` of block `i` is the encrypted tweak multiplied `i` times by `x`.
pub open spec fn xts_decrypt(
    tweak_key: Seq<u8>,
    data_key: Seq<u8>,
    tweak: Seq<u8>,
    page: Seq<u8>,
) -> Seq<u8> {
    let t0 = aes128_encrypt_block(tweak_key, tweak);
    xor_masks(decrypt_blocks(data_key, xor_masks(page, t0)), t0)
}

/// XTS-AES encryption of a page: each block is `C = AES_enc(P xor T) xor T`.
pub open spec fn xts_encrypt(
    tweak_key: Seq<u8>,
    data_key: Seq<u8>,
    tweak: Seq<u8>,
    page: Seq<u8>,
) -> Seq<u8> {
    let t0 = aes128_encrypt_block(tweak_key, tweak);
    xor_masks(encrypt_blocks(data_key, xor_masks(page, t0)), t0)
}

/// Multiplies a mask by `x` in GF(2^128).
fn gf_mul_x(t: [u8; 16]) -> (r: [u8; 16])
    ensures
        r@ == gf_double(t@),
{
    let mut r = [0u8; 16];
    let carry: u8 = if t[15] >= 128 {
        0x87
    } else {
        0
    };
    r[0] = ((t[0] % 128) * 2) ^ carry;
    let mut j: usize = 1;
    while j < 16
        invariant
            1 <= j <= 16,
            r@.len() == 16,
            r@[0] == gf_double(t@)[0],
            forall|k: int| 1 <= k < j ==> r@[k] == gf_double(t@)[k],
        decreases 16 - j,
    {
        r[j] = (t[j] % 128) * 2 + t[j - 1] / 128;
        j = j + 1;
    }
    assert(r@ =~= gf_double(t@));
    r
}

/// XORs block `i` of the page with the `i`-th mask derived from `t0`, for every block.
fn apply_masks(page: &mut [u8; PAGE_SIZE], t0: [u8; 16])
    ensures
        final(page)@ == xor_masks(old(page)@, t0@),
{
    let ghost before = page@;
    let mut t = t0;
    let mut b: usize = 0;
    while b < PAGE_SIZE / 16
        invariant
            b <= PAGE_SIZE / 16,
            page@.len() == PAGE_SIZE,
            before.len() == PAGE_SIZE,
            t@ == xts_mask(t0@, b as nat),
            forall|k: int|
                0 <= k < 16 * b ==> #[trigger] page@[k] == before[k] ^ xts_mask(
                    t0@,
                    (k / 16) as nat,
                )[k % 16],
            forall|k: int| 16 * b <= k < PAGE_SIZE ==> #[trigger] page@[k] == before[k],
        decreases PAGE_SIZE / 16 - b,
    {
        let mut j: usize = 0;
        while j < 16
            invariant
                b < PAGE_SIZE / 16,
                j <= 16,
                page@.len() == PAGE_SIZE,
                before.len() == PAGE_SIZE,
                t@ == xts_mask(t0@, b as nat),
                forall|k: int|
                    0 <= k < 16 * b + j ==> #[trigger] page@[k] == before[k] ^ xts_mask(
                        t0@,
                        (k / 16) as nat,
                    )[k % 16],
                forall|k: int| 16 * b + j <= k < PAGE_SIZE ==> #[trigger] page@[k] == before[k],
            decreases 16 - j,
        {
            let k = 16 * b + j;
            assert(k / 16 == b && k % 16 == j as int);
            page[k] = page[k] ^ t[j];
            j = j + 1;
        }
        t = gf_mul_x(t);
        b = b + 1;
    }
    assert(page@ =~= xor_masks(before, t0@));
}

/// Applying the masks twice gives the page back.
pub proof fn lemma_xor_masks_involution(p: Seq<u8>, t0: Seq<u8>)
    ensures
        xor_masks(xor_masks(p, t0), t0) == p,
{
    assert forall|k: int| 0 <= k < p.len() implies #[trigger] xor_masks(xor_masks(p, t0), t0)[k]
        == p[k] by {
        let a = p[k];
        let m = xts_mask(t0, (k / 16) as nat)[k % 16];
        assert((a ^ m) ^ m == a) by (bit_vector);
    }
    assert(xor_masks(xor_masks(p, t0), t0) =~= p);
}

/// Reads a byte of a block-wise result through the block that holds it.
proof fn lemma_byte_of_block(s: Seq<u8>, k: int)
    requires
        0 <= k < s.len(),
        s.len() % 16 == 0,
    ensures
        block_at(s, k / 16)[k % 16] == s[k],
        0 <= k / 16 < s.len() / 16,
{
}

/// XTS direction of a page transform.
enum XtsDirection {
    Encrypt,
    Decrypt,
}

/// Transforms a page with XTS-AES: each block becomes `f(B xor T) xor T`, where `f` is AES
/// encryption or decryption under `data_key` and `T` is the block's mask.
fn transform_page_xts(
    page: &mut [u8; PAGE_SIZE],
    tweak: Tweak,
    tweak_key: &[u8; 16],
    data_key: &[u8; 16],
    direction: XtsDirection,
)
    requires
        tweak@.len() == 16,
    ensures
        direction is Decrypt ==> final(page)@ == xts_decrypt(
            tweak_key@,
            data_key@,
            tweak@,
            old(page)@,
        ),
        direction is Decrypt ==> xts_encrypt(tweak_key@, data_key@, tweak@, final(page)@)
            == old(page)@,
        direction is Encrypt ==> final(page)@ == xts_encrypt(
            tweak_key@,
            data_key@,
            tweak@,
            old(page)@,
        ),
        direction is Encrypt ==> xts_decrypt(tweak_key@, data_key@, tweak@, final(page)@)
            == old(page)@,
{
    let ghost before = page@;
    let t0 = tweak.encrypt(tweak_key);
    apply_masks(page, t0);
    let ghost m1 = page@;
    match direction {
        XtsDirection::Encrypt => aes128_encrypt_blocks(data_key, page),
        XtsDirection::Decrypt => aes128_decrypt_blocks(data_key, page),
    }
    let ghost m2 = page@;
    proof {
        assert(m1.len() == PAGE_SIZE);
        if direction is Decrypt {
            assert forall|k: int| 0 <= k < m2.len() implies #[trigger] m2[k]
                == decrypt_blocks(data_key@, m1)[k] by {
                lemma_byte_of_block(m2, k);
            }
            assert(m2 =~= decrypt_blocks(data_key@, m1));
            assert forall|k: int| 0 <= k < m2.len() implies #[trigger] encrypt_blocks(
                data_key@,
                m2,
            )[k] == m1[k] by {
                lemma_byte_of_block(m1, k);
            }
            assert(encrypt_blocks(data_key@, m2) =~= m1);
        } else {
            assert forall|k: int| 0 <= k < m2.len() implies #[trigger] m2[k]
                == encrypt_blocks(data_key@, m1)[k] by {
                lemma_byte_of_block(m2, k);
            }
            assert(m2 =~= encrypt_blocks(data_key@, m1));
            assert forall|k: int| 0 <= k < m2.len() implies #[trigger] decrypt_blocks(
                data_key@,
                m2,
            )[k] == m1[k] by {
                lemma_byte_of_block(m1, k);
            }
            assert(decrypt_blocks(data_key@, m2) =~= m1);
        }
    }
    apply_masks(page, t0);
    proof {
        lemma_xor_masks_involution(m2, t0@);
        lemma_xor_masks_involution(before, t0@);
    }
}

/// Decrypts a page in place with XTS-AES (IEEE 1619-2007): each block becomes
/// `P = AES_dec(C xor T) xor T`, where `T` is the tweak encrypted under `tweak_key`,
/// multiplied by `x` in GF(2^128) once per block.
///
/// Encrypting the result with the same keys and tweak gives the page back.
pub fn decrypt_page_xts(
    page: &mut [u8; PAGE_SIZE],
    tweak: Tweak,
    tweak_key: &[u8; 16],
    data_key: &[u8; 16],
)
    requires
        tweak@.len() == 16,
    ensures
        final(page)@ == xts_decrypt(tweak_key@, data_key@, tweak@, old(page)@),
        xts_encrypt(tweak_key@, data_key@, tweak@, final(page)@) == old(page)@,
{
    transform_page_xts(page, tweak, tweak_key, data_key, XtsDirection::Decrypt);
}

/// Encrypts a page in place with XTS-AES (IEEE 1619-2007): each block becomes
/// `C = AES_enc(P xor T) xor T`.
///
/// Decrypting the result with the same keys and tweak gives the page back.
pub fn encrypt_page_xts(
    page: &mut [u8; PAGE_SIZE],
    tweak: Tweak,
    tweak_key: &[u8; 16],
    data_key: &[u8; 16],
)
    requires
        tweak@.len() == 16,
    ensures
        final(page)@ == xts_encrypt(tweak_key@, data_key@, tweak@, old(page)@),
        xts_decrypt(tweak_key@, data_key@, tweak@, final(page)@) == old(page)@,
{
    transform_page_xts(page, tweak, tweak_key, data_key, XtsDirection::Encrypt);
}

/// Shifts the little-endian number `s` left by one bit, shifting `carry` in at the bottom.
spec fn shl1(s: Seq<u8>, carry: nat) -> Seq<u8>
    decreases s.len(),
{
    if s.len() == 0 {
        Seq::empty()
    } else {
        seq![((s[0] % 128) * 2 + carry) as u8] + shl1(s.drop_first(), (s[0] / 128) as nat)
    }
}

proof fn lemma_shl1(s: Seq<u8>, carry: nat)
    requires
        carry <= 1,
    ensures
        shl1(s, carry).len() == s.len(),
        le_nat(shl1(s, carry)) == (2 * le_nat(s) + carry) % pow256(s.len()),
        s.len() > 0 ==> shl1(s, carry)[0] == ((s[0] % 128) * 2 + carry) as u8,
        forall|j: int|
            1 <= j < s.len() ==> #[trigger] shl1(s, carry)[j] == ((s[j] % 128) * 2 + s[j - 1]
                / 128) as u8,
    decreases s.len(),
{
    if s.len() > 0 {
        let r = s.drop_first();
        let c2: nat = (s[0] / 128) as nat;
        lemma_shl1(r, c2);
        let out = shl1(s, carry);
        assert(out.drop_first() =~= shl1(r, c2));
        let a: int = (s[0] % 128) * 2 + carry;
        let x: int = (2 * le_nat(r) + c2) as int;
        let p: int = pow256(r.len()) as int;
        lemma_pow256_pos(r.len());
        assert(pow256(s.len()) == 256 * p);
        assert(le_nat(out) == a + 256 * le_nat(shl1(r, c2)));
        assert(2 * le_nat(s) + carry == a + 256 * x);
        assert((a + 256 * (x % p)) == (a + 256 * x) % (256 * p)) by (nonlinear_arith)
            requires
                0 <= a < 256,
                0 <= x,
                p >= 1,
        {
            vstd::arithmetic::div_mod::lemma_fundamental_div_mod(x, p);
            vstd::arithmetic::div_mod::lemma_mod_bound(x, p);
            let q = x / p;
            let m = x % p;
            assert(a + 256 * x == (a + 256 * m) + (256 * p) * q);
            assert(0 <= a + 256 * m < 256 * p);
            vstd::arithmetic::div_mod::lemma_mod_multiples_vanish(q, a + 256 * m, 256 * p);
            vstd::arithmetic::div_mod::lemma_small_mod((a + 256 * m) as nat, (256 * p) as nat);
        }
        assert forall|j: int| 1 <= j < s.len() implies #[trigger] out[j] == ((s[j] % 128) * 2
            + s[j - 1] / 128) as u8 by {
            if j >= 2 {
                assert(out[j] == shl1(r, c2)[j - 1]);
            } else {
                assert(out[1] == shl1(r, c2)[0]);
            }
        }
    }
}

/// Multiplying by `x` in GF(2^128), on the little-endian 128-bit number a mask stands for:
/// shift the number left by one bit and, when its top bit was set, reduce by the XTS
/// polynomial `x^128 + x^7 + x^2 + x + 1` (xor the low byte with `0x87`).
pub proof fn lemma_gf_double_is_mul_x(t: Seq<u8>)
    requires
        t.len() == 16,
    ensures
        ({
            let v = le_nat(t) as u128;
            le_nat(gf_double(t)) == ((v << 1u128) ^ (if v >> 127u128 == 1u128 {
                0x87u128
            } else {
                0u128
            })) as nat
        }),
{
    lemma_pow256_values();
    lemma_le_nat_bound(t);
    let v = le_nat(t) as u128;
    assert(v as nat == le_nat(t));
    lemma_shl1(t, 0);
    let sh = shl1(t, 0);
    let g = gf_double(t);
    let c: u8 = if t[15] >= 128 {
        0x87u8
    } else {
        0u8
    };
    assert(g =~= sh.update(0, sh[0] ^ c));
    // The top bit of the number is the top bit of its last byte.
    let low = t.subrange(0, 15);
    assert(t =~= low + seq![t[15]]);
    lemma_le_nat_concat(low, seq![t[15]]);
    lemma_le_nat_bound(low);
    assert(le_nat(seq![t[15]]) == t[15]) by {
        let one = seq![t[15]];
        assert(one.drop_first() =~= Seq::<u8>::empty());
        assert(le_nat(one.drop_first()) == 0);
        assert(le_nat(one) == one[0] as nat + 256 * le_nat(one.drop_first()));
    }
    reveal_with_fuel(pow256, 16);
    assert(pow256(15) == 0x1_0000_0000_0000_0000_0000_0000_0000_00nat);
    let lv = le_nat(low);
    assert((t[15] >= 128) <==> (le_nat(t) >= 0x8000_0000_0000_0000_0000_0000_0000_0000int)) by (
    nonlinear_arith)
        requires
            le_nat(t) == lv + 0x1_0000_0000_0000_0000_0000_0000_0000_00int * t[15],
            lv < 0x1_0000_0000_0000_0000_0000_0000_0000_00int,
            t[15] < 256,
    ;
    assert((v >> 127u128 == 1u128) <==> (v >= 0x8000_0000_0000_0000_0000_0000_0000_0000u128))
        by (bit_vector);
    // Shifting left is doubling modulo 2^128.
    let w = v << 1u128;
    assert(w as int == (2 * (v as int)) % 0x1_0000_0000_0000_0000_0000_0000_0000_0000int) by (
    bit_vector)
        requires
            w == v << 1u128,
    ;
    assert(le_nat(sh) == w as nat);
    // The reduction touches the low byte only.
    let cc: u128 = if v >> 127u128 == 1u128 {
        0x87u128
    } else {
        0u128
    };
    assert(cc == c as u128);
    assert((w ^ cc) as int == (w as int - (w & 0xffu128) as int) + ((w & 0xffu128) ^ cc) as int)
        by (bit_vector)
        requires
            cc <= 0xff,
    ;
    assert((w & 0xffu128) as int == (w as int) % 256) by (bit_vector);
    // The low byte of the number is its first byte.
    assert(le_nat(sh) % 256 == sh[0]) by {
        assert(le_nat(sh) == sh[0] as nat + 256 * le_nat(sh.drop_first()));
    }
    let b0 = sh[0];
    assert(((b0 as u128) ^ cc) as int == (b0 ^ c) as int) by (bit_vector)
        requires
            cc == c as u128,
    ;
    let u = sh.update(0, b0 ^ c);
    assert(le_nat(u) == le_nat(sh) - b0 + (b0 ^ c)) by {
        assert(u.drop_first() =~= sh.drop_first());
        assert(le_nat(sh) == sh[0] as nat + 256 * le_nat(sh.drop_first()));
        assert(le_nat(u) == u[0] as nat + 256 * le_nat(u.drop_first()));
    }
}

} // verus!
