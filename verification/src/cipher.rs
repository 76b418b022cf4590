//! The protocol-level stream cipher: a block cipher run in its
//! self-synchronizing 8-bit feedback mode. Each byte is XORed with the first
//! byte of the block cipher applied to a 16-byte shift register, and the
//! register then takes the ciphertext byte in at the end; so a decryptor fed
//! the same ciphertext keeps the same register. Only the block cipher itself
//! is an outside call; the feedback mode and its inversion are verified here.

use vstd::prelude::*;
use aes::cipher::{BlockEncrypt, KeyInit};
use aes::cipher::generic_array::GenericArray;

verus! {

/// What `aes::Aes128`'s block encryption returns for this key and block: a
/// function of the two arguments alone.
pub uninterp spec fn aes_block(key: Seq<u8>, block: Seq<u8>) -> Seq<u8>;

/// Relies on aes::Aes128 (KeyInit::new, BlockEncrypt::encrypt_block): one
/// 16-byte block encrypted under a 16-byte key.
#[verifier::external_body]
fn aes128_encrypt_block(key: &Vec<u8>, block: &Vec<u8>) -> (r: Vec<u8>)
    requires
        key@.len() == 16,
        block@.len() == 16,
    ensures
        r@ == aes_block(key@, block@),
        r@.len() == 16,
{
    let cipher = aes::Aes128::new(GenericArray::from_slice(key.as_slice()));
    let mut b = aes::Block::clone_from_slice(block.as_slice());
    cipher.encrypt_block(&mut b);
    b.to_vec()
}

/// The shift register after feeding the bytes of `fed` through it, oldest
/// first: each byte pushes out the register's first byte.
pub open spec fn cfb8_shift(reg: Seq<u8>, fed: Seq<u8>) -> Seq<u8>
    decreases fed.len(),
{
    if fed.len() == 0 {
        reg
    } else {
        cfb8_shift(reg.skip(1) + seq![fed[0]], fed.skip(1))
    }
}

/// The ciphertext of `plain` under feedback-mode encryption starting from
/// shift register `reg`.
pub open spec fn cfb8_encrypt_seq(key: Seq<u8>, reg: Seq<u8>, plain: Seq<u8>) -> Seq<u8>
    decreases plain.len(),
{
    if plain.len() == 0 {
        Seq::empty()
    } else {
        let c = plain[0] ^ aes_block(key, reg)[0];
        seq![c] + cfb8_encrypt_seq(key, reg.skip(1) + seq![c], plain.skip(1))
    }
}

/// The plaintext recovered from `cipher` starting from shift register `reg`.
pub open spec fn cfb8_decrypt_seq(key: Seq<u8>, reg: Seq<u8>, cipher: Seq<u8>) -> Seq<u8>
    decreases cipher.len(),
{
    if cipher.len() == 0 {
        Seq::empty()
    } else {
        let p = cipher[0] ^ aes_block(key, reg)[0];
        seq![p] + cfb8_decrypt_seq(key, reg.skip(1) + seq![cipher[0]], cipher.skip(1))
    }
}

proof fn lemma_xor_cancel(a: u8, b: u8)
    by (bit_vector)
    ensures
        ((a ^ b) ^ b) == a,
{
}

/// Law: decryption inverts encryption. A decryptor with the same key and
/// starting register recovers the plaintext exactly.
pub proof fn lemma_cfb8_inverse(key: Seq<u8>, reg: Seq<u8>, plain: Seq<u8>)
    ensures
        cfb8_decrypt_seq(key, reg, cfb8_encrypt_seq(key, reg, plain)) == plain,
    decreases plain.len(),
{
    let c_all = cfb8_encrypt_seq(key, reg, plain);
    if plain.len() == 0 {
        assert(cfb8_decrypt_seq(key, reg, c_all) =~= plain);
    } else {
        let ks = aes_block(key, reg)[0];
        let c = plain[0] ^ ks;
        let reg2 = reg.skip(1) + seq![c];
        lemma_xor_cancel(plain[0], ks);
        lemma_cfb8_inverse(key, reg2, plain.skip(1));
        assert(c_all[0] == c);
        assert(c_all.skip(1) =~= cfb8_encrypt_seq(key, reg2, plain.skip(1)));
        assert(cfb8_decrypt_seq(key, reg, c_all) =~= plain);
    }
}

/// Feeding `a` then `b` through the register equals feeding `a + b`.
pub proof fn lemma_cfb8_shift_append(reg: Seq<u8>, a: Seq<u8>, b: Seq<u8>)
    ensures
        cfb8_shift(reg, a + b) == cfb8_shift(cfb8_shift(reg, a), b),
    decreases a.len(),
{
    if a.len() == 0 {
        assert(a + b =~= b);
    } else {
        assert((a + b)[0] == a[0]);
        assert((a + b).skip(1) =~= a.skip(1) + b);
        lemma_cfb8_shift_append(reg.skip(1) + seq![a[0]], a.skip(1), b);
    }
}

/// Law: the cipher is a stream. Encrypting `a + b` equals encrypting `a`,
/// then encrypting `b` from the register the first ciphertext left behind —
/// so encrypting a stream piecewise equals encrypting it whole.
pub proof fn lemma_cfb8_encrypt_append(key: Seq<u8>, reg: Seq<u8>, a: Seq<u8>, b: Seq<u8>)
    ensures
        cfb8_encrypt_seq(key, reg, a + b) == cfb8_encrypt_seq(key, reg, a) + cfb8_encrypt_seq(
            key,
            cfb8_shift(reg, cfb8_encrypt_seq(key, reg, a)),
            b,
        ),
    decreases a.len(),
{
    if a.len() == 0 {
        assert(a + b =~= b);
        assert(cfb8_encrypt_seq(key, reg, a) =~= Seq::<u8>::empty());
        assert(cfb8_encrypt_seq(key, reg, a + b) =~= cfb8_encrypt_seq(key, reg, a)
            + cfb8_encrypt_seq(key, cfb8_shift(reg, cfb8_encrypt_seq(key, reg, a)), b));
    } else {
        let c = a[0] ^ aes_block(key, reg)[0];
        let reg2 = reg.skip(1) + seq![c];
        assert((a + b)[0] == a[0]);
        assert((a + b).skip(1) =~= a.skip(1) + b);
        lemma_cfb8_encrypt_append(key, reg2, a.skip(1), b);
        let ea = cfb8_encrypt_seq(key, reg, a);
        assert(ea =~= seq![c] + cfb8_encrypt_seq(key, reg2, a.skip(1)));
        assert(ea[0] == c);
        assert(ea.skip(1) =~= cfb8_encrypt_seq(key, reg2, a.skip(1)));
        assert(cfb8_shift(reg, ea) == cfb8_shift(reg2, cfb8_encrypt_seq(key, reg2, a.skip(1))));
        assert(cfb8_encrypt_seq(key, reg, a + b) =~= cfb8_encrypt_seq(key, reg, a)
            + cfb8_encrypt_seq(key, cfb8_shift(reg, ea), b));
    }
}

/// Decrypting `a + b` equals decrypting `a`, then `b` from the register the
/// ciphertext `a` left behind.
pub proof fn lemma_cfb8_decrypt_append(key: Seq<u8>, reg: Seq<u8>, a: Seq<u8>, b: Seq<u8>)
    ensures
        cfb8_decrypt_seq(key, reg, a + b) == cfb8_decrypt_seq(key, reg, a) + cfb8_decrypt_seq(
            key,
            cfb8_shift(reg, a),
            b,
        ),
    decreases a.len(),
{
    if a.len() == 0 {
        assert(a + b =~= b);
        assert(cfb8_decrypt_seq(key, reg, a) =~= Seq::<u8>::empty());
        assert(cfb8_decrypt_seq(key, reg, a + b) =~= cfb8_decrypt_seq(key, reg, a)
            + cfb8_decrypt_seq(key, cfb8_shift(reg, a), b));
    } else {
        let reg2 = reg.skip(1) + seq![a[0]];
        assert((a + b)[0] == a[0]);
        assert((a + b).skip(1) =~= a.skip(1) + b);
        lemma_cfb8_decrypt_append(key, reg2, a.skip(1), b);
        let da = cfb8_decrypt_seq(key, reg, a);
        assert(da =~= seq![(a[0] ^ aes_block(key, reg)[0])] + cfb8_decrypt_seq(
            key,
            reg2,
            a.skip(1),
        ));
        assert(cfb8_decrypt_seq(key, reg, a + b) =~= cfb8_decrypt_seq(key, reg, a)
            + cfb8_decrypt_seq(key, cfb8_shift(reg, a), b));
    }
}

/// One direction of a session's cipher: the key and the current shift
/// register. Once enabled it applies to every subsequent byte in that
/// direction; nothing here can disable it.
pub struct StreamCipher {
    key: Vec<u8>,
    reg: Vec<u8>,
}

impl StreamCipher {
    /// Both the key and the shift register hold 16 bytes.
    pub closed spec fn wf(&self) -> bool {
        self.key@.len() == 16 && self.reg@.len() == 16
    }

    /// The cipher's key.
    pub closed spec fn key_spec(&self) -> Seq<u8> {
        self.key@
    }

    /// The current shift register.
    pub closed spec fn reg_spec(&self) -> Seq<u8> {
        self.reg@
    }

    /// A fresh cipher over `key`, register seeded from the initialization
    /// vector `iv`.
    pub fn new(key: Vec<u8>, iv: Vec<u8>) -> (r: Self)
        requires
            key@.len() == 16,
            iv@.len() == 16,
        ensures
            r.wf(),
            r.key_spec() == key@,
            r.reg_spec() == iv@,
    {
        StreamCipher { key, reg: iv }
    }

    /// Encrypts `data`, advancing the register by the ciphertext produced.
    pub fn encrypt(&mut self, data: &Vec<u8>) -> (r: Vec<u8>)
        requires
            old(self).wf(),
        ensures
            final(self).wf(),
            final(self).key_spec() == old(self).key_spec(),
            r@ == cfb8_encrypt_seq(old(self).key_spec(), old(self).reg_spec(), data@),
            r@.len() == data@.len(),
            final(self).reg_spec() == cfb8_shift(old(self).reg_spec(), r@),
    {
        let ghost key0 = self.key@;
        let ghost reg0 = self.reg@;
        let mut out: Vec<u8> = Vec::new();
        let mut i: usize = 0;
        proof {
            assert(data@.take(0) =~= Seq::<u8>::empty());
        }
        while i < data.len()
            invariant
                i <= data@.len(),
                self.key@ == key0,
                self.key@.len() == 16,
                self.reg@.len() == 16,
                out@ == cfb8_encrypt_seq(key0, reg0, data@.take(i as int)),
                out@.len() == i,
                self.reg@ == cfb8_shift(reg0, out@),
            decreases data@.len() - i,
        {
            let ks = aes128_encrypt_block(&self.key, &self.reg);
            let c = data[i] ^ ks[0];
            proof {
                let a = data@.take(i as int);
                let b = seq![data@[i as int]];
                assert(data@.take(i + 1) =~= a + b);
                lemma_cfb8_encrypt_append(key0, reg0, a, b);
                assert(b.skip(1) =~= Seq::<u8>::empty());
                let regb = self.reg@.skip(1) + seq![c];
                assert(cfb8_encrypt_seq(key0, regb, b.skip(1)) =~= Seq::<u8>::empty());
                assert(cfb8_encrypt_seq(key0, self.reg@, b) =~= seq![c]);
                lemma_cfb8_shift_append(reg0, out@, seq![c]);
                assert(out@ + seq![c] =~= cfb8_encrypt_seq(key0, reg0, data@.take(i + 1)));
            }
            let ghost reg_pre = self.reg@;
            let ghost out_pre = out@;
            out.push(c);
            self.reg.remove(0);
            self.reg.push(c);
            proof {
                assert(out@ =~= out_pre + seq![c]);
                assert(seq![c].skip(1) =~= Seq::<u8>::empty());
                assert(self.reg@ =~= reg_pre.skip(1) + seq![c]);
                assert(cfb8_shift(reg_pre.skip(1) + seq![c], Seq::<u8>::empty()) == reg_pre.skip(1)
                    + seq![c]);
                assert(cfb8_shift(reg_pre, seq![c]) == cfb8_shift(
                    reg_pre.skip(1) + seq![c],
                    seq![c].skip(1),
                ));
                assert(self.reg@ =~= cfb8_shift(reg0, out@));
            }
            i = i + 1;
        }
        proof {
            assert(data@.take(data@.len() as int) =~= data@);
        }
        out
    }

    /// Decrypts `data`, advancing the register by the ciphertext consumed.
    pub fn decrypt(&mut self, data: &Vec<u8>) -> (r: Vec<u8>)
        requires
            old(self).wf(),
        ensures
            final(self).wf(),
            final(self).key_spec() == old(self).key_spec(),
            r@ == cfb8_decrypt_seq(old(self).key_spec(), old(self).reg_spec(), data@),
            r@.len() == data@.len(),
            final(self).reg_spec() == cfb8_shift(old(self).reg_spec(), data@),
    {
        let ghost key0 = self.key@;
        let ghost reg0 = self.reg@;
        let mut out: Vec<u8> = Vec::new();
        let mut i: usize = 0;
        proof {
            assert(data@.take(0) =~= Seq::<u8>::empty());
        }
        while i < data.len()
            invariant
                i <= data@.len(),
                self.key@ == key0,
                self.key@.len() == 16,
                self.reg@.len() == 16,
                out@ == cfb8_decrypt_seq(key0, reg0, data@.take(i as int)),
                out@.len() == i,
                self.reg@ == cfb8_shift(reg0, data@.take(i as int)),
            decreases data@.len() - i,
        {
            let ks = aes128_encrypt_block(&self.key, &self.reg);
            let c = data[i];
            let p = c ^ ks[0];
            proof {
                let a = data@.take(i as int);
                let b = seq![data@[i as int]];
                assert(data@.take(i + 1) =~= a + b);
                lemma_cfb8_decrypt_append(key0, reg0, a, b);
                assert(b.skip(1) =~= Seq::<u8>::empty());
                let regb = self.reg@.skip(1) + seq![b[0]];
                assert(cfb8_decrypt_seq(key0, regb, b.skip(1)) =~= Seq::<u8>::empty());
                assert(cfb8_decrypt_seq(key0, self.reg@, b) =~= seq![p]);
                lemma_cfb8_shift_append(reg0, a, b);
                assert(out@ + seq![p] =~= cfb8_decrypt_seq(key0, reg0, data@.take(i + 1)));
            }
            let ghost reg_pre = self.reg@;
            let ghost out_pre = out@;
            out.push(p);
            self.reg.remove(0);
            self.reg.push(c);
            proof {
                assert(out@ =~= out_pre + seq![p]);
                assert(seq![c].skip(1) =~= Seq::<u8>::empty());
                assert(self.reg@ =~= reg_pre.skip(1) + seq![c]);
                assert(cfb8_shift(reg_pre.skip(1) + seq![c], Seq::<u8>::empty()) == reg_pre.skip(1)
                    + seq![c]);
                assert(cfb8_shift(reg_pre, seq![c]) == cfb8_shift(
                    reg_pre.skip(1) + seq![c],
                    seq![c].skip(1),
                ));
                assert(self.reg@ =~= cfb8_shift(reg0, data@.take(i + 1)));
            }
            i = i + 1;
        }
        proof {
            assert(data@.take(data@.len() as int) =~= data@);
        }
        out
    }
}

} // verus!
