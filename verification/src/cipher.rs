use vstd::prelude::*;

verus! {

/// Reflected CRC-32 polynomial used by the key schedule's table step.
pub const CRC_POLY: u32 = 0xEDB88320;

/// One shift-and-conditionally-xor round of the CRC-32 table recurrence.
pub open spec fn spec_crc_round(c: u32) -> u32 {
    if c & 1 == 1 {
        CRC_POLY ^ (c >> 1)
    } else {
        c >> 1
    }
}

/// `k` rounds of the CRC-32 table recurrence applied to `c`.
pub open spec fn spec_crc_rounds(c: u32, k: nat) -> u32
    decreases k,
{
    if k == 0 {
        c
    } else {
        spec_crc_round(spec_crc_rounds(c, (k - 1) as nat))
    }
}

/// The CRC-32 table entry for byte `i`: eight rounds over the byte.
pub open spec fn spec_crc_entry(i: u8) -> u32 {
    spec_crc_rounds(i as u32, 8)
}

/// One CRC-32 step: fold byte `b` into the running value `crc`.
pub open spec fn spec_crc32_step(crc: u32, b: u8) -> u32 {
    spec_crc_entry(((crc ^ b as u32) & 0xFF) as u8) ^ (crc >> 8)
}

/// The three 32-bit registers of the stream cipher.
#[derive(Debug, Clone, Copy, PartialEq, Eq, Structural)]
pub struct CipherKeys {
    pub key0: u32,
    pub key1: u32,
    pub key2: u32,
}

/// The fixed register values before the password is folded in.
pub open spec fn spec_keys_seed() -> CipherKeys {
    CipherKeys { key0: 0x12345678, key1: 0x23456789, key2: 0x34567890 }
}

/// Advances the three registers by one byte.
pub open spec fn spec_keys_update(k: CipherKeys, b: u8) -> CipherKeys {
    let k0 = spec_crc32_step(k.key0, b);
    let k1 = ((0x08088405 * ((k0 & 0xFF) + k.key1) + 1) % 0x1_0000_0000) as u32;
    let k2 = spec_crc32_step(k.key2, ((k1 >> 24) & 0xFF) as u8);
    CipherKeys { key0: k0, key1: k1, key2: k2 }
}

/// Byte `i` of the fixed twenty-byte password.
pub open spec fn spec_password(i: int) -> u8 {
    if i == 0 { 0x6F }
    else if i == 1 { 0x66 }
    else if i == 2 { 0x4F }
    else if i == 3 { 0x31 }
    else if i == 4 { 0x61 }
    else if i == 5 { 0x30 }
    else if i == 6 { 0x75 }
    else if i == 7 { 0x65 }
    else if i == 8 { 0x58 }
    else if i == 9 { 0x41 }
    else if i == 10 { 0x3F }
    else if i == 11 { 0x20 }
    else if i == 12 { 0x5B }
    else if i == 13 { 0xFF }
    else if i == 14 { 0x73 }
    else if i == 15 { 0x20 }
    else if i == 16 { 0x68 }
    else if i == 17 { 0x20 }
    else if i == 18 { 0x25 }
    else { 0x3F }
}

/// The registers after the first `i` password bytes are folded in.
pub open spec fn spec_keys_at(i: nat) -> CipherKeys
    decreases i,
{
    if i == 0 {
        spec_keys_seed()
    } else {
        spec_keys_update(spec_keys_at((i - 1) as nat), spec_password(i - 1))
    }
}

/// The registers the cipher starts from: the seed advanced over the
/// whole password.
pub open spec fn spec_initial_keys() -> CipherKeys {
    spec_keys_at(20)
}

/// The keystream byte derived from the third register.
pub open spec fn spec_key_byte(k2: u32) -> u8 {
    let v = (k2 & 0xFFFD) | 2;
    let prod = ((v * (v ^ 1)) % 0x1_0000_0000) as u32;
    ((prod >> 8) & 0xFF) as u8
}

/// Decryption of `s` starting from register state `k`: every byte at an
/// even index is xored with the keystream, odd-indexed bytes pass through
/// untouched, and the registers advance over each plaintext byte produced.
pub open spec fn spec_decrypt_from(s: Seq<u8>, k: CipherKeys) -> Seq<u8>
    decreases s.len(),
{
    if s.len() == 0 {
        s
    } else {
        let p = s[0] ^ spec_key_byte(k.key2);
        let k2 = spec_keys_update(k, p);
        if s.len() == 1 {
            seq![p]
        } else {
            seq![p, s[1]] + spec_decrypt_from(s.skip(2), k2)
        }
    }
}

/// Encryption of `s` from register state `k`: the mirror of
/// `spec_decrypt_from`, advancing the registers over the plaintext bytes.
pub open spec fn spec_encrypt_from(s: Seq<u8>, k: CipherKeys) -> Seq<u8>
    decreases s.len(),
{
    if s.len() == 0 {
        s
    } else {
        let c = s[0] ^ spec_key_byte(k.key2);
        let k2 = spec_keys_update(k, s[0]);
        if s.len() == 1 {
            seq![c]
        } else {
            seq![c, s[1]] + spec_encrypt_from(s.skip(2), k2)
        }
    }
}

/// Decryption of a whole buffer, from the password-derived registers.
pub open spec fn spec_decrypt(s: Seq<u8>) -> Seq<u8> {
    spec_decrypt_from(s, spec_initial_keys())
}

/// Encryption of a whole buffer, from the password-derived registers.
pub open spec fn spec_encrypt(s: Seq<u8>) -> Seq<u8> {
    spec_encrypt_from(s, spec_initial_keys())
}

proof fn lemma_xor_cancel(a: u8, b: u8)
    ensures
        (a ^ b) ^ b == a,
{
    assert((a ^ b) ^ b == a) by (bit_vector);
}

proof fn lemma_round_trip_from(s: Seq<u8>, k: CipherKeys)
    ensures
        spec_decrypt_from(spec_encrypt_from(s, k), k) == s,
    decreases s.len(),
{
    if s.len() == 0 {
    } else {
        let kb = spec_key_byte(k.key2);
        let c = s[0] ^ kb;
        let k2 = spec_keys_update(k, s[0]);
        lemma_xor_cancel(s[0], kb);
        if s.len() == 1 {
            assert(spec_encrypt_from(s, k) == seq![c]);
            assert(spec_decrypt_from(seq![c], k) =~= s);
        } else {
            let e = spec_encrypt_from(s, k);
            let rest = spec_encrypt_from(s.skip(2), k2);
            assert(e == seq![c, s[1]] + rest);
            lemma_round_trip_from(s.skip(2), k2);
            assert(e.len() >= 2);
            assert(e[0] == c && e[1] == s[1]);
            assert(e.skip(2) =~= rest);
            assert(spec_decrypt_from(e, k) == seq![s[0], s[1]] + spec_decrypt_from(
                rest,
                k2,
            ));
            assert(spec_decrypt_from(e, k) =~= s);
        }
    }
}

/// Law: decrypting an encrypted buffer reproduces the plaintext
/// byte-for-byte, whatever the buffer holds.
pub proof fn lemma_decrypt_inverts_encrypt(s: Seq<u8>)
    ensures
        spec_decrypt(spec_encrypt(s)) == s,
{
    lemma_round_trip_from(s, spec_initial_keys());
}

/// The CRC-32 table value for byte `i`, computed by the recurrence.
pub fn crc32_table_value(i: u8) -> (r: u32)
    ensures
        r == spec_crc_entry(i),
{
    let mut c: u32 = i as u32;
    let mut k: usize = 0;
    while k < 8
        invariant
            0 <= k <= 8,
            c == spec_crc_rounds(i as u32, k as nat),
        decreases 8 - k,
    {
        if c & 1 == 1 {
            c = CRC_POLY ^ (c >> 1);
        } else {
            c = c >> 1;
        }
        k = k + 1;
    }
    c
}

/// Folds byte `b` into the running CRC value `crc`.
pub fn crc32_step(crc: u32, b: u8) -> (r: u32)
    ensures
        r == spec_crc32_step(crc, b),
{
    crc32_table_value(((crc ^ b as u32) & 0xFF) as u8) ^ (crc >> 8)
}

/// Advances the cipher registers by one byte.
pub fn keys_update_step(keys: &mut CipherKeys, b: u8)
    ensures
        *final(keys) == spec_keys_update(*old(keys), b),
{
    keys.key0 = crc32_step(keys.key0, b);
    proof {
        let x = keys.key0;
        assert((x & 0xFF) <= 0xFF) by (bit_vector);
    }
    let t: u64 = 0x08088405u64 * ((keys.key0 & 0xFF) as u64 + keys.key1 as u64) + 1;
    keys.key1 = (t % 0x1_0000_0000) as u32;
    proof {
        let y = keys.key1;
        assert(((y >> 24) & 0xFF) < 256) by (bit_vector);
    }
    keys.key2 = crc32_step(keys.key2, ((keys.key1 >> 24) & 0xFF) as u8);
}

/// Byte `i` of the fixed password.
fn password_byte(i: usize) -> (r: u8)
    requires
        i < 20,
    ensures
        r == spec_password(i as int),
{
    if i == 0 { 0x6F }
    else if i == 1 { 0x66 }
    else if i == 2 { 0x4F }
    else if i == 3 { 0x31 }
    else if i == 4 { 0x61 }
    else if i == 5 { 0x30 }
    else if i == 6 { 0x75 }
    else if i == 7 { 0x65 }
    else if i == 8 { 0x58 }
    else if i == 9 { 0x41 }
    else if i == 10 { 0x3F }
    else if i == 11 { 0x20 }
    else if i == 12 { 0x5B }
    else if i == 13 { 0xFF }
    else if i == 14 { 0x73 }
    else if i == 15 { 0x20 }
    else if i == 16 { 0x68 }
    else if i == 17 { 0x20 }
    else if i == 18 { 0x25 }
    else { 0x3F }
}

/// The cipher registers after the password is folded into the seed.
pub fn generate_keys() -> (r: CipherKeys)
    ensures
        r == spec_initial_keys(),
{
    let mut keys = CipherKeys { key0: 0x12345678, key1: 0x23456789, key2: 0x34567890 };
    let mut i: usize = 0;
    while i < 20
        invariant
            0 <= i <= 20,
            keys == spec_keys_at(i as nat),
        decreases 20 - i,
    {
        let b = password_byte(i);
        keys_update_step(&mut keys, b);
        i = i + 1;
    }
    keys
}

/// The keystream byte for the current third register.
pub fn key_byte(k2: u32) -> (r: u8)
    ensures
        r == spec_key_byte(k2),
{
    let v: u32 = (k2 & 0xFFFD) | 2;
    let w: u32 = v ^ 1;
    proof {
        assert((v as u64) * (w as u64) <= 0xFFFFFFFFu64 * 0xFFFFFFFFu64) by (nonlinear_arith)
            requires
                v <= 0xFFFFFFFFu32 && w <= 0xFFFFFFFFu32,
        ;
    }
    let prod: u64 = (v as u64) * (w as u64);
    let low: u32 = (prod % 0x1_0000_0000) as u32;
    proof {
        assert(((low >> 8) & 0xFF) < 256) by (bit_vector);
    }
    ((low >> 8) & 0xFF) as u8
}

/// Decrypts the buffer in place: every even-indexed byte is xored with
/// the keystream; odd-indexed bytes are never modified.
#[verifier::rlimit(60)]
pub fn decrypt_bytes(buffer: &mut Vec<u8>)
    ensures
        final(buffer)@ == spec_decrypt(old(buffer)@),
{
    if buffer.len() == 0 {
        return;
    }
    let mut keys = generate_keys();
    let len = buffer.len();
    let n = (len - 1) / 2 + 1;
    let mut i: usize = 0;
    proof {
        assert(buffer@.take(0) =~= Seq::<u8>::empty());
        assert(old(buffer)@.skip(0) =~= old(buffer)@);
        assert(Seq::<u8>::empty() + spec_decrypt_from(old(buffer)@, keys) =~= spec_decrypt_from(
            old(buffer)@,
            keys,
        ));
    }
    while i < n
        invariant
            len == buffer@.len(),
            len == old(buffer)@.len(),
            len > 0,
            n == (len - 1) / 2 + 1,
            0 <= i <= n,
            forall|j: int| 2 * i <= j < len ==> buffer@[j] == old(buffer)@[j],
            spec_decrypt(old(buffer)@) == buffer@.take(vstd::math::min(2 * i, len as int))
                + spec_decrypt_from(
                old(buffer)@.skip(vstd::math::min(2 * i, len as int)),
                keys,
            ),
        decreases n - i,
    {
        let idx = 2 * i;
        let ghost pre = buffer@;
        let ghost kpre = keys;
        let kb = key_byte(keys.key2);
        let p = buffer[idx] ^ kb;
        buffer.set(idx, p);
        keys_update_step(&mut keys, p);
        proof {
            let s = old(buffer)@.skip(idx as int);
            assert(s[0] == old(buffer)@[idx as int]);
            assert(p == s[0] ^ spec_key_byte(kpre.key2));
            if idx + 1 == len {
                assert(s.len() == 1);
                assert(spec_decrypt_from(s, kpre) == seq![p]);
                assert(spec_decrypt(old(buffer)@) =~= buffer@.take(len as int)
                    + spec_decrypt_from(old(buffer)@.skip(len as int), keys)) by {
                    assert(buffer@.take(len as int) =~= pre.take(idx as int) + seq![p]);
                    assert(old(buffer)@.skip(len as int) =~= Seq::<u8>::empty());
                    assert(spec_decrypt_from(Seq::<u8>::empty(), keys) =~= Seq::<u8>::empty());
                }
            } else {
                assert(s.len() >= 2);
                assert(s[1] == old(buffer)@[idx + 1]);
                assert(spec_decrypt_from(s, kpre) == seq![p, s[1]] + spec_decrypt_from(
                    s.skip(2),
                    keys,
                ));
                assert(s.skip(2) =~= old(buffer)@.skip(idx + 2));
                assert(buffer@.take(idx + 2) =~= pre.take(idx as int) + seq![p, s[1]]);
                assert(vstd::math::min(2 * (i + 1), len as int) == idx + 2);
                assert(spec_decrypt(old(buffer)@) =~= buffer@.take(idx + 2)
                    + spec_decrypt_from(old(buffer)@.skip(idx + 2), keys));
            }
        }
        i = i + 1;
    }
    proof {
        assert(vstd::math::min(2 * i as int, len as int) == len as int);
        assert(buffer@.take(len as int) =~= buffer@);
        assert(old(buffer)@.skip(len as int) =~= Seq::<u8>::empty());
        assert(spec_decrypt(old(buffer)@) =~= buffer@);
    }
}

/// Encrypts the buffer in place: the inverse construction of
/// `decrypt_bytes`, advancing the registers over the plaintext bytes.
#[verifier::rlimit(60)]
pub fn encrypt_bytes(buffer: &mut Vec<u8>)
    ensures
        final(buffer)@ == spec_encrypt(old(buffer)@),
{
    if buffer.len() == 0 {
        return;
    }
    let mut keys = generate_keys();
    let len = buffer.len();
    let n = (len - 1) / 2 + 1;
    let mut i: usize = 0;
    proof {
        assert(buffer@.take(0) =~= Seq::<u8>::empty());
        assert(old(buffer)@.skip(0) =~= old(buffer)@);
        assert(Seq::<u8>::empty() + spec_encrypt_from(old(buffer)@, keys) =~= spec_encrypt_from(
            old(buffer)@,
            keys,
        ));
    }
    while i < n
        invariant
            len == buffer@.len(),
            len == old(buffer)@.len(),
            len > 0,
            n == (len - 1) / 2 + 1,
            0 <= i <= n,
            forall|j: int| 2 * i <= j < len ==> buffer@[j] == old(buffer)@[j],
            spec_encrypt(old(buffer)@) == buffer@.take(vstd::math::min(2 * i, len as int))
                + spec_encrypt_from(
                old(buffer)@.skip(vstd::math::min(2 * i, len as int)),
                keys,
            ),
        decreases n - i,
    {
        let idx = 2 * i;
        let ghost pre = buffer@;
        let ghost kpre = keys;
        let kb = key_byte(keys.key2);
        let plain = buffer[idx];
        let c = plain ^ kb;
        buffer.set(idx, c);
        keys_update_step(&mut keys, plain);
        proof {
            let s = old(buffer)@.skip(idx as int);
            assert(s[0] == old(buffer)@[idx as int]);
            assert(c == s[0] ^ spec_key_byte(kpre.key2));
            if idx + 1 == len {
                assert(s.len() == 1);
                assert(spec_encrypt_from(s, kpre) == seq![c]);
                assert(spec_encrypt(old(buffer)@) =~= buffer@.take(len as int)
                    + spec_encrypt_from(old(buffer)@.skip(len as int), keys)) by {
                    assert(buffer@.take(len as int) =~= pre.take(idx as int) + seq![c]);
                    assert(old(buffer)@.skip(len as int) =~= Seq::<u8>::empty());
                    assert(spec_encrypt_from(Seq::<u8>::empty(), keys) =~= Seq::<u8>::empty());
                }
            } else {
                assert(s.len() >= 2);
                assert(s[1] == old(buffer)@[idx + 1]);
                assert(spec_encrypt_from(s, kpre) == seq![c, s[1]] + spec_encrypt_from(
                    s.skip(2),
                    keys,
                ));
                assert(s.skip(2) =~= old(buffer)@.skip(idx + 2));
                assert(buffer@.take(idx + 2) =~= pre.take(idx as int) + seq![c, s[1]]);
                assert(vstd::math::min(2 * (i + 1), len as int) == idx + 2);
                assert(spec_encrypt(old(buffer)@) =~= buffer@.take(idx + 2)
                    + spec_encrypt_from(old(buffer)@.skip(idx + 2), keys));
            }
        }
        i = i + 1;
    }
    proof {
        assert(vstd::math::min(2 * i as int, len as int) == len as int);
        assert(buffer@.take(len as int) =~= buffer@);
        assert(old(buffer)@.skip(len as int) =~= Seq::<u8>::empty());
        assert(spec_encrypt(old(buffer)@) =~= buffer@);
    }
}

} // verus!
