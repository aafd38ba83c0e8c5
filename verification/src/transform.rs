//! The AEAD security transform: the secure-outgoing procedure and its
//! decode-side inverse.
//!
//! Both run around a caller-supplied cipher and key store, reached
//! through the two capability traits below. The context owns the
//! outgoing frame counter; it advances by exactly 1 on a fully
//! successful secure operation and never otherwise, and the value
//! `0xFFFF_FFFF` is terminal. A rejected operation leaves both the
//! counter and the payload untouched.

use crate::address::Address;
use crate::header::Header;
use crate::security::{
    auth_tag_len, level_encrypts, spec_auth_tag_len, spec_aux_octet_len, spec_level_bits,
    spec_level_encrypts, lemma_encode_aux_len, lemma_level_bits_small, AuxiliarySecurityHeader, KeyIdentifier, SecurityLevel,
};
use vstd::prelude::*;
use vstd::slice::{slice_subrange, slice_to_vec};

verus! {

/// Which address a key lookup is keyed by.
#[derive(Clone, Copy, PartialEq, Eq, Hash, Debug)]
pub enum KeyAddressMode {
    /// The destination address names the key.
    DstAddrMode,
    /// The source address names the key.
    SrcAddrMode,
}

/// A looked-up symmetric key: raw key bytes handed out by the provider
/// for the duration of one transform.
pub struct KeyDescriptor {
    /// The raw key bytes.
    pub key: Vec<u8>,
}

/// The key-store capability. The transform asks it for the key named by
/// the frame's key identifier and destination address; `None` means no
/// key is known and the operation is rejected as `UnavailableKey`.
pub trait KeyDescriptorLookup {
    /// Looks up a key, or reports that none is known.
    fn lookup_key(
        &self,
        address_mode: KeyAddressMode,
        key_identifier: Option<KeyIdentifier>,
        device_address: Option<Address>,
    ) -> Option<KeyDescriptor>;
}

/// The AEAD primitive, supplied by the caller. An implementation must
/// keep the buffer's length unchanged on success and hand it back
/// untouched on failure, which is what an in-place detached-tag cipher
/// does; everything else about the bytes is the cipher's own business.
pub trait AeadInPlaceCipher: Sized {
    /// Builds the cipher from raw key bytes; fails on an unusable key.
    fn new_from_slice(key: &[u8]) -> Result<Self, ()>;

    /// Encrypts `buffer` in place under `nonce`, authenticating
    /// `associated_data` as well, and returns the detached tag.
    fn encrypt_in_place_detached(
        &self,
        nonce: &[u8],
        associated_data: &[u8],
        buffer: &mut Vec<u8>,
    ) -> (r: Result<Vec<u8>, ()>)
        requires
            nonce@.len() == 13,
        ensures
            r is Ok ==> final(buffer)@.len() == old(buffer)@.len(),
            r is Err ==> final(buffer)@ == old(buffer)@,
    ;

    /// Verifies `tag` and decrypts `buffer` in place under `nonce`; on
    /// a failed verification the buffer is handed back untouched.
    fn decrypt_in_place_detached(
        &self,
        nonce: &[u8],
        associated_data: &[u8],
        buffer: &mut Vec<u8>,
        tag: &[u8],
    ) -> (r: Result<(), ()>)
        requires
            nonce@.len() == 13,
        ensures
            r is Ok ==> final(buffer)@.len() == old(buffer)@.len(),
            r is Err ==> final(buffer)@ == old(buffer)@,
    ;
}

/// The state a caller holds across secure operations: the outgoing
/// frame counter and the key store. One context must not be shared
/// across execution units without external exclusion.
pub struct SecurityContext<K: KeyDescriptorLookup> {
    /// The outgoing frame counter, strictly increasing by 1 per
    /// successful secure operation; `0xFFFF_FFFF` is terminal.
    pub frame_counter: u32,
    /// The key store.
    pub key_provider: K,
}

/// Why one secure or unsecure attempt was rejected. No rejection
/// advances the frame counter or changes the payload.
#[derive(Clone, Copy, PartialEq, Eq, Hash, Debug)]
pub enum SecurityError {
    /// Tag, auxiliary header and checksum would overrun the radio's
    /// 127-byte frame.
    FrameTooLong,
    /// The frame counter is unusable: exhausted when securing, absent
    /// or exhausted when unsecuring.
    CounterError,
    /// The cipher rejected the key, or failed while transforming.
    KeyFailure,
    /// The key store knows no key for this frame.
    UnavailableKey,
    /// The authentication tag did not verify, or there were not even
    /// enough payload bytes to hold one.
    VerificationFailed,
    /// The nonce needs an extended source address and the header has
    /// none.
    NoSourceAddress,
    /// Security is off but an auxiliary security header is present: a
    /// caller-contract violation, reported rather than aborted on.
    SecurityNotEnabled,
    /// Security is on but no auxiliary security header is present:
    /// likewise a reported caller-contract violation.
    AuxSecHeaderAbsent,
}

/// Whether the header carries an extended source address, from which
/// the nonce is derived.
pub open spec fn spec_has_ext_source(h: Header) -> bool {
    h.source matches Some(Address::Extended(_, _))
}

/// The auxiliary security header of `h`, where there is one.
pub open spec fn spec_aux_of(h: Header) -> AuxiliarySecurityHeader {
    h.auxiliary_security_header->Some_0
}

/// The length bound of the secure procedure: authentication tag,
/// auxiliary header and the 2-byte checksum must fit the radio's
/// 127-byte frame.
pub open spec fn spec_secure_len_ok(h: Header) -> bool {
    spec_auth_tag_len(spec_aux_of(h).security_level) + spec_aux_octet_len(spec_aux_of(h)) + 2
        <= 127
}

/// Whether a received frame's counter can be used for the nonce:
/// present and not exhausted.
pub open spec fn spec_rx_counter_usable(a: AuxiliarySecurityHeader) -> bool {
    a.frame_counter matches Some(c) && c != 0xffffffffu32
}

/// The 13-byte nonce that binds a secured frame to its source address,
/// frame counter and security level: the 8 big-endian bytes of the
/// extended source address, the 4 big-endian bytes of the counter, and
/// the level's 3-bit value.
pub open spec fn spec_nonce(src: u64, counter: u32, level: SecurityLevel) -> Seq<u8> {
    seq![
        ((src >> 56) & 0xff) as u8,
        ((src >> 48) & 0xff) as u8,
        ((src >> 40) & 0xff) as u8,
        ((src >> 32) & 0xff) as u8,
        ((src >> 24) & 0xff) as u8,
        ((src >> 16) & 0xff) as u8,
        ((src >> 8) & 0xff) as u8,
        (src & 0xff) as u8,
        ((counter >> 24) & 0xff) as u8,
        ((counter >> 16) & 0xff) as u8,
        ((counter >> 8) & 0xff) as u8,
        (counter & 0xff) as u8,
        spec_level_bits(level),
    ]
}

/// Builds the nonce of [`spec_nonce`].
fn derive_nonce(src: u64, counter: u32, level: &SecurityLevel) -> (n: Vec<u8>)
    ensures
        n@ == spec_nonce(src, counter, *level),
        n@.len() == 13,
{
    let mut n: Vec<u8> = Vec::new();
    n.push(((src >> 56) & 0xff) as u8);
    n.push(((src >> 48) & 0xff) as u8);
    n.push(((src >> 40) & 0xff) as u8);
    n.push(((src >> 32) & 0xff) as u8);
    n.push(((src >> 24) & 0xff) as u8);
    n.push(((src >> 16) & 0xff) as u8);
    n.push(((src >> 8) & 0xff) as u8);
    n.push((src & 0xff) as u8);
    n.push(((counter >> 24) & 0xff) as u8);
    n.push(((counter >> 16) & 0xff) as u8);
    n.push(((counter >> 8) & 0xff) as u8);
    n.push((counter & 0xff) as u8);
    n.push(crate::security::level_bits(level));
    assert(n@ =~= spec_nonce(src, counter, *level));
    n
}

/// Two equal nonces come from the same address, counter and level: as
/// long as no (address, counter) pair repeats, no nonce repeats under a
/// given key.
pub proof fn lemma_nonce_injective(
    a1: u64,
    c1: u32,
    l1: SecurityLevel,
    a2: u64,
    c2: u32,
    l2: SecurityLevel,
)
    requires
        spec_nonce(a1, c1, l1) == spec_nonce(a2, c2, l2),
    ensures
        a1 == a2,
        c1 == c2,
        l1 == l2,
{
    let n1 = spec_nonce(a1, c1, l1);
    let n2 = spec_nonce(a2, c2, l2);
    assert(n1[0] == n2[0] && n1[1] == n2[1] && n1[2] == n2[2] && n1[3] == n2[3] && n1[4] == n2[4]
        && n1[5] == n2[5] && n1[6] == n2[6] && n1[7] == n2[7] && n1[8] == n2[8] && n1[9] == n2[9]
        && n1[10] == n2[10] && n1[11] == n2[11] && n1[12] == n2[12]);
    assert(a1 == a2) by (bit_vector)
        requires
            ((a1 >> 56) & 0xff) as u8 == ((a2 >> 56) & 0xff) as u8,
            ((a1 >> 48) & 0xff) as u8 == ((a2 >> 48) & 0xff) as u8,
            ((a1 >> 40) & 0xff) as u8 == ((a2 >> 40) & 0xff) as u8,
            ((a1 >> 32) & 0xff) as u8 == ((a2 >> 32) & 0xff) as u8,
            ((a1 >> 24) & 0xff) as u8 == ((a2 >> 24) & 0xff) as u8,
            ((a1 >> 16) & 0xff) as u8 == ((a2 >> 16) & 0xff) as u8,
            ((a1 >> 8) & 0xff) as u8 == ((a2 >> 8) & 0xff) as u8,
            (a1 & 0xff) as u8 == (a2 & 0xff) as u8,
    ;
    assert(c1 == c2) by (bit_vector)
        requires
            ((c1 >> 24) & 0xff) as u8 == ((c2 >> 24) & 0xff) as u8,
            ((c1 >> 16) & 0xff) as u8 == ((c2 >> 16) & 0xff) as u8,
            ((c1 >> 8) & 0xff) as u8 == ((c2 >> 8) & 0xff) as u8,
            (c1 & 0xff) as u8 == (c2 & 0xff) as u8,
    ;
    lemma_level_bits_small(l1);
    lemma_level_bits_small(l2);
}

/// Counter monotonicity: a run of counter values in which each next
/// value is the previous plus 1 — what [`secure_frame`] guarantees for
/// consecutive successful operations on one context — is strictly
/// increasing, so no value repeats.
pub proof fn lemma_counter_monotonic(counters: Seq<u32>)
    requires
        forall|i: int|
            0 <= i && i + 1 < counters.len() ==> #[trigger] counters[i + 1] == counters[i] + 1,
    ensures
        forall|i: int, j: int| 0 <= i < j < counters.len() ==> counters[i] < counters[j],
{
    assert forall|i: int, j: int| 0 <= i < j < counters.len() implies counters[i]
        < counters[j] by {
        lemma_counter_chain(counters, i, j);
    }
}

/// After `j - i` single steps the counter stands exactly `j - i` higher.
proof fn lemma_counter_chain(counters: Seq<u32>, i: int, j: int)
    requires
        forall|k: int|
            0 <= k && k + 1 < counters.len() ==> #[trigger] counters[k + 1] == counters[k] + 1,
        0 <= i <= j < counters.len(),
    ensures
        counters[j] == counters[i] + (j - i),
    decreases j - i,
{
    if i < j {
        lemma_counter_chain(counters, i, j - 1);
        assert(counters[(j - 1) + 1] == counters[j - 1] + 1);
    }
}

/// Secures an outgoing frame in place: checks the caller's contract,
/// the length bound and the counter, derives the nonce, encrypts or
/// authenticates the payload per the security level and appends the
/// tag, and advances the counter by exactly 1 — only then. Every
/// rejection leaves payload and counter untouched, and the
/// deterministic rejections are characterised exactly.
pub fn secure_frame<A: AeadInPlaceCipher, K: KeyDescriptorLookup>(
    header: &Header,
    payload: &mut Vec<u8>,
    ctx: &mut SecurityContext<K>,
) -> (r: Result<(), SecurityError>)
    ensures
        final(ctx).key_provider == old(ctx).key_provider,
        !header.security && header.auxiliary_security_header is None ==> r is Ok,
        r is Err ==> final(payload)@ == old(payload)@ && final(ctx).frame_counter == old(ctx).frame_counter,
        r is Ok && !header.security ==> final(payload)@ == old(payload)@ && final(ctx).frame_counter == old(ctx).frame_counter,
        r is Ok && header.security ==> {
            &&& header.auxiliary_security_header is Some
            &&& spec_secure_len_ok(*header)
            &&& old(ctx).frame_counter < 0xffffffffu32
            &&& spec_has_ext_source(*header)
            &&& final(ctx).frame_counter == old(ctx).frame_counter + 1
            &&& final(payload)@.len() == old(payload)@.len() + spec_auth_tag_len(
                spec_aux_of(*header).security_level,
            )
            &&& (!spec_level_encrypts(spec_aux_of(*header).security_level) ==> final(payload)@.subrange(0, old(payload)@.len() as int) == old(payload)@)
        },
        r == Err::<(), SecurityError>(SecurityError::SecurityNotEnabled) <==> !header.security
            && header.auxiliary_security_header is Some,
        r == Err::<(), SecurityError>(SecurityError::AuxSecHeaderAbsent) <==> header.security
            && header.auxiliary_security_header is None,
        r == Err::<(), SecurityError>(SecurityError::FrameTooLong) <==> header.security
            && header.auxiliary_security_header is Some && !spec_secure_len_ok(*header),
        r == Err::<(), SecurityError>(SecurityError::CounterError) <==> header.security
            && header.auxiliary_security_header is Some && spec_secure_len_ok(*header) && old(
            ctx,
        ).frame_counter == 0xffffffffu32,
        r == Err::<(), SecurityError>(SecurityError::NoSourceAddress) <==> header.security
            && header.auxiliary_security_header is Some && spec_secure_len_ok(*header) && old(
            ctx,
        ).frame_counter < 0xffffffffu32 && !spec_has_ext_source(*header),
        r != Err::<(), SecurityError>(SecurityError::VerificationFailed),
{
    if !header.security {
        if matches!(&header.auxiliary_security_header, Option::Some(_)) {
            return Err(SecurityError::SecurityNotEnabled);
        }
        return Ok(());
    }
    let aux = match &header.auxiliary_security_header {
        Option::Some(a) => a,
        Option::None => {
            return Err(SecurityError::AuxSecHeaderAbsent);
        },
    };
    let atl = auth_tag_len(&aux.security_level);
    let aux_len = aux.get_octet_size();
    proof {
        lemma_encode_aux_len(*aux);
        assert(spec_auth_tag_len(aux.security_level) <= 16);
    }
    if atl + aux_len + 2 > 127 {
        return Err(SecurityError::FrameTooLong);
    }
    if ctx.frame_counter == 0xffffffff {
        return Err(SecurityError::CounterError);
    }
    let src_addr: u64 = match &header.source {
        Option::Some(Address::Extended(_, ea)) => ea.0,
        _ => {
            return Err(SecurityError::NoSourceAddress);
        },
    };
    let key = match ctx.key_provider.lookup_key(
        KeyAddressMode::DstAddrMode,
        aux.key_identifier,
        header.destination,
    ) {
        Option::Some(k) => k,
        Option::None => {
            return Err(SecurityError::UnavailableKey);
        },
    };
    let cipher = match A::new_from_slice(key.key.as_slice()) {
        Ok(c) => c,
        Err(_) => {
            return Err(SecurityError::KeyFailure);
        },
    };
    let nonce = derive_nonce(src_addr, ctx.frame_counter, &aux.security_level);
    let mut work: Vec<u8> = slice_to_vec(payload.as_slice());
    let tag_full: Vec<u8>;
    if level_encrypts(&aux.security_level) {
        let empty_aad: Vec<u8> = Vec::new();
        match cipher.encrypt_in_place_detached(nonce.as_slice(), empty_aad.as_slice(), &mut work) {
            Ok(t) => {
                tag_full = t;
            },
            Err(_) => {
                return Err(SecurityError::KeyFailure);
            },
        }
    } else {
        let mut empty_buf: Vec<u8> = Vec::new();
        match cipher.encrypt_in_place_detached(
            nonce.as_slice(),
            payload.as_slice(),
            &mut empty_buf,
        ) {
            Ok(t) => {
                tag_full = t;
            },
            Err(_) => {
                return Err(SecurityError::KeyFailure);
            },
        }
    }
    if tag_full.len() < atl {
        return Err(SecurityError::KeyFailure);
    }
    let ghost work0 = work@;
    let mut i: usize = 0;
    while i < atl
        invariant
            i <= atl,
            atl <= tag_full@.len(),
            work@ == work0 + tag_full@.subrange(0, i as int),
        decreases atl - i,
    {
        work.push(tag_full[i]);
        assert(work@ =~= work0 + tag_full@.subrange(0, i + 1 as int));
        i = i + 1;
    }
    *payload = work;
    ctx.frame_counter = ctx.frame_counter + 1;
    Ok(())
}

/// Unsecures a received frame in place: the inverse of
/// [`secure_frame`]. The nonce is rebuilt from the received auxiliary
/// header's counter, the trailing tag is verified and stripped, and the
/// payload is decrypted if the level encrypts. On any rejection —
/// including a failed verification — the payload is handed back
/// untouched, so no unverified plaintext is ever exposed; the context
/// is borrowed immutably, so the outgoing counter cannot move.
pub fn unsecure_frame<A: AeadInPlaceCipher, K: KeyDescriptorLookup>(
    header: &Header,
    payload: &mut Vec<u8>,
    ctx: &SecurityContext<K>,
) -> (r: Result<(), SecurityError>)
    ensures
        !header.security && header.auxiliary_security_header is None ==> r is Ok,
        r is Err ==> final(payload)@ == old(payload)@,
        r is Ok && !header.security ==> final(payload)@ == old(payload)@,
        r is Ok && header.security ==> {
            &&& header.auxiliary_security_header is Some
            &&& spec_rx_counter_usable(spec_aux_of(*header))
            &&& spec_has_ext_source(*header)
            &&& old(payload)@.len() >= spec_auth_tag_len(spec_aux_of(*header).security_level)
            &&& final(payload)@.len() == old(payload)@.len() - spec_auth_tag_len(
                spec_aux_of(*header).security_level,
            )
            &&& (!spec_level_encrypts(spec_aux_of(*header).security_level) ==> final(payload)@
                == old(payload)@.subrange(
                0,
                old(payload)@.len() - spec_auth_tag_len(spec_aux_of(*header).security_level),
            ))
        },
        r == Err::<(), SecurityError>(SecurityError::SecurityNotEnabled) <==> !header.security
            && header.auxiliary_security_header is Some,
        r == Err::<(), SecurityError>(SecurityError::AuxSecHeaderAbsent) <==> header.security
            && header.auxiliary_security_header is None,
        r == Err::<(), SecurityError>(SecurityError::FrameTooLong) <==> header.security
            && header.auxiliary_security_header is Some && !spec_secure_len_ok(*header),
        r == Err::<(), SecurityError>(SecurityError::CounterError) <==> header.security
            && header.auxiliary_security_header is Some && spec_secure_len_ok(*header)
            && !spec_rx_counter_usable(spec_aux_of(*header)),
        r == Err::<(), SecurityError>(SecurityError::NoSourceAddress) <==> header.security
            && header.auxiliary_security_header is Some && spec_secure_len_ok(*header)
            && spec_rx_counter_usable(spec_aux_of(*header)) && !spec_has_ext_source(*header),
        header.security && header.auxiliary_security_header is Some && spec_secure_len_ok(*header)
            && spec_rx_counter_usable(spec_aux_of(*header)) && spec_has_ext_source(*header)
            && old(payload)@.len() < spec_auth_tag_len(spec_aux_of(*header).security_level) ==> r
            == Err::<(), SecurityError>(SecurityError::VerificationFailed),
{
    if !header.security {
        if matches!(&header.auxiliary_security_header, Option::Some(_)) {
            return Err(SecurityError::SecurityNotEnabled);
        }
        return Ok(());
    }
    let aux = match &header.auxiliary_security_header {
        Option::Some(a) => a,
        Option::None => {
            return Err(SecurityError::AuxSecHeaderAbsent);
        },
    };
    let atl = auth_tag_len(&aux.security_level);
    let aux_len = aux.get_octet_size();
    proof {
        lemma_encode_aux_len(*aux);
        assert(spec_auth_tag_len(aux.security_level) <= 16);
    }
    if atl + aux_len + 2 > 127 {
        return Err(SecurityError::FrameTooLong);
    }
    let counter: u32 = match &aux.frame_counter {
        Option::Some(c) => {
            if *c == 0xffffffff {
                return Err(SecurityError::CounterError);
            }
            *c
        },
        Option::None => {
            return Err(SecurityError::CounterError);
        },
    };
    let src_addr: u64 = match &header.source {
        Option::Some(Address::Extended(_, ea)) => ea.0,
        _ => {
            return Err(SecurityError::NoSourceAddress);
        },
    };
    if payload.len() < atl {
        return Err(SecurityError::VerificationFailed);
    }
    let key = match ctx.key_provider.lookup_key(
        KeyAddressMode::DstAddrMode,
        aux.key_identifier,
        header.destination,
    ) {
        Option::Some(k) => k,
        Option::None => {
            return Err(SecurityError::UnavailableKey);
        },
    };
    let cipher = match A::new_from_slice(key.key.as_slice()) {
        Ok(c) => c,
        Err(_) => {
            return Err(SecurityError::KeyFailure);
        },
    };
    let nonce = derive_nonce(src_addr, counter, &aux.security_level);
    let ct_len = payload.len() - atl;
    let mut work: Vec<u8> = slice_to_vec(slice_subrange(payload.as_slice(), 0, ct_len));
    let tag = slice_subrange(payload.as_slice(), ct_len, payload.len());
    if level_encrypts(&aux.security_level) {
        let empty_aad: Vec<u8> = Vec::new();
        match cipher.decrypt_in_place_detached(
            nonce.as_slice(),
            empty_aad.as_slice(),
            &mut work,
            tag,
        ) {
            Ok(_) => {},
            Err(_) => {
                return Err(SecurityError::VerificationFailed);
            },
        }
    } else {
        let mut empty_buf: Vec<u8> = Vec::new();
        match cipher.decrypt_in_place_detached(
            nonce.as_slice(),
            work.as_slice(),
            &mut empty_buf,
            tag,
        ) {
            Ok(_) => {},
            Err(_) => {
                return Err(SecurityError::VerificationFailed);
            },
        }
    }
    *payload = work;
    Ok(())
}

} // verus!
