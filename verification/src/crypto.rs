//! Blinding factors and Pedersen commitments over the Ristretto group.
//!
//! Both are held as their canonical 32-byte encodings, so that contracts can
//! speak of them as plain byte sequences. The group arithmetic itself is done
//! by `tari_crypto`; the functions that call it are the private wrappers at the
//! end of this file, whose contracts are believed and not proved.

use tari_crypto::commitment::HomomorphicCommitmentFactory;
use tari_crypto::ristretto::pedersen::commitment_factory::PedersenCommitmentFactory;
use tari_crypto::ristretto::pedersen::PedersenCommitment;
use tari_crypto::ristretto::RistrettoSecretKey;
use tari_crypto::tari_utilities::ByteArray;
use vstd::prelude::*;

verus! {

/// The order of the Ristretto group: 2^252 + 27742317777372353535851937790883648493.
pub open spec fn group_order() -> nat {
    7237005577332262213973186563042994240857116359379907606001950938285454250989nat
}

/// The number that a byte sequence encodes in little-endian order.
pub open spec fn le_value(bytes: Seq<u8>) -> nat
    decreases bytes.len(),
{
    if bytes.len() == 0 {
        0
    } else {
        bytes[0] as nat + 256 * le_value(bytes.drop_first())
    }
}

/// The first `len` bytes of the little-endian encoding of `value`.
pub open spec fn le_bytes(value: nat, len: nat) -> Seq<u8>
    decreases len,
{
    if len == 0 {
        Seq::empty()
    } else {
        seq![(value % 256) as u8] + le_bytes(value / 256, (len - 1) as nat)
    }
}

/// 256 to the power `n`.
pub open spec fn pow256(n: nat) -> nat
    decreases n,
{
    if n == 0 {
        1
    } else {
        256 * pow256((n - 1) as nat)
    }
}

/// The encoding of zero is a sequence of zero bytes, which denotes zero.
pub proof fn lemma_le_bytes_zero(len: nat)
    ensures
        le_bytes(0, len).len() == len,
        le_value(le_bytes(0, len)) == 0,
    decreases len,
{
    if len > 0 {
        lemma_le_bytes_zero((len - 1) as nat);
        let rest = le_bytes(0, (len - 1) as nat);
        assert(le_bytes(0, len).drop_first() =~= rest);
    }
}

/// Decoding undoes encoding, for a value that fits into the first `k` of `len` bytes.
pub proof fn lemma_le_value_of_le_bytes(value: nat, k: nat, len: nat)
    requires
        value < pow256(k),
        k <= len,
    ensures
        le_bytes(value, len).len() == len,
        le_value(le_bytes(value, len)) == value,
    decreases k,
{
    if k == 0 {
        lemma_le_bytes_zero(len);
    } else {
        let rest = le_bytes(value / 256, (len - 1) as nat);
        lemma_le_value_of_le_bytes(value / 256, (k - 1) as nat, (len - 1) as nat);
        assert(le_bytes(value, len).drop_first() =~= rest);
    }
}

/// Encoding undoes decoding.
pub proof fn lemma_le_bytes_of_le_value(bytes: Seq<u8>)
    ensures
        le_bytes(le_value(bytes), bytes.len()) == bytes,
    decreases bytes.len(),
{
    if bytes.len() == 0 {
        assert(le_bytes(le_value(bytes), bytes.len()) =~= bytes);
    } else {
        let rest = bytes.drop_first();
        lemma_le_bytes_of_le_value(rest);
        let value = le_value(bytes);
        assert(value == bytes[0] as nat + 256 * le_value(rest));
        assert(value % 256 == bytes[0] as nat && value / 256 == le_value(rest)) by (nonlinear_arith)
            requires
                value == bytes[0] as nat + 256 * le_value(rest),
                bytes[0] < 256,
        ;
        assert(le_bytes(value, bytes.len()) =~= seq![bytes[0]] + rest);
        assert(seq![bytes[0]] + rest =~= bytes);
    }
}

/// Whether `bytes` is the encoding of some element of the Ristretto group, as
/// decided by decoding it as a Pedersen commitment.
pub uninterp spec fn is_commitment_encoding(bytes: Seq<u8>) -> bool;

/// The encoding of the commitment `k.G + v.H` over the standard generators,
/// for the scalars encoded by `k` and `v`.
pub uninterp spec fn pedersen_commitment(k: Seq<u8>, v: Seq<u8>) -> Seq<u8>;

/// The encoding of the group sum of the two elements encoded by `a` and `b`.
pub uninterp spec fn commitment_sum(a: Seq<u8>, b: Seq<u8>) -> Seq<u8>;

/// The encoding of the identity of the group: 32 zero bytes.
pub open spec fn identity_encoding() -> Seq<u8> {
    le_bytes(0, 32)
}

/// The encoding of the group sum of all the elements encoded in `items`:
/// beginning with the identity, each item is added in turn, from the first.
pub open spec fn commitment_total(items: Seq<Seq<u8>>) -> Seq<u8>
    decreases items.len(),
{
    if items.len() == 0 {
        identity_encoding()
    } else {
        commitment_sum(commitment_total(items.drop_last()), items.last())
    }
}

/// A scalar modulo the group order, used to blind a commitment.
#[derive(Clone, Copy, Debug)]
pub struct BlindingFactor {
    bytes: [u8; 32],
}

impl View for BlindingFactor {
    type V = Seq<u8>;

    closed spec fn view(&self) -> Seq<u8> {
        self.bytes@
    }
}

impl BlindingFactor {
    #[verifier::type_invariant]
    spec fn canonical(self) -> bool {
        le_value(self.bytes@) < group_order()
    }

    /// The scalar as a number below the group order.
    pub open spec fn value(&self) -> nat {
        le_value(self@)
    }

    /// The scalar with the given little-endian encoding, if the encoding is
    /// canonical, i.e. denotes a number below the group order.
    pub fn from_bytes(bytes: [u8; 32]) -> (r: Option<BlindingFactor>)
        ensures
            r is Some <==> le_value(bytes@) < group_order(),
            r is Some ==> r->Some_0@ == bytes@,
    {
        if scalar_is_canonical(&bytes) {
            Some(BlindingFactor { bytes })
        } else {
            None
        }
    }

    /// The scalar equal to `v`.
    pub fn from_u64(v: u64) -> (r: BlindingFactor)
        ensures
            r@ == le_bytes(v as nat, 32),
            r.value() == v,
    {
        proof {
            assert(pow256(8) == 0x1_0000_0000_0000_0000) by {
                reveal_with_fuel(pow256, 9);
            }
            lemma_le_value_of_le_bytes(v as nat, 8, 32);
        }
        scalar_from_u64(v)
    }

    /// The little-endian encoding of the scalar, which is always canonical.
    pub fn as_bytes(&self) -> (r: [u8; 32])
        ensures
            r@ == self@,
            le_value(r@) < group_order(),
    {
        proof {
            use_type_invariant(self);
        }
        self.bytes
    }

    /// The sum of the two scalars modulo the group order.
    pub fn add(&self, rhs: &BlindingFactor) -> (r: BlindingFactor)
        ensures
            r.value() == (self.value() + rhs.value()) % group_order(),
            r@ == le_bytes(r.value(), 32),
    {
        let r = scalar_add(self, rhs);
        proof {
            lemma_le_bytes_of_le_value(r@);
        }
        r
    }
}

impl Default for BlindingFactor {
    /// The zero scalar, the identity of addition.
    fn default() -> (r: BlindingFactor)
        ensures
            r@ == le_bytes(0, 32),
            r.value() == 0,
    {
        proof {
            lemma_le_bytes_zero(32);
        }
        scalar_zero()
    }
}

/// A Pedersen commitment: an element of the Ristretto group, held as its
/// canonical encoding.
#[derive(Clone, Copy, Debug)]
pub struct Commitment {
    bytes: [u8; 32],
}

impl View for Commitment {
    type V = Seq<u8>;

    closed spec fn view(&self) -> Seq<u8> {
        self.bytes@
    }
}

impl Commitment {
    #[verifier::type_invariant]
    spec fn decodable(self) -> bool {
        is_commitment_encoding(self.bytes@)
    }

    /// The commitment with the given encoding, if it is the encoding of a
    /// group element.
    pub fn from_bytes(bytes: [u8; 32]) -> (r: Option<Commitment>)
        ensures
            r is Some <==> is_commitment_encoding(bytes@),
            r is Some ==> r->Some_0@ == bytes@,
    {
        if commitment_decodes(&bytes) {
            Some(Commitment { bytes })
        } else {
            None
        }
    }

    /// The encoding of the group element.
    pub fn as_bytes(&self) -> (r: [u8; 32])
        ensures
            r@ == self@,
            is_commitment_encoding(r@),
    {
        proof {
            use_type_invariant(self);
        }
        self.bytes
    }

    /// The group sum of the two commitments.
    pub fn add(&self, rhs: &Commitment) -> (r: Commitment)
        ensures
            r@ == commitment_sum(self@, rhs@),
    {
        commitment_add(self, rhs)
    }

    /// The group sum of all of `items`.
    pub fn sum(items: &Vec<Commitment>) -> (r: Commitment)
        ensures
            r@ == commitment_total(encodings(items@)),
    {
        commitment_sum_all(items)
    }

    /// Whether the two commitments are the same group element, which they are
    /// exactly when their encodings agree.
    pub fn equals(&self, other: &Commitment) -> (r: bool)
        ensures
            r == (self@ == other@),
    {
        let mut i: usize = 0;
        while i < 32
            invariant
                i <= 32,
                forall|j: int| 0 <= j < i ==> self.bytes@[j] == other.bytes@[j],
            decreases 32 - i,
        {
            if self.bytes[i] != other.bytes[i] {
                return false;
            }
            i += 1;
        }
        assert(self.bytes@ =~= other.bytes@);
        true
    }
}

/// The encodings of a sequence of commitments, in the same order.
pub open spec fn encodings(items: Seq<Commitment>) -> Seq<Seq<u8>> {
    Seq::new(items.len(), |i: int| items[i]@)
}

/// Makes commitments over the standard Pedersen generators.
#[derive(Clone, Copy, Debug)]
pub struct CommitmentFactory {}

impl CommitmentFactory {
    /// The commitment to the value scalar `v` under the blinding factor `k`.
    pub fn commit(&self, k: &BlindingFactor, v: &BlindingFactor) -> (c: Commitment)
        ensures
            c@ == pedersen_commitment(k@, v@),
    {
        pedersen_commit(k, v)
    }

    /// The commitment to the integer `value` under the blinding factor `k`:
    /// the commitment to the scalar that equals `value`.
    pub fn commit_value(&self, k: &BlindingFactor, value: u64) -> (c: Commitment)
        ensures
            c@ == pedersen_commitment(k@, le_bytes(value as nat, 32)),
    {
        pedersen_commit_value(k, value)
    }
}

impl Default for CommitmentFactory {
    fn default() -> (r: CommitmentFactory) {
        CommitmentFactory {  }
    }
}

/// The factories of cryptographic values that validation needs.
#[derive(Clone, Copy, Debug)]
pub struct CryptoFactories {
    pub commitment: CommitmentFactory,
}

impl Default for CryptoFactories {
    fn default() -> (r: CryptoFactories) {
        CryptoFactories { commitment: CommitmentFactory {  } }
    }
}

/// The standard Ristretto scalar decoder accepts exactly the canonical
/// encodings: `RistrettoSecretKey::from_canonical_bytes` succeeds on 32 bytes
/// if and only if they denote a number below the group order.
#[verifier::external_body]
fn scalar_is_canonical(bytes: &[u8; 32]) -> (ok: bool)
    ensures
        ok == (le_value(bytes@) < group_order()),
{
    RistrettoSecretKey::from_canonical_bytes(bytes).is_ok()
}

/// `RistrettoSecretKey::default` is the zero scalar, whose encoding is 32
/// zero bytes.
#[verifier::external_body]
fn scalar_zero() -> (r: BlindingFactor)
    ensures
        r@ == le_bytes(0, 32),
{
    let mut bytes = [0u8; 32];
    bytes.copy_from_slice(RistrettoSecretKey::default().as_bytes());
    BlindingFactor { bytes }
}

/// `RistrettoSecretKey::from(u64)` is the scalar with that value: its
/// encoding is the little-endian encoding of the integer, filled up with zero
/// bytes.
#[verifier::external_body]
fn scalar_from_u64(v: u64) -> (r: BlindingFactor)
    ensures
        r@ == le_bytes(v as nat, 32),
{
    let mut bytes = [0u8; 32];
    bytes.copy_from_slice(RistrettoSecretKey::from(v).as_bytes());
    BlindingFactor { bytes }
}

/// Addition of two `RistrettoSecretKey`s is addition modulo the group order.
#[verifier::external_body]
fn scalar_add(a: &BlindingFactor, b: &BlindingFactor) -> (r: BlindingFactor)
    ensures
        le_value(r@) == (le_value(a@) + le_value(b@)) % group_order(),
{
    let x = RistrettoSecretKey::from_canonical_bytes(&a.bytes).unwrap_or_default();
    let y = RistrettoSecretKey::from_canonical_bytes(&b.bytes).unwrap_or_default();
    let mut bytes = [0u8; 32];
    bytes.copy_from_slice((&x + &y).as_bytes());
    BlindingFactor { bytes }
}

/// `PedersenCommitment::from_canonical_bytes` succeeds exactly on the
/// encodings of group elements; `is_commitment_encoding` names its verdict.
#[verifier::external_body]
fn commitment_decodes(bytes: &[u8; 32]) -> (ok: bool)
    ensures
        ok == is_commitment_encoding(bytes@),
{
    PedersenCommitment::from_canonical_bytes(bytes).is_ok()
}

/// `PedersenCommitmentFactory::commit` of the default factory;
/// `pedersen_commitment` names the encoding of what it returns, which is the
/// encoding of a group element.
#[verifier::external_body]
fn pedersen_commit(k: &BlindingFactor, v: &BlindingFactor) -> (c: Commitment)
    ensures
        c@ == pedersen_commitment(k@, v@),
        is_commitment_encoding(c@),
{
    let k = RistrettoSecretKey::from_canonical_bytes(&k.bytes).unwrap_or_default();
    let v = RistrettoSecretKey::from_canonical_bytes(&v.bytes).unwrap_or_default();
    let mut bytes = [0u8; 32];
    bytes.copy_from_slice(PedersenCommitmentFactory::default().commit(&k, &v).as_bytes());
    Commitment { bytes }
}

/// `PedersenCommitmentFactory::commit_value` of the default factory, which
/// commits to the scalar that equals the given integer, as `commit` does.
#[verifier::external_body]
fn pedersen_commit_value(k: &BlindingFactor, value: u64) -> (c: Commitment)
    ensures
        c@ == pedersen_commitment(k@, le_bytes(value as nat, 32)),
        is_commitment_encoding(c@),
{
    let k = RistrettoSecretKey::from_canonical_bytes(&k.bytes).unwrap_or_default();
    let mut bytes = [0u8; 32];
    bytes.copy_from_slice(PedersenCommitmentFactory::default().commit_value(&k, value).as_bytes());
    Commitment { bytes }
}

/// Addition of two `PedersenCommitment`s; `commitment_sum` names the encoding
/// of what it returns, which is the encoding of a group element.
#[verifier::external_body]
fn commitment_add(a: &Commitment, b: &Commitment) -> (r: Commitment)
    ensures
        r@ == commitment_sum(a@, b@),
        is_commitment_encoding(r@),
{
    let x = PedersenCommitment::from_canonical_bytes(&a.bytes).unwrap_or_default();
    let y = PedersenCommitment::from_canonical_bytes(&b.bytes).unwrap_or_default();
    let mut bytes = [0u8; 32];
    bytes.copy_from_slice((&x + &y).as_bytes());
    Commitment { bytes }
}

/// `Sum::sum` for `PedersenCommitment` begins with the identity of the group,
/// whose encoding is 32 zero bytes, and adds each item to it in turn, as the
/// addition of two commitments does: this is what `commitment_total` spells
/// out. The result is the encoding of a group element.
#[verifier::external_body]
fn commitment_sum_all(items: &Vec<Commitment>) -> (r: Commitment)
    ensures
        r@ == commitment_total(encodings(items@)),
        is_commitment_encoding(r@),
{
    let total: PedersenCommitment = items
        .iter()
        .map(|c| PedersenCommitment::from_canonical_bytes(&c.bytes).unwrap_or_default())
        .sum();
    let mut bytes = [0u8; 32];
    bytes.copy_from_slice(total.as_bytes());
    Commitment { bytes }
}

} // verus!
