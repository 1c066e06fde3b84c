//! The details of a key that is about to be made, and their certification.
//!
//! Certifying turns the identities of a key into signed identities. The
//! primary user id is certified with the hashed subpackets primary marker,
//! creation time, key flags, the three preference lists and, when there is
//! one, the revocation key. Every other user id and every user attribute is
//! certified with creation time, key flags and the preference lists. Each
//! certification is generic, is hashed with SHA-256 and names its issuer by
//! key id and fingerprint in the unhashed subpackets.

use crate::composed::shared::{SignedKeyDetails, SignedKeyDetailsView};
use crate::crypto::hash::HashAlgorithm;
use crate::crypto::public_key::PublicKeyAlgorithm;
use crate::crypto::sym::SymmetricKeyAlgorithm;
use crate::errors::Error;
use crate::packet::signature::{
    can_sign_certificate, has_critical_unknown, lemma_fresh_certification_verifies,
    PendingSignature, SignatureConfig, SignatureConfigView, SignatureType, SignatureVersion,
};
use crate::packet::subpacket::{subpackets_view, Subpacket, SubpacketView};
use crate::packet::user_attribute::{UserAttribute, UserAttributeView};
use crate::packet::user_id::{UserId, UserIdView};
use crate::types::compression::CompressionAlgorithm;
use crate::types::key_flags::KeyFlags;
use crate::types::key_id::KeyId;
use crate::types::key_traits::SecretKeyTrait;
use crate::types::revocation_key::{RevocationKey, RevocationKeyView};
use crate::types::tag::Tag;
use crate::types::user::{SignedUser, SignedUserAttribute};
use vstd::prelude::*;
use vstd::slice::slice_to_vec;

verus! {

/// What is chosen for a new key before it is certified.
#[derive(Debug, PartialEq, Eq)]
pub struct KeyDetails {
    primary_user_id: UserId,
    user_ids: Vec<UserId>,
    user_attributes: Vec<UserAttribute>,
    keyflags: KeyFlags,
    preferred_symmetric_algorithms: Vec<SymmetricKeyAlgorithm>,
    preferred_hash_algorithms: Vec<HashAlgorithm>,
    preferred_compression_algorithms: Vec<CompressionAlgorithm>,
    revocation_key: Option<RevocationKey>,
}

/// The mathematical content of a [`KeyDetails`].
pub ghost struct KeyDetailsView {
    pub primary_user_id: UserIdView,
    pub user_ids: Seq<UserIdView>,
    pub user_attributes: Seq<UserAttributeView>,
    pub keyflags: KeyFlags,
    pub preferred_symmetric_algorithms: Seq<SymmetricKeyAlgorithm>,
    pub preferred_hash_algorithms: Seq<HashAlgorithm>,
    pub preferred_compression_algorithms: Seq<CompressionAlgorithm>,
    pub revocation_key: Option<RevocationKeyView>,
}

/// The views of a list of user ids, in order.
pub open spec fn user_ids_view(list: Seq<UserId>) -> Seq<UserIdView> {
    list.map_values(|u: UserId| u@)
}

/// The views of a list of user attributes, in order.
pub open spec fn user_attributes_view(list: Seq<UserAttribute>) -> Seq<UserAttributeView> {
    list.map_values(|u: UserAttribute| u@)
}

/// The view of an optional revocation key.
pub open spec fn revocation_key_view(key: Option<RevocationKey>) -> Option<RevocationKeyView> {
    match key {
        Some(k) => Some(k@),
        None => None,
    }
}

impl View for KeyDetails {
    type V = KeyDetailsView;

    closed spec fn view(&self) -> KeyDetailsView {
        KeyDetailsView {
            primary_user_id: self.primary_user_id@,
            user_ids: user_ids_view(self.user_ids@),
            user_attributes: user_attributes_view(self.user_attributes@),
            keyflags: self.keyflags,
            preferred_symmetric_algorithms: self.preferred_symmetric_algorithms@,
            preferred_hash_algorithms: self.preferred_hash_algorithms@,
            preferred_compression_algorithms: self.preferred_compression_algorithms@,
            revocation_key: revocation_key_view(self.revocation_key),
        }
    }
}

/// The signing key as the certifier sees it: the body of its public-key
/// packet, its algorithm, its key id and its fingerprint.
pub ghost struct SignerView {
    pub key_body: Seq<u8>,
    pub algorithm: PublicKeyAlgorithm,
    pub key_id: Seq<u8>,
    pub fingerprint: Seq<u8>,
}

/// What the certifier takes from the signing key before it starts: the body
/// of its public-key packet, its algorithm, its key id and its fingerprint.
pub struct Signer {
    pub key_body: Vec<u8>,
    pub algorithm: PublicKeyAlgorithm,
    pub key_id: KeyId,
    pub fingerprint: Vec<u8>,
}

impl View for Signer {
    type V = SignerView;

    open spec fn view(&self) -> SignerView {
        SignerView {
            key_body: self.key_body@,
            algorithm: self.algorithm,
            key_id: self.key_id@,
            fingerprint: self.fingerprint@,
        }
    }
}

impl Signer {
    /// Asks `key` for what the certifier needs of it; `None` when the key has
    /// no key id. What the answers become is stated by
    /// [`Signer::from_answers`].
    pub fn of<K: SecretKeyTrait>(key: &K) -> Option<Signer> {
        Signer::from_answers(key.key_id(), key.packet_body(), key.algorithm(), key.fingerprint())
    }

    /// The signer that the answers of a key make: none without a key id,
    /// otherwise the four answers as they are.
    pub fn from_answers(
        key_id: Option<KeyId>,
        key_body: Vec<u8>,
        algorithm: PublicKeyAlgorithm,
        fingerprint: Vec<u8>,
    ) -> (r: Option<Signer>)
        ensures
            r == match key_id {
                Some(id) => Some(Signer { key_body, algorithm, key_id: id, fingerprint }),
                None => None,
            },
    {
        match key_id {
            Some(id) => Some(Signer { key_body, algorithm, key_id: id, fingerprint }),
            None => None,
        }
    }
}

impl KeyDetailsView {
    /// The hashed subpackets that every certification of these details
    /// carries: creation time, key flags and the three preference lists.
    pub open spec fn common_hashed(self, now: u32) -> Seq<SubpacketView> {
        seq![
            SubpacketView::SignatureCreationTime(now),
            SubpacketView::KeyFlags(self.keyflags.to_bytes_spec()),
            SubpacketView::PreferredSymmetricAlgorithms(self.preferred_symmetric_algorithms),
            SubpacketView::PreferredHashAlgorithms(self.preferred_hash_algorithms),
            SubpacketView::PreferredCompressionAlgorithms(self.preferred_compression_algorithms),
        ]
    }

    /// The hashed subpackets of the certification of the primary user id: the
    /// primary marker, the common ones and, when there is one, the
    /// revocation key.
    pub open spec fn primary_hashed(self, now: u32) -> Seq<SubpacketView> {
        seq![SubpacketView::IsPrimary(true)] + self.common_hashed(now) + (match self.revocation_key {
            Some(k) => seq![SubpacketView::RevocationKey(k)],
            None => Seq::empty(),
        })
    }

    /// The configuration of the certification of the primary user id.
    pub open spec fn primary_config(self, signer: SignerView, now: u32) -> SignatureConfigView {
        certification_config(signer, self.primary_hashed(now))
    }

    /// The configuration of the certification of every other identity.
    pub open spec fn other_config(self, signer: SignerView, now: u32) -> SignatureConfigView {
        certification_config(signer, self.common_hashed(now))
    }

    /// Whether every identity can be certified: each certification can be
    /// laid out and hashed.
    pub open spec fn signable(self, signer: SignerView, now: u32) -> bool {
        &&& can_sign_certificate(
            self.primary_config(signer, now),
            signer.key_body,
            Tag::UserId,
            self.primary_user_id.id.len() <= u32::MAX,
            self.primary_user_id.id,
        )
        &&& forall|i: int|
            0 <= i < self.user_ids.len() ==> can_sign_certificate(
                self.other_config(signer, now),
                signer.key_body,
                Tag::UserId,
                (#[trigger] self.user_ids[i]).id.len() <= u32::MAX,
                self.user_ids[i].id,
            )
        &&& forall|i: int|
            0 <= i < self.user_attributes.len() ==> can_sign_certificate(
                self.other_config(signer, now),
                signer.key_body,
                Tag::UserAttribute,
                (#[trigger] self.user_attributes[i]).encodable(),
                self.user_attributes[i].serialized(),
            )
    }

    /// Whether `signed` is these details certified by `signer` at the time
    /// `now`: no revocation or direct signatures; the primary user id first,
    /// then the other user ids in their order, then the user attributes in
    /// theirs; on each identity exactly one signature, the certification of
    /// that identity under its configuration.
    pub open spec fn certified_as(
        self,
        signed: SignedKeyDetailsView,
        signer: SignerView,
        now: u32,
    ) -> bool {
        &&& signed.revocation_signatures.len() == 0
        &&& signed.direct_signatures.len() == 0
        &&& signed.users.len() == 1 + self.user_ids.len()
        &&& signed.users[0].id == self.primary_user_id
        &&& signed.users[0].signatures.len() == 1
        &&& signed.users[0].signatures[0].certifies(
            self.primary_config(signer, now),
            signer.key_body,
            Tag::UserId,
            self.primary_user_id.id,
        )
        &&& forall|i: int|
            0 <= i < self.user_ids.len() ==> {
                &&& (#[trigger] signed.users[i + 1]).id == self.user_ids[i]
                &&& signed.users[i + 1].signatures.len() == 1
                &&& signed.users[i + 1].signatures[0].certifies(
                    self.other_config(signer, now),
                    signer.key_body,
                    Tag::UserId,
                    self.user_ids[i].id,
                )
            }
        &&& signed.user_attributes.len() == self.user_attributes.len()
        &&& forall|i: int|
            0 <= i < self.user_attributes.len() ==> {
                &&& (#[trigger] signed.user_attributes[i]).attr == self.user_attributes[i]
                &&& signed.user_attributes[i].signatures.len() == 1
                &&& signed.user_attributes[i].signatures[0].certifies(
                    self.other_config(signer, now),
                    signer.key_body,
                    Tag::UserAttribute,
                    self.user_attributes[i].serialized(),
                )
            }
    }

    /// Whether `r` is an outcome of certifying these details with `signer` at
    /// the time `now`. Details that cannot be certified are refused as
    /// malformed before the key is asked for anything. Otherwise the outcome
    /// is an error of the key's engine or the certified details.
    pub open spec fn sign_outcome(
        self,
        r: Result<SignedKeyDetails, Error>,
        signer: SignerView,
        now: u32,
    ) -> bool {
        &&& !self.signable(signer, now) ==> r == Err::<SignedKeyDetails, Error>(
            Error::MalformedInput { offset: 0 },
        )
        &&& r matches Ok(signed) ==> self.signable(signer, now) && self.certified_as(
            signed@,
            signer,
            now,
        )
    }

    /// Whether `r` is an outcome of certifying these details at the time
    /// `now` with a key that answers `signer` when it is asked who it is;
    /// `None` stands for a key without a key id, which is refused with
    /// [`Error::Internal`]. With a signer the outcome is that of
    /// [`KeyDetailsView::sign_outcome`].
    pub open spec fn key_outcome(
        self,
        r: Result<SignedKeyDetails, Error>,
        signer: Option<SignerView>,
        now: u32,
    ) -> bool {
        match signer {
            Some(s) => self.sign_outcome(r, s, now),
            None => r == Err::<SignedKeyDetails, Error>(Error::Internal),
        }
    }
}

/// The configuration of a certification by `signer` with the hashed
/// subpackets `hashed`: generic certification, SHA-256, issuer key id and
/// issuer fingerprint unhashed.
pub open spec fn certification_config(signer: SignerView, hashed: Seq<SubpacketView>) -> SignatureConfigView {
    SignatureConfigView {
        version: SignatureVersion::V4,
        typ: SignatureType::CertGeneric,
        pub_alg: signer.algorithm,
        hash_alg: HashAlgorithm::SHA256,
        created: None,
        issuer: None,
        unhashed: seq![
            SubpacketView::Issuer(signer.key_id),
            SubpacketView::IssuerFingerprint(signer.fingerprint),
        ],
        hashed,
    }
}

/// The outcome of verification that rests on the engine alone.
pub open spec fn engine_verdict(engine_accepts: bool) -> Result<(), Error> {
    if engine_accepts {
        Ok(())
    } else {
        Err(Error::VerificationFailed)
    }
}

/// Newly certified details verify themselves: every certification that was
/// made passes the verifier's own checks on the octets that the verifier
/// rebuilds, so that the outcome of verifying it is the verdict of the key's
/// engine on the digest that was signed.
pub proof fn lemma_certified_details_self_verify(
    d: KeyDetailsView,
    signed: SignedKeyDetailsView,
    signer: SignerView,
    now: u32,
    engine_accepts: bool,
)
    requires
        d.signable(signer, now),
        d.certified_as(signed, signer, now),
    ensures
        forall|i: int|
            0 <= i < signed.users.len() ==> (#[trigger] signed.users[i]).signatures[0].verification(
                signer.key_body,
                Tag::UserId,
                Some(signed.users[i].id.id),
                engine_accepts,
            ) == engine_verdict(engine_accepts),
        forall|i: int|
            0 <= i < signed.user_attributes.len() ==> (
            #[trigger] signed.user_attributes[i]).signatures[0].verification(
                signer.key_body,
                Tag::UserAttribute,
                Some(signed.user_attributes[i].attr.serialized()),
                engine_accepts,
            ) == engine_verdict(engine_accepts),
{
    let primary = d.primary_config(signer, now);
    let other = d.other_config(signer, now);
    assert(!has_critical_unknown(primary.hashed)) by {
        assert forall|k: int| 0 <= k < primary.hashed.len() implies !(
        #[trigger] primary.hashed[k]).is_critical() by {}
    }
    assert(!has_critical_unknown(other.hashed)) by {
        assert forall|k: int| 0 <= k < other.hashed.len() implies !(
        #[trigger] other.hashed[k]).is_critical() by {}
    }
    assert forall|i: int| 0 <= i < signed.users.len() implies (
    #[trigger] signed.users[i]).signatures[0].verification(
        signer.key_body,
        Tag::UserId,
        Some(signed.users[i].id.id),
        engine_accepts,
    ) == engine_verdict(engine_accepts) by {
        if i == 0 {
            lemma_fresh_certification_verifies(
                signed.users[0].signatures[0],
                primary,
                signer.key_body,
                Tag::UserId,
                d.primary_user_id.id,
                engine_accepts,
            );
        } else {
            let j = i - 1;
            assert(signed.users[j + 1].id == d.user_ids[j]);
            lemma_fresh_certification_verifies(
                signed.users[j + 1].signatures[0],
                other,
                signer.key_body,
                Tag::UserId,
                d.user_ids[j].id,
                engine_accepts,
            );
        }
    }
    assert forall|i: int| 0 <= i < signed.user_attributes.len() implies (
    #[trigger] signed.user_attributes[i]).signatures[0].verification(
        signer.key_body,
        Tag::UserAttribute,
        Some(signed.user_attributes[i].attr.serialized()),
        engine_accepts,
    ) == engine_verdict(engine_accepts) by {
        assert(signed.user_attributes[i].attr == d.user_attributes[i]);
        lemma_fresh_certification_verifies(
            signed.user_attributes[i].signatures[0],
            other,
            signer.key_body,
            Tag::UserAttribute,
            d.user_attributes[i].serialized(),
            engine_accepts,
        );
    }
}

/// Trusted: `chrono::Utc::now` reads the system clock and
/// `DateTime::timestamp` gives its whole seconds since the Unix epoch. The
/// value is not a function of anything the caller holds, so nothing is
/// claimed of it. `Utc::now` does not return on a clock set before the epoch.
#[verifier::external_body]
fn unix_time_now() -> i64 {
    chrono::Utc::now().timestamp()
}

/// A copy of a list of plain values.
fn copy_list<T: Copy>(list: &Vec<T>) -> (r: Vec<T>)
    ensures
        r@ == list@,
{
    let mut r: Vec<T> = Vec::new();
    let mut i: usize = 0;
    while i < list.len()
        invariant
            i <= list.len(),
            r@ == list@.take(i as int),
        decreases list.len() - i,
    {
        r.push(list[i]);
        i += 1;
        assert(r@ =~= list@.take(i as int));
    }
    assert(list@.take(list@.len() as int) =~= list@);
    r
}

/// The parts of the details that every certification repeats, and the signer.
struct Certifier {
    now: u32,
    keyflags: Vec<u8>,
    preferred_symmetric_algorithms: Vec<SymmetricKeyAlgorithm>,
    preferred_hash_algorithms: Vec<HashAlgorithm>,
    preferred_compression_algorithms: Vec<CompressionAlgorithm>,
    revocation_key: Option<RevocationKey>,
    algorithm: PublicKeyAlgorithm,
    key_id: KeyId,
    fingerprint: Vec<u8>,
    key_body: Vec<u8>,
}

impl Certifier {
    /// Whether the certifier holds the repeated parts of `d` and the signer
    /// `signer`.
    spec fn holds(&self, d: KeyDetailsView, signer: SignerView) -> bool {
        &&& self.keyflags@ == d.keyflags.to_bytes_spec()
        &&& self.preferred_symmetric_algorithms@ == d.preferred_symmetric_algorithms
        &&& self.preferred_hash_algorithms@ == d.preferred_hash_algorithms
        &&& self.preferred_compression_algorithms@ == d.preferred_compression_algorithms
        &&& revocation_key_view(self.revocation_key) == d.revocation_key
        &&& self.algorithm == signer.algorithm
        &&& self.key_id@ == signer.key_id
        &&& self.fingerprint@ == signer.fingerprint
        &&& self.key_body@ == signer.key_body
    }

    /// The configuration of the certification of the primary user id, or of
    /// any other identity.
    fn config(&self, primary: bool, Ghost(d): Ghost<KeyDetailsView>, Ghost(signer): Ghost<SignerView>) -> (r:
        SignatureConfig)
        requires
            self.holds(d, signer),
        ensures
            r@ == (if primary {
                d.primary_config(signer, self.now)
            } else {
                d.other_config(signer, self.now)
            }),
    {
        let mut hashed: Vec<Subpacket> = Vec::new();
        if primary {
            hashed.push(Subpacket::IsPrimary(true));
        }
        hashed.push(Subpacket::SignatureCreationTime(self.now));
        hashed.push(Subpacket::KeyFlags(slice_to_vec(self.keyflags.as_slice())));
        hashed.push(
            Subpacket::PreferredSymmetricAlgorithms(copy_list(&self.preferred_symmetric_algorithms)),
        );
        hashed.push(Subpacket::PreferredHashAlgorithms(copy_list(&self.preferred_hash_algorithms)));
        hashed.push(
            Subpacket::PreferredCompressionAlgorithms(
                copy_list(&self.preferred_compression_algorithms),
            ),
        );
        if primary {
            if let Some(rkey) = self.revocation_key {
                hashed.push(Subpacket::RevocationKey(rkey));
            }
        }
        let mut unhashed: Vec<Subpacket> = Vec::new();
        unhashed.push(Subpacket::Issuer(self.key_id));
        unhashed.push(Subpacket::IssuerFingerprint(slice_to_vec(self.fingerprint.as_slice())));
        proof {
            assert(subpackets_view(unhashed@) =~= seq![
                SubpacketView::Issuer(signer.key_id),
                SubpacketView::IssuerFingerprint(signer.fingerprint),
            ]);
            if primary {
                assert(subpackets_view(hashed@) =~= d.primary_hashed(self.now));
            } else {
                assert(subpackets_view(hashed@) =~= d.common_hashed(self.now));
            }
        }
        SignatureConfig::new_v4(
            SignatureType::CertGeneric,
            self.algorithm,
            HashAlgorithm::SHA256,
            hashed,
            unhashed,
        )
    }
}

/// A user id whose certification waits for the key's signature.
struct PendingUser {
    id: UserId,
    pending: PendingSignature,
}

/// A user attribute whose certification waits for the key's signature.
struct PendingUserAttribute {
    attr: UserAttribute,
    pending: PendingSignature,
}

impl KeyDetails {
    /// Collects the details of a key that is to be made.
    #[allow(clippy::too_many_arguments)]
    pub fn new(
        primary_user_id: UserId,
        user_ids: Vec<UserId>,
        user_attributes: Vec<UserAttribute>,
        keyflags: KeyFlags,
        preferred_symmetric_algorithms: Vec<SymmetricKeyAlgorithm>,
        preferred_hash_algorithms: Vec<HashAlgorithm>,
        preferred_compression_algorithms: Vec<CompressionAlgorithm>,
        revocation_key: Option<RevocationKey>,
    ) -> (r: KeyDetails)
        ensures
            r@ == (KeyDetailsView {
                primary_user_id: primary_user_id@,
                user_ids: user_ids_view(user_ids@),
                user_attributes: user_attributes_view(user_attributes@),
                keyflags,
                preferred_symmetric_algorithms: preferred_symmetric_algorithms@,
                preferred_hash_algorithms: preferred_hash_algorithms@,
                preferred_compression_algorithms: preferred_compression_algorithms@,
                revocation_key: revocation_key_view(revocation_key),
            }),
    {
        KeyDetails {
            primary_user_id,
            user_ids,
            user_attributes,
            keyflags,
            preferred_symmetric_algorithms,
            preferred_hash_algorithms,
            preferred_compression_algorithms,
            revocation_key,
        }
    }

    /// Certifies the identities with `key` at the current time of the system
    /// clock, taken to 32 bits.
    ///
    /// The key is asked for its packet body, algorithm, key id and
    /// fingerprint, and the clock for the time. Whatever they answer, the
    /// outcome is the one that [`KeyDetailsView::key_outcome`] states for
    /// those answers: a key without a key id is refused with
    /// [`Error::Internal`], details that cannot be certified are refused as
    /// malformed, and details that come back certified are certified as
    /// [`KeyDetails::sign_with`] states it.
    pub fn sign<K: SecretKeyTrait, F>(self, key: &K, key_pw: F) -> (r: Result<
        SignedKeyDetails,
        Error,
    >) where F: (FnOnce() -> String) + Clone
        ensures
            exists|signer: Option<SignerView>, now: u32| #[trigger]
                self@.key_outcome(r, signer, now),
    {
        let now = #[verifier::truncate] (unix_time_now() as u32);
        let signer = match Signer::of(key) {
            Some(s) => s,
            None => {
                let r = Err(Error::Internal);
                assert(self@.key_outcome(r, None, now));
                return r;
            },
        };
        let ghost sv = signer@;
        let r = self.sign_with(key, key_pw, signer, now);
        assert(self@.key_outcome(r, Some(sv), now));
        r
    }

    /// Certifies the identities with `key`, with `now` as the creation time
    /// of every certification.
    ///
    /// The key is asked for its packet body, algorithm, key id and
    /// fingerprint. Whatever it answers, the outcome is the one that
    /// [`KeyDetailsView::key_outcome`] states for those answers: a key
    /// without a key id is refused with [`Error::Internal`], details that
    /// cannot be certified are refused as malformed, and details that come
    /// back certified are certified as [`KeyDetails::sign_with`] states it.
    pub fn sign_at<K: SecretKeyTrait, F>(self, key: &K, key_pw: F, now: u32) -> (r: Result<
        SignedKeyDetails,
        Error,
    >) where F: (FnOnce() -> String) + Clone
        ensures
            exists|signer: Option<SignerView>| #[trigger] self@.key_outcome(r, signer, now),
    {
        let signer = match Signer::of(key) {
            Some(s) => s,
            None => {
                let r = Err(Error::Internal);
                assert(self@.key_outcome(r, None, now));
                return r;
            },
        };
        let ghost sv = signer@;
        let r = self.sign_with(key, key_pw, signer, now);
        assert(self@.key_outcome(r, Some(sv), now));
        r
    }

    /// Certifies the identities for the signer `signer`, with `now` as the
    /// creation time of every certification. Every certification is laid out
    /// and hashed first; then `key` is asked to sign each digest, in the
    /// order of the identities, and gets the password callback with each.
    ///
    /// Details that cannot be certified are refused as malformed before the
    /// key is asked. Otherwise the outcome is the first error of the key or
    /// the certified details.
    #[verifier::loop_isolation(false)]
    pub fn sign_with<K: SecretKeyTrait, F>(
        self,
        key: &K,
        key_pw: F,
        signer: Signer,
        now: u32,
    ) -> (r: Result<SignedKeyDetails, Error>) where F: (FnOnce() -> String) + Clone
        ensures
            self@.sign_outcome(r, signer@, now),
    {
        let ghost d = self@;
        let KeyDetails {
            primary_user_id,
            user_ids,
            user_attributes,
            keyflags,
            preferred_symmetric_algorithms,
            preferred_hash_algorithms,
            preferred_compression_algorithms,
            revocation_key,
        } = self;
        let Signer { key_body, algorithm, key_id, fingerprint } = signer;
        let ghost signer = SignerView {
            key_body: key_body@,
            algorithm,
            key_id: key_id@,
            fingerprint: fingerprint@,
        };
        let certifier = Certifier {
            now,
            keyflags: keyflags.to_bytes(),
            preferred_symmetric_algorithms,
            preferred_hash_algorithms,
            preferred_compression_algorithms,
            revocation_key,
            algorithm,
            key_id,
            fingerprint,
            key_body,
        };
        assert(certifier.holds(d, signer));

        // Lay out and hash every certification before the key is asked.
        let primary_pending = match certifier.config(
            true,
            Ghost(d),
            Ghost(signer),
        ).prepare_certificate(certifier.key_body.as_slice(), Tag::UserId, &primary_user_id) {
            Ok(p) => p,
            Err(e) => {
                return Err(e);
            },
        };
        let mut pending_users: Vec<PendingUser> = Vec::new();
        for id in it: user_ids
            invariant
                certifier.holds(d, signer),
                certifier.now == now,
                d.user_ids == user_ids_view(it.seq()),
                pending_users@.len() == it.index(),
                forall|j: int|
                    0 <= j < pending_users@.len() ==> {
                        &&& (#[trigger] pending_users@[j]).id@ == d.user_ids[j]
                        &&& pending_users@[j].pending.prepared(
                            d.other_config(signer, now),
                            signer.key_body,
                            Tag::UserId,
                            d.user_ids[j].id,
                        )
                        &&& can_sign_certificate(
                            d.other_config(signer, now),
                            signer.key_body,
                            Tag::UserId,
                            d.user_ids[j].id.len() <= u32::MAX,
                            d.user_ids[j].id,
                        )
                    },
        {
            assert(d.user_ids[it.index() as int] == id@);
            match certifier.config(false, Ghost(d), Ghost(signer)).prepare_certificate(
                certifier.key_body.as_slice(),
                Tag::UserId,
                &id,
            ) {
                Ok(pending) => pending_users.push(PendingUser { id, pending }),
                Err(e) => {
                    return Err(e);
                },
            }
        }
        let mut pending_attributes: Vec<PendingUserAttribute> = Vec::new();
        for attr in it: user_attributes
            invariant
                certifier.holds(d, signer),
                certifier.now == now,
                d.user_attributes == user_attributes_view(it.seq()),
                pending_attributes@.len() == it.index(),
                forall|j: int|
                    0 <= j < pending_attributes@.len() ==> {
                        &&& (#[trigger] pending_attributes@[j]).attr@ == d.user_attributes[j]
                        &&& pending_attributes@[j].pending.prepared(
                            d.other_config(signer, now),
                            signer.key_body,
                            Tag::UserAttribute,
                            d.user_attributes[j].serialized(),
                        )
                        &&& can_sign_certificate(
                            d.other_config(signer, now),
                            signer.key_body,
                            Tag::UserAttribute,
                            d.user_attributes[j].encodable(),
                            d.user_attributes[j].serialized(),
                        )
                    },
        {
            assert(d.user_attributes[it.index() as int] == attr@);
            match certifier.config(false, Ghost(d), Ghost(signer)).prepare_certificate(
                certifier.key_body.as_slice(),
                Tag::UserAttribute,
                &attr,
            ) {
                Ok(pending) => pending_attributes.push(PendingUserAttribute { attr, pending }),
                Err(e) => {
                    return Err(e);
                },
            }
        }
        proof {
            assert(d.user_ids.len() == pending_users@.len());
            assert(d.user_attributes.len() == pending_attributes@.len());
            assert forall|i: int| 0 <= i < d.user_ids.len() implies can_sign_certificate(
                d.other_config(signer, now),
                signer.key_body,
                Tag::UserId,
                (#[trigger] d.user_ids[i]).id.len() <= u32::MAX,
                d.user_ids[i].id,
            ) by {
                assert(pending_users@[i].id@ == d.user_ids[i]);
            }
            assert forall|i: int| 0 <= i < d.user_attributes.len() implies can_sign_certificate(
                d.other_config(signer, now),
                signer.key_body,
                Tag::UserAttribute,
                (#[trigger] d.user_attributes[i]).encodable(),
                d.user_attributes[i].serialized(),
            ) by {
                assert(pending_attributes@[i].attr@ == d.user_attributes[i]);
            }
            assert(can_sign_certificate(
                d.primary_config(signer, now),
                signer.key_body,
                Tag::UserId,
                d.primary_user_id.id.len() <= u32::MAX,
                d.primary_user_id.id,
            ));
        }
        assert(d.signable(signer, now));

        // Have the key sign each digest, in the order of the identities.
        let mut users: Vec<SignedUser> = Vec::new();
        let raw = match key.create_signature(
            key_pw.clone(),
            HashAlgorithm::SHA256,
            primary_pending.digest(),
        ) {
            Ok(s) => s,
            Err(e) => {
                return Err(e);
            },
        };
        users.push(primary_user_id.into_signed(primary_pending.complete(raw)));
        for p in it: pending_users
            invariant
                d.signable(signer, now),
                d.user_ids.len() == it.seq().len(),
                forall|j: int|
                    0 <= j < it.seq().len() ==> {
                        &&& (#[trigger] it.seq()[j]).id@ == d.user_ids[j]
                        &&& it.seq()[j].pending.prepared(
                            d.other_config(signer, now),
                            signer.key_body,
                            Tag::UserId,
                            d.user_ids[j].id,
                        )
                    },
                users@.len() == 1 + it.index(),
                users@[0]@.id == d.primary_user_id,
                users@[0]@.signatures.len() == 1,
                users@[0]@.signatures[0].certifies(
                    d.primary_config(signer, now),
                    signer.key_body,
                    Tag::UserId,
                    d.primary_user_id.id,
                ),
                forall|j: int|
                    0 <= j < it.index() ==> {
                        &&& (#[trigger] users@[j + 1])@.id == d.user_ids[j]
                        &&& users@[j + 1]@.signatures.len() == 1
                        &&& users@[j + 1]@.signatures[0].certifies(
                            d.other_config(signer, now),
                            signer.key_body,
                            Tag::UserId,
                            d.user_ids[j].id,
                        )
                    },
        {
            let ghost k = it.index() as int;
            assert(it.seq()[k] == p);
            let raw = match key.create_signature(
                key_pw.clone(),
                HashAlgorithm::SHA256,
                p.pending.digest(),
            ) {
                Ok(s) => s,
                Err(e) => {
                    return Err(e);
                },
            };
            let PendingUser { id, pending } = p;
            let signed = id.into_signed(pending.complete(raw));
            users.push(signed);
        }
        let mut attributes: Vec<SignedUserAttribute> = Vec::new();
        for p in it: pending_attributes
            invariant
                d.user_attributes.len() == it.seq().len(),
                forall|j: int|
                    0 <= j < it.seq().len() ==> {
                        &&& (#[trigger] it.seq()[j]).attr@ == d.user_attributes[j]
                        &&& it.seq()[j].pending.prepared(
                            d.other_config(signer, now),
                            signer.key_body,
                            Tag::UserAttribute,
                            d.user_attributes[j].serialized(),
                        )
                    },
                attributes@.len() == it.index(),
                forall|j: int|
                    0 <= j < it.index() ==> {
                        &&& (#[trigger] attributes@[j])@.attr == d.user_attributes[j]
                        &&& attributes@[j]@.signatures.len() == 1
                        &&& attributes@[j]@.signatures[0].certifies(
                            d.other_config(signer, now),
                            signer.key_body,
                            Tag::UserAttribute,
                            d.user_attributes[j].serialized(),
                        )
                    },
        {
            let ghost k = it.index() as int;
            assert(it.seq()[k] == p);
            let raw = match key.create_signature(
                key_pw.clone(),
                HashAlgorithm::SHA256,
                p.pending.digest(),
            ) {
                Ok(s) => s,
                Err(e) => {
                    return Err(e);
                },
            };
            let PendingUserAttribute { attr, pending } = p;
            let signed = attr.into_signed(pending.complete(raw));
            attributes.push(signed);
        }
        let signed = SignedKeyDetails::new(Vec::new(), Vec::new(), users, attributes);
        proof {
            let s = signed@;
            assert(s.users.len() == 1 + d.user_ids.len());
            assert(s.users[0] == users@[0]@);
            assert forall|i: int| 0 <= i < d.user_ids.len() implies {
                &&& (#[trigger] s.users[i + 1]).id == d.user_ids[i]
                &&& s.users[i + 1].signatures.len() == 1
                &&& s.users[i + 1].signatures[0].certifies(
                    d.other_config(signer, now),
                    signer.key_body,
                    Tag::UserId,
                    d.user_ids[i].id,
                )
            } by {
                assert(s.users[i + 1] == users@[i + 1]@);
            }
            assert forall|i: int| 0 <= i < d.user_attributes.len() implies {
                &&& (#[trigger] s.user_attributes[i]).attr == d.user_attributes[i]
                &&& s.user_attributes[i].signatures.len() == 1
                &&& s.user_attributes[i].signatures[0].certifies(
                    d.other_config(signer, now),
                    signer.key_body,
                    Tag::UserAttribute,
                    d.user_attributes[i].serialized(),
                )
            } by {
                assert(s.user_attributes[i] == attributes@[i]@);
            }
        }
        Ok(signed)
    }
}

} // verus!
