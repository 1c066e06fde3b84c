//! Verifying the signatures of an assembled key.
//!
//! The assembler attaches every signature that the grammar allows, whether
//! it verifies or not. Verification is a second pass: each signature that
//! names the primary key as its issuer is checked with that key, over the
//! prologue of its place in the tree, and gets a verdict. In lenient mode a
//! signature that fails is flagged invalid and the key is kept; in strict
//! mode the first failure ends the pass with its error.

use crate::composed::signed_key::{fingerprint_of, SignedKey};
use crate::errors::Error;
use crate::packet::key::PublicKeyView;
use crate::packet::signature::{
    binding_prologue_of, has_critical_unknown, key_prologue_of, octets_view, Signature,
    SignatureView,
};
use crate::packet::user_attribute::{UserAttribute, UserAttributeView};
use crate::packet::user_id::{UserId, UserIdView};
use crate::ser::{encoding, to_bytes};
use crate::types::key_traits::PublicKeyTrait;
use crate::types::tag::Tag;
use vstd::prelude::*;

verus! {

/// What verification found of one signature.
#[derive(Debug, Clone, Copy, PartialEq, Eq, Structural)]
pub enum Verdict {
    /// The signature names the primary key as its issuer and verifies.
    Valid,
    /// The signature names the primary key as its issuer and does not verify.
    Invalid,
    /// The signature names another issuer, or none; it was not checked.
    Unverified,
}

/// The verdicts on the signatures of a key, in the order of the tree: one for
/// each direct signature and each revocation of the primary key, and for
/// every user id, user attribute and subkey one for each of its signatures.
#[derive(Debug, Clone, PartialEq, Eq)]
pub struct Verdicts {
    pub revocation_signatures: Vec<Verdict>,
    pub direct_signatures: Vec<Verdict>,
    pub users: Vec<Vec<Verdict>>,
    pub user_attributes: Vec<Vec<Verdict>>,
    pub subkeys: Vec<Vec<Verdict>>,
}

/// The verdict that the outcome of a verification stands for, in the mode
/// `strict`: lenient mode flags a failure, strict mode hands its error on.
pub open spec fn settled(outcome: Result<(), Error>, strict: bool) -> Result<Verdict, Error> {
    match outcome {
        Ok(()) => Ok(Verdict::Valid),
        Err(e) => if strict {
            Err(e)
        } else {
            Ok(Verdict::Invalid)
        },
    }
}

/// Turns the outcome of a verification into a verdict, in the mode `strict`.
pub fn settle(outcome: Result<(), Error>, strict: bool) -> (r: Result<Verdict, Error>)
    ensures
        r == settled(outcome, strict),
{
    match outcome {
        Ok(()) => Ok(Verdict::Valid),
        Err(e) => if strict {
            Err(e)
        } else {
            Ok(Verdict::Invalid)
        },
    }
}

/// What a signature of a key is a signature on, besides the primary key.
pub ghost enum SubjectView {
    /// The primary key alone: direct signatures and revocations.
    Key,
    /// An identity of the kind `tag`, by its encoding if it has one.
    Identity { tag: Tag, body: Option<Seq<u8>> },
    /// A subkey, by the body of its public-key packet if it has one.
    Subkey { body: Option<Seq<u8>> },
}

impl SubjectView {
    /// The outcome of checking `sig` as a signature on this subject, with a
    /// key whose packet body is `key_body` and whose engine answers
    /// `engine_accepts`. A subkey without an encoding cannot be hashed.
    pub open spec fn outcome(
        self,
        sig: SignatureView,
        key_body: Seq<u8>,
        engine_accepts: bool,
    ) -> Result<(), Error> {
        match self {
            SubjectView::Key => sig.verification_over(key_prologue_of(key_body), engine_accepts),
            SubjectView::Identity { tag, body } => sig.verification(
                key_body,
                tag,
                body,
                engine_accepts,
            ),
            SubjectView::Subkey { body: Some(subkey_body) } => sig.verification_over(
                binding_prologue_of(key_body, subkey_body),
                engine_accepts,
            ),
            SubjectView::Subkey { body: None } => Err(Error::MalformedInput { offset: 0 }),
        }
    }
}

/// Whether `sig` is checked in a pass for the key with fingerprint
/// `fingerprint`: it names that key as its issuer.
pub open spec fn checked(sig: SignatureView, fingerprint: Option<Seq<u8>>) -> bool {
    fingerprint matches Some(fp) && sig.issued_by(fp)
}

/// What a pass in the mode `strict` makes of `sig` on `subject`, when the
/// key has the packet body `key_body` and its engine answers
/// `engine_accepts`: a signature of another issuer is left unverified, and
/// one of the key gets what its outcome settles to.
pub open spec fn verdict_of(
    sig: SignatureView,
    subject: SubjectView,
    fingerprint: Option<Seq<u8>>,
    strict: bool,
    key_body: Seq<u8>,
    engine_accepts: bool,
) -> Result<Verdict, Error> {
    if checked(sig, fingerprint) {
        settled(subject.outcome(sig, key_body, engine_accepts), strict)
    } else {
        Ok(Verdict::Unverified)
    }
}

/// Whether `verdict` is what a pass makes of `sig` on `subject` for some
/// answers of the key.
pub open spec fn verdict_fits(
    verdict: Result<Verdict, Error>,
    sig: SignatureView,
    subject: SubjectView,
    fingerprint: Option<Seq<u8>>,
    strict: bool,
) -> bool {
    exists|key_body: Seq<u8>, engine_accepts: bool|
        verdict == #[trigger] verdict_of(
            sig,
            subject,
            fingerprint,
            strict,
            key_body,
            engine_accepts,
        )
}

/// Whether a list of verdicts is what a pass over `sigs` on `subject` can
/// yield: one verdict for each signature, each of them what the pass makes
/// of that signature.
pub open spec fn verdicts_fit(
    verdicts: Seq<Verdict>,
    sigs: Seq<Signature>,
    subject: SubjectView,
    fingerprint: Option<Seq<u8>>,
    strict: bool,
) -> bool {
    &&& verdicts.len() == sigs.len()
    &&& forall|i: int|
        0 <= i < sigs.len() ==> verdict_fits(
            Ok(#[trigger] verdicts[i]),
            sigs[i]@,
            subject,
            fingerprint,
            strict,
        )
}

/// Whether a signature of the list can pass: some answers of the key give it
/// a verdict.
pub open spec fn can_pass(
    sig: SignatureView,
    subject: SubjectView,
    fingerprint: Option<Seq<u8>>,
    strict: bool,
) -> bool {
    exists|verdict: Verdict| #[trigger]
        verdict_fits(Ok(verdict), sig, subject, fingerprint, strict)
}

/// Whether a pass over `sigs` on `subject` can end with the error `e`: one
/// of the signatures fails with it, and those before it can pass.
pub open spec fn pass_fails(
    e: Error,
    sigs: Seq<Signature>,
    subject: SubjectView,
    fingerprint: Option<Seq<u8>>,
    strict: bool,
) -> bool {
    exists|i: int|
        {
            &&& 0 <= i < sigs.len()
            &&& verdict_fits(Err(e), (#[trigger] sigs[i])@, subject, fingerprint, strict)
            &&& forall|j: int|
                0 <= j < i ==> can_pass((#[trigger] sigs[j])@, subject, fingerprint, strict)
        }
}

/// Whether every signature of `sigs` on `subject` can pass.
pub open spec fn list_passes(
    sigs: Seq<Signature>,
    subject: SubjectView,
    fingerprint: Option<Seq<u8>>,
    strict: bool,
) -> bool {
    forall|j: int|
        0 <= j < sigs.len() ==> can_pass((#[trigger] sigs[j])@, subject, fingerprint, strict)
}

/// A list of signatures that got verdicts passed.
pub proof fn lemma_fit_passes(
    verdicts: Seq<Verdict>,
    sigs: Seq<Signature>,
    subject: SubjectView,
    fingerprint: Option<Seq<u8>>,
    strict: bool,
)
    requires
        verdicts_fit(verdicts, sigs, subject, fingerprint, strict),
    ensures
        list_passes(sigs, subject, fingerprint, strict),
{
    assert forall|j: int| 0 <= j < sigs.len() implies can_pass(
        (#[trigger] sigs[j])@,
        subject,
        fingerprint,
        strict,
    ) by {
        assert(verdict_fits(Ok(verdicts[j]), sigs[j]@, subject, fingerprint, strict));
    }
}

/// Verdicts that fit are `Unverified` exactly for the signatures that do not
/// name the key as their issuer, and in strict mode none of them is
/// `Invalid`.
pub proof fn lemma_verdicts_mark_issuers(
    verdicts: Seq<Verdict>,
    sigs: Seq<Signature>,
    subject: SubjectView,
    fingerprint: Option<Seq<u8>>,
    strict: bool,
)
    requires
        verdicts_fit(verdicts, sigs, subject, fingerprint, strict),
    ensures
        verdicts.len() == sigs.len(),
        forall|i: int|
            0 <= i < sigs.len() ==> (#[trigger] verdicts[i] == Verdict::Unverified <==> !checked(
                sigs[i]@,
                fingerprint,
            )),
        strict ==> forall|i: int|
            0 <= i < verdicts.len() ==> #[trigger] verdicts[i] != Verdict::Invalid,
{
    assert forall|i: int| 0 <= i < sigs.len() implies (#[trigger] verdicts[i]
        == Verdict::Unverified <==> !checked(sigs[i]@, fingerprint)) && (strict ==> verdicts[i]
        != Verdict::Invalid) by {
        assert(verdict_fits(Ok(verdicts[i]), sigs[i]@, subject, fingerprint, strict));
    }
}

/// A pass that failed was strict, and the signature that failed names the
/// key as its issuer: lenient passes, and passes over signatures of other
/// issuers, do not fail.
pub proof fn lemma_failure_is_strict(
    e: Error,
    sigs: Seq<Signature>,
    subject: SubjectView,
    fingerprint: Option<Seq<u8>>,
    strict: bool,
)
    requires
        pass_fails(e, sigs, subject, fingerprint, strict),
    ensures
        strict,
        exists|i: int| 0 <= i < sigs.len() && checked((#[trigger] sigs[i])@, fingerprint),
{
    let i = choose|i: int|
        0 <= i < sigs.len() && verdict_fits(
            Err(e),
            (#[trigger] sigs[i])@,
            subject,
            fingerprint,
            strict,
        );
    assert(checked(sigs[i]@, fingerprint));
}

/// A signature of the key with a critical subpacket that the crate does not
/// know cannot pass in strict mode, whatever the key answers, and a lenient
/// pass flags it invalid.
pub proof fn lemma_critical_unknown_never_passes(
    sig: SignatureView,
    subject: SubjectView,
    fingerprint: Option<Seq<u8>>,
)
    requires
        checked(sig, fingerprint),
        has_critical_unknown(sig.config.hashed),
        subject != (SubjectView::Subkey { body: None }),
    ensures
        !can_pass(sig, subject, fingerprint, true),
        verdict_fits(Err(Error::CriticalUnknown), sig, subject, fingerprint, true),
        forall|verdict: Verdict| #[trigger]
            verdict_fits(Ok(verdict), sig, subject, fingerprint, false) ==> verdict
                == Verdict::Invalid,
{
    assert forall|strict: bool, key_body: Seq<u8>, accepts: bool|
        #[trigger] verdict_of(sig, subject, fingerprint, strict, key_body, accepts) == settled(
            Err(Error::CriticalUnknown),
            strict,
        ) by {}
    assert(Err::<Verdict, Error>(Error::CriticalUnknown) == verdict_of(
        sig,
        subject,
        fingerprint,
        true,
        Seq::<u8>::empty(),
        true,
    ));
    if can_pass(sig, subject, fingerprint, true) {
        let verdict = choose|verdict: Verdict| #[trigger]
            verdict_fits(Ok(verdict), sig, subject, fingerprint, true);
        assert(verdict_fits(Ok(verdict), sig, subject, fingerprint, true));
    }
}

/// The subject of the signatures on the user id `id` of a key.
pub open spec fn user_subject(id: UserIdView) -> SubjectView {
    SubjectView::Identity {
        tag: Tag::UserId,
        body: if id.id.len() <= u32::MAX {
            Some(id.id)
        } else {
            None
        },
    }
}

/// The subject of the signatures on the user attribute `attribute` of a key.
pub open spec fn attribute_subject(attribute: UserAttributeView) -> SubjectView {
    SubjectView::Identity {
        tag: Tag::UserAttribute,
        body: if attribute.encodable() {
            Some(attribute.serialized())
        } else {
            None
        },
    }
}

/// The subject of the signatures on the subkey `subkey` of a key.
pub open spec fn subkey_subject(subkey: PublicKeyView) -> SubjectView {
    SubjectView::Subkey {
        body: if subkey.encodable() {
            Some(subkey.serialized())
        } else {
            None
        },
    }
}

/// What a signature is a signature on, besides the primary key.
enum Subject<'a> {
    /// The primary key itself.
    Key,
    UserId(&'a UserId),
    UserAttribute(&'a UserAttribute),
    /// A subkey, by the body of its public-key packet; `None` when the
    /// subkey has no encoding.
    Subkey(Option<Vec<u8>>),
}

impl<'a> Subject<'a> {
    spec fn view(&self) -> SubjectView {
        match self {
            Subject::Key => SubjectView::Key,
            Subject::UserId(id) => user_subject(id@),
            Subject::UserAttribute(attr) => attribute_subject(attr@),
            Subject::Subkey(body) => SubjectView::Subkey { body: octets_view(*body) },
        }
    }
}

/// Checks `sig` with `key` as a signature on `subject`. Whatever the key
/// answers, the result is the outcome for those answers.
fn verify_on<K: PublicKeyTrait>(sig: &Signature, key: &K, subject: &Subject) -> (r: Result<
    (),
    Error,
>)
    ensures
        exists|key_body: Seq<u8>, engine_accepts: bool|
            r == #[trigger] subject@.outcome(sig@, key_body, engine_accepts),
{
    match subject {
        Subject::Key => {
            let r = sig.verify_key(key);
            proof {
                let (key_body, accepts) = choose|key_body: Seq<u8>, accepts: bool|
                    r == #[trigger] sig@.verification_over(key_prologue_of(key_body), accepts);
                assert(r == subject@.outcome(sig@, key_body, accepts));
            }
            r
        },
        Subject::UserId(id) => {
            let r = sig.verify_certificate(key, Tag::UserId, *id);
            proof {
                let (key_body, accepts) = choose|key_body: Seq<u8>, accepts: bool|
                    r == #[trigger] sig@.verification(key_body, Tag::UserId, encoding(*id), accepts);
                assert(r == subject@.outcome(sig@, key_body, accepts));
            }
            r
        },
        Subject::UserAttribute(attr) => {
            let r = sig.verify_certificate(key, Tag::UserAttribute, *attr);
            proof {
                let (key_body, accepts) = choose|key_body: Seq<u8>, accepts: bool|
                    r == #[trigger] sig@.verification(
                        key_body,
                        Tag::UserAttribute,
                        encoding(*attr),
                        accepts,
                    );
                assert(r == subject@.outcome(sig@, key_body, accepts));
            }
            r
        },
        Subject::Subkey(Some(body)) => {
            let r = sig.verify_key_binding(key, body.as_slice());
            proof {
                let (key_body, accepts) = choose|key_body: Seq<u8>, accepts: bool|
                    r == #[trigger] sig@.verification_over(
                        binding_prologue_of(key_body, body@),
                        accepts,
                    );
                assert(r == subject@.outcome(sig@, key_body, accepts));
            }
            r
        },
        Subject::Subkey(None) => {
            let r = Err(Error::MalformedInput { offset: 0 });
            assert(r == subject@.outcome(sig@, Seq::<u8>::empty(), true));
            r
        },
    }
}

/// Verifies the signatures `sigs` on `subject`: a lenient pass gives a
/// verdict for every signature, a strict one ends at the first that fails.
#[verifier::loop_isolation(false)]
fn verify_signatures<K: PublicKeyTrait>(
    sigs: &Vec<Signature>,
    key: &K,
    fingerprint: &Option<Vec<u8>>,
    subject: &Subject,
    strict: bool,
) -> (r: Result<Vec<Verdict>, Error>)
    ensures
        !strict ==> r is Ok,
        match r {
            Ok(verdicts) => verdicts_fit(
                verdicts@,
                sigs@,
                subject@,
                octets_view(*fingerprint),
                strict,
            ),
            Err(e) => pass_fails(e, sigs@, subject@, octets_view(*fingerprint), strict),
        },
{
    let ghost fp = octets_view(*fingerprint);
    let mut verdicts: Vec<Verdict> = Vec::new();
    let mut i: usize = 0;
    while i < sigs.len()
        invariant
            i <= sigs.len(),
            verdicts@.len() == i,
            forall|j: int|
                0 <= j < i ==> verdict_fits(
                    Ok(#[trigger] verdicts@[j]),
                    sigs@[j]@,
                    subject@,
                    fp,
                    strict,
                ),
        decreases sigs.len() - i,
    {
        let ours = match fingerprint {
            Some(fp) => sigs[i].issued_by(fp.as_slice()),
            None => false,
        };
        assert(ours == checked(sigs@[i as int]@, fp));
        let ghost sig = sigs@[i as int]@;
        let verdict = if ours {
            let outcome = verify_on(&sigs[i], key, subject);
            let ghost (key_body, accepts) = choose|key_body: Seq<u8>, accepts: bool|
                outcome == #[trigger] subject@.outcome(sig, key_body, accepts);
            match settle(outcome, strict) {
                Ok(v) => {
                    assert(Ok::<Verdict, Error>(v) == verdict_of(
                        sig,
                        subject@,
                        fp,
                        strict,
                        key_body,
                        accepts,
                    ));
                    v
                },
                Err(e) => {
                    proof {
                        assert(Err::<Verdict, Error>(e) == verdict_of(
                            sig,
                            subject@,
                            fp,
                            strict,
                            key_body,
                            accepts,
                        ));
                        assert forall|j: int| 0 <= j < i implies can_pass(
                            (#[trigger] sigs@[j])@,
                            subject@,
                            fp,
                            strict,
                        ) by {
                            assert(verdict_fits(Ok(verdicts@[j]), sigs@[j]@, subject@, fp, strict));
                        }
                        assert(verdict_fits(Err(e), sigs@[i as int]@, subject@, fp, strict));
                    }
                    return Err(e);
                },
            }
        } else {
            assert(Ok::<Verdict, Error>(Verdict::Unverified) == verdict_of(
                sig,
                subject@,
                fp,
                strict,
                Seq::<u8>::empty(),
                true,
            ));
            Verdict::Unverified
        };
        let ghost before = verdicts@;
        verdicts.push(verdict);
        proof {
            assert(verdict_fits(Ok(verdict), sig, subject@, fp, strict));
            assert forall|j: int| 0 <= j < i + 1 implies verdict_fits(
                Ok(#[trigger] verdicts@[j]),
                sigs@[j]@,
                subject@,
                fp,
                strict,
            ) by {
                if j < i {
                    assert(verdicts@[j] == before[j]);
                }
            }
        }
        i += 1;
    }
    Ok(verdicts)
}

impl Verdicts {
    /// Whether these are verdicts that a pass over `key` can yield: the
    /// lists have the shape of the tree, and every list of verdicts fits the
    /// signatures it is about and what they are signatures on.
    pub open spec fn fit(&self, key: &SignedKey, strict: bool) -> bool {
        let fp = fingerprint_of(key@.primary_key.public);
        &&& verdicts_fit(
            self.revocation_signatures@,
            key.details.revocation_signatures@,
            SubjectView::Key,
            fp,
            strict,
        )
        &&& verdicts_fit(
            self.direct_signatures@,
            key.details.direct_signatures@,
            SubjectView::Key,
            fp,
            strict,
        )
        &&& self.users@.len() == key.details.users@.len()
        &&& forall|i: int|
            0 <= i < self.users@.len() ==> verdicts_fit(
                (#[trigger] self.users@[i])@,
                key.details.users@[i].signatures@,
                user_subject(key.details.users@[i].id@),
                fp,
                strict,
            )
        &&& self.user_attributes@.len() == key.details.user_attributes@.len()
        &&& forall|i: int|
            0 <= i < self.user_attributes@.len() ==> verdicts_fit(
                (#[trigger] self.user_attributes@[i])@,
                key.details.user_attributes@[i].signatures@,
                attribute_subject(key.details.user_attributes@[i].attr@),
                fp,
                strict,
            )
        &&& self.subkeys@.len() == key.subkeys@.len()
        &&& forall|i: int|
            0 <= i < self.subkeys@.len() ==> verdicts_fit(
                (#[trigger] self.subkeys@[i])@,
                key.subkeys@[i].signatures@,
                subkey_subject(key.subkeys@[i].key.public@),
                fp,
                strict,
            )
    }
}

impl SignedKey {
    /// Whether the signatures on the primary key itself can pass: the
    /// revocations and the direct signatures.
    pub open spec fn key_passes(&self, strict: bool) -> bool {
        let fp = fingerprint_of(self@.primary_key.public);
        &&& list_passes(self.details.revocation_signatures@, SubjectView::Key, fp, strict)
        &&& list_passes(self.details.direct_signatures@, SubjectView::Key, fp, strict)
    }

    /// Whether the signatures on the first `n` user ids can pass.
    pub open spec fn users_pass(&self, n: int, strict: bool) -> bool {
        forall|j: int|
            0 <= j < n ==> list_passes(
                (#[trigger] self.details.users@[j]).signatures@,
                user_subject(self.details.users@[j].id@),
                fingerprint_of(self@.primary_key.public),
                strict,
            )
    }

    /// Whether the signatures on the first `n` user attributes can pass.
    pub open spec fn attributes_pass(&self, n: int, strict: bool) -> bool {
        forall|j: int|
            0 <= j < n ==> list_passes(
                (#[trigger] self.details.user_attributes@[j]).signatures@,
                attribute_subject(self.details.user_attributes@[j].attr@),
                fingerprint_of(self@.primary_key.public),
                strict,
            )
    }

    /// Whether the signatures on the first `n` subkeys can pass.
    pub open spec fn subkeys_pass(&self, n: int, strict: bool) -> bool {
        forall|j: int|
            0 <= j < n ==> list_passes(
                (#[trigger] self.subkeys@[j]).signatures@,
                subkey_subject(self.subkeys@[j].key.public@),
                fingerprint_of(self@.primary_key.public),
                strict,
            )
    }

    /// Whether a pass over the key can end with the error `e`. The pass goes
    /// through the revocations, the direct signatures, the user ids, the
    /// user attributes and the subkeys, in this order: one list of
    /// signatures fails with `e`, and the lists before it can pass.
    pub open spec fn fails_with(&self, e: Error, strict: bool) -> bool {
        let fp = fingerprint_of(self@.primary_key.public);
        let users = self.details.users@;
        let attributes = self.details.user_attributes@;
        ||| pass_fails(e, self.details.revocation_signatures@, SubjectView::Key, fp, strict)
        ||| {
            &&& list_passes(self.details.revocation_signatures@, SubjectView::Key, fp, strict)
            &&& pass_fails(e, self.details.direct_signatures@, SubjectView::Key, fp, strict)
        }
        ||| {
            &&& self.key_passes(strict)
            &&& exists|i: int|
                0 <= i < users.len() && #[trigger] self.users_pass(i, strict) && pass_fails(
                    e,
                    users[i].signatures@,
                    user_subject(users[i].id@),
                    fp,
                    strict,
                )
        }
        ||| {
            &&& self.key_passes(strict)
            &&& self.users_pass(users.len() as int, strict)
            &&& exists|i: int|
                0 <= i < attributes.len() && #[trigger] self.attributes_pass(i, strict)
                    && pass_fails(
                    e,
                    attributes[i].signatures@,
                    attribute_subject(attributes[i].attr@),
                    fp,
                    strict,
                )
        }
        ||| {
            &&& self.key_passes(strict)
            &&& self.users_pass(users.len() as int, strict)
            &&& self.attributes_pass(attributes.len() as int, strict)
            &&& exists|i: int|
                0 <= i < self.subkeys@.len() && #[trigger] self.subkeys_pass(i, strict)
                    && pass_fails(
                    e,
                    self.subkeys@[i].signatures@,
                    subkey_subject(self.subkeys@[i].key.public@),
                    fp,
                    strict,
                )
        }
    }

    /// Verifies the signatures of the key with `key`, which is the primary
    /// key with its engine: direct signatures and revocations over the key,
    /// certifications over the key and their identity, signatures on subkeys
    /// over the key and the subkey.
    ///
    /// A signature is checked when it names the primary key of this tree as
    /// its issuer. A lenient pass always gives verdicts. Whatever the engine
    /// of `key` answers, the verdicts that come back are one for each
    /// signature, each of them what [`verdict_of`] gives for some answers of
    /// the key: `Unverified` for the signatures of other issuers, otherwise
    /// what the outcome of the check settles to. A strict pass ends with
    /// the error of a signature that fails.
    #[verifier::loop_isolation(false)]
    pub fn verify<K: PublicKeyTrait>(&self, key: &K, strict: bool) -> (r: Result<Verdicts, Error>)
        ensures
            !strict ==> r is Ok,
            match r {
                Ok(v) => v.fit(self, strict),
                Err(e) => self.fails_with(e, strict),
            },
    {
        let fingerprint = self.primary_key.public.fingerprint();
        let ghost fp = fingerprint_of(self@.primary_key.public);
        assert(fp == octets_view(fingerprint));
        let revocation_signatures = match verify_signatures(
            &self.details.revocation_signatures,
            key,
            &fingerprint,
            &Subject::Key,
            strict,
        ) {
            Ok(v) => v,
            Err(e) => {
                return Err(e);
            },
        };
        proof {
            lemma_fit_passes(
                revocation_signatures@,
                self.details.revocation_signatures@,
                SubjectView::Key,
                fp,
                strict,
            );
        }
        let direct_signatures = match verify_signatures(
            &self.details.direct_signatures,
            key,
            &fingerprint,
            &Subject::Key,
            strict,
        ) {
            Ok(v) => v,
            Err(e) => {
                return Err(e);
            },
        };
        proof {
            lemma_fit_passes(
                direct_signatures@,
                self.details.direct_signatures@,
                SubjectView::Key,
                fp,
                strict,
            );
        }
        assert(self.key_passes(strict));
        let mut users: Vec<Vec<Verdict>> = Vec::new();
        let mut i: usize = 0;
        while i < self.details.users.len()
            invariant
                i <= self.details.users@.len(),
                users@.len() == i,
                forall|j: int|
                    0 <= j < i ==> verdicts_fit(
                        (#[trigger] users@[j])@,
                        self.details.users@[j].signatures@,
                        user_subject(self.details.users@[j].id@),
                        fp,
                        strict,
                    ),
                self.users_pass(i as int, strict),
            decreases self.details.users@.len() - i,
        {
            let user = &self.details.users[i];
            let subject = Subject::UserId(&user.id);
            assert(subject@ == user_subject(self.details.users@[i as int].id@));
            match verify_signatures(&user.signatures, key, &fingerprint, &subject, strict) {
                Ok(v) => {
                    proof {
                        lemma_fit_passes(v@, user.signatures@, subject@, fp, strict);
                    }
                    users.push(v)
                },
                Err(e) => {
                    assert(pass_fails(
                        e,
                        self.details.users@[i as int].signatures@,
                        user_subject(self.details.users@[i as int].id@),
                        fp,
                        strict,
                    ));
                    return Err(e);
                },
            }
            i += 1;
        }
        let mut user_attributes: Vec<Vec<Verdict>> = Vec::new();
        let mut i: usize = 0;
        while i < self.details.user_attributes.len()
            invariant
                i <= self.details.user_attributes@.len(),
                user_attributes@.len() == i,
                forall|j: int|
                    0 <= j < i ==> verdicts_fit(
                        (#[trigger] user_attributes@[j])@,
                        self.details.user_attributes@[j].signatures@,
                        attribute_subject(self.details.user_attributes@[j].attr@),
                        fp,
                        strict,
                    ),
                self.attributes_pass(i as int, strict),
            decreases self.details.user_attributes@.len() - i,
        {
            let attribute = &self.details.user_attributes[i];
            let subject = Subject::UserAttribute(&attribute.attr);
            assert(subject@ == attribute_subject(self.details.user_attributes@[i as int].attr@));
            match verify_signatures(&attribute.signatures, key, &fingerprint, &subject, strict) {
                Ok(v) => {
                    proof {
                        lemma_fit_passes(v@, attribute.signatures@, subject@, fp, strict);
                    }
                    user_attributes.push(v)
                },
                Err(e) => {
                    assert(pass_fails(
                        e,
                        self.details.user_attributes@[i as int].signatures@,
                        attribute_subject(self.details.user_attributes@[i as int].attr@),
                        fp,
                        strict,
                    ));
                    return Err(e);
                },
            }
            i += 1;
        }
        let mut subkeys: Vec<Vec<Verdict>> = Vec::new();
        let mut i: usize = 0;
        while i < self.subkeys.len()
            invariant
                i <= self.subkeys@.len(),
                subkeys@.len() == i,
                forall|j: int|
                    0 <= j < i ==> verdicts_fit(
                        (#[trigger] subkeys@[j])@,
                        self.subkeys@[j].signatures@,
                        subkey_subject(self.subkeys@[j].key.public@),
                        fp,
                        strict,
                    ),
                self.subkeys_pass(i as int, strict),
            decreases self.subkeys@.len() - i,
        {
            let subkey = &self.subkeys[i];
            let body = match to_bytes(&subkey.key.public) {
                Ok(b) => Some(b),
                Err(_) => None,
            };
            let subject = Subject::Subkey(body);
            assert(subject@ == subkey_subject(self.subkeys@[i as int].key.public@));
            match verify_signatures(&subkey.signatures, key, &fingerprint, &subject, strict) {
                Ok(v) => {
                    proof {
                        lemma_fit_passes(v@, subkey.signatures@, subject@, fp, strict);
                    }
                    subkeys.push(v)
                },
                Err(e) => {
                    assert(pass_fails(
                        e,
                        self.subkeys@[i as int].signatures@,
                        subkey_subject(self.subkeys@[i as int].key.public@),
                        fp,
                        strict,
                    ));
                    return Err(e);
                },
            }
            i += 1;
        }
        Ok(Verdicts { revocation_signatures, direct_signatures, users, user_attributes, subkeys })
    }
}

} // verus!
