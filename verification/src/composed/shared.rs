//! The parts that a signed public key and a signed secret key have in common.

use crate::packet::signature::{signatures_view, Signature, SignatureView};
use crate::types::user::{
    signed_user_attributes_view, signed_users_view, SignedUser, SignedUserAttribute,
    SignedUserAttributeView, SignedUserView,
};
use vstd::prelude::*;

verus! {

/// The identities of a key together with the signatures on them and on the
/// key itself.
#[derive(Debug, Clone, PartialEq, Eq)]
pub struct SignedKeyDetails {
    pub revocation_signatures: Vec<Signature>,
    pub direct_signatures: Vec<Signature>,
    pub users: Vec<SignedUser>,
    pub user_attributes: Vec<SignedUserAttribute>,
}

/// The mathematical content of a [`SignedKeyDetails`].
pub ghost struct SignedKeyDetailsView {
    pub revocation_signatures: Seq<SignatureView>,
    pub direct_signatures: Seq<SignatureView>,
    pub users: Seq<SignedUserView>,
    pub user_attributes: Seq<SignedUserAttributeView>,
}

impl View for SignedKeyDetails {
    type V = SignedKeyDetailsView;

    open spec fn view(&self) -> SignedKeyDetailsView {
        SignedKeyDetailsView {
            revocation_signatures: signatures_view(self.revocation_signatures@),
            direct_signatures: signatures_view(self.direct_signatures@),
            users: signed_users_view(self.users@),
            user_attributes: signed_user_attributes_view(self.user_attributes@),
        }
    }
}

impl SignedKeyDetails {
    /// Puts the parts together.
    pub fn new(
        revocation_signatures: Vec<Signature>,
        direct_signatures: Vec<Signature>,
        users: Vec<SignedUser>,
        user_attributes: Vec<SignedUserAttribute>,
    ) -> (r: SignedKeyDetails)
        ensures
            r@ == (SignedKeyDetailsView {
                revocation_signatures: signatures_view(revocation_signatures@),
                direct_signatures: signatures_view(direct_signatures@),
                users: signed_users_view(users@),
                user_attributes: signed_user_attributes_view(user_attributes@),
            }),
    {
        SignedKeyDetails { revocation_signatures, direct_signatures, users, user_attributes }
    }
}

} // verus!
