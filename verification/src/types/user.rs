//! Identities together with the signatures that certify them.

use crate::packet::signature::{signatures_view, Signature, SignatureView};
use crate::packet::user_attribute::{UserAttribute, UserAttributeView};
use crate::packet::user_id::{UserId, UserIdView};
use vstd::prelude::*;

verus! {

/// A user id with the signatures on it.
#[derive(Debug, Clone, PartialEq, Eq)]
pub struct SignedUser {
    pub id: UserId,
    pub signatures: Vec<Signature>,
}

/// The mathematical content of a [`SignedUser`].
pub ghost struct SignedUserView {
    pub id: UserIdView,
    pub signatures: Seq<SignatureView>,
}

impl View for SignedUser {
    type V = SignedUserView;

    open spec fn view(&self) -> SignedUserView {
        SignedUserView { id: self.id@, signatures: signatures_view(self.signatures@) }
    }
}

/// A user attribute with the signatures on it.
#[derive(Debug, Clone, PartialEq, Eq)]
pub struct SignedUserAttribute {
    pub attr: UserAttribute,
    pub signatures: Vec<Signature>,
}

/// The mathematical content of a [`SignedUserAttribute`].
pub ghost struct SignedUserAttributeView {
    pub attr: UserAttributeView,
    pub signatures: Seq<SignatureView>,
}

impl View for SignedUserAttribute {
    type V = SignedUserAttributeView;

    open spec fn view(&self) -> SignedUserAttributeView {
        SignedUserAttributeView { attr: self.attr@, signatures: signatures_view(self.signatures@) }
    }
}

/// The views of a list of signed users, in order.
pub open spec fn signed_users_view(list: Seq<SignedUser>) -> Seq<SignedUserView> {
    list.map_values(|u: SignedUser| u@)
}

/// The views of a list of signed user attributes, in order.
pub open spec fn signed_user_attributes_view(list: Seq<SignedUserAttribute>) -> Seq<
    SignedUserAttributeView,
> {
    list.map_values(|u: SignedUserAttribute| u@)
}

impl SignedUser {
    /// A user id with the signatures `signatures` on it.
    pub fn new(id: UserId, signatures: Vec<Signature>) -> (r: SignedUser)
        ensures
            r@ == (SignedUserView { id: id@, signatures: signatures_view(signatures@) }),
    {
        SignedUser { id, signatures }
    }
}

impl SignedUserAttribute {
    /// A user attribute with the signatures `signatures` on it.
    pub fn new(attr: UserAttribute, signatures: Vec<Signature>) -> (r: SignedUserAttribute)
        ensures
            r@ == (SignedUserAttributeView {
                attr: attr@,
                signatures: signatures_view(signatures@),
            }),
    {
        SignedUserAttribute { attr, signatures }
    }
}

impl UserId {
    /// The user id with the one signature `sig` on it.
    pub fn into_signed(self, sig: Signature) -> (r: SignedUser)
        ensures
            r@ == (SignedUserView { id: self@, signatures: seq![sig@] }),
    {
        let signatures = vec![sig];
        assert(signatures_view(signatures@) =~= seq![sig@]);
        SignedUser::new(self, signatures)
    }
}

impl UserAttribute {
    /// The user attribute with the one signature `sig` on it.
    pub fn into_signed(self, sig: Signature) -> (r: SignedUserAttribute)
        ensures
            r@ == (SignedUserAttributeView { attr: self@, signatures: seq![sig@] }),
    {
        let signatures = vec![sig];
        assert(signatures_view(signatures@) =~= seq![sig@]);
        SignedUserAttribute::new(self, signatures)
    }
}

} // verus!
