//! Transferable keys: the tree that a packet stream is grouped into, and the
//! assembler that groups it.
//!
//! The assembler reads the packets of the input one after the other. Each
//! packet is read in full, turned into what it stands for, shown to the
//! grammar machine as a token and, when the grammar allows it, attached to
//! the tree: signatures to the key, identity or subkey before them. A packet
//! that cannot be read or that the grammar does not allow ends the assembly
//! with a rejection that says where in the input that packet starts.

use crate::composed::grammar::{Progress, Token};
use crate::composed::shared::{SignedKeyDetails, SignedKeyDetailsView};
use crate::errors::Error;
use crate::packet::framing::{
    lemma_packet_roundtrip, lemma_parsed_packet_bounds, parse_packet, reemit, Packet, PacketView,
};
use crate::packet::key::{
    lemma_public_key_roundtrip, parse_public_key, PublicKey, PublicKeyView,
};
use crate::packet::signature::{signatures_view, Signature, SignatureType, SignatureView};
use crate::packet::signature_body::parse_signature;
use crate::packet::subpacket::{subpackets_view, Subpacket, SubpacketView};
use crate::packet::user_attribute::{parse_user_attribute, UserAttribute, UserAttributeView};
use crate::packet::user_id::{UserId, UserIdView};
use crate::ser::Serialize;
use crate::types::key_id::KeyId;
use crate::types::secret_params::{
    lemma_secret_params_roundtrip, parse_secret_params, SecretParams, SecretParamsView,
};
use crate::types::tag::{Tag, Version};
use crate::types::user::{
    signed_user_attributes_view, signed_users_view, SignedUser, SignedUserAttribute,
    SignedUserAttributeView, SignedUserView,
};
use crate::util::{append_bytes, bytes_eq};
use vstd::prelude::*;
use vstd::slice::slice_subrange;

verus! {

/// Why and where an input was turned down: the error, and the offset in the
/// input of the packet at which it arose, or the length of the input when the
/// stream ended too early. An offset inside the error counts from the start
/// of that packet's body.
#[derive(Debug, Clone, Copy, PartialEq, Eq, Structural)]
pub struct Rejection {
    pub error: Error,
    pub offset: usize,
}

/// The content of a key packet: the public part and, for a secret key, the
/// secret parameters.
#[derive(Clone, PartialEq, Eq)]
pub struct KeyMaterial {
    pub public: PublicKey,
    pub secret: Option<SecretParams>,
}

/// The mathematical content of a [`KeyMaterial`].
pub ghost struct KeyMaterialView {
    pub public: PublicKeyView,
    pub secret: Option<SecretParamsView>,
}

impl View for KeyMaterial {
    type V = KeyMaterialView;

    open spec fn view(&self) -> KeyMaterialView {
        KeyMaterialView {
            public: self.public@,
            secret: match self.secret {
                Some(s) => Some(s@),
                None => None,
            },
        }
    }
}

impl KeyMaterialView {
    /// Whether the key has an encoding: its public part and, if it has
    /// them, its secret parameters have one.
    pub open spec fn encodable(self) -> bool {
        self.public.encodable() && (self.secret matches Some(s) ==> s.encodable())
    }

    /// The body of the key packet: the public part, then the secret part.
    pub open spec fn serialized(self) -> Seq<u8> {
        self.public.serialized() + (match self.secret {
            Some(s) => s.serialized(),
            None => Seq::empty(),
        })
    }
}

impl Serialize for KeyMaterial {
    open spec fn encodable(&self) -> bool {
        self@.encodable()
    }

    open spec fn serialized(&self) -> Seq<u8> {
        self@.serialized()
    }

    /// Appends the body of the key packet.
    fn to_writer(&self, writer: &mut Vec<u8>) -> (r: Result<(), Error>) {
        let mut buf: Vec<u8> = Vec::new();
        if self.public.to_writer(&mut buf).is_err() {
            return Err(Error::MalformedInput { offset: writer.len() });
        }
        if let Some(secret) = &self.secret {
            if secret.to_writer(&mut buf).is_err() {
                return Err(Error::MalformedInput { offset: writer.len() });
            }
        }
        assert(buf@ =~= self@.serialized());
        append_bytes(writer, buf.as_slice());
        Ok(())
    }
}

/// A subkey with the signatures on it: bindings first, then revocations.
#[derive(Clone, PartialEq, Eq)]
pub struct SignedSubkey {
    pub key: KeyMaterial,
    pub signatures: Vec<Signature>,
}

/// The mathematical content of a [`SignedSubkey`].
pub ghost struct SignedSubkeyView {
    pub key: KeyMaterialView,
    pub signatures: Seq<SignatureView>,
}

impl View for SignedSubkey {
    type V = SignedSubkeyView;

    open spec fn view(&self) -> SignedSubkeyView {
        SignedSubkeyView { key: self.key@, signatures: signatures_view(self.signatures@) }
    }
}

/// The views of a list of signed subkeys, in order.
pub open spec fn signed_subkeys_view(list: Seq<SignedSubkey>) -> Seq<SignedSubkeyView> {
    list.map_values(|k: SignedSubkey| k@)
}

/// What a packet stands for.
pub enum Item {
    Key(KeyMaterial),
    UserId(UserId),
    UserAttribute(UserAttribute),
    Signature(Signature),
    /// A packet that has no place in a key; its body is not looked at.
    Other,
}

/// The mathematical content of an [`Item`].
pub ghost enum ItemView {
    Key(KeyMaterialView),
    UserId(UserIdView),
    UserAttribute(UserAttributeView),
    Signature(SignatureView),
    Other,
}

impl View for Item {
    type V = ItemView;

    open spec fn view(&self) -> ItemView {
        match *self {
            Item::Key(k) => ItemView::Key(k@),
            Item::UserId(u) => ItemView::UserId(u@),
            Item::UserAttribute(a) => ItemView::UserAttribute(a@),
            Item::Signature(s) => ItemView::Signature(s@),
            Item::Other => ItemView::Other,
        }
    }
}

/// What the packet `p` stands for. The body of a public key or subkey packet
/// holds the public part and nothing else; that of a secret one holds the
/// secret parameters after it, up to its end.
pub open spec fn parse_item(p: PacketView) -> Result<ItemView, Error> {
    match p.tag {
        Tag::PublicKey | Tag::PublicSubkey => match parse_public_key(p.body) {
            Err(e) => Err(e),
            Ok((public, end)) => if end != p.body.len() {
                Err(Error::MalformedInput { offset: end as usize })
            } else {
                Ok(ItemView::Key(KeyMaterialView { public, secret: None }))
            },
        },
        Tag::SecretKey | Tag::SecretSubkey => match parse_public_key(p.body) {
            Err(e) => Err(e),
            Ok((public, end)) => match parse_secret_params(public.algorithm, p.body, end) {
                Err(e) => Err(e),
                Ok(secret) => Ok(ItemView::Key(KeyMaterialView { public, secret: Some(secret) })),
            },
        },
        Tag::UserId => Ok(ItemView::UserId(UserIdView { packet_version: p.version, id: p.body })),
        Tag::UserAttribute => match parse_user_attribute(p.version, p.body) {
            Err(e) => Err(e),
            Ok(a) => Ok(ItemView::UserAttribute(a)),
        },
        Tag::Signature => match parse_signature(p.body) {
            Err(e) => Err(e),
            Ok(s) => Ok(ItemView::Signature(s)),
        },
        _ => Ok(ItemView::Other),
    }
}

/// The token of a packet with tag `tag` that stands for `item`.
pub open spec fn token_of(tag: Tag, item: ItemView) -> Token {
    Token::of(
        tag,
        match item {
            ItemView::Signature(s) => Some(s.config.typ),
            _ => None,
        },
    )
}

/// The tree while it grows.
pub ghost struct TreeView {
    pub primary_key: Option<KeyMaterialView>,
    pub details: SignedKeyDetailsView,
    pub subkeys: Seq<SignedSubkeyView>,
}

/// The list `list` with `sig` added to the signatures of its last user;
/// an empty list stays empty.
pub open spec fn sign_last_user(list: Seq<SignedUserView>, sig: SignatureView) -> Seq<
    SignedUserView,
> {
    if list.len() == 0 {
        list
    } else {
        list.drop_last().push(
            SignedUserView { signatures: list.last().signatures.push(sig), ..list.last() },
        )
    }
}

/// The list `list` with `sig` added to the signatures of its last user
/// attribute; an empty list stays empty.
pub open spec fn sign_last_attribute(list: Seq<SignedUserAttributeView>, sig: SignatureView) -> Seq<
    SignedUserAttributeView,
> {
    if list.len() == 0 {
        list
    } else {
        list.drop_last().push(
            SignedUserAttributeView {
                signatures: list.last().signatures.push(sig),
                ..list.last()
            },
        )
    }
}

/// The list `list` with `sig` added to the signatures of its last subkey; an
/// empty list stays empty.
pub open spec fn sign_last_subkey(list: Seq<SignedSubkeyView>, sig: SignatureView) -> Seq<
    SignedSubkeyView,
> {
    if list.len() == 0 {
        list
    } else {
        list.drop_last().push(
            SignedSubkeyView { signatures: list.last().signatures.push(sig), ..list.last() },
        )
    }
}

impl TreeView {
    /// The tree before anything is attached.
    pub open spec fn empty() -> TreeView {
        TreeView {
            primary_key: None,
            details: SignedKeyDetailsView {
                revocation_signatures: Seq::empty(),
                direct_signatures: Seq::empty(),
                users: Seq::empty(),
                user_attributes: Seq::empty(),
            },
            subkeys: Seq::empty(),
        }
    }

    /// The tree with `item` attached as the token `token`. A primary key
    /// becomes the root. A signature on the primary key goes to the
    /// revocations when it is a key revocation and to the direct signatures
    /// otherwise. A user id, user attribute or subkey opens a new entry. A
    /// certification goes to the last user attribute when there is one and to
    /// the last user id otherwise; a signature on a subkey goes to the last
    /// subkey.
    pub open spec fn attach(self, token: Token, item: ItemView) -> TreeView {
        match (token, item) {
            (Token::PrimaryKey { .. }, ItemView::Key(k)) => TreeView {
                primary_key: Some(k),
                ..self
            },
            (Token::Subkey { .. }, ItemView::Key(k)) => TreeView {
                subkeys: self.subkeys.push(SignedSubkeyView { key: k, signatures: Seq::empty() }),
                ..self
            },
            (Token::UserId, ItemView::UserId(id)) => TreeView {
                details: SignedKeyDetailsView {
                    users: self.details.users.push(SignedUserView { id, signatures: Seq::empty() }),
                    ..self.details
                },
                ..self
            },
            (Token::UserAttribute, ItemView::UserAttribute(attr)) => TreeView {
                details: SignedKeyDetailsView {
                    user_attributes: self.details.user_attributes.push(
                        SignedUserAttributeView { attr, signatures: Seq::empty() },
                    ),
                    ..self.details
                },
                ..self
            },
            (Token::DirectSig, ItemView::Signature(sig)) => if sig.config.typ
                == SignatureType::KeyRevocation {
                TreeView {
                    details: SignedKeyDetailsView {
                        revocation_signatures: self.details.revocation_signatures.push(sig),
                        ..self.details
                    },
                    ..self
                }
            } else {
                TreeView {
                    details: SignedKeyDetailsView {
                        direct_signatures: self.details.direct_signatures.push(sig),
                        ..self.details
                    },
                    ..self
                }
            },
            (Token::CertSig, ItemView::Signature(sig)) => if self.details.user_attributes.len()
                > 0 {
                TreeView {
                    details: SignedKeyDetailsView {
                        user_attributes: sign_last_attribute(self.details.user_attributes, sig),
                        ..self.details
                    },
                    ..self
                }
            } else {
                TreeView {
                    details: SignedKeyDetailsView {
                        users: sign_last_user(self.details.users, sig),
                        ..self.details
                    },
                    ..self
                }
            },
            (Token::BindingSig, ItemView::Signature(sig)) | (
                Token::RevocSig,
                ItemView::Signature(sig),
            ) => TreeView { subkeys: sign_last_subkey(self.subkeys, sig), ..self },
            _ => self,
        }
    }
}

/// The outcome of assembling the packets of `input` from `pos` on, with the
/// machine in `state` and the tree `tree` built so far.
pub open spec fn assemble_from(input: Seq<u8>, pos: int, state: Progress, tree: TreeView) -> Result<
    TreeView,
    Rejection,
>
    decreases input.len() - pos,
{
    if pos >= input.len() {
        if state.can_finish() {
            Ok(tree)
        } else {
            Err(
                Rejection {
                    error: Error::MalformedComposite { offset: input.len() as usize },
                    offset: input.len() as usize,
                },
            )
        }
    } else {
        match parse_packet(input, pos) {
            Err(e) => Err(Rejection { error: e, offset: pos as usize }),
            Ok((p, next)) => match parse_item(p) {
                Err(e) => Err(Rejection { error: e, offset: pos as usize }),
                Ok(item) => match state.step(token_of(p.tag, item)) {
                    None => Err(
                        Rejection {
                            error: Error::MalformedComposite { offset: pos as usize },
                            offset: pos as usize,
                        },
                    ),
                    Some(after) => if next <= pos || next > input.len() {
                        Err(Rejection { error: Error::MalformedInput { offset: pos as usize }, offset: pos as usize })
                    } else {
                        assemble_from(input, next, after, tree.attach(token_of(p.tag, item), item))
                    },
                },
            },
        }
    }
}

/// The outcome of assembling the packets of `input` into the tree of a key.
pub open spec fn assemble(input: Seq<u8>) -> Result<TreeView, Rejection> {
    assemble_from(input, 0, Progress::initial(), TreeView::empty())
}

/// The tree of a key while the assembler attaches packets to it.
pub struct Tree {
    pub primary_key: Option<KeyMaterial>,
    pub details: SignedKeyDetails,
    pub subkeys: Vec<SignedSubkey>,
}

impl View for Tree {
    type V = TreeView;

    open spec fn view(&self) -> TreeView {
        TreeView {
            primary_key: match self.primary_key {
                Some(k) => Some(k@),
                None => None,
            },
            details: self.details@,
            subkeys: signed_subkeys_view(self.subkeys@),
        }
    }
}

/// Adds `sig` to the signatures of the last user of `list`, if there is one.
fn push_to_last_user(list: &mut Vec<SignedUser>, sig: Signature)
    ensures
        signed_users_view(final(list)@) == sign_last_user(signed_users_view(old(list)@), sig@),
{
    let ghost before = signed_users_view(list@);
    match list.pop() {
        Some(mut user) => {
            let ghost sigs = signatures_view(user.signatures@);
            user.signatures.push(sig);
            assert(signatures_view(user.signatures@) =~= sigs.push(sig@));
            list.push(user);
            assert(signed_users_view(list@) =~= sign_last_user(before, sig@));
        },
        None => {
            assert(signed_users_view(list@) =~= before);
        },
    }
}

/// Adds `sig` to the signatures of the last user attribute of `list`, if
/// there is one.
fn push_to_last_attribute(list: &mut Vec<SignedUserAttribute>, sig: Signature)
    ensures
        signed_user_attributes_view(final(list)@) == sign_last_attribute(
            signed_user_attributes_view(old(list)@),
            sig@,
        ),
{
    let ghost before = signed_user_attributes_view(list@);
    match list.pop() {
        Some(mut attr) => {
            let ghost sigs = signatures_view(attr.signatures@);
            attr.signatures.push(sig);
            assert(signatures_view(attr.signatures@) =~= sigs.push(sig@));
            list.push(attr);
            assert(signed_user_attributes_view(list@) =~= sign_last_attribute(before, sig@));
        },
        None => {
            assert(signed_user_attributes_view(list@) =~= before);
        },
    }
}

/// Adds `sig` to the signatures of the last subkey of `list`, if there is one.
fn push_to_last_subkey(list: &mut Vec<SignedSubkey>, sig: Signature)
    ensures
        signed_subkeys_view(final(list)@) == sign_last_subkey(
            signed_subkeys_view(old(list)@),
            sig@,
        ),
{
    let ghost before = signed_subkeys_view(list@);
    match list.pop() {
        Some(mut key) => {
            let ghost sigs = signatures_view(key.signatures@);
            key.signatures.push(sig);
            assert(signatures_view(key.signatures@) =~= sigs.push(sig@));
            list.push(key);
            assert(signed_subkeys_view(list@) =~= sign_last_subkey(before, sig@));
        },
        None => {
            assert(signed_subkeys_view(list@) =~= before);
        },
    }
}

impl Tree {
    /// The tree before anything is attached.
    pub fn new() -> (r: Tree)
        ensures
            r@ == TreeView::empty(),
    {
        let r = Tree {
            primary_key: None,
            details: SignedKeyDetails::new(Vec::new(), Vec::new(), Vec::new(), Vec::new()),
            subkeys: Vec::new(),
        };
        assert(r@.details.revocation_signatures =~= Seq::empty());
        assert(r@.details.direct_signatures =~= Seq::empty());
        assert(r@.details.users =~= Seq::empty());
        assert(r@.details.user_attributes =~= Seq::empty());
        assert(r@.subkeys =~= Seq::empty());
        r
    }

    /// Attaches `item` to the tree as the token `token`.
    pub fn attach(&mut self, token: Token, item: Item)
        ensures
            final(self)@ == old(self)@.attach(token, item@),
    {
        match (token, item) {
            (Token::PrimaryKey { .. }, Item::Key(k)) => {
                self.primary_key = Some(k);
            },
            (Token::Subkey { .. }, Item::Key(k)) => {
                let ghost before = signed_subkeys_view(self.subkeys@);
                let ghost kv = k@;
                let signatures: Vec<Signature> = Vec::new();
                assert(signatures_view(signatures@) =~= Seq::empty());
                self.subkeys.push(SignedSubkey { key: k, signatures });
                assert(signed_subkeys_view(self.subkeys@) =~= before.push(
                    SignedSubkeyView { key: kv, signatures: Seq::empty() },
                ));
            },
            (Token::UserId, Item::UserId(id)) => {
                let ghost before = signed_users_view(self.details.users@);
                let ghost iv = id@;
                let signatures: Vec<Signature> = Vec::new();
                assert(signatures_view(signatures@) =~= Seq::empty());
                self.details.users.push(SignedUser::new(id, signatures));
                assert(signed_users_view(self.details.users@) =~= before.push(
                    SignedUserView { id: iv, signatures: Seq::empty() },
                ));
            },
            (Token::UserAttribute, Item::UserAttribute(attr)) => {
                let ghost before = signed_user_attributes_view(self.details.user_attributes@);
                let ghost av = attr@;
                let signatures: Vec<Signature> = Vec::new();
                assert(signatures_view(signatures@) =~= Seq::empty());
                self.details.user_attributes.push(SignedUserAttribute::new(attr, signatures));
                assert(signed_user_attributes_view(self.details.user_attributes@) =~= before.push(
                    SignedUserAttributeView { attr: av, signatures: Seq::empty() },
                ));
            },
            (Token::DirectSig, Item::Signature(sig)) => {
                let ghost sv = sig@;
                match sig.config.typ {
                    SignatureType::KeyRevocation => {
                        let ghost before = signatures_view(self.details.revocation_signatures@);
                        self.details.revocation_signatures.push(sig);
                        assert(signatures_view(self.details.revocation_signatures@) =~= before.push(
                            sv,
                        ));
                    },
                    _ => {
                        let ghost before = signatures_view(self.details.direct_signatures@);
                        self.details.direct_signatures.push(sig);
                        assert(signatures_view(self.details.direct_signatures@) =~= before.push(sv));
                    },
                }
            },
            (Token::CertSig, Item::Signature(sig)) => {
                if self.details.user_attributes.len() > 0 {
                    push_to_last_attribute(&mut self.details.user_attributes, sig);
                } else {
                    push_to_last_user(&mut self.details.users, sig);
                }
            },
            (Token::BindingSig, Item::Signature(sig)) => {
                push_to_last_subkey(&mut self.subkeys, sig);
            },
            (Token::RevocSig, Item::Signature(sig)) => {
                push_to_last_subkey(&mut self.subkeys, sig);
            },
            _ => {},
        }
    }
}

/// Turns the packet `p` into what it stands for.
pub fn read_item(p: &Packet) -> (r: Result<Item, Error>)
    ensures
        match r {
            Ok(item) => parse_item(p@) == Ok::<ItemView, Error>(item@),
            Err(e) => parse_item(p@) == Err::<ItemView, Error>(e),
        },
{
    let body = p.body.as_slice();
    match p.tag {
        Tag::PublicKey | Tag::PublicSubkey => match PublicKey::parse(body) {
            Err(e) => Err(e),
            Ok((public, end)) => if end != body.len() {
                Err(Error::MalformedInput { offset: end })
            } else {
                Ok(Item::Key(KeyMaterial { public, secret: None }))
            },
        },
        Tag::SecretKey | Tag::SecretSubkey => match PublicKey::parse(body) {
            Err(e) => Err(e),
            Ok((public, end)) => match SecretParams::parse(public.algorithm, body, end) {
                Err(e) => Err(e),
                Ok(secret) => Ok(Item::Key(KeyMaterial { public, secret: Some(secret) })),
            },
        },
        Tag::UserId => Ok(Item::UserId(UserId::from_slice(p.version, body))),
        Tag::UserAttribute => match UserAttribute::from_slice(p.version, body) {
            Err(e) => Err(e),
            Ok(a) => Ok(Item::UserAttribute(a)),
        },
        Tag::Signature => match Signature::from_slice(body) {
            Err(e) => Err(e),
            Ok(s) => Ok(Item::Signature(s)),
        },
        _ => Ok(Item::Other),
    }
}

/// The token of a packet with tag `tag` that stands for `item`.
pub fn item_token(tag: Tag, item: &Item) -> (r: Token)
    ensures
        r == token_of(tag, item@),
{
    let typ = match item {
        Item::Signature(s) => Some(s.config.typ),
        _ => None,
    };
    Token::classify(tag, typ)
}

/// Groups the packets of `input` into the tree of a key.
pub fn assemble_bytes(input: &[u8]) -> (r: Result<Tree, Rejection>)
    ensures
        match r {
            Ok(tree) => assemble(input@) == Ok::<TreeView, Rejection>(tree@),
            Err(rejection) => assemble(input@) == Err::<TreeView, Rejection>(rejection),
        },
{
    let mut tree = Tree::new();
    let mut state = Progress::new();
    let mut at: usize = 0;
    while at < input.len()
        invariant
            at <= input@.len(),
            assemble(input@) == assemble_from(input@, at as int, state, tree@),
        decreases input@.len() - at,
    {
        let (packet, next) = match Packet::parse(input, at) {
            Ok(v) => v,
            Err(e) => {
                return Err(Rejection { error: e, offset: at });
            },
        };
        let item = match read_item(&packet) {
            Ok(i) => i,
            Err(e) => {
                return Err(Rejection { error: e, offset: at });
            },
        };
        let token = item_token(packet.tag, &item);
        state = match state.advance(token) {
            Some(s) => s,
            None => {
                return Err(
                    Rejection { error: Error::MalformedComposite { offset: at }, offset: at },
                );
            },
        };
        tree.attach(token, item);
        at = next;
    }
    if state.end().is_none() {
        return Err(
            Rejection {
                error: Error::MalformedComposite { offset: input.len() },
                offset: input.len(),
            },
        );
    }
    Ok(tree)
}

/// Every rejection carries a byte offset within the input: a position not
/// before the one from which the assembler read and not behind the end.
pub proof fn lemma_rejection_within_input(input: Seq<u8>, pos: int, state: Progress, tree: TreeView)
    requires
        0 <= pos <= input.len() <= usize::MAX,
    ensures
        assemble_from(input, pos, state, tree) matches Err(r) ==> pos <= r.offset <= input.len(),
    decreases input.len() - pos,
{
    if pos < input.len() {
        match parse_packet(input, pos) {
            Err(e) => {},
            Ok((p, next)) => match parse_item(p) {
                Err(e) => {},
                Ok(item) => match state.step(token_of(p.tag, item)) {
                    None => {},
                    Some(after) => {
                        if pos < next <= input.len() {
                            lemma_rejection_within_input(
                                input,
                                next,
                                after,
                                tree.attach(token_of(p.tag, item), item),
                            );
                        }
                    },
                },
            },
        }
    }
}

/// The creation time that a list of subpackets states: that of its first
/// creation-time subpacket, or zero when it has none.
pub open spec fn creation_time(list: Seq<SubpacketView>) -> u32
    decreases list.len(),
{
    if list.len() == 0 {
        0
    } else {
        match list[0] {
            SubpacketView::SignatureCreationTime(t) => t,
            _ => creation_time(list.drop_first()),
        }
    }
}

/// Whether a list of subpackets marks its user id as the primary one.
pub open spec fn marks_primary(list: Seq<SubpacketView>) -> bool {
    exists|i: int| 0 <= i < list.len() && #[trigger] list[i] == SubpacketView::IsPrimary(true)
}

/// The fingerprint that the first issuer-fingerprint subpacket of a list names.
pub open spec fn issuer_fingerprint(list: Seq<SubpacketView>) -> Option<Seq<u8>>
    decreases list.len(),
{
    if list.len() == 0 {
        None
    } else {
        match list[0] {
            SubpacketView::IssuerFingerprint(fp) => Some(fp),
            _ => issuer_fingerprint(list.drop_first()),
        }
    }
}

/// The key id that the first issuer subpacket of a list names.
pub open spec fn issuer_key_id(list: Seq<SubpacketView>) -> Option<Seq<u8>>
    decreases list.len(),
{
    if list.len() == 0 {
        None
    } else {
        match list[0] {
            SubpacketView::Issuer(id) => Some(id),
            _ => issuer_key_id(list.drop_first()),
        }
    }
}

/// The first of two optional values that is there.
pub open spec fn or_else(a: Option<Seq<u8>>, b: Option<Seq<u8>>) -> Option<Seq<u8>> {
    match a {
        Some(_) => a,
        None => b,
    }
}

impl SignatureView {
    /// The creation time of the signature: the fixed field of a version 3
    /// signature, and otherwise what the hashed subpackets state.
    pub open spec fn created_at(self) -> u32 {
        match self.config.created {
            Some(t) => t,
            None => creation_time(self.config.hashed),
        }
    }

    /// Whether the signature names the key with fingerprint `fingerprint` as
    /// its issuer. An issuer fingerprint, hashed or else unhashed, decides;
    /// only without one does the issuer key id decide, from a subpacket or
    /// else from the fixed field of a version 3 signature, which is compared
    /// with the last eight octets of the fingerprint.
    pub open spec fn issued_by(self, fingerprint: Seq<u8>) -> bool {
        match or_else(
            issuer_fingerprint(self.config.hashed),
            issuer_fingerprint(self.config.unhashed),
        ) {
            Some(fp) => fp == fingerprint,
            None => match or_else(
                or_else(issuer_key_id(self.config.hashed), issuer_key_id(self.config.unhashed)),
                self.config.issuer,
            ) {
                Some(id) => fingerprint.len() >= 8 && id == fingerprint.skip(fingerprint.len() - 8),
                None => false,
            },
        }
    }

    /// Whether the signature is a certification that the key with
    /// fingerprint `fingerprint` issued on itself.
    pub open spec fn is_self_certification(self, fingerprint: Seq<u8>) -> bool {
        self.config.typ.is_certification() && self.issued_by(fingerprint)
    }
}

/// The index of the self-certification that governs an identity: the most
/// recent one by creation time, and of several equally recent ones the last.
pub open spec fn governing(sigs: Seq<SignatureView>, fingerprint: Seq<u8>) -> Option<int>
    decreases sigs.len(),
{
    if sigs.len() == 0 {
        None
    } else {
        let last = sigs.last();
        match governing(sigs.drop_last(), fingerprint) {
            None => if last.is_self_certification(fingerprint) {
                Some(sigs.len() - 1)
            } else {
                None
            },
            Some(g) => if last.is_self_certification(fingerprint) && sigs[g].created_at()
                <= last.created_at() {
                Some(sigs.len() - 1)
            } else {
                Some(g)
            },
        }
    }
}

/// Whether a user id is marked primary: its governing self-certification
/// carries the primary marker among its hashed subpackets.
pub open spec fn is_marked_primary(user: SignedUserView, fingerprint: Seq<u8>) -> bool {
    match governing(user.signatures, fingerprint) {
        Some(g) => 0 <= g < user.signatures.len() && marks_primary(
            user.signatures[g].config.hashed,
        ),
        None => false,
    }
}

/// The index of the first user id that is marked primary.
pub open spec fn first_marked(users: Seq<SignedUserView>, fingerprint: Seq<u8>) -> Option<int>
    decreases users.len(),
{
    if users.len() == 0 {
        None
    } else if is_marked_primary(users[0], fingerprint) {
        Some(0)
    } else {
        match first_marked(users.drop_first(), fingerprint) {
            Some(i) => Some(i + 1),
            None => None,
        }
    }
}

/// A transferable key: the primary key, its identities and subkeys with
/// their signatures, and which user id is the primary one.
#[derive(Clone, PartialEq, Eq)]
pub struct SignedKey {
    pub primary_key: KeyMaterial,
    pub details: SignedKeyDetails,
    pub subkeys: Vec<SignedSubkey>,
    /// The index of the primary user id among the users.
    pub primary_user: usize,
    /// The warning that no user id was marked primary and the first one was
    /// promoted.
    pub promoted: bool,
}

/// The mathematical content of a [`SignedKey`].
pub ghost struct SignedKeyView {
    pub primary_key: KeyMaterialView,
    pub details: SignedKeyDetailsView,
    pub subkeys: Seq<SignedSubkeyView>,
    pub primary_user: int,
    pub promoted: bool,
}

impl View for SignedKey {
    type V = SignedKeyView;

    open spec fn view(&self) -> SignedKeyView {
        SignedKeyView {
            primary_key: self.primary_key@,
            details: self.details@,
            subkeys: signed_subkeys_view(self.subkeys@),
            primary_user: self.primary_user as int,
            promoted: self.promoted,
        }
    }
}

/// The fingerprint of a key, if it has one.
pub open spec fn fingerprint_of(key: PublicKeyView) -> Option<Seq<u8>> {
    if key.encodable() && key.serialized().len() <= 0xffff {
        Some(key.fingerprint())
    } else {
        None
    }
}

/// The index of the primary user id of a tree and whether it was promoted:
/// the first user id that is marked primary, or else the first user id, with
/// the warning.
pub open spec fn primary_choice(users: Seq<SignedUserView>, fingerprint: Option<Seq<u8>>) -> (
    int,
    bool,
) {
    match fingerprint {
        None => (0, true),
        Some(fp) => match first_marked(users, fp) {
            Some(i) => (i, false),
            None => (0, true),
        },
    }
}

/// The key that a finished tree is; a tree without a primary key is none.
pub open spec fn finish_tree(tree: TreeView, end: usize) -> Result<SignedKeyView, Rejection> {
    match tree.primary_key {
        None => Err(
            Rejection { error: Error::MalformedComposite { offset: end }, offset: end },
        ),
        Some(primary_key) => {
            let choice = primary_choice(tree.details.users, fingerprint_of(primary_key.public));
            Ok(
                SignedKeyView {
                    primary_key,
                    details: tree.details,
                    subkeys: tree.subkeys,
                    primary_user: choice.0,
                    promoted: choice.1,
                },
            )
        },
    }
}

/// The outcome of reading a transferable key from `input`.
pub open spec fn compose(input: Seq<u8>) -> Result<SignedKeyView, Rejection> {
    match assemble(input) {
        Err(r) => Err(r),
        Ok(tree) => finish_tree(tree, input.len() as usize),
    }
}

/// The creation time that `list` states.
fn creation_time_of(list: &Vec<Subpacket>) -> (r: u32)
    ensures
        r == creation_time(subpackets_view(list@)),
{
    let ghost views = subpackets_view(list@);
    let mut i: usize = 0;
    assert(views.skip(0) =~= views);
    while i < list.len()
        invariant
            i <= list.len(),
            views == subpackets_view(list@),
            creation_time(views) == creation_time(views.skip(i as int)),
        decreases list.len() - i,
    {
        assert(views.skip(i as int).drop_first() =~= views.skip(i + 1));
        assert(views.skip(i as int)[0] == list@[i as int]@);
        match &list[i] {
            Subpacket::SignatureCreationTime(t) => {
                return *t;
            },
            _ => {},
        }
        i += 1;
    }
    0
}

/// Whether `list` marks its user id as the primary one.
fn carries_primary(list: &Vec<Subpacket>) -> (r: bool)
    ensures
        r == marks_primary(subpackets_view(list@)),
{
    let ghost views = subpackets_view(list@);
    let mut i: usize = 0;
    while i < list.len()
        invariant
            i <= list.len(),
            views == subpackets_view(list@),
            forall|j: int| 0 <= j < i ==> #[trigger] views[j] != SubpacketView::IsPrimary(true),
        decreases list.len() - i,
    {
        match &list[i] {
            Subpacket::IsPrimary(true) => {
                assert(views[i as int] == SubpacketView::IsPrimary(true));
                return true;
            },
            _ => {},
        }
        i += 1;
    }
    false
}

/// The fingerprint that the first issuer-fingerprint subpacket of `list` names.
fn issuer_fingerprint_of(list: &Vec<Subpacket>) -> (r: Option<&Vec<u8>>)
    ensures
        match r {
            Some(fp) => issuer_fingerprint(subpackets_view(list@)) == Some(fp@),
            None => issuer_fingerprint(subpackets_view(list@)) is None,
        },
{
    let ghost views = subpackets_view(list@);
    let mut i: usize = 0;
    assert(views.skip(0) =~= views);
    while i < list.len()
        invariant
            i <= list.len(),
            views == subpackets_view(list@),
            issuer_fingerprint(views) == issuer_fingerprint(views.skip(i as int)),
        decreases list.len() - i,
    {
        assert(views.skip(i as int).drop_first() =~= views.skip(i + 1));
        assert(views.skip(i as int)[0] == list@[i as int]@);
        match &list[i] {
            Subpacket::IssuerFingerprint(fp) => {
                return Some(fp);
            },
            _ => {},
        }
        i += 1;
    }
    None
}

/// The key id that the first issuer subpacket of `list` names.
fn issuer_key_id_of(list: &Vec<Subpacket>) -> (r: Option<KeyId>)
    ensures
        match r {
            Some(id) => issuer_key_id(subpackets_view(list@)) == Some(id@),
            None => issuer_key_id(subpackets_view(list@)) is None,
        },
{
    let ghost views = subpackets_view(list@);
    let mut i: usize = 0;
    assert(views.skip(0) =~= views);
    while i < list.len()
        invariant
            i <= list.len(),
            views == subpackets_view(list@),
            issuer_key_id(views) == issuer_key_id(views.skip(i as int)),
        decreases list.len() - i,
    {
        assert(views.skip(i as int).drop_first() =~= views.skip(i + 1));
        assert(views.skip(i as int)[0] == list@[i as int]@);
        match &list[i] {
            Subpacket::Issuer(id) => {
                return Some(*id);
            },
            _ => {},
        }
        i += 1;
    }
    None
}

impl Signature {
    /// Whether the signature names the key with fingerprint `fingerprint` as
    /// its issuer.
    pub fn issued_by(&self, fingerprint: &[u8]) -> (r: bool)
        ensures
            r == self@.issued_by(fingerprint@),
    {
        let named = match issuer_fingerprint_of(&self.config.hashed_subpackets) {
            Some(fp) => Some(fp),
            None => issuer_fingerprint_of(&self.config.unhashed_subpackets),
        };
        match named {
            Some(fp) => bytes_eq(fp.as_slice(), fingerprint),
            None => {
                let id = match issuer_key_id_of(&self.config.hashed_subpackets) {
                    Some(id) => Some(id),
                    None => match issuer_key_id_of(&self.config.unhashed_subpackets) {
                        Some(id) => Some(id),
                        None => self.config.issuer,
                    },
                };
                match id {
                    Some(id) => {
                        if fingerprint.len() < 8 {
                            return false;
                        }
                        let tail = slice_subrange(
                            fingerprint,
                            fingerprint.len() - 8,
                            fingerprint.len(),
                        );
                        assert(tail@ =~= fingerprint@.skip(fingerprint@.len() - 8));
                        let octets = id.to_vec();
                        bytes_eq(octets.as_slice(), tail)
                    },
                    None => false,
                }
            },
        }
    }

    /// The creation time of the signature.
    pub fn created_at(&self) -> (r: u32)
        ensures
            r == self@.created_at(),
    {
        match self.config.created {
            Some(t) => t,
            None => creation_time_of(&self.config.hashed_subpackets),
        }
    }

    /// Whether the signature is a certification that the key with
    /// fingerprint `fingerprint` issued on itself.
    pub fn is_self_certification(&self, fingerprint: &[u8]) -> (r: bool)
        ensures
            r == self@.is_self_certification(fingerprint@),
    {
        self.config.typ.certifies() && self.issued_by(fingerprint)
    }
}

/// The index of the self-certification that governs an identity with the
/// signatures `sigs`.
pub fn governing_signature(sigs: &Vec<Signature>, fingerprint: &[u8]) -> (r: Option<usize>)
    ensures
        match r {
            Some(g) => governing(signatures_view(sigs@), fingerprint@) == Some(g as int) && g
                < sigs@.len(),
            None => governing(signatures_view(sigs@), fingerprint@) is None,
        },
{
    let ghost views = signatures_view(sigs@);
    let mut best: Option<usize> = None;
    let mut best_time: u32 = 0;
    let mut i: usize = 0;
    assert(views.take(0) =~= Seq::<SignatureView>::empty());
    while i < sigs.len()
        invariant
            i <= sigs.len(),
            views == signatures_view(sigs@),
            match best {
                Some(g) => governing(views.take(i as int), fingerprint@) == Some(g as int) && g < i
                    && best_time == views[g as int].created_at(),
                None => governing(views.take(i as int), fingerprint@) is None,
            },
        decreases sigs.len() - i,
    {
        proof {
            assert(views.take(i + 1).drop_last() =~= views.take(i as int));
            assert(views.take(i + 1).last() == views[i as int]);
            assert(views[i as int] == sigs@[i as int]@);
            match best {
                Some(g) => {
                    assert(views.take(i + 1)[g as int] == views[g as int]);
                },
                None => {},
            }
        }
        if sigs[i].is_self_certification(fingerprint) {
            let time = sigs[i].created_at();
            let newer = match best {
                Some(_) => best_time <= time,
                None => true,
            };
            if newer {
                best = Some(i);
                best_time = time;
            }
        }
        i += 1;
    }
    assert(views.take(i as int) =~= views);
    best
}

/// The index of the first user id of `users` that is marked primary.
pub fn first_marked_user(users: &Vec<SignedUser>, fingerprint: &[u8]) -> (r: Option<usize>)
    ensures
        match r {
            Some(i) => first_marked(signed_users_view(users@), fingerprint@) == Some(i as int) && i
                < users@.len(),
            None => first_marked(signed_users_view(users@), fingerprint@) is None,
        },
{
    let ghost views = signed_users_view(users@);
    let mut i: usize = 0;
    assert(views.skip(0) =~= views);
    while i < users.len()
        invariant
            i <= users.len(),
            views == signed_users_view(users@),
            first_marked(views, fingerprint@) == (match first_marked(
                views.skip(i as int),
                fingerprint@,
            ) {
                Some(k) => Some(k + i),
                None => None,
            }),
        decreases users.len() - i,
    {
        proof {
            assert(views.skip(i as int).drop_first() =~= views.skip(i + 1));
            assert(views.skip(i as int)[0] == users@[i as int]@);
        }
        let marked = match governing_signature(&users[i].signatures, fingerprint) {
            Some(g) => carries_primary(&users[i].signatures[g].config.hashed_subpackets),
            None => false,
        };
        if marked {
            return Some(i);
        }
        i += 1;
    }
    None
}

impl SignedKey {
    /// Reads a transferable key from `input`: groups its packets by the
    /// grammar of a key and settles which user id is the primary one.
    pub fn from_bytes(input: &[u8]) -> (r: Result<SignedKey, Rejection>)
        ensures
            match r {
                Ok(key) => compose(input@) == Ok::<SignedKeyView, Rejection>(key@),
                Err(rejection) => compose(input@) == Err::<SignedKeyView, Rejection>(rejection)
                    && rejection.offset <= input@.len(),
            },
    {
        let end = input.len();
        proof {
            lemma_rejection_within_input(input@, 0, Progress::initial(), TreeView::empty());
        }
        let tree = match assemble_bytes(input) {
            Ok(t) => t,
            Err(r) => {
                return Err(r);
            },
        };
        let Tree { primary_key, details, subkeys } = tree;
        let primary_key = match primary_key {
            Some(k) => k,
            None => {
                return Err(
                    Rejection {
                        error: Error::MalformedComposite { offset: input.len() },
                        offset: input.len(),
                    },
                );
            },
        };
        let marked = match primary_key.public.fingerprint() {
            Some(fp) => first_marked_user(&details.users, fp.as_slice()),
            None => None,
        };
        let (primary_user, promoted) = match marked {
            Some(i) => (i, false),
            None => (0, true),
        };
        Ok(SignedKey { primary_key, details, subkeys, primary_user, promoted })
    }

    /// Whether the primary key is a secret key.
    pub fn is_secret(&self) -> (r: bool)
        ensures
            r == self@.primary_key.secret is Some,
    {
        self.primary_key.secret.is_some()
    }
}

/// Assembling the re-emitted packets of an accepted stream goes as assembling
/// the stream itself went.
proof fn lemma_reemitted_assembles(
    input: Seq<u8>,
    pos: int,
    pre: Seq<u8>,
    state: Progress,
    tree: TreeView,
)
    requires
        0 <= pos,
        input.len() <= u32::MAX,
        assemble_from(input, pos, state, tree) is Ok,
    ensures
        assemble_from(pre + reemit(input, pos), pre.len() as int, state, tree) == assemble_from(
            input,
            pos,
            state,
            tree,
        ),
    decreases input.len() - pos,
{
    let out = pre + reemit(input, pos);
    if pos >= input.len() {
        assert(out =~= pre);
    } else {
        lemma_parsed_packet_bounds(input, pos);
        match parse_packet(input, pos) {
            Ok((p, next)) => {
                let rest = reemit(input, next);
                assert(out =~= pre + p.serialized() + rest);
                lemma_packet_roundtrip(pre, p, rest);
                let pre2 = pre + p.serialized();
                assert(out =~= pre2 + rest);
                assert(p.serialized().len() >= 1);
                match parse_item(p) {
                    Ok(item) => {
                        let token = token_of(p.tag, item);
                        match state.step(token) {
                            Some(after) => {
                                lemma_reemitted_assembles(
                                    input,
                                    next,
                                    pre2,
                                    after,
                                    tree.attach(token, item),
                                );
                            },
                            None => {},
                        }
                    },
                    Err(_) => {},
                }
            },
            Err(_) => {},
        }
    }
}

/// A packet stream that is accepted remains accepted after its packets are
/// emitted again and read again, and yields the same key.
pub proof fn lemma_accepted_stays_accepted(input: Seq<u8>)
    requires
        input.len() <= u32::MAX,
        compose(input) is Ok,
    ensures
        compose(reemit(input, 0)) == compose(input),
{
    let out = reemit(input, 0);
    assert(Seq::<u8>::empty() + out =~= out);
    lemma_reemitted_assembles(
        input,
        0,
        Seq::<u8>::empty(),
        Progress::initial(),
        TreeView::empty(),
    );
}

/// A key that is well formed and has an encoding is read back from the body
/// of its packet: a key without secret parameters from a public key or
/// subkey packet, a key with secret parameters of the shape of its algorithm
/// from a secret one.
pub proof fn lemma_key_packet_roundtrip(version: Version, tag: Tag, key: KeyMaterialView)
    requires
        key.encodable(),
        key.public.well_formed(),
        match key.secret {
            None => tag == Tag::PublicKey || tag == Tag::PublicSubkey,
            Some(s) => (tag == Tag::SecretKey || tag == Tag::SecretSubkey) && s.belongs_to(
                key.public.algorithm,
            ),
        },
    ensures
        parse_item(PacketView { version, tag, body: key.serialized() }) == Ok::<ItemView, Error>(
            ItemView::Key(key),
        ),
{
    let public = key.public.serialized();
    match key.secret {
        None => {
            assert(key.serialized() =~= public + Seq::<u8>::empty());
            lemma_public_key_roundtrip(key.public, Seq::<u8>::empty());
            assert(key.serialized().len() == public.len());
        },
        Some(s) => {
            lemma_public_key_roundtrip(key.public, s.serialized());
            lemma_secret_params_roundtrip(key.public.algorithm, public, s);
        },
    }
}

} // verus!
