//! The grammar of a transferable key and the machine that recognizes it.
//!
//! ```text
//! Key         := PrimaryKey DirectSig* UserBlock+ AttrBlock* SubkeyBlock*
//! UserBlock   := UserId CertSig+
//! AttrBlock   := UserAttribute CertSig+
//! SubkeyBlock := Subkey BindingSig+ RevocSig*
//! ```
//!
//! The primary key is a public or a secret key, and every subkey is of the
//! same kind. The machine reads one packet at a time. Its phase names what it
//! has just read; it can stop when the last thing read is a certification of
//! a user id or user attribute, or a signature on a subkey.

use crate::packet::signature::SignatureType;
use crate::types::tag::Tag;
use vstd::prelude::*;

verus! {

/// What a packet is to the grammar.
#[derive(Debug, Clone, Copy, PartialEq, Eq, Structural)]
pub enum Token {
    /// A public-key or secret-key packet.
    PrimaryKey { secret: bool },
    /// A public-subkey or secret-subkey packet.
    Subkey { secret: bool },
    /// A user id packet.
    UserId,
    /// A user attribute packet.
    UserAttribute,
    /// A signature directly on a key, or a key revocation.
    DirectSig,
    /// A certification of an identity, or the revocation of one.
    CertSig,
    /// A subkey binding signature.
    BindingSig,
    /// A subkey revocation signature.
    RevocSig,
    /// Any other packet.
    Other,
}

/// The phases of the machine.
#[derive(Debug, Clone, Copy, PartialEq, Eq, Structural)]
pub enum Phase {
    /// Nothing has been read.
    Start,
    /// The primary key has been read.
    ReadPrimary,
    /// A signature on the primary key has been read.
    ReadDirectSigs,
    /// A user id or user attribute has been read and waits for its first
    /// certification.
    ReadUserOrAttr,
    /// A certification of the current user id or user attribute has been read.
    ReadUserSigs,
    /// A subkey has been read and waits for its first binding signature.
    ReadSubkey,
    /// A signature on the current subkey has been read.
    ReadSubkeySigs,
    /// The end of the stream was reached where the key may end.
    Done,
}

/// The state of the machine: its phase and what it remembers of the packets
/// behind it.
#[derive(Debug, Clone, Copy, PartialEq, Eq, Structural)]
pub struct Progress {
    pub phase: Phase,
    /// Whether the primary key is a secret key.
    pub secret: bool,
    /// Whether a user attribute has been read, after which no user id may come.
    pub attributes_started: bool,
    /// Whether the current subkey has a revocation, after which no binding
    /// signature may come.
    pub revoked: bool,
}

impl Token {
    /// The token of a packet with tag `tag` that, if it is a signature, has
    /// the type `typ`.
    pub open spec fn of(tag: Tag, typ: Option<SignatureType>) -> Token {
        match tag {
            Tag::PublicKey => Token::PrimaryKey { secret: false },
            Tag::SecretKey => Token::PrimaryKey { secret: true },
            Tag::PublicSubkey => Token::Subkey { secret: false },
            Tag::SecretSubkey => Token::Subkey { secret: true },
            Tag::UserId => Token::UserId,
            Tag::UserAttribute => Token::UserAttribute,
            Tag::Signature => match typ {
                Some(SignatureType::DirectKey) | Some(SignatureType::KeyRevocation) => Token::DirectSig,
                Some(SignatureType::CertGeneric)
                | Some(SignatureType::CertPersona)
                | Some(SignatureType::CertCasual)
                | Some(SignatureType::CertPositive)
                | Some(SignatureType::CertRevocation) => Token::CertSig,
                Some(SignatureType::SubkeyBinding) => Token::BindingSig,
                Some(SignatureType::SubkeyRevocation) => Token::RevocSig,
                _ => Token::Other,
            },
            _ => Token::Other,
        }
    }

    /// The token of a packet with tag `tag` that, if it is a signature, has
    /// the type `typ`.
    pub fn classify(tag: Tag, typ: Option<SignatureType>) -> (r: Token)
        ensures
            r == Token::of(tag, typ),
    {
        match tag {
            Tag::PublicKey => Token::PrimaryKey { secret: false },
            Tag::SecretKey => Token::PrimaryKey { secret: true },
            Tag::PublicSubkey => Token::Subkey { secret: false },
            Tag::SecretSubkey => Token::Subkey { secret: true },
            Tag::UserId => Token::UserId,
            Tag::UserAttribute => Token::UserAttribute,
            Tag::Signature => match typ {
                Some(SignatureType::DirectKey) | Some(SignatureType::KeyRevocation) => Token::DirectSig,
                Some(SignatureType::CertGeneric)
                | Some(SignatureType::CertPersona)
                | Some(SignatureType::CertCasual)
                | Some(SignatureType::CertPositive)
                | Some(SignatureType::CertRevocation) => Token::CertSig,
                Some(SignatureType::SubkeyBinding) => Token::BindingSig,
                Some(SignatureType::SubkeyRevocation) => Token::RevocSig,
                _ => Token::Other,
            },
            _ => Token::Other,
        }
    }
}

impl Progress {
    /// The machine before it has read anything.
    pub open spec fn initial() -> Progress {
        Progress {
            phase: Phase::Start,
            secret: false,
            attributes_started: false,
            revoked: false,
        }
    }

    /// The state after `token`, or `None` when the grammar does not allow
    /// `token` here.
    pub open spec fn step(self, token: Token) -> Option<Progress> {
        match (self.phase, token) {
            (Phase::Start, Token::PrimaryKey { secret }) => Some(
                Progress { phase: Phase::ReadPrimary, secret, ..self },
            ),
            (Phase::ReadPrimary, Token::DirectSig) | (Phase::ReadDirectSigs, Token::DirectSig) => Some(
                Progress { phase: Phase::ReadDirectSigs, ..self },
            ),
            (Phase::ReadPrimary, Token::UserId) | (Phase::ReadDirectSigs, Token::UserId) => Some(
                Progress { phase: Phase::ReadUserOrAttr, ..self },
            ),
            (Phase::ReadUserOrAttr, Token::CertSig) | (Phase::ReadUserSigs, Token::CertSig) => Some(
                Progress { phase: Phase::ReadUserSigs, ..self },
            ),
            (Phase::ReadUserSigs, Token::UserId) => if self.attributes_started {
                None
            } else {
                Some(Progress { phase: Phase::ReadUserOrAttr, ..self })
            },
            (Phase::ReadUserSigs, Token::UserAttribute) => Some(
                Progress { phase: Phase::ReadUserOrAttr, attributes_started: true, ..self },
            ),
            (Phase::ReadUserSigs, Token::Subkey { secret }) | (
                Phase::ReadSubkeySigs,
                Token::Subkey { secret },
            ) => if secret == self.secret {
                Some(Progress { phase: Phase::ReadSubkey, revoked: false, ..self })
            } else {
                None
            },
            (Phase::ReadSubkey, Token::BindingSig) => Some(
                Progress { phase: Phase::ReadSubkeySigs, ..self },
            ),
            (Phase::ReadSubkeySigs, Token::BindingSig) => if self.revoked {
                None
            } else {
                Some(self)
            },
            (Phase::ReadSubkeySigs, Token::RevocSig) => Some(Progress { revoked: true, ..self }),
            _ => None,
        }
    }

    /// Whether the stream may end here: at least one user id has been read
    /// with a certification, and no identity or subkey waits for its first
    /// signature.
    pub open spec fn can_finish(self) -> bool {
        self.phase == Phase::ReadUserSigs || self.phase == Phase::ReadSubkeySigs
    }

    /// The state after the end of the stream, or `None` when the key may not
    /// end here.
    pub open spec fn finish(self) -> Option<Progress> {
        if self.can_finish() {
            Some(Progress { phase: Phase::Done, ..self })
        } else {
            None
        }
    }

    /// The machine before it has read anything.
    pub fn new() -> (r: Progress)
        ensures
            r == Progress::initial(),
    {
        Progress { phase: Phase::Start, secret: false, attributes_started: false, revoked: false }
    }

    /// Feeds one token to the machine.
    pub fn advance(self, token: Token) -> (r: Option<Progress>)
        ensures
            r == self.step(token),
    {
        match (self.phase, token) {
            (Phase::Start, Token::PrimaryKey { secret }) => Some(
                Progress { phase: Phase::ReadPrimary, secret, ..self },
            ),
            (Phase::ReadPrimary, Token::DirectSig) | (Phase::ReadDirectSigs, Token::DirectSig) => Some(
                Progress { phase: Phase::ReadDirectSigs, ..self },
            ),
            (Phase::ReadPrimary, Token::UserId) | (Phase::ReadDirectSigs, Token::UserId) => Some(
                Progress { phase: Phase::ReadUserOrAttr, ..self },
            ),
            (Phase::ReadUserOrAttr, Token::CertSig) | (Phase::ReadUserSigs, Token::CertSig) => Some(
                Progress { phase: Phase::ReadUserSigs, ..self },
            ),
            (Phase::ReadUserSigs, Token::UserId) => if self.attributes_started {
                None
            } else {
                Some(Progress { phase: Phase::ReadUserOrAttr, ..self })
            },
            (Phase::ReadUserSigs, Token::UserAttribute) => Some(
                Progress { phase: Phase::ReadUserOrAttr, attributes_started: true, ..self },
            ),
            (Phase::ReadUserSigs, Token::Subkey { secret }) | (
                Phase::ReadSubkeySigs,
                Token::Subkey { secret },
            ) => if secret == self.secret {
                Some(Progress { phase: Phase::ReadSubkey, revoked: false, ..self })
            } else {
                None
            },
            (Phase::ReadSubkey, Token::BindingSig) => Some(
                Progress { phase: Phase::ReadSubkeySigs, ..self },
            ),
            (Phase::ReadSubkeySigs, Token::BindingSig) => if self.revoked {
                None
            } else {
                Some(self)
            },
            (Phase::ReadSubkeySigs, Token::RevocSig) => Some(Progress { revoked: true, ..self }),
            _ => None,
        }
    }

    /// Tells the machine that the stream has ended.
    pub fn end(self) -> (r: Option<Progress>)
        ensures
            r == self.finish(),
    {
        match self.phase {
            Phase::ReadUserSigs | Phase::ReadSubkeySigs => Some(
                Progress { phase: Phase::Done, ..self },
            ),
            _ => None,
        }
    }
}

/// The outcome of feeding `tokens` to the machine in state `from`: the state
/// after the last token, or the index of the first token that the grammar
/// does not allow.
pub open spec fn run(from: Progress, tokens: Seq<Token>) -> Result<Progress, nat>
    decreases tokens.len(),
{
    if tokens.len() == 0 {
        Ok(from)
    } else {
        match run(from, tokens.drop_last()) {
            Err(i) => Err(i),
            Ok(state) => match state.step(tokens.last()) {
                Some(next) => Ok(next),
                None => Err((tokens.len() - 1) as nat),
            },
        }
    }
}

/// The outcome of recognizing a whole stream: `Ok` when the tokens form a
/// key, otherwise the index of the token that the grammar does not allow, or
/// the number of tokens when the stream ends where the key may not end.
pub open spec fn recognize(tokens: Seq<Token>) -> Result<Progress, nat> {
    match run(Progress::initial(), tokens) {
        Err(i) => Err(i),
        Ok(state) => match state.finish() {
            Some(done) => Ok(done),
            None => Err(tokens.len()),
        },
    }
}

/// Whether the tokens form a key.
pub open spec fn accepts(tokens: Seq<Token>) -> bool {
    recognize(tokens) is Ok
}

/// A stream that is accepted starts with a primary key and holds a user id
/// with a certification behind it.
pub proof fn lemma_accepted_has_user(tokens: Seq<Token>)
    requires
        accepts(tokens),
    ensures
        tokens.len() >= 3,
        tokens[0] is PrimaryKey,
        exists|i: int| user_block_at(tokens, i),
{
    lemma_run_user(Progress::initial(), tokens);
}

/// Whether a user id stands at index `i`, behind the primary key, with a
/// certification right after it.
pub open spec fn user_block_at(tokens: Seq<Token>, i: int) -> bool {
    0 < i < tokens.len() - 1 && tokens[i] == Token::UserId && tokens[i + 1] == Token::CertSig
}

/// Whether the machine in this state has the first user block behind it.
pub open spec fn past_first_user(p: Progress) -> bool {
    p.phase == Phase::ReadUserSigs || p.phase == Phase::ReadSubkey || p.phase
        == Phase::ReadSubkeySigs
}

/// What is known of the tokens behind a machine that started at the
/// beginning.
proof fn lemma_run_user(from: Progress, tokens: Seq<Token>)
    requires
        from == Progress::initial(),
        run(from, tokens) is Ok,
    ensures
        run(from, tokens)->Ok_0.phase != Phase::Start ==> tokens.len() >= 1 && tokens[0] is PrimaryKey,
        run(from, tokens)->Ok_0.phase == Phase::Start ==> tokens.len() == 0,
        run(from, tokens)->Ok_0.phase != Phase::Done,
        run(from, tokens)->Ok_0.phase == Phase::ReadUserOrAttr ==> tokens.len() >= 2 && (
        tokens.last() == Token::UserId || exists|i: int| user_block_at(tokens, i)),
        past_first_user(run(from, tokens)->Ok_0) ==> tokens.len() >= 3 && exists|i: int|
            user_block_at(tokens, i),
    decreases tokens.len(),
{
    if tokens.len() > 0 {
        let front = tokens.drop_last();
        let n = tokens.len() as int;
        lemma_run_user(from, front);
        let before = run(from, front)->Ok_0;
        let after = run(from, tokens)->Ok_0;
        assert(before.step(tokens.last()) == Some(after));
        if front.len() >= 1 {
            assert(tokens[0] == front[0]);
        }
        if exists|i: int| user_block_at(front, i) {
            let i = choose|i: int| user_block_at(front, i);
            assert(tokens[i] == front[i] && tokens[i + 1] == front[i + 1]);
            assert(user_block_at(tokens, i));
        } else if past_first_user(after) {
            // The first certification of the first user id has just been read.
            assert(before.phase == Phase::ReadUserOrAttr);
            assert(tokens[n - 2] == front.last());
            assert(user_block_at(tokens, n - 2));
        }
    }
}

} // verus!
