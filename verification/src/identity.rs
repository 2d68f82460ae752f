//! Identities and ledger accounts.
//!
//! An identity is a principal: up to 29 bytes, with a text form that
//! carries a check sum. The text form is the business of the `candid` crate;
//! this module calls it to parse and to print, and holds an identity as
//! plain bytes.

use crate::error::LotteryError;
use vstd::prelude::*;

verus! {

/// The largest number of bytes an identity can have.
pub const MAX_IDENTITY_BYTES: usize = 29;

/// The error of `candid`'s principal conversions. It is carried through
/// unread.
#[verifier::external_type_specification]
#[verifier::external_body]
pub struct ExPrincipalError(candid::types::principal::PrincipalError);

/// The bytes that a textual principal stands for, or `None` where the text is
/// no principal: what `candid::Principal::from_text` decides.
pub uninterp spec fn principal_of_text(text: Seq<char>) -> Option<Seq<u8>>;

/// The text form of a principal given by its bytes: what
/// `candid::Principal::to_text` prints.
pub uninterp spec fn text_of_principal(bytes: Seq<u8>) -> Seq<char>;

/// Calls `candid::Principal::from_text` and hands out the bytes of the
/// principal it parsed. Trusted: the result is `principal_of_text` of the
/// text, and a parsed principal has at most 29 bytes.
#[verifier::external_body]
fn principal_from_text(text: &str) -> (r: Result<
    Vec<u8>,
    candid::types::principal::PrincipalError,
>)
    ensures
        match r {
            Ok(bytes) => principal_of_text(text@) == Some(bytes@) && bytes@.len() <= 29,
            Err(_) => principal_of_text(text@) is None,
        },
{
    match candid::Principal::from_text(text) {
        Ok(principal) => Ok(principal.as_slice().to_vec()),
        Err(e) => Err(e),
    }
}

/// Calls `candid::Principal::try_from_slice` and prints the principal with
/// `to_text`. Trusted: the slice is refused exactly when it is longer than 29
/// bytes, and otherwise the text is `text_of_principal` of the bytes.
#[verifier::external_body]
fn principal_to_text(bytes: &Vec<u8>) -> (r: Result<
    String,
    candid::types::principal::PrincipalError,
>)
    ensures
        r is Ok <==> bytes@.len() <= 29,
        r matches Ok(text) ==> text@ == text_of_principal(bytes@),
{
    match candid::Principal::try_from_slice(bytes.as_slice()) {
        Ok(principal) => Ok(principal.to_text()),
        Err(e) => Err(e),
    }
}

/// Calls `candid::Principal::anonymous`. Trusted: the anonymous principal is
/// the single byte 4.
#[verifier::external_body]
fn anonymous_principal() -> (r: Vec<u8>)
    ensures
        r@ == seq![4u8],
{
    candid::Principal::anonymous().as_slice().to_vec()
}

/// An opaque, globally unique caller address, held as the bytes of its
/// principal.
#[derive(Debug, PartialEq, Eq)]
pub struct Identity {
    pub bytes: Vec<u8>,
}

impl View for Identity {
    type V = Seq<u8>;

    open spec fn view(&self) -> Seq<u8> {
        self.bytes@
    }
}

impl Clone for Identity {
    fn clone(&self) -> (r: Self)
        ensures
            r@ == self@,
    {
        let bytes = self.bytes.clone();
        assert(bytes@ =~= self.bytes@);
        Identity { bytes }
    }
}

impl Identity {
    /// An identity is valid when it fits a principal.
    pub open spec fn wf(&self) -> bool {
        self@.len() <= MAX_IDENTITY_BYTES
    }

    /// Parses the textual form of a principal.
    pub fn from_text(text: &str) -> (r: Result<Identity, LotteryError>)
        ensures
            match r {
                Ok(id) => principal_of_text(text@) == Some(id@) && id.wf(),
                Err(e) => principal_of_text(text@) is None && e == LotteryError::ValidationError,
            },
    {
        match principal_from_text(text) {
            Ok(bytes) => Ok(Identity { bytes }),
            Err(_) => Err(LotteryError::ValidationError),
        }
    }

    /// The textual form of the identity; `None` where it is not valid.
    pub fn to_text(&self) -> (r: Option<String>)
        ensures
            r is Some <==> self.wf(),
            r matches Some(text) ==> text@ == text_of_principal(self@),
    {
        match principal_to_text(&self.bytes) {
            Ok(text) => Some(text),
            Err(_) => None,
        }
    }

    /// The identity of a caller that has not authenticated.
    pub fn anonymous() -> (r: Identity)
        ensures
            r@ == seq![4u8],
            r.wf(),
    {
        Identity { bytes: anonymous_principal() }
    }

    /// Whether two identities are the same address.
    pub fn same_as(&self, other: &Identity) -> (r: bool)
        ensures
            r == (self@ == other@),
    {
        let r = self.bytes == other.bytes;
        proof {
            if r {
                assert(self.bytes@ =~= other.bytes@);
            }
        }
        r
    }
}

/// The view of an optional byte string.
pub open spec fn bytes_view(bytes: Option<Vec<u8>>) -> Option<Seq<u8>> {
    match bytes {
        Some(b) => Some(b@),
        None => None,
    }
}

/// Copies an optional byte string.
pub fn clone_bytes(bytes: &Option<Vec<u8>>) -> (r: Option<Vec<u8>>)
    ensures
        bytes_view(r) == bytes_view(*bytes),
{
    match bytes {
        Some(b) => {
            let c = b.clone();
            assert(c@ =~= b@);
            Some(c)
        },
        None => None,
    }
}

/// A ledger account: an owner and an optional sub-address. A custodial
/// address of the lottery is such an account.
#[derive(Debug, PartialEq, Eq)]
pub struct Account {
    pub owner: Identity,
    pub subaccount: Option<Vec<u8>>,
}

/// What an [`Account`] holds.
#[verifier::ext_equal]
pub struct AccountView {
    pub owner: Seq<u8>,
    pub subaccount: Option<Seq<u8>>,
}

impl View for Account {
    type V = AccountView;

    open spec fn view(&self) -> AccountView {
        AccountView { owner: self.owner@, subaccount: bytes_view(self.subaccount) }
    }
}

impl Clone for Account {
    fn clone(&self) -> (r: Self)
        ensures
            r@ == self@,
    {
        Account { owner: self.owner.clone(), subaccount: clone_bytes(&self.subaccount) }
    }
}

impl Default for Account {
    /// The account of the anonymous identity, without a sub-address.
    fn default() -> (r: Self)
        ensures
            r@ == (AccountView { owner: seq![4u8], subaccount: None }),
    {
        Account { owner: Identity::anonymous(), subaccount: None }
    }
}

impl Account {
    /// The view of an optional account.
    pub open spec fn option_view(account: Option<Account>) -> Option<AccountView> {
        match account {
            Some(a) => Some(a@),
            None => None,
        }
    }

    /// The main account of an identity: the one without a sub-address.
    pub fn main_of(owner: &Identity) -> (r: Account)
        ensures
            r@ == (AccountView { owner: owner@, subaccount: None }),
    {
        Account { owner: owner.clone(), subaccount: None }
    }

    /// The deposit account of an identity: its sub-address is the identity's
    /// own bytes.
    pub fn deposit_of(owner: &Identity) -> (r: Account)
        ensures
            r@ == (AccountView { owner: owner@, subaccount: Some(owner@) }),
    {
        let sub = owner.bytes.clone();
        assert(sub@ =~= owner.bytes@);
        Account { owner: owner.clone(), subaccount: Some(sub) }
    }
}

} // verus!
