//! Who may take part: accounts with a registered identity (display name and website)
//! that has a good judgement.
use vstd::prelude::*;
use pallet_identity::legacy::IdentityField;
use crate::types::Error;

verus! {

/// The provider of identities, implemented by the runtime that uses the pallet.
pub trait IdentityVerifier<AccountId> {
    /// Whether an account has an identity registered with the identity provider, with
    /// all the fields in `fields` (a set of identity-field flags).
    fn has_identity(who: &AccountId, fields: u64) -> bool;

    /// Whether an account has been deemed "good" by the provider.
    fn has_good_judgement(who: &AccountId) -> bool;
}

/// The non-provider. Imposes no restrictions on account identity.
impl<AccountId> IdentityVerifier<AccountId> for () {
    /// Every account counts as identified.
    fn has_identity(_who: &AccountId, _fields: u64) -> (identified: bool)
        ensures
            identified,
    {
        true
    }

    /// Every account counts as judged good.
    fn has_good_judgement(_who: &AccountId) -> (good: bool)
        ensures
            good,
    {
        true
    }
}

/// The identity fields a participant must have registered.
#[derive(Clone, Copy, Debug, PartialEq, Eq)]
pub enum RequiredField {
    /// The display name.
    Display,
    /// The website.
    Web,
}

/// The flag of a field in the identity pallet's field set.
pub open spec fn field_flag(field: RequiredField) -> u64 {
    match field {
        RequiredField::Display => 1,
        RequiredField::Web => 4,
    }
}

/// The flag of a field, as `pallet_identity::legacy::IdentityField` numbers it. That enum
/// is `#[bitflags] #[repr(u64)]` with `Display` first and `Web` third, so its
/// discriminants are `1 << 0` and `1 << 2`; the contract claims those values.
#[verifier::external_body]
pub fn identity_field_flag(field: RequiredField) -> (flag: u64)
    ensures
        flag == field_flag(field),
{
    match field {
        RequiredField::Display => IdentityField::Display as u64,
        RequiredField::Web => IdentityField::Web as u64,
    }
}

/// The field set asked of a participant: display name and website.
pub fn required_identity_fields() -> (fields: u64)
    ensures
        fields == 5,
{
    let display = identity_field_flag(RequiredField::Display);
    let web = identity_field_flag(RequiredField::Web);
    assert(1u64 | 4u64 == 5u64) by (bit_vector);
    display | web
}

/// The verdict on an account, from what the identity provider answered.
pub open spec fn identity_verdict(has_identity: bool, has_good_judgement: bool) -> Result<(), Error> {
    if !has_identity {
        Err(Error::WithoutIdentityDisplayAndWebsite)
    } else if !has_good_judgement {
        Err(Error::WithoutGoodIdentityJudgement)
    } else {
        Ok(())
    }
}

/// The verdict on an account, from what the identity provider answered.
pub fn identity_judgement(has_identity: bool, has_good_judgement: bool) -> (r: Result<(), Error>)
    ensures
        r == identity_verdict(has_identity, has_good_judgement),
{
    if !has_identity {
        return Err(Error::WithoutIdentityDisplayAndWebsite);
    }
    if !has_good_judgement {
        return Err(Error::WithoutGoodIdentityJudgement);
    }
    Ok(())
}

/// The identity provider `I` may answer `answer` when asked whether `who` has an identity
/// with all of `fields`.
pub open spec fn may_answer_identity<I: IdentityVerifier<u64>>(who: &u64, fields: u64, answer: bool) -> bool {
    call_ensures(I::has_identity, (who, fields), answer)
}

/// The identity provider `I` may answer `answer` when asked whether `who` is judged good.
pub open spec fn may_answer_judgement<I: IdentityVerifier<u64>>(who: &u64, answer: bool) -> bool {
    call_ensures(I::has_good_judgement, (who,), answer)
}

/// The identity provider `I` answers yes to both questions about `who`, whatever it is
/// asked about the fields in `fields`.
pub open spec fn always_accepts<I: IdentityVerifier<u64>>(who: &u64, fields: u64) -> bool {
    &&& forall|a: bool| #[trigger] may_answer_identity::<I>(who, fields, a) ==> a
    &&& forall|g: bool| #[trigger] may_answer_judgement::<I>(who, g) ==> g
}

/// An identity refusal in `r` is backed by the provider's answer: no registered identity
/// with the fields, or an identity that is not judged good.
pub open spec fn refusal_backed<T, I: IdentityVerifier<u64>>(who: &u64, r: Result<T, Error>) -> bool {
    &&& r == Err::<T, Error>(Error::WithoutIdentityDisplayAndWebsite) ==> may_answer_identity::<I>(
        who,
        5,
        false,
    )
    &&& r == Err::<T, Error>(Error::WithoutGoodIdentityJudgement) ==> may_answer_identity::<I>(
        who,
        5,
        true,
    ) && may_answer_judgement::<I>(who, false)
}

/// A verdict that the identity check can give.
pub open spec fn is_identity_outcome(r: Result<(), Error>) -> bool {
    ||| r is Ok
    ||| r == Err::<(), Error>(Error::WithoutIdentityDisplayAndWebsite)
    ||| r == Err::<(), Error>(Error::WithoutGoodIdentityJudgement)
}

} // verus!
