use vstd::prelude::*;
use vstd::string::StrSliceExecFns;

use crate::errors::ServiceError;

verus! {

/// Gender of a profile, and the gender a profile is looking for.
#[derive(Debug, Clone, Copy, PartialEq, Eq, Structural)]
pub enum Gender {
    Male,
    Female,
    /// Stored as "any"; a preference `Any` matches profiles stored as `Any`.
    Any,
}

/// Whether a candidate of gender `g` fits the preference `wanted`: the two
/// are the same value.
pub open spec fn gender_fits(wanted: Gender, g: Gender) -> bool {
    wanted == g
}

impl Gender {
    /// Whether a candidate of gender `g` fits this preference.
    pub fn accepts(&self, g: Gender) -> (r: bool)
        ensures
            r == gender_fits(*self, g),
    {
        *self == g
    }

    /// The lower-case name under which the gender is stored.
    pub fn as_str(&self) -> (r: &'static str)
        ensures
            *self == Gender::Male ==> r@ == "male"@,
            *self == Gender::Female ==> r@ == "female"@,
            *self == Gender::Any ==> r@ == "any"@,
    {
        match self {
            Gender::Male => "male",
            Gender::Female => "female",
            Gender::Any => "any",
        }
    }
}

/// A swipe decision sent by the authenticated identity.
#[derive(Debug)]
pub struct SwipeUserRequest {
    pub swiped_uuid: String,
    /// `true` to accept, `false` to reject.
    pub love: bool,
}

/// A chat message to store in a pairing.
#[derive(Debug)]
pub struct CreateMessageRequest {
    pub message: String,
    pub poster_uuid: String,
    pub love_uuid: String,
}

/// A read receipt: the viewer has read the messages that `lover_ticked_uuid`
/// posted in pairing `love_uuid`.
#[derive(Debug)]
pub struct GreenTickMessagesRequest {
    pub love_uuid: String,
    pub lover_ticked_uuid: String,
}

/// Outcome of a successful swipe.
#[derive(Debug, Clone, Copy, PartialEq, Eq, Structural)]
pub enum SwipeUserResponse {
    /// The swipe completed a mutual acceptance and a pairing was created.
    Matched,
    /// The swipe was stored; no pairing came of it.
    Recorded,
}

/// Most characters that a profile description may hold.
pub const MAX_DESCRIPTION_CHARS: usize = 1000;

/// Refuses a profile description longer than `MAX_DESCRIPTION_CHARS`
/// characters (characters, not bytes).
pub fn check_description(description: &String) -> (r: Result<(), ServiceError>)
    ensures
        description@.len() <= MAX_DESCRIPTION_CHARS ==> r is Ok,
        description@.len() > MAX_DESCRIPTION_CHARS ==> match r {
            Err(ServiceError::ValueNotAccepted(v, why)) => v@ == description@ && why@
                == "Description string is too long"@,
            _ => false,
        },
{
    if description.as_str().unicode_len() > MAX_DESCRIPTION_CHARS {
        return Err(
            ServiceError::ValueNotAccepted(
                description.clone(),
                "Description string is too long".to_string(),
            ),
        );
    }
    Ok(())
}

} // verus!
