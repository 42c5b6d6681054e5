//! The identity check at the outside provider: which address to ask, and
//! what the answer means.

use vstd::prelude::*;
use vstd::string::StringExecFns;
use crate::objects::{Identity, UserInfo};
use crate::utils::{parse_uuid, parsed_uuid};

verus! {

/// Why the provider did not vouch for the claimed identity.
#[derive(Clone, Copy, Debug, PartialEq, Eq, Structural)]
pub enum VerifyError {
    /// The request could not be sent, or no answer came in time.
    UpstreamUnreachable,
    /// The provider answered with a status outside the 2xx range.
    UpstreamRejected,
    /// The answer was not JSON with a `name` and an `id` text, or the `id`
    /// was no UUID.
    MalformedUpstreamResponse,
}

/// What came of the one request to the provider.
#[derive(Debug)]
pub enum UpstreamReply {
    /// The request could not be sent, or timed out.
    Unreachable,
    /// The provider answered. `body` is `None` where the body was not read
    /// or was not text.
    Answered { status: u16, body: Option<String> },
}

/// The string member `key` of the JSON object that `serde_json` reads from
/// `body`; `None` where `body` is no JSON object or holds no string there.
pub uninterp spec fn json_member(body: Seq<char>, key: Seq<char>) -> Option<Seq<char>>;

/// Parses `body` with `serde_json::from_str` into a `serde_json::Value`,
/// looks `key` up with `Value::get` and takes the text out of a
/// `Value::String`. Text that does not parse, a document that is no object,
/// a missing member and a member that is no string all give `None`.
#[verifier::external_body]
fn json_string_member(body: &str, key: &str) -> (member: Option<String>)
    ensures
        match member {
            Some(text) => json_member(body@, key@) == Some(text@),
            None => json_member(body@, key@) is None,
        },
{
    let document: Result<serde_json::Value, serde_json::Error> = serde_json::from_str(body);
    match document {
        Ok(value) => match value.get(key) {
            Some(serde_json::Value::String(text)) => Some(text.clone()),
            _ => None,
        },
        Err(_) => None,
    }
}

/// Seconds that the provider is given to answer; after that it counts as
/// unreachable.
pub const VERIFY_TIMEOUT_SECS: u64 = 10;

/// A status in the 2xx range.
pub open spec fn is_success(status: u16) -> bool {
    200 <= status < 300
}

/// The address that answers whether `username` has joined `session_id`.
pub open spec fn verification_url_text(username: Seq<char>, session_id: Seq<char>) -> Seq<char> {
    "https://sessionserver.mojang.com/session/minecraft/hasJoined?username="@ + username
        + "&serverId="@ + session_id
}

/// The identity that a display name and a UUID make, where both are there.
pub open spec fn identity_of(name: Option<Seq<char>>, uuid: Option<u128>) -> Option<Identity> {
    match (name, uuid) {
        (Some(username), Some(value)) => Some(Identity { uuid: value, username }),
        _ => None,
    }
}

/// The UUID that the `id` member holds, where there is such a member and it
/// parses.
pub open spec fn uuid_of_member(id: Option<Seq<char>>) -> Option<u128> {
    match id {
        Some(text) => parsed_uuid(text),
        None => None,
    }
}

/// The identity that an answer's body names, if it names one.
pub open spec fn identity_in(body: Seq<char>) -> Option<Identity> {
    identity_of(json_member(body, "name"@), uuid_of_member(json_member(body, "id"@)))
}

/// What a reply means: the identity it vouches for, or why it vouches for
/// none.
pub open spec fn verdict(reply: UpstreamReply) -> Result<Identity, VerifyError> {
    match reply {
        UpstreamReply::Unreachable => Err(VerifyError::UpstreamUnreachable),
        UpstreamReply::Answered { status, body } => if !is_success(status) {
            Err(VerifyError::UpstreamRejected)
        } else {
            match body {
                Some(text) => match identity_in(text@) {
                    Some(identity) => Ok(identity),
                    None => Err(VerifyError::MalformedUpstreamResponse),
                },
                None => Err(VerifyError::MalformedUpstreamResponse),
            }
        },
    }
}

/// `outcome` is `expected`, the identity taken by its view.
pub open spec fn agrees(
    outcome: Result<UserInfo, VerifyError>,
    expected: Result<Identity, VerifyError>,
) -> bool {
    match expected {
        Ok(identity) => outcome matches Ok(user) && user@ == identity,
        Err(reason) => outcome == Err::<UserInfo, VerifyError>(reason),
    }
}

/// The address to ask whether `username` has joined `session_id`. Both are
/// put into the query as they are.
pub fn verification_url(username: &str, session_id: &str) -> (url: String)
    ensures
        url@ == verification_url_text(username@, session_id@),
{
    let mut url = String::from_str(
        "https://sessionserver.mojang.com/session/minecraft/hasJoined?username=",
    );
    url.append(username);
    url.append("&serverId=");
    url.append(session_id);
    url
}

/// Whether `status` is in the 2xx range.
pub fn status_is_success(status: u16) -> (success: bool)
    ensures
        success == is_success(status),
{
    200 <= status && status < 300
}

/// Puts an identity together from the display name and the UUID read out of
/// an answer. Without either, the answer was malformed.
pub fn identity_from_parts(name: Option<String>, uuid: Option<u128>) -> (outcome: Result<
    UserInfo,
    VerifyError,
>)
    ensures
        match (name, uuid) {
            (Some(username), Some(value)) => outcome matches Ok(user) && user.uuid == value
                && user.username == username,
            _ => outcome == Err::<UserInfo, VerifyError>(VerifyError::MalformedUpstreamResponse),
        },
{
    match name {
        Some(username) => match uuid {
            Some(value) => Ok(UserInfo { uuid: value, username }),
            None => Err(VerifyError::MalformedUpstreamResponse),
        },
        None => Err(VerifyError::MalformedUpstreamResponse),
    }
}

/// Reads the identity out of an answer's body: the `name` member is the
/// display name, the `id` member the UUID.
pub fn parse_identity(body: &str) -> (outcome: Result<UserInfo, VerifyError>)
    ensures
        match identity_in(body@) {
            Some(identity) => outcome matches Ok(user) && user@ == identity,
            None => outcome == Err::<UserInfo, VerifyError>(
                VerifyError::MalformedUpstreamResponse,
            ),
        },
{
    let name = json_string_member(body, "name");
    let uuid = match json_string_member(body, "id") {
        Some(text) => parse_uuid(text.as_str()),
        None => None,
    };
    identity_from_parts(name, uuid)
}

/// Judges the provider's reply: an answer with a 2xx status whose body
/// names an identity vouches for it; anything else fails, with the reason.
pub fn verify_reply(reply: &UpstreamReply) -> (outcome: Result<UserInfo, VerifyError>)
    ensures
        agrees(outcome, verdict(*reply)),
{
    match reply {
        UpstreamReply::Unreachable => Err(VerifyError::UpstreamUnreachable),
        UpstreamReply::Answered { status, body } => {
            if !status_is_success(*status) {
                Err(VerifyError::UpstreamRejected)
            } else {
                match body {
                    Some(text) => parse_identity(text.as_str()),
                    None => Err(VerifyError::MalformedUpstreamResponse),
                }
            }
        },
    }
}

} // verus!
