//! The two stages of the login handshake, and what else the service
//! answers from the session store.

use vstd::prelude::*;
use vstd::string::StringExecFns;
use crate::encoding::is_lower_hex;
use crate::identity::{
    verdict, verification_url, verification_url_text, verify_reply, UpstreamReply, VerifyError,
};
use crate::objects::{Identity, Stage1LoginParams, Stage2LoginParams};
use crate::state::{texts, State};
use crate::utils::{avatar_file, generate_hex_string, hyphenate, hyphenated_text};

verus! {

/// Why the second stage handed out no token.
#[derive(Clone, Copy, Debug, PartialEq, Eq, Structural)]
pub enum AuthError {
    /// No handshake is pending under the session id.
    UnknownSession,
    /// The provider did not vouch for the claimed identity.
    AuthenticationFailed(VerifyError),
}

impl AuthError {
    /// The HTTP status that the failure is answered with: not found for an
    /// unknown session, an internal error for every failed verification.
    pub fn status(&self) -> (code: u16)
        ensures
            code == match *self {
                AuthError::UnknownSession => 404u16,
                AuthError::AuthenticationFailed(_) => 500u16,
            },
    {
        match self {
            AuthError::UnknownSession => 404,
            AuthError::AuthenticationFailed(_) => 500,
        }
    }

    /// The one line that the failure is answered with.
    pub fn message(&self) -> (line: &'static str)
        ensures
            line@ == match *self {
                AuthError::UnknownSession => "Failed to authenticate"@,
                AuthError::AuthenticationFailed(VerifyError::UpstreamUnreachable) =>
                    "Failed to send request"@,
                AuthError::AuthenticationFailed(VerifyError::UpstreamRejected) =>
                    "Failed to retrieve data from the external API"@,
                AuthError::AuthenticationFailed(VerifyError::MalformedUpstreamResponse) =>
                    "Failed to parse response body as JSON"@,
            },
    {
        match self {
            AuthError::UnknownSession => "Failed to authenticate",
            AuthError::AuthenticationFailed(VerifyError::UpstreamUnreachable) =>
                "Failed to send request",
            AuthError::AuthenticationFailed(VerifyError::UpstreamRejected) =>
                "Failed to retrieve data from the external API",
            AuthError::AuthenticationFailed(VerifyError::MalformedUpstreamResponse) =>
                "Failed to parse response body as JSON",
        }
    }
}

/// How many characters a session id has.
pub const SESSION_ID_LENGTH: usize = 32;

/// How many characters a token has.
pub const TOKEN_LENGTH: usize = 16;

/// What the second stage comes to, given the handshakes that are pending:
/// the identity to issue a token for, or the failure.
pub open spec fn stage2_outcome(
    pending: Map<Seq<char>, Seq<char>>,
    session_id: Seq<char>,
    reply: UpstreamReply,
) -> Result<Identity, AuthError> {
    if !pending.contains_key(session_id) {
        Err(AuthError::UnknownSession)
    } else {
        match verdict(reply) {
            Ok(identity) => Ok(identity),
            Err(reason) => Err(AuthError::AuthenticationFailed(reason)),
        }
    }
}

/// Stage one: opens a handshake for the claimed username and returns its
/// fresh session id, 32 lowercase hexadecimal digits. It always succeeds.
pub fn login_stage1(state: &mut State, params: Stage1LoginParams) -> (session_id: String)
    requires
        old(state).wf(),
    ensures
        final(state).wf(),
        session_id@.len() == SESSION_ID_LENGTH,
        is_lower_hex(session_id@),
        final(state).pending() == old(state).pending().insert(session_id@, params.username@),
        final(state).pending_order() == if old(state).pending().contains_key(session_id@) {
            old(state).pending_order()
        } else {
            old(state).pending_order().push(session_id@)
        },
        final(state).issued() == old(state).issued(),
        final(state).issued_order() == old(state).issued_order(),
{
    let session_id = generate_hex_string(SESSION_ID_LENGTH);
    state.put_pending(session_id.clone(), params.username);
    session_id
}

/// Stage two, before the provider is asked: the address to ask about the
/// pending handshake, or `UnknownSession` where none is pending under the
/// id.
pub fn verification_request(state: &State, params: &Stage2LoginParams) -> (request: Result<
    String,
    AuthError,
>)
    ensures
        match request {
            Ok(url) => state.pending().contains_key(params.id@) && url@ == verification_url_text(
                state.pending()[params.id@],
                params.id@,
            ),
            Err(reason) => !state.pending().contains_key(params.id@) && reason
                == AuthError::UnknownSession,
        },
{
    match state.get_pending(params.id.as_str()) {
        Some(username) => Ok(verification_url(username.as_str(), params.id.as_str())),
        None => Err(AuthError::UnknownSession),
    }
}

/// Stage two, once the provider has been asked: where it vouches for an
/// identity, a fresh token of 16 lowercase hexadecimal digits is issued for
/// it and returned. An unknown session and a failed verification leave the
/// store as it was; the pending handshake stays pending either way.
pub fn login_stage2(state: &mut State, params: Stage2LoginParams, reply: &UpstreamReply) -> (token:
    Result<String, AuthError>)
    requires
        old(state).wf(),
    ensures
        final(state).wf(),
        final(state).pending() == old(state).pending(),
        final(state).pending_order() == old(state).pending_order(),
        match stage2_outcome(old(state).pending(), params.id@, *reply) {
            Ok(identity) => {
                &&& token matches Ok(text)
                &&& text@.len() == TOKEN_LENGTH
                &&& is_lower_hex(text@)
                &&& final(state).issued() == old(state).issued().insert(text@, identity)
                &&& final(state).issued_order() == if old(state).issued().contains_key(text@) {
                    old(state).issued_order()
                } else {
                    old(state).issued_order().push(text@)
                }
            },
            Err(reason) => {
                &&& token == Err::<String, AuthError>(reason)
                &&& final(state).issued() == old(state).issued()
                &&& final(state).issued_order() == old(state).issued_order()
            },
        },
{
    if state.get_pending(params.id.as_str()).is_none() {
        return Err(AuthError::UnknownSession);
    }
    match verify_reply(reply) {
        Ok(user) => {
            let token = generate_hex_string(TOKEN_LENGTH);
            state.put_token(token.clone(), user);
            Ok(token)
        },
        Err(reason) => Err(AuthError::AuthenticationFailed(reason)),
    }
}

/// Where an upload that presents `token` is stored: the avatar file of the
/// identity that the token stands for. A token that was never issued
/// authorizes nothing.
pub fn upload_target(state: &State, token: &str) -> (target: Option<String>)
    ensures
        match target {
            Some(path) => state.issued().contains_key(token@) && path@ == "avatars/"@
                + hyphenated_text(state.issued()[token@].uuid) + ".moon"@,
            None => !state.issued().contains_key(token@),
        },
{
    match state.get_token(token) {
        Some(user) => {
            let owner = hyphenate(user.uuid);
            Some(avatar_file(owner.as_str()))
        },
        None => None,
    }
}

/// The line that lists one pending handshake.
pub open spec fn pending_line(session_id: Seq<char>, username: Seq<char>) -> Seq<char> {
    session_id + " \u{2192} "@ + username + "\n"@
}

/// The line that lists one issued token.
pub open spec fn token_line(token: Seq<char>, identity: Identity) -> Seq<char> {
    token + " \u{2192} "@ + identity.username + " ("@ + hyphenated_text(identity.uuid) + ")\n"@
}

/// The lines of the pending handshakes under `order`, one after the other.
pub open spec fn pending_lines(order: Seq<Seq<char>>, pending: Map<Seq<char>, Seq<char>>) -> Seq<
    char,
>
    decreases order.len(),
{
    if order.len() == 0 {
        Seq::empty()
    } else {
        pending_lines(order.drop_last(), pending) + pending_line(
            order.last(),
            pending[order.last()],
        )
    }
}

/// The lines of the issued tokens under `order`, one after the other.
pub open spec fn token_lines(order: Seq<Seq<char>>, issued: Map<Seq<char>, Identity>) -> Seq<char>
    decreases order.len(),
{
    if order.len() == 0 {
        Seq::empty()
    } else {
        token_lines(order.drop_last(), issued) + token_line(order.last(), issued[order.last()])
    }
}

/// The whole store as text: every pending handshake, then every issued
/// token, each oldest first.
pub open spec fn debug_text(state: State) -> Seq<char> {
    "Server id to username:\n"@ + pending_lines(state.pending_order(), state.pending())
        + "Assigned tokens:\n"@ + token_lines(state.issued_order(), state.issued()) + "End\n"@
}

/// Lists the whole store as text, for the operator.
pub fn debug_info(state: &State) -> (text: String)
    requires
        state.wf(),
    ensures
        text@ == debug_text(*state),
{
    let mut text = String::from_str("Server id to username:\n");
    let ids = state.pending_ids();
    let mut i: usize = 0;
    while i < ids.len()
        invariant
            i <= ids.len(),
            state.wf(),
            texts(ids@) == state.pending_order(),
            text@ == "Server id to username:\n"@ + pending_lines(
                state.pending_order().subrange(0, i as int),
                state.pending(),
            ),
        decreases ids.len() - i,
    {
        let id = &ids[i];
        let ghost order = state.pending_order();
        proof {
            assert(order.subrange(0, i + 1).drop_last() =~= order.subrange(0, i as int));
        }
        match state.get_pending(id.as_str()) {
            Some(username) => {
                text.append(id.as_str());
                text.append(" \u{2192} ");
                text.append(username.as_str());
                text.append("\n");
                assert(text@ =~= "Server id to username:\n"@ + pending_lines(
                    order.subrange(0, i + 1),
                    state.pending(),
                ));
            },
            None => {
                assert(false);
            },
        }
        i = i + 1;
    }
    assert(state.pending_order().subrange(0, i as int) =~= state.pending_order());
    text.append("Assigned tokens:\n");
    let ghost head = text@;
    let issued = state.issued_tokens();
    let mut j: usize = 0;
    while j < issued.len()
        invariant
            j <= issued.len(),
            state.wf(),
            texts(issued@) == state.issued_order(),
            text@ == head + token_lines(
                state.issued_order().subrange(0, j as int),
                state.issued(),
            ),
        decreases issued.len() - j,
    {
        let token = &issued[j];
        let ghost order = state.issued_order();
        proof {
            assert(order.subrange(0, j + 1).drop_last() =~= order.subrange(0, j as int));
        }
        match state.get_token(token.as_str()) {
            Some(user) => {
                let owner = hyphenate(user.uuid);
                text.append(token.as_str());
                text.append(" \u{2192} ");
                text.append(user.username.as_str());
                text.append(" (");
                text.append(owner.as_str());
                text.append(")\n");
                assert(text@ =~= head + token_lines(order.subrange(0, j + 1), state.issued()));
            },
            None => {
                assert(false);
            },
        }
        j = j + 1;
    }
    assert(state.issued_order().subrange(0, j as int) =~= state.issued_order());
    text.append("End\n");
    text
}

/// The pending handshakes after each of `begun` was opened in turn, each a
/// pair of session id and claimed username.
pub open spec fn after_begins(
    pending: Map<Seq<char>, Seq<char>>,
    begun: Seq<(Seq<char>, Seq<char>)>,
) -> Map<Seq<char>, Seq<char>>
    decreases begun.len(),
{
    if begun.len() == 0 {
        pending
    } else {
        after_begins(pending, begun.drop_last()).insert(begun.last().0, begun.last().1)
    }
}

/// No handshake is lost: after any number of first stages whose session
/// ids are new and differ from one another, every one of them is pending
/// under its own username, there are that many more pending handshakes,
/// and the ones that were pending before still are.
pub proof fn lemma_no_begin_is_lost(
    pending: Map<Seq<char>, Seq<char>>,
    begun: Seq<(Seq<char>, Seq<char>)>,
)
    requires
        pending.dom().finite(),
        forall|i: int| 0 <= i < begun.len() ==> !pending.contains_key(#[trigger] begun[i].0),
        forall|i: int, j: int|
            0 <= i < j < begun.len() ==> (#[trigger] begun[i]).0 != (#[trigger] begun[j]).0,
    ensures
        after_begins(pending, begun).dom().finite(),
        after_begins(pending, begun).dom().len() == pending.dom().len() + begun.len(),
        forall|i: int|
            0 <= i < begun.len() ==> after_begins(pending, begun).contains_key(
                #[trigger] begun[i].0,
            ) && after_begins(pending, begun)[begun[i].0] == begun[i].1,
        forall|k: Seq<char>| #[trigger]
            pending.contains_key(k) ==> after_begins(pending, begun).contains_key(k)
                && after_begins(pending, begun)[k] == pending[k],
        forall|k: Seq<char>| #[trigger]
            after_begins(pending, begun).contains_key(k) ==> pending.contains_key(k) || exists|
                i: int,
            |
                0 <= i < begun.len() && (#[trigger] begun[i]).0 == k,
    decreases begun.len(),
{
    if begun.len() > 0 {
        let earlier = begun.drop_last();
        let last = begun.last();
        assert forall|i: int| 0 <= i < earlier.len() implies !pending.contains_key(
            #[trigger] earlier[i].0,
        ) by {
            assert(earlier[i] == begun[i]);
        }
        assert forall|i: int, j: int| 0 <= i < j < earlier.len() implies (#[trigger] earlier[i]).0
            != (#[trigger] earlier[j]).0 by {
            assert(earlier[i] == begun[i]);
            assert(earlier[j] == begun[j]);
        }
        lemma_no_begin_is_lost(pending, earlier);
        let before = after_begins(pending, earlier);
        let after = after_begins(pending, begun);
        assert(after == before.insert(last.0, last.1));
        assert(!before.contains_key(last.0)) by {
            if before.contains_key(last.0) {
                assert(!pending.contains_key(begun[begun.len() - 1].0));
                let i = choose|i: int| 0 <= i < earlier.len() && (#[trigger] earlier[i]).0 == last.0;
                assert(earlier[i] == begun[i]);
                assert(begun[i].0 != begun[begun.len() - 1].0);
            }
        }
        assert forall|i: int| 0 <= i < begun.len() implies after.contains_key(
            #[trigger] begun[i].0,
        ) && after[begun[i].0] == begun[i].1 by {
            if i < earlier.len() {
                assert(earlier[i] == begun[i]);
                assert(begun[i].0 != begun[begun.len() - 1].0);
            }
        }
        assert forall|k: Seq<char>| #[trigger] pending.contains_key(k) implies after.contains_key(k)
            && after[k] == pending[k] by {
            assert(!pending.contains_key(begun[begun.len() - 1].0));
            assert(before.contains_key(k) && before[k] == pending[k]);
        }
        assert forall|k: Seq<char>| #[trigger] after.contains_key(k) implies pending.contains_key(
            k,
        ) || exists|i: int| 0 <= i < begun.len() && (#[trigger] begun[i]).0 == k by {
            if k == last.0 {
                assert(begun[begun.len() - 1].0 == k);
            } else if !pending.contains_key(k) {
                let i = choose|i: int| 0 <= i < earlier.len() && (#[trigger] earlier[i]).0 == k;
                assert(begun[i].0 == k);
            }
        }
    }
}

/// The order in which first stages take their turn does not matter: the
/// same handshakes, opened in any order, leave the same handshakes pending.
pub proof fn lemma_order_of_begins_does_not_matter(
    pending: Map<Seq<char>, Seq<char>>,
    one: Seq<(Seq<char>, Seq<char>)>,
    other: Seq<(Seq<char>, Seq<char>)>,
)
    requires
        pending.dom().finite(),
        forall|i: int| 0 <= i < one.len() ==> !pending.contains_key(#[trigger] one[i].0),
        forall|i: int, j: int|
            0 <= i < j < one.len() ==> (#[trigger] one[i]).0 != (#[trigger] one[j]).0,
        forall|i: int, j: int|
            0 <= i < j < other.len() ==> (#[trigger] other[i]).0 != (#[trigger] other[j]).0,
        forall|i: int| 0 <= i < one.len() ==> other.contains(#[trigger] one[i]),
        forall|j: int| 0 <= j < other.len() ==> one.contains(#[trigger] other[j]),
    ensures
        after_begins(pending, one) == after_begins(pending, other),
{
    assert forall|j: int| 0 <= j < other.len() implies !pending.contains_key(
        #[trigger] other[j].0,
    ) by {
        assert(one.contains(other[j]));
        let i = choose|i: int| 0 <= i < one.len() && one[i] == other[j];
        assert(!pending.contains_key(one[i].0));
    }
    lemma_no_begin_is_lost(pending, one);
    lemma_no_begin_is_lost(pending, other);
    let left = after_begins(pending, one);
    let right = after_begins(pending, other);
    assert forall|k: Seq<char>| left.contains_key(k) implies right.contains_key(k) && right[k]
        == left[k] by {
        if pending.contains_key(k) {
            assert(right.contains_key(k) && right[k] == pending[k]);
        } else {
            let i = choose|i: int| 0 <= i < one.len() && (#[trigger] one[i]).0 == k;
            assert(left[one[i].0] == one[i].1);
            assert(other.contains(one[i]));
            let j = choose|j: int| 0 <= j < other.len() && other[j] == one[i];
            assert(right.contains_key(other[j].0) && right[other[j].0] == other[j].1);
        }
    }
    assert forall|k: Seq<char>| right.contains_key(k) implies left.contains_key(k) by {
        if !pending.contains_key(k) {
            let j = choose|j: int| 0 <= j < other.len() && (#[trigger] other[j]).0 == k;
            assert(one.contains(other[j]));
            let i = choose|i: int| 0 <= i < one.len() && one[i] == other[j];
            assert(left.contains_key(one[i].0));
        }
    }
    assert(left =~= right);
}

/// A session id under which nothing is pending gets `UnknownSession`,
/// whatever the provider says.
pub proof fn lemma_unknown_session_is_refused(
    pending: Map<Seq<char>, Seq<char>>,
    session_id: Seq<char>,
    reply: UpstreamReply,
)
    requires
        !pending.contains_key(session_id),
    ensures
        stage2_outcome(pending, session_id, reply) == Err::<Identity, AuthError>(
            AuthError::UnknownSession,
        ),
{
}

/// Where the provider answers a pending handshake with a 2xx status and a
/// body whose `name` and `id` members are a display name and a UUID, the
/// second stage issues a token for exactly that identity, and the token
/// resolves to it from then on.
pub proof fn lemma_vouched_identity_gets_token(
    pending: Map<Seq<char>, Seq<char>>,
    issued: Map<Seq<char>, Identity>,
    session_id: Seq<char>,
    status: u16,
    body: String,
    name: Seq<char>,
    id: Seq<char>,
    uuid: u128,
    token: Seq<char>,
)
    requires
        pending.contains_key(session_id),
        200 <= status < 300,
        crate::identity::json_member(body@, "name"@) == Some(name),
        crate::identity::json_member(body@, "id"@) == Some(id),
        crate::utils::parsed_uuid(id) == Some(uuid),
    ensures
        stage2_outcome(pending, session_id, UpstreamReply::Answered { status, body: Some(body) })
            == Ok::<Identity, AuthError>(Identity { uuid, username: name }),
        issued.insert(token, Identity { uuid, username: name }).contains_key(token),
        issued.insert(token, Identity { uuid, username: name })[token].username == name,
        issued.insert(token, Identity { uuid, username: name })[token].uuid == uuid,
{
}

/// Where the provider does not vouch for a pending handshake, the second
/// stage fails with `AuthenticationFailed` and the provider's reason.
pub proof fn lemma_failed_verification_fails_stage2(
    pending: Map<Seq<char>, Seq<char>>,
    session_id: Seq<char>,
    reply: UpstreamReply,
)
    requires
        pending.contains_key(session_id),
        verdict(reply) is Err,
    ensures
        stage2_outcome(pending, session_id, reply) == Err::<Identity, AuthError>(
            AuthError::AuthenticationFailed(verdict(reply)->Err_0),
        ),
{
}

} // verus!
