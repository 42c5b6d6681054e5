//! Session handshake, token store and socket keep-alive for an avatar
//! hosting service whose users prove ownership of an account at an outside
//! identity provider.
//!
//! Everything here is plain data in, plain data out: the HTTP and socket
//! plumbing around it hands over what it read and performs what it is told.

pub mod encoding;
pub mod identity;
pub mod objects;
pub mod routes;
pub mod socket;
pub mod state;
pub mod utils;

pub use encoding::{hex_of, is_hex_char, is_lower_hex, to_hex};
pub use identity::{
    identity_from_parts, json_member, parse_identity, status_is_success, verification_url,
    verify_reply, UpstreamReply, VerifyError, VERIFY_TIMEOUT_SECS,
};
pub use objects::{Identity, Stage1LoginParams, Stage2LoginParams, UserInfo};
pub use routes::{
    debug_info, login_stage1, login_stage2, upload_target, verification_request, AuthError,
    SESSION_ID_LENGTH, TOKEN_LENGTH,
};
pub use socket::{
    counter_bytes, Action, ConnectionState, Event, Frame, Phase, AUTH_TAG,
    HEARTBEAT_INTERVAL_SECS,
};
pub use state::State;
pub use utils::{
    avatar_file, base64_text, calculate_file_sha256, format_uuid, generate_hex_string,
    hyphenated_text, listen_port, parsed_uuid, sha256, uuid_bytes, InvalidUuid, ALTERNATE_PORT,
    DEFAULT_PORT,
};
