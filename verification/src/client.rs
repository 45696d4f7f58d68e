//! Classification of one completed HTTP exchange with the completion
//! endpoint, and the error taxonomy of the whole tool.

use vstd::prelude::*;
use vstd::string::*;
use crate::decode::{parse_response, parse_response_body};
use crate::message::GptMessage;

verus! {

/// Everything that can go wrong, each variant surfaced directly to the user.
#[derive(Debug, PartialEq, Eq)]
pub enum ChatError {
    /// No platform-standard per-user configuration directory exists.
    ConfigDirUnavailable,
    /// Creating, reading, writing or deleting the configuration file failed.
    ConfigIo(String),
    /// A credential offered for storage does not have the required shape.
    CredentialValidationFailed,
    /// The exchange itself failed, or a reply claiming success could not be
    /// decoded; the carried text says what was received.
    NetworkOrTransport(String),
    /// The endpoint rejected the request with a status other than success or
    /// unauthorized; carries the raw reply body.
    RemoteRequestFailed(String),
    /// A successful reply carried no choice to take a message from.
    EmptyOrAmbiguousResponse,
    /// The endpoint answered unauthorized: the credential is not valid.
    InvalidCredential,
}

/// Classifies one finished exchange, given the reply's HTTP status code and
/// its body text: the first choice's message on a well-formed successful
/// reply, and otherwise exactly the error the status and body call for.
pub fn interpret_response(status: u16, body: &str) -> (r: Result<GptMessage, ChatError>)
    ensures
        status == 200 && parse_response(body@) is Some && parse_response(body@).unwrap().len() > 0
            ==> r is Ok && r.unwrap()@ == parse_response(body@).unwrap()[0],
        status == 200 && parse_response(body@) is Some && parse_response(body@).unwrap().len() == 0
            ==> r == Err::<GptMessage, ChatError>(ChatError::EmptyOrAmbiguousResponse),
        status == 200 && parse_response(body@) is None ==> (r matches Err(e) && e matches
            ChatError::NetworkOrTransport(b) && b@ == body@),
        status == 401 ==> r == Err::<GptMessage, ChatError>(ChatError::InvalidCredential),
        status != 200 && status != 401 ==> (r matches Err(e) && e matches
            ChatError::RemoteRequestFailed(b) && b@ == body@),
{
    if status == 401 {
        return Err(ChatError::InvalidCredential);
    }
    if status != 200 {
        return Err(ChatError::RemoteRequestFailed(String::from_str(body)));
    }
    match parse_response_body(body) {
        None => Err(ChatError::NetworkOrTransport(String::from_str(body))),
        Some(msgs) => {
            if msgs.len() == 0 {
                Err(ChatError::EmptyOrAmbiguousResponse)
            } else {
                let mut msgs = msgs;
                let m = msgs.remove(0);
                Ok(m)
            }
        },
    }
}

} // verus!
