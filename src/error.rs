use vstd::prelude::*;
use vstd::string::*;

use crate::decimal::{dec_digits, push_decimal};

verus! {

/// What can go wrong while relaying a conversation.
pub enum RelayError {
    /// The backend could not be reached, or refused the call; its own words.
    BackendUnavailable(String),
    /// A chunk of the answer stream could not be read.
    StreamDecodeError,
    /// The event channel to the front end refused a fragment.
    SinkUnavailable,
    /// The image of the message at this place of the history is not valid base64.
    InvalidImage(usize),
}

/// "stream.next error"
pub open spec fn decode_error_text() -> Seq<char> {
    seq!['s', 't', 'r', 'e', 'a', 'm', '.', 'n', 'e', 'x', 't', ' ', 'e', 'r', 'r', 'o', 'r']
}

/// "event sink unavailable"
pub open spec fn sink_error_text() -> Seq<char> {
    seq!['e', 'v', 'e', 'n', 't', ' ', 's', 'i', 'n', 'k', ' ', 'u', 'n', 'a', 'v', 'a', 'i', 'l', 'a', 'b', 'l', 'e']
}

/// "invalid base64 image in message "
pub open spec fn image_error_prefix() -> Seq<char> {
    seq![
        'i', 'n', 'v', 'a', 'l', 'i', 'd', ' ', 'b', 'a', 's', 'e', '6', '4', ' ', 'i', 'm', 'a', 'g', 'e',
        ' ', 'i', 'n', ' ', 'm', 'e', 's', 's', 'a', 'g', 'e', ' '
    ]
}

/// The text by which an error is reported to the caller.
pub open spec fn error_text(e: RelayError) -> Seq<char> {
    match e {
        RelayError::BackendUnavailable(m) => m@,
        RelayError::StreamDecodeError => decode_error_text(),
        RelayError::SinkUnavailable => sink_error_text(),
        RelayError::InvalidImage(i) => image_error_prefix() + dec_digits(i as nat),
    }
}

impl RelayError {
    /// The text by which the error is reported to the caller: the backend's
    /// own words where it failed, else a fixed description.
    pub fn message(&self) -> (r: String)
        ensures
            r@ == error_text(*self),
    {
        match self {
            RelayError::BackendUnavailable(m) => m.clone(),
            RelayError::StreamDecodeError => {
                proof {
                    reveal_strlit("stream.next error");
                    assert("stream.next error"@ =~= decode_error_text());
                }
                String::from_str("stream.next error")
            },
            RelayError::SinkUnavailable => {
                proof {
                    reveal_strlit("event sink unavailable");
                    assert("event sink unavailable"@ =~= sink_error_text());
                }
                String::from_str("event sink unavailable")
            },
            RelayError::InvalidImage(i) => {
                let mut s = String::from_str("invalid base64 image in message ");
                proof {
                    reveal_strlit("invalid base64 image in message ");
                    assert(s@ =~= image_error_prefix());
                }
                push_decimal(&mut s, *i as u64);
                s
            },
        }
    }
}

} // verus!
