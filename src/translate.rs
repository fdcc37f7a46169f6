use vstd::prelude::*;
use vstd::string::*;
use vstd::utf8::encode_utf8;

use crate::base64::{b64_decode, decode_base64, valid_b64};
use crate::error::RelayError;
use crate::message::{ConversationMessage, GenerationConfig, MessageView, Role, RoleView};

verus! {

/// The two roles a backend request message can have.
#[derive(Clone, Copy, Debug, PartialEq, Eq, Structural)]
pub enum RequestRole {
    User,
    Assistant,
}

/// One message of a backend chat request, its image decoded.
pub struct RequestMessage {
    pub role: RequestRole,
    pub content: String,
    pub image: Option<Vec<u8>>,
}

/// The mathematical value of a `RequestMessage`.
pub struct RequestMessageView {
    pub role: RequestRole,
    pub content: Seq<char>,
    pub image: Option<Seq<u8>>,
}

impl View for RequestMessage {
    type V = RequestMessageView;

    open spec fn view(&self) -> RequestMessageView {
        RequestMessageView {
            role: self.role,
            content: self.content@,
            image: match self.image {
                Some(b) => Some(b@),
                None => None,
            },
        }
    }
}

/// The sampling parameters of a request, the real-valued ones as `f32` bits.
#[derive(Clone, Copy, PartialEq, Eq, Structural)]
pub struct RequestOptions {
    pub temperature_bits: u32,
    pub top_p_bits: u32,
    pub top_k: u32,
}

/// A chat request for the backend.
pub struct ChatRequest {
    pub model_id: String,
    pub messages: Vec<RequestMessage>,
    pub options: RequestOptions,
}

/// The bytes of a text as it is stored.
pub open spec fn text_bytes(s: Seq<char>) -> Seq<u8> {
    encode_utf8(s)
}

/// Whether the backend takes the message.
pub open spec fn is_recognized(m: MessageView) -> bool {
    !(m.role is Unrecognized)
}

/// Whether the message is taken but its image is not valid base64.
pub open spec fn has_bad_image(m: MessageView) -> bool {
    is_recognized(m) && match m.image {
        Some(t) => !valid_b64(text_bytes(t)),
        None => false,
    }
}

/// The request message that a taken message becomes.
pub open spec fn request_of(m: MessageView) -> RequestMessageView {
    RequestMessageView {
        role: if m.role is User {
            RequestRole::User
        } else {
            RequestRole::Assistant
        },
        content: m.content,
        image: match m.image {
            Some(t) => Some(b64_decode(text_bytes(t))),
            None => None,
        },
    }
}

/// The views of a history's messages.
pub open spec fn history_view(h: Seq<ConversationMessage>) -> Seq<MessageView> {
    h.map_values(|m: ConversationMessage| m@)
}

/// The request messages of a history: the taken messages in their order,
/// each made a request message.
pub open spec fn translate_messages(h: Seq<MessageView>) -> Seq<RequestMessageView> {
    h.filter(|m: MessageView| is_recognized(m)).map_values(|m: MessageView| request_of(m))
}

/// Whether every taken message of the history has a valid image, or none.
pub open spec fn images_valid(h: Seq<MessageView>) -> bool {
    forall|i: int| 0 <= i < h.len() ==> !has_bad_image(#[trigger] h[i])
}

proof fn lemma_filter_within(s: Seq<MessageView>, x: MessageView)
    requires
        s.filter(|m: MessageView| is_recognized(m)).contains(x),
    ensures
        s.contains(x),
    decreases s.len(),
{
    reveal(Seq::filter);
    let pred = |m: MessageView| is_recognized(m);
    if s.len() > 0 {
        if x != s.last() {
            let t = s.drop_last().filter(pred);
            if pred(s.last()) {
                let k = choose|k: int| 0 <= k < s.filter(pred).len() && s.filter(pred)[k] == x;
                assert(t.contains(x)) by {
                    assert(t[k] == x);
                }
            }
            lemma_filter_within(s.drop_last(), x);
            let k = choose|k: int| 0 <= k < s.drop_last().len() && s.drop_last()[k] == x;
            assert(s[k] == x);
        } else {
            assert(s[s.len() - 1] == x);
        }
    }
}

proof fn lemma_bad_image_kept(h1: Seq<MessageView>, h2: Seq<MessageView>)
    requires
        h1.filter(|m: MessageView| is_recognized(m)) == h2.filter(|m: MessageView| is_recognized(m)),
        images_valid(h2),
    ensures
        images_valid(h1),
{
    let pred = |m: MessageView| is_recognized(m);
    broadcast use vstd::seq_lib::group_filter_ensures;

    assert forall|i: int| 0 <= i < h1.len() implies !has_bad_image(#[trigger] h1[i]) by {
        if has_bad_image(h1[i]) {
            assert(pred(h1[i]));
            lemma_filter_within(h2, h1[i]);
            let j = choose|j: int| 0 <= j < h2.len() && h2[j] == h1[i];
            assert(has_bad_image(h2[j]));
        }
    }
}

/// Messages of a role that the backend does not take change nothing: two
/// histories whose taken messages are the same, in the same order, give the
/// same request messages, and either both translate or neither does.
pub proof fn lemma_unrecognized_ignored(h1: Seq<MessageView>, h2: Seq<MessageView>)
    requires
        h1.filter(|m: MessageView| is_recognized(m)) == h2.filter(|m: MessageView| is_recognized(m)),
    ensures
        translate_messages(h1) == translate_messages(h2),
        images_valid(h1) == images_valid(h2),
{
    if images_valid(h2) {
        lemma_bad_image_kept(h1, h2);
    }
    if images_valid(h1) {
        lemma_bad_image_kept(h2, h1);
    }
}

/// Builds the request message of one taken message.
fn request_message(m: &ConversationMessage) -> (r: Result<RequestMessage, ()>)
    requires
        is_recognized(m@),
    ensures
        r is Err <==> has_bad_image(m@),
        r matches Ok(q) ==> q@ == request_of(m@),
{
    let role = match m.role {
        Role::User => RequestRole::User,
        _ => RequestRole::Assistant,
    };
    let image = match &m.image {
        Some(t) => match decode_base64(t.as_str().as_bytes()) {
            Some(b) => Some(b),
            None => {
                return Err(());
            },
        },
        None => None,
    };
    Ok(RequestMessage { role, content: m.content.clone(), image })
}

/// Turns a conversation history and a generation config into a backend
/// request: the messages of a role the backend takes, in their order, with
/// their images decoded, and the config's parameters as request options.
/// Fails at the first such message whose image is not valid base64.
pub fn translate(history: &Vec<ConversationMessage>, config: &GenerationConfig) -> (r: Result<
    ChatRequest,
    RelayError,
>)
    ensures
        r is Ok <==> images_valid(history_view(history@)),
        r matches Ok(q) ==> {
            &&& q.model_id@ == config.model_id@
            &&& q.messages@.map_values(|m: RequestMessage| m@) == translate_messages(
                history_view(history@),
            )
            &&& q.options == (RequestOptions {
                temperature_bits: config.temperature_bits,
                top_p_bits: config.top_p_bits,
                top_k: config.top_k,
            })
        },
        r matches Err(e) ==> e matches RelayError::InvalidImage(i) && i < history@.len()
            && has_bad_image(history@[i as int]@) && forall|j: int|
            0 <= j < i ==> !has_bad_image(#[trigger] history@[j]@),
{
    let mut messages: Vec<RequestMessage> = Vec::new();
    let mut i: usize = 0;
    while i < history.len()
        invariant
            i <= history@.len(),
            messages@.map_values(|m: RequestMessage| m@) == translate_messages(
                history_view(history@.take(i as int)),
            ),
            forall|j: int| 0 <= j < i ==> !has_bad_image(#[trigger] history@[j]@),
        decreases history@.len() - i,
    {
        let m = &history[i];
        let ghost prev = history_view(history@.take(i as int));
        proof {
            assert(history_view(history@.take(i + 1)).drop_last() =~= prev);
            assert(history_view(history@.take(i + 1)).last() == m@);
        }
        if m.role.is_recognized() {
            match request_message(m) {
                Ok(q) => {
                    messages.push(q);
                },
                Err(_) => {
                    proof {
                        assert(history_view(history@)[i as int] == history@[i as int]@);
                    }
                    return Err(RelayError::InvalidImage(i));
                },
            }
        }
        proof {
            let hv = history_view(history@.take(i + 1));
            let pred = |m: MessageView| is_recognized(m);
            let f = |m: MessageView| request_of(m);
            assert(hv.len() > 0);
            reveal(Seq::filter);
            assert(hv.filter(pred) == if pred(hv.last()) {
                hv.drop_last().filter(pred).push(hv.last())
            } else {
                hv.drop_last().filter(pred)
            });
            if pred(hv.last()) {
                assert(hv.filter(pred).map_values(f) =~= prev.filter(pred).map_values(f).push(
                    request_of(m@),
                ));
            }
            assert(messages@.map_values(|m: RequestMessage| m@) =~= translate_messages(hv));
        }
        i = i + 1;
    }
    proof {
        assert(history@.take(i as int) =~= history@);
    }
    Ok(
        ChatRequest {
            model_id: config.model_id.clone(),
            messages,
            options: RequestOptions {
                temperature_bits: config.temperature_bits,
                top_p_bits: config.top_p_bits,
                top_k: config.top_k,
            },
        },
    )
}

} // verus!
