use vstd::prelude::*;
use vstd::string::*;

use crate::error::RelayError;
use crate::message::{role_of, ConversationMessage, MessageView, Role, RoleView};
use crate::translate::{request_of, RequestRole};

verus! {

/// The role the backend gives the message of a chunk.
#[derive(Clone, Copy, Debug, PartialEq, Eq, Structural)]
pub enum ChunkRole {
    System,
    User,
    Assistant,
    Tool,
}

/// The partial message that a chunk carries.
pub struct ChunkMessage {
    pub role: ChunkRole,
    pub content: String,
}

/// One chunk of the backend's answer stream.
pub struct Chunk {
    pub model: String,
    pub created_at: String,
    pub message: Option<ChunkMessage>,
    pub done: bool,
}

/// What the answer stream hands over next: a chunk, or one that could not be read.
pub enum StreamItem {
    Chunk(Chunk),
    Malformed,
}

/// One piece of the answer, as the front end receives it.
pub struct StreamFragment {
    pub model: String,
    pub message: ConversationMessage,
    pub created_at: String,
    pub done: bool,
}

/// The mathematical value of a `StreamFragment`.
pub struct FragmentView {
    pub model: Seq<char>,
    pub message: MessageView,
    pub created_at: Seq<char>,
    pub done: bool,
}

impl View for StreamFragment {
    type V = FragmentView;

    open spec fn view(&self) -> FragmentView {
        FragmentView {
            model: self.model@,
            message: self.message@,
            created_at: self.created_at@,
            done: self.done,
        }
    }
}

/// The written name of a chunk role.
pub open spec fn chunk_role_text(r: ChunkRole) -> Seq<char> {
    match r {
        ChunkRole::System => seq!['s', 'y', 's', 't', 'e', 'm'],
        ChunkRole::User => seq!['u', 's', 'e', 'r'],
        ChunkRole::Assistant => seq!['a', 's', 's', 'i', 's', 't', 'a', 'n', 't'],
        ChunkRole::Tool => seq!['t', 'o', 'o', 'l'],
    }
}

/// The fragment that a chunk becomes: none where it carries no message;
/// else its message's role and text, no image, and the chunk's model, time
/// and `done` flag.
pub open spec fn fragment_of(c: Chunk) -> Option<FragmentView> {
    match c.message {
        None => None,
        Some(m) => Some(
            FragmentView {
                model: c.model@,
                message: MessageView {
                    role: role_of(chunk_role_text(m.role)),
                    content: m.content@,
                    image: None,
                },
                created_at: c.created_at@,
                done: c.done,
            },
        ),
    }
}

/// The view of a fragment that may be missing.
pub open spec fn opt_fragment_view(f: Option<StreamFragment>) -> Option<FragmentView> {
    match f {
        Some(x) => Some(x@),
        None => None,
    }
}

/// The written name of a chunk role.
pub fn chunk_role_name(r: ChunkRole) -> (s: String)
    ensures
        s@ == chunk_role_text(r),
{
    proof {
        reveal_strlit("system");
        reveal_strlit("user");
        reveal_strlit("assistant");
        reveal_strlit("tool");
        assert("system"@ =~= chunk_role_text(ChunkRole::System));
        assert("user"@ =~= chunk_role_text(ChunkRole::User));
        assert("assistant"@ =~= chunk_role_text(ChunkRole::Assistant));
        assert("tool"@ =~= chunk_role_text(ChunkRole::Tool));
    }
    match r {
        ChunkRole::System => String::from_str("system"),
        ChunkRole::User => String::from_str("user"),
        ChunkRole::Assistant => String::from_str("assistant"),
        ChunkRole::Tool => String::from_str("tool"),
    }
}

/// The fragment that a chunk becomes, if it carries a message.
pub fn to_fragment(c: &Chunk) -> (r: Option<StreamFragment>)
    ensures
        opt_fragment_view(r) == fragment_of(*c),
{
    match &c.message {
        None => None,
        Some(m) => {
            let name = chunk_role_name(m.role);
            let role = Role::parse(name.as_str());
            Some(
                StreamFragment {
                    model: c.model.clone(),
                    message: ConversationMessage {
                        role,
                        content: m.content.clone(),
                        image: None,
                    },
                    created_at: c.created_at.clone(),
                    done: c.done,
                },
            )
        },
    }
}

/// What to do after an item of the stream.
pub enum Flow {
    /// Read the next item.
    Continue,
    /// The answer is complete: stop reading and report success.
    Finish,
    /// Stop reading and report this error.
    Abort(RelayError),
}

/// The decision on one item of the stream: the fragment to emit, if any,
/// and how to go on.
pub struct Step {
    pub fragment: Option<StreamFragment>,
    pub flow: Flow,
}

/// Decides on one item of the answer stream. A chunk gives its fragment, if
/// it carries a message, and ends the answer where it is marked done; an item
/// that could not be read aborts with `StreamDecodeError`.
pub fn step(item: &StreamItem) -> (r: Step)
    ensures
        match item {
            StreamItem::Malformed => r.fragment is None && r.flow matches Flow::Abort(
                RelayError::StreamDecodeError,
            ),
            StreamItem::Chunk(c) => opt_fragment_view(r.fragment) == fragment_of(*c) && (if c.done {
                r.flow is Finish
            } else {
                r.flow is Continue
            }),
        },
{
    match item {
        StreamItem::Malformed => Step { fragment: None, flow: Flow::Abort(RelayError::StreamDecodeError) },
        StreamItem::Chunk(c) => {
            let fragment = to_fragment(c);
            if c.done {
                Step { fragment, flow: Flow::Finish }
            } else {
                Step { fragment, flow: Flow::Continue }
            }
        },
    }
}

/// Whether reading stops at this item.
pub open spec fn is_stop(it: StreamItem) -> bool {
    match it {
        StreamItem::Malformed => true,
        StreamItem::Chunk(c) => c.done,
    }
}

/// The fragments an item gives: one or none.
pub open spec fn item_fragments(it: StreamItem) -> Seq<FragmentView> {
    match it {
        StreamItem::Chunk(c) => match fragment_of(c) {
            Some(f) => seq![f],
            None => Seq::empty(),
        },
        StreamItem::Malformed => Seq::empty(),
    }
}

/// What relaying a stream comes to: the fragments emitted, in order, how
/// many items were read, and whether it ended on an item that could not be read.
pub struct RelayModel {
    pub fragments: Seq<FragmentView>,
    pub consumed: nat,
    pub failed: bool,
}

/// Relaying a stream: items are read in order, each gives its fragments, and
/// reading stops after the first that is done or could not be read, or at the end.
pub open spec fn relay_model(items: Seq<StreamItem>) -> RelayModel
    decreases items.len(),
{
    if items.len() == 0 {
        RelayModel { fragments: Seq::empty(), consumed: 0, failed: false }
    } else if is_stop(items[0]) {
        RelayModel { fragments: item_fragments(items[0]), consumed: 1, failed: items[0] is Malformed }
    } else {
        let rest = relay_model(items.skip(1));
        RelayModel {
            fragments: item_fragments(items[0]) + rest.fragments,
            consumed: rest.consumed + 1,
            failed: rest.failed,
        }
    }
}

/// Whether the item is a chunk that carries a message and is not the last.
pub open spec fn is_open_chunk(it: StreamItem) -> bool {
    it matches StreamItem::Chunk(c) && c.message is Some && !c.done
}

/// Whether the item is a chunk that carries a message and closes the answer.
pub open spec fn is_closing_chunk(it: StreamItem) -> bool {
    it matches StreamItem::Chunk(c) && c.message is Some && c.done
}

/// A stream of chunks that each carry a message, none done but the last,
/// which is: every chunk gives one fragment, in arrival order, and relaying
/// succeeds having read exactly those chunks, whatever would follow them.
pub proof fn lemma_relay_stops_at_done(items: Seq<StreamItem>, after: Seq<StreamItem>)
    requires
        items.len() >= 1,
        forall|j: int| 0 <= j < items.len() - 1 ==> is_open_chunk(#[trigger] items[j]),
        is_closing_chunk(items[items.len() - 1]),
    ensures
        relay_model(items + after) == (RelayModel {
            fragments: items.map_values(|it: StreamItem| item_fragments(it)[0]),
            consumed: items.len(),
            failed: false,
        }),
    decreases items.len(),
{
    let s = items + after;
    assert(s[0] == items[0]);
    if items.len() == 1 {
        assert(item_fragments(items[0]) =~= items.map_values(|it: StreamItem| item_fragments(it)[0]));
    } else {
        let rest = items.skip(1);
        assert(s.skip(1) =~= rest + after);
        assert forall|j: int| 0 <= j < rest.len() - 1 implies is_open_chunk(#[trigger] rest[j]) by {
            assert(rest[j] == items[j + 1]);
        }
        assert(rest[rest.len() - 1] == items[items.len() - 1]);
        lemma_relay_stops_at_done(rest, after);
        assert(is_open_chunk(items[0]));
        assert(item_fragments(items[0]) + rest.map_values(|it: StreamItem| item_fragments(it)[0])
            =~= items.map_values(|it: StreamItem| item_fragments(it)[0]));
    }
}

/// A chunk that carries no message and is not done gives no fragment, and
/// relaying goes on with the items after it.
pub proof fn lemma_relay_skips_empty_chunk(c: Chunk, after: Seq<StreamItem>)
    requires
        c.message is None,
        !c.done,
    ensures
        relay_model(seq![StreamItem::Chunk(c)] + after) == (RelayModel {
            fragments: relay_model(after).fragments,
            consumed: relay_model(after).consumed + 1,
            failed: relay_model(after).failed,
        }),
{
    let s = seq![StreamItem::Chunk(c)] + after;
    assert(s[0] == StreamItem::Chunk(c));
    assert(s.skip(1) =~= after);
    assert(item_fragments(s[0]) + relay_model(after).fragments =~= relay_model(after).fragments);
}

/// An assistant message without an image, sent to the backend and echoed
/// back by an assistant chunk with the request's text, comes back as the
/// same message: same role, same text, no image.
pub proof fn lemma_assistant_round_trip(m: MessageView, c: Chunk)
    requires
        m.role is Assistant,
        m.image is None,
        c.message matches Some(cm) && cm.role == ChunkRole::Assistant && cm.content@ == request_of(
            m,
        ).content,
    ensures
        request_of(m).role == RequestRole::Assistant,
        fragment_of(c) matches Some(f) && f.message == m,
{
    assert(role_of(chunk_role_text(ChunkRole::Assistant)) == RoleView::Assistant);
}

/// The result of relaying a stream.
pub struct RelayOutcome {
    pub fragments: Vec<StreamFragment>,
    pub consumed: usize,
    pub result: Result<(), RelayError>,
}

/// Relays an answer stream already opened, or the error with which opening
/// it failed. Each item is decided on by `step` in its order; the fragments
/// are collected, and reading stops where the step says so.
pub fn relay(opened: &Result<Vec<StreamItem>, String>) -> (r: RelayOutcome)
    ensures
        match opened {
            Err(msg) => r.fragments@.len() == 0 && r.consumed == 0 && (r.result matches Err(
                RelayError::BackendUnavailable(e),
            ) && e@ == msg@),
            Ok(items) => relayed(items@, r),
        },
{
    match opened {
        Err(msg) => RelayOutcome {
            fragments: Vec::new(),
            consumed: 0,
            result: Err(RelayError::BackendUnavailable(msg.clone())),
        },
        Ok(items) => relay_items(items),
    }
}

/// Whether an outcome is what relaying these items comes to.
pub open spec fn relayed(items: Seq<StreamItem>, r: RelayOutcome) -> bool {
    let m = relay_model(items);
    &&& r.fragments@.map_values(|f: StreamFragment| f@) == m.fragments
    &&& r.consumed == m.consumed
    &&& r.result is Err <==> m.failed
    &&& r.result is Err ==> r.result matches Err(RelayError::StreamDecodeError)
}

fn relay_items(items: &Vec<StreamItem>) -> (r: RelayOutcome)
    ensures
        relayed(items@, r),
{
    proof {
        assert(items@.skip(0) =~= items@);
    }
    let ghost whole = relay_model(items@);
    let mut fragments: Vec<StreamFragment> = Vec::new();
    let mut i: usize = 0;
    while i < items.len()
        invariant
            i <= items@.len(),
            whole == relay_model(items@),
            ({
                let rest = relay_model(items@.skip(i as int));
                &&& whole.fragments == fragments@.map_values(|f: StreamFragment| f@) + rest.fragments
                &&& whole.consumed == i + rest.consumed
                &&& whole.failed == rest.failed
            }),
        decreases items@.len() - i,
    {
        let ghost prev = fragments@.map_values(|f: StreamFragment| f@);
        let ghost tail = items@.skip(i as int);
        proof {
            assert(tail[0] == items@[i as int]);
            assert(tail.skip(1) =~= items@.skip(i + 1));
        }
        let s = step(&items[i]);
        match s.fragment {
            Some(f) => {
                fragments.push(f);
            },
            None => {},
        }
        proof {
            assert(fragments@.map_values(|f: StreamFragment| f@) =~= prev + item_fragments(
                items@[i as int],
            ));
        }
        i = i + 1;
        match s.flow {
            Flow::Continue => {},
            Flow::Finish => {
                proof {
                    assert(fragments@.map_values(|f: StreamFragment| f@) =~= whole.fragments);
                }
                return RelayOutcome { fragments, consumed: i, result: Ok(()) };
            },
            Flow::Abort(e) => {
                proof {
                    assert(fragments@.map_values(|f: StreamFragment| f@) =~= whole.fragments);
                }
                return RelayOutcome { fragments, consumed: i, result: Err(e) };
            },
        }
        proof {
            assert((prev + item_fragments(items@[i - 1])) + relay_model(
                items@.skip(i as int),
            ).fragments =~= prev + (item_fragments(items@[i - 1]) + relay_model(
                items@.skip(i as int),
            ).fragments));
        }
    }
    proof {
        assert(items@.skip(i as int).len() == 0);
        assert(fragments@.map_values(|f: StreamFragment| f@) =~= whole.fragments);
    }
    RelayOutcome { fragments, consumed: i, result: Ok(()) }
}

} // verus!
