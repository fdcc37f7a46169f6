use vstd::prelude::*;
use vstd::string::*;

verus! {

/// Who wrote a message of a conversation. A role that the backend does not
/// take is kept as it was written.
pub enum Role {
    User,
    Assistant,
    Unrecognized(String),
}

/// The mathematical value of a `Role`.
pub enum RoleView {
    User,
    Assistant,
    Unrecognized(Seq<char>),
}

impl View for Role {
    type V = RoleView;

    open spec fn view(&self) -> RoleView {
        match self {
            Role::User => RoleView::User,
            Role::Assistant => RoleView::Assistant,
            Role::Unrecognized(s) => RoleView::Unrecognized(s@),
        }
    }
}

/// The written name "user".
pub open spec fn user_text() -> Seq<char> {
    seq!['u', 's', 'e', 'r']
}

/// The written name "assistant".
pub open spec fn assistant_text() -> Seq<char> {
    seq!['a', 's', 's', 'i', 's', 't', 'a', 'n', 't']
}

/// The role that a written role name stands for.
pub open spec fn role_of(s: Seq<char>) -> RoleView {
    if s == user_text() {
        RoleView::User
    } else if s == assistant_text() {
        RoleView::Assistant
    } else {
        RoleView::Unrecognized(s)
    }
}

/// The written name of a role.
pub open spec fn role_text(r: RoleView) -> Seq<char> {
    match r {
        RoleView::User => user_text(),
        RoleView::Assistant => assistant_text(),
        RoleView::Unrecognized(s) => s,
    }
}

impl Role {
    /// Reads a role from its written name: "user", "assistant", or any other.
    pub fn parse(s: &str) -> (r: Role)
        ensures
            r@ == role_of(s@),
    {
        let t = String::from_str(s);
        let user = String::from_str("user");
        let assistant = String::from_str("assistant");
        proof {
            reveal_strlit("user");
            reveal_strlit("assistant");
            assert(user@ =~= user_text());
            assert(assistant@ =~= assistant_text());
        }
        if t == user {
            Role::User
        } else if t == assistant {
            Role::Assistant
        } else {
            Role::Unrecognized(t)
        }
    }

    /// The written name of the role.
    pub fn name(&self) -> (r: String)
        ensures
            r@ == role_text(self@),
    {
        proof {
            reveal_strlit("user");
            reveal_strlit("assistant");
            assert("user"@ =~= user_text());
            assert("assistant"@ =~= assistant_text());
        }
        match self {
            Role::User => String::from_str("user"),
            Role::Assistant => String::from_str("assistant"),
            Role::Unrecognized(s) => s.clone(),
        }
    }

    /// Whether the backend takes this role.
    pub fn is_recognized(&self) -> (r: bool)
        ensures
            r == !(self@ is Unrecognized),
    {
        match self {
            Role::Unrecognized(_) => false,
            _ => true,
        }
    }
}

/// One message of a conversation: who wrote it, its text, and an image
/// written in base64, if it carries one.
pub struct ConversationMessage {
    pub role: Role,
    pub content: String,
    pub image: Option<String>,
}

/// The mathematical value of a `ConversationMessage`.
pub struct MessageView {
    pub role: RoleView,
    pub content: Seq<char>,
    pub image: Option<Seq<char>>,
}

impl View for ConversationMessage {
    type V = MessageView;

    open spec fn view(&self) -> MessageView {
        MessageView {
            role: self.role@,
            content: self.content@,
            image: match self.image {
                Some(s) => Some(s@),
                None => None,
            },
        }
    }
}

/// The model to ask and the sampling parameters of a generation. The two
/// real-valued parameters travel as the bits of their `f32` value.
pub struct GenerationConfig {
    pub model_id: String,
    pub temperature_bits: u32,
    pub top_p_bits: u32,
    pub top_k: u32,
}

} // verus!
