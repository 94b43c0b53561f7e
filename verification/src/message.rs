//! Messages of a conversation.
use vstd::prelude::*;
use vstd::string::*;

verus! {

/// Who speaks.
#[derive(Debug, Clone, Copy, PartialEq, Eq, Structural)]
pub enum Role {
    User,
    Assistant,
}

/// How a notification is shown.
#[derive(Debug, Clone, Copy, PartialEq, Eq, Structural)]
pub enum SystemNotificationType {
    InlineMessage,
}

/// A block of a message.
#[derive(Debug, Clone)]
pub enum MessageContentBlock {
    /// Text that the model reads.
    Text(String),
    /// A notification for the user interface; models do not see it.
    SystemNotification { notification_type: SystemNotificationType, msg: String },
}

#[verifier::ext_equal]
pub enum ContentBlockView {
    Text(Seq<char>),
    SystemNotification { notification_type: SystemNotificationType, msg: Seq<char> },
}

impl View for MessageContentBlock {
    type V = ContentBlockView;

    open spec fn view(&self) -> ContentBlockView {
        match *self {
            MessageContentBlock::Text(text) => ContentBlockView::Text(text@),
            MessageContentBlock::SystemNotification { notification_type, msg } => {
                ContentBlockView::SystemNotification { notification_type, msg: msg@ }
            },
        }
    }
}

/// A message, with who may see it.
#[derive(Debug, Clone)]
pub struct Message {
    pub role: Role,
    pub content: Vec<MessageContentBlock>,
    pub user_visible: bool,
    pub agent_visible: bool,
    /// Guidance that was queued while the agent was busy.
    pub steer: bool,
}

#[verifier::ext_equal]
pub struct MessageView {
    pub role: Role,
    pub content: Seq<ContentBlockView>,
    pub user_visible: bool,
    pub agent_visible: bool,
    pub steer: bool,
}

impl View for Message {
    type V = MessageView;

    open spec fn view(&self) -> MessageView {
        MessageView {
            role: self.role,
            content: self.content@.map_values(|b: MessageContentBlock| b@),
            user_visible: self.user_visible,
            agent_visible: self.agent_visible,
            steer: self.steer,
        }
    }
}

impl MessageView {
    /// A user message that everybody sees, made of these blocks.
    pub open spec fn from_user(content: Seq<ContentBlockView>) -> MessageView {
        MessageView {
            role: Role::User,
            content,
            user_visible: true,
            agent_visible: true,
            steer: false,
        }
    }
}

impl Message {
    /// An empty user message.
    pub fn user() -> (r: Message)
        ensures
            r@ == MessageView::from_user(Seq::empty()),
    {
        let r = Message {
            role: Role::User,
            content: Vec::new(),
            user_visible: true,
            agent_visible: true,
            steer: false,
        };
        assert(r@.content =~= Seq::empty());
        r
    }

    /// The message with one more block.
    pub fn with_content(self, block: MessageContentBlock) -> (r: Message)
        ensures
            r@ == (MessageView { content: self@.content.push(block@), ..self@ }),
    {
        let mut r = self;
        r.content.push(block);
        assert(r@.content =~= self@.content.push(block@));
        r
    }

    /// The message with one more block of text.
    pub fn with_text(self, text: String) -> (r: Message)
        ensures
            r@ == (MessageView {
                content: self@.content.push(ContentBlockView::Text(text@)),
                ..self@
            }),
    {
        self.with_content(MessageContentBlock::Text(text))
    }

    /// The message, shown to the user and the agent as told.
    pub fn with_visibility(self, user_visible: bool, agent_visible: bool) -> (r: Message)
        ensures
            r@ == (MessageView { user_visible, agent_visible, ..self@ }),
    {
        Message { user_visible, agent_visible, ..self }
    }

    /// The message, marked as queued guidance.
    pub fn with_steer(self) -> (r: Message)
        ensures
            r@ == (MessageView { steer: true, ..self@ }),
    {
        Message { steer: true, ..self }
    }
}

} // verus!
