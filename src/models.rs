//! The node's records: users, contacts, chats and messages.
use vstd::prelude::*;

verus! {

#[derive(Debug, Clone, Copy, PartialEq, Eq, Structural)]
pub enum UserStatus {
    Online,
    Offline,
    Typing,
}

#[derive(Debug, Clone, PartialEq, Eq)]
pub struct User {
    /// Identity string of the user.
    pub id: String,
    pub username: String,
    pub status: UserStatus,
    /// Unix time of the last activity.
    pub last_seen: u64,
    pub avatar_url: Option<String>,
    pub is_registered: bool,
}

#[derive(Debug, Clone, PartialEq, Eq)]
pub struct Contact {
    /// Identity string of the contact.
    pub id: String,
    /// Local nickname or profile name.
    pub name: String,
    pub avatar_url: Option<String>,
    pub status: UserStatus,
    /// Phone number for the SMS fallback.
    pub phone_number: Option<String>,
}

#[derive(Debug, Clone, Copy, PartialEq, Eq, Structural)]
pub enum ChatType {
    Private,
    Group,
}

/// How messages of a chat travel.
#[derive(Debug, Clone, Copy, PartialEq, Eq, Structural)]
pub enum TransportMode {
    /// Direct encrypted peer-to-peer (the default).
    Internet,
    /// Encrypted relay through an HTTP relay.
    CdnRelay,
    /// Data encoded in DNS queries: slow, text only.
    DnsTunnel,
    /// Bluetooth or Wi-Fi mesh, store-and-forward between devices.
    Mesh,
    /// Carrier SMS with an encrypted payload.
    Sms,
}

#[derive(Debug, Clone, PartialEq, Eq)]
pub struct ChatLastMessage {
    pub text: String,
    pub timestamp: u64,
    pub sender_id: String,
}

#[derive(Debug, Clone, PartialEq, Eq)]
pub struct Chat {
    pub id: String,
    pub chat_type: ChatType,
    pub name: String,
    pub avatar_url: Option<String>,
    pub unread_count: u32,
    pub last_message: Option<ChatLastMessage>,
    pub participants: Vec<String>,
    pub transport: TransportMode,
}

#[derive(Debug, Clone, Copy, PartialEq, Eq, Structural)]
pub enum MessageStatus {
    Sending,
    Sent,
    Delivered,
    Read,
    Failed,
}

#[derive(Debug, Clone, PartialEq, Eq)]
pub struct Message {
    pub id: String,
    pub chat_id: String,
    pub sender_id: String,
    pub text: String,
    pub timestamp: u64,
    pub status: MessageStatus,
    pub attachments: Vec<String>,
    pub transport: TransportMode,
}

#[derive(Debug, Clone, Copy, PartialEq, Eq, Structural)]
pub enum NetworkStatus {
    Connected,
    Disconnected,
    Connecting,
}

/// Errors of the node's operations.
#[derive(Debug, Clone, PartialEq, Eq)]
pub enum CoreError {
    Internal(String),
    NotImplemented,
    InvalidArgument(String),
}

pub open spec fn opt_view(o: Option<String>) -> Option<Seq<char>> {
    match o {
        Some(s) => Some(s@),
        None => None,
    }
}

pub open spec fn texts_view(v: Seq<String>) -> Seq<Seq<char>> {
    v.map_values(|s: String| s@)
}

pub struct UserView {
    pub id: Seq<char>,
    pub username: Seq<char>,
    pub status: UserStatus,
    pub last_seen: u64,
    pub avatar_url: Option<Seq<char>>,
    pub is_registered: bool,
}

impl View for User {
    type V = UserView;

    open spec fn view(&self) -> UserView {
        UserView {
            id: self.id@,
            username: self.username@,
            status: self.status,
            last_seen: self.last_seen,
            avatar_url: opt_view(self.avatar_url),
            is_registered: self.is_registered,
        }
    }
}

pub struct ContactView {
    pub id: Seq<char>,
    pub name: Seq<char>,
    pub avatar_url: Option<Seq<char>>,
    pub status: UserStatus,
    pub phone_number: Option<Seq<char>>,
}

impl View for Contact {
    type V = ContactView;

    open spec fn view(&self) -> ContactView {
        ContactView {
            id: self.id@,
            name: self.name@,
            avatar_url: opt_view(self.avatar_url),
            status: self.status,
            phone_number: opt_view(self.phone_number),
        }
    }
}

pub struct LastMessageView {
    pub text: Seq<char>,
    pub timestamp: u64,
    pub sender_id: Seq<char>,
}

pub open spec fn last_view(o: Option<ChatLastMessage>) -> Option<LastMessageView> {
    match o {
        Some(m) => Some(LastMessageView { text: m.text@, timestamp: m.timestamp, sender_id: m.sender_id@ }),
        None => None,
    }
}

pub struct ChatView {
    pub id: Seq<char>,
    pub chat_type: ChatType,
    pub name: Seq<char>,
    pub avatar_url: Option<Seq<char>>,
    pub unread_count: u32,
    pub last_message: Option<LastMessageView>,
    pub participants: Seq<Seq<char>>,
    pub transport: TransportMode,
}

impl View for Chat {
    type V = ChatView;

    open spec fn view(&self) -> ChatView {
        ChatView {
            id: self.id@,
            chat_type: self.chat_type,
            name: self.name@,
            avatar_url: opt_view(self.avatar_url),
            unread_count: self.unread_count,
            last_message: last_view(self.last_message),
            participants: texts_view(self.participants@),
            transport: self.transport,
        }
    }
}

pub struct MessageView {
    pub id: Seq<char>,
    pub chat_id: Seq<char>,
    pub sender_id: Seq<char>,
    pub text: Seq<char>,
    pub timestamp: u64,
    pub status: MessageStatus,
    pub attachments: Seq<Seq<char>>,
    pub transport: TransportMode,
}

impl View for Message {
    type V = MessageView;

    open spec fn view(&self) -> MessageView {
        MessageView {
            id: self.id@,
            chat_id: self.chat_id@,
            sender_id: self.sender_id@,
            text: self.text@,
            timestamp: self.timestamp,
            status: self.status,
            attachments: texts_view(self.attachments@),
            transport: self.transport,
        }
    }
}

pub fn copy_opt_text(o: &Option<String>) -> (r: Option<String>)
    ensures
        opt_view(r) == opt_view(*o),
{
    match o {
        Some(s) => Some(s.clone()),
        None => None,
    }
}

pub fn copy_texts(v: &Vec<String>) -> (r: Vec<String>)
    ensures
        texts_view(r@) == texts_view(v@),
{
    let mut out: Vec<String> = Vec::new();
    let mut i: usize = 0;
    while i < v.len()
        invariant
            i <= v@.len(),
            texts_view(out@) == texts_view(v@).take(i as int),
        decreases v@.len() - i,
    {
        let s = v[i].clone();
        proof {
            assert(s@ == v@[i as int]@);
            assert(texts_view(out@.push(s)) =~= texts_view(out@).push(s@));
            assert(texts_view(out@.push(s)) =~= texts_view(v@).take(i + 1));
        }
        out.push(s);
        i += 1;
    }
    assert(texts_view(v@).take(i as int) =~= texts_view(v@));
    out
}

impl User {
    /// A copy of the user, field by field.
    pub fn duplicate(&self) -> (r: User)
        ensures
            r@ == self@,
    {
        User {
            id: self.id.clone(),
            username: self.username.clone(),
            status: self.status,
            last_seen: self.last_seen,
            avatar_url: copy_opt_text(&self.avatar_url),
            is_registered: self.is_registered,
        }
    }
}

impl Contact {
    /// A copy of the contact, field by field.
    pub fn duplicate(&self) -> (r: Contact)
        ensures
            r@ == self@,
    {
        Contact {
            id: self.id.clone(),
            name: self.name.clone(),
            avatar_url: copy_opt_text(&self.avatar_url),
            status: self.status,
            phone_number: copy_opt_text(&self.phone_number),
        }
    }
}

impl ChatLastMessage {
    /// A copy of the summary, field by field.
    pub fn duplicate(&self) -> (r: ChatLastMessage)
        ensures
            r.text@ == self.text@,
            r.timestamp == self.timestamp,
            r.sender_id@ == self.sender_id@,
    {
        ChatLastMessage {
            text: self.text.clone(),
            timestamp: self.timestamp,
            sender_id: self.sender_id.clone(),
        }
    }
}

impl Chat {
    /// A copy of the chat, field by field.
    pub fn duplicate(&self) -> (r: Chat)
        ensures
            r@ == self@,
    {
        let last_message = match &self.last_message {
            Some(m) => Some(m.duplicate()),
            None => None,
        };
        Chat {
            id: self.id.clone(),
            chat_type: self.chat_type,
            name: self.name.clone(),
            avatar_url: copy_opt_text(&self.avatar_url),
            unread_count: self.unread_count,
            last_message,
            participants: copy_texts(&self.participants),
            transport: self.transport,
        }
    }
}

impl Message {
    /// A copy of the message, field by field.
    pub fn duplicate(&self) -> (r: Message)
        ensures
            r@ == self@,
    {
        Message {
            id: self.id.clone(),
            chat_id: self.chat_id.clone(),
            sender_id: self.sender_id.clone(),
            text: self.text.clone(),
            timestamp: self.timestamp,
            status: self.status,
            attachments: copy_texts(&self.attachments),
            transport: self.transport,
        }
    }
}

} // verus!
