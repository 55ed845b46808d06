//! The node's local state: its profile and its chat, message and contact
//! registries, with the bookkeeping of the node's operations. Chats and
//! contacts are keyed by id (an id stands at most once); messages are kept in
//! order of arrival.
use crate::encoding::{contains_text, is_infix, lowercase, lowercase_of, trim, trimmed};
use crate::models::{
    copy_opt_text, opt_view, texts_view, Chat, ChatLastMessage, ChatType, ChatView, Contact,
    ContactView, CoreError, LastMessageView, Message, MessageStatus, MessageView, TransportMode,
    User, UserStatus, UserView,
};
use vstd::prelude::*;

verus! {

pub struct NodeState {
    pub profile: User,
    pub chats: Vec<Chat>,
    pub messages: Vec<Message>,
    pub contacts: Vec<Contact>,
}

pub struct NodeView {
    pub profile: UserView,
    pub chats: Seq<ChatView>,
    pub messages: Seq<MessageView>,
    pub contacts: Seq<ContactView>,
}

pub open spec fn chat_views(v: Seq<Chat>) -> Seq<ChatView> {
    v.map_values(|c: Chat| c@)
}

pub open spec fn message_views(v: Seq<Message>) -> Seq<MessageView> {
    v.map_values(|m: Message| m@)
}

pub open spec fn contact_views(v: Seq<Contact>) -> Seq<ContactView> {
    v.map_values(|c: Contact| c@)
}

impl View for NodeState {
    type V = NodeView;

    open spec fn view(&self) -> NodeView {
        NodeView {
            profile: self.profile@,
            chats: chat_views(self.chats@),
            messages: message_views(self.messages@),
            contacts: contact_views(self.contacts@),
        }
    }
}

pub open spec fn distinct_chat_ids(s: Seq<ChatView>) -> bool {
    forall|i: int, j: int| 0 <= i < j < s.len() ==> s[i].id != s[j].id
}

pub open spec fn distinct_contact_ids(s: Seq<ContactView>) -> bool {
    forall|i: int, j: int| 0 <= i < j < s.len() ==> s[i].id != s[j].id
}

proof fn lemma_filter_keeps_distinct(s: Seq<ChatView>, pred: spec_fn(ChatView) -> bool)
    requires
        distinct_chat_ids(s),
    ensures
        distinct_chat_ids(s.filter(pred)),
    decreases s.len(),
{
    reveal(Seq::filter);
    if s.len() > 0 {
        let rest = s.drop_last();
        lemma_filter_keeps_distinct(rest, pred);
        if pred(s.last()) {
            let f = rest.filter(pred);
            assert forall|i: int| 0 <= i < f.len() implies f[i].id != s.last().id by {
                rest.lemma_filter_contains_rev(pred, f[i]);
            }
        }
    }
}

/// The profile of a node that has not registered.
pub open spec fn fresh_profile_view(id: Seq<char>) -> UserView {
    UserView {
        id,
        username: "New User"@,
        status: UserStatus::Offline,
        last_seen: 0,
        avatar_url: None,
        is_registered: false,
    }
}

/// `i` is the first position of `s` whose id is `id`.
pub open spec fn first_chat(s: Seq<ChatView>, id: Seq<char>, i: int) -> bool {
    0 <= i < s.len() && s[i].id == id && forall|j: int| 0 <= j < i ==> s[j].id != id
}

pub open spec fn has_chat(s: Seq<ChatView>, id: Seq<char>) -> bool {
    exists|i: int| 0 <= i < s.len() && s[i].id == id
}

/// `i` is the first position of `s` whose id is `id`.
pub open spec fn first_contact(s: Seq<ContactView>, id: Seq<char>, i: int) -> bool {
    0 <= i < s.len() && s[i].id == id && forall|j: int| 0 <= j < i ==> s[j].id != id
}

pub open spec fn has_contact(s: Seq<ContactView>, id: Seq<char>) -> bool {
    exists|i: int| 0 <= i < s.len() && s[i].id == id
}

/// The chat is a private chat that `participant` takes part in.
pub open spec fn is_private_with(c: ChatView, participant: Seq<char>) -> bool {
    c.chat_type == ChatType::Private && c.participants.contains(participant)
}

/// The messages of one chat, in order.
pub open spec fn chat_messages(ms: Seq<MessageView>, chat_id: Seq<char>) -> Seq<MessageView> {
    ms.filter(|m: MessageView| m.chat_id == chat_id)
}

/// At most `limit` items from position `offset` on.
pub open spec fn page(s: Seq<MessageView>, limit: nat, offset: nat) -> Seq<MessageView> {
    if offset < s.len() {
        s.subrange(offset as int, if offset + limit < s.len() { (offset + limit) as int } else { s.len() as int })
    } else {
        seq![]
    }
}

/// The message marked read when it is one of `ids` in chat `chat_id`.
pub open spec fn read_marked(m: MessageView, chat_id: Seq<char>, ids: Seq<Seq<char>>) -> MessageView {
    if m.chat_id == chat_id && ids.contains(m.id) {
        MessageView { status: MessageStatus::Read, ..m }
    } else {
        m
    }
}

/// A private chat between this node and `participant`.
pub open spec fn private_chat_view(
    chat_id: Seq<char>,
    me: Seq<char>,
    participant: Seq<char>,
    name: Seq<char>,
    avatar_url: Option<Seq<char>>,
) -> ChatView {
    ChatView {
        id: chat_id,
        chat_type: ChatType::Private,
        name,
        avatar_url,
        unread_count: 0,
        last_message: None,
        participants: seq![me, participant],
        transport: TransportMode::Internet,
    }
}

/// A group chat of `participants` and this node.
pub open spec fn group_chat_view(
    chat_id: Seq<char>,
    me: Seq<char>,
    name: Seq<char>,
    participants: Seq<Seq<char>>,
) -> ChatView {
    ChatView {
        id: chat_id,
        chat_type: ChatType::Group,
        name,
        avatar_url: None,
        unread_count: 0,
        last_message: None,
        participants: participants.push(me),
        transport: TransportMode::Internet,
    }
}

/// A message that this node sends in a chat with transport `transport`.
pub open spec fn outgoing_view(
    message_id: Seq<char>,
    chat_id: Seq<char>,
    me: Seq<char>,
    text: Seq<char>,
    now: u64,
    transport: TransportMode,
) -> MessageView {
    MessageView {
        id: message_id,
        chat_id,
        sender_id: me,
        text,
        timestamp: now,
        status: MessageStatus::Sent,
        attachments: seq![],
        transport,
    }
}

/// The chat with its last message set to `m`.
pub open spec fn with_last_message(c: ChatView, m: MessageView) -> ChatView {
    ChatView {
        last_message: Some(LastMessageView { text: m.text, timestamp: m.timestamp, sender_id: m.sender_id }),
        ..c
    }
}

/// The contact's name or id holds the query, case aside.
pub open spec fn matches_query(c: ContactView, query: Seq<char>) -> bool {
    is_infix(lowercase_of(query), lowercase_of(c.name)) || is_infix(lowercase_of(query), lowercase_of(c.id))
}

/// A message with the same id is already in the same chat.
pub open spec fn has_message(ms: Seq<MessageView>, m: MessageView) -> bool {
    exists|j: int| 0 <= j < ms.len() && ms[j].chat_id == m.chat_id && ms[j].id == m.id
}

pub open spec fn contact_view(
    id: Seq<char>,
    name: Seq<char>,
    avatar_url: Option<Seq<char>>,
    status: UserStatus,
    phone_number: Option<Seq<char>>,
) -> ContactView {
    ContactView { id, name, avatar_url, status, phone_number }
}

/// A profile for a node that has not registered yet.
pub fn fresh_profile(id: String) -> (r: User)
    ensures
        r@ == fresh_profile_view(id@),
{
    User {
        id,
        username: "New User".to_owned(),
        status: UserStatus::Offline,
        last_seen: 0,
        avatar_url: None,
        is_registered: false,
    }
}

/// Is `s` among `v`?
pub fn texts_contain(v: &[String], s: &str) -> (r: bool)
    ensures
        r == texts_view(v@).contains(s@),
{
    let target = s.to_owned();
    let mut i: usize = 0;
    while i < v.len()
        invariant
            i <= v@.len(),
            target@ == s@,
            forall|j: int| 0 <= j < i ==> v@[j]@ != s@,
        decreases v@.len() - i,
    {
        if v[i] == target {
            assert(texts_view(v@)[i as int] == s@);
            return true;
        }
        i += 1;
    }
    assert forall|j: int| 0 <= j < texts_view(v@).len() implies texts_view(v@)[j] != s@ by {
        assert(v@[j]@ != s@);
    }
    false
}

proof fn lemma_filter_step<T>(s: Seq<T>, i: int, pred: spec_fn(T) -> bool)
    requires
        0 <= i < s.len(),
    ensures
        s.take(i + 1).filter(pred) == (if pred(s[i]) {
            s.take(i).filter(pred).push(s[i])
        } else {
            s.take(i).filter(pred)
        }),
{
    reveal(Seq::filter);
    assert(s.take(i + 1).drop_last() =~= s.take(i));
}

impl NodeState {
    /// Chats and contacts are keyed by id: no id stands twice.
    pub open spec fn wf(&self) -> bool {
        distinct_chat_ids(self@.chats) && distinct_contact_ids(self@.contacts)
    }

    /// A node with the given profile and empty registries.
    pub fn new(profile: User) -> (r: NodeState)
        ensures
            r@.profile == profile@,
            r@.chats.len() == 0,
            r@.messages.len() == 0,
            r@.contacts.len() == 0,
            r.wf(),
    {
        NodeState { profile, chats: Vec::new(), messages: Vec::new(), contacts: Vec::new() }
    }

    pub fn get_my_profile(&self) -> (r: User)
        ensures
            r@ == self@.profile,
    {
        self.profile.duplicate()
    }

    /// Registers the node under `username` at time `now`; a name of white
    /// space only is refused and changes nothing.
    pub fn register(&mut self, username: String, now: u64) -> (r: Result<User, CoreError>)
        ensures
            old(self).wf() ==> final(self).wf(),
            trimmed(username@).len() == 0 ==> final(self)@ == old(self)@ && (r matches Err(
                CoreError::InvalidArgument(m),
            ) && m@ == "Username cannot be empty"@),
            trimmed(username@).len() != 0 ==> final(self)@ == (NodeView {
                profile: UserView {
                    username: username@,
                    status: UserStatus::Online,
                    last_seen: now,
                    is_registered: true,
                    ..old(self)@.profile
                },
                ..old(self)@
            }) && (r matches Ok(u) && u@ == final(self)@.profile),
    {
        if trim(username.as_str()).is_empty() {
            return Err(CoreError::InvalidArgument("Username cannot be empty".to_owned()));
        }
        self.profile.username = username;
        self.profile.status = UserStatus::Online;
        self.profile.last_seen = now;
        self.profile.is_registered = true;
        Ok(self.profile.duplicate())
    }

    /// Sets the profile's name and avatar.
    pub fn update_profile(&mut self, name: String, avatar: Option<String>)
        ensures
            old(self).wf() ==> final(self).wf(),
            final(self)@ == (NodeView {
                profile: UserView { username: name@, avatar_url: opt_view(avatar), ..old(self)@.profile },
                ..old(self)@
            }),
    {
        self.profile.username = name;
        self.profile.avatar_url = avatar;
    }

    /// Empties the registries and resets the profile, keeping its id.
    pub fn clear_database(&mut self)
        ensures
            old(self).wf() ==> final(self).wf(),
            final(self)@.profile == fresh_profile_view(old(self)@.profile.id),
            final(self)@.chats.len() == 0,
            final(self)@.messages.len() == 0,
            final(self)@.contacts.len() == 0,
    {
        self.chats = Vec::new();
        self.messages = Vec::new();
        self.contacts = Vec::new();
        self.profile.username = "New User".to_owned();
        self.profile.status = UserStatus::Offline;
        self.profile.last_seen = 0;
        self.profile.avatar_url = None;
        self.profile.is_registered = false;
    }

    pub fn get_chats(&self) -> (r: Vec<Chat>)
        ensures
            chat_views(r@) == self@.chats,
    {
        let mut out: Vec<Chat> = Vec::new();
        let mut i: usize = 0;
        while i < self.chats.len()
            invariant
                i <= self.chats@.len(),
                chat_views(out@) == chat_views(self.chats@).take(i as int),
            decreases self.chats@.len() - i,
        {
            let c = self.chats[i].duplicate();
            proof {
                assert(chat_views(out@.push(c)) =~= chat_views(out@).push(c@));
                assert(chat_views(out@.push(c)) =~= chat_views(self.chats@).take(i + 1));
            }
            out.push(c);
            i += 1;
        }
        assert(chat_views(self.chats@).take(i as int) =~= chat_views(self.chats@));
        out
    }

    pub fn get_contacts(&self) -> (r: Vec<Contact>)
        ensures
            contact_views(r@) == self@.contacts,
    {
        let mut out: Vec<Contact> = Vec::new();
        let mut i: usize = 0;
        while i < self.contacts.len()
            invariant
                i <= self.contacts@.len(),
                contact_views(out@) == contact_views(self.contacts@).take(i as int),
            decreases self.contacts@.len() - i,
        {
            let c = self.contacts[i].duplicate();
            proof {
                assert(contact_views(out@.push(c)) =~= contact_views(out@).push(c@));
                assert(contact_views(out@.push(c)) =~= contact_views(self.contacts@).take(i + 1));
            }
            out.push(c);
            i += 1;
        }
        assert(contact_views(self.contacts@).take(i as int) =~= contact_views(self.contacts@));
        out
    }

    /// Position of the chat with id `chat_id`.
    pub fn find_chat(&self, chat_id: &str) -> (r: Option<usize>)
        ensures
            r matches Some(i) ==> first_chat(self@.chats, chat_id@, i as int),
            r is None ==> !has_chat(self@.chats, chat_id@),
    {
        let target = chat_id.to_owned();
        let mut i: usize = 0;
        while i < self.chats.len()
            invariant
                i <= self.chats@.len(),
                target@ == chat_id@,
                forall|j: int| 0 <= j < i ==> self@.chats[j].id != chat_id@,
            decreases self.chats@.len() - i,
        {
            if self.chats[i].id == target {
                return Some(i);
            }
            i += 1;
        }
        None
    }

    /// Position of the contact with id `id`.
    pub fn find_contact(&self, id: &str) -> (r: Option<usize>)
        ensures
            r matches Some(i) ==> first_contact(self@.contacts, id@, i as int),
            r is None ==> !has_contact(self@.contacts, id@),
    {
        let target = id.to_owned();
        let mut i: usize = 0;
        while i < self.contacts.len()
            invariant
                i <= self.contacts@.len(),
                target@ == id@,
                forall|j: int| 0 <= j < i ==> self@.contacts[j].id != id@,
            decreases self.contacts@.len() - i,
        {
            if self.contacts[i].id == target {
                return Some(i);
            }
            i += 1;
        }
        None
    }

    /// Position of the first private chat that `participant` takes part in.
    pub fn find_private_chat(&self, participant: &str) -> (r: Option<usize>)
        ensures
            r matches Some(i) ==> i < self@.chats.len() && is_private_with(self@.chats[i as int], participant@)
                && forall|j: int| 0 <= j < i ==> !is_private_with(self@.chats[j], participant@),
            r is None ==> forall|j: int|
                0 <= j < self@.chats.len() ==> !is_private_with(self@.chats[j], participant@),
    {
        let mut i: usize = 0;
        while i < self.chats.len()
            invariant
                i <= self.chats@.len(),
                forall|j: int| 0 <= j < i ==> !is_private_with(self@.chats[j], participant@),
            decreases self.chats@.len() - i,
        {
            let c = &self.chats[i];
            if c.chat_type == ChatType::Private && texts_contain(c.participants.as_slice(), participant) {
                return Some(i);
            }
            i += 1;
        }
        None
    }

    /// Stores a chat under its id, in place of a chat with the same id.
    pub fn put_chat(&mut self, chat: Chat)
        ensures
            old(self).wf() ==> final(self).wf(),
            !has_chat(old(self)@.chats, chat@.id) ==> final(self)@.chats == old(self)@.chats.push(chat@),
            forall|i: int|
                first_chat(old(self)@.chats, chat@.id, i) ==> final(self)@.chats == old(
                    self,
                )@.chats.update(i, chat@),
            final(self)@.profile == old(self)@.profile,
            final(self)@.messages == old(self)@.messages,
            final(self)@.contacts == old(self)@.contacts,
    {
        match self.find_chat(chat.id.as_str()) {
            Some(i) => {
                proof {
                    assert(chat_views(self.chats@.update(i as int, chat)) =~= chat_views(
                        self.chats@,
                    ).update(i as int, chat@));
                }
                self.chats.set(i, chat);
            },
            None => {
                proof {
                    assert(chat_views(self.chats@.push(chat)) =~= chat_views(self.chats@).push(
                        chat@,
                    ));
                }
                self.chats.push(chat);
            },
        }
    }

    /// Stores a contact under its id, in place of a contact with the same id.
    pub fn put_contact(&mut self, contact: Contact)
        ensures
            old(self).wf() ==> final(self).wf(),
            !has_contact(old(self)@.contacts, contact@.id) ==> final(self)@.contacts == old(
                self,
            )@.contacts.push(contact@),
            forall|i: int|
                first_contact(old(self)@.contacts, contact@.id, i) ==> final(self)@.contacts == old(
                    self,
                )@.contacts.update(i, contact@),
            final(self)@.profile == old(self)@.profile,
            final(self)@.chats == old(self)@.chats,
            final(self)@.messages == old(self)@.messages,
    {
        match self.find_contact(contact.id.as_str()) {
            Some(i) => {
                proof {
                    assert(contact_views(self.contacts@.update(i as int, contact)) =~= contact_views(
                        self.contacts@,
                    ).update(i as int, contact@));
                }
                self.contacts.set(i, contact);
            },
            None => {
                proof {
                    assert(contact_views(self.contacts@.push(contact)) =~= contact_views(
                        self.contacts@,
                    ).push(contact@));
                }
                self.contacts.push(contact);
            },
        }
    }

    /// Opens a private chat with `participant`, named after what is known
    /// of them, and keeps them as a contact unless they are one already.
    pub fn create_private_chat(
        &mut self,
        chat_id: String,
        participant: String,
        name: String,
        avatar_url: Option<String>,
        status: UserStatus,
    ) -> (r: Chat)
        ensures
            old(self).wf() ==> final(self).wf(),
            r@ == private_chat_view(
                chat_id@,
                old(self)@.profile.id,
                participant@,
                name@,
                opt_view(avatar_url),
            ),
            !has_chat(old(self)@.chats, chat_id@) ==> final(self)@.chats == old(self)@.chats.push(r@),
            forall|i: int|
                first_chat(old(self)@.chats, chat_id@, i) ==> final(self)@.chats == old(
                    self,
                )@.chats.update(i, r@),
            has_contact(old(self)@.contacts, participant@) ==> final(self)@.contacts == old(
                self,
            )@.contacts,
            !has_contact(old(self)@.contacts, participant@) ==> final(self)@.contacts == old(
                self,
            )@.contacts.push(contact_view(participant@, name@, opt_view(avatar_url), status, None)),
            final(self)@.profile == old(self)@.profile,
            final(self)@.messages == old(self)@.messages,
    {
        let mut participants: Vec<String> = Vec::new();
        participants.push(self.profile.id.clone());
        participants.push(participant.clone());
        assert(texts_view(participants@) =~= seq![old(self)@.profile.id, participant@]);
        let chat = Chat {
            id: chat_id,
            chat_type: ChatType::Private,
            name: name.clone(),
            avatar_url: copy_opt_text(&avatar_url),
            unread_count: 0,
            last_message: None,
            participants,
            transport: TransportMode::Internet,
        };
        let result = chat.duplicate();
        self.put_chat(chat);
        if self.find_contact(participant.as_str()).is_none() {
            self.put_contact(
                Contact { id: participant, name, avatar_url, status, phone_number: None },
            );
        }
        result
    }

    /// Opens a group chat of `participants` and this node.
    pub fn create_group(&mut self, chat_id: String, name: String, participants: Vec<String>) -> (r:
        Chat)
        ensures
            old(self).wf() ==> final(self).wf(),
            r@ == group_chat_view(chat_id@, old(self)@.profile.id, name@, texts_view(participants@)),
            !has_chat(old(self)@.chats, chat_id@) ==> final(self)@.chats == old(self)@.chats.push(r@),
            forall|i: int|
                first_chat(old(self)@.chats, chat_id@, i) ==> final(self)@.chats == old(
                    self,
                )@.chats.update(i, r@),
            final(self)@.profile == old(self)@.profile,
            final(self)@.messages == old(self)@.messages,
            final(self)@.contacts == old(self)@.contacts,
    {
        let mut all = participants;
        let me = self.profile.id.clone();
        proof {
            assert(texts_view(all@.push(me)) =~= texts_view(all@).push(me@));
        }
        all.push(me);
        let chat = Chat {
            id: chat_id,
            chat_type: ChatType::Group,
            name,
            avatar_url: None,
            unread_count: 0,
            last_message: None,
            participants: all,
            transport: TransportMode::Internet,
        };
        let result = chat.duplicate();
        self.put_chat(chat);
        result
    }

    /// Removes the chat with id `chat_id` and its messages.
    pub fn delete_chat(&mut self, chat_id: &str)
        ensures
            old(self).wf() ==> final(self).wf(),
            final(self)@.chats == old(self)@.chats.filter(|c: ChatView| c.id != chat_id@),
            final(self)@.messages == old(self)@.messages.filter(
                |m: MessageView| m.chat_id != chat_id@,
            ),
            final(self)@.profile == old(self)@.profile,
            final(self)@.contacts == old(self)@.contacts,
    {
        let target = chat_id.to_owned();
        let ghost chats = self@.chats;
        let mut kept: Vec<Chat> = Vec::new();
        let mut i: usize = 0;
        while i < self.chats.len()
            invariant
                i <= self.chats@.len(),
                chats == chat_views(self.chats@),
                target@ == chat_id@,
                chat_views(kept@) == chats.take(i as int).filter(|c: ChatView| c.id != chat_id@),
            decreases self.chats@.len() - i,
        {
            proof {
                lemma_filter_step(chats, i as int, |c: ChatView| c.id != chat_id@);
            }
            if !(self.chats[i].id == target) {
                let c = self.chats[i].duplicate();
                proof {
                    assert(chat_views(kept@.push(c)) =~= chat_views(kept@).push(c@));
                }
                kept.push(c);
            }
            i += 1;
        }
        assert(chats.take(i as int) =~= chats);
        let ghost msgs = self@.messages;
        let mut kept_msgs: Vec<Message> = Vec::new();
        let mut k: usize = 0;
        while k < self.messages.len()
            invariant
                k <= self.messages@.len(),
                msgs == message_views(self.messages@),
                target@ == chat_id@,
                message_views(kept_msgs@) == msgs.take(k as int).filter(
                    |m: MessageView| m.chat_id != chat_id@,
                ),
            decreases self.messages@.len() - k,
        {
            proof {
                lemma_filter_step(msgs, k as int, |m: MessageView| m.chat_id != chat_id@);
            }
            if !(self.messages[k].chat_id == target) {
                let m = self.messages[k].duplicate();
                proof {
                    assert(message_views(kept_msgs@.push(m)) =~= message_views(kept_msgs@).push(
                        m@,
                    ));
                }
                kept_msgs.push(m);
            }
            k += 1;
        }
        assert(msgs.take(k as int) =~= msgs);
        proof {
            if distinct_chat_ids(chats) {
                lemma_filter_keeps_distinct(chats, |c: ChatView| c.id != chat_id@);
            }
        }
        self.chats = kept;
        self.messages = kept_msgs;
    }

    /// Sets the transport of the chat with id `chat_id`; an unknown chat is an
    /// error.
    pub fn set_chat_transport(&mut self, chat_id: &str, mode: TransportMode) -> (r: Result<(), CoreError>)
        ensures
            old(self).wf() ==> final(self).wf(),
            forall|i: int|
                first_chat(old(self)@.chats, chat_id@, i) ==> r is Ok && final(self)@ == (NodeView {
                    chats: old(self)@.chats.update(i, ChatView { transport: mode, ..old(self)@.chats[i] }),
                    ..old(self)@
                }),
            !has_chat(old(self)@.chats, chat_id@) ==> final(self)@ == old(self)@ && (r matches Err(
                CoreError::Internal(m),
            ) && m@ == "Chat not found"@),
    {
        match self.find_chat(chat_id) {
            Some(i) => {
                let mut c = self.chats[i].duplicate();
                c.transport = mode;
                proof {
                    assert(chat_views(self.chats@.update(i as int, c)) =~= chat_views(
                        self.chats@,
                    ).update(i as int, c@));
                }
                self.chats.set(i, c);
                Ok(())
            },
            None => Err(CoreError::Internal("Chat not found".to_owned())),
        }
    }

    /// At most `limit` messages of the chat `chat_id`, from position `offset`
    /// on, in order of arrival.
    pub fn get_messages(&self, chat_id: &str, limit: u32, offset: u32) -> (r: Vec<Message>)
        ensures
            message_views(r@) == page(
                chat_messages(self@.messages, chat_id@),
                limit as nat,
                offset as nat,
            ),
    {
        let target = chat_id.to_owned();
        let ghost msgs = self@.messages;
        let mut in_chat: Vec<Message> = Vec::new();
        let mut k: usize = 0;
        while k < self.messages.len()
            invariant
                k <= self.messages@.len(),
                msgs == message_views(self.messages@),
                target@ == chat_id@,
                message_views(in_chat@) == msgs.take(k as int).filter(
                    |m: MessageView| m.chat_id == chat_id@,
                ),
            decreases self.messages@.len() - k,
        {
            proof {
                lemma_filter_step(msgs, k as int, |m: MessageView| m.chat_id == chat_id@);
            }
            if self.messages[k].chat_id == target {
                let m = self.messages[k].duplicate();
                proof {
                    assert(message_views(in_chat@.push(m)) =~= message_views(in_chat@).push(m@));
                }
                in_chat.push(m);
            }
            k += 1;
        }
        assert(msgs.take(k as int) =~= msgs);
        let ghost all = message_views(in_chat@);
        let start = offset as usize;
        let mut out: Vec<Message> = Vec::new();
        if start >= in_chat.len() {
            assert(message_views(out@) =~= page(all, limit as nat, offset as nat));
            return out;
        }
        let end: usize = if (limit as usize) < in_chat.len() - start {
            start + limit as usize
        } else {
            in_chat.len()
        };
        let mut j: usize = start;
        while j < end
            invariant
                start <= j <= end,
                end <= in_chat@.len(),
                all == message_views(in_chat@),
                message_views(out@) == all.subrange(start as int, j as int),
            decreases end - j,
        {
            let m = in_chat[j].duplicate();
            proof {
                assert(message_views(out@.push(m)) =~= message_views(out@).push(m@));
                assert(m@ == all[j as int]);
                assert(message_views(out@.push(m)) =~= all.subrange(start as int, j + 1));
            }
            out.push(m);
            j += 1;
        }
        assert(message_views(out@) =~= page(all, limit as nat, offset as nat));
        out
    }

    /// The message that this node sends: refused when its text is white space
    /// only, or when the chat is unknown.
    pub fn new_outgoing_message(&self, chat_id: &str, text: String, message_id: String, now: u64) -> (r:
        Result<Message, CoreError>)
        ensures
            trimmed(text@).len() == 0 ==> (r matches Err(CoreError::Internal(m)) && m@
                == "Empty message"@),
            trimmed(text@).len() != 0 && !has_chat(self@.chats, chat_id@) ==> (r matches Err(
                CoreError::Internal(m),
            ) && m@ == "Chat not found"@),
            forall|i: int|
                trimmed(text@).len() != 0 && first_chat(self@.chats, chat_id@, i) ==> (r matches Ok(
                    m,
                ) && m@ == outgoing_view(
                    message_id@,
                    chat_id@,
                    self@.profile.id,
                    text@,
                    now,
                    self@.chats[i].transport,
                )),
    {
        if trim(text.as_str()).is_empty() {
            return Err(CoreError::Internal("Empty message".to_owned()));
        }
        match self.find_chat(chat_id) {
            None => Err(CoreError::Internal("Chat not found".to_owned())),
            Some(i) => {
                let m = Message {
                    id: message_id,
                    chat_id: chat_id.to_owned(),
                    sender_id: self.profile.id.clone(),
                    text,
                    timestamp: now,
                    status: MessageStatus::Sent,
                    attachments: Vec::new(),
                    transport: self.chats[i].transport,
                };
                assert(m@.attachments =~= seq![]);
                Ok(m)
            },
        }
    }

    /// Keeps a message that was sent, and makes it its chat's last message.
    pub fn record_sent(&mut self, msg: Message)
        ensures
            old(self).wf() ==> final(self).wf(),
            final(self)@.messages == old(self)@.messages.push(msg@),
            forall|i: int|
                first_chat(old(self)@.chats, msg@.chat_id, i) ==> final(self)@.chats == old(
                    self,
                )@.chats.update(i, with_last_message(old(self)@.chats[i], msg@)),
            !has_chat(old(self)@.chats, msg@.chat_id) ==> final(self)@.chats == old(self)@.chats,
            final(self)@.profile == old(self)@.profile,
            final(self)@.contacts == old(self)@.contacts,
    {
        match self.find_chat(msg.chat_id.as_str()) {
            Some(i) => {
                let mut c = self.chats[i].duplicate();
                c.last_message = Some(
                    ChatLastMessage {
                        text: msg.text.clone(),
                        timestamp: msg.timestamp,
                        sender_id: msg.sender_id.clone(),
                    },
                );
                proof {
                    assert(chat_views(self.chats@.update(i as int, c)) =~= chat_views(
                        self.chats@,
                    ).update(i as int, c@));
                }
                self.chats.set(i, c);
            },
            None => {},
        }
        proof {
            assert(message_views(self.messages@.push(msg)) =~= message_views(self.messages@).push(
                msg@,
            ));
        }
        self.messages.push(msg);
    }

    /// Keeps a received message unless its chat already has a message with
    /// its id; says whether it was new.
    pub fn receive_message(&mut self, msg: Message) -> (r: bool)
        ensures
            old(self).wf() ==> final(self).wf(),
            r == !has_message(old(self)@.messages, msg@),
            r ==> final(self)@ == (NodeView {
                messages: old(self)@.messages.push(msg@),
                ..old(self)@
            }),
            !r ==> final(self)@ == old(self)@,
    {
        let mut k: usize = 0;
        while k < self.messages.len()
            invariant
                k <= self.messages@.len(),
                forall|j: int|
                    0 <= j < k ==> !(self@.messages[j].chat_id == msg@.chat_id
                        && self@.messages[j].id == msg@.id),
            decreases self.messages@.len() - k,
        {
            if self.messages[k].chat_id == msg.chat_id && self.messages[k].id == msg.id {
                assert(self@.messages[k as int] == self.messages@[k as int]@);
                return false;
            }
            k += 1;
        }
        proof {
            assert(message_views(self.messages@.push(msg)) =~= message_views(self.messages@).push(
                msg@,
            ));
        }
        self.messages.push(msg);
        true
    }

    /// Marks read the messages of chat `chat_id` whose ids are in
    /// `message_ids`.
    pub fn mark_as_read(&mut self, chat_id: &str, message_ids: &[String])
        ensures
            old(self).wf() ==> final(self).wf(),
            final(self)@.messages == old(self)@.messages.map_values(
                |m: MessageView| read_marked(m, chat_id@, texts_view(message_ids@)),
            ),
            final(self)@.profile == old(self)@.profile,
            final(self)@.chats == old(self)@.chats,
            final(self)@.contacts == old(self)@.contacts,
    {
        let ghost before = self@.messages;
        let ghost ids = texts_view(message_ids@);
        let target = chat_id.to_owned();
        let mut k: usize = 0;
        while k < self.messages.len()
            invariant
                k <= self.messages@.len(),
                before.len() == self.messages@.len(),
                target@ == chat_id@,
                ids == texts_view(message_ids@),
                forall|j: int|
                    0 <= j < k ==> self@.messages[j] == read_marked(before[j], chat_id@, ids),
                forall|j: int| k <= j < before.len() ==> self@.messages[j] == before[j],
                self@.profile == old(self)@.profile,
                self@.chats == old(self)@.chats,
                self@.contacts == old(self)@.contacts,
            decreases self.messages@.len() - k,
        {
            assert(self@.messages[k as int] == self.messages@[k as int]@);
            if self.messages[k].chat_id == target && texts_contain(
                message_ids,
                self.messages[k].id.as_str(),
            ) {
                let mut m = self.messages[k].duplicate();
                m.status = MessageStatus::Read;
                proof {
                    assert(message_views(self.messages@.update(k as int, m)) =~= message_views(
                        self.messages@,
                    ).update(k as int, m@));
                }
                self.messages.set(k, m);
            }
            assert(self@.messages[k as int] == read_marked(before[k as int], chat_id@, ids));
            k += 1;
        }
        assert(self@.messages =~= before.map_values(
            |m: MessageView| read_marked(m, chat_id@, ids),
        ));
    }

    /// Stores a contact known by key and name, in place of one with that key.
    pub fn add_contact(&mut self, pubkey: String, name: String)
        ensures
            old(self).wf() ==> final(self).wf(),
            !has_contact(old(self)@.contacts, pubkey@) ==> final(self)@.contacts == old(
                self,
            )@.contacts.push(contact_view(pubkey@, name@, None, UserStatus::Offline, None)),
            forall|i: int|
                first_contact(old(self)@.contacts, pubkey@, i) ==> final(self)@.contacts == old(
                    self,
                )@.contacts.update(i, contact_view(pubkey@, name@, None, UserStatus::Offline, None)),
            final(self)@.profile == old(self)@.profile,
            final(self)@.chats == old(self)@.chats,
            final(self)@.messages == old(self)@.messages,
    {
        self.put_contact(
            Contact {
                id: pubkey,
                name,
                avatar_url: None,
                status: UserStatus::Offline,
                phone_number: None,
            },
        );
    }

    /// Stores a contact with a phone number for the SMS fallback, in place of
    /// one with that key.
    pub fn add_contact_with_phone(&mut self, pubkey: String, name: String, phone: String)
        ensures
            old(self).wf() ==> final(self).wf(),
            !has_contact(old(self)@.contacts, pubkey@) ==> final(self)@.contacts == old(
                self,
            )@.contacts.push(contact_view(pubkey@, name@, None, UserStatus::Offline, Some(phone@))),
            forall|i: int|
                first_contact(old(self)@.contacts, pubkey@, i) ==> final(self)@.contacts == old(
                    self,
                )@.contacts.update(
                    i,
                    contact_view(pubkey@, name@, None, UserStatus::Offline, Some(phone@)),
                ),
            final(self)@.profile == old(self)@.profile,
            final(self)@.chats == old(self)@.chats,
            final(self)@.messages == old(self)@.messages,
    {
        self.put_contact(
            Contact {
                id: pubkey,
                name,
                avatar_url: None,
                status: UserStatus::Offline,
                phone_number: Some(phone),
            },
        );
    }

    /// The contacts whose name or id holds `query`, case aside, in order.
    pub fn search_users(&self, query: &str) -> (r: Vec<Contact>)
        ensures
            contact_views(r@) == self@.contacts.filter(|c: ContactView| matches_query(c, query@)),
    {
        let q = lowercase(query);
        let ghost cs = self@.contacts;
        let mut out: Vec<Contact> = Vec::new();
        let mut i: usize = 0;
        while i < self.contacts.len()
            invariant
                i <= self.contacts@.len(),
                cs == contact_views(self.contacts@),
                q@ == lowercase_of(query@),
                contact_views(out@) == cs.take(i as int).filter(
                    |c: ContactView| matches_query(c, query@),
                ),
            decreases self.contacts@.len() - i,
        {
            proof {
                lemma_filter_step(cs, i as int, |c: ContactView| matches_query(c, query@));
            }
            let c = &self.contacts[i];
            let name = lowercase(c.name.as_str());
            let id = lowercase(c.id.as_str());
            if contains_text(name.as_str(), q.as_str()) || contains_text(id.as_str(), q.as_str()) {
                let d = c.duplicate();
                proof {
                    assert(contact_views(out@.push(d)) =~= contact_views(out@).push(d@));
                }
                out.push(d);
            }
            i += 1;
        }
        assert(cs.take(i as int) =~= cs);
        out
    }
}

} // verus!
