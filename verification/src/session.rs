//! Flash messages carried across one redirect: a session-scoped queue that
//! forms push into and the next page view drains, kept under one key of the
//! request session.

use vstd::prelude::*;

verus! {

/// How a message is shown to the operator.
#[derive(Clone, Copy, Debug, PartialEq, Eq, Structural)]
pub enum Level {
    Info,
    Error,
}

/// One flash message.
#[derive(Debug)]
pub struct Message {
    pub level: Level,
    pub text: String,
}

/// Mathematical image of a flash message.
pub ghost struct MessageModel {
    pub level: Level,
    pub text: Seq<char>,
}

impl View for Message {
    type V = MessageModel;

    open spec fn view(&self) -> MessageModel {
        MessageModel { level: self.level, text: self.text@ }
    }
}

/// The models of a sequence of messages.
pub open spec fn messages_view(v: Seq<Message>) -> Seq<MessageModel> {
    v.map_values(|m: Message| m@)
}

/// The state a request session keeps for this application: the pending
/// flash messages, absent until something is committed.
pub struct SessionStore {
    pub app: Option<Inner>,
}

/// The application's slice of the session: the queued flash messages.
#[derive(Debug)]
pub struct Inner {
    pub messages: Vec<Message>,
}

/// Copies a message list, value for value.
fn clone_messages(v: &Vec<Message>) -> (r: Vec<Message>)
    ensures
        messages_view(r@) == messages_view(v@),
{
    let mut out: Vec<Message> = Vec::new();
    let mut i: usize = 0;
    while i < v.len()
        invariant
            0 <= i <= v@.len(),
            out@.len() == i,
            forall|j: int| 0 <= j < i ==> out@[j]@ == v@[j]@,
        decreases v@.len() - i,
    {
        let text = v[i].text.clone();
        let level = v[i].level;
        out.push(Message { level, text });
        i = i + 1;
    }
    proof {
        assert(messages_view(out@) =~= messages_view(v@));
    }
    out
}

impl Inner {
    /// Queues one message for the next page view.
    pub fn add_message(&mut self, message: Message)
        ensures
            messages_view(final(self).messages@) == messages_view(old(self).messages@).push(
                message@,
            ),
    {
        self.messages.push(message);
        proof {
            assert(messages_view(self.messages@) =~= messages_view(old(self).messages@).push(
                message@,
            ));
        }
    }

    /// Hands out every queued message and leaves the queue empty.
    pub fn pop_messages(&mut self) -> (r: Vec<Message>)
        ensures
            r@ == old(self).messages@,
            final(self).messages@ == Seq::<Message>::empty(),
    {
        let mut messages: Vec<Message> = Vec::new();
        core::mem::swap(&mut messages, &mut self.messages);
        messages
    }

    /// Writes this state back into the session store, under the
    /// application's key.
    pub fn commit(&self, store: &mut SessionStore)
        ensures
            match final(store).app {
                Some(inner) => messages_view(inner.messages@) == messages_view(self.messages@),
                None => false,
            },
    {
        store.app = Some(Inner { messages: clone_messages(&self.messages) });
    }

    /// The state kept in the session store, or an empty one when the store
    /// holds none.
    pub fn from_store(store: &SessionStore) -> (r: Inner)
        ensures
            match store.app {
                Some(inner) => messages_view(r.messages@) == messages_view(inner.messages@),
                None => r.messages@ == Seq::<Message>::empty(),
            },
    {
        match &store.app {
            Some(inner) => Inner { messages: clone_messages(&inner.messages) },
            None => Inner { messages: Vec::new() },
        }
    }
}

/// A view of the session scoped to one request: messages queued here are
/// committed back to the request's store when the request ends.
pub struct AppSession {
    pub session: Inner,
}

impl AppSession {
    /// Opens the session state kept in the request's store.
    pub fn from_store(store: &SessionStore) -> (r: AppSession)
        ensures
            match store.app {
                Some(inner) => messages_view(r.session.messages@) == messages_view(
                    inner.messages@,
                ),
                None => r.session.messages@ == Seq::<Message>::empty(),
            },
    {
        AppSession { session: Inner::from_store(store) }
    }

    /// Queues one message for the next page view.
    pub fn add_message(&mut self, message: Message)
        ensures
            messages_view(final(self).session.messages@) == messages_view(
                old(self).session.messages@,
            ).push(message@),
    {
        self.session.add_message(message);
    }

    /// Hands out every queued message and leaves the queue empty.
    pub fn pop_messages(&mut self) -> (r: Vec<Message>)
        ensures
            r@ == old(self).session.messages@,
            final(self).session.messages@ == Seq::<Message>::empty(),
    {
        self.session.pop_messages()
    }

    /// Writes the queued messages back into the request's store, as
    /// dropping the request-scoped view does.
    pub fn commit(&self, store: &mut SessionStore)
        ensures
            match final(store).app {
                Some(inner) => messages_view(inner.messages@) == messages_view(
                    self.session.messages@,
                ),
                None => false,
            },
    {
        self.session.commit(store);
    }
}

} // verus!
