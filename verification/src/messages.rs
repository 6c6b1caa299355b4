use vstd::prelude::*;

verus! {

/// The kind of a message shown at the top of the page.
#[derive(Clone, Copy, PartialEq, Eq, Structural, Debug)]
pub enum MessageKind {
    Error,
    Info,
}

/// A message shown at the top of the page until it is removed.
pub struct Message {
    pub id: u32,
    pub info: MessageKind,
    pub message: String,
}

/// A message as plain values: its id, its kind and its text.
pub type MessageView = (u32, MessageKind, Seq<char>);

/// The plain values of a message.
pub open spec fn message_view(m: Message) -> MessageView {
    (m.id, m.info, m.message@)
}

/// The messages of a list without those whose id is `id`, in order.
pub open spec fn without_id(s: Seq<MessageView>, id: u32) -> Seq<MessageView>
    decreases s.len(),
{
    if s.len() == 0 {
        s
    } else {
        let rest = without_id(s.drop_last(), id);
        if s.last().0 == id {
            rest
        } else {
            rest.push(s.last())
        }
    }
}

/// The messages on screen, oldest first, and the counter that numbers them.
pub struct Messages {
    next_id: u32,
    list: Vec<Message>,
}

impl Messages {
    /// The id the next message will get.
    pub closed spec fn next_id(&self) -> u32 {
        self.next_id
    }

    /// The messages on screen as plain values, oldest first.
    pub closed spec fn shown(&self) -> Seq<MessageView> {
        self.list@.map_values(|m: Message| message_view(m))
    }

    /// The ids on screen increase from the oldest message to the newest, and
    /// every one was handed out before the next one. Every value of the type
    /// keeps this.
    #[verifier::type_invariant]
    pub closed spec fn wf(self) -> bool {
        &&& forall|i: int, j: int| 0 <= i < j < self.shown().len() ==> self.shown()[i].0 < self.shown()[j].0
        &&& forall|i: int| 0 <= i < self.shown().len() ==> #[trigger] self.shown()[i].0 < self.next_id()
    }

    /// No message on screen; the first one gets id 1.
    pub fn new() -> (res: Messages)
        ensures
            res.next_id() == 1,
            res.shown() == Seq::<MessageView>::empty(),
    {
        let res = Messages { next_id: 1, list: Vec::new() };
        assert(res.shown() =~= Seq::<MessageView>::empty());
        res
    }

    /// Whether another message can get an id: the counter has not reached
    /// its last value.
    pub fn can_add(&self) -> (res: bool)
        ensures
            res == (self.next_id() < u32::MAX),
    {
        self.next_id < u32::MAX
    }

    /// The messages on screen, oldest first.
    pub fn list(&self) -> (res: &Vec<Message>)
        ensures
            res@.map_values(|m: Message| message_view(m)) == self.shown(),
    {
        &self.list
    }

    /// Puts a message on screen under the next id and returns that id.
    pub fn message_add(&mut self, info: MessageKind, message: String) -> (id: u32)
        requires
            old(self).next_id() < u32::MAX,
        ensures
            id == old(self).next_id(),
            final(self).next_id() == old(self).next_id() + 1,
            final(self).shown() == old(self).shown().push((id, info, message@)),
    {
        proof {
            use_type_invariant(&*self);
        }
        let id = self.next_id;
        let ghost before = self.shown();
        assert(before == old(self).shown());
        let mut list: Vec<Message> = Vec::new();
        std::mem::swap(&mut list, &mut self.list);
        assert(list@.map_values(|m: Message| message_view(m)) == before);
        list.push(Message { id, info, message });
        let ghost after = list@.map_values(|m: Message| message_view(m));
        assert(after =~= before.push((id, info, list@.last().message@)));
        assert forall|i: int, j: int| 0 <= i < j < after.len() implies after[i].0 < after[j].0 by {
            assert(after[i] == before[i]);
            assert(before[i].0 < old(self).next_id());
            if j < before.len() {
                assert(after[j] == before[j]);
                assert(before[i].0 < before[j].0);
            }
        }
        assert forall|i: int| 0 <= i < after.len() implies #[trigger] after[i].0 < id + 1 by {
            if i < before.len() {
                assert(after[i] == before[i]);
                assert(before[i].0 < old(self).next_id());
            }
        }
        self.next_id = id + 1;
        self.list = list;
        id
    }

    /// Puts an error message on screen. When a timeout is given, returns the
    /// id of the message with it: the message is to be removed once that
    /// many milliseconds have passed.
    pub fn show_message_error(&mut self, message: String, timeout: Option<u32>) -> (res: Option<(u32, u32)>)
        requires
            old(self).next_id() < u32::MAX,
        ensures
            final(self).next_id() == old(self).next_id() + 1,
            final(self).shown() == old(self).shown().push((old(self).next_id(), MessageKind::Error, message@)),
            res == (match timeout {
                Some(t) => Some((old(self).next_id(), t)),
                None => None,
            }),
    {
        let id = self.message_add(MessageKind::Error, message);
        match timeout {
            Some(t) => Some((id, t)),
            None => None,
        }
    }

    /// Puts an information message on screen. When a timeout is given,
    /// returns the id of the message with it: the message is to be removed
    /// once that many milliseconds have passed.
    pub fn show_message_info(&mut self, message: String, timeout: Option<u32>) -> (res: Option<(u32, u32)>)
        requires
            old(self).next_id() < u32::MAX,
        ensures
            final(self).next_id() == old(self).next_id() + 1,
            final(self).shown() == old(self).shown().push((old(self).next_id(), MessageKind::Info, message@)),
            res == (match timeout {
                Some(t) => Some((old(self).next_id(), t)),
                None => None,
            }),
    {
        let id = self.message_add(MessageKind::Info, message);
        match timeout {
            Some(t) => Some((id, t)),
            None => None,
        }
    }

    /// Takes the message with id `message_id` off the screen; the others
    /// stay, in order.
    pub fn remove_message(&mut self, message_id: u32)
        ensures
            final(self).next_id() == old(self).next_id(),
            final(self).shown() == without_id(old(self).shown(), message_id),
    {
        proof {
            use_type_invariant(&*self);
        }
        let ghost before = self.shown();
        let mut kept: Vec<Message> = Vec::new();
        let mut i: usize = 0;
        while i < self.list.len()
            invariant
                i <= self.list.len(),
                before == self.shown(),
                self.wf(),
                kept@.map_values(|m: Message| message_view(m)) == without_id(before.take(i as int), message_id),
                forall|a: int, b: int| 0 <= a < b < kept@.len() ==> kept@[a].id < kept@[b].id,
                forall|a: int| 0 <= a < kept@.len() ==> #[trigger] kept@[a].id < self.next_id,
                forall|a: int| 0 <= a < kept@.len() && i < self.list.len() ==> #[trigger] kept@[a].id < self.list@[i as int].id,
            decreases self.list.len() - i,
        {
            let ghost acc = kept@.map_values(|m: Message| message_view(m));
            assert(before.take(i + 1).drop_last() =~= before.take(i as int));
            assert(before.take(i + 1).last() == message_view(self.list@[i as int]));
            assert(before[i as int] == message_view(self.list@[i as int]));
            if self.list[i].id != message_id {
                let m = &self.list[i];
                kept.push(Message { id: m.id, info: m.info, message: m.message.clone() });
                assert(kept@.map_values(|m: Message| message_view(m)) =~= acc.push(before[i as int]));
            }
            proof {
                if i + 1 < self.list.len() {
                    assert(before[i as int].0 < before[i + 1].0);
                    assert forall|a: int| 0 <= a < kept@.len() implies #[trigger] kept@[a].id < self.list@[i + 1].id by {
                        if a < acc.len() {
                            assert(kept@[a].id < self.list@[i as int].id);
                        }
                    }
                }
            }
            i = i + 1;
        }
        assert(before.take(before.len() as int) =~= before);
        self.list = kept;
    }
}

/// Taking off the screen a message that was just put on it gives back the
/// messages as they were.
pub proof fn law_removing_a_new_message_restores(m: Messages, info: MessageKind, text: Seq<char>)
    requires
        m.wf(),
    ensures
        without_id(m.shown().push((m.next_id(), info, text)), m.next_id()) == m.shown(),
{
    let s = m.shown();
    assert(s.push((m.next_id(), info, text)).drop_last() =~= s);
    lemma_without_absent_id(s, m.next_id());
}

/// Removing an id that no message has changes nothing.
proof fn lemma_without_absent_id(s: Seq<MessageView>, id: u32)
    requires
        forall|k: int| 0 <= k < s.len() ==> #[trigger] s[k].0 != id,
    ensures
        without_id(s, id) == s,
    decreases s.len(),
{
    if s.len() > 0 {
        lemma_without_absent_id(s.drop_last(), id);
        assert(s[s.len() - 1].0 != id);
        assert(s.drop_last().push(s.last()) =~= s);
    }
}

/// The messages on screen all have different ids, and a message just put on
/// screen has an id that no other message has.
pub proof fn law_message_ids_are_unique(m: Messages)
    requires
        m.wf(),
    ensures
        forall|i: int, j: int| 0 <= i < m.shown().len() && 0 <= j < m.shown().len() && i != j
            ==> m.shown()[i].0 != m.shown()[j].0,
        forall|i: int| 0 <= i < m.shown().len() ==> #[trigger] m.shown()[i].0 != m.next_id(),
{
    assert forall|i: int, j: int| 0 <= i < m.shown().len() && 0 <= j < m.shown().len() && i != j
        implies m.shown()[i].0 != m.shown()[j].0 by {
        if i < j {
            assert(m.shown()[i].0 < m.shown()[j].0);
        } else {
            assert(m.shown()[j].0 < m.shown()[i].0);
        }
    }
}

} // verus!
