use vstd::prelude::*;
use crate::message::{Message, MessageView, Process, ProcessView, views};

verus! {

/// Why a store operation was refused.
#[derive(Debug, Clone, Copy, PartialEq, Eq, Structural)]
pub enum StoreError {
    /// An entity with this id is already stored.
    Duplicate,
    /// No entity with this id is stored.
    NotFound,
}

/// The stored message with id `id`, if any.
pub open spec fn find_message(s: Seq<MessageView>, id: Seq<char>) -> Option<MessageView>
    decreases s.len(),
{
    if s.len() == 0 {
        None
    } else if s.last().id == id {
        Some(s.last())
    } else {
        find_message(s.drop_last(), id)
    }
}

/// The stored process with id `id`, if any.
pub open spec fn find_process(s: Seq<ProcessView>, id: Seq<char>) -> Option<ProcessView>
    decreases s.len(),
{
    if s.len() == 0 {
        None
    } else if s.last().id == id {
        Some(s.last())
    } else {
        find_process(s.drop_last(), id)
    }
}

/// The stored messages of process `pid`, in the order they were saved.
pub open spec fn messages_of(s: Seq<MessageView>, pid: Seq<char>) -> Seq<MessageView> {
    s.filter(|m: MessageView| m.process_id == pid)
}

/// Append-only local store of messages and processes, keyed by id.
pub struct StoreClient {
    messages: Vec<Message>,
    processes: Vec<Process>,
}

impl StoreClient {
    /// The saved messages, oldest first.
    pub closed spec fn stored_messages(&self) -> Seq<MessageView> {
        views(self.messages@)
    }

    /// The saved processes, oldest first.
    pub closed spec fn stored_processes(&self) -> Seq<ProcessView> {
        self.processes@.map_values(|p: Process| p@)
    }

    pub fn new() -> (r: StoreClient)
        ensures
            r.stored_messages() == Seq::<MessageView>::empty(),
            r.stored_processes() == Seq::<ProcessView>::empty(),
    {
        let r = StoreClient { messages: Vec::new(), processes: Vec::new() };
        proof {
            assert(r.stored_messages() =~= Seq::<MessageView>::empty());
            assert(r.stored_processes() =~= Seq::<ProcessView>::empty());
        }
        r
    }

    fn message_index(&self, id: &String) -> (r: Option<usize>)
        ensures
            match r {
                None => find_message(self.stored_messages(), id@) is None,
                Some(i) => i < self.messages@.len() && find_message(self.stored_messages(), id@)
                    == Some(self.messages@[i as int]@),
            },
    {
        let mut i: usize = self.messages.len();
        proof {
            assert(self.stored_messages().take(i as int) =~= self.stored_messages());
        }
        while i > 0
            invariant
                i <= self.messages@.len(),
                find_message(self.stored_messages(), id@) == find_message(
                    self.stored_messages().take(i as int),
                    id@,
                ),
            decreases i,
        {
            let ghost t = self.stored_messages().take(i as int);
            proof {
                assert(t.drop_last() =~= self.stored_messages().take(i - 1));
            }
            if self.messages[i - 1].id == *id {
                return Some(i - 1);
            }
            i = i - 1;
        }
        None
    }

    fn process_index(&self, id: &String) -> (r: Option<usize>)
        ensures
            match r {
                None => find_process(self.stored_processes(), id@) is None,
                Some(i) => i < self.processes@.len() && find_process(self.stored_processes(), id@)
                    == Some(self.processes@[i as int]@),
            },
    {
        let mut i: usize = self.processes.len();
        proof {
            assert(self.stored_processes().take(i as int) =~= self.stored_processes());
        }
        while i > 0
            invariant
                i <= self.processes@.len(),
                find_process(self.stored_processes(), id@) == find_process(
                    self.stored_processes().take(i as int),
                    id@,
                ),
            decreases i,
        {
            let ghost t = self.stored_processes().take(i as int);
            proof {
                assert(t.drop_last() =~= self.stored_processes().take(i - 1));
            }
            if self.processes[i - 1].id == *id {
                return Some(i - 1);
            }
            i = i - 1;
        }
        None
    }

    /// Saves a message under its id, unless one with that id is already
    /// stored: then nothing changes.
    pub fn save_message(&mut self, message: Message) -> (r: Result<(), StoreError>)
        ensures
            find_message(old(self).stored_messages(), message@.id) is Some ==> r == Err::<
                (),
                StoreError,
            >(StoreError::Duplicate) && final(self).stored_messages() == old(self).stored_messages(),
            find_message(old(self).stored_messages(), message@.id) is None ==> r is Ok
                && final(self).stored_messages() == old(self).stored_messages().push(message@),
            final(self).stored_processes() == old(self).stored_processes(),
    {
        match self.message_index(&message.id) {
            Some(_) => Err(StoreError::Duplicate),
            None => {
                self.messages.push(message);
                proof {
                    assert(self.stored_messages() =~= old(self).stored_messages().push(message@));
                }
                Ok(())
            },
        }
    }

    /// Saves a process under its id, unless one with that id is already
    /// stored: then nothing changes.
    pub fn save_process(&mut self, process: Process) -> (r: Result<(), StoreError>)
        ensures
            find_process(old(self).stored_processes(), process@.id) is Some ==> r == Err::<
                (),
                StoreError,
            >(StoreError::Duplicate) && final(self).stored_processes()
                == old(self).stored_processes(),
            find_process(old(self).stored_processes(), process@.id) is None ==> r is Ok
                && final(self).stored_processes() == old(self).stored_processes().push(process@),
            final(self).stored_messages() == old(self).stored_messages(),
    {
        match self.process_index(&process.id) {
            Some(_) => Err(StoreError::Duplicate),
            None => {
                self.processes.push(process);
                proof {
                    assert(self.stored_processes() =~= old(self).stored_processes().push(
                        process@,
                    ));
                }
                Ok(())
            },
        }
    }

    /// The stored message with this id.
    pub fn get_message(&self, id: &String) -> (r: Result<Message, StoreError>)
        ensures
            match find_message(self.stored_messages(), id@) {
                None => r == Err::<Message, StoreError>(StoreError::NotFound),
                Some(m) => r is Ok && r->Ok_0@ == m,
            },
    {
        match self.message_index(id) {
            None => Err(StoreError::NotFound),
            Some(i) => Ok(self.messages[i].duplicate()),
        }
    }

    /// The stored process with this id.
    pub fn get_process(&self, id: &String) -> (r: Result<Process, StoreError>)
        ensures
            match find_process(self.stored_processes(), id@) {
                None => r == Err::<Process, StoreError>(StoreError::NotFound),
                Some(p) => r is Ok && r->Ok_0@ == p,
            },
    {
        match self.process_index(id) {
            None => Err(StoreError::NotFound),
            Some(i) => Ok(self.processes[i].duplicate()),
        }
    }

    /// The stored messages of one process, in the order they were saved.
    pub fn get_messages(&self, process_id: &String) -> (r: Vec<Message>)
        ensures
            views(r@) == messages_of(self.stored_messages(), process_id@),
    {
        let ghost pred = |m: MessageView| m.process_id == process_id@;
        let mut out: Vec<Message> = Vec::new();
        let mut i: usize = 0;
        while i < self.messages.len()
            invariant
                i <= self.messages@.len(),
                pred == (|m: MessageView| m.process_id == process_id@),
                views(out@) == self.stored_messages().take(i as int).filter(
                    pred,
                ),
            decreases self.messages@.len() - i,
        {
            let ghost before = out@;
            proof {
                let s = self.stored_messages();
                assert(s.take(i + 1) =~= s.take(i as int).push(s[i as int]));
                s.take(i as int).lemma_filter_push(s[i as int], pred);
            }
            if self.messages[i].process_id == *process_id {
                out.push(self.messages[i].duplicate());
                proof {
                    assert(views(out@) =~= views(before).push(
                        self.stored_messages()[i as int],
                    ));
                }
            }
            i = i + 1;
        }
        proof {
            assert(self.stored_messages().take(i as int) =~= self.stored_messages());
        }
        out
    }
}

} // verus!
