use vstd::prelude::*;

verus! {

/// An action directed at a running process, as extracted from a signed bundle.
#[derive(Debug, Clone, PartialEq, Eq)]
pub struct Message {
    pub id: String,
    pub process_id: String,
    pub sequence_key: String,
    pub payload: Vec<u8>,
    pub signature: String,
    pub bundle_reference: String,
}

/// The definition of a new process, as extracted from a signed bundle.
#[derive(Debug, Clone, PartialEq, Eq)]
pub struct Process {
    pub id: String,
    pub owner_identity: String,
    pub creation_bundle_reference: String,
    pub initial_payload: Vec<u8>,
}

/// The structured form of a signed bundle, from which a message or a process
/// is extracted. A bundle addressed to a process (`target`) carries a message;
/// one without a target defines a new process.
pub struct Bundle {
    pub id: String,
    pub owner: String,
    pub target: Option<String>,
    pub sequence_key: String,
    pub data: Vec<u8>,
    pub signature: String,
    pub reference: String,
}

pub struct MessageView {
    pub id: Seq<char>,
    pub process_id: Seq<char>,
    pub sequence_key: Seq<char>,
    pub payload: Seq<u8>,
    pub signature: Seq<char>,
    pub bundle_reference: Seq<char>,
}

pub struct ProcessView {
    pub id: Seq<char>,
    pub owner_identity: Seq<char>,
    pub creation_bundle_reference: Seq<char>,
    pub initial_payload: Seq<u8>,
}

impl View for Message {
    type V = MessageView;

    open spec fn view(&self) -> MessageView {
        MessageView {
            id: self.id@,
            process_id: self.process_id@,
            sequence_key: self.sequence_key@,
            payload: self.payload@,
            signature: self.signature@,
            bundle_reference: self.bundle_reference@,
        }
    }
}

impl View for Process {
    type V = ProcessView;

    open spec fn view(&self) -> ProcessView {
        ProcessView {
            id: self.id@,
            owner_identity: self.owner_identity@,
            creation_bundle_reference: self.creation_bundle_reference@,
            initial_payload: self.initial_payload@,
        }
    }
}

/// The views of a sequence of messages.
pub open spec fn views(s: Seq<Message>) -> Seq<MessageView> {
    s.map_values(|m: Message| m@)
}

/// Why a bundle could not be read as the entity asked for.
#[derive(Debug, Clone, Copy, PartialEq, Eq, Structural)]
pub enum InputError {
    /// A message bundle names no target process.
    MissingTarget,
    /// A process bundle names a target process.
    UnexpectedTarget,
}

/// The message a bundle with a target carries.
pub open spec fn message_of_bundle(b: Bundle) -> MessageView {
    MessageView {
        id: b.id@,
        process_id: b.target->0@,
        sequence_key: b.sequence_key@,
        payload: b.data@,
        signature: b.signature@,
        bundle_reference: b.reference@,
    }
}

/// The process a bundle without a target defines.
pub open spec fn process_of_bundle(b: Bundle) -> ProcessView {
    ProcessView {
        id: b.id@,
        owner_identity: b.owner@,
        creation_bundle_reference: b.reference@,
        initial_payload: b.data@,
    }
}

fn copy_bytes(v: &Vec<u8>) -> (r: Vec<u8>)
    ensures
        r@ == v@,
{
    let r = v.clone();
    proof {
        assert(r@ =~= v@);
    }
    r
}

impl Message {
    /// A copy with the same fields.
    pub fn duplicate(&self) -> (r: Message)
        ensures
            r@ == self@,
    {
        Message {
            id: self.id.clone(),
            process_id: self.process_id.clone(),
            sequence_key: self.sequence_key.clone(),
            payload: copy_bytes(&self.payload),
            signature: self.signature.clone(),
            bundle_reference: self.bundle_reference.clone(),
        }
    }

    /// Extracts the message a bundle carries; fails on a bundle without a
    /// target process.
    pub fn from_bundle(bundle: &Bundle) -> (r: Result<Message, InputError>)
        ensures
            bundle.target is None ==> r == Err::<Message, InputError>(InputError::MissingTarget),
            bundle.target is Some ==> r is Ok && r->Ok_0@ == message_of_bundle(*bundle),
    {
        match &bundle.target {
            None => Err(InputError::MissingTarget),
            Some(target) => Ok(
                Message {
                    id: bundle.id.clone(),
                    process_id: target.clone(),
                    sequence_key: bundle.sequence_key.clone(),
                    payload: copy_bytes(&bundle.data),
                    signature: bundle.signature.clone(),
                    bundle_reference: bundle.reference.clone(),
                },
            ),
        }
    }
}

impl Process {
    /// A copy with the same fields.
    pub fn duplicate(&self) -> (r: Process)
        ensures
            r@ == self@,
    {
        Process {
            id: self.id.clone(),
            owner_identity: self.owner_identity.clone(),
            creation_bundle_reference: self.creation_bundle_reference.clone(),
            initial_payload: copy_bytes(&self.initial_payload),
        }
    }

    /// Extracts the process a bundle defines; fails on a bundle that names a
    /// target process.
    pub fn from_bundle(bundle: &Bundle) -> (r: Result<Process, InputError>)
        ensures
            bundle.target is Some ==> r == Err::<Process, InputError>(InputError::UnexpectedTarget),
            bundle.target is None ==> r is Ok && r->Ok_0@ == process_of_bundle(*bundle),
    {
        match &bundle.target {
            Some(_) => Err(InputError::UnexpectedTarget),
            None => Ok(
                Process {
                    id: bundle.id.clone(),
                    owner_identity: bundle.owner.clone(),
                    creation_bundle_reference: bundle.reference.clone(),
                    initial_payload: copy_bytes(&bundle.data),
                },
            ),
        }
    }
}

} // verus!
