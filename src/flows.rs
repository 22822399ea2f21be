use vstd::prelude::*;
use vstd::string::*;
use crate::message::{
    Bundle, InputError, Message, Process, message_of_bundle, process_of_bundle, views,
};
use crate::sorted::{RangeError, SortedMessages, opt_view, ordered_slice, range_inverted};
use crate::store::{StoreClient, StoreError, find_message, find_process, messages_of};
use crate::message::{MessageView, ProcessView};

verus! {

/// Shared context of the pipeline: the local store, and the diagnostic lines
/// logged so far.
pub struct Deps {
    pub data_store: StoreClient,
    pub logger: Vec<String>,
}

/// Why an entity whose bundle is already on the ledger was not indexed
/// locally.
#[derive(Debug, Clone, Copy, PartialEq, Eq, Structural)]
pub enum LocalFailure {
    Input(InputError),
    Store(StoreError),
}

/// What went wrong in a pipeline step, by kind.
#[derive(Debug)]
pub enum FlowError {
    /// The bounds of a range query are inverted.
    Range(RangeError),
    /// A lookup or write of the local store was refused.
    Store(StoreError),
    /// A result could not be rendered as text.
    Serialization,
    /// The bundle is on the ledger (its receipt is kept) but is not stored
    /// locally.
    PartialFailure { receipt: String, cause: LocalFailure },
}

/// `e` reports a ledger write with this receipt that was not indexed locally
/// for this cause.
pub open spec fn is_partial_failure(e: FlowError, receipt: Seq<char>, cause: LocalFailure) -> bool {
    match e {
        FlowError::PartialFailure { receipt: r, cause: c } => r@ == receipt && c == cause,
        _ => false,
    }
}

/// The line logged for a saved entity.
pub open spec fn saved_line(kind: Seq<char>, id: Seq<char>) -> Seq<char> {
    kind + " - "@ + id
}

fn log_saved(logger: &mut Vec<String>, kind: &str, id: &String)
    ensures
        final(logger)@.len() == old(logger)@.len() + 1,
        final(logger)@.drop_last() == old(logger)@,
        final(logger)@.last()@ == saved_line(kind@, id@),
{
    let mut line = String::from_str(kind);
    line.append(" - ");
    line.append(id.as_str());
    proof {
        reveal_strlit(" - ");
    }
    logger.push(line);
    proof {
        assert(final(logger)@.drop_last() =~= old(logger)@);
    }
}

/// Indexes locally the message that a bundle already uploaded with
/// `receipt` carries, and hands the receipt back. A bundle without a target
/// or a message id already stored leaves the store as it was and is reported
/// as a partial failure that keeps the receipt.
pub fn record_message(deps: &mut Deps, bundle: &Bundle, receipt: String) -> (r: Result<String, FlowError>)
    ensures
        bundle.target is None ==> r is Err && is_partial_failure(
            r->Err_0,
            receipt@,
            LocalFailure::Input(InputError::MissingTarget),
        ) && final(deps).data_store.stored_messages() == old(deps).data_store.stored_messages()
            && final(deps).logger@ == old(deps).logger@,
        bundle.target is Some && find_message(old(deps).data_store.stored_messages(), bundle.id@) is Some
            ==> r is Err && is_partial_failure(r->Err_0, receipt@, LocalFailure::Store(StoreError::Duplicate))
            && final(deps).data_store.stored_messages() == old(deps).data_store.stored_messages()
            && final(deps).logger@ == old(deps).logger@,
        bundle.target is Some && find_message(old(deps).data_store.stored_messages(), bundle.id@) is None
            ==> r is Ok && r->Ok_0@ == receipt@
            && final(deps).data_store.stored_messages() == old(deps).data_store.stored_messages().push(message_of_bundle(*bundle))
            && final(deps).logger@.drop_last() == old(deps).logger@
            && final(deps).logger@.last()@ == saved_line("saved message"@, bundle.id@),
        final(deps).data_store.stored_processes() == old(deps).data_store.stored_processes(),
{
    let message = match Message::from_bundle(bundle) {
        Ok(m) => m,
        Err(e) => return Err(FlowError::PartialFailure { receipt, cause: LocalFailure::Input(e) }),
    };
    let id = message.id.clone();
    match deps.data_store.save_message(message) {
        Err(e) => Err(FlowError::PartialFailure { receipt, cause: LocalFailure::Store(e) }),
        Ok(()) => {
            log_saved(&mut deps.logger, "saved message", &id);
            Ok(receipt)
        },
    }
}

/// Indexes locally the process that a bundle already uploaded with
/// `receipt` defines, and hands the receipt back. A bundle with a target or a
/// process id already stored leaves the store as it was and is reported as a
/// partial failure that keeps the receipt.
pub fn record_process(deps: &mut Deps, bundle: &Bundle, receipt: String) -> (r: Result<String, FlowError>)
    ensures
        bundle.target is Some ==> r is Err && is_partial_failure(
            r->Err_0,
            receipt@,
            LocalFailure::Input(InputError::UnexpectedTarget),
        ) && final(deps).data_store.stored_processes() == old(deps).data_store.stored_processes()
            && final(deps).logger@ == old(deps).logger@,
        bundle.target is None && find_process(old(deps).data_store.stored_processes(), bundle.id@) is Some
            ==> r is Err && is_partial_failure(r->Err_0, receipt@, LocalFailure::Store(StoreError::Duplicate))
            && final(deps).data_store.stored_processes() == old(deps).data_store.stored_processes()
            && final(deps).logger@ == old(deps).logger@,
        bundle.target is None && find_process(old(deps).data_store.stored_processes(), bundle.id@) is None
            ==> r is Ok && r->Ok_0@ == receipt@
            && final(deps).data_store.stored_processes() == old(deps).data_store.stored_processes().push(process_of_bundle(*bundle))
            && final(deps).logger@.drop_last() == old(deps).logger@
            && final(deps).logger@.last()@ == saved_line("saved process"@, bundle.id@),
        final(deps).data_store.stored_messages() == old(deps).data_store.stored_messages(),
{
    let process = match Process::from_bundle(bundle) {
        Ok(p) => p,
        Err(e) => return Err(FlowError::PartialFailure { receipt, cause: LocalFailure::Input(e) }),
    };
    let id = process.id.clone();
    match deps.data_store.save_process(process) {
        Err(e) => Err(FlowError::PartialFailure { receipt, cause: LocalFailure::Store(e) }),
        Ok(()) => {
            log_saved(&mut deps.logger, "saved process", &id);
            Ok(receipt)
        },
    }
}

/// The stored messages of a process in their total order, cut down to the
/// sequence keys between `from` and `to`; inverted bounds are refused.
pub fn read_messages(deps: &Deps, process_id: &String, from: Option<String>, to: Option<String>) -> (r: Result<SortedMessages, FlowError>)
    ensures
        range_inverted(opt_view(from), opt_view(to)) ==> r matches Err(FlowError::Range(_)),
        !range_inverted(opt_view(from), opt_view(to)) ==> r is Ok && exists|input: Seq<Message>|
            views(input) == messages_of(deps.data_store.stored_messages(), process_id@)
            && #[trigger] ordered_slice(input, opt_view(from), opt_view(to), r->Ok_0.messages@),
{
    let messages = deps.data_store.get_messages(process_id);
    let ghost input = messages@;
    match SortedMessages::from_messages(messages, from, to) {
        Ok(s) => {
            let r: Result<SortedMessages, FlowError> = Ok(s);
            proof {
                assert(views(input) == messages_of(deps.data_store.stored_messages(), process_id@)
                    && ordered_slice(input, opt_view(from), opt_view(to), r->Ok_0.messages@));
            }
            r
        },
        Err(e) => Err(FlowError::Range(e)),
    }
}

/// The stored message with this id.
pub fn read_message(deps: &Deps, message_id: &String) -> (r: Result<Message, FlowError>)
    ensures
        match find_message(deps.data_store.stored_messages(), message_id@) {
            None => r matches Err(FlowError::Store(StoreError::NotFound)),
            Some(m) => r is Ok && r->Ok_0@ == m,
        },
{
    match deps.data_store.get_message(message_id) {
        Ok(m) => Ok(m),
        Err(e) => Err(FlowError::Store(e)),
    }
}

/// The stored process with this id.
pub fn read_process(deps: &Deps, process_id: &String) -> (r: Result<Process, FlowError>)
    ensures
        match find_process(deps.data_store.stored_processes(), process_id@) {
            None => r matches Err(FlowError::Store(StoreError::NotFound)),
            Some(p) => r is Ok && r->Ok_0@ == p,
        },
{
    match deps.data_store.get_process(process_id) {
        Ok(p) => Ok(p),
        Err(e) => Err(FlowError::Store(e)),
    }
}

/// The message extracted from a bundle and saved under its fresh id is,
/// field for field, what a lookup of that id returns.
pub proof fn lemma_message_round_trip(bundle: Bundle, stored: Seq<MessageView>)
    requires
        bundle.target is Some,
        find_message(stored, bundle.id@) is None,
    ensures
        find_message(stored.push(message_of_bundle(bundle)), bundle.id@) == Some(
            message_of_bundle(bundle),
        ),
{
    assert(stored.push(message_of_bundle(bundle)).last() == message_of_bundle(bundle));
}

/// The process extracted from a bundle and saved under its fresh id is,
/// field for field, what a lookup of that id returns.
pub proof fn lemma_process_round_trip(bundle: Bundle, stored: Seq<ProcessView>)
    requires
        bundle.target is None,
        find_process(stored, bundle.id@) is None,
    ensures
        find_process(stored.push(process_of_bundle(bundle)), bundle.id@) == Some(
            process_of_bundle(bundle),
        ),
{
    assert(stored.push(process_of_bundle(bundle)).last() == process_of_bundle(bundle));
}

} // verus!
