//! The way out to a client: the sending half of the queue that its writer
//! drains, and the record of what was put on such queues.

use vstd::prelude::*;
use tokio::sync::mpsc::UnboundedSender;
use crate::ident::ClientId;

verus! {

#[verifier::external_type_specification]
#[verifier::external_body]
#[verifier::reject_recursive_types(T)]
pub struct ExUnboundedSender<T>(UnboundedSender<T>);

/// The queue of texts that are on their way to one client.
pub type Conduit = UnboundedSender<String>;

/// Calls `UnboundedSender::send` and reports whether the queue took the
/// text. Trusted, with nothing claimed of the result: the queue refuses
/// once its receiving half is closed or dropped, which is decided
/// elsewhere. The call never waits.
#[verifier::external_body]
fn push_onto(conduit: &Conduit, text: String) -> (taken: bool) {
    conduit.send(text).is_ok()
}

/// Calls `clone` on an `UnboundedSender`: one more sending half of the same
/// queue. Trusted, with nothing claimed of the result.
#[verifier::external_body]
fn clone_conduit(conduit: &Conduit) -> (copy: Conduit) {
    conduit.clone()
}

/// One live connection: its identifier and the way out to it.
pub struct ClientHandle {
    pub id: ClientId,
    pub outbound: Conduit,
}

/// The identifiers of a list of handles, in their order.
pub open spec fn handle_ids(handles: Seq<ClientHandle>) -> Seq<ClientId> {
    handles.map_values(|h: ClientHandle| h.id)
}

/// Whether one target of a fan-out took the text.
#[derive(Clone, Copy, Debug, PartialEq, Eq, Structural)]
pub struct Delivery {
    pub to: ClientId,
    pub delivered: bool,
}

/// What a fan-out did: the text, and for each target in order whether its
/// queue took it.
#[derive(Debug)]
pub struct Fanout {
    pub text: String,
    pub deliveries: Vec<Delivery>,
}

/// The mathematical model of a fan-out: which text was offered to which
/// clients, in order.
pub struct Note {
    pub text: Seq<char>,
    pub targets: Seq<ClientId>,
}

impl Fanout {
    /// The clients that the text was offered to, in order.
    pub open spec fn targets(&self) -> Seq<ClientId> {
        self.deliveries@.map_values(|d: Delivery| d.to)
    }
}

impl View for Fanout {
    type V = Note;

    open spec fn view(&self) -> Note {
        Note { text: self.text@, targets: self.targets() }
    }
}

/// The models of a list of fan-outs.
pub open spec fn notes_of(done: Seq<Fanout>) -> Seq<Note> {
    done.map_values(|f: Fanout| f@)
}

impl ClientHandle {
    pub fn new(id: ClientId, outbound: Conduit) -> (handle: ClientHandle)
        ensures
            handle.id == id,
    {
        ClientHandle { id, outbound }
    }

    /// Offers `text` to the client's queue and reports whether it was
    /// taken.
    pub fn send(&self, text: String) -> (taken: bool) {
        push_onto(&self.outbound, text)
    }

    /// A second handle on the same connection.
    pub fn share(&self) -> (copy: ClientHandle)
        ensures
            copy.id == self.id,
    {
        ClientHandle { id: self.id, outbound: clone_conduit(&self.outbound) }
    }
}

/// The index of the first handle of `client_id`, if there is one.
pub fn position(handles: &Vec<ClientHandle>, client_id: ClientId) -> (found: Option<usize>)
    ensures
        match found {
            Some(i) => i < handles@.len() && handles@[i as int].id == client_id && forall|k: int|
                0 <= k < i ==> (#[trigger] handles@[k]).id != client_id,
            None => !handle_ids(handles@).contains(client_id),
        },
{
    let mut i: usize = 0;
    while i < handles.len()
        invariant
            i <= handles@.len(),
            forall|k: int| 0 <= k < i ==> (#[trigger] handles@[k]).id != client_id,
        decreases handles@.len() - i,
    {
        if handles[i].id == client_id {
            return Some(i);
        }
        i += 1;
    }
    proof {
        let ids = handle_ids(handles@);
        if ids.contains(client_id) {
            let k = choose|k: int| 0 <= k < ids.len() && ids[k] == client_id;
            assert(handles@[k].id == client_id);
        }
    }
    None
}

/// Offers `text` to each of `targets` in turn. A queue that refuses does
/// not stop the others being tried.
pub fn deliver(targets: &Vec<ClientHandle>, text: String) -> (done: Fanout)
    ensures
        done.text@ == text@,
        done.targets() == handle_ids(targets@),
{
    let mut deliveries: Vec<Delivery> = Vec::new();
    let mut i: usize = 0;
    while i < targets.len()
        invariant
            i <= targets@.len(),
            deliveries@.len() == i,
            forall|k: int| 0 <= k < i ==> (#[trigger] deliveries@[k]).to == targets@[k].id,
        decreases targets@.len() - i,
    {
        let delivered = targets[i].send(text.clone());
        deliveries.push(Delivery { to: targets[i].id, delivered });
        i += 1;
    }
    let done = Fanout { text, deliveries };
    assert(done.targets() =~= handle_ids(targets@));
    done
}

} // verus!
