//! The messages that drive the application, and the events among them that a
//! renaming run reports.

use vstd::prelude::*;
use crate::listing::texts;

verus! {

/// What can happen to the application: requests of the user, answers of the
/// folder chooser, and the reports of a renaming run.
#[derive(Debug)]
pub enum Message {
    FindInputFolder,
    FindOutputFolder,
    InputFolderPathed(String),
    OutputFolderPathed(String),
    StartRenaming,
    RenamingDone(Result<Vec<String>, String>),
    ExtensionChanged(String),
    RenamingProgress(usize, usize),
    PaddingChanged(usize),
    IncludeOriginalNameChanged(bool),
    SetAutoPadding(bool),
}

impl Clone for Message {
    fn clone(&self) -> (copy: Self)
        ensures
            says_the_same(copy, *self),
            event_of(copy) == event_of(*self),
    {
        match self {
            Message::FindInputFolder => Message::FindInputFolder,
            Message::FindOutputFolder => Message::FindOutputFolder,
            Message::InputFolderPathed(path) => Message::InputFolderPathed(path.clone()),
            Message::OutputFolderPathed(path) => Message::OutputFolderPathed(path.clone()),
            Message::StartRenaming => Message::StartRenaming,
            Message::RenamingDone(Ok(paths)) => {
                let copy = clone_all(paths);
                Message::RenamingDone(Ok(copy))
            },
            Message::RenamingDone(Err(e)) => Message::RenamingDone(Err(e.clone())),
            Message::ExtensionChanged(ext) => Message::ExtensionChanged(ext.clone()),
            Message::RenamingProgress(completed, total) => Message::RenamingProgress(
                *completed,
                *total,
            ),
            Message::PaddingChanged(width) => Message::PaddingChanged(*width),
            Message::IncludeOriginalNameChanged(on) => Message::IncludeOriginalNameChanged(*on),
            Message::SetAutoPadding(on) => Message::SetAutoPadding(*on),
        }
    }
}

/// A copy of a list of strings.
pub fn clone_all(list: &Vec<String>) -> (copy: Vec<String>)
    ensures
        texts(copy@) == texts(list@),
{
    let mut copy: Vec<String> = Vec::new();
    let mut i: usize = 0;
    while i < list.len()
        invariant
            i <= list@.len(),
            copy@.len() == i,
            forall|j: int| 0 <= j < i ==> (#[trigger] copy@[j])@ == list@[j]@,
        decreases list@.len() - i,
    {
        copy.push(list[i].clone());
        i += 1;
    }
    assert(texts(copy@) =~= texts(list@));
    copy
}

/// Whether two messages are of the same kind and carry the same contents.
pub open spec fn says_the_same(a: Message, b: Message) -> bool {
    match (a, b) {
        (Message::FindInputFolder, Message::FindInputFolder) => true,
        (Message::FindOutputFolder, Message::FindOutputFolder) => true,
        (Message::InputFolderPathed(x), Message::InputFolderPathed(y)) => x@ == y@,
        (Message::OutputFolderPathed(x), Message::OutputFolderPathed(y)) => x@ == y@,
        (Message::StartRenaming, Message::StartRenaming) => true,
        (Message::RenamingDone(Ok(x)), Message::RenamingDone(Ok(y))) => texts(x@) == texts(y@),
        (Message::RenamingDone(Err(x)), Message::RenamingDone(Err(y))) => x@ == y@,
        (Message::ExtensionChanged(x), Message::ExtensionChanged(y)) => x@ == y@,
        (Message::RenamingProgress(c, t), Message::RenamingProgress(d, u)) => c == d && t == u,
        (Message::PaddingChanged(x), Message::PaddingChanged(y)) => x == y,
        (Message::IncludeOriginalNameChanged(x), Message::IncludeOriginalNameChanged(y)) => x == y,
        (Message::SetAutoPadding(x), Message::SetAutoPadding(y)) => x == y,
        _ => false,
    }
}

/// What a message says about a renaming run.
pub enum Event {
    /// `completed` of `total` files are copied.
    Progress { completed: nat, total: nat },
    /// The run is over; these are the copies, in the order they were made.
    Success(Seq<Seq<char>>),
    /// The run is over; this is why it failed.
    Failure(Seq<char>),
    /// The message does not come from a run.
    Other,
}

/// The event that a message carries.
pub open spec fn event_of(m: Message) -> Event {
    match m {
        Message::RenamingProgress(completed, total) => Event::Progress {
            completed: completed as nat,
            total: total as nat,
        },
        Message::RenamingDone(Ok(paths)) => Event::Success(texts(paths@)),
        Message::RenamingDone(Err(e)) => Event::Failure(e@),
        _ => Event::Other,
    }
}

/// The events of a list of messages, one for one.
pub open spec fn events(messages: Seq<Message>) -> Seq<Event> {
    Seq::new(messages.len(), |i: int| event_of(messages[i]))
}

} // verus!
