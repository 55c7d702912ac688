//! Commands that move from the notification path to the audio thread, and the
//! calls on the audio graph that they stand for.

use vstd::prelude::*;

verus! {

/// What a command asks of the audio graph, over port names: the model that
/// contracts speak of.
pub enum GraphOp {
    /// Link the first port to the second.
    Connect(Seq<char>, Seq<char>),
    /// Remove the link from the first port to the second.
    Disconnect(Seq<char>, Seq<char>),
}

/// A directed pair of port names: the source of a link and its destination.
#[derive(Debug, PartialEq, Eq)]
pub struct PortPair {
    from: String,
    to: String,
}

impl View for PortPair {
    type V = (Seq<char>, Seq<char>);

    /// The source name and the destination name.
    closed spec fn view(&self) -> (Seq<char>, Seq<char>) {
        (self.from@, self.to@)
    }
}

/// A connect or disconnect request, created by the notification handler and
/// consumed once by the audio callback.
#[derive(Debug, PartialEq, Eq)]
pub enum Command {
    Connect(PortPair),
    Disconnect(PortPair),
}

impl View for Command {
    type V = GraphOp;

    open spec fn view(&self) -> GraphOp {
        match self {
            Command::Connect(pair) => GraphOp::Connect(pair@.0, pair@.1),
            Command::Disconnect(pair) => GraphOp::Disconnect(pair@.0, pair@.1),
        }
    }
}

/// One call of a primitive of the audio graph, with the two port names it is
/// made with. The caller that owns the audio client performs it.
#[derive(Debug, Clone, Copy, PartialEq, Eq)]
pub enum GraphCall<'a> {
    Connect { from: &'a str, to: &'a str },
    Disconnect { from: &'a str, to: &'a str },
}

impl<'a> View for GraphCall<'a> {
    type V = GraphOp;

    open spec fn view(&self) -> GraphOp {
        match self {
            GraphCall::Connect { from, to } => GraphOp::Connect(from@, to@),
            GraphCall::Disconnect { from, to } => GraphOp::Disconnect(from@, to@),
        }
    }
}

impl PortPair {
    pub fn new(from: &str, to: &str) -> (pair: Self)
        ensures
            pair@ == (from@, to@),
    {
        PortPair { from: from.to_owned(), to: to.to_owned() }
    }

    /// The name of the port that the link starts at.
    pub fn from_port(&self) -> (name: &String)
        ensures
            name@ == self@.0,
    {
        &self.from
    }

    /// The name of the port that the link ends at.
    pub fn to_port(&self) -> (name: &String)
        ensures
            name@ == self@.1,
    {
        &self.to
    }

    /// The call that links the pair's source to its destination.
    pub fn connect(&self) -> (call: GraphCall<'_>)
        ensures
            call@ == GraphOp::Connect(self@.0, self@.1),
    {
        GraphCall::Connect { from: self.from.as_str(), to: self.to.as_str() }
    }

    /// The call that removes the link from the pair's source to its destination.
    pub fn disconnect(&self) -> (call: GraphCall<'_>)
        ensures
            call@ == GraphOp::Disconnect(self@.0, self@.1),
    {
        GraphCall::Disconnect { from: self.from.as_str(), to: self.to.as_str() }
    }
}

/// The call on the audio graph that carries out `command`.
pub fn handle_command(command: &Command) -> (call: GraphCall<'_>)
    ensures
        call@ == command@,
{
    match command {
        Command::Connect(pair) => pair.connect(),
        Command::Disconnect(pair) => pair.disconnect(),
    }
}

} // verus!
