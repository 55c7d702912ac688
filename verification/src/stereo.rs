//! Grouping of port names into stereo pairs.

use vstd::prelude::*;
use vstd::slice::slice_subrange;
use vstd::std_specs::convert::FromSpecImpl;
use crate::command::{GraphCall, GraphOp};

verus! {

/// Why a wiring could not be derived.
#[derive(Debug, Clone, Copy, PartialEq, Eq, Structural)]
pub enum WiringError {
    /// A sequence of port names that must form stereo pairs has odd length.
    InvalidPortCount,
}

impl WiringError {
    /// The error in words.
    pub fn message(&self) -> (text: &'static str)
        ensures
            text@ == "Ports count must be even"@,
    {
        match self {
            WiringError::InvalidPortCount => "Ports count must be even",
        }
    }
}

/// Two registered ports that are treated as one left/right unit.
pub struct StereoPort(pub [String; 2]);

impl View for StereoPort {
    type V = (Seq<char>, Seq<char>);

    /// The left and the right port name.
    open spec fn view(&self) -> (Seq<char>, Seq<char>) {
        (self.0@[0]@, self.0@[1]@)
    }
}

/// The names that a sequence of strings holds.
pub open spec fn names_of(ports: Seq<String>) -> Seq<Seq<char>> {
    ports.map_values(|s: String| s@)
}

/// The pairs that a sequence of stereo ports holds.
pub open spec fn pairs_of(ports: Seq<StereoPort>) -> Seq<(Seq<char>, Seq<char>)> {
    ports.map_values(|p: StereoPort| p@)
}

/// Consecutive names paired up in order: `(0, 1), (2, 3), ...`. A trailing
/// unpaired name is left out.
pub open spec fn stereo_pairs(names: Seq<Seq<char>>) -> Seq<(Seq<char>, Seq<char>)> {
    Seq::new((names.len() / 2) as nat, |i: int| (names[2 * i], names[2 * i + 1]))
}

impl StereoPort {
    pub fn new(port1: &str, port2: &str) -> (port: Self)
        ensures
            port@ == (port1@, port2@),
    {
        StereoPort([port1.to_owned(), port2.to_owned()])
    }

    pub fn names(&self) -> (names: &[String; 2])
        ensures
            *names == self.0,
    {
        &self.0
    }

    /// The left name for index 0, the right name for index 1.
    pub fn index(&self, idx: usize) -> (name: &String)
        requires
            idx < 2,
        ensures
            *name == self.0@[idx as int],
    {
        &self.0[idx]
    }

    /// The two calls on the audio graph that link this pair to `other`: left
    /// to left, then right to right.
    pub fn connect_to<'a>(&'a self, other: &'a StereoPort) -> (calls: (GraphCall<'a>, GraphCall<'a>))
        ensures
            calls.0@ == GraphOp::Connect(self@.0, other@.0),
            calls.1@ == GraphOp::Connect(self@.1, other@.1),
    {
        (
            GraphCall::Connect { from: self.0[0].as_str(), to: other.0[0].as_str() },
            GraphCall::Connect { from: self.0[1].as_str(), to: other.0[1].as_str() },
        )
    }

    /// The pair made of the first two names of `ports`.
    pub fn from_slice(ports: &[String]) -> (port: Self)
        requires
            ports@.len() >= 2,
        ensures
            port@ == (ports@[0]@, ports@[1]@),
    {
        StereoPort([ports[0].clone(), ports[1].clone()])
    }
}

impl From<[String; 2]> for StereoPort {
    fn from(ports: [String; 2]) -> (port: Self) {
        StereoPort(ports)
    }
}

impl FromSpecImpl<[String; 2]> for StereoPort {
    open spec fn obeys_from_spec() -> bool {
        true
    }

    open spec fn from_spec(ports: [String; 2]) -> Self {
        StereoPort(ports)
    }
}

impl<'a> From<&'a [String; 2]> for StereoPort {
    fn from(ports: &'a [String; 2]) -> (port: Self) {
        let port = StereoPort([ports[0].clone(), ports[1].clone()]);
        assert(port.0 =~= *ports);
        port
    }
}

impl<'a> FromSpecImpl<&'a [String; 2]> for StereoPort {
    open spec fn obeys_from_spec() -> bool {
        true
    }

    open spec fn from_spec(ports: &'a [String; 2]) -> Self {
        StereoPort(*ports)
    }
}

/// Pairs up consecutive names in order. A trailing unpaired name is left out.
pub fn pair_up(ports: &[String]) -> (pairs: Vec<StereoPort>)
    ensures
        pairs_of(pairs@) == stereo_pairs(names_of(ports@)),
{
    let count: usize = ports.len() / 2;
    let mut pairs: Vec<StereoPort> = Vec::new();
    let mut i: usize = 0;
    while i < count
        invariant
            count == ports@.len() / 2,
            ports@.len() <= usize::MAX,
            i <= count,
            pairs@.len() == i,
            forall|j: int|
                0 <= j < i ==> (#[trigger] pairs@[j])@ == (ports@[2 * j]@, ports@[2 * j + 1]@),
        decreases count - i,
    {
        let pair = StereoPort::from_slice(slice_subrange(ports, 2 * i, 2 * i + 2));
        pairs.push(pair);
        i = i + 1;
    }
    assert(pairs_of(pairs@) =~= stereo_pairs(names_of(ports@)));
    pairs
}

/// Groups an ordered sequence of port names into stereo pairs:
/// `(0, 1), (2, 3), ...`. A sequence of odd length is refused.
pub fn ports_to_stereo(ports: &[String]) -> (result: Result<Vec<StereoPort>, WiringError>)
    ensures
        ports@.len() % 2 == 0 ==> result is Ok && pairs_of(result->Ok_0@) == stereo_pairs(
            names_of(ports@),
        ),
        ports@.len() % 2 != 0 ==> result == Err::<Vec<StereoPort>, WiringError>(
            WiringError::InvalidPortCount,
        ),
{
    if ports.len() % 2 != 0 {
        return Err(WiringError::InvalidPortCount);
    }
    Ok(pair_up(ports))
}

} // verus!
