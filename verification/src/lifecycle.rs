//! The lifecycle of the audio client: the ports it registers, the wiring it
//! starts with, and the handle that stops it.

use vstd::prelude::*;
use vstd::string::StringExecFns;
use crate::naming::{decimal, decimal_string};
use crate::channel::COMMAND_CAPACITY;
use crate::command::{Command, GraphOp};
use crate::config::{channel_of, channels_of, PortSpec};
use crate::connection::{client_wires, table_of, ConnectionMap, Wire};
use crate::stereo::{names_of, WiringError};

verus! {

/// Where an audio client stands in its life.
#[derive(Debug, Clone, Copy, PartialEq, Eq, Structural)]
pub enum ClientState {
    /// Registered with the audio subsystem, ports allocated, wiring derived.
    Created,
    /// The audio callback is installed and runs.
    Activated,
    /// The audio callback has been stopped for good.
    Deactivated,
}

/// The state that follows `state` when the client is activated: a client
/// that was created starts to run, any other stays as it is.
pub open spec fn after_activate(state: ClientState) -> ClientState {
    match state {
        ClientState::Created => ClientState::Activated,
        other => other,
    }
}

/// The state that follows `state` when a stop is asked for: a running client
/// is deactivated, any other stays as it is.
pub open spec fn after_stop(state: ClientState) -> ClientState {
    match state {
        ClientState::Activated => ClientState::Deactivated,
        other => other,
    }
}

/// A second request to stop changes nothing, and no request to stop leaves a
/// client running.
pub proof fn lemma_stop_is_idempotent(state: ClientState)
    ensures
        after_stop(after_stop(state)) == after_stop(state),
        after_stop(state) != ClientState::Activated,
{
}

/// A deactivated client stays deactivated, whatever is asked of it.
pub proof fn lemma_deactivated_is_final()
    ensures
        after_stop(ClientState::Deactivated) == ClientState::Deactivated,
        after_activate(ClientState::Deactivated) == ClientState::Deactivated,
{
}

/// The handle by which a client is activated once and stopped once.
#[derive(Debug)]
pub struct JackHandle {
    state: ClientState,
}

impl JackHandle {
    /// The state that the handle is in.
    pub closed spec fn state(&self) -> ClientState {
        self.state
    }

    /// The handle of a client that has been created and not yet activated.
    pub fn new() -> (handle: Self)
        ensures
            handle.state() == ClientState::Created,
    {
        JackHandle { state: ClientState::Created }
    }

    /// The state that the handle is in.
    pub fn current(&self) -> (state: ClientState)
        ensures
            state == self.state(),
    {
        self.state
    }

    /// Marks the client as running. Returns whether the caller is to install
    /// the audio callback now: it is only for a client that was created and
    /// never activated before.
    pub fn activate(&mut self) -> (install: bool)
        ensures
            install == (old(self).state() == ClientState::Created),
            final(self).state() == after_activate(old(self).state()),
    {
        match self.state {
            ClientState::Created => {
                self.state = ClientState::Activated;
                true
            },
            _ => false,
        }
    }

    /// Asks for the client to be stopped. Returns whether the caller is to
    /// deactivate the client now: it is for the first request that reaches a
    /// running client, and for no request after it.
    pub fn stop(&mut self) -> (deactivate: bool)
        ensures
            deactivate == (old(self).state() == ClientState::Activated),
            final(self).state() == after_stop(old(self).state()),
    {
        match self.state {
            ClientState::Activated => {
                self.state = ClientState::Deactivated;
                true
            },
            _ => false,
        }
    }
}

/// The short name of the input port of rank `index`.
pub open spec fn input_port_name(index: nat) -> Seq<char> {
    "in"@ + decimal(index)
}

/// The short name of the output port of rank `index`.
pub open spec fn output_port_name(index: nat) -> Seq<char> {
    "out"@ + decimal(index)
}

/// `count` port names made of `prefix` and the port's rank.
fn port_names(prefix: &str, count: usize) -> (names: Vec<String>)
    ensures
        names@.len() == count,
        forall|i: int| 0 <= i < count ==> (#[trigger] names@[i])@ == prefix@ + decimal(i as nat),
{
    let mut names: Vec<String> = Vec::new();
    let mut i: usize = 0;
    while i < count
        invariant
            i <= count,
            names@.len() == i,
            forall|j: int| 0 <= j < i ==> (#[trigger] names@[j])@ == prefix@ + decimal(j as nat),
        decreases count - i,
    {
        let mut name = prefix.to_owned();
        let rank = decimal_string(i);
        name.append(rank.as_str());
        names.push(name);
        i = i + 1;
    }
    names
}

/// The short names of the ports that a client with `num_inputs` input
/// channels and `num_outputs` output channels registers, in the order in which
/// it registers them: `in0`, `in1`, ... and `out0`, `out1`, ...
pub fn create_jack_client(num_inputs: usize, num_outputs: usize) -> (names: (Vec<String>, Vec<String>))
    ensures
        names.0@.len() == num_inputs,
        names.1@.len() == num_outputs,
        forall|i: int| 0 <= i < num_inputs ==> (#[trigger] names.0@[i])@ == input_port_name(i as nat),
        forall|i: int|
            0 <= i < num_outputs ==> (#[trigger] names.1@[i])@ == output_port_name(i as nat),
{
    (port_names("in", num_inputs), port_names("out", num_outputs))
}

/// Prepares a client for activation: derives its connection table from the
/// names under which its ports were registered and from the configured
/// channels, or leaves the table empty where nothing is configured, and makes
/// the command channel and the client's handle.
pub fn start_dsp(in_port_names: &[String], out_port_names: &[String], port_spec: Option<PortSpec>) -> (result:
    Result<(ConnectionMap, rtrb::Consumer<Command>, JackHandle), WiringError>)
    ensures
        result is Ok <==> port_spec is None || (in_port_names@.len() % 2 == 0
            && out_port_names@.len() % 2 == 0),
        result matches Err(error) ==> error == WiringError::InvalidPortCount,
        result matches Ok(made) ==> {
            &&& made.0.wf()
            &&& made.0.entries() == match port_spec {
                Some(spec) => table_of(
                    client_wires(
                        names_of(in_port_names@),
                        names_of(out_port_names@),
                        channels_of(spec.0@),
                        channel_of(spec.1),
                    ),
                ),
                None => Seq::<Wire>::empty(),
            }
            &&& made.0.backlog() == Seq::<GraphOp>::empty()
            &&& made.0.capacity() == COMMAND_CAPACITY
            &&& made.2.state() == ClientState::Created
        },
{
    let (map, command_rx) = match &port_spec {
        Some(spec) => match ConnectionMap::from_ports_and_spec(in_port_names, out_port_names, spec) {
            Ok(made) => made,
            Err(error) => {
                return Err(error);
            },
        },
        None => ConnectionMap::new(),
    };
    Ok((map, command_rx, JackHandle::new()))
}

} // verus!
