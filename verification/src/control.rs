//! The control messages that the switcher answers, and what each asks for.

use vstd::prelude::*;
use vstd::string::StringExecFns;
use crate::naming::{signed_decimal, signed_decimal_string};

verus! {

/// An argument of a control message, as far as the switcher reads it.
#[derive(Debug, Clone, Copy, PartialEq, Eq, Structural)]
pub enum ControlArg {
    /// A 32-bit integer.
    Int(i32),
    /// An argument of any other type.
    Other,
}

/// What a control message asks of the switcher.
#[derive(Debug, Clone, Copy, PartialEq, Eq, Structural)]
pub enum ControlAction {
    /// Refresh the parameters of the processing unit and report them.
    ShowState,
    /// Write `active` to the parameter that gates the channel `channel`, then
    /// refresh the parameters.
    SetActive { channel: i32, active: i32 },
    /// Do nothing.
    Ignore,
}

/// What the message with the address `address` and the arguments `args` asks
/// for: `/state` without arguments reports the parameters, `/switcher` with two
/// integers sets a channel's gate, and anything else is ignored.
pub open spec fn action_of(address: Seq<char>, args: Seq<ControlArg>) -> ControlAction {
    if address == "/state"@ && args.len() == 0 {
        ControlAction::ShowState
    } else if address == "/switcher"@ && args.len() == 2 {
        match (args[0], args[1]) {
            (ControlArg::Int(channel), ControlArg::Int(active)) => ControlAction::SetActive {
                channel,
                active,
            },
            _ => ControlAction::Ignore,
        }
    } else {
        ControlAction::Ignore
    }
}

/// The path of the parameter that gates the channel `channel`.
pub open spec fn gate_path(channel: int) -> Seq<char> {
    "active/"@ + signed_decimal(channel)
}

/// What a control message asks for.
pub fn control_action(address: &str, args: &[ControlArg]) -> (action: ControlAction)
    ensures
        action == action_of(address@, args@),
{
    let address = address.to_owned();
    if address == "/state".to_owned() && args.len() == 0 {
        ControlAction::ShowState
    } else if address == "/switcher".to_owned() && args.len() == 2 {
        match (args[0], args[1]) {
            (ControlArg::Int(channel), ControlArg::Int(active)) => ControlAction::SetActive {
                channel,
                active,
            },
            _ => ControlAction::Ignore,
        }
    } else {
        ControlAction::Ignore
    }
}

/// The path of the parameter that gates the channel `channel`.
pub fn active_path(channel: i32) -> (path: String)
    ensures
        path@ == gate_path(channel as int),
{
    let mut path = "active/".to_owned();
    let rank = signed_decimal_string(channel);
    path.append(rank.as_str());
    path
}

} // verus!
