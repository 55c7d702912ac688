//! The configuration of logical channels.

use vstd::prelude::*;

verus! {

/// One logical stereo channel: an optional label and an optional pair of
/// external port names, left then right. A channel without a port pair is a
/// placeholder.
#[derive(Debug)]
pub struct Port {
    pub label: Option<String>,
    pub ports: Option<[String; 2]>,
}

/// The input channels, the mandatory fallback input, and the optional output.
#[derive(Debug)]
pub struct Config {
    pub inputs: Vec<Port>,
    pub fallback_input: Port,
    pub output: Option<Port>,
}

/// The input channels in wiring order, fallback first, and the optional output
/// channel.
pub type PortSpec = (Vec<Port>, Option<Port>);

/// A channel as contracts see it.
pub struct PortView {
    pub label: Option<Seq<char>>,
    pub ports: Option<(Seq<char>, Seq<char>)>,
}

/// A configuration as contracts see it.
pub struct ConfigView {
    pub inputs: Seq<PortView>,
    pub fallback_input: PortView,
    pub output: Option<PortView>,
}

impl View for Port {
    type V = PortView;

    open spec fn view(&self) -> PortView {
        PortView {
            label: match self.label {
                Some(label) => Some(label@),
                None => None,
            },
            ports: match self.ports {
                Some(ports) => Some((ports@[0]@, ports@[1]@)),
                None => None,
            },
        }
    }
}

/// The channels that a sequence of configured ports holds.
pub open spec fn channels_of(ports: Seq<Port>) -> Seq<PortView> {
    ports.map_values(|p: Port| p@)
}

/// The channel that an optional configured port holds.
pub open spec fn channel_of(port: Option<Port>) -> Option<PortView> {
    match port {
        Some(p) => Some(p@),
        None => None,
    }
}

impl View for Config {
    type V = ConfigView;

    open spec fn view(&self) -> ConfigView {
        ConfigView {
            inputs: channels_of(self.inputs@),
            fallback_input: self.fallback_input@,
            output: channel_of(self.output),
        }
    }
}

impl Clone for Port {
    fn clone(&self) -> (copy: Self)
        ensures
            copy@ == self@,
    {
        let label = match &self.label {
            Some(label) => Some(label.clone()),
            None => None,
        };
        let ports = match &self.ports {
            Some(ports) => Some([ports[0].clone(), ports[1].clone()]),
            None => None,
        };
        Port { label, ports }
    }
}

impl Default for Port {
    fn default() -> (port: Self)
        ensures
            port@ == (PortView { label: None, ports: None }),
    {
        Port { label: None, ports: None }
    }
}

/// A copy of a sequence of channels.
fn clone_ports(ports: &Vec<Port>) -> (copy: Vec<Port>)
    ensures
        channels_of(copy@) == channels_of(ports@),
{
    let mut copy: Vec<Port> = Vec::new();
    let mut i: usize = 0;
    while i < ports.len()
        invariant
            i <= ports@.len(),
            copy@.len() == i,
            forall|j: int| 0 <= j < i ==> (#[trigger] copy@[j])@ == ports@[j]@,
        decreases ports@.len() - i,
    {
        copy.push(ports[i].clone());
        i = i + 1;
    }
    assert(channels_of(copy@) =~= channels_of(ports@));
    copy
}

impl Clone for Config {
    fn clone(&self) -> (copy: Self)
        ensures
            copy@ == self@,
    {
        let output = match &self.output {
            Some(port) => Some(port.clone()),
            None => None,
        };
        Config {
            inputs: clone_ports(&self.inputs),
            fallback_input: self.fallback_input.clone(),
            output,
        }
    }
}

impl Default for Config {
    /// The configuration that asks for no connection at all.
    fn default() -> (config: Self)
        ensures
            config@ == (ConfigView {
                inputs: Seq::empty(),
                fallback_input: PortView { label: None, ports: None },
                output: None,
            }),
    {
        let config = Config { inputs: Vec::new(), fallback_input: Port::default(), output: None };
        assert(channels_of(config.inputs@) =~= Seq::empty());
        config
    }
}

impl Config {
    /// The channels in the order in which they are wired: the fallback input
    /// first, then the inputs, and beside them the output.
    pub fn port_spec(&self) -> (spec: PortSpec)
        ensures
            channels_of(spec.0@) == seq![self@.fallback_input] + self@.inputs,
            channel_of(spec.1) == self@.output,
    {
        let mut in_ports: Vec<Port> = Vec::new();
        in_ports.push(self.fallback_input.clone());
        let mut i: usize = 0;
        while i < self.inputs.len()
            invariant
                i <= self.inputs@.len(),
                in_ports@.len() == i + 1,
                in_ports@[0]@ == self.fallback_input@,
                forall|k: int| 1 <= k <= i ==> (#[trigger] in_ports@[k])@ == self.inputs@[k - 1]@,
            decreases self.inputs@.len() - i,
        {
            in_ports.push(self.inputs[i].clone());
            i = i + 1;
        }
        let output = match &self.output {
            Some(port) => Some(port.clone()),
            None => None,
        };
        assert(channels_of(in_ports@) =~= seq![self@.fallback_input] + self@.inputs);
        (in_ports, output)
    }
}

} // verus!
