//! The connection table, and the notification handler that turns port
//! registrations into connect commands.

use vstd::prelude::*;
use crate::channel::{
    producer_backlog, producer_capacity, ring_with_capacity, try_push, COMMAND_CAPACITY,
};
use crate::command::{Command, GraphCall, GraphOp, PortPair};
use crate::config::{channel_of, channels_of, Port, PortSpec, PortView};
use crate::stereo::{
    names_of, pair_up, pairs_of, ports_to_stereo, stereo_pairs, StereoPort, WiringError,
};

verus! {

/// A desired link, as contracts see it: the name of the port it starts at and
/// the name of the port it ends at.
pub type Wire = (Seq<char>, Seq<char>);

/// Whether one of `entries` starts at the port `key`.
pub open spec fn has_key(entries: Seq<Wire>, key: Seq<char>) -> bool {
    exists|i: int| 0 <= i < entries.len() && (#[trigger] entries[i]).0 == key
}

/// No two of `entries` start at the same port.
pub open spec fn unique_keys(entries: Seq<Wire>) -> bool {
    forall|i: int, j: int|
        0 <= i < j < entries.len() ==> (#[trigger] entries[i]).0 != (#[trigger] entries[j]).0
}

/// `entries` after `wire` has been recorded: it takes the place of the entry
/// that starts at the same port, or comes last where there is none.
pub open spec fn insert_entry(entries: Seq<Wire>, wire: Wire) -> Seq<Wire> {
    if has_key(entries, wire.0) {
        entries.map_values(
            |e: Wire|
                if e.0 == wire.0 {
                    wire
                } else {
                    e
                },
        )
    } else {
        entries.push(wire)
    }
}

/// The two links of a stereo wiring: left to left, right to right.
pub open spec fn stereo_wires(from: (Seq<char>, Seq<char>), to: (Seq<char>, Seq<char>)) -> Seq<
    Wire,
> {
    seq![(from.0, to.0), (from.1, to.1)]
}

/// Whether `wire` starts or ends at the port `name`.
pub open spec fn touches(wire: Wire, name: Seq<char>) -> bool {
    wire.0 == name || wire.1 == name
}

/// The test that `matching` filters by.
pub open spec fn touching(name: Seq<char>) -> spec_fn(Wire) -> bool {
    |wire: Wire| touches(wire, name)
}

/// The entries that start or end at the port `name`, in table order.
pub open spec fn matching(entries: Seq<Wire>, name: Seq<char>) -> Seq<Wire> {
    entries.filter(touching(name))
}

/// One connect request for each of `wires`, in order.
pub open spec fn connect_ops(wires: Seq<Wire>) -> Seq<GraphOp> {
    wires.map_values(|w: Wire| GraphOp::Connect(w.0, w.1))
}

/// The commands that the appearance or disappearance of the port `name` calls
/// for: one connect per matching entry when it appears, none when it goes.
pub open spec fn registration_commands(
    entries: Seq<Wire>,
    name: Seq<char>,
    is_registered: bool,
) -> Seq<GraphOp> {
    if is_registered {
        connect_ops(matching(entries, name))
    } else {
        Seq::empty()
    }
}

/// The destination that `entries` records for the source `key`.
pub open spec fn peer_of(entries: Seq<Wire>, key: Seq<char>) -> Seq<char> {
    entries[choose|i: int| 0 <= i < entries.len() && (#[trigger] entries[i]).0 == key].1
}

/// The table as a mapping from each source port to its destination.
pub open spec fn wire_map(entries: Seq<Wire>) -> Map<Seq<char>, Seq<char>> {
    Map::new(|key: Seq<char>| has_key(entries, key), |key: Seq<char>| peer_of(entries, key))
}

/// The mapping that results from recording `wires` one after the other, a
/// later link taking the place of an earlier one from the same source.
pub open spec fn map_of_wires(wires: Seq<Wire>) -> Map<Seq<char>, Seq<char>>
    decreases wires.len(),
{
    if wires.len() == 0 {
        Map::empty()
    } else {
        map_of_wires(wires.drop_last()).insert(wires.last().0, wires.last().1)
    }
}

/// The table that results from recording `wires` one after the other.
pub open spec fn table_of(wires: Seq<Wire>) -> Seq<Wire>
    decreases wires.len(),
{
    if wires.len() == 0 {
        Seq::empty()
    } else {
        insert_entry(table_of(wires.drop_last()), wires.last())
    }
}

/// The port pairs of the channels that have one, in channel order.
pub open spec fn configured_pairs(channels: Seq<PortView>) -> Seq<(Seq<char>, Seq<char>)> {
    channels.filter_map(|c: PortView| c.ports)
}

/// The port pair of the output channel, where one is configured and has one.
pub open spec fn output_pair(output: Option<PortView>) -> Option<(Seq<char>, Seq<char>)> {
    match output {
        Some(channel) => channel.ports,
        None => None,
    }
}

/// The links that feed the client's inputs: the `i`-th configured pair to the
/// `i`-th registered input pair, left then right, for as many pairs as both
/// sides have.
pub open spec fn input_wires(
    targets: Seq<(Seq<char>, Seq<char>)>,
    inputs: Seq<(Seq<char>, Seq<char>)>,
) -> Seq<Wire> {
    let count = if targets.len() <= inputs.len() {
        targets.len()
    } else {
        inputs.len()
    };
    Seq::new(
        2 * count,
        |j: int|
            if j % 2 == 0 {
                (targets[j / 2].0, inputs[j / 2].0)
            } else {
                (targets[j / 2].1, inputs[j / 2].1)
            },
    )
}

/// The links that carry the client's output: its first registered output pair
/// to the configured output pair, where both exist.
pub open spec fn output_wires(
    outputs: Seq<(Seq<char>, Seq<char>)>,
    target: Option<(Seq<char>, Seq<char>)>,
) -> Seq<Wire> {
    match target {
        Some(pair) => if outputs.len() > 0 {
            stereo_wires(outputs[0], pair)
        } else {
            Seq::empty()
        },
        None => Seq::empty(),
    }
}

/// The links that a client with the registered pairs `inputs` and `outputs`
/// is to have under a configuration with the input pairs `targets` and the
/// output pair `out_target`, in the order in which they are made.
pub open spec fn desired_wires(
    inputs: Seq<(Seq<char>, Seq<char>)>,
    outputs: Seq<(Seq<char>, Seq<char>)>,
    targets: Seq<(Seq<char>, Seq<char>)>,
    out_target: Option<(Seq<char>, Seq<char>)>,
) -> Seq<Wire> {
    input_wires(targets, inputs) + output_wires(outputs, out_target)
}

/// `desired_wires` over the registered port names and the configured
/// channels.
pub open spec fn client_wires(
    in_names: Seq<Seq<char>>,
    out_names: Seq<Seq<char>>,
    channels: Seq<PortView>,
    output: Option<PortView>,
) -> Seq<Wire> {
    desired_wires(
        stereo_pairs(in_names),
        stereo_pairs(out_names),
        configured_pairs(channels),
        output_pair(output),
    )
}

/// The links that a sequence of port pairs holds.
pub open spec fn wires_of(pairs: Seq<PortPair>) -> Seq<Wire> {
    pairs.map_values(|p: PortPair| p@)
}

/// Recording a link keeps the sources distinct.
pub proof fn lemma_insert_keeps_unique(entries: Seq<Wire>, wire: Wire)
    requires
        unique_keys(entries),
    ensures
        unique_keys(insert_entry(entries, wire)),
{
    let after = insert_entry(entries, wire);
    if has_key(entries, wire.0) {
        assert forall|i: int, j: int| 0 <= i < j < after.len() implies (#[trigger] after[i]).0 != (
        #[trigger] after[j]).0 by {
            assert(after[i].0 == entries[i].0);
            assert(after[j].0 == entries[j].0);
        }
    } else {
        assert forall|i: int, j: int| 0 <= i < j < after.len() implies (#[trigger] after[i]).0 != (
        #[trigger] after[j]).0 by {
            assert(after[i] == entries[i]);
            if j < entries.len() {
                assert(after[j] == entries[j]);
            }
        }
    }
}

/// How the matching entries grow when the table is read one entry further.
pub proof fn lemma_matching_step(entries: Seq<Wire>, name: Seq<char>, i: int)
    requires
        0 <= i < entries.len(),
    ensures
        matching(entries.take(i + 1), name) == if touches(entries[i], name) {
            matching(entries.take(i), name).push(entries[i])
        } else {
            matching(entries.take(i), name)
        },
{
    reveal_with_fuel(Seq::filter, 2);
    assert(entries.take(i + 1).drop_last() =~= entries.take(i));
}

/// A part of the table matches no more entries than the whole.
pub proof fn lemma_matching_prefix(entries: Seq<Wire>, name: Seq<char>, i: int)
    requires
        0 <= i <= entries.len(),
    ensures
        matching(entries.take(i), name).len() <= matching(entries, name).len(),
    decreases entries.len() - i,
{
    if i == entries.len() {
        assert(entries.take(i) =~= entries);
    } else {
        lemma_matching_step(entries, name, i);
        lemma_matching_prefix(entries, name, i + 1);
    }
}

/// Recording one more link is one more step of `table_of`.
pub proof fn lemma_table_push(wires: Seq<Wire>, wire: Wire)
    ensures
        table_of(wires.push(wire)) == insert_entry(table_of(wires), wire),
{
    assert(wires.push(wire).drop_last() =~= wires);
}

/// A table made by recording links holds each source once.
pub proof fn lemma_table_unique(wires: Seq<Wire>)
    ensures
        unique_keys(table_of(wires)),
    decreases wires.len(),
{
    if wires.len() > 0 {
        lemma_table_unique(wires.drop_last());
        lemma_insert_keeps_unique(table_of(wires.drop_last()), wires.last());
    }
}

/// Recording a link in the table is an insertion into the mapping that the
/// table stands for.
pub proof fn lemma_insert_is_map_insert(entries: Seq<Wire>, wire: Wire)
    requires
        unique_keys(entries),
    ensures
        wire_map(insert_entry(entries, wire)) == wire_map(entries).insert(wire.0, wire.1),
{
    let after = insert_entry(entries, wire);
    let replaced = has_key(entries, wire.0);
    assert(after.len() >= entries.len());
    assert forall|i: int| 0 <= i < entries.len() implies (#[trigger] after[i]).0 == entries[i].0 by {}
    assert forall|i: int| 0 <= i < entries.len() && entries[i].0 != wire.0 implies #[trigger] after[i]
        == entries[i] by {}
    assert forall|i: int| 0 <= i < after.len() && after[i].0 == wire.0 implies #[trigger] after[i]
        == wire by {
        if !replaced && i < entries.len() {
            assert(entries[i].0 == wire.0);
        }
    }
    assert(has_key(after, wire.0)) by {
        if replaced {
            let i = choose|i: int| 0 <= i < entries.len() && (#[trigger] entries[i]).0 == wire.0;
            assert(after[i].0 == wire.0);
        } else {
            assert(after[entries.len() as int].0 == wire.0);
        }
    }
    assert forall|key: Seq<char>| has_key(after, key) <==> (has_key(entries, key) || key
        == wire.0) by {
        if has_key(after, key) && key != wire.0 {
            let i = choose|i: int| 0 <= i < after.len() && (#[trigger] after[i]).0 == key;
            if i < entries.len() {
                assert(entries[i].0 == key);
            }
        }
        if has_key(entries, key) {
            let i = choose|i: int| 0 <= i < entries.len() && (#[trigger] entries[i]).0 == key;
            assert(after[i].0 == key);
        }
    }
    assert forall|key: Seq<char>| has_key(after, key) implies peer_of(after, key) == wire_map(
        entries,
    ).insert(wire.0, wire.1)[key] by {
        let i = choose|i: int| 0 <= i < after.len() && (#[trigger] after[i]).0 == key;
        if key != wire.0 {
            let j = choose|j: int| 0 <= j < entries.len() && (#[trigger] entries[j]).0 == key;
            if i >= entries.len() {
                assert(after[i].0 == wire.0);
            }
            assert(entries[i].0 == key);
            if i < j {
                assert(entries[i].0 != entries[j].0);
            }
            if j < i {
                assert(entries[j].0 != entries[i].0);
            }
            assert(after[i] == entries[i]);
        }
    }
    assert(wire_map(after) =~= wire_map(entries).insert(wire.0, wire.1));
}

/// The table made by recording links one after the other stands for the
/// mapping made by inserting them one after the other.
pub proof fn lemma_table_is_map(wires: Seq<Wire>)
    ensures
        wire_map(table_of(wires)) == map_of_wires(wires),
    decreases wires.len(),
{
    if wires.len() == 0 {
        assert(wire_map(Seq::<Wire>::empty()) =~= Map::<Seq<char>, Seq<char>>::empty());
    } else {
        lemma_table_is_map(wires.drop_last());
        lemma_table_unique(wires.drop_last());
        lemma_insert_is_map_insert(table_of(wires.drop_last()), wires.last());
    }
}

/// Configured channels beyond the registered input pairs are left unused: the
/// links are those of the first `inputs.len()` configured pairs alone.
pub proof fn lemma_excess_channels_unused(
    inputs: Seq<(Seq<char>, Seq<char>)>,
    outputs: Seq<(Seq<char>, Seq<char>)>,
    targets: Seq<(Seq<char>, Seq<char>)>,
    out_target: Option<(Seq<char>, Seq<char>)>,
)
    requires
        targets.len() > inputs.len(),
    ensures
        desired_wires(inputs, outputs, targets, out_target) == desired_wires(
            inputs,
            outputs,
            targets.take(inputs.len() as int),
            out_target,
        ),
        input_wires(targets, inputs).len() == 2 * inputs.len(),
{
    assert(input_wires(targets, inputs) =~= input_wires(targets.take(inputs.len() as int), inputs));
}

/// What the entries that match a port are, read up to the entry of rank `i`:
/// each of them is an entry that starts or ends at the port, each such entry
/// is among them, and where the table holds each source once, so do they.
pub proof fn lemma_matching_members(entries: Seq<Wire>, name: Seq<char>, i: int)
    requires
        0 <= i <= entries.len(),
    ensures
        forall|k: int|
            0 <= k < matching(entries.take(i), name).len() ==> touches(
                #[trigger] matching(entries.take(i), name)[k],
                name,
            ) && exists|j: int|
                0 <= j < i && #[trigger] entries[j] == matching(entries.take(i), name)[k],
        forall|j: int|
            0 <= j < i && touches(#[trigger] entries[j], name) ==> matching(
                entries.take(i),
                name,
            ).contains(entries[j]),
        unique_keys(entries) ==> unique_keys(matching(entries.take(i), name)),
    decreases i,
{
    if i == 0 {
        reveal_with_fuel(Seq::filter, 1);
        assert(entries.take(0) =~= Seq::<Wire>::empty());
    } else {
        lemma_matching_members(entries, name, i - 1);
        lemma_matching_step(entries, name, i - 1);
        let shorter = matching(entries.take(i - 1), name);
        let longer = matching(entries.take(i), name);
        assert forall|k: int| 0 <= k < longer.len() implies touches(#[trigger] longer[k], name)
            && exists|j: int| 0 <= j < i && #[trigger] entries[j] == longer[k] by {
            if k < shorter.len() {
                assert(longer[k] == shorter[k]);
                let j = choose|j: int| 0 <= j < i - 1 && #[trigger] entries[j] == shorter[k];
                assert(entries[j] == longer[k]);
            } else {
                assert(entries[i - 1] == longer[k]);
            }
        }
        assert forall|j: int| 0 <= j < i && touches(#[trigger] entries[j], name) implies longer.contains(
            entries[j],
        ) by {
            if j < i - 1 {
                let k = choose|k: int| 0 <= k < shorter.len() && shorter[k] == entries[j];
                assert(longer[k] == entries[j]);
            } else {
                assert(longer[longer.len() - 1] == entries[j]);
            }
        }
        if unique_keys(entries) {
            assert forall|a: int, b: int| 0 <= a < b < longer.len() implies (#[trigger] longer[a]).0
                != (#[trigger] longer[b]).0 by {
                if b < shorter.len() {
                    assert(longer[a] == shorter[a]);
                    assert(longer[b] == shorter[b]);
                } else {
                    assert(longer[a] == shorter[a]);
                    let j = choose|j: int| 0 <= j < i - 1 && #[trigger] entries[j] == shorter[a];
                    assert(entries[j].0 != entries[i - 1].0);
                }
            }
        }
    }
}

/// A port that appears is answered with exactly one connect command for each
/// entry that starts or ends at it: the commands are the matching entries, in
/// table order, each entry that starts or ends at the port is among them, and
/// none of them is there twice.
pub proof fn lemma_one_command_per_match(entries: Seq<Wire>, name: Seq<char>)
    requires
        unique_keys(entries),
    ensures
        registration_commands(entries, name, true).len() == matching(entries, name).len(),
        forall|k: int|
            0 <= k < matching(entries, name).len() ==> #[trigger] registration_commands(
                entries,
                name,
                true,
            )[k] == GraphOp::Connect(matching(entries, name)[k].0, matching(entries, name)[k].1),
        forall|k: int|
            0 <= k < matching(entries, name).len() ==> touches(
                #[trigger] matching(entries, name)[k],
                name,
            ) && entries.contains(matching(entries, name)[k]),
        forall|j: int|
            0 <= j < entries.len() && touches(#[trigger] entries[j], name) ==> matching(
                entries,
                name,
            ).contains(entries[j]),
        unique_keys(matching(entries, name)),
{
    lemma_matching_members(entries, name, entries.len() as int);
    assert(entries.take(entries.len() as int) =~= entries);
    assert forall|k: int| 0 <= k < matching(entries, name).len() implies entries.contains(
        #[trigger] matching(entries, name)[k],
    ) by {
        let j = choose|j: int|
            0 <= j < entries.len() && #[trigger] entries[j] == matching(entries, name)[k];
        assert(entries[j] == matching(entries, name)[k]);
    }
}

/// A port that no entry starts or ends at calls for no command, and neither
/// does a port that has gone.
pub proof fn lemma_unrelated_port(entries: Seq<Wire>, name: Seq<char>, is_registered: bool)
    requires
        !is_registered || forall|j: int|
            0 <= j < entries.len() ==> !touches(#[trigger] entries[j], name),
    ensures
        registration_commands(entries, name, is_registered) == Seq::<GraphOp>::empty(),
{
    if is_registered {
        lemma_matching_members(entries, name, entries.len() as int);
        assert(entries.take(entries.len() as int) =~= entries);
        let found = matching(entries, name);
        if found.len() > 0 {
            let j = choose|j: int| 0 <= j < entries.len() && #[trigger] entries[j] == found[0];
            assert(touches(entries[j], name));
        }
        assert(connect_ops(found) =~= Seq::<GraphOp>::empty());
    }
}

/// How the configured pairs grow when the channels are read one further.
proof fn lemma_configured_step(channels: Seq<PortView>, i: int)
    requires
        0 <= i < channels.len(),
    ensures
        configured_pairs(channels.take(i + 1)) == match channels[i].ports {
            Some(pair) => configured_pairs(channels.take(i)).push(pair),
            None => configured_pairs(channels.take(i)),
        },
{
    assert(channels.take(i + 1).drop_last() =~= channels.take(i));
    match channels[i].ports {
        Some(pair) => {
            assert(configured_pairs(channels.take(i)) + seq![pair] =~= configured_pairs(
                channels.take(i),
            ).push(pair));
        },
        None => {},
    }
}

/// The port pairs of the channels that have one, in channel order.
fn configured_targets(channels: &Vec<Port>) -> (targets: Vec<StereoPort>)
    ensures
        pairs_of(targets@) == configured_pairs(channels_of(channels@)),
{
    let mut targets: Vec<StereoPort> = Vec::new();
    let mut i: usize = 0;
    while i < channels.len()
        invariant
            i <= channels@.len(),
            pairs_of(targets@) == configured_pairs(channels_of(channels@).take(i as int)),
        decreases channels@.len() - i,
    {
        proof {
            lemma_configured_step(channels_of(channels@), i as int);
        }
        match &channels[i].ports {
            Some(names) => {
                let ghost earlier = targets@;
                let pair = StereoPort::new(names[0].as_str(), names[1].as_str());
                targets.push(pair);
                assert(pairs_of(targets@) =~= pairs_of(earlier).push(pair@));
            },
            None => {},
        }
        i = i + 1;
    }
    assert(channels_of(channels@).take(i as int) =~= channels_of(channels@));
    targets
}

/// The port pair of the output channel, where one is configured and has one.
fn output_target(output: &Option<Port>) -> (target: Option<StereoPort>)
    ensures
        target is Some <==> output_pair(channel_of(*output)) is Some,
        target matches Some(pair) ==> output_pair(channel_of(*output)) == Some(pair@),
{
    match output {
        Some(channel) => match &channel.ports {
            Some(names) => Some(StereoPort::new(names[0].as_str(), names[1].as_str())),
            None => None,
        },
        None => None,
    }
}

/// The links that a client with the registered ports `in_ports` and
/// `out_ports` is to have under `spec`, in the order in which they are to be
/// made: for each configured input pair the link to the client's input pair of
/// the same rank, then the links from the client's first output pair to the
/// configured output pair. Nothing is refused: a trailing unpaired port, and
/// what one side has more than the other, is left out.
pub fn connect_ports(in_ports: &[String], out_ports: &[String], spec: &PortSpec) -> (plan: Vec<
    PortPair,
>)
    ensures
        wires_of(plan@) == client_wires(
            names_of(in_ports@),
            names_of(out_ports@),
            channels_of(spec.0@),
            channel_of(spec.1),
        ),
{
    let inputs = pair_up(in_ports);
    let outputs = pair_up(out_ports);
    let in_targets = configured_targets(&spec.0);
    let out_target = output_target(&spec.1);
    let ghost wires = input_wires(pairs_of(in_targets@), pairs_of(inputs@));
    let input_len: usize = if in_targets.len() <= inputs.len() {
        in_targets.len()
    } else {
        inputs.len()
    };
    let mut plan: Vec<PortPair> = Vec::new();
    let mut i: usize = 0;
    while i < input_len
        invariant
            wires == input_wires(pairs_of(in_targets@), pairs_of(inputs@)),
            input_len <= in_targets@.len(),
            input_len <= inputs@.len(),
            wires.len() == 2 * input_len,
            i <= input_len,
            wires_of(plan@) == wires.take(2 * i),
        decreases input_len - i,
    {
        let target = &in_targets[i];
        let input = &inputs[i];
        let left = PortPair::new(target.index(0).as_str(), input.index(0).as_str());
        let right = PortPair::new(target.index(1).as_str(), input.index(1).as_str());
        let ghost earlier = plan@;
        plan.push(left);
        plan.push(right);
        proof {
            assert(pairs_of(in_targets@)[i as int] == target@);
            assert(pairs_of(inputs@)[i as int] == input@);
            assert(wires_of(plan@) =~= wires_of(earlier).push(left@).push(right@));
            assert(wires.take(2 * i + 2) =~= wires.take(2 * i).push(wires[2 * i]).push(
                wires[2 * i + 1],
            ));
        }
        i = i + 1;
    }
    assert(wires.take(2 * i) =~= wires);
    match out_target {
        Some(target) => {
            if outputs.len() > 0 {
                let output = &outputs[0];
                let left = PortPair::new(output.index(0).as_str(), target.index(0).as_str());
                let right = PortPair::new(output.index(1).as_str(), target.index(1).as_str());
                let ghost earlier = plan@;
                plan.push(left);
                plan.push(right);
                proof {
                    assert(pairs_of(outputs@)[0] == output@);
                    assert(wires_of(plan@) =~= wires_of(earlier) + stereo_wires(
                        output@,
                        target@,
                    ));
                }
            } else {
                assert(wires_of(plan@) + Seq::<Wire>::empty() =~= wires_of(plan@));
            }
        },
        None => {
            assert(wires_of(plan@) + Seq::<Wire>::empty() =~= wires_of(plan@));
        },
    }
    plan
}

/// What the caller of `ConnectionMap::_connect_all` is to do next.
#[derive(Debug, Clone, Copy, PartialEq, Eq)]
pub enum ConnectStep<'a> {
    /// Make this call, then ask again with its outcome.
    Call(GraphCall<'a>),
    /// Every entry has been attempted.
    Done,
    /// The last call failed and the run is strict: give that failure back.
    Failed,
}

/// The desired links of an audio client, with the producing end of the command
/// channel through which the connect commands leave.
///
/// The table holds each source port once, in the order in which the sources
/// were first recorded.
#[derive(Debug)]
pub struct ConnectionMap {
    conns: Vec<PortPair>,
    command_tx: rtrb::Producer<Command>,
}

impl View for ConnectionMap {
    type V = Map<Seq<char>, Seq<char>>;

    /// The table as a mapping from each source port to its destination.
    open spec fn view(&self) -> Map<Seq<char>, Seq<char>> {
        wire_map(self.entries())
    }
}

impl ConnectionMap {
    /// The table's entries, in the order in which they are walked.
    pub closed spec fn entries(&self) -> Seq<Wire> {
        wires_of(self.conns@)
    }

    /// The commands that the handler has sent and not yet seen consumed.
    pub closed spec fn backlog(&self) -> Seq<GraphOp> {
        producer_backlog(self.command_tx)
    }

    /// The capacity of the command channel that the handler sends into.
    pub closed spec fn capacity(&self) -> nat {
        producer_capacity(self.command_tx)
    }

    /// No port is the source of two entries.
    pub open spec fn wf(&self) -> bool {
        unique_keys(self.entries())
    }

    /// An empty table with a new command channel of `COMMAND_CAPACITY` slots,
    /// and the consuming end of that channel.
    pub fn new() -> (made: (Self, rtrb::Consumer<Command>))
        ensures
            made.0.wf(),
            made.0.entries() == Seq::<Wire>::empty(),
            made.0@ == Map::<Seq<char>, Seq<char>>::empty(),
            made.0.backlog() == Seq::<GraphOp>::empty(),
            made.0.capacity() == COMMAND_CAPACITY,
    {
        let (command_tx, command_rx) = ring_with_capacity(COMMAND_CAPACITY);
        (Self::with_command_tx(command_tx), command_rx)
    }

    /// An empty table that sends its commands into `command_tx`.
    pub fn with_command_tx(command_tx: rtrb::Producer<Command>) -> (map: Self)
        ensures
            map.wf(),
            map.entries() == Seq::<Wire>::empty(),
            map@ == Map::<Seq<char>, Seq<char>>::empty(),
            map.backlog() == producer_backlog(command_tx),
            map.capacity() == producer_capacity(command_tx),
    {
        let map = ConnectionMap { conns: Vec::new(), command_tx };
        assert(map.entries() =~= Seq::<Wire>::empty());
        assert(map@ =~= Map::<Seq<char>, Seq<char>>::empty());
        map
    }

    /// Records the link from `from` to `to`.
    fn insert(&mut self, from: &String, to: &String)
        requires
            old(self).wf(),
        ensures
            final(self).wf(),
            final(self).entries() == insert_entry(old(self).entries(), (from@, to@)),
            final(self).command_tx == old(self).command_tx,
    {
        let ghost before = *self;
        let ghost wire: Wire = (from@, to@);
        let mut i: usize = 0;
        while i < self.conns.len()
            invariant
                *self == before,
                before == *old(self),
                before.wf(),
                wire == (from@, to@),
                i <= self.conns@.len(),
                forall|j: int| 0 <= j < i ==> (#[trigger] wires_of(self.conns@)[j]).0 != from@,
            decreases self.conns@.len() - i,
        {
            if *self.conns[i].from_port() == *from {
                let pair = PortPair::new(from.as_str(), to.as_str());
                self.conns.set(i, pair);
                proof {
                    let earlier = before.entries();
                    let later = insert_entry(earlier, wire);
                    assert(earlier[i as int] == before.conns@[i as int]@);
                    assert(earlier[i as int].0 == wire.0);
                    assert(has_key(earlier, wire.0));
                    assert forall|j: int| 0 <= j < earlier.len() implies #[trigger] self.entries()[j]
                        == later[j] by {
                        if j != i {
                            assert(self.conns@[j] == before.conns@[j]);
                            assert(earlier[j].0 != earlier[i as int].0);
                        }
                    }
                    assert(self.entries() =~= later);
                    lemma_insert_keeps_unique(earlier, wire);
                }
                return ;
            }
            i = i + 1;
        }
        let pair = PortPair::new(from.as_str(), to.as_str());
        self.conns.push(pair);
        proof {
            assert(!has_key(before.entries(), wire.0));
            assert(self.entries() =~= insert_entry(before.entries(), wire));
            lemma_insert_keeps_unique(before.entries(), wire);
        }
    }

    /// Records the two links of a stereo wiring from `from_port` to `to_port`:
    /// left to left, then right to right.
    pub fn insert_stereo(&mut self, from_port: &StereoPort, to_port: &StereoPort)
        requires
            old(self).wf(),
        ensures
            final(self).wf(),
            final(self).entries() == insert_entry(
                insert_entry(old(self).entries(), (from_port@.0, to_port@.0)),
                (from_port@.1, to_port@.1),
            ),
            final(self)@ == old(self)@.insert(from_port@.0, to_port@.0).insert(
                from_port@.1,
                to_port@.1,
            ),
            final(self).backlog() == old(self).backlog(),
            final(self).capacity() == old(self).capacity(),
    {
        proof {
            let left = (from_port@.0, to_port@.0);
            lemma_insert_is_map_insert(self.entries(), left);
            lemma_insert_keeps_unique(self.entries(), left);
            lemma_insert_is_map_insert(
                insert_entry(self.entries(), left),
                (from_port@.1, to_port@.1),
            );
        }
        self.insert(from_port.index(0), to_port.index(0));
        self.insert(from_port.index(1), to_port.index(1));
    }

    /// Builds the table of a client from the names of its registered input
    /// and output ports and from the configured channels, over a new command
    /// channel whose consuming end is returned with it.
    ///
    /// Both name sequences are grouped into stereo pairs; one of odd length
    /// is refused. The links of `client_wires` are then recorded in order.
    /// Configured channels beyond the registered pairs are left unused.
    pub fn from_ports_and_spec(in_ports: &[String], out_ports: &[String], spec: &PortSpec) -> (result:
        Result<(Self, rtrb::Consumer<Command>), WiringError>)
        ensures
            result is Ok <==> in_ports@.len() % 2 == 0 && out_ports@.len() % 2 == 0,
            result matches Err(error) ==> error == WiringError::InvalidPortCount,
            result matches Ok(made) ==> {
                &&& made.0.wf()
                &&& made.0.entries() == table_of(
                    client_wires(
                        names_of(in_ports@),
                        names_of(out_ports@),
                        channels_of(spec.0@),
                        channel_of(spec.1),
                    ),
                )
                &&& made.0@ == map_of_wires(
                    client_wires(
                        names_of(in_ports@),
                        names_of(out_ports@),
                        channels_of(spec.0@),
                        channel_of(spec.1),
                    ),
                )
                &&& made.0.backlog() == Seq::<GraphOp>::empty()
                &&& made.0.capacity() == COMMAND_CAPACITY
            },
    {
        proof {
            lemma_table_is_map(
                client_wires(
                    names_of(in_ports@),
                    names_of(out_ports@),
                    channels_of(spec.0@),
                    channel_of(spec.1),
                ),
            );
        }
        let (mut map, command_rx) = Self::new();
        let inputs = match ports_to_stereo(in_ports) {
            Ok(pairs) => pairs,
            Err(error) => {
                return Err(error);
            },
        };
        let outputs = match ports_to_stereo(out_ports) {
            Ok(pairs) => pairs,
            Err(error) => {
                return Err(error);
            },
        };
        let in_targets = configured_targets(&spec.0);
        let out_target = output_target(&spec.1);
        let ghost wires = input_wires(pairs_of(in_targets@), pairs_of(inputs@));
        let input_map_len: usize = if in_targets.len() <= inputs.len() {
            in_targets.len()
        } else {
            inputs.len()
        };
        let mut i: usize = 0;
        while i < input_map_len
            invariant
                wires == input_wires(pairs_of(in_targets@), pairs_of(inputs@)),
                input_map_len <= in_targets@.len(),
                input_map_len <= inputs@.len(),
                wires.len() == 2 * input_map_len,
                i <= input_map_len,
                map.wf(),
                map.entries() == table_of(wires.take(2 * i)),
                map.backlog() == Seq::<GraphOp>::empty(),
                map.capacity() == COMMAND_CAPACITY,
            decreases input_map_len - i,
        {
            proof {
                assert(pairs_of(in_targets@)[i as int] == in_targets@[i as int]@);
                assert(pairs_of(inputs@)[i as int] == inputs@[i as int]@);
                assert(wires.take(2 * i + 2) =~= wires.take(2 * i).push(wires[2 * i]).push(
                    wires[2 * i + 1],
                ));
                lemma_table_push(wires.take(2 * i), wires[2 * i]);
                lemma_table_push(wires.take(2 * i).push(wires[2 * i]), wires[2 * i + 1]);
            }
            map.insert_stereo(&in_targets[i], &inputs[i]);
            i = i + 1;
        }
        assert(wires.take(2 * i) =~= wires);
        match out_target {
            Some(target) => {
                if outputs.len() > 0 {
                    proof {
                        let left = (outputs@[0]@.0, target@.0);
                        let right = (outputs@[0]@.1, target@.1);
                        assert(pairs_of(outputs@)[0] == outputs@[0]@);
                        assert(wires + stereo_wires(outputs@[0]@, target@) =~= wires.push(
                            left,
                        ).push(right));
                        lemma_table_push(wires, left);
                        lemma_table_push(wires.push(left), right);
                    }
                    map.insert_stereo(&outputs[0], &target);
                } else {
                    assert(wires + Seq::<Wire>::empty() =~= wires);
                }
            },
            None => {
                assert(wires + Seq::<Wire>::empty() =~= wires);
            },
        }
        Ok((map, command_rx))
    }

    /// One step of connecting every entry of the table, in table order.
    ///
    /// `attempted` is the number of calls that the caller has made so far and
    /// `last_succeeded` the outcome of the latest of them. A strict run ends
    /// with the first call that fails; a run that is not strict goes on to the
    /// next entry whatever the outcome.
    pub fn _connect_all(&self, strict: bool, attempted: usize, last_succeeded: bool) -> (step:
        ConnectStep<'_>)
        ensures
            strict && attempted > 0 && !last_succeeded ==> step == ConnectStep::Failed,
            !(strict && attempted > 0 && !last_succeeded) && attempted >= self.entries().len()
                ==> step == ConnectStep::Done,
            !(strict && attempted > 0 && !last_succeeded) && attempted < self.entries().len()
                ==> (step matches ConnectStep::Call(call) && call@ == GraphOp::Connect(
                self.entries()[attempted as int].0,
                self.entries()[attempted as int].1,
            )),
    {
        if strict && attempted > 0 && !last_succeeded {
            ConnectStep::Failed
        } else if attempted < self.conns.len() {
            assert(self.entries()[attempted as int] == self.conns@[attempted as int]@);
            ConnectStep::Call(self.conns[attempted].connect())
        } else {
            ConnectStep::Done
        }
    }

    /// The entries of the table, in the order in which they are walked.
    pub fn _connections(&self) -> (pairs: &Vec<PortPair>)
        ensures
            wires_of(pairs@) == self.entries(),
    {
        &self.conns
    }

    /// Reacts to a port of the audio graph that has appeared
    /// (`is_registered`) or gone. For a port that has appeared, one connect
    /// command per entry that starts or ends at it is offered to the command
    /// channel, in table order; a command that the channel does not accept is
    /// dropped. A port that has gone calls for nothing. Returns the number of
    /// commands that the channel accepted.
    ///
    /// While the backlog and the commands together stay within the channel's
    /// capacity, every command is accepted, whatever the consumer does.
    pub fn port_registration(&mut self, port_name: &str, is_registered: bool) -> (accepted: usize)
        requires
            old(self).wf(),
        ensures
            final(self).wf(),
            final(self).entries() == old(self).entries(),
            final(self).capacity() == old(self).capacity(),
            accepted <= registration_commands(
                old(self).entries(),
                port_name@,
                is_registered,
            ).len(),
            registration_commands(old(self).entries(), port_name@, is_registered).len() == 0
                ==> final(self).backlog() == old(self).backlog(),
            old(self).backlog().len() + registration_commands(
                old(self).entries(),
                port_name@,
                is_registered,
            ).len() <= old(self).capacity() ==> accepted == registration_commands(
                old(self).entries(),
                port_name@,
                is_registered,
            ).len() && final(self).backlog() == old(self).backlog() + registration_commands(
                old(self).entries(),
                port_name@,
                is_registered,
            ),
    {
        if !is_registered {
            assert(self.backlog() + Seq::<GraphOp>::empty() =~= self.backlog());
            return 0;
        }
        let ghost before = *self;
        let ghost entries = self.entries();
        let ghost all = connect_ops(matching(entries, port_name@));
        let name = port_name.to_owned();
        let mut accepted: usize = 0;
        let mut i: usize = 0;
        proof {
            reveal_with_fuel(Seq::filter, 1);
            assert(entries.take(0) =~= Seq::<Wire>::empty());
            assert(matching(entries.take(0), port_name@) =~= Seq::<Wire>::empty());
            assert(before.backlog() + connect_ops(matching(entries.take(0), port_name@))
                =~= before.backlog());
        }
        while i < self.conns.len()
            invariant
                self.conns == before.conns,
                entries == wires_of(self.conns@),
                all == connect_ops(matching(entries, port_name@)),
                name@ == port_name@,
                i <= self.conns@.len(),
                producer_capacity(self.command_tx) == producer_capacity(before.command_tx),
                accepted <= connect_ops(matching(entries.take(i as int), port_name@)).len() <= i,
                connect_ops(matching(entries.take(i as int), port_name@)).len() == 0
                    ==> producer_backlog(self.command_tx) == producer_backlog(before.command_tx),
                producer_backlog(before.command_tx).len() + all.len() <= producer_capacity(
                    before.command_tx,
                ) ==> accepted == connect_ops(matching(entries.take(i as int), port_name@)).len()
                    && producer_backlog(self.command_tx) == producer_backlog(before.command_tx)
                    + connect_ops(matching(entries.take(i as int), port_name@)),
            decreases self.conns@.len() - i,
        {
            proof {
                lemma_matching_step(entries, port_name@, i as int);
                lemma_matching_prefix(entries, port_name@, i as int + 1);
            }
            let pair = &self.conns[i];
            if *pair.from_port() == name || *pair.to_port() == name {
                let command = Command::Connect(
                    PortPair::new(pair.from_port().as_str(), pair.to_port().as_str()),
                );
                let ghost sent = connect_ops(matching(entries.take(i as int), port_name@));
                assert(connect_ops(matching(entries.take(i as int + 1), port_name@)) =~= sent.push(
                    command@,
                ));
                let taken = try_push(&mut self.command_tx, command);
                if taken {
                    accepted = accepted + 1;
                }
                assert(producer_backlog(before.command_tx) + sent.push(command@) =~= (
                producer_backlog(before.command_tx) + sent).push(command@));
            }
            i = i + 1;
        }
        assert(entries.take(i as int) =~= entries);
        accepted
    }
}

} // verus!
