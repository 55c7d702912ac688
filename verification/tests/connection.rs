use studiox_switcher::channel::{command_channel, try_pop, COMMAND_CAPACITY};
use studiox_switcher::command::{Command, GraphCall, PortPair};
use studiox_switcher::config::Port;
use studiox_switcher::connection::{connect_ports, ConnectStep, ConnectionMap};
use studiox_switcher::stereo::{StereoPort, WiringError};

fn names(list: &[&str]) -> Vec<String> {
    list.iter().map(|s| s.to_string()).collect()
}

fn channel(left: &str, right: &str) -> Port {
    Port { label: None, ports: Some([left.to_string(), right.to_string()]) }
}

fn table(map: &ConnectionMap) -> Vec<(String, String)> {
    map._connections().iter().map(|p| (p.from_port().clone(), p.to_port().clone())).collect()
}

fn wires(list: &[(&str, &str)]) -> Vec<(String, String)> {
    list.iter().map(|(a, b)| (a.to_string(), b.to_string())).collect()
}

fn drain(rx: &mut rtrb::Consumer<Command>) -> Vec<Command> {
    let mut out = Vec::new();
    while let Some(command) = try_pop(rx) {
        out.push(command);
    }
    out
}

#[test]
fn fallback_and_one_channel_give_four_entries() {
    let inputs = names(&["fallback_L", "fallback_R", "ch1_L", "ch1_R"]);
    let outputs: Vec<String> = Vec::new();
    let spec = (vec![channel("extA_L", "extA_R"), channel("extB_L", "extB_R")], None);
    let (map, _rx) = ConnectionMap::from_ports_and_spec(&inputs, &outputs, &spec).unwrap();
    assert_eq!(
        table(&map),
        wires(&[
            ("extA_L", "fallback_L"),
            ("extA_R", "fallback_R"),
            ("extB_L", "ch1_L"),
            ("extB_R", "ch1_R"),
        ])
    );
}

#[test]
fn excess_configured_channels_are_left_unused() {
    let inputs = names(&["in0", "in1"]);
    let outputs: Vec<String> = Vec::new();
    let spec = (vec![channel("a_l", "a_r"), channel("b_l", "b_r"), channel("c_l", "c_r")], None);
    let (map, _rx) = ConnectionMap::from_ports_and_spec(&inputs, &outputs, &spec).unwrap();
    assert_eq!(table(&map), wires(&[("a_l", "in0"), ("a_r", "in1")]));
}

#[test]
fn excess_registered_ports_are_left_unwired() {
    let inputs = names(&["in0", "in1", "in2", "in3"]);
    let outputs: Vec<String> = Vec::new();
    let spec = (vec![channel("a_l", "a_r")], None);
    let (map, _rx) = ConnectionMap::from_ports_and_spec(&inputs, &outputs, &spec).unwrap();
    assert_eq!(table(&map), wires(&[("a_l", "in0"), ("a_r", "in1")]));
}

#[test]
fn channels_without_ports_do_not_take_a_rank() {
    let inputs = names(&["in0", "in1", "in2", "in3"]);
    let outputs: Vec<String> = Vec::new();
    let spec = (vec![channel("a_l", "a_r"), Port::default(), channel("c_l", "c_r")], None);
    let (map, _rx) = ConnectionMap::from_ports_and_spec(&inputs, &outputs, &spec).unwrap();
    assert_eq!(
        table(&map),
        wires(&[("a_l", "in0"), ("a_r", "in1"), ("c_l", "in2"), ("c_r", "in3")])
    );
}

#[test]
fn nothing_configured_gives_an_empty_table() {
    let inputs = names(&["in0", "in1"]);
    let outputs = names(&["out0", "out1"]);
    let spec = (Vec::new(), None);
    let (map, mut rx) = ConnectionMap::from_ports_and_spec(&inputs, &outputs, &spec).unwrap();
    assert!(table(&map).is_empty());
    assert!(drain(&mut rx).is_empty());
}

#[test]
fn the_output_is_wired_from_the_first_output_pair() {
    let inputs = names(&["in0", "in1"]);
    let outputs = names(&["out0", "out1", "out2", "out3"]);
    let spec = (vec![channel("a_l", "a_r")], Some(channel("play_l", "play_r")));
    let (map, _rx) = ConnectionMap::from_ports_and_spec(&inputs, &outputs, &spec).unwrap();
    assert_eq!(
        table(&map),
        wires(&[("a_l", "in0"), ("a_r", "in1"), ("out0", "play_l"), ("out1", "play_r")])
    );
}

#[test]
fn an_output_without_registered_pair_or_without_ports_is_skipped() {
    let inputs = names(&["in0", "in1"]);
    let none: Vec<String> = Vec::new();
    let spec = (Vec::new(), Some(channel("play_l", "play_r")));
    let (map, _rx) = ConnectionMap::from_ports_and_spec(&inputs, &none, &spec).unwrap();
    assert!(table(&map).is_empty());
    let outputs = names(&["out0", "out1"]);
    let placeholder = (Vec::new(), Some(Port::default()));
    let (map, _rx) = ConnectionMap::from_ports_and_spec(&inputs, &outputs, &placeholder).unwrap();
    assert!(table(&map).is_empty());
}

#[test]
fn odd_port_counts_are_refused() {
    let even = names(&["a", "b"]);
    let odd = names(&["a", "b", "c"]);
    let spec = (vec![channel("x", "y")], None);
    assert_eq!(
        ConnectionMap::from_ports_and_spec(&odd, &even, &spec).err(),
        Some(WiringError::InvalidPortCount)
    );
    assert_eq!(
        ConnectionMap::from_ports_and_spec(&even, &odd, &spec).err(),
        Some(WiringError::InvalidPortCount)
    );
}

#[test]
fn a_source_recorded_twice_keeps_its_place_and_its_last_destination() {
    let (mut map, _rx) = ConnectionMap::new();
    map.insert_stereo(&StereoPort::new("a", "b"), &StereoPort::new("x", "y"));
    map.insert_stereo(&StereoPort::new("c", "a"), &StereoPort::new("z", "w"));
    assert_eq!(table(&map), wires(&[("a", "w"), ("b", "y"), ("c", "z")]));
}

#[test]
fn a_mono_pair_is_one_entry() {
    let (mut map, _rx) = ConnectionMap::new();
    map.insert_stereo(&StereoPort::new("m", "m"), &StereoPort::new("l", "r"));
    assert_eq!(table(&map), wires(&[("m", "r")]));
}

#[test]
fn connect_ports_plans_the_links_in_order() {
    let inputs = names(&["in0", "in1", "in2", "in3", "in4"]);
    let outputs = names(&["out0", "out1", "out2"]);
    let spec = (
        vec![channel("a_l", "a_r"), Port::default(), channel("b_l", "b_r"), channel("c_l", "c_r")],
        Some(channel("play_l", "play_r")),
    );
    let plan = connect_ports(&inputs, &outputs, &spec);
    let expected = vec![
        PortPair::new("a_l", "in0"),
        PortPair::new("a_r", "in1"),
        PortPair::new("b_l", "in2"),
        PortPair::new("b_r", "in3"),
        PortPair::new("out0", "play_l"),
        PortPair::new("out1", "play_r"),
    ];
    assert_eq!(plan, expected);
}

#[test]
fn connect_ports_with_nothing_to_match_plans_nothing() {
    let inputs = names(&["in0"]);
    let outputs = names(&["out0"]);
    let spec = (vec![channel("a_l", "a_r")], Some(channel("play_l", "play_r")));
    assert!(connect_ports(&inputs, &outputs, &spec).is_empty());
}

#[test]
fn a_registered_port_enqueues_one_connect_per_matching_entry() {
    let inputs = names(&["in0", "in1"]);
    let outputs = names(&["out0", "out1"]);
    let spec = (vec![channel("ext_l", "ext_r")], Some(channel("ext_l", "play_r")));
    let (mut map, mut rx) = ConnectionMap::from_ports_and_spec(&inputs, &outputs, &spec).unwrap();
    assert_eq!(map.port_registration("ext_l", true), 2);
    assert_eq!(
        drain(&mut rx),
        vec![
            Command::Connect(PortPair::new("ext_l", "in0")),
            Command::Connect(PortPair::new("out0", "ext_l")),
        ]
    );
    assert_eq!(map.port_registration("in1", true), 1);
    assert_eq!(drain(&mut rx), vec![Command::Connect(PortPair::new("ext_r", "in1"))]);
}

#[test]
fn an_entry_from_a_port_to_itself_gets_one_command() {
    let (mut map, mut rx) = ConnectionMap::new();
    map.insert_stereo(&StereoPort::new("loop", "a"), &StereoPort::new("loop", "b"));
    assert_eq!(map.port_registration("loop", true), 1);
    assert_eq!(drain(&mut rx), vec![Command::Connect(PortPair::new("loop", "loop"))]);
}

#[test]
fn an_unrelated_port_enqueues_nothing() {
    let inputs = names(&["in0", "in1"]);
    let outputs: Vec<String> = Vec::new();
    let spec = (vec![channel("ext_l", "ext_r")], None);
    let (mut map, mut rx) = ConnectionMap::from_ports_and_spec(&inputs, &outputs, &spec).unwrap();
    assert_eq!(map.port_registration("somebody:else", true), 0);
    assert_eq!(map.port_registration("ext", true), 0);
    assert!(drain(&mut rx).is_empty());
}

#[test]
fn a_port_that_goes_enqueues_nothing() {
    let inputs = names(&["in0", "in1"]);
    let outputs: Vec<String> = Vec::new();
    let spec = (vec![channel("ext_l", "ext_r")], None);
    let (mut map, mut rx) = ConnectionMap::from_ports_and_spec(&inputs, &outputs, &spec).unwrap();
    assert_eq!(map.port_registration("ext_l", false), 0);
    assert!(drain(&mut rx).is_empty());
}

#[test]
fn registration_leaves_the_table_as_it_was() {
    let (mut map, _rx) = ConnectionMap::new();
    map.insert_stereo(&StereoPort::new("a", "b"), &StereoPort::new("x", "y"));
    map.port_registration("a", true);
    assert_eq!(table(&map), wires(&[("a", "x"), ("b", "y")]));
}

#[test]
fn commands_beyond_the_capacity_are_dropped() {
    let (mut map, mut rx) = ConnectionMap::new();
    map.insert_stereo(&StereoPort::new("a", "b"), &StereoPort::new("x", "y"));
    for _ in 0..COMMAND_CAPACITY {
        assert_eq!(map.port_registration("a", true), 1);
    }
    assert_eq!(map.port_registration("a", true), 0);
    let queued = drain(&mut rx);
    assert_eq!(queued.len(), COMMAND_CAPACITY);
    assert!(queued.iter().all(|c| *c == Command::Connect(PortPair::new("a", "x"))));
    assert_eq!(map.port_registration("y", true), 1);
    assert_eq!(drain(&mut rx), vec![Command::Connect(PortPair::new("b", "y"))]);
}

#[test]
fn a_table_over_a_given_producer_sends_into_it() {
    let (tx, mut rx) = command_channel(1).unwrap();
    let mut map = ConnectionMap::with_command_tx(tx);
    assert!(table(&map).is_empty());
    map.insert_stereo(&StereoPort::new("a", "b"), &StereoPort::new("x", "x"));
    assert_eq!(map.port_registration("x", true), 1);
    assert_eq!(drain(&mut rx), vec![Command::Connect(PortPair::new("a", "x"))]);
    assert_eq!(map.port_registration("x", true), 1);
    assert_eq!(drain(&mut rx), vec![Command::Connect(PortPair::new("a", "x"))]);
}

#[test]
fn connect_all_walks_the_table() {
    let (mut map, _rx) = ConnectionMap::new();
    map.insert_stereo(&StereoPort::new("a", "b"), &StereoPort::new("x", "y"));
    assert_eq!(
        map._connect_all(false, 0, true),
        ConnectStep::Call(GraphCall::Connect { from: "a", to: "x" })
    );
    assert_eq!(
        map._connect_all(false, 1, false),
        ConnectStep::Call(GraphCall::Connect { from: "b", to: "y" })
    );
    assert_eq!(map._connect_all(false, 2, false), ConnectStep::Done);
    assert_eq!(map._connect_all(false, 3, true), ConnectStep::Done);
}

#[test]
fn a_strict_run_ends_with_the_first_failure() {
    let (mut map, _rx) = ConnectionMap::new();
    map.insert_stereo(&StereoPort::new("a", "b"), &StereoPort::new("x", "y"));
    assert_eq!(
        map._connect_all(true, 0, false),
        ConnectStep::Call(GraphCall::Connect { from: "a", to: "x" })
    );
    assert_eq!(map._connect_all(true, 1, false), ConnectStep::Failed);
    assert_eq!(
        map._connect_all(true, 1, true),
        ConnectStep::Call(GraphCall::Connect { from: "b", to: "y" })
    );
    assert_eq!(map._connect_all(true, 2, false), ConnectStep::Failed);
    assert_eq!(map._connect_all(true, 2, true), ConnectStep::Done);
}

#[test]
fn a_new_table_is_empty_and_its_channel_too() {
    let (map, mut rx) = ConnectionMap::new();
    assert!(map._connections().is_empty());
    assert_eq!(try_pop(&mut rx), None);
}
