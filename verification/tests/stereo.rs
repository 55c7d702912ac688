use studiox_switcher::command::GraphCall;
use studiox_switcher::stereo::{pair_up, ports_to_stereo, StereoPort, WiringError};

fn names(list: &[&str]) -> Vec<String> {
    list.iter().map(|s| s.to_string()).collect()
}

#[test]
fn even_count_is_paired_in_order() {
    let ports = names(&["a", "b", "c", "d", "e", "f"]);
    let pairs = ports_to_stereo(&ports).unwrap();
    assert_eq!(pairs.len(), 3);
    assert_eq!(pairs[0].names(), &["a".to_string(), "b".to_string()]);
    assert_eq!(pairs[1].names(), &["c".to_string(), "d".to_string()]);
    assert_eq!(pairs[2].names(), &["e".to_string(), "f".to_string()]);
}

#[test]
fn odd_count_is_refused() {
    let ports = names(&["a", "b", "c"]);
    assert_eq!(ports_to_stereo(&ports).err(), Some(WiringError::InvalidPortCount));
    let one = names(&["a"]);
    assert_eq!(ports_to_stereo(&one).err(), Some(WiringError::InvalidPortCount));
}

#[test]
fn no_ports_give_no_pairs() {
    let ports: Vec<String> = Vec::new();
    let pairs = ports_to_stereo(&ports).unwrap();
    assert!(pairs.is_empty());
}

#[test]
fn pair_up_leaves_a_trailing_port_out() {
    let ports = names(&["l", "r", "alone"]);
    let pairs = pair_up(&ports);
    assert_eq!(pairs.len(), 1);
    assert_eq!(pairs[0].names(), &["l".to_string(), "r".to_string()]);
}

#[test]
fn stereo_port_new_keeps_both_names() {
    let port = StereoPort::new("left", "right");
    assert_eq!(port.index(0), "left");
    assert_eq!(port.index(1), "right");
    assert_eq!(port.names(), &["left".to_string(), "right".to_string()]);
}

#[test]
fn stereo_port_from_array_and_slice() {
    let owned = StereoPort::from(["a".to_string(), "b".to_string()]);
    assert_eq!(owned.names(), &["a".to_string(), "b".to_string()]);
    let array = ["c".to_string(), "d".to_string()];
    let borrowed = StereoPort::from(&array);
    assert_eq!(borrowed.names(), &array);
    let many = names(&["e", "f", "g"]);
    let first = StereoPort::from_slice(&many);
    assert_eq!(first.names(), &["e".to_string(), "f".to_string()]);
}

#[test]
fn connect_to_links_left_to_left_and_right_to_right() {
    let source = StereoPort::new("src_l", "src_r");
    let sink = StereoPort::new("dst_l", "dst_r");
    let (left, right) = source.connect_to(&sink);
    assert_eq!(left, GraphCall::Connect { from: "src_l", to: "dst_l" });
    assert_eq!(right, GraphCall::Connect { from: "src_r", to: "dst_r" });
}
