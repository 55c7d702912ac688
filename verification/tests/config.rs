use studiox_switcher::config::{Config, Port};

fn port(label: &str, left: &str, right: &str) -> Port {
    Port { label: Some(label.to_string()), ports: Some([left.to_string(), right.to_string()]) }
}

#[test]
fn default_config_asks_for_nothing() {
    let config = Config::default();
    assert!(config.inputs.is_empty());
    assert!(config.fallback_input.label.is_none());
    assert!(config.fallback_input.ports.is_none());
    assert!(config.output.is_none());
}

#[test]
fn default_port_is_a_placeholder() {
    let port = Port::default();
    assert!(port.label.is_none());
    assert!(port.ports.is_none());
}

#[test]
fn port_spec_puts_the_fallback_first() {
    let config = Config {
        inputs: vec![port("one", "a_l", "a_r"), Port::default(), port("two", "b_l", "b_r")],
        fallback_input: port("fallback", "f_l", "f_r"),
        output: Some(port("out", "o_l", "o_r")),
    };
    let (inputs, output) = config.port_spec();
    assert_eq!(inputs.len(), 4);
    assert_eq!(inputs[0].label.as_deref(), Some("fallback"));
    assert_eq!(inputs[0].ports, Some(["f_l".to_string(), "f_r".to_string()]));
    assert_eq!(inputs[1].label.as_deref(), Some("one"));
    assert_eq!(inputs[2].label, None);
    assert_eq!(inputs[2].ports, None);
    assert_eq!(inputs[3].ports, Some(["b_l".to_string(), "b_r".to_string()]));
    let output = output.unwrap();
    assert_eq!(output.label.as_deref(), Some("out"));
    assert_eq!(output.ports, Some(["o_l".to_string(), "o_r".to_string()]));
}

#[test]
fn port_spec_of_the_default_config_holds_one_placeholder() {
    let (inputs, output) = Config::default().port_spec();
    assert_eq!(inputs.len(), 1);
    assert!(inputs[0].ports.is_none());
    assert!(output.is_none());
}

#[test]
fn clone_copies_every_field() {
    let config = Config {
        inputs: vec![port("one", "a_l", "a_r")],
        fallback_input: port("fallback", "f_l", "f_r"),
        output: None,
    };
    let copy = config.clone();
    assert_eq!(copy.inputs.len(), 1);
    assert_eq!(copy.inputs[0].label, config.inputs[0].label);
    assert_eq!(copy.inputs[0].ports, config.inputs[0].ports);
    assert_eq!(copy.fallback_input.label, config.fallback_input.label);
    assert_eq!(copy.fallback_input.ports, config.fallback_input.ports);
    assert!(copy.output.is_none());
}
