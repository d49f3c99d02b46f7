use framewire::upnp::{PortMapping, PORT_RANGE_MAX, PORT_RANGE_MIN};

#[test]
fn whole_range_is_mapped_if_all_goes_well() {
    let mut mapping = PortMapping::new();
    let mut ports = Vec::new();
    while let Some(port) = mapping.next_port() {
        ports.push(port);
        mapping.record(true);
    }
    assert_eq!(ports, (PORT_RANGE_MIN..=PORT_RANGE_MAX).collect::<Vec<u16>>());
    let forward = mapping.finish("203.0.113.9".to_string()).unwrap();
    assert_eq!(forward.external_ip, "203.0.113.9");
    assert_eq!((forward.port_min, forward.port_max), (40000, 40029));
}

#[test]
fn any_failure_gives_up_the_whole_range() {
    let mut mapping = PortMapping::new();
    for _ in 0..10 {
        mapping.record(true);
    }
    assert_eq!(mapping.next_port(), Some(40010));
    mapping.record(false);
    assert_eq!(mapping.next_port(), None);
    assert!(mapping.finish("203.0.113.7".to_string()).is_none());
}

#[test]
fn nothing_is_forwarded_if_the_first_port_fails() {
    let mut mapping = PortMapping::new();
    assert_eq!(mapping.next_port(), Some(40000));
    mapping.record(false);
    assert!(mapping.finish("x".to_string()).is_none());
}
