use vtg::capture::{
    connected_ethernet_device, AdapterInfo, CapturePhase, PcapInstance, StartAction, StopAction,
    HOST_IP,
};

fn adapter(name: &str, addresses: Vec<u32>, connected: bool) -> AdapterInfo {
    AdapterInfo { name: name.to_string(), addresses, connected }
}

#[test]
fn stop_without_start_does_nothing() {
    let mut p = PcapInstance::new("1.1", true);
    assert_eq!(p.stop(), StopAction::NothingToStop);
    assert!(p.workers_settled());
    assert!(!p.is_cancelled());
    assert_eq!(p.phase(), CapturePhase::Created);
    let mut skipped = PcapInstance::new("1.2", false);
    assert_eq!(skipped.start(Some(0)), StartAction::Ignore);
    assert_eq!(skipped.stop(), StopAction::NothingToStop);
    assert_eq!(skipped.phase(), CapturePhase::Skipped);
}

#[test]
fn start_then_stop_cancels_and_joins() {
    let mut p = PcapInstance::new("2.4", true);
    assert_eq!(p.start(Some(3)), StartAction::Spawn(3));
    assert!(!p.workers_settled());
    assert_eq!(p.start(Some(3)), StartAction::Ignore);
    assert_eq!(p.stop(), StopAction::SignalAndJoin);
    assert!(p.is_cancelled());
    assert!(p.workers_settled());
    assert_eq!(p.phase(), CapturePhase::Stopped);
    assert_eq!(p.stop(), StopAction::NothingToStop);
    assert!(p.is_cancelled());
}

#[test]
fn no_adapter_skips_the_capture() {
    let mut p = PcapInstance::new("3.1", true);
    assert_eq!(p.start(None), StartAction::Skip);
    assert_eq!(p.phase(), CapturePhase::Skipped);
    assert_eq!(p.stop(), StopAction::NothingToStop);
}

#[test]
fn adapter_needs_host_address_and_link() {
    let list = vec![
        adapter("wifi", vec![0x0A00_0001], true),
        adapter("eth-down", vec![HOST_IP], false),
        adapter("eth-up", vec![0x7F00_0001, HOST_IP], true),
        adapter("eth-2", vec![HOST_IP], true),
    ];
    assert_eq!(connected_ethernet_device(&list), Some(2));
    assert_eq!(connected_ethernet_device(&list[..2].iter().map(|a| adapter(&a.name, a.addresses.clone(), a.connected)).collect()), None);
    assert_eq!(connected_ethernet_device(&Vec::new()), None);
}

#[test]
fn capture_file_path() {
    let p = PcapInstance::new("4.2b", true);
    assert_eq!(p.output_path(), "pcaps/4.2b.pcap");
    assert_eq!(p.name(), "4.2b");
}
