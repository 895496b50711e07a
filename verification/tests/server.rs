use usbsas_core::server::{bind_address, init_failure};

#[test]
fn the_station_listens_on_host_and_port() {
    assert_eq!(bind_address("127.0.0.1", "8080"), "127.0.0.1:8080");
    assert_eq!(bind_address("", ""), ":");
}

#[test]
fn a_failed_start_names_its_cause() {
    assert_eq!(init_failure("no config"), "couldn't init server data: no config");
}
