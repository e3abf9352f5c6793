use riemap_backend::config::Config;
use riemap_backend::RiemapError;

#[test]
fn default_configuration_has_the_documented_values() {
    let c = Config::default();
    assert_eq!(c.server.host, "127.0.0.1");
    assert_eq!(c.server.port, 3001);
    assert_eq!(c.server.workers, 4);
    assert_eq!(c.storage.data_dir, "./data");
    assert_eq!(c.storage.temp_dir, "./temp");
    assert_eq!(c.storage.max_file_size, 1_073_741_824);
    assert_eq!(c.processing.max_concurrent_jobs, 2);
    assert_eq!(c.processing.cleanup_interval_hours, 24);
    assert_eq!(c.processing.keep_versions, 10);
}

#[test]
fn default_configuration_is_valid() {
    assert!(Config::default().validate().is_ok());
}

#[test]
fn port_zero_is_rejected() {
    let mut c = Config::default();
    c.server.port = 0;
    match c.validate() {
        Err(RiemapError::Config(m)) => assert_eq!(m, "Invalid port number"),
        _ => panic!("a configuration error was expected"),
    }
}

#[test]
fn zero_workers_are_rejected() {
    let mut c = Config::default();
    c.server.workers = 0;
    match c.validate() {
        Err(RiemapError::Config(m)) => assert_eq!(m, "Workers must be greater than 0"),
        _ => panic!("a configuration error was expected"),
    }
}

#[test]
fn the_port_is_examined_before_the_workers() {
    let mut c = Config::default();
    c.server.port = 0;
    c.server.workers = 0;
    match c.validate() {
        Err(RiemapError::Config(m)) => assert_eq!(m, "Invalid port number"),
        _ => panic!("a configuration error was expected"),
    }
}

#[test]
fn every_error_names_its_kind() {
    assert_eq!(
        RiemapError::OsmProcessing("a".to_string()).message(),
        "OSM processing error: a"
    );
    assert_eq!(RiemapError::Storage("b".to_string()).message(), "Storage error: b");
    assert_eq!(RiemapError::Network("c".to_string()).message(), "Network error: c");
    assert_eq!(
        RiemapError::Quality("d".to_string()).message(),
        "Quality analysis error: d"
    );
    assert_eq!(
        RiemapError::Config("e".to_string()).message(),
        "Configuration error: e"
    );
}

#[test]
fn cloned_error_keeps_kind_and_detail() {
    let e = RiemapError::Network("down".to_string());
    match e.clone() {
        RiemapError::Network(m) => assert_eq!(m, "down"),
        _ => panic!("a network error was expected"),
    }
}
