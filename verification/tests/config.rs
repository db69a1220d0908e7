use relayer_framework::config::{
    default_gas, default_timeout, Connection, ConnectionEnd, Direction, GlobalConfig, RelayPath,
    Strategy,
};
use std::time::Duration;

#[test]
fn the_default_timeout_is_ten_seconds() {
    assert_eq!(default_timeout(), Duration::from_secs(10));
    assert_eq!(default_timeout().as_millis(), 10_000);
}

#[test]
fn the_default_gas_is_two_hundred_thousand() {
    assert_eq!(default_gas(), 200_000);
}

#[test]
fn the_default_strategy_is_naive() {
    assert!(matches!(Strategy::default(), Strategy::Naive));
}

#[test]
fn the_default_direction_is_bidirectional() {
    assert!(matches!(Direction::default(), Direction::Bidirectional));
}

#[test]
fn the_default_global_config_has_the_default_timeout_and_strategy() {
    let config = GlobalConfig::default();
    assert_eq!(config.timeout, Duration::from_secs(10));
    assert!(matches!(config.strategy, Strategy::Naive));
}

#[test]
fn a_global_config_is_cloned_field_by_field() {
    let config = GlobalConfig { timeout: Duration::from_secs(3), strategy: Strategy::Naive };
    let copy = config.clone();
    assert_eq!(copy.timeout, Duration::from_secs(3));
    assert!(matches!(copy.strategy, Strategy::Naive));
}

#[test]
fn a_connection_holds_its_ends_and_paths() {
    let connection = Connection {
        src: Some(ConnectionEnd {
            client_id: String::from("clA1"),
            connection_id: Some(String::from("connA1")),
        }),
        dest: None,
        paths: Some(vec![RelayPath {
            src_port: Some(String::from("portA1")),
            dest_port: None,
            direction: Direction::Unidirectional,
        }]),
    };
    let copy = connection.clone();
    let src = copy.src.unwrap();
    assert_eq!(src.client_id, "clA1");
    assert_eq!(src.connection_id.as_deref(), Some("connA1"));
    assert!(copy.dest.is_none());
    let paths = copy.paths.unwrap();
    assert_eq!(paths.len(), 1);
    assert_eq!(paths[0].src_port.as_deref(), Some("portA1"));
    assert!(paths[0].dest_port.is_none());
    assert!(matches!(paths[0].direction, Direction::Unidirectional));
}
