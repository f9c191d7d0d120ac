use vesper::serde_utils::{camel_to_snake, snake_to_camel};

#[test]
fn test_snake_to_camel() {
    assert_eq!(snake_to_camel("hello"), "hello");
    assert_eq!(snake_to_camel("hello_world"), "helloWorld");
    assert_eq!(snake_to_camel("connection_id"), "connectionId");
    assert_eq!(snake_to_camel("local_port"), "localPort");
    assert_eq!(snake_to_camel("auto_reconnect"), "autoReconnect");
}

#[test]
fn test_camel_to_snake() {
    assert_eq!(camel_to_snake("hello"), "hello");
    assert_eq!(camel_to_snake("helloWorld"), "hello_world");
    assert_eq!(camel_to_snake("connectionId"), "connection_id");
    assert_eq!(camel_to_snake("localPort"), "local_port");
    assert_eq!(camel_to_snake("autoReconnect"), "auto_reconnect");
}

#[test]
fn snake_to_camel_drops_every_underscore() {
    assert_eq!(snake_to_camel(""), "");
    assert_eq!(snake_to_camel("_"), "");
    assert_eq!(snake_to_camel("_a"), "A");
    assert_eq!(snake_to_camel("a_"), "a");
    assert_eq!(snake_to_camel("a__b"), "aB");
    assert_eq!(snake_to_camel("a_B"), "aB");
    assert_eq!(snake_to_camel("a_1b"), "a1b");
}

#[test]
fn snake_to_camel_upper_case_may_be_longer() {
    assert_eq!(snake_to_camel("stra_\u{df}e"), "straSSe");
}

#[test]
fn camel_to_snake_runs_of_capitals() {
    assert_eq!(camel_to_snake(""), "");
    assert_eq!(camel_to_snake("A"), "a");
    assert_eq!(camel_to_snake("Hello"), "hello");
    assert_eq!(camel_to_snake("parseURL"), "parse_url");
    assert_eq!(camel_to_snake("aBC"), "a_bc");
    assert_eq!(camel_to_snake("aBcD"), "a_bc_d");
    assert_eq!(camel_to_snake("already_snake"), "already_snake");
}

#[test]
fn camel_to_snake_takes_first_lower_case_character() {
    assert_eq!(camel_to_snake("a\u{130}"), "a_i");
}

#[test]
fn snake_and_camel_round_trip_on_field_names() {
    for name in ["connection_id", "local_port", "remote_host", "auto_reconnect", "id"] {
        assert_eq!(camel_to_snake(&snake_to_camel(name)), name);
    }
}
