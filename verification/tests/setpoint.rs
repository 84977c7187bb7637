use embedded_cli::cli_temperature_setpoint;
use heapless::{String, Vec};

fn run(tokens: &[&str]) -> std::string::String {
    let mut list: Vec<&str, 8> = Vec::new();
    for token in tokens {
        list.push(token).unwrap();
    }
    let mut out: String<1028> = String::new();
    cli_temperature_setpoint(&list, &mut out);
    std::string::String::from(out.as_str())
}

#[test]
fn setpoint_without_argument() {
    assert_eq!(run(&["temperature_setpoint"]), "Missing parameter\r\n");
}

#[test]
fn setpoint_set_with_value() {
    assert_eq!(run(&["temperature_setpoint", "set", "21"]), "Setting temperature setpoint to 21\r\n");
    assert_eq!(run(&["temperature_setpoint", "set", ""]), "Setting temperature setpoint to \r\n");
}

#[test]
fn setpoint_set_needs_exactly_one_value() {
    assert_eq!(run(&["temperature_setpoint", "set"]), "Missing parameter\r\n");
    assert_eq!(run(&["temperature_setpoint", "set", "21", "22"]), "Missing parameter\r\n");
}

#[test]
fn setpoint_get() {
    assert_eq!(run(&["temperature_setpoint", "get"]), "Getting temperature setpoint\r\n");
    assert_eq!(run(&["temperature_setpoint", "get", "more"]), "Getting temperature setpoint\r\n");
}

#[test]
fn setpoint_default() {
    assert_eq!(
        run(&["temperature_setpoint", "default"]),
        "Setting temperature setpoint to default\r\n"
    );
}

#[test]
fn setpoint_unknown_control() {
    assert_eq!(run(&["temperature_setpoint", "reset"]), "Unknown parameter\r\n");
    assert_eq!(run(&["temperature_setpoint", "Set", "1"]), "Unknown parameter\r\n");
    assert_eq!(run(&["temperature_setpoint", ""]), "Unknown parameter\r\n");
}

#[test]
fn setpoint_appends_to_what_is_there() {
    let mut list: Vec<&str, 8> = Vec::new();
    list.push("temperature_setpoint").unwrap();
    list.push("get").unwrap();
    let mut out: String<1028> = String::new();
    out.push_str("\r\n").unwrap();
    cli_temperature_setpoint(&list, &mut out);
    assert_eq!(out.as_str(), "\r\nGetting temperature setpoint\r\n");
}

#[test]
fn setpoint_value_that_does_not_fit_is_left_out() {
    let mut list: Vec<&str, 8> = Vec::new();
    list.push("temperature_setpoint").unwrap();
    list.push("set").unwrap();
    list.push("1234567890").unwrap();
    let mut out: String<1028> = String::new();
    for _ in 0..990 {
        out.push('.').unwrap();
    }
    cli_temperature_setpoint(&list, &mut out);
    assert_eq!(out.len(), 990 + 32 + 2);
    assert!(out.as_str().ends_with(".Setting temperature setpoint to \r\n"));
}
