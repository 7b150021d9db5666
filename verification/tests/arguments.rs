use mist::arguments::{find_target, read_setting, ArgumentParser};

fn command_line(arguments: &[&str]) -> Vec<String> {
    arguments.iter().map(|argument| argument.to_string()).collect()
}

fn pair(name: &str, value: &str) -> Option<(String, String)> {
    Some((name.to_string(), value.to_string()))
}

#[test]
fn settings_are_split_at_the_first_equals_sign() {
    assert_eq!(read_setting("--target=a.exe"), pair("target", "a.exe"));
    assert_eq!(read_setting("--x=a=b"), pair("x", "a=b"));
    assert_eq!(read_setting("--=v"), pair("", "v"));
    assert_eq!(read_setting("--x="), pair("x", ""));
    assert_eq!(read_setting("---x=é"), pair("-x", "é"));
}

#[test]
fn other_arguments_are_no_settings() {
    for argument in ["", "-", "--", "--target", "-target=a", "target=a", "a--b=c"] {
        assert_eq!(read_setting(argument), None);
    }
}

#[test]
fn handlers_get_their_values_in_order() {
    let mut parser = ArgumentParser::new();
    parser.on("target", 0);
    parser.on("log", 1);
    let calls = parser.parse(&command_line(&[
        "mist.exe", "--log=on", "--other=1", "--target=a", "--target=b", "--target",
    ]));
    assert_eq!(
        calls,
        vec![(1, "on".to_string()), (0, "a".to_string()), (0, "b".to_string())]
    );
}

#[test]
fn a_later_handler_takes_the_place_of_an_earlier_one() {
    let mut parser = ArgumentParser::new();
    parser.on("target", 0);
    parser.on("target", 5);
    assert_eq!(parser.parse(&command_line(&["--target=a"])), vec![(5, "a".to_string())]);
}

#[test]
fn without_handlers_nothing_is_called() {
    assert_eq!(ArgumentParser::new().parse(&command_line(&["--target=a"])), vec![]);
}

#[test]
fn the_first_target_is_found() {
    assert_eq!(
        find_target(&command_line(&["mist.exe", "--log=x", "--target=a=b", "--target=c"])),
        Some("a=b".to_string())
    );
    assert_eq!(find_target(&command_line(&["--target="])), Some(String::new()));
}

#[test]
fn without_a_target_none_is_found() {
    assert_eq!(find_target(&command_line(&[])), None);
    assert_eq!(find_target(&command_line(&["--target", "--targets=a", "-target=b"])), None);
}

#[test]
fn the_target_found_is_the_first_one_handled() {
    let arguments = command_line(&["x", "--a=1", "--target=one", "--target=two"]);
    let mut parser = ArgumentParser::new();
    parser.on("target", 9);
    let first = parser.parse(&arguments).remove(0);
    assert_eq!(first, (9, find_target(&arguments).unwrap()));
}
