use bluos::device::command::Command;

#[test]
fn simple_command() {
    let cmd = Command::new("korv", 1515, "Hello");
    let result = cmd.build();
    assert_eq!(result, "http://korv:1515/Hello")
}

#[test]
fn command_build() {
    let mut cmd = Command::new("korv", 10000, "Hello");
    cmd.add_param("int", "123");
    cmd.add_param("string", "lol");
    let result = cmd.build();
    assert!(result.contains("int=123"));
    assert!(result.contains("string=lol"));
}

#[test]
fn command_with_params_has_one_question_mark() {
    let mut cmd = Command::new("host", 11000, "Play");
    cmd.add_param("a", "1");
    cmd.add_param("b", "2");
    let result = cmd.build();
    assert!(result.contains("a=1"));
    assert!(result.contains("b=2"));
    assert_eq!(result.matches('?').count(), 1);
}

#[test]
fn add_param_overwrites_in_place() {
    let mut cmd = Command::new("host", 11000, "Play");
    cmd.add_param("k", "1");
    cmd.add_param("k", "2");
    assert_eq!(cmd.build(), "http://host:11000/Play?k=2&");
}

#[test]
fn add_optional_absent_is_a_no_op() {
    let mut a = Command::new("host", 1, "X");
    a.add_optional("k", None);
    let b = Command::new("host", 1, "X");
    assert_eq!(a.build(), b.build());
}

#[test]
fn add_optional_present_acts_as_add_param() {
    let mut a = Command::new("host", 1, "X");
    a.add_optional("k", Some("v"));
    let mut b = Command::new("host", 1, "X");
    b.add_param("k", "v");
    assert_eq!(a.build(), b.build());
}
