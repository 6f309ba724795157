use env_wrapper::{text_value, Environment, FakeEnvironment, VarError};

const CONFIG_LOCATION_ENV_VAR_NAME: &str = "CONFIG_LOCATION";
const DEFAULT_CONFIG_LOCATION: &str = "/etc/my_app/service.conf";

fn get_config_location(env: &impl Environment) -> String {
    match env.var(CONFIG_LOCATION_ENV_VAR_NAME.as_bytes()) {
        Ok(location) => location,
        _ => DEFAULT_CONFIG_LOCATION.to_string(),
    }
}

#[test]
fn config_location_set_by_the_user_is_used() {
    let mut env = FakeEnvironment::new();
    let user_specified_location = "/a/user/specified/location";
    env.set_var(CONFIG_LOCATION_ENV_VAR_NAME.as_bytes(), user_specified_location.as_bytes());

    assert_eq!(get_config_location(&env), user_specified_location);
}

#[test]
fn config_location_defaults_when_unset() {
    let env = FakeEnvironment::new();

    assert_eq!(get_config_location(&env), DEFAULT_CONFIG_LOCATION);
}

#[test]
fn text_value_of_nothing_is_not_present() {
    assert_eq!(text_value(None), Err(VarError::NotPresent));
}

#[test]
fn text_value_decodes_multibyte_text() {
    let bytes = vec![0x68, 0xc3, 0xa9, 0x6c, 0x6c, 0x6f, 0xe2, 0x82, 0xac];
    assert_eq!(text_value(Some(bytes)), Ok("héllo€".to_string()));
}

#[test]
fn text_value_of_empty_bytes_is_empty_text() {
    assert_eq!(text_value(Some(Vec::new())), Ok(String::new()));
}

#[test]
fn text_value_keeps_bytes_that_are_not_utf8() {
    let lone_continuation = vec![0x61, 0x80];
    assert_eq!(
        text_value(Some(lone_continuation.clone())),
        Err(VarError::NotUnicode(lone_continuation))
    );
    let surrogate = vec![0xed, 0xa0, 0x80];
    assert_eq!(text_value(Some(surrogate.clone())), Err(VarError::NotUnicode(surrogate)));
    let overlong = vec![0xc0, 0xaf];
    assert_eq!(text_value(Some(overlong.clone())), Err(VarError::NotUnicode(overlong)));
}

#[test]
fn non_utf8_value_is_carried_in_the_error_and_read_raw() {
    let mut env = FakeEnvironment::new();
    let value = vec![0x66, 0x6f, 0x80, 0x6f];
    env.set_var(b"BYTES", &value);

    assert_eq!(env.var(b"BYTES"), Err(VarError::NotUnicode(value.clone())));
    assert_eq!(env.var_os(b"BYTES"), Some(value));
}

#[test]
fn text_value_with_multibyte_characters_reads_back() {
    let mut env = FakeEnvironment::new();
    env.set_var(b"GREETING", "grüße, 世界".as_bytes());

    assert_eq!(env.var(b"GREETING"), Ok("grüße, 世界".to_string()));
    assert_eq!(env.var_os(b"GREETING"), Some("grüße, 世界".as_bytes().to_vec()));
}

#[test]
fn empty_value_is_present() {
    let mut env = FakeEnvironment::new();
    env.set_var(b"EMPTY", b"");

    assert_eq!(env.var(b"EMPTY"), Ok(String::new()));
    assert_eq!(env.var_os(b"EMPTY"), Some(Vec::new()));
}

#[test]
fn representations_of_the_same_text_store_the_same_state() {
    let mut borrowed = FakeEnvironment::new();
    borrowed.set_var("KEY".as_bytes(), "value".as_bytes());
    let mut owned = FakeEnvironment::new();
    owned.set_var(&String::from("KEY").into_bytes(), &String::from("value").into_bytes());
    let mut literal = FakeEnvironment::new();
    literal.set_var(b"KEY", b"value");

    assert_eq!(borrowed, owned);
    assert_eq!(owned, literal);
    assert_eq!(borrowed.var(b"KEY"), owned.var(b"KEY"));
}

#[test]
fn instances_do_not_see_each_other() {
    let mut first = FakeEnvironment::new();
    let second = FakeEnvironment::new();
    first.set_var(b"SHARED", b"one");

    assert_eq!(second.var(b"SHARED"), Err(VarError::NotPresent));
    assert_eq!(second.var_os(b"SHARED"), None);
    assert_eq!(first.var(b"SHARED"), Ok("one".to_string()));
}

#[test]
fn removing_one_variable_keeps_the_others() {
    let mut env = FakeEnvironment::new();
    env.set_var(b"A", b"1");
    env.set_var(b"B", b"2");
    env.set_var(b"C", b"3");

    env.remove_var(b"B");

    assert_eq!(env.var(b"A"), Ok("1".to_string()));
    assert_eq!(env.var(b"B"), Err(VarError::NotPresent));
    assert_eq!(env.var(b"C"), Ok("3".to_string()));
}

#[test]
fn overwriting_keeps_a_single_entry() {
    let mut env = FakeEnvironment::new();
    env.set_var(b"A", b"1");
    env.set_var(b"A", b"2");
    env.remove_var(b"A");

    assert_eq!(env.var_os(b"A"), None);
}

#[test]
fn environments_compare_by_contents_not_order() {
    let mut first = FakeEnvironment::new();
    first.set_var(b"A", b"1");
    first.set_var(b"B", b"2");
    let mut second = FakeEnvironment::new();
    second.set_var(b"B", b"2");
    second.set_var(b"A", b"1");

    assert_eq!(first, second);
    second.set_var(b"A", b"3");
    assert_ne!(first, second);
    second.set_var(b"A", b"1");
    second.set_var(b"C", b"4");
    assert_ne!(first, second);
}

#[test]
fn clone_is_independent() {
    let mut original = FakeEnvironment::new();
    original.set_var(b"A", b"1");
    let mut copy = original.clone();
    copy.set_var(b"A", b"2");

    assert_eq!(original.var(b"A"), Ok("1".to_string()));
    assert_eq!(copy.var(b"A"), Ok("2".to_string()));
}

#[test]
fn default_is_empty() {
    let env = FakeEnvironment::default();

    assert_eq!(env, FakeEnvironment::new());
    assert_eq!(env.var_os(b"A"), None);
}
