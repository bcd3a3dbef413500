use collect_args::Args;

fn line(tokens: &[&str]) -> Args {
    Args {
        args: tokens.iter().map(|token| String::from(*token)).collect(),
    }
}

#[test]
fn select_accepts_each_allowed_value() {
    let allowed = ["foo", "bar", "baz"];
    assert_eq!(line(&["sel", "foo"]).select("sel", &allowed), ("sel", Some(String::from("foo"))));
    assert_eq!(line(&["sel", "bar"]).select("sel", &allowed), ("sel", Some(String::from("bar"))));
    assert_eq!(line(&["sel", "baz"]).select("sel", &allowed), ("sel", Some(String::from("baz"))));
}

#[test]
fn select_refuses_a_value_that_is_not_allowed() {
    let args = line(&["sel", "qux"]);
    assert_eq!(args.select("sel", &["foo", "bar", "baz"]), ("sel", None));
}

#[test]
fn select_of_a_missing_key_is_absent() {
    let args = line(&["foo", "bar"]);
    assert_eq!(args.select("sel", &["foo", "bar", "baz"]), ("sel", None));
}

#[test]
fn select_of_a_key_that_ends_the_line_is_absent() {
    let args = line(&["foo", "sel"]);
    assert_eq!(args.select("sel", &["foo", "bar", "baz"]), ("sel", None));
}

#[test]
fn select_does_not_fall_back_to_a_later_occurrence() {
    let args = line(&["sel", "qux", "sel", "baz"]);
    assert_eq!(args.select("sel", &["foo", "bar", "baz"]), ("sel", None));
}

#[test]
fn select_takes_the_first_occurrence_when_both_are_allowed() {
    let args = line(&["sel", "bar", "sel", "baz"]);
    assert_eq!(args.select("sel", &["foo", "bar", "baz"]), ("sel", Some(String::from("bar"))));
}

#[test]
fn select_with_nothing_allowed_is_absent() {
    let args = line(&["sel", "baz"]);
    assert_eq!(args.select("sel", &[]), ("sel", None));
}

#[test]
fn select_is_case_sensitive() {
    let args = line(&["sel", "baz"]);
    assert_eq!(args.select("sel", &["BAZ", "Baz"]), ("sel", None));
    assert_eq!(args.select("SEL", &["baz"]), ("SEL", None));
}

#[test]
fn select_ignores_the_order_of_the_allowed_values() {
    let args = line(&["mode", "fast"]);
    assert_eq!(args.select("mode", &["slow", "fast"]), ("mode", Some(String::from("fast"))));
    assert_eq!(args.select("mode", &["fast", "slow"]), ("mode", Some(String::from("fast"))));
    assert_eq!(args.select("mode", &["fast", "fast"]), ("mode", Some(String::from("fast"))));
}

#[test]
fn select_agrees_with_input_on_allowed_values() {
    let args = line(&["x", "--mode", "slow", "--mode", "fast"]);
    let (_, value) = args.input("--mode");
    assert_eq!(value, Some(String::from("slow")));
    assert_eq!(args.select("--mode", &["slow", "fast"]), ("--mode", value));
}

#[test]
fn select_twice_gives_the_same_answer() {
    let args = line(&["sel", "baz", "sel", "foo"]);
    let allowed = ["foo", "bar", "baz"];
    assert_eq!(args.select("sel", &allowed), args.select("sel", &allowed));
    assert_eq!(args.select("sel", &allowed), ("sel", Some(String::from("baz"))));
}
