use collect_args::Args;

fn line(tokens: &[&str]) -> Args {
    Args {
        args: tokens.iter().map(|token| String::from(*token)).collect(),
    }
}

#[test]
fn options_gives_the_earliest_candidate_on_the_line() {
    let candidates = ["foo", "bar", "baz"];
    assert_eq!(line(&["foo", "bar"]).options(&candidates), Some(String::from("foo")));
    assert_eq!(line(&["bar", "foo"]).options(&candidates), Some(String::from("bar")));
    assert_eq!(line(&["abc", "xyz"]).options(&candidates), None);
}

#[test]
fn options_skips_tokens_that_are_no_candidates() {
    let args = line(&["one", "two", "--json", "three", "--yaml"]);
    assert_eq!(args.options(&["--yaml", "--json"]), Some(String::from("--json")));
    assert_eq!(args.options(&["--yaml"]), Some(String::from("--yaml")));
    assert_eq!(args.options(&["three", "--yaml", "two"]), Some(String::from("two")));
}

#[test]
fn options_ignores_the_order_of_the_candidates() {
    let args = line(&["b", "a", "c"]);
    assert_eq!(args.options(&["a", "b", "c"]), Some(String::from("b")));
    assert_eq!(args.options(&["c", "b", "a"]), Some(String::from("b")));
    assert_eq!(args.options(&["c", "a"]), Some(String::from("a")));
    assert_eq!(args.options(&["a", "c", "a", "c"]), Some(String::from("a")));
}

#[test]
fn options_without_candidates_is_absent() {
    let args = line(&["foo", "bar"]);
    assert_eq!(args.options(&[]), None);
}

#[test]
fn options_on_an_empty_line_is_absent() {
    let args = line(&[]);
    assert_eq!(args.options(&["foo", "bar", "baz"]), None);
}

#[test]
fn options_compares_whole_tokens_exactly() {
    let args = line(&["Foo", "fo", "foo2", "föo"]);
    assert_eq!(args.options(&["foo"]), None);
    assert_eq!(args.options(&["foo", "föo"]), Some(String::from("föo")));
}

#[test]
fn options_twice_gives_the_same_answer() {
    let args = line(&["x", "bar", "foo"]);
    let candidates = ["foo", "bar"];
    assert_eq!(args.options(&candidates), args.options(&candidates));
    assert_eq!(args.options(&candidates), Some(String::from("bar")));
}
