use analog_library::text::{join, split};

fn chars(s: &str) -> Vec<char> {
    s.chars().collect()
}

#[test]
fn join_of_split_gives_the_input_back() {
    for (s, sep) in [
        ("a,b,,c", ","),
        ("", ","),
        (",", ","),
        ("one\n\ntwo\n\n\nthree", "\n\n"),
        ("no separator here", "--"),
        ("aaaa", "aa"),
    ] {
        let parts = split(&chars(s), &chars(sep));
        assert_eq!(join(&parts, &chars(sep)), chars(s), "{s:?} {sep:?}");
    }
    let parts = split(&chars("aaaa"), &chars("aa"));
    assert_eq!(parts, vec![chars(""), chars(""), chars("")]);
}
