use whodat::text::{chars_are, chars_begin_with, chars_hold_at, chars_of, path_is_above, str_eq};

#[test]
fn chars_of_keeps_every_character() {
    assert_eq!(chars_of(""), Vec::<char>::new());
    assert_eq!(chars_of("a/b"), vec!['a', '/', 'b']);
    assert_eq!(chars_of("épée"), vec!['é', 'p', 'é', 'e']);
}

#[test]
fn str_eq_compares_characters() {
    assert!(str_eq("", ""));
    assert!(str_eq("input", "input"));
    assert!(!str_eq("input", "inpu"));
    assert!(!str_eq("inpu", "input"));
    assert!(!str_eq("input", "inpuT"));
    assert!(!str_eq("", "0"));
}

#[test]
fn chars_hold_at_a_position() {
    let text = chars_of("hello world");
    assert!(chars_hold_at(&text, 0, &chars_of("hello")));
    assert!(chars_hold_at(&text, 6, &chars_of("world")));
    assert!(chars_hold_at(&text, 11, &chars_of("")));
    assert!(!chars_hold_at(&text, 12, &chars_of("")));
    assert!(!chars_hold_at(&text, 7, &chars_of("world")));
    assert!(!chars_hold_at(&text, 6, &chars_of("worlds")));
    assert!(!chars_hold_at(&text, usize::MAX, &chars_of("w")));
}

#[test]
fn chars_are_and_begin_with() {
    let text = chars_of("ID_INPUT_KEY");
    assert!(chars_are(&text, "ID_INPUT_KEY"));
    assert!(!chars_are(&text, "ID_INPUT"));
    assert!(!chars_are(&text, "ID_INPUT_KEYBOARD"));
    assert!(chars_begin_with(&text, "ID_INPUT"));
    assert!(chars_begin_with(&text, "ID_INPUT_KEY"));
    assert!(chars_begin_with(&text, ""));
    assert!(!chars_begin_with(&text, "ID_INPUT_KEYBOARD"));
    assert!(!chars_begin_with(&text, "D_INPUT"));
}

#[test]
fn a_path_lies_above_what_is_below_it() {
    assert!(path_is_above("/sys/devices/a", "/sys/devices/a/input/input1"));
    assert!(path_is_above("/sys/devices/a", "/sys/devices/a/b"));
    assert!(path_is_above("/sys/devices/a/", "/sys/devices/a/b"));
    assert!(path_is_above("/", "/sys"));
}

#[test]
fn a_path_does_not_lie_above_itself_or_its_neighbours() {
    assert!(!path_is_above("/sys/devices/a", "/sys/devices/a"));
    assert!(!path_is_above("/sys/devices/a", "/sys/devices/ab"));
    assert!(!path_is_above("/sys/devices/a", "/sys/devices/ab/c"));
    assert!(!path_is_above("/sys/devices/a/b", "/sys/devices/a"));
    assert!(!path_is_above("/sys/devices/a", "/sys/devices/b/a/c"));
    assert!(!path_is_above("", ""));
    assert!(!path_is_above("", "relative"));
    assert!(path_is_above("", "/absolute"));
}
