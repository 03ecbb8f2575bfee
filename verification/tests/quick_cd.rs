use twinpane::quick_cd::{prepare_path_with_hints, prepare_path_without_hints, quick_cd_target};

#[test]
fn hints_number_all_parts_but_the_last() {
    assert_eq!(prepare_path_with_hints(String::from("/home/artie")), "[0]/[1]home/artie");
    assert_eq!(prepare_path_with_hints(String::from("/tmp/")), "[0]/tmp/");
    assert_eq!(prepare_path_with_hints(String::from("/")), "/");
    assert_eq!(prepare_path_with_hints(String::from("")), "");
    assert_eq!(
        prepare_path_with_hints(String::from("/a/b/c/d/e/f/g/h/i/j/k/l")),
        "[0]/[1]a/[2]b/[3]c/[4]d/[5]e/[6]f/[7]g/[8]h/[9]i/[10]j/[11]k/l"
    );
}

#[test]
fn hints_are_removed() {
    assert_eq!(prepare_path_without_hints(String::from("[0]/[1]home/artie")), "/home/artie");
    assert_eq!(prepare_path_without_hints(String::from("[12]x")), "x");
    assert_eq!(prepare_path_without_hints(String::from("[a]b")), "[a]b");
    assert_eq!(prepare_path_without_hints(String::from("[]")), "[]");
    assert_eq!(prepare_path_without_hints(String::from("[1")), "[1");
    assert_eq!(prepare_path_without_hints(String::from("[1[2]]")), "[1]");
}

#[test]
fn hints_roundtrip_on_a_path() {
    let p = String::from("/home/artie/Documents/notes.txt");
    let hinted = prepare_path_with_hints(p.clone());
    assert_ne!(hinted, p);
    assert_eq!(prepare_path_without_hints(hinted), p);
}

#[test]
fn quick_cd_goes_to_prefix() {
    assert_eq!(quick_cd_target("/home/artie/docs", '0'), Some(String::from("/")));
    assert_eq!(quick_cd_target("/home/artie/docs", '1'), Some(String::from("/home/")));
    assert_eq!(quick_cd_target("/home/artie/docs", '2'), Some(String::from("/home/artie/")));
    assert_eq!(quick_cd_target("/home/artie/docs", '3'), Some(String::from("/home/artie/docs")));
}

#[test]
fn quick_cd_too_short() {
    assert_eq!(quick_cd_target("/home/artie/docs", '4'), None);
    assert_eq!(quick_cd_target("/", '1'), None);
    assert_eq!(quick_cd_target("", '0'), None);
}
