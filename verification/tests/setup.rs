use jsserve::setup::{get_init_dir, setup_path};

#[test]
fn the_first_argument_is_the_directory() {
    let args = vec!["server".to_string(), "site/".to_string(), "more".to_string()];
    assert_eq!(get_init_dir(&args, "/home".to_string()), "site/");
}

#[test]
fn without_arguments_it_is_the_current_directory() {
    assert_eq!(get_init_dir(&vec!["server".to_string()], "/home".to_string()), "/home");
    assert_eq!(get_init_dir(&vec![], "/home".to_string()), "/home");
}

#[test]
fn the_script_is_named_right_behind_the_directory() {
    assert_eq!(setup_path("site/".to_string()), "site/setup.js");
    assert_eq!(setup_path("/home".to_string()), "/homesetup.js");
    assert_eq!(setup_path(String::new()), "setup.js");
}
