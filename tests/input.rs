use ioc::error::MyError;
use ioc::Input;

#[test]
fn input_needs_two_file_names() {
    let args = vec!["ioc".to_string(), "in.c".to_string()];
    assert!(matches!(Input::new(&args), Err("not enough arguments")));
    assert!(Input::new(&[]).is_err());
}

#[test]
fn input_takes_the_source_then_the_output() {
    let args = vec![
        "ioc".to_string(),
        "in.c".to_string(),
        "out.s".to_string(),
        "extra".to_string(),
    ];
    let input = Input::new(&args).unwrap();
    assert_eq!(input.input_file_name, "in.c");
    assert_eq!(input.output_file_name, "out.s");
}

#[test]
fn error_keeps_its_message() {
    let e = MyError::new("cannot open file".to_string());
    assert_eq!(e.message, "cannot open file");
}
