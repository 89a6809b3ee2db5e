use sophia_engine::args::{
    arg_value, parse_display_number, parse_keycodes, parse_size, parse_u64, parse_usize,
    required_absolute_path, ArgError,
};

#[test]
fn parses_bounded_resize_and_keycode_proof_arguments() {
    let size = parse_size("1024x640").unwrap();
    assert_eq!(size.width, 1024);
    assert_eq!(size.height, 640);
    let keycodes = parse_keycodes("31,24,31,103").unwrap();
    assert_eq!(keycodes.into_iter().collect::<Vec<_>>(), vec![24, 31, 103]);
    assert!(parse_size("1024").is_err());
    assert!(parse_keycodes("0").is_err());
    assert!(parse_keycodes("").is_err());
}

#[test]
fn size_parsing_follows_signed_integer_rules() {
    assert_eq!(parse_size("1024").unwrap_err(), ArgError::InvalidSize);
    assert_eq!(parse_size("axb").unwrap_err(), ArgError::InvalidNumber);
    let size = parse_size("-5x+7").unwrap();
    assert_eq!((size.width, size.height), (-5, 7));
    let size = parse_size("-2147483648x2147483647").unwrap();
    assert_eq!((size.width, size.height), (i32::MIN, i32::MAX));
    assert_eq!(parse_size("2147483648x1").unwrap_err(), ArgError::InvalidNumber);
    assert_eq!(parse_size("1x2x3").unwrap_err(), ArgError::InvalidNumber);
    assert_eq!(parse_size("x1").unwrap_err(), ArgError::InvalidNumber);
}

#[test]
fn keycode_lists_skip_empty_items_and_reject_bad_counts() {
    assert_eq!(parse_keycodes(",,5,,3,").unwrap().into_iter().collect::<Vec<_>>(), vec![3, 5]);
    assert_eq!(parse_keycodes("1,x").unwrap_err(), ArgError::InvalidNumber);
    assert_eq!(parse_keycodes("0").unwrap_err(), ArgError::KeycodesOutOfRange);
    assert_eq!(parse_keycodes(",,").unwrap_err(), ArgError::KeycodesOutOfRange);
    let many = (1..=33).map(|k| k.to_string()).collect::<Vec<_>>().join(",");
    assert_eq!(parse_keycodes(&many).unwrap_err(), ArgError::KeycodesOutOfRange);
    let enough = (1..=32).map(|k| k.to_string()).collect::<Vec<_>>().join(",");
    assert_eq!(parse_keycodes(&enough).unwrap().len(), 32);
    assert_eq!(parse_keycodes("4294967296").unwrap_err(), ArgError::InvalidNumber);
}

#[test]
fn unsigned_numbers_parse_like_std() {
    assert_eq!(parse_u64("18446744073709551615").unwrap(), u64::MAX);
    assert_eq!(parse_u64("18446744073709551616").unwrap_err(), ArgError::InvalidNumber);
    assert_eq!(parse_u64("+42").unwrap(), 42);
    assert_eq!(parse_u64("+").unwrap_err(), ArgError::InvalidNumber);
    assert_eq!(parse_u64("-1").unwrap_err(), ArgError::InvalidNumber);
    assert_eq!(parse_usize("007").unwrap(), 7);
    assert_eq!(parse_usize("").unwrap_err(), ArgError::InvalidNumber);
}

#[test]
fn display_numbers_are_local_and_bounded() {
    assert_eq!(parse_display_number(":0").unwrap(), 0);
    assert_eq!(parse_display_number(":65535").unwrap(), 65535);
    assert_eq!(parse_display_number(":65536").unwrap_err(), ArgError::DisplayOutOfRange);
    assert_eq!(parse_display_number(":99999999999").unwrap_err(), ArgError::InvalidNumber);
    assert_eq!(parse_display_number(":").unwrap_err(), ArgError::InvalidDisplay);
    assert_eq!(parse_display_number("0").unwrap_err(), ArgError::InvalidDisplay);
    assert_eq!(parse_display_number(":+1").unwrap_err(), ArgError::InvalidDisplay);
}

#[test]
fn arg_value_takes_the_first_matching_key() {
    let args = vec![
        "--display=:1".to_string(),
        "--size=800x600".to_string(),
        "--display=:2".to_string(),
        "--émoji=✓".to_string(),
    ];
    assert_eq!(arg_value(&args, "--display").as_deref(), Some(":1"));
    assert_eq!(arg_value(&args, "--size").as_deref(), Some("800x600"));
    assert_eq!(arg_value(&args, "--émoji").as_deref(), Some("✓"));
    assert_eq!(arg_value(&args, "--missing"), None);
    assert_eq!(arg_value(&args, "--disp"), None);
}

#[test]
fn required_paths_must_be_absolute() {
    let args = vec!["--guard=/run/guard".to_string(), "--relative=run/guard".to_string()];
    assert_eq!(required_absolute_path(&args, "--guard").unwrap(), "/run/guard");
    assert_eq!(required_absolute_path(&args, "--relative").unwrap_err(), ArgError::NotAbsolute);
    assert_eq!(required_absolute_path(&args, "--other").unwrap_err(), ArgError::MissingArgument);
}
