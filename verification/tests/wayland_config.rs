use sophia_engine::args::ArgError;
use sophia_engine::protocol::Size;
use sophia_engine::wayland_config::{WaylandConfigError, WaylandSessionConfig};

fn args(items: &[&str]) -> Vec<String> {
    items.iter().map(|item| item.to_string()).collect()
}

#[test]
fn wayland_config_reads_defaults() {
    let config = WaylandSessionConfig::from_args(
        &args(&["sophia-wayland-session", "--client=/usr/bin/foot"]),
        "sophia-42".to_owned(),
    )
    .unwrap();

    assert_eq!(config.client, "/usr/bin/foot");
    assert!(config.client_args.is_empty());
    assert_eq!(config.display_name, "sophia-42");
    assert_eq!(config.max_runtime_msec, None);
    assert_eq!(config.resize, None);
    assert_eq!(config.resize_after_msec, 750);
    assert!(config.input_devices.is_empty());
    assert!(config.expected_keycodes.is_empty());
    assert_eq!(config.max_input_latency_msec, 100);
    assert!(!config.native_scanout);
    assert!(!config.expect_input_pixel_change);
}

#[test]
fn wayland_config_reads_every_option() {
    let config = WaylandSessionConfig::from_args(
        &args(&[
            "--client=/bin/app",
            "--client-arg=-a",
            "--client-arg=two words",
            "--wayland-display=wl-7",
            "--max-runtime-ms=5000",
            "--resize=800x600",
            "--resize-after-ms=+20",
            "--input-devices=/dev/input/event3,/dev/input/event4",
            "--expect-input-pixel-change",
            "--expect-pointer-input",
            "--expect-keycodes=31,24,31",
            "--max-input-latency-ms=250",
            "--native-scanout",
        ]),
        "unused".to_owned(),
    )
    .unwrap();

    assert_eq!(config.client_args, vec!["-a".to_owned(), "two words".to_owned()]);
    assert_eq!(config.display_name, "wl-7");
    assert_eq!(config.max_runtime_msec, Some(5000));
    assert_eq!(config.resize, Some(Size { width: 800, height: 600 }));
    assert_eq!(config.resize_after_msec, 20);
    assert_eq!(
        config.input_devices,
        vec!["/dev/input/event3".to_owned(), "/dev/input/event4".to_owned()]
    );
    assert!(config.expect_input_pixel_change);
    assert!(!config.expect_input_presentation);
    assert!(config.expect_pointer_input);
    assert_eq!(config.expected_keycodes.iter().copied().collect::<Vec<_>>(), vec![24, 31]);
    assert_eq!(config.max_input_latency_msec, 250);
    assert!(config.native_scanout);
    let expectations = config.input_expectations();
    assert_eq!(expectations.expected_keycodes, vec![24, 31]);
    assert_eq!(expectations.max_input_latency_msec, 250);
}

#[test]
fn wayland_config_reports_the_first_bad_option() {
    assert_eq!(
        WaylandSessionConfig::from_args(&args(&["--resize=10"]), String::new()),
        Err(WaylandConfigError::MissingClient)
    );
    let mut too_many = args(&["--client=/bin/app"]);
    for _ in 0..65 {
        too_many.push("--client-arg=x".to_owned());
    }
    assert_eq!(
        WaylandSessionConfig::from_args(&too_many, String::new()),
        Err(WaylandConfigError::TooManyClientArgs)
    );
    let long_arg = format!("--client-arg={}", "y".repeat(4097));
    assert_eq!(
        WaylandSessionConfig::from_args(&args(&["--client=/bin/app", &long_arg]), String::new()),
        Err(WaylandConfigError::TooManyClientArgs)
    );
    assert_eq!(
        WaylandSessionConfig::from_args(
            &args(&["--client=/bin/app", "--max-runtime-ms=soon", "--resize=10"]),
            String::new()
        ),
        Err(WaylandConfigError::Arg(ArgError::InvalidNumber))
    );
    assert_eq!(
        WaylandSessionConfig::from_args(&args(&["--client=/bin/app", "--resize=10"]), String::new()),
        Err(WaylandConfigError::Arg(ArgError::InvalidSize))
    );
    assert_eq!(
        WaylandSessionConfig::from_args(
            &args(&["--client=/bin/app", "--expect-keycodes=0"]),
            String::new()
        ),
        Err(WaylandConfigError::Arg(ArgError::KeycodesOutOfRange))
    );
    assert_eq!(
        WaylandSessionConfig::from_args(
            &args(&["--client=/bin/app", "--max-input-latency-ms=-1"]),
            String::new()
        ),
        Err(WaylandConfigError::Arg(ArgError::InvalidNumber))
    );
}

#[test]
fn wayland_resize_must_fit_inside_the_output() {
    let output = Size { width: 1280, height: 720 };
    let config = |resize: &str| {
        WaylandSessionConfig::from_args(
            &args(&["--client=/bin/app", &format!("--resize={resize}")]),
            String::new(),
        )
        .unwrap()
    };

    assert_eq!(config("640x480").check_resize(output), Ok(()));
    assert_eq!(config("1280x720").check_resize(output), Err(WaylandConfigError::InvalidResize));
    assert_eq!(config("0x480").check_resize(output), Err(WaylandConfigError::InvalidResize));
    assert_eq!(config("1281x10").check_resize(output), Err(WaylandConfigError::InvalidResize));
    assert_eq!(config("-5x10").check_resize(output), Err(WaylandConfigError::InvalidResize));
    assert_eq!(config("1280x719").check_resize(output), Ok(()));
}

#[test]
fn wayland_config_drops_empty_input_device_entries() {
    let config = WaylandSessionConfig::from_args(
        &args(&["--client=/bin/app", "--input-devices=,/dev/input/event3,,/dev/input/event4,"]),
        String::new(),
    )
    .unwrap();
    assert_eq!(
        config.input_devices,
        vec!["/dev/input/event3".to_owned(), "/dev/input/event4".to_owned()]
    );
    let none = WaylandSessionConfig::from_args(&args(&["--client=/bin/app", "--input-devices="]), String::new())
        .unwrap();
    assert!(none.input_devices.is_empty());
}
