use sophia_engine::args::ArgError;
use sophia_engine::session_config::{PersistentXtermSessionConfig, SessionConfigError};

fn args(items: &[&str]) -> Vec<String> {
    items.iter().map(|item| item.to_string()).collect()
}

fn refused(items: &[&str]) -> SessionConfigError {
    PersistentXtermSessionConfig::from_args(&args(items), false).unwrap_err()
}

#[test]
fn persistent_session_defaults() {
    let config = PersistentXtermSessionConfig::from_args(&args(&["sophia-live"]), false).unwrap();

    assert_eq!(config.display, ":77");
    assert_eq!(config.display_number, 77);
    assert_eq!(config.terminal, "xterm");
    assert_eq!(config.terminal_exec, None);
    assert!(config.terminal_exec_args.is_empty());
    assert_eq!(config.max_runtime_msec, None);
    assert_eq!(config.max_ticks, None);
    assert!(config.input_devices.is_empty());
    assert!(!config.native_scanout);
    assert!(!config.input_proof_requested());
}

#[test]
fn persistent_session_reads_every_option() {
    let config = PersistentXtermSessionConfig::from_args(
        &args(&[
            "--display=:5",
            "--terminal=foot",
            "--max-runtime-ms=9000",
            "--max-ticks=40",
            "--expect-physical-text=hello",
            "--expect-physical-pointer",
            "--exit-after-input-proof",
            "--input-devices=/dev/input/event1,/dev/input/event2",
            "--native-scanout",
            "--wm-process=/usr/bin/wm",
            "--wm-process-arg=--tiling",
        ]),
        true,
    )
    .unwrap();

    assert_eq!(config.display_number, 5);
    assert_eq!(config.terminal, "foot");
    assert_eq!(config.max_runtime_msec, Some(9000));
    assert_eq!(config.max_ticks, Some(40));
    assert_eq!(config.expect_physical_text.as_deref(), Some("hello"));
    assert!(config.expect_physical_pointer);
    assert!(config.exit_after_input_proof);
    assert_eq!(config.input_devices.len(), 2);
    assert!(config.native_scanout);
    assert_eq!(config.wm_process.as_deref(), Some("/usr/bin/wm"));
    assert_eq!(config.wm_process_args, vec!["--tiling".to_owned()]);
    assert!(config.input_proof_requested());
}

#[test]
fn persistent_session_refuses_values_that_do_not_parse() {
    assert_eq!(refused(&["--display=77"]), SessionConfigError::Arg(ArgError::InvalidDisplay));
    assert_eq!(refused(&["--display=:70000"]), SessionConfigError::Arg(ArgError::DisplayOutOfRange));
    assert_eq!(
        refused(&["--max-runtime-ms=soon", "--max-ticks=0"]),
        SessionConfigError::Arg(ArgError::InvalidNumber)
    );
    assert_eq!(refused(&["--max-ticks=-1"]), SessionConfigError::Arg(ArgError::InvalidNumber));
}

#[test]
fn persistent_session_refuses_inconsistent_options_in_order() {
    assert_eq!(refused(&["--max-ticks=0"]), SessionConfigError::MaxTicksOutOfRange);
    assert_eq!(refused(&["--max-ticks=1000001"]), SessionConfigError::MaxTicksOutOfRange);
    assert_eq!(
        refused(&["--terminal-exec-arg=-e"]),
        SessionConfigError::TerminalExecArgWithoutExec
    );
    let mut many = args(&["--terminal-exec=/bin/sh"]);
    for _ in 0..33 {
        many.push("--terminal-exec-arg=x".to_owned());
    }
    assert_eq!(
        PersistentXtermSessionConfig::from_args(&many, false).unwrap_err(),
        SessionConfigError::TooManyTerminalExecArgs
    );
    assert_eq!(
        refused(&["--wm-process-arg=--tiling"]),
        SessionConfigError::WmProcessArgWithoutProcess
    );
    assert_eq!(refused(&["--native-scanout"]), SessionConfigError::NativeScanoutNotEnabled);
    assert_eq!(
        refused(&["--input-devices=dev/input/event1"]),
        SessionConfigError::InvalidInputDevices
    );
    assert_eq!(
        refused(&["--inject-text=abc", "--expect-physical-text=abc"]),
        SessionConfigError::ConflictingInputProofs
    );
    assert_eq!(
        refused(&["--terminal-exec=/bin/sh", "--inject-text=abc"]),
        SessionConfigError::TerminalExecWithInputProof
    );
    assert_eq!(refused(&["--inject-text=abc"]), SessionConfigError::UnboundedInputProof);
    assert_eq!(
        refused(&["--expect-physical-text=abc", "--max-ticks=5"]),
        SessionConfigError::PhysicalTextWithoutDevices
    );
    assert_eq!(
        refused(&["--expect-physical-pointer"]),
        SessionConfigError::PointerWithoutPhysicalText
    );
    assert_eq!(
        refused(&["--exit-after-input-proof"]),
        SessionConfigError::ExitWithoutInputProof
    );
    assert_eq!(
        refused(&["--inject-text=Hello", "--max-ticks=5"]),
        SessionConfigError::InvalidProofText
    );
    let long_text = format!("--inject-text={}", "a".repeat(25));
    assert_eq!(
        refused(&[&long_text, "--max-ticks=5"]),
        SessionConfigError::InvalidProofText
    );
}
