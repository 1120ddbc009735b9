use telemetroid::command_runner::{
    check_exit, command_line, stderr_or, CommandError,
};
use telemetroid::btrfs::btrfs_interface::{findmnt_failed, scrub_start_failed};
use telemetroid::command_runner::exit_failed;
use telemetroid::smart_check::smart_ctl_interface::smartctl_failed;
use telemetroid::strings::is_blank;

#[test]
fn command_line_joins_with_spaces() {
    assert_eq!(command_line("btrfs", &["scrub", "status", "-R", "/"]), "btrfs scrub status -R /");
    assert_eq!(command_line("xbps-install", &["-Mun"]), "xbps-install -Mun");
    // As `format!("{} {}", command, arguments.join(" "))` gives it.
    assert_eq!(command_line("uptime", &[]), "uptime ");
}

#[test]
fn stderr_falls_back_when_blank() {
    assert_eq!(stderr_or(b"  \n\t", "fallback"), "fallback");
    assert_eq!(stderr_or(b"", "fallback"), "fallback");
    assert_eq!(stderr_or(b"device busy\n", "fallback"), "device busy\n");
    assert_eq!(stderr_or(&[0x66, 0xff, 0x6f], "fallback"), "f\u{fffd}o");
}

#[test]
fn output_text_is_decoded_lossily() {
    assert_eq!(stderr_or(b"plain", "x"), "plain");
    assert_eq!(stderr_or(&[0xe2, 0x82], "x"), "\u{fffd}");
    let e = check_exit("c".to_string(), Some(1), true, vec![b'a', 0xff], Vec::new()).unwrap_err();
    assert_eq!(e.message(), "`c` failed (exit 1): a\u{fffd}");
}

#[test]
fn a_successful_exit_hands_back_stdout() {
    let r = check_exit("ls /".to_string(), Some(0), false, b"bin\n".to_vec(), b"warn".to_vec());
    assert_eq!(r.unwrap(), b"bin\n".to_vec());
    // A non-zero code that the caller accepts is no failure.
    let r = check_exit("btrfs scrub start -B /".to_string(), Some(3), false, Vec::new(), Vec::new());
    assert!(r.unwrap().is_empty());
}

#[test]
fn a_signal_is_reported() {
    let r = check_exit("smartctl -a /dev/sda".to_string(), None, false, b"out".to_vec(), Vec::new());
    match r {
        Err(CommandError::Signal { cmd, detail }) => {
            assert_eq!(cmd, "smartctl -a /dev/sda");
            assert_eq!(detail, "process terminated by signal");
        }
        other => panic!("unexpected {:?}", other),
    }
    let r = check_exit("x".to_string(), None, true, Vec::new(), b"killed\n".to_vec());
    let e = r.unwrap_err();
    assert_eq!(e.message(), "`x` terminated by signal: killed\n");
}

#[test]
fn a_failing_exit_prefers_stderr_then_stdout() {
    let r = check_exit("fstrim -a".to_string(), Some(64), true, b"partial".to_vec(), b"err".to_vec());
    match r {
        Err(CommandError::Exit { cmd, code, detail }) => {
            assert_eq!(cmd, "fstrim -a");
            assert_eq!(code, 64);
            assert_eq!(detail, "err");
        }
        other => panic!("unexpected {:?}", other),
    }
    let e = check_exit("f".to_string(), Some(-1), true, b"partial".to_vec(), b" ".to_vec()).unwrap_err();
    assert_eq!(e.message(), "`f` failed (exit -1): partial");
}

#[test]
fn spawn_failure_message() {
    let e = CommandError::Spawn {
        cmd: "nvidia-smi ".to_string(),
        source: "No such file or directory (os error 2)".to_string(),
    };
    assert_eq!(e.message(), "failed to run `nvidia-smi `: No such file or directory (os error 2)");
}

#[test]
fn exit_code_rules() {
    assert!(!exit_failed(0));
    assert!(exit_failed(1));
    assert!(exit_failed(-1));
    assert!(!findmnt_failed(0));
    assert!(!findmnt_failed(1));
    assert!(findmnt_failed(2));
    assert!(!scrub_start_failed(0));
    assert!(!scrub_start_failed(3));
    assert!(scrub_start_failed(1));
    assert!(scrub_start_failed(2));
    assert!(!smartctl_failed(0));
    assert!(smartctl_failed(1));
    assert!(smartctl_failed(2));
    assert!(smartctl_failed(3));
    assert!(!smartctl_failed(4));
    assert!(!smartctl_failed(64));
    assert!(smartctl_failed(65));
}

#[test]
fn blank_text() {
    assert!(is_blank(""));
    assert!(is_blank(" \n\t"));
    assert!(!is_blank(" {} "));
}
