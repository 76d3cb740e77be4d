use chewwy::cfg::Configure;
use chewwy::cfg::{Command, Format, FormatEntry, FormatTable};
use chewwy::file_archiver::{DecompressError, FileArchiver, RunEvent};

fn s(s: &str) -> String {
    s.to_string()
}

fn c<T>(t: T) -> Configure<T> {
    Configure(Some(t))
}

fn zzz_table() -> FormatTable {
    FormatTable {
        entries: vec![FormatEntry {
            name: s("zzz"),
            format: Format {
                extensions: c(vec![s("zzz")]),
                decompress: c(vec![
                    Command {
                        path: s("/nonexistent/one"),
                        args: vec![s("{FILE}")],
                    },
                    Command {
                        path: s("/nonexistent/two"),
                        args: vec![s("{FILE}"), s("{DIR}")],
                    },
                ]),
            },
        }],
    }
}

#[test]
fn unclaimed_file_yields_no_format_available() {
    let formats = zzz_table();
    let archiver = FileArchiver::new(&formats);
    match archiver.begin_decompress("a_file.tar", "/out") {
        Err(DecompressError::NoFormatAvailable { file }) => assert_eq!(file, s("a_file.tar")),
        other => panic!("expected NoFormatAvailable, got {:?}", other.map(|_| ())),
    }
}

#[test]
fn every_command_missing_yields_no_command_available() {
    let formats = zzz_table();
    let archiver = FileArchiver::new(&formats);
    let mut d = archiver.begin_decompress("a_file.zzz", "/out").unwrap();
    let mut attempts: usize = 0;
    while let Some(_prepared) = d.pending() {
        // Every configured command path is nonexistent on the system: each
        // launch attempt reports "not found".
        let outcome = d.absorb(RunEvent::NotFound);
        assert!(outcome.is_none());
        attempts += 1;
    }
    assert_eq!(attempts, 2);
    match d.finish_no_command() {
        DecompressError::NoCommandAvailable {
            file,
            found_format_name,
        } => {
            assert_eq!(file, s("a_file.zzz"));
            assert_eq!(found_format_name, s("zzz"));
        }
        other => panic!("expected NoCommandAvailable, got {:?}", other),
    }
}

#[test]
fn exit_code_two_yields_child_return_error_code() {
    let formats = zzz_table();
    let archiver = FileArchiver::new(&formats);
    let mut d = archiver.begin_decompress("a_file.zzz", "/out").unwrap();
    assert!(d.pending().is_some());
    match d.absorb(RunEvent::ExitedCode { code: 2 }) {
        Some(Err(DecompressError::ChildReturnErrorCode {
            command_str,
            command,
            code,
            format,
        })) => {
            assert_eq!(code, 2);
            assert_eq!(format, s("zzz"));
            assert_eq!(command.path, s("/nonexistent/one"));
            assert_eq!(command_str, s("/nonexistent/one a_file.zzz"));
        }
        other => panic!("expected ChildReturnErrorCode, got {:?}", other.map(|_| ())),
    }
}

#[test]
fn successful_exit_ends_the_exchange() {
    let formats = zzz_table();
    let archiver = FileArchiver::new(&formats);
    let mut d = archiver.begin_decompress("a_file.zzz", "/out").unwrap();
    assert!(d.pending().is_some());
    let outcome = d.absorb(RunEvent::ExitedSuccess);
    assert!(matches!(outcome, Some(Ok(()))));
}

#[test]
fn spawn_failure_is_fatal() {
    let formats = zzz_table();
    let archiver = FileArchiver::new(&formats);
    let mut d = archiver.begin_decompress("a_file.zzz", "/out").unwrap();
    assert!(d.pending().is_some());
    match d.absorb(RunEvent::SpawnFailed {
        message: s("permission denied"),
    }) {
        Some(Err(DecompressError::RunCommandError {
            command_str,
            command,
            io_message,
            format,
        })) => {
            assert_eq!(io_message, s("permission denied"));
            assert_eq!(format, s("zzz"));
            assert_eq!(command.path, s("/nonexistent/one"));
            assert_eq!(command_str, s("/nonexistent/one a_file.zzz"));
        }
        other => panic!("expected RunCommandError, got {:?}", other.map(|_| ())),
    }
}

#[test]
fn signal_termination_yields_child_error() {
    let formats = zzz_table();
    let archiver = FileArchiver::new(&formats);
    let mut d = archiver.begin_decompress("a_file.zzz", "/out").unwrap();
    // Skip the first command as missing, then let the second die to a signal.
    assert!(d.absorb(RunEvent::NotFound).is_none());
    assert!(d.pending().is_some());
    match d.absorb(RunEvent::ExitedSignal) {
        Some(Err(DecompressError::ChildError {
            command_str,
            command,
            format,
        })) => {
            assert_eq!(format, s("zzz"));
            assert_eq!(command.path, s("/nonexistent/two"));
            assert_eq!(command_str, s("/nonexistent/two a_file.zzz /out"));
        }
        other => panic!("expected ChildError, got {:?}", other.map(|_| ())),
    }
}

#[test]
fn wait_failure_yields_child_wait_return_error() {
    let formats = zzz_table();
    let archiver = FileArchiver::new(&formats);
    let mut d = archiver.begin_decompress("a_file.zzz", "/out").unwrap();
    assert!(d.pending().is_some());
    match d.absorb(RunEvent::WaitFailed {
        message: s("interrupted"),
    }) {
        Some(Err(DecompressError::ChildWaitReturnError {
            io_message, format, ..
        })) => {
            assert_eq!(io_message, s("interrupted"));
            assert_eq!(format, s("zzz"));
        }
        other => panic!("expected ChildWaitReturnError, got {:?}", other.map(|_| ())),
    }
}

#[test]
fn no_retry_once_launched() {
    // A nonzero exit does not fall back to the next configured command.
    let formats = zzz_table();
    let archiver = FileArchiver::new(&formats);
    let mut d = archiver.begin_decompress("a_file.zzz", "/out").unwrap();
    let outcome = d.absorb(RunEvent::ExitedCode { code: 1 });
    assert!(outcome.is_some());
    // The exchange did not advance to the second command.
    let prepared = d.pending().unwrap();
    assert_eq!(prepared.path, s("/nonexistent/one"));
}
