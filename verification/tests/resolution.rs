use chewwy::cfg::Configure;
use chewwy::cfg::Format as F;
use chewwy::cfg::{Command, FormatEntry, FormatTable};
use chewwy::file_archiver::FileArchiver;

fn s(s: &str) -> String {
    s.to_string()
}

fn c<T>(t: T) -> Configure<T> {
    Configure(Some(t))
}

fn three_formats() -> FormatTable {
    FormatTable {
        entries: vec![
            FormatEntry {
                name: s("first"),
                format: F {
                    extensions: c(vec![s("abc")]),
                    decompress: c(vec![]),
                },
            },
            FormatEntry {
                name: s("second"),
                format: F {
                    extensions: c(vec![s("abc.def")]),
                    decompress: c(vec![]),
                },
            },
            FormatEntry {
                name: s("third"),
                format: F {
                    extensions: c(vec![s("def")]),
                    decompress: c(vec![]),
                },
            },
        ],
    }
}

#[test]
fn find_format() {
    let formats = three_formats();
    assert_eq!(
        Some(&s("first")),
        chewwy::file_archiver::find_format(&formats, "a_file.abc").map(|e| &formats.entries[e].name)
    );
    assert_eq!(
        Some(&s("first")),
        chewwy::file_archiver::find_format(&formats, "a_file.hiya.abc")
            .map(|e| &formats.entries[e].name)
    );
    assert_eq!(
        Some(&s("third")),
        chewwy::file_archiver::find_format(&formats, "a_file.def").map(|e| &formats.entries[e].name)
    );
    assert_eq!(
        Some(&s("second")),
        chewwy::file_archiver::find_format(&formats, "a_file.abc.def")
            .map(|e| &formats.entries[e].name)
    );
}

#[test]
fn no_dot_resolves_to_none() {
    let formats = three_formats();
    assert_eq!(None, chewwy::file_archiver::find_format(&formats, "a_file"));
    assert_eq!(None, chewwy::file_archiver::find_format(&formats, ""));
    // Dots in parent directories do not count: only the base name is split.
    assert_eq!(
        None,
        chewwy::file_archiver::find_format(&formats, "dir.abc/nested.def/a_file")
    );
}

#[test]
fn resolution_only_reads_the_base_name() {
    let formats = three_formats();
    assert_eq!(
        Some(&s("third")),
        chewwy::file_archiver::find_format(&formats, "/tmp/some.abc/a_file.def")
            .map(|e| &formats.entries[e].name)
    );
}

#[test]
fn resolution_is_idempotent() {
    let formats = three_formats();
    let once = chewwy::file_archiver::find_format(&formats, "a_file.abc.def");
    let twice = chewwy::file_archiver::find_format(&formats, "a_file.abc.def");
    assert_eq!(once, twice);
    assert_eq!(Some(1), once);
    let archiver = FileArchiver::new(&formats);
    assert_eq!(archiver.find_format("a_file.abc.def"), once);
    assert_eq!(archiver.find_format("a_file.abc.def"), twice);
}

#[test]
fn unpopulated_extension_set_claims_nothing() {
    let formats = FormatTable {
        entries: vec![FormatEntry {
            name: s("hollow"),
            format: F {
                extensions: Configure(None),
                decompress: c(vec![Command {
                    path: s("tar"),
                    args: vec![],
                }]),
            },
        }],
    };
    assert_eq!(None, chewwy::file_archiver::find_format(&formats, "a_file.tar"));
}

#[test]
fn substitution_fills_file_and_dir() {
    let command = Command {
        path: s("tar"),
        args: vec![s("-xf"), s("{FILE}"), s("-C"), s("{DIR}"), s("{FILE}+{DIR}")],
    };
    let prepared = command.decompress_command_format("/a/b.tar", "/out");
    assert_eq!(prepared.path, s("tar"));
    assert_eq!(
        prepared.args,
        vec![s("-xf"), s("/a/b.tar"), s("-C"), s("/out"), s("/a/b.tar+/out")]
    );
}

#[test]
fn substitution_replaces_every_occurrence() {
    let command = Command {
        path: s("x"),
        args: vec![s("{FILE}{FILE}"), s("a{DIR}b{DIR}c")],
    };
    let prepared = command.decompress_command_format("f", "d");
    assert_eq!(prepared.args, vec![s("ff"), s("adbdc")]);
}
