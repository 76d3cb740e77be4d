use chewwy::cfg::Configure;
use chewwy::cfg::{
    Cfg, Command, CommandsCfg, CompressedFileAction, Directories, Format, FormatEntry,
    FormatTable, ManageCommandCfg, OutputFileAction, StructMerge,
};

fn s(s: &str) -> String {
    s.to_string()
}

fn c<T>(t: T) -> Configure<T> {
    Configure(Some(t))
}

fn unset<T>() -> Configure<T> {
    Configure(None)
}

fn empty_layer() -> Cfg {
    Cfg {
        formats: unset(),
        commands: unset(),
    }
}

fn manage_layer(m: ManageCommandCfg) -> Cfg {
    Cfg {
        formats: unset(),
        commands: c(CommandsCfg { manage: c(m) }),
    }
}

fn entry_names(cfg: &Cfg) -> Vec<String> {
    cfg.formats
        .c()
        .entries
        .iter()
        .map(|e| e.name.clone())
        .collect()
}

#[test]
fn merge_of_absent_layers_is_the_default() {
    let default_cfg = Cfg::default();
    let default_names = entry_names(&default_cfg);
    let merged = chewwy::cfg::merge_layers(None, None, default_cfg);
    assert_eq!(entry_names(&merged), default_names);
    let manage = merged.commands.c().manage.c();
    assert_eq!(*manage.smart_decompress_directory.c(), true);
    assert_eq!(*manage.search_file.c(), true);
    assert!(matches!(
        manage.output_file_action.c(),
        OutputFileAction::DecompressToOutputDir
    ));
    assert!(matches!(
        manage.compressed_file_action.c(),
        CompressedFileAction::MoveToArchiveDir
    ));
    let dirs = manage.directories.c();
    assert_eq!(*dirs.search.c(), None);
    assert_eq!(*dirs.output.c(), None);
    assert_eq!(*dirs.archive.c(), None);
}

#[test]
fn scalar_fields_follow_explicit_root_default_precedence() {
    let explicit = manage_layer(ManageCommandCfg {
        smart_decompress_directory: c(false),
        search_file: unset(),
        output_file_action: unset(),
        compressed_file_action: unset(),
        directories: c(Directories {
            search: c(Some(s("/explicit/search"))),
            output: unset(),
            archive: unset(),
        }),
    });
    let root = manage_layer(ManageCommandCfg {
        smart_decompress_directory: c(true),
        search_file: c(false),
        output_file_action: unset(),
        compressed_file_action: c(CompressedFileAction::DoNothing),
        directories: c(Directories {
            search: c(Some(s("/root/search"))),
            output: c(Some(s("/root/output"))),
            archive: unset(),
        }),
    });
    let merged = chewwy::cfg::merge_layers(Some(explicit), Some(root), Cfg::default());
    let manage = merged.commands.c().manage.c();
    // Set in explicit: explicit wins over root and default.
    assert_eq!(*manage.smart_decompress_directory.c(), false);
    // Unset in explicit, set in root: root wins over default.
    assert_eq!(*manage.search_file.c(), false);
    assert!(matches!(
        manage.compressed_file_action.c(),
        CompressedFileAction::DoNothing
    ));
    // Unset everywhere but in the default.
    assert!(matches!(
        manage.output_file_action.c(),
        OutputFileAction::DecompressToOutputDir
    ));
    // The directories struct is assembled from different layers per field.
    let dirs = manage.directories.c();
    assert_eq!(*dirs.search.c(), Some(s("/explicit/search")));
    assert_eq!(*dirs.output.c(), Some(s("/root/output")));
    assert_eq!(*dirs.archive.c(), None);
}

#[test]
fn custom_format_key_survives_the_merge_unmodified() {
    let explicit = Cfg {
        formats: c(FormatTable {
            entries: vec![FormatEntry {
                name: s("custom"),
                format: Format {
                    extensions: c(vec![s("xyz")]),
                    decompress: c(vec![Command {
                        path: s("unxyz"),
                        args: vec![s("{FILE}")],
                    }]),
                },
            }],
        }),
        commands: unset(),
    };
    let merged = chewwy::cfg::merge_layers(Some(explicit), None, Cfg::default());
    let entries = &merged.formats.c().entries;
    let custom = entries.iter().find(|e| e.name == s("custom")).unwrap();
    assert_eq!(*custom.format.extensions.c(), vec![s("xyz")]);
    assert_eq!(custom.format.decompress.c().len(), 1);
    assert_eq!(custom.format.decompress.c()[0].path, s("unxyz"));
    // Keys of the default survive beside it.
    assert!(entries.iter().any(|e| e.name == s("zip")));
    assert!(entries.iter().any(|e| e.name == s("tar")));
}

#[test]
fn key_present_in_both_layers_merges_per_field() {
    let explicit = Cfg {
        formats: c(FormatTable {
            entries: vec![FormatEntry {
                name: s("zip"),
                format: Format {
                    extensions: c(vec![s("zipp")]),
                    decompress: unset(),
                },
            }],
        }),
        commands: unset(),
    };
    let merged = chewwy::cfg::merge_layers(Some(explicit), None, Cfg::default());
    let entries = &merged.formats.c().entries;
    let zip = entries.iter().find(|e| e.name == s("zip")).unwrap();
    // The explicit extension set wins; the default command list fills the
    // field the explicit layer left unset.
    assert_eq!(*zip.format.extensions.c(), vec![s("zipp")]);
    assert_eq!(zip.format.decompress.c()[0].path, s("unzip"));
}

#[test]
fn struct_merge_fills_only_unset_fields() {
    let mut upper = Format {
        extensions: c(vec![s("tar")]),
        decompress: unset(),
    };
    let lower = Format {
        extensions: c(vec![s("ignored")]),
        decompress: c(vec![Command {
            path: s("tar"),
            args: vec![],
        }]),
    };
    upper.struct_merge(lower);
    assert_eq!(*upper.extensions.c(), vec![s("tar")]);
    assert_eq!(upper.decompress.c()[0].path, s("tar"));
}

#[test]
fn directories_resolve_against_the_root() {
    let dirs = Directories {
        search: c(Some(s("downloads"))),
        output: c(Some(s("/abs/output"))),
        archive: c(None),
    };
    let resolved = dirs.to_absolute("/base");
    assert_eq!(*resolved.search.c(), Some(s("/base/downloads")));
    assert_eq!(*resolved.output.c(), Some(s("/abs/output")));
    assert_eq!(*resolved.archive.c(), None);
}

#[test]
fn root_layer_alone_merges_over_the_default() {
    let root = manage_layer(ManageCommandCfg {
        smart_decompress_directory: c(false),
        search_file: unset(),
        output_file_action: unset(),
        compressed_file_action: unset(),
        directories: unset(),
    });
    let merged = chewwy::cfg::merge_layers(None, Some(root), Cfg::default());
    let manage = merged.commands.c().manage.c();
    assert_eq!(*manage.smart_decompress_directory.c(), false);
    assert_eq!(*manage.search_file.c(), true);
}

#[test]
fn default_table_resolves_longest_suffix_first() {
    let default_cfg = Cfg::default();
    let formats = default_cfg.formats.c();
    let name_for = |file: &str| {
        chewwy::file_archiver::find_format(formats, file).map(|e| formats.entries[e].name.clone())
    };
    assert_eq!(name_for("x.tar.gz"), Some(s("tar-gz")));
    assert_eq!(name_for("x.tgz"), Some(s("tar-gz")));
    assert_eq!(name_for("x.tar"), Some(s("tar")));
    assert_eq!(name_for("x.zip"), Some(s("zip")));
    assert_eq!(name_for("x.gz"), None);
}

#[test]
fn root_cfg_path_descends_into_the_marker_directory() {
    assert_eq!(
        chewwy::cfg::root_cfg_path("/some/root"),
        s("/some/root/.chewwy/cfg.toml")
    );
    assert_eq!(
        chewwy::cfg::root_cfg_path("/some/root/"),
        s("/some/root/.chewwy/cfg.toml")
    );
}
