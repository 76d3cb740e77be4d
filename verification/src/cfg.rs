//! Layered configuration and its merge algorithm.
//!
//! A configuration document is parsed into partially populated structures:
//! every field is wrapped in [`Configure`], whose `None` means "unset at this
//! layer". Up to three layers exist — an explicit file, a project-root file,
//! and the built-in default — and are merged field by field, with
//! explicit-over-root-over-default precedence: a value field is copied from
//! the first layer that sets it; a struct field recurses field-wise; the
//! format table merges by key.

use vstd::prelude::*;

verus! {

use vstd::string::StrSliceExecFns;

/// An optional configuration value: `None` means "unset at this layer".
#[derive(Debug)]
pub struct Configure<T>(pub Option<T>);

impl<T> Configure<T> {
    /// Dereferences a field of an effective (fully merged) configuration.
    /// Accessing a field that no layer set is a contract violation, so the
    /// field is required to be set.
    pub fn c(&self) -> (r: &T)
        requires
            self.0 is Some,
        ensures
            *r == self.0->0,
    {
        self.0.as_ref().unwrap()
    }

    /// First-set-wins merge for a value field: once set, never overwritten.
    pub fn merge_value(&mut self, other: Configure<T>)
        ensures
            final(self).0 == (if old(self).0 is Some {
                old(self).0
            } else {
                other.0
            }),
    {
        if self.0.is_none() {
            self.0 = other.0;
        }
    }
}

/// Field-wise merging of partially populated structures.
pub trait StructMerge: Sized {
    /// What it means for `m` to be `a` merged over `b`: fields set in `a`
    /// win, fields unset in `a` are taken from `b`.
    spec fn is_merged(m: Self, a: Self, b: Self) -> bool;

    /// Merges `other` into `self`; values already set in `self` win.
    fn struct_merge(&mut self, other: Self)
        ensures
            Self::is_merged(*final(self), *old(self), other),
    ;
}

/// `m` is the merge of optional structs `a` over `b`: a struct present in
/// only one layer is taken wholesale; present in both, it is merged
/// field-wise rather than replaced.
pub open spec fn opt_struct_merged<T: StructMerge>(
    m: Option<T>,
    a: Option<T>,
    b: Option<T>,
) -> bool {
    match (a, b) {
        (Option::Some(x), Option::Some(y)) => m is Some && T::is_merged(m->0, x, y),
        (Option::Some(x), Option::None) => m == a,
        (Option::None, _) => m == b,
    }
}

impl<T: StructMerge> Configure<T> {
    /// Recursive merge for a struct-typed field.
    pub fn merge_struct(&mut self, other: Configure<T>)
        ensures
            opt_struct_merged(final(self).0, old(self).0, other.0),
    {
        let cur = self.0.take();
        match (cur, other.0) {
            (Option::None, o) => {
                self.0 = o;
            },
            (Option::Some(x), Option::None) => {
                self.0 = Option::Some(x);
            },
            (Option::Some(mut x), Option::Some(y)) => {
                x.struct_merge(y);
                self.0 = Option::Some(x);
            },
        }
    }
}

/// One external decompression command: an executable path plus an argument
/// template in which `{FILE}` and `{DIR}` are substituted at invocation time.
#[derive(Debug)]
pub struct Command {
    pub path: String,
    /// `{FILE}` stands for the source file path, `{DIR}` for the output
    /// directory path.
    pub args: Vec<String>,
}

impl Clone for Command {
    fn clone(&self) -> (r: Self)
        ensures
            r.path == self.path,
            r.args@ == self.args@,
    {
        Command { path: self.path.clone(), args: clone_strings(&self.args) }
    }
}

/// Copies a vector of strings, element for element.
fn clone_strings(v: &Vec<String>) -> (r: Vec<String>)
    ensures
        r@ == v@,
{
    let mut r: Vec<String> = Vec::new();
    let mut i: usize = 0;
    while i < v.len()
        invariant
            0 <= i <= v@.len(),
            r@ =~= v@.subrange(0, i as int),
        decreases v@.len() - i,
    {
        r.push(v[i].clone());
        i = i + 1;
    }
    proof {
        assert(r@ =~= v@);
    }
    r
}

/// A command ready to launch: the executable path and the arguments with
/// `{FILE}` and `{DIR}` already substituted.
#[derive(Debug)]
pub struct PreparedCommand {
    pub path: String,
    pub args: Vec<String>,
}

/// One argument template with `{FILE}` replaced by `file`, then `{DIR}`
/// replaced by `dir`.
pub open spec fn subst_arg(a: Seq<char>, file: Seq<char>, dir: Seq<char>) -> Seq<char> {
    crate::text::replaced(crate::text::replaced(a, "{FILE}"@, file), "{DIR}"@, dir)
}

/// `p` is `c` prepared for `file` and `dir`: the path is kept, every argument
/// is substituted.
pub open spec fn prepared_like(p: PreparedCommand, c: Command, file: Seq<char>, dir: Seq<char>) -> bool {
    &&& p.path@ == c.path@
    &&& p.args@.len() == c.args@.len()
    &&& forall|i: int| 0 <= i < c.args@.len() ==> p.args@[i]@ == subst_arg(c.args@[i]@, file, dir)
}

impl Command {
    /// The command with `{FILE}` and `{DIR}` substituted in every argument.
    pub fn decompress_command_format(&self, file: &str, dir: &str) -> (r: PreparedCommand)
        ensures
            prepared_like(r, *self, file@, dir@),
    {
        let mut args: Vec<String> = Vec::new();
        let mut i: usize = 0;
        while i < self.args.len()
            invariant
                0 <= i <= self.args@.len(),
                args@.len() == i,
                forall|j: int| 0 <= j < i ==> args@[j]@ == subst_arg(
                    self.args@[j]@,
                    file@,
                    dir@,
                ),
            decreases self.args@.len() - i,
        {
            proof {
                reveal_strlit("{FILE}");
                reveal_strlit("{DIR}");
            }
            let step = crate::text::replace_all(self.args[i].as_str(), "{FILE}", file);
            let full = crate::text::replace_all(step.as_str(), "{DIR}", dir);
            args.push(full);
            i = i + 1;
        }
        PreparedCommand { path: self.path.clone(), args }
    }
}

/// A named decompression profile: the file-name suffixes it recognises and
/// the commands to try, in declared order.
#[derive(Debug)]
pub struct Format {
    /// Recognised extension suffixes, e.g. `tar.gz`.
    pub extensions: Configure<Vec<String>>,
    /// Commands tried in order; the first that launches is used.
    pub decompress: Configure<Vec<Command>>,
}

/// `a` merged over `b`, field by field, first-set-wins.
pub open spec fn merged_format(a: Format, b: Format) -> Format {
    Format {
        extensions: Configure(
            if a.extensions.0 is Some {
                a.extensions.0
            } else {
                b.extensions.0
            },
        ),
        decompress: Configure(
            if a.decompress.0 is Some {
                a.decompress.0
            } else {
                b.decompress.0
            },
        ),
    }
}

impl StructMerge for Format {
    open spec fn is_merged(m: Self, a: Self, b: Self) -> bool {
        m == merged_format(a, b)
    }

    fn struct_merge(&mut self, other: Self) {
        self.extensions.merge_value(other.extensions);
        self.decompress.merge_value(other.decompress);
    }
}

/// One row of a format table: a unique name and its format.
#[derive(Debug)]
pub struct FormatEntry {
    pub name: String,
    pub format: Format,
}

/// The format table: a mapping from format name to format, in a fixed entry
/// order so that resolution is deterministic.
#[derive(Debug)]
pub struct FormatTable {
    pub entries: Vec<FormatEntry>,
}

/// Some entry of `s` is named `name`.
pub open spec fn table_has(s: Seq<FormatEntry>, name: Seq<char>) -> bool {
    exists|i: int| 0 <= i < s.len() && s[i].name@ == name
}

/// `i` is the first entry of `s` named `name`.
pub open spec fn is_first_index_of(s: Seq<FormatEntry>, name: Seq<char>, i: int) -> bool {
    &&& 0 <= i < s.len()
    &&& s[i].name@ == name
    &&& forall|j: int| 0 <= j < i ==> s[j].name@ != name
}

/// The index of the first entry of `s` named `name`.
pub open spec fn index_of_name(s: Seq<FormatEntry>, name: Seq<char>) -> int {
    choose|i: int| is_first_index_of(s, name, i)
}

/// The format under `name` in `s`.
pub open spec fn table_lookup(s: Seq<FormatEntry>, name: Seq<char>) -> Format {
    s[index_of_name(s, name)].format
}

/// A table that names an entry has a first entry of that name.
pub proof fn lemma_first_index_exists(s: Seq<FormatEntry>, name: Seq<char>)
    requires
        table_has(s, name),
    ensures
        is_first_index_of(s, name, index_of_name(s, name)),
{
    let k = choose|i: int| 0 <= i < s.len() && s[i].name@ == name;
    lemma_earliest_witness(s, name, k);
    let w = choose|i: int| is_first_index_of(s, name, i);
    assert(is_first_index_of(s, name, w));
}

proof fn lemma_earliest_witness(s: Seq<FormatEntry>, name: Seq<char>, k: int)
    requires
        0 <= k < s.len(),
        s[k].name@ == name,
    ensures
        exists|i: int| is_first_index_of(s, name, i),
    decreases k,
{
    if forall|j: int| 0 <= j < k ==> s[j].name@ != name {
        assert(is_first_index_of(s, name, k));
    } else {
        let j = choose|j: int| 0 <= j < k && s[j].name@ == name;
        lemma_earliest_witness(s, name, j);
    }
}

/// First indices are unique.
pub proof fn lemma_first_index_unique(s: Seq<FormatEntry>, name: Seq<char>, i: int, j: int)
    requires
        is_first_index_of(s, name, i),
        is_first_index_of(s, name, j),
    ensures
        i == j,
{
}

/// The entry of `acc` under the name of `e`, merged with `e`; the entry keeps
/// its name.
pub open spec fn merged_entry(a: FormatEntry, e: FormatEntry) -> FormatEntry {
    FormatEntry { name: a.name, format: merged_format(a.format, e.format) }
}

/// One step of the keyed merge: an entry of the lower layer updates the first
/// entry of the same name, or is appended when the name is new.
pub open spec fn table_merge_step(acc: Seq<FormatEntry>, e: FormatEntry) -> Seq<FormatEntry> {
    if table_has(acc, e.name@) {
        let i = index_of_name(acc, e.name@);
        acc.update(i, merged_entry(acc[i], e))
    } else {
        acc.push(e)
    }
}

/// The keyed merge of tables: entries of `acc` (the higher layer) win per
/// field; names present in either layer survive.
pub open spec fn merged_tables(acc: Seq<FormatEntry>, other: Seq<FormatEntry>) -> Seq<FormatEntry>
    decreases other.len(),
{
    if other.len() == 0 {
        acc
    } else {
        merged_tables(table_merge_step(acc, other[0]), other.skip(1))
    }
}

/// The index of the first entry of `entries` named `name`, if any.
pub fn find_name_index(entries: &Vec<FormatEntry>, name: &String) -> (r: Option<usize>)
    ensures
        match r {
            Option::Some(i) => is_first_index_of(entries@, name@, i as int),
            Option::None => !table_has(entries@, name@),
        },
{
    let mut i: usize = 0;
    while i < entries.len()
        invariant
            0 <= i <= entries@.len(),
            forall|j: int| 0 <= j < i ==> entries@[j].name@ != name@,
        decreases entries@.len() - i,
    {
        if entries[i].name == *name {
            return Option::Some(i);
        }
        i = i + 1;
    }
    Option::None
}

impl FormatTable {
    /// Merges the entries of `other` (the lower layer) into this table, key
    /// by key: a name present in both keeps this table's entry, merged
    /// field-wise with the other; a name present only in `other` is appended.
    pub fn merge_from(&mut self, other: FormatTable)
        ensures
            final(self).entries@ == merged_tables(old(self).entries@, other.entries@),
    {
        let mut rest = other.entries;
        while rest.len() > 0
            invariant
                merged_tables(self.entries@, rest@) == merged_tables(
                    old(self).entries@,
                    other.entries@,
                ),
            decreases rest@.len(),
        {
            let ghost cur = self.entries@;
            let ghost rest0 = rest@;
            let e = rest.remove(0);
            proof {
                assert(rest@ =~= rest0.skip(1));
                assert(merged_tables(cur, rest0) == merged_tables(
                    table_merge_step(cur, rest0[0]),
                    rest0.skip(1),
                ));
            }
            match find_name_index(&self.entries, &e.name) {
                Option::Some(i) => {
                    proof {
                        lemma_first_index_unique(
                            cur,
                            e.name@,
                            i as int,
                            index_of_name(cur, e.name@),
                        );
                        lemma_first_index_exists(cur, e.name@);
                    }
                    let mut entry = self.entries.remove(i);
                    let ghost before = entry;
                    entry.format.struct_merge(e.format);
                    proof {
                        assert(entry == merged_entry(before, e));
                    }
                    self.entries.insert(i, entry);
                    proof {
                        assert(self.entries@ =~= cur.update(i as int, merged_entry(cur[i as int], e)));
                        assert(self.entries@ == table_merge_step(cur, e));
                    }
                },
                Option::None => {
                    self.entries.push(e);
                    proof {
                        assert(self.entries@ == table_merge_step(cur, e));
                    }
                },
            }
        }
        proof {
            assert(merged_tables(self.entries@, rest@) == self.entries@);
        }
    }
}

/// One merge step under a different key leaves an entry untouched: presence
/// and lookup of `name` are preserved.
proof fn lemma_step_preserves_other(acc: Seq<FormatEntry>, e: FormatEntry, name: Seq<char>)
    requires
        name != e.name@,
    ensures
        table_has(table_merge_step(acc, e), name) == table_has(acc, name),
        table_has(acc, name) ==> table_lookup(table_merge_step(acc, e), name) == table_lookup(
            acc,
            name,
        ),
{
    let stepped = table_merge_step(acc, e);
    if table_has(acc, e.name@) {
        let i0 = index_of_name(acc, e.name@);
        lemma_first_index_exists(acc, e.name@);
        assert(forall|k: int| 0 <= k < acc.len() ==> stepped[k].name@ == acc[k].name@);
        if table_has(acc, name) {
            let i = index_of_name(acc, name);
            lemma_first_index_exists(acc, name);
            assert(stepped[i].name@ == name);
            assert(table_has(stepped, name));
            lemma_first_index_exists(stepped, name);
            let i2 = index_of_name(stepped, name);
            assert(acc[i2].name@ == name);
            lemma_first_index_unique(acc, name, i, i2);
            assert(i != i0);
            assert(stepped[i] == acc[i]);
        }
        if table_has(stepped, name) {
            let k = index_of_name(stepped, name);
            lemma_first_index_exists(stepped, name);
            assert(acc[k].name@ == name);
            assert(table_has(acc, name));
        }
    } else {
        if table_has(acc, name) {
            let i = index_of_name(acc, name);
            lemma_first_index_exists(acc, name);
            assert(stepped[i].name@ == name);
            assert(table_has(stepped, name));
            lemma_first_index_exists(stepped, name);
            let i2 = index_of_name(stepped, name);
            assert(i2 < acc.len());
            lemma_first_index_unique(acc, name, i, i2);
            assert(stepped[i] == acc[i]);
        }
        if table_has(stepped, name) {
            let k = index_of_name(stepped, name);
            lemma_first_index_exists(stepped, name);
            assert(k < acc.len());
            assert(table_has(acc, name));
        }
    }
}

/// A format name present in the higher layer but absent from the lower layer
/// survives the keyed merge with its entry unmodified: merging never drops a
/// key that only one side maps.
pub proof fn lemma_upper_key_survives(a: Seq<FormatEntry>, b: Seq<FormatEntry>, name: Seq<char>)
    requires
        table_has(a, name),
        !table_has(b, name),
    ensures
        table_has(merged_tables(a, b), name),
        table_lookup(merged_tables(a, b), name) == table_lookup(a, name),
    decreases b.len(),
{
    if b.len() > 0 {
        assert(b[0].name@ != name);
        lemma_step_preserves_other(a, b[0], name);
        assert(!table_has(b.skip(1), name)) by {
            if table_has(b.skip(1), name) {
                let k = choose|k: int| 0 <= k < b.skip(1).len() && b.skip(1)[k].name@ == name;
                assert(b[k + 1].name@ == name);
            }
        }
        lemma_upper_key_survives(table_merge_step(a, b[0]), b.skip(1), name);
    }
}

/// A format defined by the explicit layer alone — the root layer and the
/// built-in default know nothing of its name — stands unmodified in the
/// effective configuration.
pub proof fn lemma_custom_format_survives(
    m: Cfg,
    mid: Cfg,
    e: Cfg,
    r: Cfg,
    d: Cfg,
    name: Seq<char>,
)
    requires
        Cfg::is_merged(mid, e, r),
        Cfg::is_merged(m, mid, d),
        e.formats.0 is Some,
        d.formats.0 is Some,
        table_has(e.formats.0->0.entries@, name),
        r.formats.0 is Some ==> !table_has(r.formats.0->0.entries@, name),
        !table_has(d.formats.0->0.entries@, name),
    ensures
        m.formats.0 is Some,
        table_has(m.formats.0->0.entries@, name),
        table_lookup(m.formats.0->0.entries@, name) == table_lookup(e.formats.0->0.entries@, name),
{
    if r.formats.0 is Some {
        lemma_upper_key_survives(e.formats.0->0.entries@, r.formats.0->0.entries@, name);
    }
    lemma_upper_key_survives(mid.formats.0->0.entries@, d.formats.0->0.entries@, name);
}

/// `m` is the keyed merge of the optional format tables `a` over `b`.
pub open spec fn opt_tables_merged(
    m: Option<FormatTable>,
    a: Option<FormatTable>,
    b: Option<FormatTable>,
) -> bool {
    match (a, b) {
        (Option::Some(x), Option::Some(y)) => m is Some && m->0.entries@ == merged_tables(
            x.entries@,
            y.entries@,
        ),
        (Option::Some(x), Option::None) => m == a,
        (Option::None, _) => m == b,
    }
}

impl Configure<FormatTable> {
    /// Merge for the mapping-typed field: a table present in only one layer
    /// is taken wholesale; present in both, it is merged key by key.
    pub fn merge_struct_with_identical_key(&mut self, other: Configure<FormatTable>)
        ensures
            opt_tables_merged(final(self).0, old(self).0, other.0),
    {
        let cur = self.0.take();
        match (cur, other.0) {
            (Option::None, o) => {
                self.0 = o;
            },
            (Option::Some(t), Option::None) => {
                self.0 = Option::Some(t);
            },
            (Option::Some(mut t), Option::Some(o)) => {
                t.merge_from(o);
                self.0 = Option::Some(t);
            },
        }
    }
}

/// What to do with the decompressed output.
#[derive(Debug, Clone, Copy, PartialEq, Eq, Structural)]
pub enum OutputFileAction {
    DecompressToOutputDir,
}

/// What to do with the compressed file once decompression succeeded.
#[derive(Debug, Clone, Copy, PartialEq, Eq, Structural)]
pub enum CompressedFileAction {
    MoveToArchiveDir,
    DoNothing,
}

/// The three managed directories; a directory no layer configures stays
/// unset (the inner option), which no later step fills in.
#[derive(Debug)]
pub struct Directories {
    pub search: Configure<Option<String>>,
    pub output: Configure<Option<String>>,
    pub archive: Configure<Option<String>>,
}

impl StructMerge for Directories {
    open spec fn is_merged(m: Self, a: Self, b: Self) -> bool {
        &&& m.search.0 == (if a.search.0 is Some {
            a.search.0
        } else {
            b.search.0
        })
        &&& m.output.0 == (if a.output.0 is Some {
            a.output.0
        } else {
            b.output.0
        })
        &&& m.archive.0 == (if a.archive.0 is Some {
            a.archive.0
        } else {
            b.archive.0
        })
    }

    fn struct_merge(&mut self, other: Self) {
        self.search.merge_value(other.search);
        self.output.merge_value(other.output);
        self.archive.merge_value(other.archive);
    }
}

impl Directories {
    /// A configured relative directory, joined against `relative_to`; an
    /// absolute one stands; an unset one stays unset. All three fields must
    /// have been populated by the merge.
    pub fn to_absolute(&self, relative_to: &str) -> (r: Directories)
        requires
            self.search.0 is Some,
            self.output.0 is Some,
            self.archive.0 is Some,
        ensures
            r.search.0 is Some && opt_path_resolved(r.search.0->0, self.search.0->0, relative_to@),
            r.output.0 is Some && opt_path_resolved(r.output.0->0, self.output.0->0, relative_to@),
            r.archive.0 is Some && opt_path_resolved(
                r.archive.0->0,
                self.archive.0->0,
                relative_to@,
            ),
    {
        Directories {
            search: Configure(Option::Some(resolve_opt_path(self.search.c(), relative_to))),
            output: Configure(Option::Some(resolve_opt_path(self.output.c(), relative_to))),
            archive: Configure(Option::Some(resolve_opt_path(self.archive.c(), relative_to))),
        }
    }
}

/// `r` is `p` made absolute against `base` (set paths joined when relative,
/// unset stays unset).
pub open spec fn opt_path_resolved(r: Option<String>, p: Option<String>, base: Seq<char>) -> bool {
    match p {
        Option::Some(path) => r is Some && r->0@ == crate::text::joined_path(base, path@),
        Option::None => r is None,
    }
}

/// Makes one optional directory path absolute against `base`.
fn resolve_opt_path(p: &Option<String>, base: &str) -> (r: Option<String>)
    ensures
        opt_path_resolved(r, *p, base@),
{
    match p {
        Option::Some(path) => {
            let path_len = path.as_str().unicode_len();
            if path_len > 0 && path.as_str().get_char(0) == '/' {
                Option::Some(path.clone())
            } else {
                Option::Some(crate::text::join_path(base, path.as_str()))
            }
        },
        Option::None => Option::None,
    }
}

/// Settings of the file-managing command.
#[derive(Debug)]
pub struct ManageCommandCfg {
    /// Flatten a superfluous single-child wrapper directory in the output.
    pub smart_decompress_directory: Configure<bool>,
    /// Offer files from the search directory when none is given.
    pub search_file: Configure<bool>,
    /// What to do with the output once finished.
    pub output_file_action: Configure<OutputFileAction>,
    /// What to do with the compressed file once finished.
    pub compressed_file_action: Configure<CompressedFileAction>,
    pub directories: Configure<Directories>,
}

impl StructMerge for ManageCommandCfg {
    open spec fn is_merged(m: Self, a: Self, b: Self) -> bool {
        &&& m.smart_decompress_directory.0 == (if a.smart_decompress_directory.0 is Some {
            a.smart_decompress_directory.0
        } else {
            b.smart_decompress_directory.0
        })
        &&& m.search_file.0 == (if a.search_file.0 is Some {
            a.search_file.0
        } else {
            b.search_file.0
        })
        &&& m.output_file_action.0 == (if a.output_file_action.0 is Some {
            a.output_file_action.0
        } else {
            b.output_file_action.0
        })
        &&& m.compressed_file_action.0 == (if a.compressed_file_action.0 is Some {
            a.compressed_file_action.0
        } else {
            b.compressed_file_action.0
        })
        &&& opt_struct_merged(m.directories.0, a.directories.0, b.directories.0)
    }

    fn struct_merge(&mut self, other: Self) {
        self.smart_decompress_directory.merge_value(other.smart_decompress_directory);
        self.search_file.merge_value(other.search_file);
        self.output_file_action.merge_value(other.output_file_action);
        self.compressed_file_action.merge_value(other.compressed_file_action);
        self.directories.merge_struct(other.directories);
    }
}

/// The command table of a configuration layer.
#[derive(Debug)]
pub struct CommandsCfg {
    pub manage: Configure<ManageCommandCfg>,
}

impl StructMerge for CommandsCfg {
    open spec fn is_merged(m: Self, a: Self, b: Self) -> bool {
        opt_struct_merged(m.manage.0, a.manage.0, b.manage.0)
    }

    fn struct_merge(&mut self, other: Self) {
        self.manage.merge_struct(other.manage);
    }
}

/// One configuration layer; the result of the merge is a `Cfg` as well.
#[derive(Debug)]
pub struct Cfg {
    pub formats: Configure<FormatTable>,
    pub commands: Configure<CommandsCfg>,
}

impl StructMerge for Cfg {
    open spec fn is_merged(m: Self, a: Self, b: Self) -> bool {
        &&& opt_tables_merged(m.formats.0, a.formats.0, b.formats.0)
        &&& opt_struct_merged(m.commands.0, a.commands.0, b.commands.0)
    }

    fn struct_merge(&mut self, other: Self) {
        self.formats.merge_struct_with_identical_key(other.formats);
        self.commands.merge_struct(other.commands);
    }
}

/// Every field of the managed-command settings is populated, the directory
/// table included.
pub open spec fn manage_complete(m: ManageCommandCfg) -> bool {
    &&& m.smart_decompress_directory.0 is Some
    &&& m.search_file.0 is Some
    &&& m.output_file_action.0 is Some
    &&& m.compressed_file_action.0 is Some
    &&& m.directories.0 is Some
    &&& m.directories.0->0.search.0 is Some
    &&& m.directories.0->0.output.0 is Some
    &&& m.directories.0->0.archive.0 is Some
}

impl Cfg {
    /// Every field outside the per-format entries is populated: such a
    /// configuration can be dereferenced without a missing-value failure.
    pub open spec fn complete(self) -> bool {
        &&& self.formats.0 is Some
        &&& self.commands.0 is Some
        &&& self.commands.0->0.manage.0 is Some
        &&& manage_complete(self.commands.0->0.manage.0->0)
    }
}

impl Default for Cfg {
    /// The built-in default layer. It is complete, so an effective
    /// configuration merged over it has every field populated.
    fn default() -> (r: Cfg)
        ensures
            r.complete(),
            r.formats.0 is Some,
    {
        let tar = FormatEntry {
            name: "tar".to_owned(),
            format: Format {
                extensions: Configure(Option::Some(vec!["tar".to_owned()])),
                decompress: Configure(
                    Option::Some(
                        vec![
                            Command {
                                path: "tar".to_owned(),
                                args: vec![
                                    "-xf".to_owned(),
                                    "{FILE}".to_owned(),
                                    "-C".to_owned(),
                                    "{DIR}".to_owned(),
                                ],
                            },
                        ],
                    ),
                ),
            },
        };
        let tar_gz = FormatEntry {
            name: "tar-gz".to_owned(),
            format: Format {
                extensions: Configure(Option::Some(vec!["tar.gz".to_owned(), "tgz".to_owned()])),
                decompress: Configure(
                    Option::Some(
                        vec![
                            Command {
                                path: "tar".to_owned(),
                                args: vec![
                                    "-xzf".to_owned(),
                                    "{FILE}".to_owned(),
                                    "-C".to_owned(),
                                    "{DIR}".to_owned(),
                                ],
                            },
                        ],
                    ),
                ),
            },
        };
        let zip = FormatEntry {
            name: "zip".to_owned(),
            format: Format {
                extensions: Configure(Option::Some(vec!["zip".to_owned()])),
                decompress: Configure(
                    Option::Some(
                        vec![
                            Command {
                                path: "unzip".to_owned(),
                                args: vec![
                                    "{FILE}".to_owned(),
                                    "-d".to_owned(),
                                    "{DIR}".to_owned(),
                                ],
                            },
                            Command {
                                path: "7z".to_owned(),
                                args: vec!["x".to_owned(), "{FILE}".to_owned(), "-o{DIR}".to_owned()],
                            },
                        ],
                    ),
                ),
            },
        };
        Cfg {
            formats: Configure(Option::Some(FormatTable { entries: vec![tar, tar_gz, zip] })),
            commands: Configure(
                Option::Some(
                    CommandsCfg {
                        manage: Configure(
                            Option::Some(
                                ManageCommandCfg {
                                    smart_decompress_directory: Configure(Option::Some(true)),
                                    search_file: Configure(Option::Some(true)),
                                    output_file_action: Configure(
                                        Option::Some(OutputFileAction::DecompressToOutputDir),
                                    ),
                                    compressed_file_action: Configure(
                                        Option::Some(CompressedFileAction::MoveToArchiveDir),
                                    ),
                                    directories: Configure(
                                        Option::Some(
                                            Directories {
                                                search: Configure(Option::Some(Option::None)),
                                                output: Configure(Option::Some(Option::None)),
                                                archive: Configure(Option::Some(Option::None)),
                                            },
                                        ),
                                    ),
                                },
                            ),
                        ),
                    },
                ),
            ),
        }
    }
}

/// Path, below a project root, of the project-level configuration file.
pub fn root_cfg_path(root: &str) -> (r: String)
    ensures
        r@ == crate::text::joined_path(
            crate::text::joined_path(root@, ".chewwy"@),
            "cfg.toml"@,
        ),
{
    let step = crate::text::join_path(root, ".chewwy");
    crate::text::join_path(step.as_str(), "cfg.toml")
}

/// `a` if set, else `b`: the per-field precedence rule.
pub open spec fn first_set<T>(a: Option<T>, b: Option<T>) -> Option<T> {
    if a is Some {
        a
    } else {
        b
    }
}

/// The managed-command settings of a layer, when the layer sets them.
pub open spec fn manage_of(c: Cfg) -> Option<ManageCommandCfg> {
    match c.commands.0 {
        Option::Some(cc) => cc.manage.0,
        Option::None => Option::None,
    }
}

/// The directory-flattening switch of a layer, when set along its whole path.
pub open spec fn smart_decompress_setting(c: Cfg) -> Option<bool> {
    match manage_of(c) {
        Option::Some(m) => m.smart_decompress_directory.0,
        Option::None => Option::None,
    }
}

/// The file-search switch of a layer, when set along its whole path.
pub open spec fn search_file_setting(c: Cfg) -> Option<bool> {
    match manage_of(c) {
        Option::Some(m) => m.search_file.0,
        Option::None => Option::None,
    }
}

/// The output action of a layer, when set along its whole path.
pub open spec fn output_action_setting(c: Cfg) -> Option<OutputFileAction> {
    match manage_of(c) {
        Option::Some(m) => m.output_file_action.0,
        Option::None => Option::None,
    }
}

/// The compressed-file action of a layer, when set along its whole path.
pub open spec fn compressed_action_setting(c: Cfg) -> Option<CompressedFileAction> {
    match manage_of(c) {
        Option::Some(m) => m.compressed_file_action.0,
        Option::None => Option::None,
    }
}

/// The directory table of a layer, when set along its whole path.
pub open spec fn directories_of(c: Cfg) -> Option<Directories> {
    match manage_of(c) {
        Option::Some(m) => m.directories.0,
        Option::None => Option::None,
    }
}

/// The search directory of a layer, when set along its whole path.
pub open spec fn search_dir_setting(c: Cfg) -> Option<Option<String>> {
    match directories_of(c) {
        Option::Some(d) => d.search.0,
        Option::None => Option::None,
    }
}

/// The output directory of a layer, when set along its whole path.
pub open spec fn output_dir_setting(c: Cfg) -> Option<Option<String>> {
    match directories_of(c) {
        Option::Some(d) => d.output.0,
        Option::None => Option::None,
    }
}

/// The archive directory of a layer, when set along its whole path.
pub open spec fn archive_dir_setting(c: Cfg) -> Option<Option<String>> {
    match directories_of(c) {
        Option::Some(d) => d.archive.0,
        Option::None => Option::None,
    }
}

/// For every scalar field of one merge step, the result holds the value of
/// `a` when `a` sets it, else the value of `b`.
pub proof fn lemma_merge_scalar_fields(m: Cfg, a: Cfg, b: Cfg)
    requires
        Cfg::is_merged(m, a, b),
    ensures
        smart_decompress_setting(m) == first_set(
            smart_decompress_setting(a),
            smart_decompress_setting(b),
        ),
        search_file_setting(m) == first_set(search_file_setting(a), search_file_setting(b)),
        output_action_setting(m) == first_set(output_action_setting(a), output_action_setting(b)),
        compressed_action_setting(m) == first_set(
            compressed_action_setting(a),
            compressed_action_setting(b),
        ),
        search_dir_setting(m) == first_set(search_dir_setting(a), search_dir_setting(b)),
        output_dir_setting(m) == first_set(output_dir_setting(a), output_dir_setting(b)),
        archive_dir_setting(m) == first_set(archive_dir_setting(a), archive_dir_setting(b)),
{
}

/// A complete lower layer makes the merge result complete: after merging over
/// the built-in default, every field may be dereferenced.
pub proof fn lemma_merge_complete(m: Cfg, a: Cfg, b: Cfg)
    requires
        Cfg::is_merged(m, a, b),
        b.complete(),
    ensures
        m.complete(),
{
}

/// `m` is the three-layer merge of the optional explicit layer over the
/// optional project-root layer over the built-in default.
pub open spec fn layered(m: Cfg, explicit: Option<Cfg>, root: Option<Cfg>, default_cfg: Cfg) -> bool {
    match (explicit, root) {
        (Option::None, Option::None) => m == default_cfg,
        (Option::Some(e), Option::None) => Cfg::is_merged(m, e, default_cfg),
        (Option::None, Option::Some(r)) => Cfg::is_merged(m, r, default_cfg),
        (Option::Some(e), Option::Some(r)) => exists|mid: Cfg|
            Cfg::is_merged(mid, e, r) && Cfg::is_merged(m, mid, default_cfg),
    }
}

/// Builds the effective configuration from the layers present, with
/// explicit-over-root-over-default precedence. Absent layers merge as
/// identity: with no explicit and no root layer the result is the default,
/// unchanged.
pub fn merge_layers(explicit: Option<Cfg>, root: Option<Cfg>, default_cfg: Cfg) -> (r: Cfg)
    ensures
        layered(r, explicit, root, default_cfg),
{
    match (explicit, root) {
        (Option::None, Option::None) => default_cfg,
        (Option::Some(mut e), Option::None) => {
            e.struct_merge(default_cfg);
            e
        },
        (Option::None, Option::Some(mut rt)) => {
            rt.struct_merge(default_cfg);
            rt
        },
        (Option::Some(mut e), Option::Some(rt)) => {
            e.struct_merge(rt);
            let ghost mid = e;
            e.struct_merge(default_cfg);
            proof {
                assert(Cfg::is_merged(e, mid, default_cfg));
            }
            e
        },
    }
}

/// Effective precedence over all three layers: for every scalar field the
/// result equals the value from explicit if set, else root if set, else
/// default.
pub proof fn lemma_layer_precedence(m: Cfg, mid: Cfg, e: Cfg, r: Cfg, d: Cfg)
    requires
        Cfg::is_merged(mid, e, r),
        Cfg::is_merged(m, mid, d),
    ensures
        smart_decompress_setting(m) == first_set(
            smart_decompress_setting(e),
            first_set(smart_decompress_setting(r), smart_decompress_setting(d)),
        ),
        search_file_setting(m) == first_set(
            search_file_setting(e),
            first_set(search_file_setting(r), search_file_setting(d)),
        ),
        output_action_setting(m) == first_set(
            output_action_setting(e),
            first_set(output_action_setting(r), output_action_setting(d)),
        ),
        compressed_action_setting(m) == first_set(
            compressed_action_setting(e),
            first_set(compressed_action_setting(r), compressed_action_setting(d)),
        ),
        search_dir_setting(m) == first_set(
            search_dir_setting(e),
            first_set(search_dir_setting(r), search_dir_setting(d)),
        ),
        output_dir_setting(m) == first_set(
            output_dir_setting(e),
            first_set(output_dir_setting(r), output_dir_setting(d)),
        ),
        archive_dir_setting(m) == first_set(
            archive_dir_setting(e),
            first_set(archive_dir_setting(r), archive_dir_setting(d)),
        ),
{
    lemma_merge_scalar_fields(mid, e, r);
    lemma_merge_scalar_fields(m, mid, d);
}

/// A merge over a complete default yields a complete configuration, whatever
/// layers are present.
pub proof fn lemma_layered_complete(m: Cfg, explicit: Option<Cfg>, root: Option<Cfg>, d: Cfg)
    requires
        layered(m, explicit, root, d),
        d.complete(),
    ensures
        m.complete(),
{
    match (explicit, root) {
        (Option::None, Option::None) => {},
        (Option::Some(e), Option::None) => {
            lemma_merge_complete(m, e, d);
        },
        (Option::None, Option::Some(r)) => {
            lemma_merge_complete(m, r, d);
        },
        (Option::Some(e), Option::Some(r)) => {
            let mid = choose|mid: Cfg| Cfg::is_merged(mid, e, r) && Cfg::is_merged(m, mid, d);
            lemma_merge_complete(m, mid, d);
        },
    }
}

} // verus!
