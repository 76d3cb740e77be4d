//! Format resolution and decompression invocation.
//!
//! Resolution splits the base name of a file into dot-delimited suffixes and
//! tries the longest suffix first: for `a.tar.gz` the candidate `tar.gz` is
//! tried before `gz`, and the first table entry claiming the candidate wins.
//!
//! Invocation is a small protocol around the caller, which alone may launch
//! processes: [`FileArchiver::begin_decompress`] resolves the format,
//! [`Decompression::pending`] hands out the next prepared command, and
//! [`Decompression::absorb`] classifies what running it reported. A launch
//! failure of kind "executable not found" moves on to the next configured
//! command; every other report ends the exchange.

use vstd::prelude::*;

verus! {

use vstd::string::StrSliceExecFns;
use vstd::string::StringExecFns;
use crate::cfg::Command;
use crate::cfg::Format;
use crate::cfg::FormatEntry;
use crate::cfg::FormatTable;
use crate::cfg::PreparedCommand;
use crate::cfg::prepared_like;
use crate::cfg::subst_arg;

/// `s` holds a path separator.
pub open spec fn has_separator(s: Seq<char>) -> bool {
    exists|i: int| 0 <= i < s.len() && s[i] == '/'
}

/// `i` is the position of the last separator of `s`.
pub open spec fn is_last_separator(s: Seq<char>, i: int) -> bool {
    &&& 0 <= i < s.len()
    &&& s[i] == '/'
    &&& forall|j: int| i < j < s.len() ==> s[j] != '/'
}

/// The position of the last separator of `s`.
pub open spec fn last_separator(s: Seq<char>) -> int {
    choose|i: int| is_last_separator(s, i)
}

/// The base name of a path: everything after the last separator, or the
/// whole string when there is none.
pub open spec fn base_name(s: Seq<char>) -> Seq<char> {
    if has_separator(s) {
        s.subrange(last_separator(s) + 1, s.len() as int)
    } else {
        s
    }
}

proof fn lemma_last_separator_unique(s: Seq<char>, i: int, j: int)
    requires
        is_last_separator(s, i),
        is_last_separator(s, j),
    ensures
        i == j,
{
}

/// The base name of `file`.
fn base_of<'a>(file: &'a str) -> (r: &'a str)
    ensures
        r@ == base_name(file@),
{
    let n = file.unicode_len();
    let mut i: usize = n;
    while i > 0
        invariant
            0 <= i <= n,
            n == file@.len(),
            forall|j: int| i <= j < n ==> file@[j] != '/',
        decreases i,
    {
        if file.get_char(i - 1) == '/' {
            proof {
                assert(is_last_separator(file@, i - 1));
                assert(has_separator(file@));
                lemma_last_separator_unique(file@, i - 1, last_separator(file@));
            }
            return file.substring_char(i, n);
        }
        i = i - 1;
    }
    proof {
        assert(!has_separator(file@));
    }
    file
}

/// The format claims the extension suffix `ext`: its extension set is
/// populated and holds `ext`. A format whose extension set no layer
/// populated claims nothing.
pub open spec fn format_claims(f: Format, ext: Seq<char>) -> bool {
    &&& f.extensions.0 is Some
    &&& exists|i: int| 0 <= i < f.extensions.0->0@.len() && f.extensions.0->0@[i]@ == ext
}

fn format_claims_exec(f: &Format, ext: &String) -> (b: bool)
    ensures
        b == format_claims(*f, ext@),
{
    match &f.extensions.0 {
        Option::Some(v) => {
            proof {
                assert(*v == f.extensions.0->0);
            }
            let mut i: usize = 0;
            while i < v.len()
                invariant
                    0 <= i <= v@.len(),
                    f.extensions.0 is Some,
                    *v == f.extensions.0->0,
                    forall|j: int| 0 <= j < i ==> v@[j]@ != ext@,
                decreases v@.len() - i,
            {
                if v[i] == *ext {
                    proof {
                        assert(f.extensions.0->0@[i as int]@ == ext@);
                        assert(exists|k: int|
                            0 <= k < f.extensions.0->0@.len() && f.extensions.0->0@[k]@ == ext@);
                    }
                    return true;
                }
                i = i + 1;
            }
            false
        },
        Option::None => false,
    }
}

/// Some entry of the table claims `ext`.
pub open spec fn any_claims(table: Seq<FormatEntry>, ext: Seq<char>) -> bool {
    exists|e: int| 0 <= e < table.len() && format_claims(table[e].format, ext)
}

/// `e` is the first entry of the table claiming `ext`.
pub open spec fn is_first_claimer(table: Seq<FormatEntry>, ext: Seq<char>, e: int) -> bool {
    &&& 0 <= e < table.len()
    &&& format_claims(table[e].format, ext)
    &&& forall|j: int| 0 <= j < e ==> !format_claims(table[j].format, ext)
}

/// The candidate suffix starting right after the dot at position `j`.
pub open spec fn suffix_from(base: Seq<char>, j: int) -> Seq<char> {
    base.subrange(j + 1, base.len() as int)
}

/// The dot at position `j` wins: some format claims the suffix after it, and
/// no earlier dot — that is, no longer suffix — has a claimed suffix.
pub open spec fn is_winning_dot(table: Seq<FormatEntry>, base: Seq<char>, j: int) -> bool {
    &&& 0 <= j < base.len()
    &&& base[j] == '.'
    &&& any_claims(table, suffix_from(base, j))
    &&& forall|j2: int| 0 <= j2 < j && base[j2] == '.' ==> !any_claims(table, suffix_from(base, j2))
}

/// Resolution finds entry `e`: the longest claimed dot-suffix of the base
/// name of `file` is claimed first by entry `e`.
pub open spec fn resolves_to(table: Seq<FormatEntry>, file: Seq<char>, e: int) -> bool {
    exists|j: int|
        is_winning_dot(table, base_name(file), j) && is_first_claimer(
            table,
            suffix_from(base_name(file), j),
            e,
        )
}

/// No dot-suffix of the base name of `file` is claimed by any entry; in
/// particular a base name without a dot resolves to nothing.
pub open spec fn no_resolution(table: Seq<FormatEntry>, file: Seq<char>) -> bool {
    forall|j: int|
        0 <= j < base_name(file).len() && base_name(file)[j] == '.' ==> !any_claims(
            table,
            suffix_from(base_name(file), j),
        )
}

/// Finds the table entry for `file`, longest claimed suffix first, earlier
/// entries winning ties on one suffix.
pub fn find_format(formats: &FormatTable, file: &str) -> (r: Option<usize>)
    ensures
        match r {
            Option::Some(e) => resolves_to(formats.entries@, file@, e as int),
            Option::None => no_resolution(formats.entries@, file@),
        },
{
    let base = base_of(file);
    let n = base.unicode_len();
    let mut j: usize = 0;
    while j < n
        invariant
            0 <= j <= n,
            n == base@.len(),
            base@ == base_name(file@),
            forall|j2: int|
                0 <= j2 < j && base@[j2] == '.' ==> !any_claims(
                    formats.entries@,
                    suffix_from(base@, j2),
                ),
        decreases n - j,
    {
        if base.get_char(j) == '.' {
            let cand: String = base.substring_char(j + 1, n).to_owned();
            proof {
                assert(cand@ == suffix_from(base@, j as int));
            }
            let mut e: usize = 0;
            while e < formats.entries.len()
                invariant
                    0 <= e <= formats.entries@.len(),
                    0 <= j < n,
                    n == base@.len(),
                    base@ == base_name(file@),
                    base@[j as int] == '.',
                    cand@ == suffix_from(base@, j as int),
                    forall|j2: int|
                        0 <= j2 < j && base@[j2] == '.' ==> !any_claims(
                            formats.entries@,
                            suffix_from(base@, j2),
                        ),
                    forall|e2: int|
                        0 <= e2 < e ==> !format_claims(formats.entries@[e2].format, cand@),
                decreases formats.entries@.len() - e,
            {
                if format_claims_exec(&formats.entries[e].format, &cand) {
                    proof {
                        assert(format_claims(
                            formats.entries@[e as int].format,
                            suffix_from(base@, j as int),
                        ));
                        assert(any_claims(formats.entries@, suffix_from(base@, j as int)));
                        assert(is_winning_dot(formats.entries@, base@, j as int));
                        assert(is_first_claimer(formats.entries@, cand@, e as int));
                    }
                    return Option::Some(e);
                }
                e = e + 1;
            }
            proof {
                assert(!any_claims(formats.entries@, suffix_from(base@, j as int)));
            }
        }
        j = j + 1;
    }
    Option::None
}

/// Resolution is a function of the file name and the table alone: the same
/// arguments resolve to the same entry every time.
pub proof fn lemma_resolution_deterministic(
    table: Seq<FormatEntry>,
    file: Seq<char>,
    e1: int,
    e2: int,
)
    requires
        resolves_to(table, file, e1),
        resolves_to(table, file, e2),
    ensures
        e1 == e2,
{
    let base = base_name(file);
    let j1 = choose|j: int|
        is_winning_dot(table, base, j) && is_first_claimer(table, suffix_from(base, j), e1);
    let j2 = choose|j: int|
        is_winning_dot(table, base, j) && is_first_claimer(table, suffix_from(base, j), e2);
    assert(j1 == j2) by {
        if j1 < j2 {
            assert(!any_claims(table, suffix_from(base, j1)));
        } else if j2 < j1 {
            assert(!any_claims(table, suffix_from(base, j2)));
        }
    }
}

/// A file whose base name holds no dot resolves to no format.
pub proof fn lemma_no_dot_no_format(table: Seq<FormatEntry>, file: Seq<char>)
    requires
        forall|i: int| 0 <= i < base_name(file).len() ==> base_name(file)[i] != '.',
    ensures
        no_resolution(table, file),
{
}

/// The typed outcome of one decompression attempt, with enough context for a
/// precise diagnostic.
#[derive(Debug)]
pub enum DecompressError {
    /// No configured format claims any dot-suffix of the file's base name.
    NoFormatAvailable { file: String },
    /// A format was found, but none of its commands is installed.
    NoCommandAvailable { file: String, found_format_name: String },
    /// A command failed to launch for a reason other than "not found".
    RunCommandError { command_str: String, command: Command, io_message: String, format: String },
    /// The child exited with a nonzero numeric status.
    ChildReturnErrorCode { command_str: String, command: Command, code: i32, format: String },
    /// The child terminated without an exit code.
    ChildError { command_str: String, command: Command, format: String },
    /// Waiting on the launched child failed.
    ChildWaitReturnError { command_str: String, command: Command, format: String, io_message: String },
}

/// What the caller reports about running one prepared command.
#[derive(Debug)]
pub enum RunEvent {
    /// The executable was not found; the next configured command is tried.
    NotFound,
    /// The launch failed for another reason; `message` describes the cause.
    SpawnFailed { message: String },
    /// The child exited with status zero.
    ExitedSuccess,
    /// The child exited with the nonzero status `code`.
    ExitedCode { code: i32 },
    /// The child terminated without an exit code.
    ExitedSignal,
    /// Waiting on the child failed; `message` describes the cause.
    WaitFailed { message: String },
}

/// The shape of a final outcome, stripped of its diagnostic context.
#[derive(Debug, Clone, Copy, PartialEq, Eq, Structural)]
pub enum OutcomeKind {
    Success,
    NoFormat,
    NoCommand,
    RunFailure,
    ChildCode { code: i32 },
    ChildSignal,
    WaitFailure,
}

/// The outcome one event settles, or `None` when the exchange goes on with
/// the next command: only "executable not found" triggers the fallback.
pub open spec fn step_kind(ev: RunEvent) -> Option<OutcomeKind> {
    match ev {
        RunEvent::NotFound => Option::None,
        RunEvent::SpawnFailed { .. } => Option::Some(OutcomeKind::RunFailure),
        RunEvent::ExitedSuccess => Option::Some(OutcomeKind::Success),
        RunEvent::ExitedCode { code } => Option::Some(OutcomeKind::ChildCode { code }),
        RunEvent::ExitedSignal => Option::Some(OutcomeKind::ChildSignal),
        RunEvent::WaitFailed { .. } => Option::Some(OutcomeKind::WaitFailure),
    }
}

/// The shape of a concrete outcome.
pub open spec fn outcome_kind_of(r: Result<(), DecompressError>) -> OutcomeKind {
    match r {
        Result::Ok(_) => OutcomeKind::Success,
        Result::Err(e) => match e {
            DecompressError::NoFormatAvailable { .. } => OutcomeKind::NoFormat,
            DecompressError::NoCommandAvailable { .. } => OutcomeKind::NoCommand,
            DecompressError::RunCommandError { .. } => OutcomeKind::RunFailure,
            DecompressError::ChildReturnErrorCode { code, .. } => OutcomeKind::ChildCode { code },
            DecompressError::ChildError { .. } => OutcomeKind::ChildSignal,
            DecompressError::ChildWaitReturnError { .. } => OutcomeKind::WaitFailure,
        },
    }
}

/// The outcome of a whole exchange: with `remaining` commands left to try and
/// the given events reported one per attempt, the first settling event wins;
/// running out of commands yields `NoCommand`; `None` means the event list
/// ended before the exchange did.
pub open spec fn protocol_kind(remaining: int, events: Seq<RunEvent>) -> Option<OutcomeKind>
    decreases events.len(),
{
    if remaining <= 0 {
        Option::Some(OutcomeKind::NoCommand)
    } else if events.len() == 0 {
        Option::None
    } else {
        match step_kind(events[0]) {
            Option::Some(k) => Option::Some(k),
            Option::None => protocol_kind(remaining - 1, events.skip(1)),
        }
    }
}

/// A format none of whose command executables exists on the system: when
/// every launch attempt reports "not found", the exchange ends in
/// `NoCommand`, never in a crash or another error.
pub proof fn lemma_every_command_missing_no_command(remaining: int, events: Seq<RunEvent>)
    requires
        0 <= remaining <= events.len(),
        forall|i: int| 0 <= i < events.len() ==> events[i] is NotFound,
    ensures
        protocol_kind(remaining, events) == Option::Some(OutcomeKind::NoCommand),
    decreases events.len(),
{
    if remaining > 0 {
        assert(events[0] is NotFound);
        assert(forall|i: int|
            0 <= i < events.skip(1).len() ==> events.skip(1)[i] == events[i + 1]);
        lemma_every_command_missing_no_command(remaining - 1, events.skip(1));
    }
}

/// The views of a vector of strings.
pub open spec fn views_of(args: Seq<String>) -> Seq<Seq<char>> {
    Seq::new(args.len(), |i: int| args[i]@)
}

/// The arguments of `c`, substituted for `file` and `dir`.
pub open spec fn subst_args(c: Command, file: Seq<char>, dir: Seq<char>) -> Seq<Seq<char>> {
    Seq::new(c.args@.len(), |i: int| subst_arg(c.args@[i]@, file, dir))
}

/// The rendering of arguments from index `i` on: each preceded by a space.
pub open spec fn rendered_tail(args: Seq<Seq<char>>, i: int) -> Seq<char>
    decreases args.len() - i,
{
    if i < 0 || i >= args.len() {
        Seq::empty()
    } else {
        seq![' '] + args[i] + rendered_tail(args, i + 1)
    }
}

/// The one-line rendering of the command `c` as launched for `file` and
/// `dir`: the path, then each substituted argument preceded by a space.
pub open spec fn rendered_attempt(c: Command, file: Seq<char>, dir: Seq<char>) -> Seq<char> {
    c.path@ + rendered_tail(subst_args(c, file, dir), 0)
}

/// Renders a prepared command as its path followed by its arguments,
/// space-separated.
fn render_command(p: &PreparedCommand) -> (r: String)
    ensures
        r@ == p.path@ + rendered_tail(views_of(p.args@), 0),
{
    let ghost vs = views_of(p.args@);
    let mut out = p.path.clone();
    let mut i: usize = 0;
    proof {
        assert(out@ + rendered_tail(vs, 0) == p.path@ + rendered_tail(vs, 0));
    }
    while i < p.args.len()
        invariant
            0 <= i <= p.args@.len(),
            vs == views_of(p.args@),
            out@ + rendered_tail(vs, i as int) == p.path@ + rendered_tail(vs, 0),
        decreases p.args@.len() - i,
    {
        let ghost prev = out@;
        out.append(" ");
        out.append(p.args[i].as_str());
        proof {
            reveal_strlit(" ");
            assert(" "@ =~= seq![' ']);
            assert(out@ == (prev + " "@) + p.args@[i as int]@);
            assert(rendered_tail(vs, i as int) == seq![' '] + vs[i as int] + rendered_tail(
                vs,
                i + 1,
            ));
            assert(vs[i as int] == p.args@[i as int]@);
            assert(out@ + rendered_tail(vs, i + 1) =~= prev + rendered_tail(vs, i as int));
        }
        i = i + 1;
    }
    proof {
        assert(rendered_tail(vs, i as int) =~= Seq::<char>::empty());
        assert(out@ + Seq::<char>::empty() =~= out@);
    }
    out
}

/// Commands equal in content: same path, same argument templates.
pub open spec fn cmd_like(a: Command, b: Command) -> bool {
    a.path@ == b.path@ && a.args@ == b.args@
}

/// Command lists equal in content, element for element.
pub open spec fn cmds_like(a: Seq<Command>, b: Seq<Command>) -> bool {
    &&& a.len() == b.len()
    &&& forall|i: int| 0 <= i < a.len() ==> cmd_like(#[trigger] a[i], b[i])
}

/// Copies a command list, element for element.
fn clone_commands(v: &Vec<Command>) -> (r: Vec<Command>)
    ensures
        cmds_like(r@, v@),
{
    let mut r: Vec<Command> = Vec::new();
    let mut i: usize = 0;
    while i < v.len()
        invariant
            0 <= i <= v@.len(),
            r@.len() == i,
            forall|j: int| 0 <= j < i ==> cmd_like(#[trigger] r@[j], v@[j]),
        decreases v@.len() - i,
    {
        r.push(v[i].clone());
        i = i + 1;
    }
    r
}

/// The configured command list of a format; a format whose command list no
/// layer populated has none to try.
pub open spec fn commands_of(f: Format) -> Seq<Command> {
    if f.decompress.0 is Some {
        f.decompress.0->0@
    } else {
        Seq::empty()
    }
}

/// One decompression exchange: the resolved format's commands, tried in
/// declared order, and how far the fallback has come.
#[derive(Debug)]
pub struct Decompression {
    pub file: String,
    pub dir: String,
    pub format_name: String,
    pub commands: Vec<Command>,
    pub next: usize,
}

impl Decompression {
    /// The next command to try, prepared for this exchange's file and
    /// destination directory, or `None` when every command was tried.
    pub fn pending(&self) -> (r: Option<PreparedCommand>)
        ensures
            match r {
                Option::Some(p) => self.next < self.commands@.len() && prepared_like(
                    p,
                    self.commands@[self.next as int],
                    self.file@,
                    self.dir@,
                ),
                Option::None => self.next >= self.commands@.len(),
            },
    {
        if self.next < self.commands.len() {
            Option::Some(
                self.commands[self.next].decompress_command_format(
                    self.file.as_str(),
                    self.dir.as_str(),
                ),
            )
        } else {
            Option::None
        }
    }

    /// The error that ends an exchange whose every command was tried and
    /// reported missing: the format was recognised, no command is available.
    pub fn finish_no_command(&self) -> (e: DecompressError)
        requires
            self.next >= self.commands@.len(),
        ensures
            (e matches DecompressError::NoCommandAvailable { file, found_format_name } && file@
                == self.file@ && found_format_name@ == self.format_name@),
            outcome_kind_of(Result::Err(e)) == OutcomeKind::NoCommand,
    {
        DecompressError::NoCommandAvailable {
            file: self.file.clone(),
            found_format_name: self.format_name.clone(),
        }
    }

    /// The rendering and a copy of the command about to be tried.
    fn current_attempt(&self) -> (r: (String, Command))
        requires
            self.next < self.commands@.len(),
        ensures
            r.0@ == rendered_attempt(self.commands@[self.next as int], self.file@, self.dir@),
            cmd_like(r.1, self.commands@[self.next as int]),
    {
        let p = self.commands[self.next].decompress_command_format(
            self.file.as_str(),
            self.dir.as_str(),
        );
        proof {
            assert(views_of(p.args@) =~= subst_args(
                self.commands@[self.next as int],
                self.file@,
                self.dir@,
            ));
        }
        let s = render_command(&p);
        (s, self.commands[self.next].clone())
    }

    /// One protocol step: classifies what the caller reports about running
    /// the pending command. "Not found" alone continues with the next
    /// command (`None`); every other event settles the exchange, with the
    /// outcome `step_kind` gives, so a full exchange follows `protocol_kind`.
    /// Once a command has launched there is no retry: any exit, successful or
    /// not, is final.
    pub fn absorb(&mut self, event: RunEvent) -> (r: Option<Result<(), DecompressError>>)
        requires
            old(self).next < old(self).commands@.len(),
        ensures
            (r is None) == (event is NotFound),
            r is Some ==> step_kind(event) is Some && outcome_kind_of(r->0) == step_kind(event)->0,
            event is NotFound ==> final(self).next == old(self).next + 1
                && final(self).file == old(self).file && final(self).dir == old(self).dir
                && final(self).format_name == old(self).format_name && final(self).commands
                == old(self).commands,
            !(event is NotFound) ==> *final(self) == *old(self),
            (event matches RunEvent::SpawnFailed { message } ==> (r->0 matches Result::Err(
                DecompressError::RunCommandError { command_str, command, io_message, format },
            ) && command_str@ == rendered_attempt(
                old(self).commands@[old(self).next as int],
                old(self).file@,
                old(self).dir@,
            ) && cmd_like(command, old(self).commands@[old(self).next as int]) && io_message
                == message && format@ == old(self).format_name@)),
            event is ExitedSuccess ==> r == Option::Some(Result::<(), DecompressError>::Ok(())),
            (event matches RunEvent::ExitedCode { code } ==> (r->0 matches Result::Err(
                DecompressError::ChildReturnErrorCode {
                    command_str,
                    command,
                    code: rcode,
                    format,
                },
            ) && command_str@ == rendered_attempt(
                old(self).commands@[old(self).next as int],
                old(self).file@,
                old(self).dir@,
            ) && cmd_like(command, old(self).commands@[old(self).next as int]) && rcode == code
                && format@ == old(self).format_name@)),
            event is ExitedSignal ==> (r->0 matches Result::Err(
                DecompressError::ChildError { command_str, command, format },
            ) && command_str@ == rendered_attempt(
                old(self).commands@[old(self).next as int],
                old(self).file@,
                old(self).dir@,
            ) && cmd_like(command, old(self).commands@[old(self).next as int]) && format@
                == old(self).format_name@),
            (event matches RunEvent::WaitFailed { message } ==> (r->0 matches Result::Err(
                DecompressError::ChildWaitReturnError { command_str, command, format, io_message },
            ) && command_str@ == rendered_attempt(
                old(self).commands@[old(self).next as int],
                old(self).file@,
                old(self).dir@,
            ) && cmd_like(command, old(self).commands@[old(self).next as int]) && io_message
                == message && format@ == old(self).format_name@)),
    {
        match event {
            RunEvent::NotFound => {
                proof {
                    vstd::std_specs::vec::axiom_spec_len(&self.commands);
                }
                self.next = self.next + 1;
                Option::None
            },
            RunEvent::SpawnFailed { message } => {
                let attempt = self.current_attempt();
                Option::Some(
                    Result::Err(
                        DecompressError::RunCommandError {
                            command_str: attempt.0,
                            command: attempt.1,
                            io_message: message,
                            format: self.format_name.clone(),
                        },
                    ),
                )
            },
            RunEvent::ExitedSuccess => Option::Some(Result::Ok(())),
            RunEvent::ExitedCode { code } => {
                let attempt = self.current_attempt();
                Option::Some(
                    Result::Err(
                        DecompressError::ChildReturnErrorCode {
                            command_str: attempt.0,
                            command: attempt.1,
                            code,
                            format: self.format_name.clone(),
                        },
                    ),
                )
            },
            RunEvent::ExitedSignal => {
                let attempt = self.current_attempt();
                Option::Some(
                    Result::Err(
                        DecompressError::ChildError {
                            command_str: attempt.0,
                            command: attempt.1,
                            format: self.format_name.clone(),
                        },
                    ),
                )
            },
            RunEvent::WaitFailed { message } => {
                let attempt = self.current_attempt();
                Option::Some(
                    Result::Err(
                        DecompressError::ChildWaitReturnError {
                            command_str: attempt.0,
                            command: attempt.1,
                            format: self.format_name.clone(),
                            io_message: message,
                        },
                    ),
                )
            },
        }
    }
}

/// Resolves formats and begins decompression exchanges over a borrowed,
/// read-only format table.
pub struct FileArchiver<'cfg> {
    pub formats: &'cfg FormatTable,
}

impl<'cfg> FileArchiver<'cfg> {
    pub fn new(formats: &'cfg FormatTable) -> (r: Self)
        ensures
            r.formats == formats,
    {
        FileArchiver { formats }
    }

    /// The table entry for `file`, as `find_format` resolves it.
    pub fn find_format(&self, file: &str) -> (r: Option<usize>)
        ensures
            match r {
                Option::Some(e) => resolves_to(self.formats.entries@, file@, e as int),
                Option::None => no_resolution(self.formats.entries@, file@),
            },
    {
        find_format(self.formats, file)
    }

    /// Begins one decompression exchange for `file` into `dir`: resolves the
    /// format or reports that none claims the file. The fresh exchange
    /// carries the resolved format's name and commands and has tried none of
    /// them yet.
    pub fn begin_decompress(&self, file: &str, dir: &str) -> (r: Result<
        Decompression,
        DecompressError,
    >)
        ensures
            (r matches Result::Err(e) ==> no_resolution(self.formats.entries@, file@) && (
            e matches DecompressError::NoFormatAvailable { file: f } && f@ == file@)),
            (r matches Result::Ok(d) ==> exists|e: int|
                {
                    &&& #[trigger] resolves_to(self.formats.entries@, file@, e)
                    &&& 0 <= e < self.formats.entries@.len()
                    &&& d.format_name@ == self.formats.entries@[e].name@
                    &&& cmds_like(d.commands@, commands_of(self.formats.entries@[e].format))
                    &&& d.file@ == file@
                    &&& d.dir@ == dir@
                    &&& d.next == 0
                }),
    {
        match find_format(self.formats, file) {
            Option::None => Result::Err(
                DecompressError::NoFormatAvailable { file: file.to_owned() },
            ),
            Option::Some(e) => {
                let entry = &self.formats.entries[e];
                let commands = match &entry.format.decompress.0 {
                    Option::Some(v) => clone_commands(v),
                    Option::None => Vec::new(),
                };
                proof {
                    assert(cmds_like(commands@, commands_of(self.formats.entries@[e as int].format)));
                }
                let d = Decompression {
                    file: file.to_owned(),
                    dir: dir.to_owned(),
                    format_name: entry.name.clone(),
                    commands,
                    next: 0,
                };
                proof {
                    assert(resolves_to(self.formats.entries@, file@, e as int));
                }
                Result::Ok(d)
            },
        }
    }
}

} // verus!
