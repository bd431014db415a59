//! The process identity resolver and the pure part of process management:
//! recovering an executable name from an encoded registry value, parsing a
//! process listing, and interpreting the output of a kill invocation.

use vstd::prelude::*;
use vstd::string::StringExecFns;
use crate::domain::models::ExecutionMode;
use crate::domain::models::StartupCommand;
use crate::domain::models::StartupEntry;
use crate::domain::models::StartupEntryView;
use crate::shared::error::StartupError;
use crate::shared::text::dec_chars;
use crate::shared::text::eq_str;
use crate::shared::text::is_space_char;
use crate::shared::text::lemma_take_token_all;
use crate::shared::text::spec_dec;
use crate::shared::text::spec_skip_ws;
use crate::shared::text::chars_to_string;
use crate::shared::text::contains_sub;
use crate::shared::text::find_sub;
use crate::shared::text::first_token;
use crate::shared::text::lines_of;
use crate::shared::text::match_at;
use crate::shared::text::match_here;
use crate::shared::text::parse_u32_chars;
use crate::shared::text::spec_contains;
use crate::shared::text::spec_find;
use crate::shared::text::spec_first_token;
use crate::shared::text::spec_lines;
use crate::shared::text::spec_parse_u32;
use crate::shared::text::spec_split_on;
use crate::shared::text::spec_trim;
use crate::shared::text::split_on;
use crate::shared::text::subvec;
use crate::shared::text::to_chars;
use crate::shared::text::trim_chars;

verus! {

/// What a process-listing row denotes: an identifier, an executable name,
/// and the command line the process was started with.
pub struct ProcessInfoView {
    pub pid: u32,
    pub name: Seq<char>,
    pub command_line: Seq<char>,
}

/// A running process, as reported by the process lister.
#[derive(Debug, Clone)]
pub struct ProcessInfo {
    pub pid: u32,
    pub name: String,
    pub command_line: String,
}

impl View for ProcessInfo {
    type V = ProcessInfoView;

    open spec fn view(&self) -> ProcessInfoView {
        ProcessInfoView { pid: self.pid, name: self.name@, command_line: self.command_line@ }
    }
}

impl DeepView for ProcessInfo {
    type V = ProcessInfoView;

    open spec fn deep_view(&self) -> ProcessInfoView {
        self.view()
    }
}

/// `s` ends with `suffix`.
pub open spec fn spec_ends_with(s: Seq<char>, suffix: Seq<char>) -> bool {
    s.len() >= suffix.len() && s.subrange(s.len() - suffix.len(), s.len() as int) == suffix
}

/// `s` ends with `suffix`, checked character by character.
pub fn ends_with_chars(s: &Vec<char>, suffix: &Vec<char>) -> (r: bool)
    ensures
        r == spec_ends_with(s@, suffix@),
{
    if suffix.len() > s.len() {
        return false;
    }
    let r = match_here(s, suffix, s.len() - suffix.len());
    proof {
        assert(match_at(s@, suffix@, s@.len() - suffix@.len()) == spec_ends_with(s@, suffix@));
    }
    r
}

/// The executable name recovered from the quoted inline command of a
/// PowerShell invocation: the first token of the text between
/// `Command "` and the next quote, given the executable suffix if it
/// lacks one — or the shell's own name when no such command is found.
pub open spec fn spec_powershell_target(cmd: Seq<char>) -> Seq<char> {
    match spec_find(cmd, "Command \""@) {
        Some(i) => {
            match spec_find(cmd.skip(i + 9), "\""@) {
                Some(e) => {
                    match spec_first_token(cmd.skip(i + 9).take(e)) {
                        Some(tok) => if spec_ends_with(tok, ".exe"@) {
                            tok
                        } else {
                            tok + ".exe"@
                        },
                        None => "powershell.exe"@,
                    }
                },
                None => "powershell.exe"@,
            }
        },
        None => "powershell.exe"@,
    }
}

/// The executable name denoted by an encoded registry value, if any. The
/// wrapper markers are examined in order: a VBScript launcher runs as the
/// script host, a command-interpreter wrapper as the interpreter; a
/// PowerShell wrapper is searched for its inline command; anything else
/// counts only if its first token carries the executable suffix.
pub open spec fn spec_extract_executable_name(cmd: Seq<char>) -> Option<Seq<char>> {
    if spec_contains(cmd, "wscript.exe"@) {
        Some("wscript.exe"@)
    } else if spec_contains(cmd, "powershell.exe"@) {
        Some(spec_powershell_target(cmd))
    } else if spec_contains(cmd, "cmd.exe"@) {
        Some("cmd.exe"@)
    } else {
        match spec_first_token(cmd) {
            Some(tok) => if spec_ends_with(tok, ".exe"@) {
                Some(tok)
            } else {
                None
            },
            None => None,
        }
    }
}

/// The process parsed from one row of the listing, if the row has at
/// least three comma-separated fields and a numeric identifier.
pub open spec fn spec_proc_of_line(line: Seq<char>) -> Option<ProcessInfoView> {
    if spec_split_on(line, ',').len() >= 3 {
        match spec_parse_u32(spec_trim(spec_split_on(line, ',')[2])) {
            Some(pid) => Some(
                ProcessInfoView {
                    pid,
                    name: spec_trim(spec_split_on(line, ',')[1]),
                    command_line: spec_trim(spec_split_on(line, ',')[0]),
                },
            ),
            None => None,
        }
    } else {
        None
    }
}

/// The processes parsed from a sequence of listing rows, in order.
pub open spec fn spec_procs_of_lines(lines: Seq<Seq<char>>) -> Seq<ProcessInfoView>
    decreases lines.len(),
{
    if lines.len() == 0 {
        Seq::empty()
    } else {
        spec_procs_of_lines(lines.drop_last()) + match spec_proc_of_line(lines.last()) {
            Some(p) => seq![p],
            None => Seq::empty(),
        }
    }
}

/// The processes parsed from a whole listing: its lines after the two
/// header lines, each read as a comma-separated row.
pub open spec fn spec_parse_process_list(s: Seq<char>) -> Seq<ProcessInfoView> {
    if spec_lines(s).len() <= 2 {
        Seq::empty()
    } else {
        spec_procs_of_lines(spec_lines(s).skip(2))
    }
}

/// The number of lines of `s` containing the kill tool's success marker.
pub open spec fn spec_count_matching(lines: Seq<Seq<char>>) -> nat
    decreases lines.len(),
{
    if lines.len() == 0 {
        0
    } else {
        spec_count_matching(lines.drop_last()) + if spec_contains(lines.last(), "SUCCESS"@) {
            1nat
        } else {
            0nat
        }
    }
}

/// The number of lines of `s` containing the kill tool's success marker.
pub open spec fn spec_count_success(s: Seq<char>) -> nat {
    spec_count_matching(spec_lines(s))
}

/// A count clamped to what a `u32` can carry.
pub open spec fn spec_cap_u32(n: nat) -> u32 {
    if n > u32::MAX {
        u32::MAX
    } else {
        n as u32
    }
}

/// The result of `str::to_lowercase` on the given characters: it depends
/// on the characters alone.
pub uninterp spec fn lower_of(s: Seq<char>) -> Seq<char>;

/// Relies on `str::to_lowercase`: the lowercase mapping of the string,
/// a function of its characters alone.
#[verifier::external_body]
fn lowercase(s: &str) -> (r: String)
    ensures
        r@ == lower_of(s@),
{
    s.to_lowercase()
}

/// The process matches the pattern: its lowercased command line or its
/// lowercased name contains the lowercased pattern.
pub open spec fn spec_matches_pattern(p: ProcessInfoView, pat: Seq<char>) -> bool {
    spec_contains(lower_of(p.command_line), lower_of(pat)) || spec_contains(
        lower_of(p.name),
        lower_of(pat),
    )
}

/// The processes matching a pattern, in their original order.
pub open spec fn spec_filter_matching(ps: Seq<ProcessInfoView>, pat: Seq<char>) -> Seq<
    ProcessInfoView,
>
    decreases ps.len(),
{
    if ps.len() == 0 {
        Seq::empty()
    } else {
        spec_filter_matching(ps.drop_last(), pat) + if spec_matches_pattern(ps.last(), pat) {
            seq![ps.last()]
        } else {
            Seq::empty()
        }
    }
}

/// The ASCII-case-folded code of a character: uppercase ASCII letters map
/// to their lowercase counterparts, everything else to itself.
pub open spec fn spec_ascii_fold(c: char) -> int {
    if 0x41 <= c as u32 <= 0x5A {
        c as u32 + 0x20
    } else {
        c as u32 as int
    }
}

/// ASCII-case-insensitive equality of two character sequences, as
/// `str::eq_ignore_ascii_case` decides it.
pub open spec fn spec_ascii_eq_ignore_case(a: Seq<char>, b: Seq<char>) -> bool {
    a.len() == b.len() && forall|i: int|
        0 <= i < a.len() ==> spec_ascii_fold(a[i]) == spec_ascii_fold(b[i])
}

/// The processes whose name equals `name` up to ASCII case, in their
/// original order.
pub open spec fn spec_filter_named(ps: Seq<ProcessInfoView>, name: Seq<char>) -> Seq<
    ProcessInfoView,
>
    decreases ps.len(),
{
    if ps.len() == 0 {
        Seq::empty()
    } else {
        spec_filter_named(ps.drop_last(), name) + if spec_ascii_eq_ignore_case(
            ps.last().name,
            name,
        ) {
            seq![ps.last()]
        } else {
            Seq::empty()
        }
    }
}

/// The first entry carrying the given name, scanning the listing in
/// order.
pub open spec fn spec_find_entry(entries: Seq<StartupEntryView>, name: Seq<char>) -> Option<
    StartupEntryView,
>
    decreases entries.len(),
{
    if entries.len() == 0 {
        None
    } else if entries[0].name == name {
        Some(entries[0])
    } else {
        spec_find_entry(entries.drop_first(), name)
    }
}

/// The distinct executable names the entries' registry values resolve
/// to, each once, in first-occurrence order; entries resolving to
/// nothing contribute nothing.
pub open spec fn spec_resolved_names(entries: Seq<StartupEntryView>) -> Seq<Seq<char>>
    decreases entries.len(),
{
    if entries.len() == 0 {
        Seq::empty()
    } else {
        let rest = spec_resolved_names(entries.drop_last());
        match spec_extract_executable_name(entries.last().command) {
            Some(x) => if rest.contains(x) {
                rest
            } else {
                rest.push(x)
            },
            None => rest,
        }
    }
}

/// The resolved names are pairwise distinct.
pub proof fn lemma_resolved_names_distinct(entries: Seq<StartupEntryView>, a: int, b: int)
    requires
        0 <= a < b < spec_resolved_names(entries).len(),
    ensures
        spec_resolved_names(entries)[a] != spec_resolved_names(entries)[b],
    decreases entries.len(),
{
    if entries.len() == 0 {
    } else {
        let rest = spec_resolved_names(entries.drop_last());
        match spec_extract_executable_name(entries.last().command) {
            Some(x) => {
                if rest.contains(x) {
                    lemma_resolved_names_distinct(entries.drop_last(), a, b);
                } else {
                    if b < rest.len() {
                        lemma_resolved_names_distinct(entries.drop_last(), a, b);
                    } else {
                        if rest[a] == x {
                            assert(rest.contains(x));
                        }
                    }
                }
            },
            None => {
                lemma_resolved_names_distinct(entries.drop_last(), a, b);
            },
        }
    }
}

/// Every entry that resolves to an executable name is represented in the
/// resolved names.
pub proof fn lemma_resolved_names_complete(entries: Seq<StartupEntryView>, i: int)
    requires
        0 <= i < entries.len(),
        spec_extract_executable_name(entries[i].command) is Some,
    ensures
        spec_resolved_names(entries).contains(
            spec_extract_executable_name(entries[i].command)->Some_0,
        ),
    decreases entries.len(),
{
    let whole = spec_resolved_names(entries);
    let rest = spec_resolved_names(entries.drop_last());
    let x = spec_extract_executable_name(entries[i].command)->Some_0;
    if i == entries.len() - 1 {
        match spec_extract_executable_name(entries.last().command) {
            Some(y) => {
                if rest.contains(y) {
                } else {
                    assert(whole[rest.len() as int] == x);
                }
            },
            None => {
            },
        }
    } else {
        assert(entries.drop_last()[i] == entries[i]);
        lemma_resolved_names_complete(entries.drop_last(), i);
        let j = choose|j: int| 0 <= j < rest.len() && rest[j] == x;
        match spec_extract_executable_name(entries.last().command) {
            Some(y) => {
                if rest.contains(y) {
                } else {
                    assert(whole[j] == x);
                }
            },
            None => {
            },
        }
    }
}

/// Every resolved name is the resolution of some entry.
pub proof fn lemma_resolved_names_sound(entries: Seq<StartupEntryView>, j: int)
    requires
        0 <= j < spec_resolved_names(entries).len(),
    ensures
        exists|i: int|
            0 <= i < entries.len() && spec_extract_executable_name((#[trigger] entries[i]).command)
                == Some(spec_resolved_names(entries)[j]),
    decreases entries.len(),
{
    if entries.len() == 0 {
    } else {
        let whole = spec_resolved_names(entries);
        let rest = spec_resolved_names(entries.drop_last());
        let pushed = match spec_extract_executable_name(entries.last().command) {
            Some(x) => !rest.contains(x),
            None => false,
        };
        if pushed && j == rest.len() {
            assert(spec_extract_executable_name(
                (entries[entries.len() - 1]).command,
            ) == Some(whole[j]));
        } else {
            lemma_resolved_names_sound(entries.drop_last(), j);
            let i = choose|i: int|
                0 <= i < entries.drop_last().len() && spec_extract_executable_name(
                    (#[trigger] entries.drop_last()[i]).command,
                ) == Some(rest[j]);
            assert(entries.drop_last()[i] == entries[i]);
            assert(spec_extract_executable_name((entries[i]).command) == Some(whole[j]));
        }
    }
}

/// `target` occurs among the collected names.
fn name_in(names: &Vec<String>, target: &str) -> (r: bool)
    ensures
        r == names.deep_view().contains(target@),
{
    let mut i: usize = 0;
    while i < names.len()
        invariant
            i <= names@.len(),
            forall|k: int| 0 <= k < i ==> names@[k]@ != target@,
        decreases names@.len() - i,
    {
        if eq_str(names[i].as_str(), target) {
            proof {
                assert(names.deep_view()[i as int] == target@);
            }
            return true;
        }
        i = i + 1;
    }
    proof {
        assert forall|k: int| 0 <= k < names.deep_view().len() implies names.deep_view()[k]
            != target@ by {
            assert(names.deep_view()[k] == names@[k]@);
        }
    }
    false
}

/// ASCII-case-insensitive equality, checked character by character.
fn ascii_eq_ignore_case(a: &Vec<char>, b: &Vec<char>) -> (r: bool)
    ensures
        r == spec_ascii_eq_ignore_case(a@, b@),
{
    if a.len() != b.len() {
        return false;
    }
    let mut i: usize = 0;
    while i < a.len()
        invariant
            a@.len() == b@.len(),
            i <= a@.len(),
            forall|k: int| 0 <= k < i ==> spec_ascii_fold(a@[k]) == spec_ascii_fold(b@[k]),
        decreases a@.len() - i,
    {
        let ca = a[i] as u32;
        let cb = b[i] as u32;
        let fa = if 0x41 <= ca && ca <= 0x5A {
            ca + 0x20
        } else {
            ca
        };
        let fb = if 0x41 <= cb && cb <= 0x5A {
            cb + 0x20
        } else {
            cb
        };
        if fa != fb {
            return false;
        }
        i = i + 1;
    }
    true
}

/// The resolver inverts the encoder on bare programs: a program without
/// whitespace, carrying the executable suffix and free of the wrapper
/// markers, encoded with no arguments and no working directory in the
/// visible mode, resolves back to exactly itself.
pub proof fn lemma_visible_roundtrip(c: &StartupCommand)
    requires
        c matches StartupCommand::CommandWithArgs { command: _, args: _, workdir: None, mode: ExecutionMode::Visible },
        c->CommandWithArgs_args@.len() == 0,
        c->CommandWithArgs_command@.len() > 0,
        forall|i: int|
            0 <= i < c->CommandWithArgs_command@.len() ==> !is_space_char(
                #[trigger] c->CommandWithArgs_command@[i],
            ),
        spec_ends_with(c->CommandWithArgs_command@, ".exe"@),
        !spec_contains(c->CommandWithArgs_command@, "wscript.exe"@),
        !spec_contains(c->CommandWithArgs_command@, "powershell.exe"@),
        !spec_contains(c->CommandWithArgs_command@, "cmd.exe"@),
    ensures
        spec_extract_executable_name(c.spec_registry_value()) == Some(
            c->CommandWithArgs_command@,
        ),
{
    let cmd = c->CommandWithArgs_command@;
    assert(c->CommandWithArgs_args.deep_view().len() == 0);
    assert(c.spec_registry_value() == cmd);
    assert(spec_skip_ws(cmd) == cmd);
    lemma_take_token_all(cmd);
    assert(spec_first_token(cmd) == Some(cmd));
}

/// Manages processes: resolves executable names out of encoded registry
/// values and interprets what the external process tools report.
pub struct ProcessManager;

impl ProcessManager {
    /// Extracts the executable name from an encoded registry value, by
    /// the wrapper markers it carries; nothing when no executable can be
    /// determined.
    pub fn extract_executable_name(command: &str) -> (r: Option<String>)
        ensures
            match r {
                Some(s) => spec_extract_executable_name(command@) == Some(s@),
                None => spec_extract_executable_name(command@) is None,
            },
    {
        let cs = to_chars(command);
        let wscript = to_chars("wscript.exe");
        if contains_sub(&cs, &wscript) {
            return Some(String::from_str("wscript.exe"));
        }
        let powershell = to_chars("powershell.exe");
        if contains_sub(&cs, &powershell) {
            return Some(Self::powershell_target(&cs));
        }
        let interpreter = to_chars("cmd.exe");
        if contains_sub(&cs, &interpreter) {
            return Some(String::from_str("cmd.exe"));
        }
        match first_token(&cs) {
            Some(tok) => {
                let suffix = to_chars(".exe");
                if ends_with_chars(&tok, &suffix) {
                    Some(chars_to_string(&tok))
                } else {
                    None
                }
            },
            None => None,
        }
    }

    /// The executable name recovered from a PowerShell invocation.
    fn powershell_target(cs: &Vec<char>) -> (r: String)
        ensures
            r@ == spec_powershell_target(cs@),
    {
        let marker = to_chars("Command \"");
        proof {
            reveal_strlit("Command \"");
        }
        match find_sub(cs, &marker) {
            Some(j) => {
                let n = cs.len();
                proof {
                    crate::shared::text::lemma_find_from_some(cs@, marker@, 0, j as int);
                    assert(j + marker@.len() <= cs@.len());
                    assert(j + 9 <= n);
                }
                let after = subvec(cs, j + 9, n);
                proof {
                    assert(after@ =~= cs@.skip(j + 9));
                }
                let quote = to_chars("\"");
                match find_sub(&after, &quote) {
                    Some(e) => {
                        proof {
                            crate::shared::text::lemma_find_from_some(after@, quote@, 0, e as int);
                            assert(e + quote@.len() <= after@.len());
                        }
                        let inner = subvec(&after, 0, e);
                        proof {
                            assert(inner@ =~= cs@.skip(j + 9).take(e as int));
                        }
                        match first_token(&inner) {
                            Some(tok) => {
                                let suffix = to_chars(".exe");
                                if ends_with_chars(&tok, &suffix) {
                                    chars_to_string(&tok)
                                } else {
                                    chars_to_string(&tok).concat(".exe")
                                }
                            },
                            None => String::from_str("powershell.exe"),
                        }
                    },
                    None => String::from_str("powershell.exe"),
                }
            },
            None => String::from_str("powershell.exe"),
        }
    }

    /// Reads the process lister's report: on success, the listing parsed
    /// row by row; on failure, a registry-access error.
    pub fn interpret_process_listing(success: bool, stdout: &str) -> (r: Result<
        Vec<ProcessInfo>,
        StartupError,
    >)
        ensures
            success ==> (r matches Ok(v) && v.deep_view() == spec_parse_process_list(stdout@)),
            !success ==> (r matches Err(StartupError::RegistryError(m)) && m@
                == "Failed to execute wmic command"@),
    {
        if !success {
            return Err(StartupError::RegistryError(String::from_str(
                "Failed to execute wmic command",
            )));
        }
        let cs = to_chars(stdout);
        let all_lines = lines_of(&cs);
        let mut r: Vec<ProcessInfo> = Vec::new();
        if all_lines.len() <= 2 {
            proof {
                assert(all_lines.deep_view().len() == all_lines@.len());
                assert(r.deep_view() =~= spec_parse_process_list(stdout@));
            }
            return Ok(r);
        }
        let ghost rows = spec_lines(stdout@).skip(2);
        let mut i: usize = 2;
        proof {
            assert(rows.take(0) =~= Seq::<Seq<char>>::empty());
            assert(r.deep_view() =~= spec_procs_of_lines(rows.take(0)));
        }
        while i < all_lines.len()
            invariant
                2 <= i <= all_lines@.len(),
                all_lines.deep_view() == spec_lines(stdout@),
                2 < all_lines@.len(),
                rows == spec_lines(stdout@).skip(2),
                r.deep_view() == spec_procs_of_lines(rows.take(i - 2)),
            decreases all_lines@.len() - i,
        {
            let ghost old_r = r.deep_view();
            let line = &all_lines[i];
            proof {
                assert(line@ == all_lines.deep_view()[i as int]);
                assert(rows[i - 2] == all_lines.deep_view()[i as int]);
            }
            let parts = split_on(line, ',');
            if parts.len() >= 3 {
                let pid_field = trim_chars(&parts[2]);
                proof {
                    assert(parts[2 as int]@ == parts.deep_view()[2]);
                }
                match parse_u32_chars(&pid_field) {
                    Some(pid) => {
                        let name_field = trim_chars(&parts[1]);
                        let cl_field = trim_chars(&parts[0]);
                        proof {
                            assert(parts[1 as int]@ == parts.deep_view()[1]);
                            assert(parts[0 as int]@ == parts.deep_view()[0]);
                        }
                        let info = ProcessInfo {
                            pid,
                            name: chars_to_string(&name_field),
                            command_line: chars_to_string(&cl_field),
                        };
                        proof {
                            assert(info@ == spec_proc_of_line(line@)->Some_0);
                        }
                        r.push(info);
                    },
                    None => {
                    },
                }
            }
            i = i + 1;
            proof {
                assert(rows.take(i - 2).drop_last() =~= rows.take(i - 2 - 1));
                assert(rows.take(i - 2).last() == rows[i - 2 - 1]);
                assert(r.deep_view() =~= old_r + match spec_proc_of_line(rows[i - 2 - 1]) {
                    Some(p) => seq![p],
                    None => Seq::<ProcessInfoView>::empty(),
                });
            }
        }
        proof {
            assert(rows.take(i - 2) =~= rows);
        }
        Ok(r)
    }

    /// Reads what the kill tool reported for one executable name. Success
    /// yields the count of killed processes, read off the output's
    /// success lines; a failure that merely means "no such process" is a
    /// zero count, not an error; any other failure is a registry-access
    /// error naming the executable and the tool's complaint.
    pub fn interpret_taskkill_output(name: &str, success: bool, stdout: &str, stderr: &str) -> (r:
        Result<u32, StartupError>)
        ensures
            success ==> (r matches Ok(c) && c == spec_cap_u32(spec_count_success(stdout@))),
            !success && spec_contains(stderr@, "not found"@) ==> (r matches Ok(c) && c == 0),
            !success && !spec_contains(stderr@, "not found"@) ==> (r matches Err(
                StartupError::RegistryError(m),
            ) && m@ == "Failed to kill processes "@ + name@ + ": "@ + stderr@),
    {
        if !success {
            let err_chars = to_chars(stderr);
            let marker = to_chars("not found");
            if contains_sub(&err_chars, &marker) {
                return Ok(0);
            }
            let mut m = String::from_str("Failed to kill processes ");
            m.append(name);
            m.append(": ");
            m.append(stderr);
            proof {
                assert(m@ =~= "Failed to kill processes "@ + name@ + ": "@ + stderr@);
            }
            return Err(StartupError::RegistryError(m));
        }
        let cs = to_chars(stdout);
        let all_lines = lines_of(&cs);
        let marker = to_chars("SUCCESS");
        let mut count: u32 = 0;
        let mut i: usize = 0;
        let ghost rows = spec_lines(stdout@);
        proof {
            assert(rows.take(0) =~= Seq::<Seq<char>>::empty());
        }
        while i < all_lines.len()
            invariant
                i <= all_lines@.len(),
                all_lines.deep_view() == rows,
                rows == spec_lines(stdout@),
                marker@ == "SUCCESS"@,
                count == spec_cap_u32(spec_count_matching(rows.take(i as int))),
            decreases all_lines@.len() - i,
        {
            let ghost old_count = count;
            let line = &all_lines[i];
            proof {
                assert(line@ == rows[i as int]);
                assert(rows.take(i + 1).drop_last() =~= rows.take(i as int));
                assert(rows.take(i + 1).last() == rows[i as int]);
            }
            if contains_sub(line, &marker) {
                if count < u32::MAX {
                    count = count + 1;
                }
            }
            i = i + 1;
        }
        proof {
            assert(rows.take(i as int) =~= rows);
        }
        Ok(count)
    }

    /// Reads what the kill tool reported for one process identifier.
    /// Success is success; any failure is a registry-access error naming
    /// the identifier and the tool's complaint.
    pub fn interpret_taskkill_pid_output(pid: u32, success: bool, stderr: &str) -> (r: Result<
        (),
        StartupError,
    >)
        ensures
            success ==> r is Ok,
            !success ==> (r matches Err(StartupError::RegistryError(m)) && m@
                == "Failed to kill process "@ + spec_dec(pid) + ": "@ + stderr@),
    {
        if success {
            return Ok(());
        }
        let rendered = chars_to_string(&dec_chars(pid));
        let mut m = String::from_str("Failed to kill process ");
        m.append(rendered.as_str());
        m.append(": ");
        m.append(stderr);
        proof {
            assert(m@ =~= "Failed to kill process "@ + spec_dec(pid) + ": "@ + stderr@);
        }
        Err(StartupError::RegistryError(m))
    }

    /// The executable name behind the named startup entry: the first
    /// listed entry carrying the name, its registry value resolved. A
    /// missing entry yields the not-found error naming the entry; an
    /// unresolvable registry value yields the error citing the entry's
    /// command.
    pub fn resolve_entry_executable(entries: &Vec<StartupEntry>, name: &str) -> (r: Result<
        String,
        StartupError,
    >)
        ensures
            match spec_find_entry(entries.deep_view(), name@) {
                Some(e) => match spec_extract_executable_name(e.command) {
                    Some(x) => r matches Ok(s) && s@ == x,
                    None => (r matches Err(StartupError::RegistryError(m)) && m@
                        == "Could not determine executable name from command: "@ + e.command),
                },
                None => (r matches Err(StartupError::RegistryError(m)) && m@ == "Entry '"@ + name@
                    + "' not found in startup registry"@),
            },
    {
        let ghost es = entries.deep_view();
        proof {
            assert(es.skip(0) =~= es);
        }
        let mut i: usize = 0;
        while i < entries.len()
            invariant
                i <= entries@.len(),
                es == entries.deep_view(),
                es.len() == entries@.len(),
                spec_find_entry(es, name@) == spec_find_entry(es.skip(i as int), name@),
            decreases entries@.len() - i,
        {
            proof {
                assert(es.skip(i as int)[0] == es[i as int]);
                assert(es.skip(i as int).drop_first() =~= es.skip(i + 1));
                assert(entries@[i as int]@ == es[i as int]);
            }
            if eq_str(entries[i].name.as_str(), name) {
                match Self::extract_executable_name(entries[i].command.as_str()) {
                    Some(exe) => {
                        return Ok(exe);
                    },
                    None => {
                        let mut m = String::from_str(
                            "Could not determine executable name from command: ",
                        );
                        m.append(entries[i].command.as_str());
                        proof {
                            assert(m@ =~= "Could not determine executable name from command: "@
                                + es[i as int].command);
                        }
                        return Err(StartupError::RegistryError(m));
                    },
                }
            }
            i = i + 1;
        }
        proof {
            assert(es.skip(i as int) =~= Seq::<StartupEntryView>::empty());
        }
        let mut m = String::from_str("Entry '");
        m.append(name);
        m.append("' not found in startup registry");
        proof {
            assert(m@ =~= "Entry '"@ + name@ + "' not found in startup registry"@);
        }
        Err(StartupError::RegistryError(m))
    }

    /// The distinct executable names the entries resolve to, each once,
    /// in first-occurrence order.
    pub fn resolved_executable_names(entries: &Vec<StartupEntry>) -> (r: Vec<String>)
        ensures
            r.deep_view() == spec_resolved_names(entries.deep_view()),
    {
        let ghost es = entries.deep_view();
        let mut names: Vec<String> = Vec::new();
        let mut i: usize = 0;
        proof {
            assert(es.take(0) =~= Seq::<StartupEntryView>::empty());
            assert(names.deep_view() =~~= spec_resolved_names(es.take(0)));
        }
        while i < entries.len()
            invariant
                i <= entries@.len(),
                es == entries.deep_view(),
                es.len() == entries@.len(),
                names.deep_view() == spec_resolved_names(es.take(i as int)),
            decreases entries@.len() - i,
        {
            proof {
                assert(es.take(i + 1).drop_last() =~= es.take(i as int));
                assert(es.take(i + 1).last() == es[i as int]);
                assert(entries@[i as int]@ == es[i as int]);
            }
            match Self::extract_executable_name(entries[i].command.as_str()) {
                Some(exe) => {
                    if !name_in(&names, exe.as_str()) {
                        let ghost old_names = names.deep_view();
                        names.push(exe);
                        proof {
                            assert(names.deep_view() =~~= old_names.push(
                                spec_extract_executable_name(es[i as int].command)->Some_0,
                            ));
                        }
                    }
                },
                None => {
                },
            }
            i = i + 1;
            proof {
                assert(names.deep_view() =~~= spec_resolved_names(es.take(i as int)));
            }
        }
        proof {
            assert(es.take(i as int) =~= es);
        }
        names
    }

    /// The processes whose command line or name contains the pattern,
    /// compared without regard to case.
    pub fn find_processes_by_command(processes: &Vec<ProcessInfo>, pattern: &str) -> (r: Vec<
        ProcessInfo,
    >)
        ensures
            r.deep_view() == spec_filter_matching(processes.deep_view(), pattern@),
    {
        let lowered_pattern = lowercase(pattern);
        let pat = to_chars(lowered_pattern.as_str());
        let mut r: Vec<ProcessInfo> = Vec::new();
        let mut i: usize = 0;
        let ghost ps = processes.deep_view();
        proof {
            assert(ps.take(0) =~= Seq::<ProcessInfoView>::empty());
            assert(r.deep_view() =~= spec_filter_matching(ps.take(0), pattern@));
        }
        while i < processes.len()
            invariant
                i <= processes@.len(),
                ps == processes.deep_view(),
                ps.len() == processes@.len(),
                pat@ == lower_of(pattern@),
                r.deep_view() == spec_filter_matching(ps.take(i as int), pattern@),
            decreases processes@.len() - i,
        {
            let ghost old_r = r.deep_view();
            proof {
                assert(ps.take(i + 1).drop_last() =~= ps.take(i as int));
                assert(ps.take(i + 1).last() == ps[i as int]);
                assert(processes@[i as int]@ == ps[i as int]);
            }
            let lowered_cl = lowercase(processes[i].command_line.as_str());
            let cl = to_chars(lowered_cl.as_str());
            let hit = if contains_sub(&cl, &pat) {
                true
            } else {
                let lowered_name = lowercase(processes[i].name.as_str());
                let nm = to_chars(lowered_name.as_str());
                contains_sub(&nm, &pat)
            };
            if hit {
                let kept = ProcessInfo {
                    pid: processes[i].pid,
                    name: processes[i].name.clone(),
                    command_line: processes[i].command_line.clone(),
                };
                proof {
                    assert(kept@ == ps[i as int]);
                }
                r.push(kept);
                proof {
                    assert(r.deep_view() =~= old_r.push(ps[i as int]));
                    assert(old_r.push(ps[i as int]) =~= old_r + seq![ps[i as int]]);
                }
            }
            i = i + 1;
            proof {
                assert(r.deep_view() =~= spec_filter_matching(ps.take(i as int), pattern@));
            }
        }
        proof {
            assert(ps.take(i as int) =~= ps);
        }
        r
    }

    /// The processes whose executable name equals the given one up to
    /// ASCII case: the live-status check behind the entry listing.
    pub fn processes_matching_name(processes: &Vec<ProcessInfo>, exe_name: &str) -> (r: Vec<
        ProcessInfo,
    >)
        ensures
            r.deep_view() == spec_filter_named(processes.deep_view(), exe_name@),
    {
        let target = to_chars(exe_name);
        let mut r: Vec<ProcessInfo> = Vec::new();
        let mut i: usize = 0;
        let ghost ps = processes.deep_view();
        proof {
            assert(ps.take(0) =~= Seq::<ProcessInfoView>::empty());
            assert(r.deep_view() =~= spec_filter_named(ps.take(0), exe_name@));
        }
        while i < processes.len()
            invariant
                i <= processes@.len(),
                ps == processes.deep_view(),
                ps.len() == processes@.len(),
                target@ == exe_name@,
                r.deep_view() == spec_filter_named(ps.take(i as int), exe_name@),
            decreases processes@.len() - i,
        {
            let ghost old_r = r.deep_view();
            proof {
                assert(ps.take(i + 1).drop_last() =~= ps.take(i as int));
                assert(ps.take(i + 1).last() == ps[i as int]);
                assert(processes@[i as int]@ == ps[i as int]);
            }
            let name_chars = to_chars(processes[i].name.as_str());
            if ascii_eq_ignore_case(&name_chars, &target) {
                let kept = ProcessInfo {
                    pid: processes[i].pid,
                    name: processes[i].name.clone(),
                    command_line: processes[i].command_line.clone(),
                };
                proof {
                    assert(kept@ == ps[i as int]);
                }
                r.push(kept);
                proof {
                    assert(r.deep_view() =~= old_r.push(ps[i as int]));
                    assert(old_r.push(ps[i as int]) =~= old_r + seq![ps[i as int]]);
                }
            }
            i = i + 1;
            proof {
                assert(r.deep_view() =~= spec_filter_named(ps.take(i as int), exe_name@));
            }
        }
        proof {
            assert(ps.take(i as int) =~= ps);
        }
        r
    }
}

} // verus!
