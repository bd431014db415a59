//! The command encoder: logical startup commands and their mapping to
//! registry value strings and, for silent execution, auxiliary script files.

use vstd::prelude::*;
use vstd::string::StrSliceExecFns;
use vstd::string::StringExecFns;
use std::collections::hash_map::DefaultHasher;
use std::hash::Hasher;
use vstd::std_specs::hash::DefaultHasherAdditionalSpecFns;
use crate::shared::text::chars_to_string;
use crate::shared::text::escape_quotes;
use crate::shared::text::hex_chars;
use crate::shared::text::lemma_contains_iff_exists;
use crate::shared::text::match_at;
use crate::shared::text::spec_contains;
use crate::shared::text::spec_escape_quotes;
use crate::shared::text::spec_hex;
use crate::shared::text::spec_hex_rec;
use crate::shared::text::hex_digit_char;
use crate::shared::text::to_chars;

verus! {

/// What a startup entry denotes: its key and its encoded registry value,
/// as character sequences.
pub struct StartupEntryView {
    pub name: Seq<char>,
    pub command: Seq<char>,
}

/// A named startup entry as persisted in the registry: the name is the
/// unique key, the command is the encoded registry value.
#[derive(Debug, Clone, PartialEq, Eq)]
pub struct StartupEntry {
    pub name: String,
    pub command: String,
}

impl View for StartupEntry {
    type V = StartupEntryView;

    open spec fn view(&self) -> StartupEntryView {
        StartupEntryView { name: self.name@, command: self.command@ }
    }
}

impl DeepView for StartupEntry {
    type V = StartupEntryView;

    open spec fn deep_view(&self) -> StartupEntryView {
        self.view()
    }
}

impl StartupEntry {
    /// A new entry carrying exactly the given name and command.
    pub fn new(name: &str, command: &str) -> (r: Self)
        ensures
            r.name@ == name@,
            r.command@ == command@,
    {
        StartupEntry { name: name.to_owned(), command: command.to_owned() }
    }
}

/// The wrapping strategy applied when a command is encoded.
#[derive(Debug, Clone, Copy, PartialEq, Eq, Structural)]
pub enum ExecutionMode {
    /// Silent execution through a generated VBScript launcher: no window at
    /// all.
    VBScript,
    /// Silent execution through a hidden-window PowerShell invocation.
    PowerShellHidden,
    /// A visible window, for debugging.
    Visible,
}

impl Default for ExecutionMode {
    /// The default wrapping strategy is the VBScript launcher.
    fn default() -> (r: Self)
        ensures
            r == ExecutionMode::VBScript,
    {
        ExecutionMode::VBScript
    }
}

/// A logical startup command, before encoding.
#[derive(Debug, Clone)]
pub enum StartupCommand {
    /// A bare executable path, stored verbatim.
    Executable { path: String },
    /// A program with arguments, an optional working directory and a
    /// wrapping strategy.
    CommandWithArgs { command: String, args: Vec<String>, workdir: Option<String>, mode: ExecutionMode },
}

/// The arguments joined by single spaces, without any quoting.
pub open spec fn spec_join_args(args: Seq<Seq<char>>) -> Seq<char>
    decreases args.len(),
{
    if args.len() == 0 {
        Seq::empty()
    } else if args.len() == 1 {
        args[0]
    } else {
        spec_join_args(args.drop_last()) + seq![' '] + args.last()
    }
}

/// The resolved command line: the program alone when there are no
/// arguments, else the program and the space-joined arguments.
pub open spec fn spec_command_line(command: Seq<char>, args: Seq<Seq<char>>) -> Seq<char> {
    if args.len() == 0 {
        command
    } else {
        command + seq![' '] + spec_join_args(args)
    }
}

/// With no arguments the resolved command line is the program itself,
/// with no trailing space.
pub proof fn lemma_empty_args_line_is_program(command: Seq<char>, args: Seq<Seq<char>>)
    requires
        args.len() == 0,
    ensures
        spec_command_line(command, args) == command,
{
}

/// The hash from which a launcher filename is derived: what
/// `DefaultHasher` yields over the UTF-8 bytes of the resolved command
/// line. Deterministic: it depends on the command line alone.
pub open spec fn spec_line_hash(cmdline: Seq<char>) -> u64 {
    DefaultHasher::spec_finish(seq![vstd::utf8::encode_utf8(cmdline)])
}

/// The content-addressed launcher filename for a resolved command line.
pub open spec fn spec_vbs_filename(cmdline: Seq<char>) -> Seq<char> {
    "launcher_"@ + spec_hex(spec_line_hash(cmdline)) + ".vbs"@
}

/// The registry value that invokes the launcher script silently.
pub open spec fn spec_vbs_registry_value(cmdline: Seq<char>) -> Seq<char> {
    "wscript.exe //B //Nologo \"%APPDATA%\\windows_startup_manager\\"@ + spec_vbs_filename(cmdline)
        + "\""@
}

/// The body of the launcher script: create a shell-automation object,
/// optionally set its working directory, and run the command line hidden
/// without waiting. Double quotes are escaped by doubling.
pub open spec fn spec_vbs_content(cmdline: Seq<char>, workdir: Option<Seq<char>>) -> Seq<char> {
    match workdir {
        Some(d) => "Set WshShell = CreateObject(\"WScript.Shell\")\nWshShell.CurrentDirectory = \""@
            + spec_escape_quotes(d) + "\"\nWshShell.Run \""@ + spec_escape_quotes(cmdline)
            + "\", 0, False"@,
        None => "Set WshShell = CreateObject(\"WScript.Shell\")\nWshShell.Run \""@
            + spec_escape_quotes(cmdline) + "\", 0, False"@,
    }
}

/// The registry value for the hidden-window PowerShell wrapping.
pub open spec fn spec_powershell_value(cmdline: Seq<char>, workdir: Option<Seq<char>>) -> Seq<
    char,
> {
    match workdir {
        Some(d) => "powershell.exe -WindowStyle Hidden -NoProfile -Command \"Set-Location '"@ + d
            + "'; "@ + cmdline + "\""@,
        None => "powershell.exe -WindowStyle Hidden -NoProfile -Command \""@ + cmdline + "\""@,
    }
}

/// The registry value for the visible wrapping: the command line itself,
/// or a command-interpreter invocation that first changes directory.
pub open spec fn spec_visible_value(cmdline: Seq<char>, workdir: Option<Seq<char>>) -> Seq<char> {
    match workdir {
        Some(d) => "cmd.exe /c \"cd /d \""@ + d + "\" && "@ + cmdline + "\""@,
        None => cmdline,
    }
}

impl StartupCommand {
    /// The resolved command line of this command; the path itself for a
    /// bare executable.
    pub open spec fn spec_command_line(&self) -> Seq<char> {
        match self {
            StartupCommand::Executable { path } => path@,
            StartupCommand::CommandWithArgs { command, args, workdir: _, mode: _ } => {
                spec_command_line(command@, args.deep_view())
            },
        }
    }

    /// The registry value this command encodes to.
    pub open spec fn spec_registry_value(&self) -> Seq<char> {
        match self {
            StartupCommand::Executable { path } => path@,
            StartupCommand::CommandWithArgs { command, args, workdir, mode } => {
                match mode {
                    ExecutionMode::VBScript => spec_vbs_registry_value(
                        spec_command_line(command@, args.deep_view()),
                    ),
                    ExecutionMode::PowerShellHidden => spec_powershell_value(
                        spec_command_line(command@, args.deep_view()),
                        workdir.deep_view(),
                    ),
                    ExecutionMode::Visible => spec_visible_value(
                        spec_command_line(command@, args.deep_view()),
                        workdir.deep_view(),
                    ),
                }
            },
        }
    }

    /// The auxiliary launcher script this command needs, if any: a
    /// filename and a script body, produced only for the VBScript mode.
    pub open spec fn spec_vbscript_output(&self) -> Option<(Seq<char>, Seq<char>)> {
        match self {
            StartupCommand::CommandWithArgs { command, args, workdir, mode: ExecutionMode::VBScript } => {
                Some(
                    (
                        spec_vbs_filename(spec_command_line(command@, args.deep_view())),
                        spec_vbs_content(
                            spec_command_line(command@, args.deep_view()),
                            workdir.deep_view(),
                        ),
                    ),
                )
            },
            _ => None,
        }
    }

    /// Converts the command to a registry-compatible string, dispatching
    /// on the execution mode.
    pub fn to_registry_value(&self) -> (r: String)
        ensures
            r@ == self.spec_registry_value(),
    {
        match self {
            StartupCommand::Executable { path } => path.clone(),
            StartupCommand::CommandWithArgs { command, args, workdir, mode } => {
                let cmdline = resolved_line(command.as_str(), args);
                match mode {
                    ExecutionMode::VBScript => vbs_registry_value(&cmdline),
                    ExecutionMode::PowerShellHidden => {
                        match workdir {
                            Some(d) => {
                                let mut r = String::from_str(
                                    "powershell.exe -WindowStyle Hidden -NoProfile -Command \"Set-Location '",
                                );
                                r.append(d.as_str());
                                r.append("'; ");
                                r.append(cmdline.as_str());
                                r.append("\"");
                                proof {
                                    assert(r@ =~= spec_powershell_value(
                                        cmdline@,
                                        workdir.deep_view(),
                                    ));
                                }
                                r
                            },
                            None => {
                                let mut r = String::from_str(
                                    "powershell.exe -WindowStyle Hidden -NoProfile -Command \"",
                                );
                                r.append(cmdline.as_str());
                                r.append("\"");
                                proof {
                                    assert(r@ =~= spec_powershell_value(
                                        cmdline@,
                                        workdir.deep_view(),
                                    ));
                                }
                                r
                            },
                        }
                    },
                    ExecutionMode::Visible => {
                        match workdir {
                            Some(d) => {
                                let mut r = String::from_str("cmd.exe /c \"cd /d \"");
                                r.append(d.as_str());
                                r.append("\" && ");
                                r.append(cmdline.as_str());
                                r.append("\"");
                                proof {
                                    assert(r@ =~= spec_visible_value(cmdline@, workdir.deep_view()));
                                }
                                r
                            },
                            None => cmdline,
                        }
                    },
                }
            },
        }
    }

    /// The launcher script that must be written to disk before the
    /// registry value of a VBScript-mode command becomes usable: its
    /// content-addressed filename and its body.
    pub fn get_vbscript_content(&self) -> (r: Option<(String, String)>)
        ensures
            match r {
                Some(fc) => self.spec_vbscript_output() == Some((fc.0@, fc.1@)),
                None => self.spec_vbscript_output() is None,
            },
    {
        match self {
            StartupCommand::CommandWithArgs { command, args, workdir, mode: ExecutionMode::VBScript } => {
                let cmdline = resolved_line(command.as_str(), args);
                let filename = vbs_filename(&cmdline);
                let escaped_line = chars_to_string(&escape_quotes(&to_chars(cmdline.as_str())));
                let content = match workdir {
                    Some(d) => {
                        let escaped_dir = chars_to_string(&escape_quotes(&to_chars(d.as_str())));
                        let mut c = String::from_str(
                            "Set WshShell = CreateObject(\"WScript.Shell\")\nWshShell.CurrentDirectory = \"",
                        );
                        c.append(escaped_dir.as_str());
                        c.append("\"\nWshShell.Run \"");
                        c.append(escaped_line.as_str());
                        c.append("\", 0, False");
                        proof {
                            assert(c@ =~= spec_vbs_content(cmdline@, workdir.deep_view()));
                        }
                        c
                    },
                    None => {
                        let mut c = String::from_str(
                            "Set WshShell = CreateObject(\"WScript.Shell\")\nWshShell.Run \"",
                        );
                        c.append(escaped_line.as_str());
                        c.append("\", 0, False");
                        proof {
                            assert(c@ =~= spec_vbs_content(cmdline@, workdir.deep_view()));
                        }
                        c
                    },
                };
                Some((filename, content))
            },
            _ => None,
        }
    }
}

/// The resolved command line, built by joining the arguments with single
/// spaces after the program.
fn resolved_line(command: &str, args: &Vec<String>) -> (r: String)
    ensures
        r@ == spec_command_line(command@, args.deep_view()),
{
    let mut r = command.to_owned();
    if args.len() == 0 {
        return r;
    }
    let mut i: usize = 0;
    while i < args.len()
        invariant
            i <= args@.len(),
            1 <= args@.len(),
            i == 0 ==> r@ == command@,
            i >= 1 ==> r@ == command@ + seq![' '] + spec_join_args(args.deep_view().take(i as int)),
        decreases args@.len() - i,
    {
        proof {
            reveal_strlit(" ");
            assert(" "@ =~= seq![' ']);
            let dv = args.deep_view();
            assert(dv.take(i + 1).drop_last() =~= dv.take(i as int));
            assert(dv.take(i + 1).last() == dv[i as int]);
            assert(dv[i as int] == args@[i as int]@);
            if i >= 1 {
                assert(spec_join_args(dv.take(i + 1)) == spec_join_args(dv.take(i as int))
                    + seq![' '] + dv[i as int]);
            } else {
                assert(dv.take(1) =~= seq![dv[0]]);
                assert(spec_join_args(dv.take(1)) == dv[0]);
            }
        }
        r.append(" ");
        r.append(args[i].as_str());
        i = i + 1;
        proof {
            let dv = args.deep_view();
            assert(r@ =~= command@ + seq![' '] + spec_join_args(dv.take(i as int)));
        }
    }
    proof {
        assert(args.deep_view().take(args@.len() as int) =~= args.deep_view());
    }
    r
}

/// The `DefaultHasher` digest of the UTF-8 bytes of the command line.
fn line_hash(cmdline: &str) -> (h: u64)
    ensures
        h == spec_line_hash(cmdline@),
{
    let mut hasher = DefaultHasher::new();
    hasher.write(cmdline.as_bytes());
    proof {
        assert(hasher@ =~= seq![vstd::utf8::encode_utf8(cmdline@)]);
    }
    hasher.finish()
}

/// The content-addressed launcher filename for a resolved command line.
fn vbs_filename(cmdline: &String) -> (r: String)
    ensures
        r@ == spec_vbs_filename(cmdline@),
{
    let h = line_hash(cmdline.as_str());
    let hex = chars_to_string(&hex_chars(h));
    let mut r = String::from_str("launcher_");
    r.append(hex.as_str());
    r.append(".vbs");
    proof {
        assert(r@ =~= spec_vbs_filename(cmdline@));
    }
    r
}

/// The registry value invoking the launcher script for a resolved command
/// line.
fn vbs_registry_value(cmdline: &String) -> (r: String)
    ensures
        r@ == spec_vbs_registry_value(cmdline@),
{
    let filename = vbs_filename(cmdline);
    let mut r = String::from_str("wscript.exe //B //Nologo \"%APPDATA%\\windows_startup_manager\\");
    r.append(filename.as_str());
    r.append("\"");
    proof {
        assert(r@ =~= spec_vbs_registry_value(cmdline@));
    }
    r
}

/// A character that can occur in a VBScript-mode registry value: one of
/// the fixed wrapper text's characters or a lowercase hexadecimal digit.
pub open spec fn is_launcher_value_char(c: char) -> bool {
    ||| c == ' '
    ||| c == '"'
    ||| c == '%'
    ||| c == '.'
    ||| c == '/'
    ||| c == '\\'
    ||| c == '_'
    ||| (0x30 <= c as u32 && c as u32 <= 0x39)
    ||| c == 'A'
    ||| c == 'B'
    ||| c == 'D'
    ||| c == 'N'
    ||| c == 'P'
    ||| c == 'T'
    ||| c == 'a'
    ||| c == 'b'
    ||| c == 'c'
    ||| c == 'd'
    ||| c == 'e'
    ||| c == 'f'
    ||| c == 'g'
    ||| c == 'h'
    ||| c == 'i'
    ||| c == 'l'
    ||| c == 'm'
    ||| c == 'n'
    ||| c == 'o'
    ||| c == 'p'
    ||| c == 'r'
    ||| c == 's'
    ||| c == 't'
    ||| c == 'u'
    ||| c == 'v'
    ||| c == 'w'
    ||| c == 'x'
}

/// Hexadecimal digit characters are launcher characters.
proof fn lemma_hex_rec_in_alphabet(h: int, k: int)
    requires
        0 <= k < spec_hex_rec(h).len(),
    ensures
        is_launcher_value_char(spec_hex_rec(h)[k]),
    decreases h,
{
    if h <= 0 {
    } else {
        assert(is_launcher_value_char(hex_digit_char(h % 16)));
        if k < spec_hex_rec(h / 16).len() {
            lemma_hex_rec_in_alphabet(h / 16, k);
        }
    }
}

/// Every character of a VBScript-mode registry value is a launcher
/// character.
pub proof fn lemma_vbs_value_alphabet(cmdline: Seq<char>, k: int)
    requires
        0 <= k < spec_vbs_registry_value(cmdline).len(),
    ensures
        is_launcher_value_char(spec_vbs_registry_value(cmdline)[k]),
{
    reveal_strlit("wscript.exe //B //Nologo \"%APPDATA%\\windows_startup_manager\\");
    reveal_strlit("launcher_");
    reveal_strlit(".vbs");
    reveal_strlit("\"");
    let p = "wscript.exe //B //Nologo \"%APPDATA%\\windows_startup_manager\\"@;
    let hex = spec_hex(spec_line_hash(cmdline));
    let v = spec_vbs_registry_value(cmdline);
    assert forall|i: int| 0 <= i < p.len() implies is_launcher_value_char(#[trigger] p[i]) by {}
    assert forall|i: int| 0 <= i < "launcher_"@.len() implies is_launcher_value_char(
        #[trigger] "launcher_"@[i],
    ) by {}
    assert forall|i: int| 0 <= i < ".vbs"@.len() implies is_launcher_value_char(
        #[trigger] ".vbs"@[i],
    ) by {}
    assert forall|i: int| 0 <= i < hex.len() implies is_launcher_value_char(
        #[trigger] hex[i],
    ) by {
        if spec_line_hash(cmdline) == 0 {
            assert(hex == seq!['0']);
        } else {
            lemma_hex_rec_in_alphabet(spec_line_hash(cmdline) as int, i);
        }
    }
    assert(is_launcher_value_char("\""@[0]));
    assert(v == p + ("launcher_"@ + hex + ".vbs"@) + "\""@);
}

/// A VBScript-mode command always encodes to a registry value that
/// carries the launcher-invocation markers: the script host's name and
/// its two switches.
pub proof fn lemma_vbscript_value_has_markers(c: &StartupCommand)
    requires
        c matches StartupCommand::CommandWithArgs { command: _, args: _, workdir: _, mode: ExecutionMode::VBScript },
    ensures
        spec_contains(c.spec_registry_value(), "wscript.exe"@),
        spec_contains(c.spec_registry_value(), "//B"@),
        spec_contains(c.spec_registry_value(), "//Nologo"@),
{
    reveal_strlit("wscript.exe //B //Nologo \"%APPDATA%\\windows_startup_manager\\");
    reveal_strlit("wscript.exe");
    reveal_strlit("//B");
    reveal_strlit("//Nologo");
    let v = c.spec_registry_value();
    let p = "wscript.exe //B //Nologo \"%APPDATA%\\windows_startup_manager\\"@;
    assert(v.subrange(0, 11) =~= "wscript.exe"@);
    assert(match_at(v, "wscript.exe"@, 0));
    lemma_contains_iff_exists(v, "wscript.exe"@);
    assert(v.subrange(12, 15) =~= "//B"@);
    assert(match_at(v, "//B"@, 12));
    lemma_contains_iff_exists(v, "//B"@);
    assert(v.subrange(16, 24) =~= "//Nologo"@);
    assert(match_at(v, "//Nologo"@, 16));
    lemma_contains_iff_exists(v, "//Nologo"@);
}

/// The registry value of a VBScript-mode command never contains the raw
/// command line — it is hidden inside the auxiliary script — provided
/// the command line uses at least one character outside the launcher
/// value's own alphabet. A command line drawn entirely from that
/// alphabet, such as `wscript.exe` itself, can coincide with wrapper
/// text and is not covered.
pub proof fn lemma_vbscript_value_hides_line(c: &StartupCommand)
    requires
        c matches StartupCommand::CommandWithArgs { command: _, args: _, workdir: _, mode: ExecutionMode::VBScript },
        exists|k: int|
            0 <= k < c.spec_command_line().len() && !is_launcher_value_char(
                #[trigger] c.spec_command_line()[k],
            ),
    ensures
        !spec_contains(c.spec_registry_value(), c.spec_command_line()),
{
    let v = c.spec_registry_value();
    let cl = c.spec_command_line();
    let k = choose|k: int| 0 <= k < cl.len() && !is_launcher_value_char(#[trigger] cl[k]);
    lemma_contains_iff_exists(v, cl);
    if spec_contains(v, cl) {
        let i = choose|i: int| match_at(v, cl, i);
        assert(v.subrange(i, i + cl.len() as int)[k] == cl[k]);
        assert(v[i + k] == cl[k]);
        lemma_vbs_value_alphabet(cl, i + k);
    }
}

/// Launcher filenames are content-addressed by the resolved command line
/// alone: two VBScript-mode commands with the same program and arguments
/// get the same filename, whatever their working directories.
pub proof fn lemma_vbs_filename_ignores_workdir(a: StartupCommand, b: StartupCommand)
    requires
        a matches StartupCommand::CommandWithArgs { command: _, args: _, workdir: _, mode: ExecutionMode::VBScript },
        b matches StartupCommand::CommandWithArgs { command: _, args: _, workdir: _, mode: ExecutionMode::VBScript },
        a->CommandWithArgs_command@ == b->CommandWithArgs_command@,
        a->CommandWithArgs_args.deep_view() == b->CommandWithArgs_args.deep_view(),
    ensures
        a.spec_vbscript_output() is Some,
        b.spec_vbscript_output() is Some,
        a.spec_vbscript_output()->Some_0.0 == b.spec_vbscript_output()->Some_0.0,
{
}

} // verus!
