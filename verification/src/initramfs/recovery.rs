//! The command language of the initramfs recovery shell: a few built-ins
//! that need no binaries on the initramfs, anything else run from `$PATH`.
use vstd::prelude::*;
use crate::text::{chars_of, string_from, trim, trim_vec, vec_eq, views, ws_tokens, ws_tokens_vec};

verus! {

/// What one line typed at the `(recovery) #` prompt asks for.
#[derive(Debug, Clone, PartialEq, Eq)]
pub enum RecoveryCommand {
    /// A blank line: prompt again.
    Nothing,
    /// `exit` / `quit`: PID 1 cannot exit, so it pauses forever.
    Halt,
    /// `help`: the list of built-ins.
    Help,
    /// `ls [PATH]` (default `/`).
    List(String),
    /// `cat` without a file: print its usage.
    CatUsage,
    /// `cat FILE`.
    Cat(String),
    /// `cmdline`: print `/proc/cmdline`.
    Cmdline,
    /// `mounts`: print `/proc/mounts`.
    Mounts,
    /// `blocks`: list `/sys/class/block` with sizes.
    Blocks,
    /// Anything else: fork and `execvp` these words.
    Run(Vec<String>),
}

/// The mathematical value of a [`RecoveryCommand`].
pub enum RecoveryModel {
    Nothing,
    Halt,
    Help,
    List(Seq<char>),
    CatUsage,
    Cat(Seq<char>),
    Cmdline,
    Mounts,
    Blocks,
    Run(Seq<Seq<char>>),
}

impl View for RecoveryCommand {
    type V = RecoveryModel;

    open spec fn view(&self) -> RecoveryModel {
        match self {
            RecoveryCommand::Nothing => RecoveryModel::Nothing,
            RecoveryCommand::Halt => RecoveryModel::Halt,
            RecoveryCommand::Help => RecoveryModel::Help,
            RecoveryCommand::List(p) => RecoveryModel::List(p@),
            RecoveryCommand::CatUsage => RecoveryModel::CatUsage,
            RecoveryCommand::Cat(p) => RecoveryModel::Cat(p@),
            RecoveryCommand::Cmdline => RecoveryModel::Cmdline,
            RecoveryCommand::Mounts => RecoveryModel::Mounts,
            RecoveryCommand::Blocks => RecoveryModel::Blocks,
            RecoveryCommand::Run(w) => RecoveryModel::Run(w@.map_values(|s: String| s@)),
        }
    }
}

/// What the recovery shell does with a line of input. The whole trimmed
/// line decides `exit`/`quit`; otherwise the first word picks a built-in.
pub open spec fn recovery_spec(line: Seq<char>) -> RecoveryModel {
    let l = trim(line);
    let parts = ws_tokens(l);
    if l.len() == 0 {
        RecoveryModel::Nothing
    } else if l == "exit"@ || l == "quit"@ {
        RecoveryModel::Halt
    } else if parts.len() == 0 {
        RecoveryModel::Nothing
    } else if parts[0] == "help"@ {
        RecoveryModel::Help
    } else if parts[0] == "ls"@ {
        RecoveryModel::List(if parts.len() > 1 { parts[1] } else { "/"@ })
    } else if parts[0] == "cat"@ {
        if parts.len() > 1 { RecoveryModel::Cat(parts[1]) } else { RecoveryModel::CatUsage }
    } else if parts[0] == "cmdline"@ {
        RecoveryModel::Cmdline
    } else if parts[0] == "mounts"@ {
        RecoveryModel::Mounts
    } else if parts[0] == "blocks"@ {
        RecoveryModel::Blocks
    } else {
        RecoveryModel::Run(parts)
    }
}

/// Reads one line typed at the recovery prompt.
pub fn parse_recovery_line(line: &str) -> (c: RecoveryCommand)
    ensures
        c@ == recovery_spec(line@),
{
    let v = chars_of(line);
    let l = trim_vec(&v);
    if l.len() == 0 {
        return RecoveryCommand::Nothing;
    }
    if vec_eq(&l, &chars_of("exit")) || vec_eq(&l, &chars_of("quit")) {
        return RecoveryCommand::Halt;
    }
    let parts = ws_tokens_vec(&l);
    let ghost ps = views(parts@);
    if parts.len() == 0 {
        return RecoveryCommand::Nothing;
    }
    assert(ps[0] == parts@[0]@);
    let first = &parts[0];
    if vec_eq(first, &chars_of("help")) {
        RecoveryCommand::Help
    } else if vec_eq(first, &chars_of("ls")) {
        if parts.len() > 1 {
            assert(ps[1] == parts@[1]@);
            RecoveryCommand::List(string_from(&parts[1]))
        } else {
            RecoveryCommand::List(String::from_str("/"))
        }
    } else if vec_eq(first, &chars_of("cat")) {
        if parts.len() > 1 {
            assert(ps[1] == parts@[1]@);
            RecoveryCommand::Cat(string_from(&parts[1]))
        } else {
            RecoveryCommand::CatUsage
        }
    } else if vec_eq(first, &chars_of("cmdline")) {
        RecoveryCommand::Cmdline
    } else if vec_eq(first, &chars_of("mounts")) {
        RecoveryCommand::Mounts
    } else if vec_eq(first, &chars_of("blocks")) {
        RecoveryCommand::Blocks
    } else {
        let mut words: Vec<String> = Vec::new();
        let mut i: usize = 0;
        while i < parts.len()
            invariant
                i <= parts.len(),
                ps == views(parts@),
                words@.map_values(|s: String| s@) =~= ps.take(i as int),
            decreases parts.len() - i,
        {
            words.push(string_from(&parts[i]));
            assert(ps.take(i + 1) =~= ps.take(i as int).push(ps[i as int]));
            i = i + 1;
        }
        assert(ps.take(parts.len() as int) =~= ps);
        RecoveryCommand::Run(words)
    }
}

} // verus!
