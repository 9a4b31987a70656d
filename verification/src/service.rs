//! The files that install the daemon as an operating-system service: its command line, a
//! systemd user unit and a launchd agent. Paths and addresses come in as the text they are
//! displayed as; finding the executable and writing the files is the application's work.

use crate::text::{chars_eq_str, chars_of, owned, push_chars, push_str, string_of};
use vstd::prelude::*;

verus! {

pub const WINDOWS_TASK: &'static str = "DeadDropDaemon";

pub const SYSTEMD_UNIT: &'static str = "deaddrop.service";

pub const LAUNCH_LABEL: &'static str = "com.deaddrop.daemon";

/// The daemon's command line: the `dd` front end is told to start the daemon in the
/// foreground; a dedicated daemon binary takes its options directly.
pub open spec fn command_line(exec: Seq<char>, stem: Seq<char>, dir: Seq<char>, listen: Seq<char>) -> Seq<Seq<char>> {
    if stem == "dd"@ {
        seq![exec, "--data-dir"@, dir, "daemon"@, "start"@, "--foreground"@, "--listen"@, listen]
    } else {
        seq![exec, "--data-dir"@, dir, "--listen"@, listen]
    }
}

/// The texts of a list of strings.
pub open spec fn texts(v: Seq<String>) -> Seq<Seq<char>> {
    v.map_values(|s: String| s@)
}

/// The parts joined by single spaces.
pub open spec fn join_space(parts: Seq<Seq<char>>) -> Seq<char>
    decreases parts.len(),
{
    if parts.len() == 0 {
        Seq::empty()
    } else if parts.len() == 1 {
        parts[0]
    } else {
        join_space(parts.drop_last()) + " "@ + parts.last()
    }
}

/// Each part as a `<string>` line of a property list.
pub open spec fn plist_strings(parts: Seq<Seq<char>>) -> Seq<char>
    decreases parts.len(),
{
    if parts.len() == 0 {
        Seq::empty()
    } else {
        plist_strings(parts.drop_last()) + "    <string>"@ + parts.last() + "</string>\n"@
    }
}

/// Builds the daemon's command line. `exec` is the executable as displayed, `exec_stem` its
/// file name without extension.
pub fn daemon_command_line(exec: &str, exec_stem: &str, data_dir: &str, listen: &str) -> (v: Vec<String>)
    ensures
        texts(v@) == command_line(exec@, exec_stem@, data_dir@, listen@),
{
    let stem = chars_of(exec_stem);
    let mut args: Vec<String> = Vec::new();
    args.push(owned(exec));
    args.push(owned("--data-dir"));
    args.push(owned(data_dir));
    if chars_eq_str(&stem, "dd") {
        args.push(owned("daemon"));
        args.push(owned("start"));
        args.push(owned("--foreground"));
    }
    args.push(owned("--listen"));
    args.push(owned(listen));
    assert(texts(args@) =~= command_line(exec@, exec_stem@, data_dir@, listen@));
    args
}

fn join_with_spaces(parts: &[String]) -> (s: Vec<char>)
    ensures
        s@ == join_space(texts(parts@)),
{
    let mut out: Vec<char> = Vec::new();
    let mut i: usize = 0;
    while i < parts.len()
        invariant
            i <= parts@.len(),
            out@ == join_space(texts(parts@).take(i as int)),
        decreases parts@.len() - i,
    {
        let ghost t = texts(parts@);
        if i > 0 {
            push_str(&mut out, " ");
        }
        let cs = chars_of(parts[i].as_str());
        push_chars(&mut out, &cs);
        proof {
            assert(t.take(i + 1).drop_last() =~= t.take(i as int));
            assert(t[i as int] == parts@[i as int]@);
            assert(t.take(i + 1).last() == cs@);
            if i == 0 {
                assert(t.take(1) =~= seq![t[0]]);
                assert(out@ =~= join_space(t.take(1)));
            } else {
                assert(out@ =~= join_space(t.take(i + 1)));
            }
        }
        i += 1;
    }
    assert(texts(parts@).take(parts@.len() as int) =~= texts(parts@));
    out
}

/// The text of the systemd user unit that runs the daemon.
pub open spec fn unit_text(line: Seq<char>) -> Seq<char> {
    "[Unit]\nDescription=DeadDrop DDP/2 node\nAfter=network.target\n\n[Service]\nType=simple\nExecStart="@
        + line + "\nRestart=on-failure\nRestartSec=3\n\n[Install]\nWantedBy=default.target\n"@
}

/// A systemd user unit that starts the daemon and restarts it on failure.
pub fn systemd_unit(exec: &str, exec_stem: &str, data_dir: &str, listen: &str) -> (s: String)
    ensures
        s@ == unit_text(join_space(command_line(exec@, exec_stem@, data_dir@, listen@))),
{
    let args = daemon_command_line(exec, exec_stem, data_dir, listen);
    let line = join_with_spaces(&args);
    let mut out: Vec<char> = Vec::new();
    push_str(
        &mut out,
        "[Unit]\nDescription=DeadDrop DDP/2 node\nAfter=network.target\n\n[Service]\nType=simple\nExecStart=",
    );
    push_chars(&mut out, &line);
    push_str(&mut out, "\nRestart=on-failure\nRestartSec=3\n\n[Install]\nWantedBy=default.target\n");
    string_of(&out)
}

/// The text of the launchd agent that runs the daemon, logging to `log`.
pub open spec fn plist_text(args: Seq<Seq<char>>, log: Seq<char>) -> Seq<char> {
    "<?xml version=\"1.0\" encoding=\"UTF-8\"?>\n<!DOCTYPE plist PUBLIC \"-//Apple//DTD PLIST 1.0//EN\" \"http://www.apple.com/DTDs/PropertyList-1.0.dtd\">\n<plist version=\"1.0\">\n<dict>\n  <key>Label</key><string>"@
        + LAUNCH_LABEL@ + "</string>\n  <key>ProgramArguments</key>\n  <array>\n"@ + plist_strings(args)
        + "  </array>\n  <key>RunAtLoad</key><true/>\n  <key>KeepAlive</key><true/>\n  <key>StandardOutPath</key><string>"@
        + log + "</string>\n  <key>StandardErrorPath</key><string>"@ + log
        + "</string>\n</dict>\n</plist>\n"@
}

/// A launchd agent that starts the daemon at login and keeps it alive. `log` is the
/// daemon's log file (`daemon.log` in the data directory) as displayed.
pub fn launchd_plist(exec: &str, exec_stem: &str, data_dir: &str, log: &str, listen: &str) -> (s: String)
    ensures
        s@ == plist_text(command_line(exec@, exec_stem@, data_dir@, listen@), log@),
{
    let args = daemon_command_line(exec, exec_stem, data_dir, listen);
    let ghost t = texts(args@);
    let mut items: Vec<char> = Vec::new();
    let mut i: usize = 0;
    while i < args.len()
        invariant
            i <= args@.len(),
            t == texts(args@),
            items@ == plist_strings(t.take(i as int)),
        decreases args@.len() - i,
    {
        push_str(&mut items, "    <string>");
        let cs = chars_of(args[i].as_str());
        push_chars(&mut items, &cs);
        push_str(&mut items, "</string>\n");
        proof {
            assert(t.take(i + 1).drop_last() =~= t.take(i as int));
            assert(items@ =~= plist_strings(t.take(i + 1)));
        }
        i += 1;
    }
    assert(t.take(t.len() as int) =~= t);
    let log_chars = chars_of(log);
    let mut out: Vec<char> = Vec::new();
    push_str(
        &mut out,
        "<?xml version=\"1.0\" encoding=\"UTF-8\"?>\n<!DOCTYPE plist PUBLIC \"-//Apple//DTD PLIST 1.0//EN\" \"http://www.apple.com/DTDs/PropertyList-1.0.dtd\">\n<plist version=\"1.0\">\n<dict>\n  <key>Label</key><string>",
    );
    push_str(&mut out, LAUNCH_LABEL);
    push_str(&mut out, "</string>\n  <key>ProgramArguments</key>\n  <array>\n");
    push_chars(&mut out, &items);
    push_str(
        &mut out,
        "  </array>\n  <key>RunAtLoad</key><true/>\n  <key>KeepAlive</key><true/>\n  <key>StandardOutPath</key><string>",
    );
    push_chars(&mut out, &log_chars);
    push_str(&mut out, "</string>\n  <key>StandardErrorPath</key><string>");
    push_chars(&mut out, &log_chars);
    push_str(&mut out, "</string>\n</dict>\n</plist>\n");
    string_of(&out)
}

} // verus!
