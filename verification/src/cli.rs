//! The command line of the engine: which command the arguments select, the
//! `--flag value` pairs of `render` and `export`, and the lines of the
//! desktop theme's colour file.

use vstd::prelude::*;
use crate::text::{chars_of, is_white_space, lowercase, str_eq, string_of, unicode_lowercase, unicode_white_space};

verus! {

/// What the command line asks for. Paths and names are the argument texts.
pub enum CliCommand {
    /// Too few arguments: print the usage text.
    Usage,
    /// Answer with this error (a required argument is missing, or the
    /// subcommand is unknown).
    Fail { message: String },
    Inspect { path: String },
    Render { path: String },
    AiAuto { path: String },
    AiSocial { path: String, platform: String },
    Export { path: String },
    GdriveCheck,
    GdriveList { folder: String },
    GdriveFetch { remote: String },
    IccList,
    Scan { dir: String },
    Catalog,
    Status,
    Version,
    Help,
    Theme,
    Daemon,
    /// An unknown command; the message is `Unknown command: <name>`.
    Unknown { message: String },
}

/// The texts of the arguments.
pub open spec fn arg_views(args: Seq<String>) -> Seq<Seq<char>> {
    args.map_values(|a: String| a@)
}

/// `c` fails with `message`.
pub open spec fn fails_with(c: CliCommand, message: Seq<char>) -> bool {
    c matches CliCommand::Fail { message: m } && m@ == message
}

/// The command the argument texts `a` select (`a[0]` is the program).
pub open spec fn command_of(a: Seq<Seq<char>>, c: CliCommand) -> bool {
    if a.len() < 2 {
        c is Usage
    } else {
        let cmd = a[1];
        if cmd == "inspect"@ || cmd == "render"@ || cmd == "ai-auto"@ || cmd == "ai-social"@ || cmd
            == "export"@ {
            if a.len() < 3 {
                fails_with(c, "Missing RAW file path"@)
            } else if cmd == "inspect"@ {
                c matches CliCommand::Inspect { path } && path@ == a[2]
            } else if cmd == "render"@ {
                c matches CliCommand::Render { path } && path@ == a[2]
            } else if cmd == "ai-auto"@ {
                c matches CliCommand::AiAuto { path } && path@ == a[2]
            } else if cmd == "ai-social"@ {
                c matches CliCommand::AiSocial { path, platform } && path@ == a[2] && platform@ == (
                if a.len() >= 4 {
                    a[3]
                } else {
                    "ig"@
                })
            } else {
                c matches CliCommand::Export { path } && path@ == a[2]
            }
        } else if cmd == "gdrive"@ {
            if a.len() < 3 {
                fails_with(c, "Missing gdrive subcommand"@)
            } else if a[2] == "check"@ {
                c is GdriveCheck
            } else if a[2] == "list"@ {
                c matches CliCommand::GdriveList { folder } && folder@ == (if a.len() >= 4 {
                    a[3]
                } else {
                    Seq::<char>::empty()
                })
            } else if a[2] == "fetch"@ {
                if a.len() < 4 {
                    fails_with(c, "Missing remote path"@)
                } else {
                    c matches CliCommand::GdriveFetch { remote } && remote@ == a[3]
                }
            } else {
                fails_with(c, "Unknown gdrive subcommand"@)
            }
        } else if cmd == "icc"@ {
            if a.len() < 3 || a[2] == "list"@ {
                c is IccList
            } else {
                fails_with(c, "Unknown icc subcommand"@)
            }
        } else if cmd == "scan"@ {
            c matches CliCommand::Scan { dir } && dir@ == (if a.len() >= 3 {
                a[2]
            } else {
                "."@
            })
        } else if cmd == "catalog"@ {
            c is Catalog
        } else if cmd == "status"@ || cmd == "--status"@ {
            c is Status
        } else if cmd == "version"@ || cmd == "--version"@ || cmd == "-v"@ {
            c is Version
        } else if cmd == "help"@ || cmd == "--help"@ || cmd == "-h"@ {
            c is Help
        } else if cmd == "theme"@ {
            c is Theme
        } else if cmd == "daemon"@ {
            c is Daemon
        } else {
            c matches CliCommand::Unknown { message } && message@ == "Unknown command: "@ + cmd
        }
    }
}

fn fail(message: &str) -> (r: CliCommand)
    ensures
        fails_with(r, message@),
{
    CliCommand::Fail { message: String::from_str(message) }
}

/// Selects the command of an argument list (`args[0]` is the program).
pub fn parse_command(args: &Vec<String>) -> (r: CliCommand)
    ensures
        command_of(arg_views(args@), r),
{
    let ghost a = arg_views(args@);
    if args.len() < 2 {
        return CliCommand::Usage;
    }
    assert(a[1] == args@[1]@);
    let cmd = args[1].as_str();
    if str_eq(cmd, "inspect") || str_eq(cmd, "render") || str_eq(cmd, "ai-auto") || str_eq(cmd, "ai-social")
        || str_eq(cmd, "export") {
        if args.len() < 3 {
            return fail("Missing RAW file path");
        }
        assert(a[2] == args@[2]@);
        let path = args[2].clone();
        if str_eq(cmd, "inspect") {
            CliCommand::Inspect { path }
        } else if str_eq(cmd, "render") {
            CliCommand::Render { path }
        } else if str_eq(cmd, "ai-auto") {
            CliCommand::AiAuto { path }
        } else if str_eq(cmd, "ai-social") {
            let platform = if args.len() >= 4 {
                assert(a[3] == args@[3]@);
                args[3].clone()
            } else {
                String::from_str("ig")
            };
            CliCommand::AiSocial { path, platform }
        } else {
            CliCommand::Export { path }
        }
    } else if str_eq(cmd, "gdrive") {
        if args.len() < 3 {
            return fail("Missing gdrive subcommand");
        }
        assert(a[2] == args@[2]@);
        let sub = args[2].as_str();
        if str_eq(sub, "check") {
            CliCommand::GdriveCheck
        } else if str_eq(sub, "list") {
            let folder = if args.len() >= 4 {
                assert(a[3] == args@[3]@);
                args[3].clone()
            } else {
                String::new()
            };
            CliCommand::GdriveList { folder }
        } else if str_eq(sub, "fetch") {
            if args.len() < 4 {
                return fail("Missing remote path");
            }
            assert(a[3] == args@[3]@);
            CliCommand::GdriveFetch { remote: args[3].clone() }
        } else {
            fail("Unknown gdrive subcommand")
        }
    } else if str_eq(cmd, "icc") {
        if args.len() < 3 {
            return CliCommand::IccList;
        }
        assert(a[2] == args@[2]@);
        if str_eq(args[2].as_str(), "list") {
            CliCommand::IccList
        } else {
            fail("Unknown icc subcommand")
        }
    } else if str_eq(cmd, "scan") {
        let dir = if args.len() >= 3 {
            assert(a[2] == args@[2]@);
            args[2].clone()
        } else {
            String::from_str(".")
        };
        CliCommand::Scan { dir }
    } else if str_eq(cmd, "catalog") {
        CliCommand::Catalog
    } else if str_eq(cmd, "status") || str_eq(cmd, "--status") {
        CliCommand::Status
    } else if str_eq(cmd, "version") || str_eq(cmd, "--version") || str_eq(cmd, "-v") {
        CliCommand::Version
    } else if str_eq(cmd, "help") || str_eq(cmd, "--help") || str_eq(cmd, "-h") {
        CliCommand::Help
    } else if str_eq(cmd, "theme") {
        CliCommand::Theme
    } else if str_eq(cmd, "daemon") {
        CliCommand::Daemon
    } else {
        let mut message = String::from_str("Unknown command: ");
        message.append(cmd);
        CliCommand::Unknown { message }
    }
}

/// Position of the first flag equal to `a`, or `flags.len()` when none is.
pub open spec fn flag_position(flags: Seq<Seq<char>>, a: Seq<char>) -> int
    decreases flags.len(),
{
    if flags.len() == 0 {
        0
    } else if flags[0] == a {
        0
    } else {
        1 + flag_position(flags.drop_first(), a)
    }
}

/// The `(flag, value)` pairs read from argument `i` on: an argument equal to
/// a flag and followed by another argument takes that argument as its value,
/// and both are consumed; any other argument is skipped.
pub open spec fn flag_pairs(a: Seq<Seq<char>>, flags: Seq<Seq<char>>, i: int) -> Seq<(int, Seq<char>)>
    decreases a.len() - i,
{
    if i < 0 || i >= a.len() {
        Seq::empty()
    } else if flag_position(flags, a[i]) < flags.len() && i + 1 < a.len() {
        seq![(flag_position(flags, a[i]), a[i + 1])] + flag_pairs(a, flags, i + 2)
    } else {
        flag_pairs(a, flags, i + 1)
    }
}

/// One flag given with its value.
pub struct FlagValue {
    /// Position of the flag in the list of known flags.
    pub flag: usize,
    pub value: String,
}

fn find_flag(flags: &Vec<String>, a: &String) -> (r: usize)
    ensures
        r == flag_position(arg_views(flags@), a@),
{
    let mut k: usize = 0;
    assert(arg_views(flags@).skip(0) =~= arg_views(flags@));
    while k < flags.len()
        invariant
            k <= flags@.len(),
            forall|j: int| 0 <= j < k ==> flags@[j]@ != a@,
            flag_position(arg_views(flags@), a@) == k + flag_position(arg_views(flags@).skip(k as int), a@),
        decreases flags.len() - k,
    {
        proof {
            let s = arg_views(flags@).skip(k as int);
            assert(s[0] == flags@[k as int]@);
            assert(s.drop_first() =~= arg_views(flags@).skip(k + 1));
        }
        if str_eq(flags[k].as_str(), a.as_str()) {
            return k;
        }
        k = k + 1;
    }
    proof {
        assert(arg_views(flags@).skip(k as int).len() == 0);
    }
    k
}

/// Reads the `--flag value` pairs of `args` from position `start` on; see `flag_pairs`.
pub fn scan_flags(args: &Vec<String>, flags: &Vec<String>, start: usize) -> (r: Vec<FlagValue>)
    ensures
        r@.len() == flag_pairs(arg_views(args@), arg_views(flags@), start as int).len(),
        forall|k: int|
            0 <= k < r@.len() ==> (#[trigger] r@[k]).flag == flag_pairs(
                arg_views(args@),
                arg_views(flags@),
                start as int,
            )[k].0 && r@[k].value@ == flag_pairs(arg_views(args@), arg_views(flags@), start as int)[k].1,
{
    let ghost a = arg_views(args@);
    let ghost fl = arg_views(flags@);
    let ghost whole = flag_pairs(a, fl, start as int);
    let mut out: Vec<FlagValue> = Vec::new();
    let ghost mut got: Seq<(int, Seq<char>)> = Seq::empty();
    let mut i: usize = start;
    while i < args.len()
        invariant
            a == arg_views(args@),
            fl == arg_views(flags@),
            whole == flag_pairs(a, fl, start as int),
            start <= i || i >= args@.len(),
            whole == got + flag_pairs(a, fl, i as int),
            out@.len() == got.len(),
            forall|k: int| 0 <= k < out@.len() ==> (#[trigger] out@[k]).flag == got[k].0 && out@[k].value@ == got[k].1,
        decreases args.len() - i,
    {
        let p = find_flag(flags, &args[i]);
        assert(a[i as int] == args@[i as int]@);
        if p < flags.len() && i + 1 < args.len() {
            assert(a[i + 1] == args@[i + 1]@);
            let value = args[i + 1].clone();
            proof {
                got = got.push((p as int, a[i + 1]));
                assert(got + flag_pairs(a, fl, i + 2) =~= whole);
            }
            out.push(FlagValue { flag: p, value });
            i = i + 2;
        } else {
            i = i + 1;
        }
    }
    proof {
        assert(flag_pairs(a, fl, i as int) =~= Seq::<(int, Seq<char>)>::empty());
        assert(got =~= whole);
    }
    out
}

} // verus!
