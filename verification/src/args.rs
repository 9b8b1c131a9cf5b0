//! Command-line argument parsing: flags first, then the shell command and
//! its arguments.

use vstd::prelude::*;

verus! {

/// The parsed command line: the shell program and its arguments after the
/// flag terminator, whether to run detached, and the flags that were not
/// recognized.
pub struct ParsedArgs {
    pub shell_program: Option<String>,
    pub shell_args: Vec<String>,
    pub daemonize: bool,
    pub ignored: Vec<String>,
}

/// The parse at the specification level, carried over the remaining
/// arguments: flags are read until a terminator (`-e`, `--command` or `--`);
/// `--no-daemon` clears the daemonize flag and other flags are collected as
/// ignored; after the terminator the first argument is the shell program and
/// the rest are its arguments.
pub open spec fn spec_parse_args(
    args: Seq<Seq<char>>,
    parse_flags: bool,
    daemonize: bool,
    program: Option<Seq<char>>,
) -> (Option<Seq<char>>, Seq<Seq<char>>, bool, Seq<Seq<char>>)
    decreases args.len(),
{
    if args.len() == 0 {
        (program, Seq::empty(), daemonize, Seq::empty())
    } else {
        let arg = args[0];
        let rest = args.drop_first();
        if parse_flags {
            if arg == "-e"@ || arg == "--command"@ || arg == "--"@ {
                spec_parse_args(rest, false, daemonize, program)
            } else if arg == "--no-daemon"@ {
                spec_parse_args(rest, true, false, program)
            } else {
                let r = spec_parse_args(rest, true, daemonize, program);
                (r.0, r.1, r.2, seq![arg] + r.3)
            }
        } else if program is None {
            spec_parse_args(rest, false, daemonize, Some(arg))
        } else {
            let r = spec_parse_args(rest, false, daemonize, program);
            (r.0, seq![arg] + r.1, r.2, r.3)
        }
    }
}

/// The view of an optional program name.
pub open spec fn prog_view(p: Option<String>) -> Option<Seq<char>> {
    match p {
        Some(s) => Some(s@),
        None => None,
    }
}

/// Relates a parse result value to its specification tuple.
pub open spec fn parsed_models(
    r: ParsedArgs,
    s: (Option<Seq<char>>, Seq<Seq<char>>, bool, Seq<Seq<char>>),
) -> bool {
    &&& (match r.shell_program {
        Some(p) => s.0 matches Some(sp) && p@ == sp,
        None => s.0 is None,
    })
    &&& r.shell_args@.map_values(|v: String| v@) == s.1
    &&& r.daemonize == s.2
    &&& r.ignored@.map_values(|v: String| v@) == s.3
}

/// Parses the command line after the program name. Flags are read until one
/// of `-e`, `--command` or `--` ends flag parsing; `--no-daemon` turns
/// detaching off; unrecognized flags are collected for the host to warn
/// about. After the terminator, the first argument names the shell program
/// and the rest are handed to it.
pub fn parse_args(args: Vec<String>) -> (r: ParsedArgs)
    ensures
        parsed_models(r, spec_parse_args(args@.map_values(|v: String| v@), true, true, None)),
{
    let mut shell_program: Option<String> = None;
    let mut shell_args: Vec<String> = Vec::new();
    let mut ignored: Vec<String> = Vec::new();
    let mut parse_flags = true;
    let mut daemonize = true;
    let ghost all = args@.map_values(|v: String| v@);
    let ghost full = spec_parse_args(all, true, true, None);
    let mut i: usize = 0;
    proof {
        assert(all.skip(0) =~= all);
    }
    while i < args.len()
        invariant
            0 <= i <= args@.len(),
            all == args@.map_values(|v: String| v@),
            full == spec_parse_args(all, true, true, None),
            ({
                let rest = spec_parse_args(
                    all.skip(i as int),
                    parse_flags,
                    daemonize,
                    prog_view(shell_program),
                );
                &&& (match full.0 {
                    Some(fp) => rest.0 matches Some(rp) && rp == fp,
                    None => rest.0 is None,
                })
                &&& full.1 == shell_args@.map_values(|v: String| v@) + rest.1
                &&& full.2 == rest.2
                &&& full.3 == ignored@.map_values(|v: String| v@) + rest.3
            }),
        decreases args@.len() - i,
    {
        let arg = &args[i];
        proof {
            assert(all.skip(i as int)[0] == all[i as int]);
            assert(all[i as int] == args@[i as int]@);
            assert(all.skip(i as int).drop_first() =~= all.skip(i as int + 1));
        }
        if parse_flags {
            if arg.eq(&"-e".to_owned()) || arg.eq(&"--command".to_owned()) || arg.eq(
                &"--".to_owned(),
            ) {
                parse_flags = false;
            } else if arg.eq(&"--no-daemon".to_owned()) {
                daemonize = false;
            } else {
                let ghost prev = ignored@;
                let ghost rest_before = spec_parse_args(
                    all.skip(i as int),
                    true,
                    daemonize,
                    prog_view(shell_program),
                );
                let ghost rest_after = spec_parse_args(
                    all.skip(i as int + 1),
                    true,
                    daemonize,
                    prog_view(shell_program),
                );
                ignored.push(arg.clone());
                proof {
                    assert(ignored@ =~= prev.push(args@[i as int]));
                    assert(ignored@.map_values(|v: String| v@) =~= prev.map_values(
                        |v: String| v@,
                    ) + seq![all[i as int]]);
                    assert(rest_before.3 == seq![all[i as int]] + rest_after.3);
                    assert(prev.map_values(|v: String| v@) + (seq![all[i as int]]
                        + rest_after.3) =~= (prev.map_values(|v: String| v@) + seq![
                        all[i as int],
                    ]) + rest_after.3);
                }
            }
        } else if shell_program.is_none() {
            shell_program = Some(arg.clone());
        } else {
            let ghost prev = shell_args@;
            let ghost rest_before = spec_parse_args(
                all.skip(i as int),
                false,
                daemonize,
                prog_view(shell_program),
            );
            let ghost rest_after = spec_parse_args(
                all.skip(i as int + 1),
                false,
                daemonize,
                prog_view(shell_program),
            );
            shell_args.push(arg.clone());
            proof {
                assert(shell_args@ =~= prev.push(args@[i as int]));
                assert(shell_args@.map_values(|v: String| v@) =~= prev.map_values(|v: String| v@)
                    + seq![all[i as int]]);
                assert(rest_before.1 == seq![all[i as int]] + rest_after.1);
                assert(prev.map_values(|v: String| v@) + (seq![all[i as int]] + rest_after.1) =~= (
                prev.map_values(|v: String| v@) + seq![all[i as int]]) + rest_after.1);
            }
        }
        i += 1;
    }
    proof {
        assert(all.skip(all.len() as int) =~= Seq::<Seq<char>>::empty());
        assert(args@.len() == all.len());
    }
    ParsedArgs { shell_program, shell_args, daemonize, ignored }
}

} // verus!
