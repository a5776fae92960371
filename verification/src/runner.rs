//! The target runner: how the implementation under test is invoked, either
//! directly as a host executable or as a containerized image, reduced to a
//! program name and argument vector that the caller spawns.

use vstd::prelude::*;
use crate::text::{clone_string, dec_str, split_whitespace_str, split_ws, str_eq, u64_to_string};

verus! {

/// How to run the target: a host executable path, or a container image
/// with extra container-runtime flags taken from the environment.
pub enum Runner {
    Local { bin: String },
    Docker { image: String, extra: Vec<String> },
}

/// The read-only facts about the invoking host that containerized
/// execution forwards: working directory, user identity, and whether the
/// harness's own stdout is an interactive terminal.
pub struct HostContext {
    pub cwd: String,
    pub uid: u32,
    pub gid: u32,
    pub stdout_is_tty: bool,
}

/// Whether a locator designates containerized execution.
pub open spec fn has_docker_prefix(s: Seq<char>) -> bool {
    s.len() >= 9 && s.subrange(0, 9) == "docker://"@
}

/// A fresh vector with the same strings.
pub fn clone_string_vec(v: &Vec<String>) -> (out: Vec<String>)
    ensures
        out.deep_view() == v.deep_view(),
{
    let n = v.len();
    let mut out: Vec<String> = Vec::new();
    let mut i: usize = 0;
    while i < n
        invariant
            i <= n,
            n == v@.len(),
            out.deep_view() == v.deep_view().subrange(0, i as int),
        decreases n - i,
    {
        let ghost pdeep = out.deep_view();
        out.push(clone_string(&v[i]));
        proof {
            assert(out.deep_view() =~~= pdeep.push(v.deep_view()[i as int]));
            assert(out.deep_view() =~= v.deep_view().subrange(0, i + 1 as int));
        }
        i += 1;
    }
    proof {
        assert(v.deep_view().subrange(0, n as int) =~= v.deep_view());
    }
    out
}

impl Runner {
    /// Chooses the execution strategy from the locator: a `docker://`
    /// prefix selects containerized execution of the named image, with the
    /// whitespace-split extra flags; anything else is a host executable.
    pub fn parse(bin: &str, docker_flags: &str) -> (r: Runner)
        ensures
            has_docker_prefix(bin@) ==> (r matches Runner::Docker { image, extra } && image@
                == bin@.skip(9) && extra.deep_view() == split_ws(docker_flags@)),
            !has_docker_prefix(bin@) ==> (r matches Runner::Local { bin: b } && b@ == bin@),
    {
        let n = bin.unicode_len();
        if n >= 9 {
            let prefix = bin.substring_char(0, 9);
            if str_eq(prefix, "docker://") {
                let image_str = bin.substring_char(9, n);
                let image = String::from_str(image_str);
                let extra = split_whitespace_str(docker_flags);
                proof {
                    assert(bin@.subrange(9, n as int) =~= bin@.skip(9));
                }
                return Runner::Docker { image, extra };
            }
        }
        Runner::Local { bin: String::from_str(bin) }
    }
}

/// The program the runner spawns.
pub open spec fn command_program_spec(r: Runner) -> Seq<char> {
    match r {
        Runner::Local { bin } => bin@,
        Runner::Docker { .. } => "docker"@,
    }
}

/// The container-runtime argument vector: remove the container after exit,
/// keep stdin attached, allocate a terminal only when stdout is one,
/// forward the caller's numeric identity, append the caller-supplied extra
/// flags, bind-mount the working directory read-write at the identical
/// path and start there, then run the image with the target's arguments.
pub open spec fn docker_args_spec(
    image: Seq<char>,
    extra: Seq<Seq<char>>,
    argv: Seq<Seq<char>>,
    cwd: Seq<char>,
    uid: nat,
    gid: nat,
    tty: bool,
) -> Seq<Seq<char>> {
    seq!["run"@, "--rm"@, "-i"@] + (if tty {
        seq!["-t"@]
    } else {
        Seq::empty()
    }) + seq!["-e"@, "HOST_UID="@ + dec_str(uid), "-e"@, "HOST_GID="@ + dec_str(gid)] + extra
        + seq!["-v"@, cwd + ":"@ + cwd, "-w"@, cwd, image] + argv
}

pub open spec fn command_args_spec(r: Runner, argv: Seq<Seq<char>>, host: HostContext) -> Seq<
    Seq<char>,
> {
    match r {
        Runner::Local { .. } => argv,
        Runner::Docker { image, extra } => docker_args_spec(
            image@,
            extra.deep_view(),
            argv,
            host.cwd@,
            host.uid as nat,
            host.gid as nat,
            host.stdout_is_tty,
        ),
    }
}

impl Runner {
    /// The full command line that runs the target with `argv`: the program
    /// to spawn and its arguments.
    pub fn command(&self, argv: &Vec<String>, host: &HostContext) -> (r: (String, Vec<String>))
        ensures
            r.0@ == command_program_spec(*self),
            r.1.deep_view() == command_args_spec(*self, argv.deep_view(), *host),
    {
        match self {
            Runner::Local { bin } => (clone_string(bin), clone_string_vec(argv)),
            Runner::Docker { image, extra } => {
                let ghost espec = docker_args_spec(
                    image@,
                    extra.deep_view(),
                    argv.deep_view(),
                    host.cwd@,
                    host.uid as nat,
                    host.gid as nat,
                    host.stdout_is_tty,
                );
                let mut args: Vec<String> = Vec::new();
                args.push(String::from_str("run"));
                args.push(String::from_str("--rm"));
                args.push(String::from_str("-i"));
                if host.stdout_is_tty {
                    args.push(String::from_str("-t"));
                }
                args.push(String::from_str("-e"));
                let mut uid_arg = String::from_str("HOST_UID=");
                uid_arg.append(u64_to_string(host.uid as u64).as_str());
                args.push(uid_arg);
                args.push(String::from_str("-e"));
                let mut gid_arg = String::from_str("HOST_GID=");
                gid_arg.append(u64_to_string(host.gid as u64).as_str());
                args.push(gid_arg);
                let ghost head = args.deep_view();
                proof {
                    assert(head =~~= seq!["run"@, "--rm"@, "-i"@] + (if host.stdout_is_tty {
                        seq!["-t"@]
                    } else {
                        Seq::<Seq<char>>::empty()
                    }) + seq![
                        "-e"@,
                        "HOST_UID="@ + dec_str(host.uid as nat),
                        "-e"@,
                        "HOST_GID="@ + dec_str(host.gid as nat),
                    ]);
                }
                let ne = extra.len();
                let mut i: usize = 0;
                while i < ne
                    invariant
                        i <= ne,
                        ne == extra@.len(),
                        extra.deep_view().len() == ne,
                        args.deep_view() == head + extra.deep_view().subrange(0, i as int),
                    decreases ne - i,
                {
                    let ghost pdeep = args.deep_view();
                    args.push(clone_string(&extra[i]));
                    proof {
                        assert(args.deep_view() =~~= pdeep.push(extra.deep_view()[i as int]));
                        assert(args.deep_view() =~= head + extra.deep_view().subrange(
                            0,
                            i + 1 as int,
                        ));
                    }
                    i += 1;
                }
                proof {
                    assert(extra.deep_view().subrange(0, ne as int) =~= extra.deep_view());
                }
                args.push(String::from_str("-v"));
                let mut mount = clone_string(&host.cwd);
                mount.append(":");
                mount.append(host.cwd.as_str());
                args.push(mount);
                args.push(String::from_str("-w"));
                args.push(clone_string(&host.cwd));
                args.push(clone_string(image));
                let ghost head2 = args.deep_view();
                proof {
                    reveal_strlit(":");
                    assert(":"@ =~= seq![':']);
                    assert(host.cwd@ + ":"@ + host.cwd@ =~= host.cwd@ + seq![':'] + host.cwd@);
                    assert(head2 =~~= head + extra.deep_view() + seq![
                        "-v"@,
                        host.cwd@ + ":"@ + host.cwd@,
                        "-w"@,
                        host.cwd@,
                        image@,
                    ]);
                }
                let na = argv.len();
                let mut j: usize = 0;
                while j < na
                    invariant
                        j <= na,
                        na == argv@.len(),
                        argv.deep_view().len() == na,
                        args.deep_view() == head2 + argv.deep_view().subrange(0, j as int),
                    decreases na - j,
                {
                    let ghost pdeep = args.deep_view();
                    args.push(clone_string(&argv[j]));
                    proof {
                        assert(args.deep_view() =~~= pdeep.push(argv.deep_view()[j as int]));
                        assert(args.deep_view() =~= head2 + argv.deep_view().subrange(
                            0,
                            j + 1 as int,
                        ));
                    }
                    j += 1;
                }
                proof {
                    assert(argv.deep_view().subrange(0, na as int) =~= argv.deep_view());
                    assert(args.deep_view() =~~= espec);
                }
                (String::from_str("docker"), args)
            },
        }
    }
}

} // verus!
