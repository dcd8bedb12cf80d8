//! Commands that run on the NAS through ssh, and what their output means.

use vstd::prelude::*;

use crate::error::{BusyNasError, ErrorView};
use crate::order::{sort_strings, sorted};
use crate::pathname::{file_name, file_name_of, with_trailing_slash};
use crate::process::{failure, failure_error, CommandOutput, CommandSpec, CommandView, OutputView};
use crate::text::{lines, lines_of, owned, push_char, push_str, strs};

verus! {

broadcast use vstd::seq_lib::group_seq_properties;

/// ssh to `target` and run `command` with `args` there, each argument apart.
pub open spec fn ssh_command(
    ssh: Seq<char>,
    target: Seq<char>,
    command: Seq<char>,
    args: Seq<Seq<char>>,
) -> CommandView {
    CommandView {
        program: ssh,
        args: seq!["--"@, target, command] + args,
        stdin: None,
        stream_output: false,
    }
}

/// How a failed remote command is reported: the ssh program and the command.
pub open spec fn remote_failure(ssh: Seq<char>, command: Seq<char>, output: OutputView) -> ErrorView {
    failure(ssh + " "@ + command, output)
}

pub open spec fn mkdir_p(ssh: Seq<char>, target: Seq<char>, path: Seq<char>) -> CommandView {
    ssh_command(ssh, target, "mkdir"@, seq!["-p"@, path])
}

pub open spec fn mkdir(ssh: Seq<char>, target: Seq<char>, path: Seq<char>) -> CommandView {
    ssh_command(ssh, target, "mkdir"@, seq![path])
}

pub open spec fn rm_rf(ssh: Seq<char>, target: Seq<char>, path: Seq<char>) -> CommandView {
    ssh_command(ssh, target, "rm"@, seq!["-rf"@, path])
}

pub open spec fn test_dir(ssh: Seq<char>, target: Seq<char>, path: Seq<char>) -> CommandView {
    ssh_command(ssh, target, "test"@, seq!["-d"@, path])
}

pub open spec fn cat(ssh: Seq<char>, target: Seq<char>, path: Seq<char>) -> CommandView {
    ssh_command(ssh, target, "cat"@, seq![path])
}

pub open spec fn find_dirs(ssh: Seq<char>, target: Seq<char>, path: Seq<char>) -> CommandView {
    ssh_command(
        ssh,
        target,
        "find"@,
        seq![path, "-mindepth"@, "1"@, "-maxdepth"@, "1"@, "-type"@, "d"@],
    )
}

pub open spec fn install(
    ssh: Seq<char>,
    target: Seq<char>,
    path: Seq<char>,
    contents: Seq<u8>,
) -> CommandView {
    CommandView {
        stdin: Some(contents),
        ..ssh_command(ssh, target, "install"@, seq!["-m"@, "600"@, "/dev/stdin"@, path])
    }
}

pub open spec fn copy_tree(
    ssh: Seq<char>,
    target: Seq<char>,
    source: Seq<char>,
    destination: Seq<char>,
) -> CommandView {
    ssh_command(ssh, target, "rsync"@, seq!["-a"@, source.push('/'), destination.push('/')])
}

/// The NAS as reached through ssh.
pub struct Remote {
    pub ssh: String,
    pub target: String,
}

fn vec2(a: String, b: String) -> (v: Vec<String>)
    ensures
        strs(v@) == seq![a@, b@],
{
    let mut v = Vec::new();
    v.push(a);
    v.push(b);
    assert(strs(v@) =~= seq![a@, b@]);
    v
}

fn vec1(a: String) -> (v: Vec<String>)
    ensures
        strs(v@) == seq![a@],
{
    let mut v = Vec::new();
    v.push(a);
    assert(strs(v@) =~= seq![a@]);
    v
}

impl Remote {
    /// `ssh -- <target> <command> <args...>`.
    pub fn command(&self, command: &str, args: Vec<String>) -> (c: CommandSpec)
        ensures
            c@ == ssh_command(self.ssh@, self.target@, command@, strs(args@)),
    {
        let mut all: Vec<String> = Vec::new();
        all.push(owned("--"));
        all.push(owned(self.target.as_str()));
        all.push(owned(command));
        let ghost head = strs(all@);
        assert(head =~= seq!["--"@, self.target@, command@]);
        let mut i: usize = 0;
        while i < args.len()
            invariant
                i <= args.len(),
                strs(all@) == head + strs(args@).take(i as int),
            decreases args.len() - i,
        {
            let ghost before = strs(all@);
            all.push(args[i].clone());
            assert(strs(all@) =~= before.push(args@[i as int]@));
            assert(strs(args@).take(i + 1) =~= strs(args@).take(i as int).push(args@[i as int]@));
            i = i + 1;
        }
        assert(strs(args@).take(args.len() as int) =~= strs(args@));
        CommandSpec {
            program: owned(self.ssh.as_str()),
            args: all,
            stdin: None,
            stream_output: false,
        }
    }

    /// How a failed remote `command` is reported.
    pub fn failure(&self, command: &str, output: &CommandOutput) -> (e: BusyNasError)
        ensures
            e@ == remote_failure(self.ssh@, command@, output@),
    {
        let mut program = owned(self.ssh.as_str());
        push_char(&mut program, ' ');
        push_str(&mut program, command);
        proof {
            reveal_strlit(" ");
            assert(program@ =~= self.ssh@ + " "@ + command@);
        }
        failure_error(program.as_str(), output)
    }

    pub fn ensure_directory(&self, path: &str) -> (c: CommandSpec)
        ensures
            c@ == mkdir_p(self.ssh@, self.target@, path@),
    {
        self.command("mkdir", vec2(owned("-p"), owned(path)))
    }

    pub fn make_directory(&self, path: &str) -> (c: CommandSpec)
        ensures
            c@ == mkdir(self.ssh@, self.target@, path@),
    {
        self.command("mkdir", vec1(owned(path)))
    }

    pub fn remove_dir_all(&self, path: &str) -> (c: CommandSpec)
        ensures
            c@ == rm_rf(self.ssh@, self.target@, path@),
    {
        self.command("rm", vec2(owned("-rf"), owned(path)))
    }

    pub fn is_directory(&self, path: &str) -> (c: CommandSpec)
        ensures
            c@ == test_dir(self.ssh@, self.target@, path@),
    {
        self.command("test", vec2(owned("-d"), owned(path)))
    }

    pub fn read_file(&self, path: &str) -> (c: CommandSpec)
        ensures
            c@ == cat(self.ssh@, self.target@, path@),
    {
        self.command("cat", vec1(owned(path)))
    }

    pub fn find_directories(&self, path: &str) -> (c: CommandSpec)
        ensures
            c@ == find_dirs(self.ssh@, self.target@, path@),
    {
        let mut args: Vec<String> = Vec::new();
        args.push(owned(path));
        args.push(owned("-mindepth"));
        args.push(owned("1"));
        args.push(owned("-maxdepth"));
        args.push(owned("1"));
        args.push(owned("-type"));
        args.push(owned("d"));
        assert(strs(args@) =~= seq![path@, "-mindepth"@, "1"@, "-maxdepth"@, "1"@, "-type"@, "d"@]);
        self.command("find", args)
    }

    /// Writes `contents` to `path` with owner-only permissions.
    pub fn install_file(&self, path: &str, contents: Vec<u8>) -> (c: CommandSpec)
        ensures
            c@ == install(self.ssh@, self.target@, path@, contents@),
    {
        let mut args: Vec<String> = Vec::new();
        args.push(owned("-m"));
        args.push(owned("600"));
        args.push(owned("/dev/stdin"));
        args.push(owned(path));
        assert(strs(args@) =~= seq!["-m"@, "600"@, "/dev/stdin"@, path@]);
        let c = self.command("install", args);
        CommandSpec { stdin: Some(contents), ..c }
    }

    /// Copies the tree under `source` into `destination`, both on the NAS.
    pub fn rsync_local_to_local(&self, source: &str, destination: &str) -> (c: CommandSpec)
        ensures
            c@ == copy_tree(self.ssh@, self.target@, source@, destination@),
    {
        let mut args: Vec<String> = Vec::new();
        args.push(owned("-a"));
        args.push(with_trailing_slash(source));
        args.push(with_trailing_slash(destination));
        assert(strs(args@) =~= seq!["-a"@, source@.push('/'), destination@.push('/')]);
        self.command("rsync", args)
    }
}

/// The names that `find` listed, one path per line, in the order of the lines:
/// each line's final name, when it has one.
pub open spec fn listed_names(ls: Seq<Seq<char>>) -> Seq<Seq<char>>
    decreases ls.len(),
{
    if ls.len() == 0 {
        Seq::empty()
    } else {
        let prev = listed_names(ls.drop_last());
        match file_name(ls.last()) {
            Some(n) => if n.len() > 0 {
                prev.push(n)
            } else {
                prev
            },
            None => prev,
        }
    }
}

/// The directory names in `find`'s output, sorted.
pub fn directory_names(stdout: &str) -> (out: Vec<String>)
    ensures
        sorted(strs(out@)),
        strs(out@).to_multiset() == listed_names(lines(stdout@)).to_multiset(),
{
    let ls = lines_of(stdout);
    let mut names: Vec<String> = Vec::new();
    let mut i: usize = 0;
    while i < ls.len()
        invariant
            i <= ls.len(),
            strs(names@) == listed_names(strs(ls@).take(i as int)),
        decreases ls.len() - i,
    {
        let ghost prefix = strs(ls@).take(i + 1);
        proof {
            assert(prefix.drop_last() =~= strs(ls@).take(i as int));
            assert(prefix.last() == ls@[i as int]@);
        }
        match file_name_of(ls[i].as_str()) {
            Some(name) => {
                if !name.as_str().is_empty() {
                    let ghost before = strs(names@);
                    names.push(name);
                    assert(strs(names@) =~= before.push(names@.last()@));
                }
            },
            None => {},
        }
        i = i + 1;
    }
    assert(strs(ls@).take(ls.len() as int) =~= strs(ls@));
    sort_strings(names)
}

} // verus!
