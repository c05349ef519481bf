use shell_core::command::{parse_input_string, CommandKind, ShellCommand};
use shell_core::dispatch::{Dispatch, Request};
use shell_core::session::Session;

/// A host without a disk: `files` are the regular files and `dirs` the
/// directories that exist.
struct Host {
    session: Session,
    search_path: String,
    files: Vec<String>,
    dirs: Vec<String>,
    asked: Vec<String>,
    steps: usize,
}

impl Host {
    fn new(cwd: &str, search_path: &str, files: &[&str], dirs: &[&str]) -> Host {
        Host {
            session: Session::new(String::from(cwd), String::from("/home/user")),
            search_path: String::from(search_path),
            files: files.iter().map(|s| String::from(*s)).collect(),
            dirs: dirs.iter().map(|s| String::from(*s)).collect(),
            asked: Vec::new(),
            steps: 0,
        }
    }

    /// Runs one command to its end and returns what it asked the host to
    /// do, the questions left out.
    fn run_command(&mut self, cmd: ShellCommand) -> Vec<Request> {
        let mut machine = Dispatch::new(cmd, &self.search_path);
        let mut done = Vec::new();
        let mut answer = false;
        self.steps = 0;
        loop {
            self.steps += 1;
            assert!(self.steps < 1000);
            let request = machine.step(&mut self.session, answer);
            answer = false;
            match request {
                Request::ProbeFile(path) => {
                    answer = self.files.contains(&path);
                    self.asked.push(path);
                }
                Request::ProbeDir(path) => {
                    answer = self.dirs.contains(&path) || self.files.contains(&path);
                    self.asked.push(path);
                }
                Request::Done => {
                    assert!(machine.is_ended());
                    assert_eq!(machine.step(&mut self.session, true), Request::Done);
                    return done;
                }
                Request::Exit => {
                    done.push(Request::Exit);
                    return done;
                }
                other => done.push(other),
            }
        }
    }

    fn run(&mut self, line: &str) -> Vec<Request> {
        match parse_input_string(String::from(line)).unwrap() {
            Some(cmd) => self.run_command(cmd),
            None => Vec::new(),
        }
    }
}

fn print(line: &str) -> Request {
    Request::Print(String::from(line))
}

#[test]
fn resolver_takes_the_first_directory_with_the_file() {
    let mut host = Host::new("/", "/usr/bin:/bin", &["/bin/ls"], &[]);
    assert_eq!(host.run("type ls\n"), vec![print("ls is /bin/ls")]);
    assert_eq!(host.asked, vec!["/usr/bin/ls", "/bin/ls"]);
}

#[test]
fn resolver_stops_at_the_first_hit() {
    let mut host = Host::new("/", "/usr/bin:/bin:/opt", &["/bin/ls", "/usr/bin/ls", "/opt/ls"], &[]);
    assert_eq!(host.run("type ls\n"), vec![print("ls is /usr/bin/ls")]);
    assert_eq!(host.asked, vec!["/usr/bin/ls"]);
}

#[test]
fn resolver_finds_nothing_without_a_match() {
    let mut host = Host::new("/", "/usr/bin:/bin", &["/sbin/ls"], &[]);
    assert_eq!(host.run("type ls\n"), vec![print("ls: not found")]);
    assert_eq!(host.asked, vec!["/usr/bin/ls", "/bin/ls"]);
}

#[test]
fn resolver_ignores_directories_of_that_name() {
    let mut host = Host::new("/", "/usr/bin:/bin", &["/bin/ls"], &["/usr/bin/ls"]);
    assert_eq!(host.run("type ls\n"), vec![print("ls is /bin/ls")]);
}

#[test]
fn empty_search_path_resolves_nothing() {
    let mut host = Host::new("/", "", &["/bin/ls", "ls", "/ls"], &[]);
    assert_eq!(host.run("type ls\n"), vec![print("ls: not found")]);
    assert_eq!(host.run("ls\n"), vec![print("ls: command not found")]);
    assert!(host.asked.is_empty());
}

#[test]
fn cd_to_an_existing_directory_then_pwd() {
    let mut host = Host::new("/home/user", "/bin", &[], &["/tmp"]);
    assert_eq!(host.run("cd /tmp\n"), vec![]);
    assert_eq!(host.session.cwd(), "/tmp");
    assert_eq!(host.run("pwd\n"), vec![print("/tmp")]);
}

#[test]
fn cd_to_a_missing_directory_changes_nothing() {
    let mut host = Host::new("/home/user", "/bin", &[], &["/tmp"]);
    assert_eq!(
        host.run("cd /nonexistent\n"),
        vec![print("/nonexistent: No such file or directory")]
    );
    assert_eq!(host.session.cwd(), "/home/user");
    assert_eq!(host.run("pwd\n"), vec![print("/home/user")]);
}

#[test]
fn cd_dotdot_pops_components() {
    let mut host = Host::new("/a/b/c", "/bin", &[], &[]);
    assert_eq!(host.run("cd ..\n"), vec![]);
    assert_eq!(host.session.cwd(), "/a/b");
    let mut host = Host::new("/a/b/c", "/bin", &[], &[]);
    assert_eq!(host.run("cd ../..\n"), vec![]);
    assert_eq!(host.session.cwd(), "/a");
    assert!(host.asked.is_empty());
}

#[test]
fn cd_below_the_working_directory() {
    let mut host = Host::new("/a", "/bin", &[], &["/a/b", "/a/b/c"]);
    assert_eq!(host.run("cd ./b\n"), vec![]);
    assert_eq!(host.session.cwd(), "/a/b");
    assert_eq!(host.run("cd c\n"), vec![]);
    assert_eq!(host.session.cwd(), "/a/b/c");
    assert_eq!(host.run("cd ./d\n"), vec![print("/a/b/c/d: No such file or directory")]);
    assert_eq!(host.session.cwd(), "/a/b/c");
}

#[test]
fn cd_home_and_cd_alone() {
    let mut host = Host::new("/a", "/bin", &[], &[]);
    assert_eq!(host.run("cd\n"), vec![]);
    assert_eq!(host.session.cwd(), "/a");
    assert_eq!(host.run("cd ~\n"), vec![]);
    assert_eq!(host.session.cwd(), "/home/user");
    assert_eq!(host.session.home(), "/home/user");
    assert_eq!(host.run("cd ..\n"), vec![]);
    assert_eq!(host.run("cd ~/x\n"), vec![]);
    assert_eq!(host.session.cwd(), "/home/user");
}

#[test]
fn type_describes_each_operand_in_order() {
    let mut host = Host::new("/", "/usr/bin:/bin", &["/bin/ls"], &[]);
    assert_eq!(host.run("type echo\n"), vec![print("echo is a shell builtin")]);
    assert_eq!(host.run("type doesnotexist123\n"), vec![print("doesnotexist123: not found")]);
    assert_eq!(
        host.run("type cd ls nope exit type pwd\n"),
        vec![
            print("cd is a shell builtin"),
            print("ls is /bin/ls"),
            print("nope: not found"),
            print("exit is a shell builtin"),
            print("type is a shell builtin"),
            print("pwd is a shell builtin"),
        ]
    );
    assert_eq!(host.run("type\n"), vec![]);
}

#[test]
fn echo_prints_its_operands() {
    let mut host = Host::new("/", "/bin", &[], &[]);
    assert_eq!(host.run("echo hello   world\n"), vec![print("hello world")]);
    assert_eq!(host.run("echo 'hello   world'\n"), vec![print("hello   world")]);
    assert_eq!(host.run("echo\n"), vec![print("")]);
    assert_eq!(host.run("echo \"a'b\"\n"), vec![print("a'b")]);
}

#[test]
fn exit_leaves_the_loop() {
    let mut host = Host::new("/", "/bin", &[], &[]);
    assert_eq!(host.run("exit\n"), vec![Request::Exit]);
    assert_eq!(host.run("exit 0\n"), vec![Request::Exit]);
}

#[test]
fn external_commands_are_resolved_and_run() {
    let mut host = Host::new("/", "/usr/bin:/bin", &["/bin/ls"], &[]);
    assert_eq!(
        host.run("ls -l 'my dir'\n"),
        vec![Request::Spawn(String::from("/bin/ls"), vec![String::from("-l"), String::from("my dir")])]
    );
    assert_eq!(host.run("ls\n"), vec![Request::Spawn(String::from("/bin/ls"), vec![])]);
    assert_eq!(host.run("nope a b\n"), vec![print("nope: command not found")]);
    assert_eq!(host.session.cwd(), "/");
}

#[test]
fn cat_shows_each_operand() {
    let mut host = Host::new("/", "/bin", &["/bin/cat"], &[]);
    assert_eq!(
        host.run("cat 'a b' \"c\" /etc/motd\n"),
        vec![
            Request::ShowFile(String::from("/a b")),
            Request::ShowFile(String::from("/c")),
            Request::ShowFile(String::from("/etc/motd")),
        ]
    );
    let mut host = Host::new("/home/user", "/bin", &["/bin/cat"], &[]);
    assert_eq!(host.run("cat notes\n"), vec![Request::ShowFile(String::from("/home/user/notes"))]);
    assert_eq!(
        host.run("cat\n"),
        vec![Request::Complain(String::from("cat: missing file operand"))]
    );
    assert!(host.asked.is_empty());
}

#[test]
fn blank_lines_do_nothing() {
    let mut host = Host::new("/", "/bin", &[], &[]);
    assert_eq!(host.run("\n"), vec![]);
    assert_eq!(host.run("   \n"), vec![]);
}

#[test]
fn an_external_command_without_a_name_does_nothing() {
    let mut host = Host::new("/", "/bin", &[], &[]);
    assert_eq!(host.run_command(ShellCommand::new(CommandKind::Unknown, vec![])), vec![]);
}

#[test]
fn every_command_ends_within_its_bound() {
    let lines = [
        "type a b c d e\n",
        "type echo a cd b\n",
        "type\n",
        "prog x y\n",
        "cat a b c\n",
        "cat\n",
        "cd /nowhere\n",
        "cd ..\n",
        "echo a b c\n",
        "pwd\n",
    ];
    for search_path in ["", "/a", "/a:/b:/c", ":::::"] {
        let dirs = if search_path.is_empty() { 0 } else { search_path.matches(':').count() + 1 };
        for line in lines {
            let mut host = Host::new("/", search_path, &["/c/d", "/b/prog"], &[]);
            let cmd = parse_input_string(String::from(line)).unwrap().unwrap();
            let bound = cmd.args.len() * (dirs + 1) + dirs + 3;
            host.run_command(cmd);
            assert!(host.steps <= bound, "{:?} {:?}: {} > {}", search_path, line, host.steps, bound);
        }
    }
}

#[test]
fn home_never_changes() {
    let mut host = Host::new("/a/b", "/bin", &["/bin/ls"], &["/tmp"]);
    for line in ["cd /tmp\n", "cd ..\n", "cd ~\n", "cd /x\n", "ls\n", "type ls cd\n", "pwd\n"] {
        host.run(line);
        assert_eq!(host.session.home(), "/home/user");
    }
}

#[test]
fn only_cd_moves() {
    let mut host = Host::new("/a/b", "/bin", &["/bin/ls"], &["/tmp"]);
    for line in ["ls /tmp\n", "type ls cd\n", "pwd\n", "echo /tmp\n", "cat /tmp\n", "exit\n"] {
        host.run(line);
        assert_eq!(host.session.cwd(), "/a/b");
    }
}

#[test]
fn first_steps() {
    let mut session = Session::new(String::from("/a"), String::from("/h"));
    let cmd = ShellCommand::new(CommandKind::Cd, vec![String::from("/b")]);
    let mut machine = Dispatch::new(cmd, "/bin");
    assert!(!machine.is_ended());
    assert_eq!(machine.step(&mut session, false), Request::ProbeDir(String::from("/b")));
    assert_eq!(session.cwd(), "/a");
    assert_eq!(machine.step(&mut session, true), Request::Done);
    assert_eq!(session.cwd(), "/b");
    assert!(machine.is_ended());
}
