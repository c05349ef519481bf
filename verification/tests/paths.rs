use shell_core::builtins::{
    builtin_line, command_not_found_line, found_line, missing_dir_line, not_found_line, plan_cd,
    CdPlan,
};
use shell_core::path::{ancestor_dir, dotdot_count, join_path, parent_dir, split_path_list};

#[test]
fn parent_drops_the_last_component() {
    assert_eq!(parent_dir("/a/b/c"), "/a/b");
    assert_eq!(parent_dir("/a/b"), "/a");
    assert_eq!(parent_dir("/a"), "/");
    assert_eq!(parent_dir("/"), "/");
    assert_eq!(parent_dir("//"), "/");
    assert_eq!(parent_dir("/a/b/"), "/a");
    assert_eq!(parent_dir("/a//b"), "/a");
    assert_eq!(parent_dir("a/b"), "a");
    assert_eq!(parent_dir("a"), "");
    assert_eq!(parent_dir(""), "");
}

#[test]
fn ancestors() {
    assert_eq!(ancestor_dir("/a/b/c", 0), "/a/b/c");
    assert_eq!(ancestor_dir("/a/b/c", 1), "/a/b");
    assert_eq!(ancestor_dir("/a/b/c", 2), "/a");
    assert_eq!(ancestor_dir("/a/b/c", 3), "/");
    assert_eq!(ancestor_dir("/a/b/c", 7), "/");
}

#[test]
fn joining_paths() {
    assert_eq!(join_path("/usr/bin", "ls"), "/usr/bin/ls");
    assert_eq!(join_path("/usr/bin/", "ls"), "/usr/bin/ls");
    assert_eq!(join_path("/", "ls"), "/ls");
    assert_eq!(join_path("", "ls"), "ls");
    assert_eq!(join_path("/usr/bin", "/bin/ls"), "/bin/ls");
    assert_eq!(join_path("/a", ""), "/a/");
    assert_eq!(join_path("/a", "b/c"), "/a/b/c");
}

#[test]
fn counting_dotdot() {
    assert_eq!(dotdot_count(".."), 1);
    assert_eq!(dotdot_count("../.."), 2);
    assert_eq!(dotdot_count("../../.."), 3);
    assert_eq!(dotdot_count("..."), 1);
    assert_eq!(dotdot_count("...."), 2);
    assert_eq!(dotdot_count("."), 0);
    assert_eq!(dotdot_count(""), 0);
    assert_eq!(dotdot_count("../a..b"), 2);
}

#[test]
fn search_path_directories() {
    assert_eq!(split_path_list("/usr/bin:/bin"), vec!["/usr/bin", "/bin"]);
    assert_eq!(split_path_list("/usr/bin"), vec!["/usr/bin"]);
    assert_eq!(split_path_list(""), Vec::<String>::new());
    assert_eq!(split_path_list(":"), vec!["", ""]);
    assert_eq!(split_path_list("/a::/b:"), vec!["/a", "", "/b", ""]);
}

#[test]
fn going_down_and_up_leads_back() {
    for dir in ["/", "/a", "/a/b", "a", "a/b.c"] {
        for name in ["x", "..", "y z", "."] {
            assert_eq!(parent_dir(&join_path(dir, name)), dir, "{:?} {:?}", dir, name);
        }
    }
}

#[test]
fn search_path_pieces_join_back() {
    for value in ["/usr/bin:/bin", "/a", ":", "a::b:", ":::", "/x y:/z"] {
        let dirs = split_path_list(value);
        assert_eq!(dirs.join(":"), value);
        assert!(dirs.iter().all(|d| !d.contains(':')));
        assert_eq!(dirs.len(), value.matches(':').count() + 1);
    }
}

#[test]
fn cd_plans() {
    let go = |p: &str| CdPlan::Go(String::from(p));
    let attempt = |p: &str| CdPlan::Try(String::from(p));
    assert_eq!(plan_cd("/a/b/c", "/home/u", ""), CdPlan::Stay);
    assert_eq!(plan_cd("/a/b/c", "/home/u", "/tmp"), attempt("/tmp"));
    assert_eq!(plan_cd("/a/b/c", "/home/u", ".."), go("/a/b"));
    assert_eq!(plan_cd("/a/b/c", "/home/u", "../.."), go("/a"));
    assert_eq!(plan_cd("/a/b/c", "/home/u", "../../foo"), go("/a"));
    assert_eq!(plan_cd("/a/b/c", "/home/u", "../../../.."), go("/"));
    assert_eq!(plan_cd("/a/b/c", "/home/u", "./d"), attempt("/a/b/c/d"));
    assert_eq!(plan_cd("/a/b/c", "/home/u", "./d/e"), attempt("/a/b/c/d/e"));
    assert_eq!(plan_cd("/a/b/c", "/home/u", "."), attempt("/a/b/c/"));
    assert_eq!(plan_cd("/a/b/c", "/home/u", "./"), attempt("/a/b/c/"));
    assert_eq!(plan_cd("/a/b/c", "/home/u", ".xy"), attempt("/a/b/c/y"));
    assert_eq!(plan_cd("/", "/home/u", "./d"), attempt("/d"));
    assert_eq!(plan_cd("/a/b/c", "/home/u", "~"), go("/home/u"));
    assert_eq!(plan_cd("/a/b/c", "/home/u", "~/sub"), go("/home/u"));
    assert_eq!(plan_cd("/a/b/c", "", "~"), go(""));
    assert_eq!(plan_cd("/a/b/c", "/home/u", "d"), attempt("/a/b/c/d"));
    assert_eq!(plan_cd("/a/b/c", "/home/u", "d/e"), attempt("/a/b/c/d/e"));
}

#[test]
fn report_lines() {
    assert_eq!(missing_dir_line("/nonexistent"), "/nonexistent: No such file or directory");
    assert_eq!(builtin_line("echo"), "echo is a shell builtin");
    assert_eq!(found_line("ls", "/bin/ls"), "ls is /bin/ls");
    assert_eq!(not_found_line("doesnotexist123"), "doesnotexist123: not found");
    assert_eq!(command_not_found_line("nope"), "nope: command not found");
}
