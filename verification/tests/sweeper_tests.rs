use sweeper::argument::Argument;
use sweeper::fs_model::FsNode;
use sweeper::sweeper::IdeaSweeper;
use sweeper::sweeper::MavenSweeper;
use sweeper::sweeper::SweepError;
use sweeper::sweeper::Sweeper;
use sweeper::sweeper::SweeperChain;
use sweeper::sweeper::SweeperKind;

fn file(name: &str) -> FsNode {
    FsNode::File { name: name.to_string(), deletable: true }
}

fn locked_file(name: &str) -> FsNode {
    FsNode::File { name: name.to_string(), deletable: false }
}

fn dir(name: &str, entries: Vec<FsNode>) -> FsNode {
    FsNode::Dir { name: name.to_string(), entries, readable: true, deletable: true }
}

fn locked_dir(name: &str, entries: Vec<FsNode>) -> FsNode {
    FsNode::Dir { name: name.to_string(), entries, readable: true, deletable: false }
}

fn unreadable_dir(name: &str, entries: Vec<FsNode>) -> FsNode {
    FsNode::Dir { name: name.to_string(), entries, readable: false, deletable: true }
}

#[test]
fn maven_removes_target_next_to_pom() {
    let mut root = dir(
        "proj",
        vec![file("pom.xml"), dir("target", vec![file("App.class")]), file("note.txt")],
    );
    let r = MavenSweeper::default().clean(&mut root);
    assert_eq!(r, Ok(()));
    assert_eq!(root, dir("proj", vec![file("pom.xml"), file("note.txt")]));
}

#[test]
fn maven_without_target_is_noop() {
    let mut root = dir("proj", vec![file("pom.xml"), file("note.txt")]);
    let r = MavenSweeper::default().clean(&mut root);
    assert_eq!(r, Ok(()));
    assert_eq!(root, dir("proj", vec![file("pom.xml"), file("note.txt")]));
}

#[test]
fn maven_never_descends_into_src() {
    let inner = dir("inner", vec![file("pom.xml"), dir("target", vec![file("junk")])]);
    let mut root = dir("proj", vec![file("pom.xml"), dir("src", vec![inner])]);
    let r = MavenSweeper::default().clean(&mut root);
    assert_eq!(r, Ok(()));
    // The module under src keeps its target: src is never descended into.
    let expected_inner = dir("inner", vec![file("pom.xml"), dir("target", vec![file("junk")])]);
    assert_eq!(root, dir("proj", vec![file("pom.xml"), dir("src", vec![expected_inner])]));
}

#[test]
fn maven_still_cleans_a_src_child_that_is_itself_a_module() {
    // The src child is checked for module status before pruning applies,
    // so its own top-level target is removed; deeper entries survive.
    let mut root = dir(
        "proj",
        vec![file("pom.xml"), dir("src", vec![file("pom.xml"), dir("target", vec![])])],
    );
    let r = MavenSweeper::default().clean(&mut root);
    assert_eq!(r, Ok(()));
    assert_eq!(root, dir("proj", vec![file("pom.xml"), dir("src", vec![file("pom.xml")])]));
}

#[test]
fn maven_target_that_is_a_plain_file_is_untouched() {
    let mut root = dir("proj", vec![file("pom.xml"), file("target")]);
    let r = MavenSweeper::default().clean(&mut root);
    assert_eq!(r, Ok(()));
    assert_eq!(root, dir("proj", vec![file("pom.xml"), file("target")]));
}

#[test]
fn maven_target_without_pom_survives() {
    let mut root = dir("proj", vec![dir("target", vec![file("junk")])]);
    let r = MavenSweeper::default().clean(&mut root);
    assert_eq!(r, Ok(()));
    assert_eq!(root, dir("proj", vec![dir("target", vec![file("junk")])]));
}

#[test]
fn maven_root_named_src_is_still_swept() {
    let mut root = dir("src", vec![file("pom.xml"), dir("target", vec![])]);
    let r = MavenSweeper::default().clean(&mut root);
    assert_eq!(r, Ok(()));
    assert_eq!(root, dir("src", vec![file("pom.xml")]));
}

#[test]
fn maven_on_plain_file_is_noop() {
    let mut root = file("thing.txt");
    let r = MavenSweeper::default().clean(&mut root);
    assert_eq!(r, Ok(()));
    assert_eq!(root, file("thing.txt"));
}

#[test]
fn maven_skips_unreadable_directories() {
    let module = dir("m", vec![file("pom.xml"), dir("target", vec![])]);
    let mut root = dir("proj", vec![unreadable_dir("closed", vec![module])]);
    let r = MavenSweeper::default().clean(&mut root);
    assert_eq!(r, Ok(()));
    // Enumeration of the unreadable directory fails silently; the module
    // inside it is never reached.
    let expected_module = dir("m", vec![file("pom.xml"), dir("target", vec![])]);
    assert_eq!(root, dir("proj", vec![unreadable_dir("closed", vec![expected_module])]));
}

#[test]
fn maven_locked_target_fails_the_sweep() {
    let mut root = dir("proj", vec![file("pom.xml"), locked_dir("target", vec![])]);
    let r = MavenSweeper::default().clean(&mut root);
    assert_eq!(r, Err(SweepError { name: "target".to_string() }));
    assert_eq!(root, dir("proj", vec![file("pom.xml"), locked_dir("target", vec![])]));
}

#[test]
fn maven_twice_is_noop_the_second_time() {
    let mut root = dir(
        "proj",
        vec![file("pom.xml"), dir("target", vec![file("App.class")]), dir(
            "sub",
            vec![file("pom.xml"), dir("target", vec![])],
        )],
    );
    let expected = dir("proj", vec![file("pom.xml"), dir("sub", vec![file("pom.xml")])]);
    let first = MavenSweeper::default().clean(&mut root);
    assert_eq!(first, Ok(()));
    assert_eq!(root, expected);
    let second = MavenSweeper::default().clean(&mut root);
    assert_eq!(second, Ok(()));
    assert_eq!(root, expected);
}

#[test]
fn idea_removes_iml_files_everywhere() {
    let mut root = dir(
        "proj",
        vec![file("A.iml"), file("B.txt"), dir("sub", vec![file("C.iml")])],
    );
    let r = IdeaSweeper::default().clean(&mut root);
    assert_eq!(r, Ok(()));
    assert_eq!(root, dir("proj", vec![file("B.txt"), dir("sub", vec![])]));
}

#[test]
fn idea_on_plain_file_is_noop() {
    let mut root = file("notes.txt");
    let r = IdeaSweeper::default().clean(&mut root);
    assert_eq!(r, Ok(()));
    assert_eq!(root, file("notes.txt"));
}

#[test]
fn idea_descends_into_dot_idea() {
    // The Idea sweeper prunes nothing: metadata folders are walked too.
    let mut root = dir("proj", vec![dir(".idea", vec![file("modules.iml"), file("misc.xml")])]);
    let r = IdeaSweeper::default().clean(&mut root);
    assert_eq!(r, Ok(()));
    assert_eq!(root, dir("proj", vec![dir(".idea", vec![file("misc.xml")])]));
}

#[test]
fn idea_ignores_directories_named_like_iml_files() {
    let mut root = dir("proj", vec![dir("fake.iml", vec![file("keep.txt")])]);
    let r = IdeaSweeper::default().clean(&mut root);
    assert_eq!(r, Ok(()));
    assert_eq!(root, dir("proj", vec![dir("fake.iml", vec![file("keep.txt")])]));
}

#[test]
fn idea_locked_iml_fails_and_reports_the_file() {
    let mut root = dir("proj", vec![locked_file("bad.iml"), file("later.iml")]);
    let r = IdeaSweeper::default().clean(&mut root);
    assert_eq!(r, Err(SweepError { name: "bad.iml".to_string() }));
    // The failing file and everything after it are left as they were.
    assert_eq!(root, dir("proj", vec![locked_file("bad.iml"), file("later.iml")]));
}

#[test]
fn idea_skips_unreadable_directories() {
    let mut root = dir("proj", vec![unreadable_dir("closed", vec![file("hidden.iml")])]);
    let r = IdeaSweeper::default().clean(&mut root);
    assert_eq!(r, Ok(()));
    assert_eq!(root, dir("proj", vec![unreadable_dir("closed", vec![file("hidden.iml")])]));
}

#[test]
fn idea_twice_is_noop_the_second_time() {
    let mut root = dir("proj", vec![file("A.iml"), dir("sub", vec![file("C.iml"), file("k.txt")])]);
    let expected = dir("proj", vec![dir("sub", vec![file("k.txt")])]);
    let first = IdeaSweeper::default().clean(&mut root);
    assert_eq!(first, Ok(()));
    assert_eq!(root, expected);
    let second = IdeaSweeper::default().clean(&mut root);
    assert_eq!(second, Ok(()));
    assert_eq!(root, expected);
}

#[test]
fn chain_runs_sweepers_in_order() {
    let mut chain = SweeperChain::new();
    chain.add_sweeper(SweeperKind::Maven(MavenSweeper::default()));
    chain.add_sweeper(SweeperKind::Idea(IdeaSweeper::default()));
    let mut root = dir(
        "proj",
        vec![file("pom.xml"), dir("target", vec![]), file("mod.iml")],
    );
    let r = chain.clean(&mut root);
    assert_eq!(r, Ok(()));
    assert_eq!(root, dir("proj", vec![file("pom.xml")]));
}

#[test]
fn chain_stops_at_the_first_failure() {
    let mut chain = SweeperChain::new();
    chain.add_sweeper(SweeperKind::Maven(MavenSweeper::default()));
    chain.add_sweeper(SweeperKind::Idea(IdeaSweeper::default()));
    let mut root = dir(
        "proj",
        vec![file("pom.xml"), locked_dir("target", vec![]), file("mod.iml")],
    );
    let r = chain.clean(&mut root);
    // The Maven failure is the one reported, and the Idea sweeper never
    // runs: the .iml file is still there.
    assert_eq!(r, Err(SweepError { name: "target".to_string() }));
    assert_eq!(
        root,
        dir("proj", vec![file("pom.xml"), locked_dir("target", vec![]), file("mod.iml")])
    );
}

#[test]
fn empty_chain_is_noop() {
    let chain = SweeperChain::new();
    let mut root = dir("proj", vec![file("pom.xml"), dir("target", vec![]), file("a.iml")]);
    let r = chain.clean(&mut root);
    assert_eq!(r, Ok(()));
    assert_eq!(root, dir("proj", vec![file("pom.xml"), dir("target", vec![]), file("a.iml")]));
}

#[test]
fn from_argument_enables_only_the_requested_sweepers() {
    let arg = Argument {
        maven: true,
        idea: false,
        debug: false,
        path: "/work/proj".to_string(),
    };
    let chain = SweeperChain::from_argument(&arg);
    let mut root = dir("proj", vec![file("pom.xml"), dir("target", vec![]), file("a.iml")]);
    let r = chain.clean(&mut root);
    assert_eq!(r, Ok(()));
    // Only the Maven sweeper ran: the .iml file stays.
    assert_eq!(root, dir("proj", vec![file("pom.xml"), file("a.iml")]));
}

#[test]
fn from_argument_with_no_flags_builds_an_empty_chain() {
    let arg = Argument {
        maven: false,
        idea: false,
        debug: false,
        path: "/work/proj".to_string(),
    };
    let chain = SweeperChain::from_argument(&arg);
    let mut root = dir("proj", vec![dir("target", vec![]), file("a.iml"), file("pom.xml")]);
    let r = chain.clean(&mut root);
    assert_eq!(r, Ok(()));
    assert_eq!(root, dir("proj", vec![dir("target", vec![]), file("a.iml"), file("pom.xml")]));
}

#[test]
fn is_maven_module_requires_a_pom_file() {
    assert!(MavenSweeper::is_maven_module(&dir("m", vec![file("pom.xml")])));
    assert!(!MavenSweeper::is_maven_module(&dir("m", vec![file("pom.xml.bak")])));
    assert!(!MavenSweeper::is_maven_module(&dir("m", vec![])));
    // An entry named pom.xml that is a directory does not make a module.
    assert!(!MavenSweeper::is_maven_module(&dir("m", vec![dir("pom.xml", vec![])])));
    assert!(!MavenSweeper::is_maven_module(&file("pom.xml")));
}
