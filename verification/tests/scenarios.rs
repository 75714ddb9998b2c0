use tuxmux::cmd::attach::{AttachAction, AttachEvent, AttachState};
use tuxmux::cmd::cli::{first_step, Entry};
use tuxmux::cmd::jump::target;
use tuxmux::cmd::kill::{report, KillStep};
use tuxmux::cmd::{Attach, Kill};
use tuxmux::config::{Config, Mode, WorktreeMode, HALF_BITS};
use tuxmux::jumplist::Jumplist;
use tuxmux::mux::{create_or_attach_session, MuxOp};
use tuxmux::repo::{policy, Policy, Repo, WorktreeRecord};
use tuxmux::ui::picker::height;
use tuxmux::walker::{DirEntry, EntryKind, Listing, Walker};

fn strs(items: &[&str]) -> Vec<String> {
    items.iter().map(|s| s.to_string()).collect()
}

fn dir(name: &str) -> DirEntry {
    DirEntry { name: name.to_string(), kind: EntryKind::Dir }
}

fn leaf() -> Listing {
    Listing { entries: vec![], below: vec![] }
}

fn repo_dir() -> Listing {
    Listing { entries: vec![dir(".git")], below: vec![leaf()] }
}

fn workspace_config() -> Config {
    let mut config = Config::new(Some("/home/u"));
    config.search.workspace = strs(&["/tmp/ws"]);
    config.depth = 2;
    config.project_markers = strs(&[".git"]);
    config
}

fn create(name: &str, cwd: &str, window: Option<&str>) -> MuxOp {
    MuxOp::CreateSession {
        name: name.to_string(),
        cwd: cwd.to_string(),
        window: window.map(|w| w.to_string()),
    }
}

fn attach(name: &str) -> MuxOp {
    MuxOp::AttachSession { name: name.to_string() }
}

#[test]
fn attach_via_query_unique_substring_match() {
    let config = workspace_config();
    let tree = Listing {
        entries: vec![dir("alpha"), dir("beta")],
        below: vec![repo_dir(), repo_dir()],
    };
    let candidates = config.paths_from_walk(&vec![tree]);
    assert_eq!(candidates, strs(&["/tmp/ws/alpha", "/tmp/ws/beta"]));

    let mut cmd = Attach::new();
    cmd.query = Some(strs(&["alph"]));
    let p = policy(config.worktree_mode, config.default_worktree, cmd.all, cmd.default);
    let (state, action) = cmd.step(p, AttachState::Start, AttachEvent::Begin);
    assert_eq!(action, AttachAction::Walk);
    let (state, action) = cmd.step(p, state, AttachEvent::Candidates(candidates));
    assert_eq!(action, AttachAction::CheckSession("alpha".to_string()));
    let (state, action) = cmd.step(p, state, AttachEvent::SessionExists(false));
    assert_eq!(action, AttachAction::OpenRepo("/tmp/ws/alpha".to_string()));
    let (state, action) = cmd.step(p, state, AttachEvent::Repo(None));
    assert_eq!(state, AttachState::Done);
    assert_eq!(
        action,
        AttachAction::Run(vec![create("alpha", "/tmp/ws/alpha", None), attach("alpha")])
    );
}

#[test]
fn attach_to_existing_multiple_sessions_picker_shown() {
    let mut cmd = Attach::new();
    cmd.exists = true;
    let (state, action) = cmd.step(Policy::Prompt, AttachState::Start, AttachEvent::Begin);
    assert_eq!(action, AttachAction::ListSessions);
    let (state, action) =
        cmd.step(Policy::Prompt, state, AttachEvent::Sessions(strs(&["one", "two"])));
    assert_eq!(
        action,
        AttachAction::Pick { items: strs(&["one", "two"]), query: None, prompt: "> ".to_string() }
    );
    assert_eq!(height(Mode::Percentage(HALF_BITS), 40), 20);
    assert_eq!(height(Mode::Percentage(HALF_BITS), 41), 20);
    let (state, action) =
        cmd.step(Policy::Prompt, state, AttachEvent::Picked(Some("two".to_string())));
    assert_eq!(state, AttachState::Done);
    assert_eq!(action, AttachAction::Run(vec![attach("two")]));
}

#[test]
fn dot_shortcut() {
    assert_eq!(first_step(strs(&["tm", "."])), Entry::UseCwd);
    let cmd = Attach::use_cwd();
    let (state, action) = cmd.step(Policy::Prompt, AttachState::Start, AttachEvent::Begin);
    assert_eq!(action, AttachAction::CurrentDir);
    let (state, action) =
        cmd.step(Policy::Prompt, state, AttachEvent::Cwd("/tmp/ws/alpha".to_string()));
    assert_eq!(action, AttachAction::CheckSession("alpha".to_string()));
    let (state, action) = cmd.step(Policy::Prompt, state, AttachEvent::SessionExists(false));
    assert_eq!(action, AttachAction::OpenRepo("/tmp/ws/alpha".to_string()));
    let (_, action) = cmd.step(Policy::Prompt, state, AttachEvent::Repo(None));
    assert_eq!(
        action,
        AttachAction::Run(vec![create("alpha", "/tmp/ws/alpha", None), attach("alpha")])
    );
}

#[test]
fn dot_shortcut_attaches_where_the_session_exists() {
    let cmd = Attach::use_cwd();
    let (state, _) = cmd.step(Policy::Prompt, AttachState::Start, AttachEvent::Begin);
    let (state, _) = cmd.step(Policy::Prompt, state, AttachEvent::Cwd("/tmp/ws/alpha".to_string()));
    let (state, action) = cmd.step(Policy::Prompt, state, AttachEvent::SessionExists(true));
    assert_eq!(state, AttachState::Done);
    assert_eq!(action, AttachAction::Run(vec![attach("alpha")]));
}

#[test]
fn bare_repo_with_two_worktrees_default_branch_policy() {
    let mut config = workspace_config();
    config.default_worktree = true;
    let tree = Listing { entries: vec![dir("proj")], below: vec![repo_dir()] };
    let candidates = config.paths_from_walk(&vec![tree]);
    assert_eq!(candidates, strs(&["/tmp/ws/proj"]));
    let repo = Repo {
        is_bare: true,
        worktrees: vec![
            WorktreeRecord {
                id: "main".to_string(),
                base_path: "/tmp/ws/proj/main".to_string(),
                branch_name: None,
            },
            WorktreeRecord {
                id: "feat".to_string(),
                base_path: "/tmp/ws/proj/feat".to_string(),
                branch_name: None,
            },
        ],
        head_branch: None,
        default_branch: Some("main".to_string()),
    };
    let mut cmd = Attach::new();
    cmd.query = Some(strs(&["proj"]));
    let p = policy(config.worktree_mode, config.default_worktree, cmd.all, cmd.default);
    assert_eq!(p, Policy::Default);
    let (state, _) = cmd.step(p, AttachState::Start, AttachEvent::Begin);
    let (state, action) = cmd.step(p, state, AttachEvent::Candidates(candidates));
    assert_eq!(action, AttachAction::CheckSession("proj".to_string()));
    let (state, _) = cmd.step(p, state, AttachEvent::SessionExists(false));
    let (_, action) = cmd.step(p, state, AttachEvent::Repo(Some(repo)));
    assert_eq!(
        action,
        AttachAction::Run(vec![create("proj", "/tmp/ws/proj/main", Some("main")), attach("proj")])
    );
}

#[test]
fn jump_by_index() {
    let lines = Jumplist::lines("/tmp/ws/alpha\n/tmp/ws/beta\n");
    let list = Jumplist::load(lines, &vec![true, true]);
    let (name, path) = target(&list, 2).unwrap();
    assert_eq!(name, "beta");
    assert_eq!(path, "/tmp/ws/beta");
    assert_eq!(
        create_or_attach_session(false, &name, &path),
        vec![create("beta", "/tmp/ws/beta", None), attach("beta")]
    );
    assert_eq!(create_or_attach_session(true, &name, &path), vec![attach("beta")]);
}

#[test]
fn kill_all() {
    let cmd = Kill { all: true, exact: false, query: None };
    let step = cmd.plan(strs(&["a", "b", "c"]));
    assert_eq!(
        step,
        KillStep::Run(vec![
            MuxOp::KillSession { name: "a".to_string() },
            MuxOp::KillSession { name: "b".to_string() },
            MuxOp::KillSession { name: "c".to_string() },
        ])
    );
    assert_eq!(report("a"), "Killed a");
    assert_eq!(report("b"), "Killed b");
    assert_eq!(report("c"), "Killed c");
}

#[test]
fn default_policy_is_to_prompt() {
    let config = Config::new(None);
    assert_eq!(config.worktree_mode, WorktreeMode::Prompt);
    assert_eq!(policy(config.worktree_mode, config.default_worktree, false, false), Policy::Prompt);
}
