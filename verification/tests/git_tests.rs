use cmux_win::git::{
    ahead_behind_of, branch_facts, branch_infos, commit_info, count_files, counts_of, current_branch_from,
    last_commit_from, repo_state, status_from, tags_from, upstream_from, BranchFacts, CommitFacts, GitService,
    RepoState,
};

fn fresh_repo_path(tag: &str) -> String {
    format!("/tmp/cmux_win_git_{}_{}", tag, uuid::Uuid::new_v4())
}

fn commit_file(repo: &git2::Repository, message: &str) -> git2::Oid {
    let sig = git2::Signature::new("Tester", "t@example.com", &git2::Time::new(1_700_000_000, 0)).unwrap();
    let blob = repo.blob(b"hello").unwrap();
    let mut tb = repo.treebuilder(None).unwrap();
    tb.insert("a.txt", blob, 0o100644).unwrap();
    let tree_id = tb.write().unwrap();
    let tree = repo.find_tree(tree_id).unwrap();
    let parents: Vec<git2::Commit> = match repo.head() {
        Ok(h) => vec![h.peel_to_commit().unwrap()],
        Err(_) => vec![],
    };
    let parent_refs: Vec<&git2::Commit> = parents.iter().collect();
    repo.commit(Some("HEAD"), &sig, &sig, message, &tree, &parent_refs).unwrap()
}

#[test]
fn repo_state_priorities() {
    assert_eq!(repo_state(0, 0, 0, 0, 0, 0), RepoState::Clean);
    assert_eq!(repo_state(1, 1, 1, 1, 1, 1), RepoState::Conflicted);
    assert_eq!(repo_state(2, 3, 0, 0, 0, 0), RepoState::AheadAndBehind);
    assert_eq!(repo_state(2, 0, 5, 0, 0, 0), RepoState::Ahead);
    assert_eq!(repo_state(0, 1, 0, 0, 0, 0), RepoState::Behind);
    assert_eq!(repo_state(0, 0, 0, 0, 4, 0), RepoState::Dirty);
}

#[test]
fn not_a_repository() {
    let mut g = GitService::new();
    assert!(g.get_status("/nonexistent/cmux/path").is_none());
    assert!(g.refresh("/nonexistent/cmux/path").is_none());
    assert!(g.get_branches("/nonexistent/cmux/path").is_empty());
}

#[test]
fn empty_repository_status() {
    let path = fresh_repo_path("empty");
    git2::Repository::init(&path).unwrap();
    let mut g = GitService::new();
    let s = g.get_status(&path).unwrap();
    assert_eq!(s.branch, "detached HEAD");
    assert!(s.upstream.is_none());
    assert_eq!(s.state, RepoState::Clean);
    assert_eq!((s.ahead, s.behind, s.staged, s.modified, s.untracked, s.conflicted), (0, 0, 0, 0, 0, 0));
    assert!(s.last_commit.is_none());
    assert!(s.remote_url.is_none());
    assert!(s.tags.is_empty());
}

#[test]
fn committed_repository_status() {
    let path = fresh_repo_path("commit");
    let repo = git2::Repository::init(&path).unwrap();
    let oid = commit_file(&repo, "first line\nsecond line");
    repo.tag_lightweight("v1", &repo.find_object(oid, None).unwrap(), false).unwrap();
    repo.remote("origin", "https://example.com/r.git").unwrap();
    let head_name = repo.head().unwrap().shorthand().unwrap().to_string();
    let mut g = GitService::new();
    let s = g.get_status(&path).unwrap();
    assert_eq!(s.branch, head_name);
    let c = s.last_commit.as_ref().unwrap();
    assert_eq!(c.hash, oid.to_string());
    assert_eq!(c.short_hash, oid.to_string()[..7].to_string());
    assert_eq!(c.message, "first line");
    assert_eq!(c.author, "Tester");
    assert_eq!(c.timestamp, 1_700_000_000);
    assert_eq!(s.tags, vec!["v1".to_string()]);
    assert_eq!(s.remote_url.as_deref(), Some("https://example.com/r.git"));
    assert_eq!(s.staged, 1);
    assert_eq!(s.state, RepoState::Dirty);
    let branches = g.get_branches(&path);
    assert_eq!(branches.len(), 1);
    assert_eq!(branches[0].name, head_name);
    assert!(branches[0].is_current);
    assert!(branches[0].upstream.is_none());
}

#[test]
fn cache_serves_until_refresh() {
    let path = fresh_repo_path("cache");
    let repo = git2::Repository::init(&path).unwrap();
    commit_file(&repo, "one");
    let mut g = GitService::new();
    let first = g.get_status(&path).unwrap();
    let second_oid = commit_file(&repo, "two");
    let cached = g.get_status(&path).unwrap();
    assert_eq!(cached.last_commit.as_ref().unwrap().hash, first.last_commit.as_ref().unwrap().hash);
    let refreshed = g.refresh(&path).unwrap();
    assert_eq!(refreshed.last_commit.as_ref().unwrap().hash, second_oid.to_string());
    let after = g.get_status(&path).unwrap();
    assert_eq!(after.last_commit.as_ref().unwrap().message, "two");
    g.clear_cache();
    let third = commit_file(&repo, "three");
    let fresh = g.get_status(&path).unwrap();
    assert_eq!(fresh.last_commit.as_ref().unwrap().hash, third.to_string());
    assert_eq!(g.poll_interval_ms(), 2000);
}

#[test]
fn branch_infos_keep_named_branches() {
    let facts = vec![
        BranchFacts { name: Some("main".to_string()), is_head: true, upstream: Some("origin/main".to_string()) },
        BranchFacts { name: None, is_head: false, upstream: None },
        BranchFacts { name: Some("dev".to_string()), is_head: false, upstream: None },
    ];
    let infos = branch_infos(facts);
    assert_eq!(infos.len(), 2);
    assert_eq!((infos[0].name.as_str(), infos[0].is_current, infos[0].upstream.as_deref()), ("main", true, Some("origin/main")));
    assert_eq!((infos[1].name.as_str(), infos[1].is_current, infos[1].upstream.as_deref()), ("dev", false, None));
}

#[test]
fn file_counts_classify_flags() {
    let bits = vec![1u32, 2 | 256, 128, 32768, 0, 4096, 2048 | 16];
    assert_eq!(count_files(&bits), (3, 2, 1, 1));
}

#[test]
fn commit_summary_from_facts() {
    let c = commit_info(CommitFacts {
        hash: "0123456789abcdef0123456789abcdef01234567".to_string(),
        message: Some("subject\r\nbody".to_string()),
        author: None,
        seconds: -5,
    });
    assert_eq!(c.short_hash, "0123456");
    assert_eq!(c.message, "subject");
    assert_eq!(c.author, "Unknown");
    assert_eq!(c.timestamp, -5);
    let d = commit_info(CommitFacts { hash: "abcdefg".to_string(), message: None, author: Some("A".to_string()), seconds: 0 });
    assert_eq!((d.message.as_str(), d.author.as_str()), ("", "A"));
}

#[test]
fn unreadable_status_list_counts_nothing() {
    assert_eq!(counts_of(None), (0, 0, 0, 0));
    assert_eq!(counts_of(Some(vec![1u32, 128, 128])), (1, 0, 2, 0));
}

#[test]
fn unreadable_head_is_detached() {
    assert_eq!(current_branch_from(None), "detached HEAD");
    assert_eq!(current_branch_from(Some("main".to_string())), "main");
}

#[test]
fn unknown_divergence_is_zero() {
    let l = git2::Oid::from_str("0123456789abcdef0123456789abcdef01234567").unwrap();
    let u = git2::Oid::from_str("1111111111111111111111111111111111111111").unwrap();
    assert_eq!(ahead_behind_of(Some(Some(l)), Some(u), Some((3, 1))), (3, 1));
    assert_eq!(ahead_behind_of(None, Some(u), Some((3, 1))), (0, 0));
    assert_eq!(ahead_behind_of(Some(None), Some(u), Some((3, 1))), (0, 0));
    assert_eq!(ahead_behind_of(Some(Some(l)), None, Some((3, 1))), (0, 0));
    assert_eq!(ahead_behind_of(Some(Some(l)), Some(u), None), (0, 0));
}

#[test]
fn last_commit_only_when_head_peels() {
    assert!(last_commit_from(None).is_none());
    let c = last_commit_from(Some(CommitFacts {
        hash: "fedcba9876543210fedcba9876543210fedcba98".to_string(),
        message: Some("fix\nmore".to_string()),
        author: Some("B".to_string()),
        seconds: 7,
    }))
    .unwrap();
    assert_eq!((c.short_hash.as_str(), c.message.as_str(), c.author.as_str(), c.timestamp), ("fedcba9", "fix", "B", 7));
}

#[test]
fn tags_at_head_keep_order() {
    let head = git2::Oid::from_str("0123456789abcdef0123456789abcdef01234567").unwrap();
    let other = git2::Oid::from_str("1111111111111111111111111111111111111111").unwrap();
    let names = vec![Some("v2".to_string()), Some("old".to_string()), None, Some("v1".to_string())];
    let resolved = vec![Some(head), Some(other), Some(head), Some(head)];
    assert_eq!(tags_from(Some(head), Some(names.clone()), resolved.clone()), vec!["v2".to_string(), "v1".to_string()]);
    assert!(tags_from(None, Some(names), resolved).is_empty());
    assert!(tags_from(Some(head), None, Vec::new()).is_empty());
}

#[test]
fn status_from_summarises_counts() {
    let s = status_from("main".to_string(), None, (1, 2), (0, 0, 0, 0), None, None, vec![]);
    assert_eq!(s.state, RepoState::AheadAndBehind);
    assert_eq!((s.ahead, s.behind), (1, 2));
    let s = status_from("dev".to_string(), Some("origin/dev".to_string()), (0, 0), (0, 1, 0, 2), None, None, vec![]);
    assert_eq!(s.state, RepoState::Conflicted);
    assert_eq!((s.modified, s.conflicted), (1, 2));
    assert_eq!(s.upstream.as_deref(), Some("origin/dev"));
}

#[test]
fn branch_facts_skip_unreadable_entries() {
    assert!(branch_facts(None).is_empty());
    let listing = vec![
        Some((Some("main".to_string()), true, Some("origin/main".to_string()))),
        None,
        Some((None, false, None)),
        Some((Some("dev".to_string()), false, None)),
    ];
    let facts = branch_facts(Some(listing));
    assert_eq!(facts.len(), 3);
    let infos = branch_infos(facts);
    assert_eq!(infos.len(), 2);
    assert_eq!((infos[0].name.as_str(), infos[0].is_current), ("main", true));
    assert_eq!((infos[1].name.as_str(), infos[1].upstream.as_deref()), ("dev", None));
}

#[test]
fn upstream_shown_only_when_read() {
    assert_eq!(upstream_from(true, true, Some("origin/main".to_string())), Some("origin/main".to_string()));
    assert_eq!(upstream_from(false, true, Some("origin/main".to_string())), None);
    assert_eq!(upstream_from(true, false, Some("origin/main".to_string())), None);
    assert_eq!(upstream_from(true, true, None), None);
}
