//! Reads of a repository on disk. Each reading is sealed: only the functions
//! here make one, and each records the repository it was read from and what
//! it asked for, so that a contract can say which read a value came from.
use vstd::prelude::*;
use crate::git::{branch_is_head, branch_name, branch_upstream, opt_seq, opt_text};

verus! {

/// A repository opened at a path.
pub struct Repo {
    repo: git2::Repository,
    path: Ghost<Seq<char>>,
}

impl View for Repo {
    type V = Seq<char>;

    /// The path the repository was opened at.
    closed spec fn view(&self) -> Seq<char> {
        self.path@
    }
}

/// Opens the repository at `path`; `None` when it cannot be opened.
pub fn open_repo(path: &str) -> (r: Option<Repo>)
    ensures
        r matches Some(repo) ==> repo@ == path@,
{
    match open_repository(path) {
        Ok(repo) => Some(Repo { repo, path: Ghost(path@) }),
        Err(_) => None,
    }
}

impl Repo {
    /// The `git2` handle, for reads that record nothing.
    pub fn raw(&self) -> &git2::Repository {
        &self.repo
    }
}

/// The status flags of the entries listed under the given options, or
/// `None` when the list could not be read.
pub struct StatusList {
    at: Ghost<Seq<char>>,
    query: Ghost<(bool, bool, bool)>,
    bits: Option<Vec<u32>>,
}

impl StatusList {
    /// The path of the repository read.
    pub closed spec fn at(&self) -> Seq<char> {
        self.at@
    }

    /// The options asked for: untracked files included, untracked
    /// directories searched, ignored files included.
    pub closed spec fn query(&self) -> (bool, bool, bool) {
        self.query@
    }

    pub closed spec fn bits(&self) -> Option<Seq<u32>> {
        opt_seq(self.bits)
    }

    pub fn into_bits(self) -> (b: Option<Vec<u32>>)
        ensures
            opt_seq(b) == self.bits(),
    {
        self.bits
    }
}

/// Lists the status of every entry of the repository.
pub fn read_status_list(repo: &Repo, include_untracked: bool, recurse_untracked_dirs: bool, include_ignored: bool) -> (l:
    StatusList)
    ensures
        l.at() == repo@,
        l.query() == (include_untracked, recurse_untracked_dirs, include_ignored),
{
    let bits = match status_bits(&repo.repo, include_untracked, recurse_untracked_dirs, include_ignored) {
        Ok(b) => Some(b),
        Err(_) => None,
    };
    StatusList {
        at: Ghost(repo@),
        query: Ghost((include_untracked, recurse_untracked_dirs, include_ignored)),
        bits,
    }
}

/// The object id a revision expression resolved to, or `None` when it did
/// not resolve.
pub struct Resolved {
    at: Ghost<Seq<char>>,
    spec: Ghost<Seq<char>>,
    ext: Ghost<bool>,
    oid: Option<git2::Oid>,
}

impl Resolved {
    /// The path of the repository read.
    pub closed spec fn at(&self) -> Seq<char> {
        self.at@
    }

    /// The revision expression resolved.
    pub closed spec fn spec(&self) -> Seq<char> {
        self.spec@
    }

    /// Resolved with `revparse_ext` (else with `revparse_single`).
    pub closed spec fn ext(&self) -> bool {
        self.ext@
    }

    pub closed spec fn oid_spec(&self) -> Option<git2::Oid> {
        self.oid
    }

    pub fn oid(&self) -> (o: Option<git2::Oid>)
        ensures
            o == self.oid_spec(),
    {
        match &self.oid {
            Some(id) => Some(*id),
            None => None,
        }
    }
}

/// Resolves a revision expression with `revparse_ext`.
pub fn read_revparse_ext(repo: &Repo, spec: &str) -> (r: Resolved)
    ensures
        r.at() == repo@,
        r.spec() == spec@,
        r.ext(),
{
    let oid = match revparse_ext_id(&repo.repo, spec) {
        Ok(id) => Some(id),
        Err(_) => None,
    };
    Resolved { at: Ghost(repo@), spec: Ghost(spec@), ext: Ghost(true), oid }
}

/// Resolves a revision expression with `revparse_single`.
pub fn read_revparse_single(repo: &Repo, spec: &str) -> (r: Resolved)
    ensures
        r.at() == repo@,
        r.spec() == spec@,
        !r.ext(),
{
    let oid = match revparse_single_id(&repo.repo, spec) {
        Ok(id) => Some(id),
        Err(_) => None,
    };
    Resolved { at: Ghost(repo@), spec: Ghost(spec@), ext: Ghost(false), oid }
}

/// The commits on one side and not on the other, or `None` when the walk
/// failed.
pub struct Walk {
    at: Ghost<Seq<char>>,
    local: Ghost<git2::Oid>,
    upstream: Ghost<git2::Oid>,
    counts: Option<(usize, usize)>,
}

impl Walk {
    /// The path of the repository read.
    pub closed spec fn at(&self) -> Seq<char> {
        self.at@
    }

    /// The commit counted ahead from.
    pub closed spec fn local(&self) -> git2::Oid {
        self.local@
    }

    /// The commit counted behind from.
    pub closed spec fn upstream(&self) -> git2::Oid {
        self.upstream@
    }

    pub closed spec fn counts_spec(&self) -> Option<(usize, usize)> {
        self.counts
    }

    pub fn counts(&self) -> (c: Option<(usize, usize)>)
        ensures
            c == self.counts_spec(),
    {
        self.counts
    }
}

/// Counts the commits on `local` and not on `upstream`, and the other way round.
pub fn read_graph(repo: &Repo, local: git2::Oid, upstream: git2::Oid) -> (w: Walk)
    ensures
        w.at() == repo@,
        w.local() == local,
        w.upstream() == upstream,
{
    let counts = match graph_ahead_behind(&repo.repo, local, upstream) {
        Ok(c) => Some(c),
        Err(_) => None,
    };
    Walk { at: Ghost(repo@), local: Ghost(local), upstream: Ghost(upstream), counts }
}

/// The URL of a named remote, or `None` when it could not be read.
pub struct RemoteRead {
    at: Ghost<Seq<char>>,
    name: Ghost<Seq<char>>,
    url: Option<String>,
}

impl RemoteRead {
    /// The path of the repository read.
    pub closed spec fn at(&self) -> Seq<char> {
        self.at@
    }

    /// The name of the remote asked for.
    pub closed spec fn name(&self) -> Seq<char> {
        self.name@
    }

    pub closed spec fn url_spec(&self) -> Option<Seq<char>> {
        opt_text(self.url)
    }

    pub fn into_url(self) -> (u: Option<String>)
        ensures
            opt_text(u) == self.url_spec(),
    {
        self.url
    }
}

/// Reads the URL of the remote named `name`.
pub fn read_remote(repo: &Repo, name: &str) -> (r: RemoteRead)
    ensures
        r.at() == repo@,
        r.name() == name@,
{
    let url = match remote_url(&repo.repo, name) {
        Ok(u) => Some(u),
        Err(_) => None,
    };
    RemoteRead { at: Ghost(repo@), name: Ghost(name@), url }
}

/// The branches of one kind: for each entry the iterator could read, its
/// name, whether HEAD is on it and its upstream's name; `None` for an entry
/// the iterator failed on, and `None` in all when the list could not be read.
pub struct BranchListing {
    at: Ghost<Seq<char>>,
    local: Ghost<bool>,
    entries: Option<Vec<Option<(Option<String>, bool, Option<String>)>>>,
}

impl BranchListing {
    /// The path of the repository read.
    pub closed spec fn at(&self) -> Seq<char> {
        self.at@
    }

    /// Local branches were listed (else remote ones).
    pub closed spec fn local(&self) -> bool {
        self.local@
    }

    pub closed spec fn entries(&self) -> Option<Seq<Option<(Option<String>, bool, Option<String>)>>> {
        opt_seq(self.entries)
    }

    pub fn into_entries(self) -> (e: Option<Vec<Option<(Option<String>, bool, Option<String>)>>>)
        ensures
            opt_seq(e) == self.entries(),
    {
        self.entries
    }
}

/// Lists the local (`local`) or remote branches.
pub fn read_branch_listing(repo: &Repo, local: bool) -> (l: BranchListing)
    ensures
        l.at() == repo@,
        l.local() == local,
{
    let entries = match list_branches(&repo.repo, local) {
        Ok(list) => {
            let mut entries: Vec<Option<(Option<String>, bool, Option<String>)>> = Vec::new();
            let mut i: usize = 0;
            while i < list.len()
                invariant
                    i <= list.len(),
                decreases list.len() - i,
            {
                let entry = match &list[i] {
                    Some(branch) => {
                        let name = match branch_name(branch) {
                            Ok(Some(n)) => Some(n),
                            _ => None,
                        };
                        let upstream = match branch_upstream(branch) {
                            Ok(u) => match branch_name(&u) {
                                Ok(Some(n)) => Some(n),
                                _ => None,
                            },
                            Err(_) => None,
                        };
                        Some((name, branch_is_head(branch), upstream))
                    },
                    None => None,
                };
                entries.push(entry);
                i = i + 1;
            }
            Some(entries)
        },
        Err(_) => None,
    };
    BranchListing { at: Ghost(repo@), local: Ghost(local), entries }
}

/// Opens the repository at `path` (`git2::Repository::open`). Whether it
/// opens depends on the disk; nothing is stated.
#[verifier::external_body]
fn open_repository(path: &str) -> Result<git2::Repository, git2::Error> {
    git2::Repository::open(path)
}

/// The id of the object that a revision expression names, through
/// `git2::Repository::revparse_ext` and `git2::Object::id`; nothing is stated.
#[verifier::external_body]
fn revparse_ext_id(repo: &git2::Repository, spec: &str) -> Result<git2::Oid, git2::Error> {
    match repo.revparse_ext(spec) {
        Ok((obj, _)) => Ok(obj.id()),
        Err(e) => Err(e),
    }
}

/// The id of the object that a revision expression names, through
/// `git2::Repository::revparse_single` and `git2::Object::id`; nothing is stated.
#[verifier::external_body]
fn revparse_single_id(repo: &git2::Repository, spec: &str) -> Result<git2::Oid, git2::Error> {
    match repo.revparse_single(spec) {
        Ok(obj) => Ok(obj.id()),
        Err(e) => Err(e),
    }
}

/// Commits on `local` and not on `upstream`, and the other way round
/// (`git2::Repository::graph_ahead_behind`); nothing is stated.
#[verifier::external_body]
fn graph_ahead_behind(repo: &git2::Repository, local: git2::Oid, upstream: git2::Oid) -> Result<
    (usize, usize),
    git2::Error,
> {
    repo.graph_ahead_behind(local, upstream)
}

/// The status flags (`git2::Status::bits`) of every entry that
/// `git2::Repository::statuses` lists under options with these three
/// settings (`git2::StatusOptions`); the entries depend on the disk.
#[verifier::external_body]
fn status_bits(
    repo: &git2::Repository,
    include_untracked: bool,
    recurse_untracked_dirs: bool,
    include_ignored: bool,
) -> Result<Vec<u32>, git2::Error> {
    let mut opts = git2::StatusOptions::new();
    opts.include_untracked(include_untracked).recurse_untracked_dirs(recurse_untracked_dirs).include_ignored(
        include_ignored,
    );
    match repo.statuses(Some(&mut opts)) {
        Ok(statuses) => Ok(statuses.iter().map(|entry| entry.status().bits()).collect()),
        Err(e) => Err(e),
    }
}

/// The URL of a named remote (`git2::Repository::find_remote`,
/// `git2::Remote::url`); nothing is stated.
#[verifier::external_body]
fn remote_url(repo: &git2::Repository, name: &str) -> Result<String, git2::Error> {
    match repo.find_remote(name) {
        Ok(remote) => match remote.url() {
            Ok(u) => Ok(u.to_string()),
            Err(e) => Err(e),
        },
        Err(e) => Err(e),
    }
}

/// The local (`local`) or remote branches (`git2::Repository::branches`
/// with `git2::BranchType::Local` or `git2::BranchType::Remote`), `None` for
/// an entry the iterator failed on; nothing is stated.
#[verifier::external_body]
fn list_branches<'r>(repo: &'r git2::Repository, local: bool) -> Result<Vec<Option<git2::Branch<'r>>>, git2::Error> {
    let kind = if local { git2::BranchType::Local } else { git2::BranchType::Remote };
    match repo.branches(Some(kind)) {
        Ok(iter) => Ok(
            iter.map(
                |b| match b {
                    Ok((branch, _)) => Some(branch),
                    Err(_) => None,
                },
            ).collect(),
        ),
        Err(e) => Err(e),
    }
}

} // verus!
