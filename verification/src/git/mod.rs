//! Git status of a working directory: branch, upstream, divergence, file
//! counts, last commit, remote and tags, with a cache keyed by path.
use vstd::prelude::*;
use crate::text::{lemma_lines_have_no_newline, lemma_one_line, lines_of, text_lines, texts};
use crate::git::repo::{
    BranchListing, RemoteRead, Repo, Resolved, StatusList, Walk, open_repo, read_branch_listing, read_graph,
    read_remote, read_revparse_ext, read_revparse_single, read_status_list,
};

pub mod repo;

verus! {

#[verifier::external_type_specification]
#[verifier::external_body]
pub struct ExRepository(git2::Repository);

#[verifier::external_type_specification]
#[verifier::external_body]
pub struct ExReference<'r>(git2::Reference<'r>);

#[verifier::external_type_specification]
#[verifier::external_body]
pub struct ExBranch<'r>(git2::Branch<'r>);

#[verifier::external_type_specification]
#[verifier::external_body]
pub struct ExOid(git2::Oid);

#[verifier::external_type_specification]
#[verifier::external_body]
pub struct ExGitError(git2::Error);

/// Git status for a repository
pub struct GitStatus {
    pub branch: String,
    pub upstream: Option<String>,
    pub state: RepoState,
    pub ahead: usize,
    pub behind: usize,
    pub staged: usize,
    pub modified: usize,
    pub untracked: usize,
    pub conflicted: usize,
    pub last_commit: Option<CommitInfo>,
    pub remote_url: Option<String>,
    pub tags: Vec<String>,
}

pub struct CommitInfo {
    pub hash: String,
    pub short_hash: String,
    pub message: String,
    pub author: String,
    pub timestamp: i64,
}

#[derive(Debug, Clone, Copy, PartialEq, Eq, Structural)]
pub enum RepoState {
    Clean,
    Dirty,
    Ahead,
    Behind,
    AheadAndBehind,
    Conflicted,
    Unknown,
}

pub struct BranchInfo {
    pub name: String,
    pub is_current: bool,
    pub upstream: Option<String>,
}

/// A commit summary as values.
pub struct CommitModel {
    pub hash: Seq<char>,
    pub short_hash: Seq<char>,
    pub message: Seq<char>,
    pub author: Seq<char>,
    pub timestamp: i64,
}

impl View for CommitInfo {
    type V = CommitModel;

    open spec fn view(&self) -> CommitModel {
        CommitModel {
            hash: self.hash@,
            short_hash: self.short_hash@,
            message: self.message@,
            author: self.author@,
            timestamp: self.timestamp,
        }
    }
}

/// An optional text as a value.
pub open spec fn opt_text(o: Option<String>) -> Option<Seq<char>> {
    match o {
        Some(s) => Some(s@),
        None => None,
    }
}

/// A status as values.
pub struct StatusModel {
    pub branch: Seq<char>,
    pub upstream: Option<Seq<char>>,
    pub state: RepoState,
    pub ahead: usize,
    pub behind: usize,
    pub staged: usize,
    pub modified: usize,
    pub untracked: usize,
    pub conflicted: usize,
    pub last_commit: Option<CommitModel>,
    pub remote_url: Option<Seq<char>>,
    pub tags: Seq<Seq<char>>,
}

impl View for GitStatus {
    type V = StatusModel;

    open spec fn view(&self) -> StatusModel {
        StatusModel {
            branch: self.branch@,
            upstream: opt_text(self.upstream),
            state: self.state,
            ahead: self.ahead,
            behind: self.behind,
            staged: self.staged,
            modified: self.modified,
            untracked: self.untracked,
            conflicted: self.conflicted,
            last_commit: match self.last_commit {
                Some(c) => Some(c@),
                None => None,
            },
            remote_url: opt_text(self.remote_url),
            tags: texts(self.tags@),
        }
    }
}

/// The summary state: conflicts first, then divergence from the upstream,
/// then uncommitted changes.
pub open spec fn state_of(
    ahead: usize,
    behind: usize,
    staged: usize,
    modified: usize,
    untracked: usize,
    conflicted: usize,
) -> RepoState {
    if conflicted > 0 {
        RepoState::Conflicted
    } else if ahead > 0 && behind > 0 {
        RepoState::AheadAndBehind
    } else if ahead > 0 {
        RepoState::Ahead
    } else if behind > 0 {
        RepoState::Behind
    } else if staged > 0 || modified > 0 || untracked > 0 {
        RepoState::Dirty
    } else {
        RepoState::Clean
    }
}

/// The summary state of a repository with these counts.
pub fn repo_state(
    ahead: usize,
    behind: usize,
    staged: usize,
    modified: usize,
    untracked: usize,
    conflicted: usize,
) -> (s: RepoState)
    ensures
        s == state_of(ahead, behind, staged, modified, untracked, conflicted),
{
    if conflicted > 0 {
        RepoState::Conflicted
    } else if ahead > 0 && behind > 0 {
        RepoState::AheadAndBehind
    } else if ahead > 0 {
        RepoState::Ahead
    } else if behind > 0 {
        RepoState::Behind
    } else if staged > 0 || modified > 0 || untracked > 0 {
        RepoState::Dirty
    } else {
        RepoState::Clean
    }
}

/// Status flags as `git2::Status` defines them.
pub const STATUS_INDEX_NEW: u32 = 1;
pub const STATUS_INDEX_MODIFIED: u32 = 2;
pub const STATUS_INDEX_DELETED: u32 = 4;
pub const STATUS_INDEX_RENAMED: u32 = 8;
pub const STATUS_INDEX_TYPECHANGE: u32 = 16;
pub const STATUS_WT_NEW: u32 = 128;
pub const STATUS_WT_MODIFIED: u32 = 256;
pub const STATUS_WT_DELETED: u32 = 512;
pub const STATUS_WT_TYPECHANGE: u32 = 1024;
pub const STATUS_WT_RENAMED: u32 = 2048;
pub const STATUS_CONFLICTED: u32 = 32768;

/// Whether the flags hold every bit of `flag`.
pub open spec fn has_flag(bits: u32, flag: u32) -> bool {
    bits & flag == flag
}

/// The entry has a change in the index.
pub open spec fn is_staged(bits: u32) -> bool {
    has_flag(bits, STATUS_INDEX_NEW) || has_flag(bits, STATUS_INDEX_MODIFIED) || has_flag(
        bits,
        STATUS_INDEX_DELETED,
    ) || has_flag(bits, STATUS_INDEX_RENAMED) || has_flag(bits, STATUS_INDEX_TYPECHANGE)
}

/// The entry has a change in the working tree to a tracked file.
pub open spec fn is_modified(bits: u32) -> bool {
    has_flag(bits, STATUS_WT_MODIFIED) || has_flag(bits, STATUS_WT_DELETED) || has_flag(bits, STATUS_WT_RENAMED)
        || has_flag(bits, STATUS_WT_TYPECHANGE)
}

/// The entry is a new file in the working tree.
pub open spec fn is_untracked(bits: u32) -> bool {
    has_flag(bits, STATUS_WT_NEW)
}

/// The entry has a merge conflict.
pub open spec fn is_conflicted(bits: u32) -> bool {
    has_flag(bits, STATUS_CONFLICTED)
}

/// How many entries satisfy `f`.
pub open spec fn count_where(bits: Seq<u32>, f: spec_fn(u32) -> bool) -> nat
    decreases bits.len(),
{
    if bits.len() == 0 {
        0
    } else {
        count_where(bits.drop_last(), f) + if f(bits.last()) {
            1nat
        } else {
            0nat
        }
    }
}

/// The staged, modified, untracked and conflicted counts of a status list.
pub open spec fn file_counts(bits: Seq<u32>) -> (nat, nat, nat, nat) {
    (
        count_where(bits, |b: u32| is_staged(b)),
        count_where(bits, |b: u32| is_modified(b)),
        count_where(bits, |b: u32| is_untracked(b)),
        count_where(bits, |b: u32| is_conflicted(b)),
    )
}

/// Counts the staged, modified, untracked and conflicted entries.
pub fn count_files(bits: &Vec<u32>) -> (r: (usize, usize, usize, usize))
    ensures
        (r.0 as nat, r.1 as nat, r.2 as nat, r.3 as nat) == file_counts(bits@),
{
    let mut staged: usize = 0;
    let mut modified: usize = 0;
    let mut untracked: usize = 0;
    let mut conflicted: usize = 0;
    let mut i: usize = 0;
    while i < bits.len()
        invariant
            i <= bits.len(),
            staged <= i && modified <= i && untracked <= i && conflicted <= i,
            (staged as nat, modified as nat, untracked as nat, conflicted as nat) == file_counts(
                bits@.take(i as int),
            ),
        decreases bits.len() - i,
    {
        assert(bits@.take(i + 1).drop_last() =~= bits@.take(i as int));
        let s = bits[i];
        if s & STATUS_CONFLICTED == STATUS_CONFLICTED {
            conflicted += 1;
        }
        if s & STATUS_INDEX_NEW == STATUS_INDEX_NEW || s & STATUS_INDEX_MODIFIED == STATUS_INDEX_MODIFIED || s
            & STATUS_INDEX_DELETED == STATUS_INDEX_DELETED || s & STATUS_INDEX_RENAMED == STATUS_INDEX_RENAMED
            || s & STATUS_INDEX_TYPECHANGE == STATUS_INDEX_TYPECHANGE {
            staged += 1;
        }
        if s & STATUS_WT_MODIFIED == STATUS_WT_MODIFIED || s & STATUS_WT_DELETED == STATUS_WT_DELETED || s
            & STATUS_WT_RENAMED == STATUS_WT_RENAMED || s & STATUS_WT_TYPECHANGE == STATUS_WT_TYPECHANGE {
            modified += 1;
        }
        if s & STATUS_WT_NEW == STATUS_WT_NEW {
            untracked += 1;
        }
        i = i + 1;
    }
    assert(bits@.take(i as int) =~= bits@);
    (staged, modified, untracked, conflicted)
}

/// The first line of a text, or the empty text when it has none.
pub open spec fn first_line(s: Seq<char>) -> Seq<char> {
    if lines_of(s).len() > 0 {
        lines_of(s)[0]
    } else {
        Seq::empty()
    }
}

/// The commit summary built from what a commit records: the short hash is
/// the first 7 hex digits, the message its first line (empty when not valid
/// UTF-8), the author "Unknown" when not valid UTF-8.
pub open spec fn commit_summary(hash: Seq<char>, message: Option<Seq<char>>, author: Option<Seq<char>>, seconds: i64) -> CommitModel {
    CommitModel {
        hash,
        short_hash: hash.take(7),
        message: first_line(
            match message {
                Some(m) => m,
                None => Seq::empty(),
            },
        ),
        author: match author {
            Some(a) => a,
            None => "Unknown"@,
        },
        timestamp: seconds,
    }
}

/// Builds the commit summary.
pub fn commit_info(facts: CommitFacts) -> (c: CommitInfo)
    requires
        facts.hash@.len() >= 7,
    ensures
        c@ == commit_summary(facts.hash@, opt_text(facts.message), opt_text(facts.author), facts.seconds),
{
    let short_hash = String::from_str(facts.hash.as_str().substring_char(0, 7));
    let message = match &facts.message {
        Some(m) => {
            let lines = text_lines(m.as_str());
            if lines.len() > 0 {
                assert(lines@.map_values(|l: &str| l@)[0] == lines@[0]@);
                String::from_str(lines[0])
            } else {
                String::new()
            }
        },
        None => {
            let empty = String::new();
            assert(lines_of(Seq::empty()) =~= Seq::<Seq<char>>::empty());
            empty
        },
    };
    let author = match facts.author {
        Some(a) => a,
        None => String::from_str("Unknown"),
    };
    CommitInfo { hash: facts.hash, short_hash, message, author, timestamp: facts.seconds }
}

/// The tag names, in order, whose tag resolves to `head`.
pub open spec fn tags_at(head: git2::Oid, names: Seq<Option<String>>, resolved: Seq<Option<git2::Oid>>) -> Seq<
    Seq<char>,
>
    decreases names.len(),
{
    if names.len() == 0 || resolved.len() == 0 {
        Seq::empty()
    } else {
        let rest = tags_at(head, names.drop_last(), resolved.drop_last());
        match (names.last(), resolved.last()) {
            (Some(n), Some(id)) => if id == head {
                rest.push(n@)
            } else {
                rest
            },
            _ => rest,
        }
    }
}

/// Keeps the names whose tag resolved to `head`; `resolved[i]` is what
/// `names[i]` resolved to.
pub fn tags_pointing_at(head: &git2::Oid, names: &Vec<Option<String>>, resolved: &Vec<Option<git2::Oid>>) -> (r: Vec<
    String,
>)
    requires
        names.len() == resolved.len(),
    ensures
        texts(r@) == tags_at(*head, names@, resolved@),
{
    let mut tags: Vec<String> = Vec::new();
    let mut i: usize = 0;
    while i < names.len()
        invariant
            i <= names.len(),
            names.len() == resolved.len(),
            texts(tags@) == tags_at(*head, names@.take(i as int), resolved@.take(i as int)),
        decreases names.len() - i,
    {
        assert(names@.take(i + 1).drop_last() =~= names@.take(i as int));
        assert(resolved@.take(i + 1).drop_last() =~= resolved@.take(i as int));
        match (&names[i], &resolved[i]) {
            (Some(n), Some(id)) => {
                if oid_equal(id, head) {
                    let t = String::from_str(n.as_str());
                    proof {
                        assert(texts(tags@.push(t)) =~= texts(tags@).push(t@));
                    }
                    tags.push(t);
                }
            },
            _ => {},
        }
        i = i + 1;
    }
    assert(names@.take(i as int) =~= names@);
    assert(resolved@.take(i as int) =~= resolved@);
    tags
}

/// Git service that monitors repositories
pub struct GitService {
    cache: Vec<(String, GitStatus)>,
    poll_interval_ms: u64,
}

/// The first cache entry for `path` at or after position `i`.
pub open spec fn cache_find_from(cache: Seq<(Seq<char>, StatusModel)>, path: Seq<char>, i: int) -> Option<int>
    decreases cache.len() - i,
{
    if i < 0 || i >= cache.len() {
        None
    } else if cache[i].0 == path {
        Some(i)
    } else {
        cache_find_from(cache, path, i + 1)
    }
}

/// The first cache entry for `path`.
pub open spec fn cache_find(cache: Seq<(Seq<char>, StatusModel)>, path: Seq<char>) -> Option<int> {
    cache_find_from(cache, path, 0)
}

/// The cache with `path` mapped to `s`: the entry for `path` replaced, or a
/// new entry at the end.
pub open spec fn cache_insert(cache: Seq<(Seq<char>, StatusModel)>, path: Seq<char>, s: StatusModel) -> Seq<
    (Seq<char>, StatusModel),
> {
    match cache_find(cache, path) {
        Some(k) => cache.update(k, (path, s)),
        None => cache.push((path, s)),
    }
}

/// An optional list as values.
pub open spec fn opt_seq<T>(o: Option<Vec<T>>) -> Option<Seq<T>> {
    match o {
        Some(v) => Some(v@),
        None => None,
    }
}

/// The branch shown: HEAD's short name, or "detached HEAD" when HEAD or its
/// name cannot be read.
pub open spec fn branch_label(head_name: Option<Seq<char>>) -> Seq<char> {
    match head_name {
        Some(n) => n,
        None => "detached HEAD"@,
    }
}

/// The file counts of a status list, or all 0 when it could not be read.
pub open spec fn counts_or_zero(read: Option<Seq<u32>>) -> (nat, nat, nat, nat) {
    match read {
        Some(bits) => file_counts(bits),
        None => (0, 0, 0, 0),
    }
}

/// The options the status list is read with: untracked files included,
/// untracked directories searched, ignored files left out.
pub open spec fn status_query() -> (bool, bool, bool) {
    (true, true, false)
}

/// The file counts come from a status list read at `path` with the status
/// options.
pub open spec fn status_read(path: Seq<char>, l: StatusList, counts: (nat, nat, nat, nat)) -> bool {
    &&& l.at() == path
    &&& l.query() == status_query()
    &&& counts == counts_or_zero(l.bits())
}

/// The upstream shown: the upstream branch's name when HEAD and its
/// upstream could be read.
pub open spec fn upstream_label(head_read: bool, upstream_read: bool, name: Option<Seq<char>>) -> Option<Seq<char>> {
    if head_read && upstream_read {
        name
    } else {
        None
    }
}

/// The divergence from what was read: HEAD's target (`None` when HEAD could
/// not be read), the upstream's id and the walk's counts; (0, 0) as soon as
/// any of them is missing.
pub open spec fn divergence(
    target: Option<Option<git2::Oid>>,
    upstream: Option<git2::Oid>,
    counts: Option<(usize, usize)>,
) -> (usize, usize) {
    match (target, upstream, counts) {
        (Some(Some(_)), Some(_), Some(c)) => c,
        _ => (0, 0),
    }
}

/// The divergence `r` comes from reads at `path`: HEAD's target `target`,
/// then "@{upstream}" resolved with `revparse_ext`, then a walk from that
/// target to that upstream.
pub open spec fn divergence_read(
    path: Seq<char>,
    target: Option<Option<git2::Oid>>,
    up: Option<Resolved>,
    walk: Option<Walk>,
    r: (usize, usize),
) -> bool {
    &&& (up matches Some(u) ==> u.at() == path && u.spec() == "@{upstream}"@ && u.ext() && target matches Some(
        Some(_),
    ))
    &&& (walk matches Some(w) ==> {
        &&& w.at() == path
        &&& target matches Some(Some(l)) && w.local() == l
        &&& up matches Some(u) && u.oid_spec() == Some(w.upstream())
    })
    &&& r == divergence(
        target,
        match up {
            Some(u) => u.oid_spec(),
            None => None,
        },
        match walk {
            Some(w) => w.counts_spec(),
            None => None,
        },
    )
}

/// The remote URL comes from the remote named "origin" read at `path`.
pub open spec fn remote_read(path: Seq<char>, rr: RemoteRead, url: Option<Seq<char>>) -> bool {
    &&& rr.at() == path
    &&& rr.name() == "origin"@
    &&& url == rr.url_spec()
}

/// `res` is what the tag name `name` resolved to with `revparse_single` at
/// `path`; nothing is resolved for a name that is not valid UTF-8.
pub open spec fn resolution_at(path: Seq<char>, name: Option<String>, res: Option<Resolved>) -> bool {
    match (name, res) {
        (None, None) => true,
        (Some(t), Some(r)) => r.at() == path && r.spec() == t@ && !r.ext(),
        _ => false,
    }
}

/// The ids that the resolutions found.
pub open spec fn resolved_oids(res: Seq<Option<Resolved>>) -> Seq<Option<git2::Oid>> {
    res.map_values(
        |r: Option<Resolved>|
            match r {
                Some(x) => x.oid_spec(),
                None => None,
            },
    )
}

/// The tags come from HEAD's target `head`, the tag names `names` and the
/// resolution of each name at `path`.
pub open spec fn tags_read(
    path: Seq<char>,
    head: Option<git2::Oid>,
    names: Option<Seq<Option<String>>>,
    res: Seq<Option<Resolved>>,
    tags: Seq<Seq<char>>,
) -> bool {
    &&& tags == head_tags(head, names, resolved_oids(res))
    &&& match names {
        Some(n) => res.len() == n.len() && forall|i: int| 0 <= i < n.len() ==> #[trigger] resolution_at(path, n[i], res[i]),
        None => res.len() == 0,
    }
}

/// The summary of the commit HEAD peels to, when it peels to one.
pub open spec fn commit_or_none(facts: Option<CommitFacts>) -> Option<CommitModel> {
    match facts {
        Some(f) => Some(commit_summary(f.hash@, opt_text(f.message), opt_text(f.author), f.seconds)),
        None => None,
    }
}

/// An optional commit summary as values.
pub open spec fn commit_model_of(c: Option<CommitInfo>) -> Option<CommitModel> {
    match c {
        Some(c) => Some(c@),
        None => None,
    }
}

/// The tags at HEAD: those of the tag names whose tag resolves to HEAD's
/// target; none when HEAD has no target or the tag names cannot be read.
pub open spec fn head_tags(
    head: Option<git2::Oid>,
    names: Option<Seq<Option<String>>>,
    resolved: Seq<Option<git2::Oid>>,
) -> Seq<Seq<char>> {
    match (head, names) {
        (Some(h), Some(n)) => tags_at(h, n, resolved),
        _ => Seq::empty(),
    }
}

/// A status assembled from what was read: the state summarises the counts.
pub open spec fn status_model(
    branch: Seq<char>,
    upstream: Option<Seq<char>>,
    ahead_behind: (usize, usize),
    counts: (usize, usize, usize, usize),
    last_commit: Option<CommitModel>,
    remote_url: Option<Seq<char>>,
    tags: Seq<Seq<char>>,
) -> StatusModel {
    StatusModel {
        branch,
        upstream,
        state: state_of(ahead_behind.0, ahead_behind.1, counts.0, counts.1, counts.2, counts.3),
        ahead: ahead_behind.0,
        behind: ahead_behind.1,
        staged: counts.0,
        modified: counts.1,
        untracked: counts.2,
        conflicted: counts.3,
        last_commit,
        remote_url,
        tags,
    }
}

/// What a status freshly computed for the repository at `path` is, for some
/// outcome of each read: the branch label, the upstream, the divergence, the
/// file counts, the last commit, the remote URL and the tags are built from
/// reads of that repository with the library's fixed queries, and the state
/// summarises the counts.
pub open spec fn computed_at(path: Seq<char>, s: StatusModel) -> bool {
    &&& s.state == state_of(s.ahead, s.behind, s.staged, s.modified, s.untracked, s.conflicted)
    &&& exists|h: Option<Seq<char>>| s.branch == #[trigger] branch_label(h)
    &&& exists|a: bool, b: bool, n: Option<Seq<char>>| s.upstream == #[trigger] upstream_label(a, b, n)
    &&& exists|t: Option<Option<git2::Oid>>, up: Option<Resolved>, w: Option<Walk>|
        #[trigger] divergence_read(path, t, up, w, (s.ahead, s.behind))
    &&& exists|l: StatusList|
        #[trigger] status_read(path, l, (s.staged as nat, s.modified as nat, s.untracked as nat, s.conflicted as nat))
    &&& exists|f: Option<CommitFacts>| s.last_commit == #[trigger] commit_or_none(f)
    &&& exists|rr: RemoteRead| #[trigger] remote_read(path, rr, s.remote_url)
    &&& exists|h: Option<git2::Oid>, n: Option<Seq<Option<String>>>, res: Seq<Option<Resolved>>|
        #[trigger] tags_read(path, h, n, res, s.tags)
}

/// A repository is clean exactly when nothing is ahead, behind, staged,
/// modified, untracked or conflicted; conflicts outrank everything else.
pub proof fn law_state_summary(
    ahead: usize,
    behind: usize,
    staged: usize,
    modified: usize,
    untracked: usize,
    conflicted: usize,
)
    ensures
        (state_of(ahead, behind, staged, modified, untracked, conflicted) == RepoState::Clean) <==> (ahead == 0
            && behind == 0 && staged == 0 && modified == 0 && untracked == 0 && conflicted == 0),
        conflicted > 0 ==> state_of(ahead, behind, staged, modified, untracked, conflicted)
            == RepoState::Conflicted,
        state_of(ahead, behind, staged, modified, untracked, conflicted) != RepoState::Unknown,
{
}

/// An empty status list counts nothing, and each further entry counts once
/// in every class whose bits it has: staged for any of the index bits 1, 2,
/// 4, 8 and 16; modified for any of the working-tree bits 256 (modified),
/// 512 (deleted), 1024 (type change) and 2048 (renamed); untracked for 128;
/// conflicted for 32768.
pub proof fn law_file_counts_per_entry(bits: Seq<u32>, b: u32)
    ensures
        file_counts(Seq::empty()) == (0nat, 0nat, 0nat, 0nat),
        file_counts(bits.push(b)).0 == file_counts(bits).0 + if b & 1 == 1 || b & 2 == 2 || b & 4 == 4 || b & 8
            == 8 || b & 16 == 16 {
            1nat
        } else {
            0nat
        },
        file_counts(bits.push(b)).1 == file_counts(bits).1 + if b & 256 == 256 || b & 512 == 512 || b & 1024 == 1024
            || b & 2048 == 2048 {
            1nat
        } else {
            0nat
        },
        file_counts(bits.push(b)).2 == file_counts(bits).2 + if b & 128 == 128 {
            1nat
        } else {
            0nat
        },
        file_counts(bits.push(b)).3 == file_counts(bits).3 + if b & 32768 == 32768 {
            1nat
        } else {
            0nat
        },
{
    assert(bits.push(b).drop_last() =~= bits);
}

/// No count exceeds the number of entries in the status list.
pub proof fn law_counts_bounded(bits: Seq<u32>, f: spec_fn(u32) -> bool)
    ensures
        count_where(bits, f) <= bits.len(),
    decreases bits.len(),
{
    if bits.len() > 0 {
        law_counts_bounded(bits.drop_last(), f);
    }
}

/// The cache entry found for a path has that path, and no earlier one does.
pub proof fn lemma_cache_find_from(cache: Seq<(Seq<char>, StatusModel)>, path: Seq<char>, i: int)
    requires
        0 <= i,
    ensures
        cache_find_from(cache, path, i) matches Some(k) ==> i <= k < cache.len() && cache[k].0 == path && forall|
            j: int,
        |
            i <= j < k ==> cache[j].0 != path,
        cache_find_from(cache, path, i) is None ==> forall|j: int| i <= j < cache.len() ==> cache[j].0 != path,
    decreases cache.len() - i,
{
    if i < cache.len() && cache[i].0 != path {
        lemma_cache_find_from(cache, path, i + 1);
    }
}

/// After a status is cached for a path, looking the path up finds that
/// status: a refresh is what the next cached read returns.
pub proof fn law_read_after_refresh(cache: Seq<(Seq<char>, StatusModel)>, path: Seq<char>, s: StatusModel)
    ensures
        cache_find(cache_insert(cache, path, s), path) matches Some(k) && cache_insert(cache, path, s)[k] == (
        path,
        s,
    ),
{
    lemma_cache_find_from(cache, path, 0);
    let c = cache_insert(cache, path, s);
    lemma_cache_find_from(c, path, 0);
    match cache_find(cache, path) {
        Some(k) => {
            assert(c[k].0 == path);
            if let Some(k2) = cache_find(c, path) {
                assert(k2 == k);
            }
        },
        None => {
            assert(c[cache.len() as int].0 == path);
            if let Some(k2) = cache_find(c, path) {
                assert(k2 == cache.len());
            }
        },
    }
}

/// Copies an optional text.
fn copy_opt_text(o: &Option<String>) -> (r: Option<String>)
    ensures
        opt_text(r) == opt_text(*o),
{
    match o {
        Some(s) => Some(s.clone()),
        None => None,
    }
}

/// Copies a list of texts.
fn copy_texts(v: &Vec<String>) -> (r: Vec<String>)
    ensures
        texts(r@) == texts(v@),
{
    let mut r: Vec<String> = Vec::new();
    let mut i: usize = 0;
    while i < v.len()
        invariant
            i <= v.len(),
            texts(r@) =~= texts(v@).take(i as int),
        decreases v.len() - i,
    {
        let t = v[i].clone();
        proof {
            assert(texts(r@.push(t)) =~= texts(r@).push(t@));
        }
        r.push(t);
        i = i + 1;
    }
    assert(texts(v@).take(i as int) =~= texts(v@));
    r
}

/// Copies a status.
fn copy_status(s: &GitStatus) -> (r: GitStatus)
    ensures
        r@ == s@,
{
    GitStatus {
        branch: s.branch.clone(),
        upstream: copy_opt_text(&s.upstream),
        state: s.state,
        ahead: s.ahead,
        behind: s.behind,
        staged: s.staged,
        modified: s.modified,
        untracked: s.untracked,
        conflicted: s.conflicted,
        last_commit: match &s.last_commit {
            Some(c) => Some(
                CommitInfo {
                    hash: c.hash.clone(),
                    short_hash: c.short_hash.clone(),
                    message: c.message.clone(),
                    author: c.author.clone(),
                    timestamp: c.timestamp,
                },
            ),
            None => None,
        },
        remote_url: copy_opt_text(&s.remote_url),
        tags: copy_texts(&s.tags),
    }
}

/// The branch label for HEAD's short name, when it could be read.
pub fn current_branch_from(head_name: Option<String>) -> (r: String)
    ensures
        r@ == branch_label(opt_text(head_name)),
{
    match head_name {
        Some(name) => name,
        None => String::from_str("detached HEAD"),
    }
}

/// The name of the branch HEAD is on, or "detached HEAD".
fn get_current_branch(repo: &Repo) -> (r: String)
    ensures
        exists|h: Option<Seq<char>>| r@ == #[trigger] branch_label(h),
{
    let head_name = match repository_head(repo.raw()) {
        Ok(head) => match reference_shorthand(&head) {
            Ok(name) => Some(name),
            Err(_) => None,
        },
        Err(_) => None,
    };
    let r = current_branch_from(head_name);
    assert(r@ == branch_label(opt_text(head_name)));
    r
}

/// The upstream shown, from whether HEAD and its upstream could be read and
/// the upstream branch's name.
pub fn upstream_from(head_read: bool, upstream_read: bool, name: Option<String>) -> (r: Option<String>)
    ensures
        opt_text(r) == upstream_label(head_read, upstream_read, opt_text(name)),
{
    if head_read && upstream_read {
        name
    } else {
        None
    }
}

/// The name of the upstream of the branch HEAD is on.
fn get_upstream_branch(repo: &Repo) -> (r: Option<String>)
    ensures
        exists|a: bool, b: bool, n: Option<Seq<char>>| opt_text(r) == #[trigger] upstream_label(a, b, n),
{
    let r = match repository_head(repo.raw()) {
        Ok(head) => {
            let branch = branch_of(head);
            match branch_upstream(&branch) {
                Ok(u) => {
                    let name = match branch_name(&u) {
                        Ok(Some(n)) => Some(n),
                        _ => None,
                    };
                    let ghost nm = opt_text(name);
                    let r = upstream_from(true, true, name);
                    assert(opt_text(r) == upstream_label(true, true, nm));
                    r
                },
                Err(_) => {
                    let r = upstream_from(true, false, None);
                    assert(opt_text(r) == upstream_label(true, false, None));
                    r
                },
            }
        },
        Err(_) => {
            let r = upstream_from(false, false, None);
            assert(opt_text(r) == upstream_label(false, false, None));
            r
        },
    };
    r
}

/// The divergence from HEAD's target (`None` when HEAD could not be read),
/// the upstream's id and the walk's counts.
pub fn ahead_behind_of(target: Option<Option<git2::Oid>>, upstream: Option<git2::Oid>, counts: Option<(usize, usize)>) -> (r:
    (usize, usize))
    ensures
        r == divergence(target, upstream, counts),
{
    match (target, upstream, counts) {
        (Some(Some(_)), Some(_), Some(c)) => c,
        _ => (0, 0),
    }
}

/// Commits ahead of and behind the upstream: HEAD's target is walked to what
/// "@{upstream}" resolves to; (0, 0) as soon as HEAD, its target, the
/// upstream or the walk is missing.
fn get_ahead_behind(repo: &Repo) -> (r: (usize, usize))
    ensures
        exists|t: Option<Option<git2::Oid>>, up: Option<Resolved>, w: Option<Walk>|
            #[trigger] divergence_read(repo@, t, up, w, r),
{
    let target = match repository_head(repo.raw()) {
        Ok(head) => Some(reference_target(&head)),
        Err(_) => None,
    };
    match target {
        Some(Some(local)) => {
            let up = read_revparse_ext(repo, "@{upstream}");
            match up.oid() {
                Some(upstream) => {
                    let w = read_graph(repo, local, upstream);
                    let r = ahead_behind_of(target, up.oid(), w.counts());
                    assert(divergence_read(repo@, target, Some(up), Some(w), r));
                    r
                },
                None => {
                    let r = ahead_behind_of(target, None, None);
                    assert(divergence_read(repo@, target, Some(up), None, r));
                    r
                },
            }
        },
        _ => {
            let r = ahead_behind_of(target, None, None);
            assert(divergence_read(repo@, target, None, None, r));
            r
        },
    }
}

/// The file counts of a status list, all 0 when it could not be read.
pub fn counts_of(read: Option<Vec<u32>>) -> (r: (usize, usize, usize, usize))
    ensures
        (r.0 as nat, r.1 as nat, r.2 as nat, r.3 as nat) == counts_or_zero(opt_seq(read)),
{
    match read {
        Some(bits) => count_files(&bits),
        None => (0, 0, 0, 0),
    }
}

/// Staged, modified, untracked and conflicted file counts, untracked
/// directories searched, ignored files left out; all 0 when the status list
/// cannot be read.
fn get_file_counts(repo: &Repo) -> (r: (usize, usize, usize, usize))
    ensures
        exists|l: StatusList| #[trigger] status_read(repo@, l, (r.0 as nat, r.1 as nat, r.2 as nat, r.3 as nat)),
{
    let l = read_status_list(repo, true, true, false);
    let ghost lg = l;
    let r = counts_of(l.into_bits());
    assert(status_read(repo@, lg, (r.0 as nat, r.1 as nat, r.2 as nat, r.3 as nat)));
    r
}

/// The summary of the commit described by `facts`, when there is one.
pub fn last_commit_from(facts: Option<CommitFacts>) -> (r: Option<CommitInfo>)
    requires
        facts matches Some(f) ==> f.hash@.len() >= 7,
    ensures
        commit_model_of(r) == commit_or_none(facts),
{
    match facts {
        Some(f) => Some(commit_info(f)),
        None => None,
    }
}

/// The summary of the commit HEAD points to; `None` when HEAD cannot be
/// read or does not peel to a commit.
fn get_last_commit(repo: &Repo) -> (r: Option<CommitInfo>)
    ensures
        exists|f: Option<CommitFacts>| commit_model_of(r) == #[trigger] commit_or_none(f),
{
    let facts = match repository_head(repo.raw()) {
        Ok(head) => match peel_to_commit_facts(&head) {
            Ok(f) => Some(f),
            Err(_) => None,
        },
        Err(_) => None,
    };
    let ghost fs = facts;
    let r = last_commit_from(facts);
    assert(commit_model_of(r) == commit_or_none(fs));
    r
}

/// The URL of the remote named "origin".
fn get_remote_url(repo: &Repo) -> (r: Option<String>)
    ensures
        exists|rr: RemoteRead| #[trigger] remote_read(repo@, rr, opt_text(r)),
{
    let rr = read_remote(repo, "origin");
    let ghost g = rr;
    let r = rr.into_url();
    assert(remote_read(repo@, g, opt_text(r)));
    r
}

/// The tags at HEAD from HEAD's target, the tag names and what each name
/// resolved to; `resolved[i]` is what `names[i]` resolved to.
pub fn tags_from(head: Option<git2::Oid>, names: Option<Vec<Option<String>>>, resolved: Vec<Option<git2::Oid>>) -> (r:
    Vec<String>)
    requires
        names matches Some(n) ==> n.len() == resolved.len(),
    ensures
        texts(r@) == head_tags(head, opt_seq(names), resolved@),
{
    match (head, names) {
        (Some(h), Some(n)) => tags_pointing_at(&h, &n, &resolved),
        _ => {
            let none: Vec<String> = Vec::new();
            assert(texts(none@) =~= Seq::<Seq<char>>::empty());
            none
        },
    }
}

/// Resolves each tag name with `revparse_single`; nothing for a name that
/// is not valid UTF-8.
fn resolve_tags(repo: &Repo, names: &Vec<Option<String>>) -> (res: Vec<Option<Resolved>>)
    ensures
        res.len() == names.len(),
        forall|i: int| 0 <= i < names.len() ==> #[trigger] resolution_at(repo@, names@[i], res@[i]),
{
    let mut res: Vec<Option<Resolved>> = Vec::new();
    let mut i: usize = 0;
    while i < names.len()
        invariant
            i <= names.len(),
            res.len() == i,
            forall|j: int| 0 <= j < i ==> #[trigger] resolution_at(repo@, names@[j], res@[j]),
        decreases names.len() - i,
    {
        let r = match &names[i] {
            Some(tag) => Some(read_revparse_single(repo, tag.as_str())),
            None => None,
        };
        proof {
            assert(resolution_at(repo@, names@[i as int], r));
        }
        res.push(r);
        i = i + 1;
    }
    res
}

/// The ids that the resolutions found.
fn oids_of(res: &Vec<Option<Resolved>>) -> (ids: Vec<Option<git2::Oid>>)
    ensures
        ids@ == resolved_oids(res@),
{
    let mut ids: Vec<Option<git2::Oid>> = Vec::new();
    let mut i: usize = 0;
    while i < res.len()
        invariant
            i <= res.len(),
            ids@ =~= resolved_oids(res@).take(i as int),
        decreases res.len() - i,
    {
        let id = match &res[i] {
            Some(r) => r.oid(),
            None => None,
        };
        ids.push(id);
        i = i + 1;
    }
    assert(resolved_oids(res@).take(i as int) =~= resolved_oids(res@));
    ids
}

/// The tags that point at the commit HEAD points to.
fn get_tags_for_head(repo: &Repo) -> (r: Vec<String>)
    ensures
        exists|h: Option<git2::Oid>, n: Option<Seq<Option<String>>>, res: Seq<Option<Resolved>>|
            #[trigger] tags_read(repo@, h, n, res, texts(r@)),
{
    let head = match repository_head(repo.raw()) {
        Ok(h) => reference_target(&h),
        Err(_) => None,
    };
    let names = match head {
        Some(_) => match tag_names(repo.raw()) {
            Ok(n) => Some(n),
            Err(_) => None,
        },
        None => None,
    };
    let res = match &names {
        Some(n) => resolve_tags(repo, n),
        None => Vec::new(),
    };
    let resolved = oids_of(&res);
    let ghost nm = opt_seq(names);
    let ghost rs = res@;
    let r = tags_from(head, names, resolved);
    assert(tags_read(repo@, head, nm, rs, texts(r@)));
    r
}

/// A status assembled from what was read.
pub fn status_from(
    branch: String,
    upstream: Option<String>,
    ahead_behind: (usize, usize),
    counts: (usize, usize, usize, usize),
    last_commit: Option<CommitInfo>,
    remote_url: Option<String>,
    tags: Vec<String>,
) -> (s: GitStatus)
    ensures
        s@ == status_model(
            branch@,
            opt_text(upstream),
            ahead_behind,
            counts,
            commit_model_of(last_commit),
            opt_text(remote_url),
            texts(tags@),
        ),
{
    let (ahead, behind) = ahead_behind;
    let (staged, modified, untracked, conflicted) = counts;
    let state = repo_state(ahead, behind, staged, modified, untracked, conflicted);
    GitStatus {
        branch,
        upstream,
        state,
        ahead,
        behind,
        staged,
        modified,
        untracked,
        conflicted,
        last_commit,
        remote_url,
        tags,
    }
}

/// Computes the status of the repository at `path` from scratch; `None`
/// when it cannot be opened.
fn compute_status(path: &str) -> (r: Option<GitStatus>)
    ensures
        r matches Some(s) ==> computed_at(path@, s@),
{
    let repo = match open_repo(path) {
        Some(r) => r,
        None => {
            return None;
        },
    };
    let branch = get_current_branch(&repo);
    let upstream = get_upstream_branch(&repo);
    let ahead_behind = get_ahead_behind(&repo);
    let counts = get_file_counts(&repo);
    let last_commit = get_last_commit(&repo);
    let remote_url = get_remote_url(&repo);
    let tags = get_tags_for_head(&repo);
    let ghost up = opt_text(upstream);
    let ghost url = opt_text(remote_url);
    let ghost lc = commit_model_of(last_commit);
    let ghost tg = texts(tags@);
    let s = status_from(branch, upstream, ahead_behind, counts, last_commit, remote_url, tags);
    proof {
        let m = s@;
        let p = path@;
        let h = choose|h: Option<Seq<char>>| m.branch == #[trigger] branch_label(h);
        assert(m.branch == branch_label(h));
        let (ua, ub, un) = choose|a: bool, b: bool, n: Option<Seq<char>>| up == #[trigger] upstream_label(a, b, n);
        assert(m.upstream == upstream_label(ua, ub, un));
        let (t, u, w) = choose|t: Option<Option<git2::Oid>>, up: Option<Resolved>, w: Option<Walk>|
            #[trigger] divergence_read(p, t, up, w, ahead_behind);
        assert(divergence_read(p, t, u, w, (m.ahead, m.behind)));
        let l = choose|l: StatusList|
            #[trigger] status_read(p, l, (counts.0 as nat, counts.1 as nat, counts.2 as nat, counts.3 as nat));
        assert(status_read(p, l, (m.staged as nat, m.modified as nat, m.untracked as nat, m.conflicted as nat)));
        let f = choose|f: Option<CommitFacts>| lc == #[trigger] commit_or_none(f);
        assert(m.last_commit == commit_or_none(f));
        let rr = choose|rr: RemoteRead| #[trigger] remote_read(p, rr, url);
        assert(remote_read(p, rr, m.remote_url));
        let (th, tn, tr) = choose|h: Option<git2::Oid>, n: Option<Seq<Option<String>>>, res: Seq<Option<Resolved>>|
            #[trigger] tags_read(p, h, n, res, tg);
        assert(tags_read(p, th, tn, tr, m.tags));
    }
    Some(s)
}

closed spec fn cache_model(v: Seq<(String, GitStatus)>) -> Seq<(Seq<char>, StatusModel)> {
    v.map_values(|e: (String, GitStatus)| (e.0@, e.1@))
}

proof fn lemma_cache_model_push(v: Seq<(String, GitStatus)>, e: (String, GitStatus))
    ensures
        cache_model(v.push(e)) =~= cache_model(v).push((e.0@, e.1@)),
{
    assert forall|i: int| 0 <= i < v.len() + 1 implies #[trigger] cache_model(v.push(e))[i] == cache_model(
        v,
    ).push((e.0@, e.1@))[i] by {
        if i < v.len() {
            assert(v.push(e)[i] == v[i]);
        }
    }
}

proof fn lemma_cache_model_update(v: Seq<(String, GitStatus)>, k: int, e: (String, GitStatus))
    requires
        0 <= k < v.len(),
    ensures
        cache_model(v.update(k, e)) =~= cache_model(v).update(k, (e.0@, e.1@)),
{
    assert forall|i: int| 0 <= i < v.len() implies #[trigger] cache_model(v.update(k, e))[i] == cache_model(
        v,
    ).update(k, (e.0@, e.1@))[i] by {
        if i != k {
            assert(v.update(k, e)[i] == v[i]);
        }
    }
}

/// A commit summary's message is a single line: its first line is itself.
pub proof fn law_summary_message_one_line(hash: Seq<char>, message: Option<Seq<char>>, author: Option<Seq<char>>, seconds: i64)
    ensures
        first_line(commit_summary(hash, message, author, seconds).message) == commit_summary(
            hash,
            message,
            author,
            seconds,
        ).message,
{
    let m = match message {
        Some(m) => m,
        None => Seq::<char>::empty(),
    };
    lemma_lines_have_no_newline(m, Seq::empty());
    let l = first_line(m);
    assert(!l.contains('\n'));
    lemma_one_line(l, Seq::empty());
    assert(Seq::<char>::empty() + l =~= l);
}

impl GitService {
    /// The cached statuses, by path, in the order they were first cached.
    pub closed spec fn cached(&self) -> Seq<(Seq<char>, StatusModel)> {
        cache_model(self.cache@)
    }

    /// How often the background poller refreshes, in milliseconds.
    pub closed spec fn poll_interval(&self) -> u64 {
        self.poll_interval_ms
    }

    /// A service with an empty cache that polls every two seconds.
    pub fn new() -> (g: GitService)
        ensures
            g.cached() == Seq::<(Seq<char>, StatusModel)>::empty(),
            g.poll_interval() == 2000,
    {
        let g = GitService { cache: Vec::new(), poll_interval_ms: 2000 };
        assert(g.cached() =~= Seq::<(Seq<char>, StatusModel)>::empty());
        g
    }

    /// Get git status for a directory: the cached status when there is one,
    /// else a freshly computed status, which is then cached.
    pub fn get_status(&mut self, path: &str) -> (r: Option<GitStatus>)
        ensures
            final(self).poll_interval() == old(self).poll_interval(),
            cache_find(old(self).cached(), path@) matches Some(k) ==> {
                &&& r is Some
                &&& r->0@ == old(self).cached()[k].1
                &&& final(self).cached() == old(self).cached()
            },
            cache_find(old(self).cached(), path@) is None && r is None ==> final(self).cached() == old(
                self,
            ).cached(),
            cache_find(old(self).cached(), path@) is None && r is Some ==> {
                &&& computed_at(path@, r->0@)
                &&& final(self).cached() == old(self).cached().push((path@, r->0@))
            },
    {
        // Check cache first
        match self.find(path) {
            Some(k) => {
                assert(self.cached()[k as int] == (self.cache@[k as int].0@, self.cache@[k as int].1@));
                return Some(copy_status(&self.cache[k].1));
            },
            None => {},
        }
        // Compute fresh status
        let status = match compute_status(path) {
            Some(s) => s,
            None => {
                return None;
            },
        };
        // Update cache
        let copy = copy_status(&status);
        let ghost before = self.cache@;
        self.cache.push((String::from_str(path), status));
        proof {
            lemma_cache_model_push(before, self.cache@.last());
        }
        Some(copy)
    }

    /// Force refresh git status: a freshly computed status replaces the
    /// cached one; when none can be computed the cache is left as it was.
    pub fn refresh(&mut self, path: &str) -> (r: Option<GitStatus>)
        ensures
            final(self).poll_interval() == old(self).poll_interval(),
            r is None ==> final(self).cached() == old(self).cached(),
            r is Some ==> {
                &&& computed_at(path@, r->0@)
                &&& final(self).cached() == cache_insert(old(self).cached(), path@, r->0@)
            },
    {
        let status = match compute_status(path) {
            Some(s) => s,
            None => {
                return None;
            },
        };
        let copy = copy_status(&status);
        let ghost before = self.cache@;
        let entry = (String::from_str(path), status);
        match self.find(path) {
            Some(k) => {
                proof {
                    lemma_cache_model_update(before, k as int, entry);
                }
                self.cache.set(k, entry);
            },
            None => {
                proof {
                    lemma_cache_model_push(before, entry);
                }
                self.cache.push(entry);
            },
        }
        Some(copy)
    }

    /// Clear cache
    pub fn clear_cache(&mut self)
        ensures
            final(self).poll_interval() == old(self).poll_interval(),
            final(self).cached() == Seq::<(Seq<char>, StatusModel)>::empty(),
    {
        self.cache.clear();
        assert(self.cached() =~= Seq::<(Seq<char>, StatusModel)>::empty());
    }

    /// Get branch list: the local branches with a readable UTF-8 name,
    /// whether HEAD is on each, and each one's upstream; empty when the
    /// directory is not a repository.
    pub fn get_branches(&self, path: &str) -> (r: Vec<BranchInfo>)
        ensures
            exists|l: Option<BranchListing>| #[trigger] branches_read(path@, l, branch_models(r@)),
    {
        match open_repo(path) {
            Some(repo) => {
                let l = read_branch_listing(&repo, true);
                let ghost lg = l;
                let facts = branch_facts(l.into_entries());
                let r = branch_infos(facts);
                assert(branches_read(path@, Some(lg), branch_models(r@)));
                r
            },
            None => {
                let facts = branch_facts(None);
                let r = branch_infos(facts);
                assert(branches_read(path@, None, branch_models(r@)));
                r
            },
        }
    }

    /// The position of the first cache entry for `path`.
    fn find(&self, path: &str) -> (r: Option<usize>)
        ensures
            match r {
                Some(k) => cache_find(self.cached(), path@) == Some(k as int) && k < self.cache.len(),
                None => cache_find(self.cached(), path@) is None,
            },
    {
        let ghost c = self.cached();
        let mut i: usize = 0;
        while i < self.cache.len()
            invariant
                i <= self.cache.len(),
                c == self.cached(),
                c.len() == self.cache.len(),
                cache_find(c, path@) == cache_find_from(c, path@, i as int),
            decreases self.cache.len() - i,
        {
            assert(c[i as int].0 == self.cache@[i as int].0@);
            let key = String::from_str(path);
            if key == self.cache[i].0 {
                return Some(i);
            }
            i = i + 1;
        }
        None
    }

    /// How often the background poller refreshes, in milliseconds.
    pub fn poll_interval_ms(&self) -> (ms: u64)
        ensures
            ms == self.poll_interval(),
    {
        self.poll_interval_ms
    }
}

/// What a local branch records: its name (`None` when unreadable or not
/// valid UTF-8), whether HEAD is on it, and its upstream's name.
pub struct BranchFacts {
    pub name: Option<String>,
    pub is_head: bool,
    pub upstream: Option<String>,
}

/// A branch entry as values.
pub open spec fn branch_model(b: BranchInfo) -> (Seq<char>, bool, Option<Seq<char>>) {
    (b.name@, b.is_current, opt_text(b.upstream))
}

/// Branch entries as values.
pub open spec fn branch_models(v: Seq<BranchInfo>) -> Seq<(Seq<char>, bool, Option<Seq<char>>)> {
    v.map_values(|b: BranchInfo| branch_model(b))
}

/// What a branch records, as values.
pub open spec fn fact_model(f: BranchFacts) -> (Option<Seq<char>>, bool, Option<Seq<char>>) {
    (opt_text(f.name), f.is_head, opt_text(f.upstream))
}

/// What a list of branches records, as values.
pub open spec fn fact_models(v: Seq<BranchFacts>) -> Seq<(Option<Seq<char>>, bool, Option<Seq<char>>)> {
    v.map_values(|f: BranchFacts| fact_model(f))
}

/// The branches that have a name, in order, with their HEAD flag and upstream.
pub open spec fn branch_list(facts: Seq<(Option<Seq<char>>, bool, Option<Seq<char>>)>) -> Seq<
    (Seq<char>, bool, Option<Seq<char>>),
>
    decreases facts.len(),
{
    if facts.len() == 0 {
        Seq::empty()
    } else {
        let rest = branch_list(facts.drop_last());
        let f = facts.last();
        match f.0 {
            Some(n) => rest.push((n, f.1, f.2)),
            None => rest,
        }
    }
}

/// The entries that the branch iterator could read, in order, each as what
/// the branch records.
pub open spec fn listed_facts(entries: Seq<Option<(Option<String>, bool, Option<String>)>>) -> Seq<
    (Option<Seq<char>>, bool, Option<Seq<char>>),
>
    decreases entries.len(),
{
    if entries.len() == 0 {
        Seq::empty()
    } else {
        let rest = listed_facts(entries.drop_last());
        match entries.last() {
            Some(e) => rest.push((opt_text(e.0), e.1, opt_text(e.2))),
            None => rest,
        }
    }
}

/// What a branch listing gives: nothing when it could not be read.
pub open spec fn listing_facts(listing: Option<Seq<Option<(Option<String>, bool, Option<String>)>>>) -> Seq<
    (Option<Seq<char>>, bool, Option<Seq<char>>),
> {
    match listing {
        Some(entries) => listed_facts(entries),
        None => Seq::empty(),
    }
}

/// The branch facts of a listing of local branches: for each entry the
/// iterator could read, its name, whether HEAD is on it and its upstream's
/// name; none when the listing could not be read.
pub fn branch_facts(listing: Option<Vec<Option<(Option<String>, bool, Option<String>)>>>) -> (r: Vec<BranchFacts>)
    ensures
        fact_models(r@) == listing_facts(opt_seq(listing)),
{
    let mut facts: Vec<BranchFacts> = Vec::new();
    match listing {
        Some(entries) => {
            let ghost all = entries@;
            for e in it: entries.into_iter()
                invariant
                    it.seq() == all,
                    fact_models(facts@) == listed_facts(all.take(it.index() as int)),
            {
                let ghost idx = it.index() as int;
                assert(all.take(idx + 1).drop_last() =~= all.take(idx));
                assert(all[idx] == e);
                match e {
                    Some((name, is_head, upstream)) => {
                        let f = BranchFacts { name, is_head, upstream };
                        proof {
                            assert(fact_models(facts@.push(f)) =~= fact_models(facts@).push(fact_model(f)));
                        }
                        facts.push(f);
                    },
                    None => {},
                }
            }
            assert(all.take(all.len() as int) =~= all);
        },
        None => {
            assert(fact_models(facts@) =~= Seq::<(Option<Seq<char>>, bool, Option<Seq<char>>)>::empty());
        },
    }
    facts
}

/// The branches shown come from the listing of local branches read at
/// `path`; none when the repository could not be opened (`None`).
pub open spec fn branches_read(
    path: Seq<char>,
    l: Option<BranchListing>,
    shown: Seq<(Seq<char>, bool, Option<Seq<char>>)>,
) -> bool {
    match l {
        Some(listing) => listing.at() == path && listing.local() && shown == branch_list(
            listing_facts(listing.entries()),
        ),
        None => shown == Seq::<(Seq<char>, bool, Option<Seq<char>>)>::empty(),
    }
}

/// The branch list built from what each branch records.
pub fn branch_infos(facts: Vec<BranchFacts>) -> (r: Vec<BranchInfo>)
    ensures
        branch_models(r@) == branch_list(fact_models(facts@)),
{
    let ghost all = facts@;
    let mut infos: Vec<BranchInfo> = Vec::new();
    for f in it: facts.into_iter()
        invariant
            it.seq() == all,
            branch_models(infos@) == branch_list(fact_models(all.take(it.index() as int))),
    {
        let ghost idx = it.index() as int;
        assert(all.take(idx + 1).drop_last() =~= all.take(idx));
        assert(fact_models(all.take(idx + 1)).drop_last() =~= fact_models(all.take(idx)));
        assert(fact_models(all.take(idx + 1)).last() == fact_model(f));
        assert(all[idx] == f);
        match f.name {
            Some(name) => {
                let b = BranchInfo { name, is_current: f.is_head, upstream: f.upstream };
                proof {
                    assert(branch_models(infos@.push(b)) =~= branch_models(infos@).push(branch_model(b)));
                }
                infos.push(b);
            },
            None => {},
        }
    }
    assert(all.take(all.len() as int) =~= all);
    infos
}

/// What a commit records, as plain values: its id in hex, its message and its
/// author's name (each `None` when not valid UTF-8), and its time in seconds.
pub struct CommitFacts {
    pub hash: String,
    pub message: Option<String>,
    pub author: Option<String>,
    pub seconds: i64,
}


/// The reference HEAD points to (`git2::Repository::head`); depends on the
/// repository, nothing is stated.
#[verifier::external_body]
fn repository_head<'r>(repo: &'r git2::Repository) -> Result<git2::Reference<'r>, git2::Error> {
    repo.head()
}

/// The short name of a reference (`git2::Reference::shorthand`), an error
/// when it is not valid UTF-8; nothing is stated of its text.
#[verifier::external_body]
fn reference_shorthand(r: &git2::Reference) -> Result<String, git2::Error> {
    match r.shorthand() {
        Ok(s) => Ok(s.to_string()),
        Err(e) => Err(e),
    }
}

/// The object id a direct reference points to (`git2::Reference::target`),
/// `None` for a symbolic reference; nothing is stated of the id.
#[verifier::external_body]
fn reference_target(r: &git2::Reference) -> Option<git2::Oid> {
    r.target()
}

/// The reference seen as a branch (`git2::Branch::wrap`).
#[verifier::external_body]
fn branch_of<'r>(r: git2::Reference<'r>) -> git2::Branch<'r> {
    git2::Branch::wrap(r)
}

/// The upstream branch of a local branch (`git2::Branch::upstream`); depends
/// on the configuration, nothing is stated.
#[verifier::external_body]
pub(crate) fn branch_upstream<'r>(b: &git2::Branch<'r>) -> Result<git2::Branch<'r>, git2::Error> {
    b.upstream()
}

/// The name of a branch (`git2::Branch::name`), `None` when not valid UTF-8;
/// nothing is stated of the text.
#[verifier::external_body]
pub(crate) fn branch_name(b: &git2::Branch) -> Result<Option<String>, git2::Error> {
    match b.name() {
        Ok(Some(n)) => Ok(Some(n.to_string())),
        Ok(None) => Ok(None),
        Err(e) => Err(e),
    }
}

/// Whether HEAD points at the branch (`git2::Branch::is_head`); nothing is stated.
#[verifier::external_body]
pub(crate) fn branch_is_head(b: &git2::Branch) -> bool {
    b.is_head()
}





/// The commit a reference peels to (`git2::Reference::peel_to_commit`), as
/// plain values: `git2::Oid`'s text is the hex form that `git_oid_tostr`
/// writes, 40 digits for SHA-1 and 64 for SHA-256 ids.
#[verifier::external_body]
fn peel_to_commit_facts(r: &git2::Reference) -> (res: Result<CommitFacts, git2::Error>)
    ensures
        res matches Ok(c) ==> c.hash@.len() == 40 || c.hash@.len() == 64,
{
    match r.peel_to_commit() {
        Ok(c) => Ok(
            CommitFacts {
                hash: c.id().to_string(),
                message: c.message().ok().map(|m| m.to_string()),
                author: c.author().name().ok().map(|n| n.to_string()),
                seconds: c.time().seconds(),
            },
        ),
        Err(e) => Err(e),
    }
}


/// The names of all tags (`git2::Repository::tag_names`), `None` for a name
/// that is not valid UTF-8; nothing is stated.
#[verifier::external_body]
fn tag_names(repo: &git2::Repository) -> Result<Vec<Option<String>>, git2::Error> {
    match repo.tag_names(None) {
        Ok(arr) => Ok(
            arr.iter().map(
                |t| match t {
                    Ok(Some(s)) => Some(s.to_string()),
                    _ => None,
                },
            ).collect(),
        ),
        Err(e) => Err(e),
    }
}


/// Whether two object ids are the same id (`git2::Oid`'s `==`).
#[verifier::external_body]
fn oid_equal(a: &git2::Oid, b: &git2::Oid) -> (r: bool)
    ensures
        r == (*a == *b),
{
    a == b
}

} // verus!
