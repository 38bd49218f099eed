//! The version-control source and the version-tag resolution algorithm.
//!
//! [`Git`] is the library's in-memory model of one version-controlled
//! working directory: it answers the same primitives a real backend answers
//! (validity, fetch, commit and tag queries), from explicit fields instead
//! of an external process. The core algorithms are verified against it;
//! callers that drive a real backend reuse the same decision functions on
//! plain values ([`next_or_latest_tag`], [`renovate_dep_name_from_url`],
//! [`renovate_datasource_from_url`]).

use crate::entry::ParseEntryError;
use crate::strutil;
use vstd::prelude::*;
use vstd::string::StrSliceExecFns;
use vstd::string::StringExecFns;

verus! {

/// A failed backend command; carries the backend's diagnostic text. The
/// in-memory source reports failures with empty diagnostics.
#[derive(Debug)]
pub struct CommandError {
    pub message: String,
}

impl View for CommandError {
    type V = Seq<char>;

    open spec fn view(&self) -> Seq<char> {
        self.message@
    }
}

impl DeepView for CommandError {
    type V = Seq<char>;

    open spec fn deep_view(&self) -> Seq<char> {
        self.message@
    }
}

/// Why a resolution failed.
#[derive(Debug)]
pub enum ResolveError {
    /// The target path is not a valid repository.
    NotARepository,
    /// The backend reported a failure; carries its diagnostic text.
    Command(CommandError),
    /// The floor tag reported by the backend is absent from the full tag
    /// listing; carries the floor tag.
    InconsistentTagState(String),
    /// The remote URL matches no recognized dependency-source scheme;
    /// carries the URL.
    UnsupportedRemote(String),
    /// Resolving a recorded tag to a commit failed; carries the attempted
    /// tag and the backend's diagnostics.
    CommitForTag(String, CommandError),
    /// A lock-file line is malformed.
    Parse(ParseEntryError),
    /// No lock entry exists for the identifier; carries the identifier.
    MissingEntry(String),
    /// No base name can be derived from the path; carries the path.
    NoBasename(String),
}

/// Mathematical model of a [`ResolveError`].
pub ghost enum ResolveErrorV {
    NotARepository,
    Command(Seq<char>),
    InconsistentTagState(Seq<char>),
    UnsupportedRemote(Seq<char>),
    CommitForTag(Seq<char>, Seq<char>),
    Parse(Seq<char>),
    MissingEntry(Seq<char>),
    NoBasename(Seq<char>),
}

impl View for ResolveError {
    type V = ResolveErrorV;

    open spec fn view(&self) -> ResolveErrorV {
        match self {
            ResolveError::NotARepository => ResolveErrorV::NotARepository,
            ResolveError::Command(c) => ResolveErrorV::Command(c@),
            ResolveError::InconsistentTagState(t) => ResolveErrorV::InconsistentTagState(t@),
            ResolveError::UnsupportedRemote(u) => ResolveErrorV::UnsupportedRemote(u@),
            ResolveError::CommitForTag(t, c) => ResolveErrorV::CommitForTag(t@, c@),
            ResolveError::Parse(p) => ResolveErrorV::Parse(p@),
            ResolveError::MissingEntry(i) => ResolveErrorV::MissingEntry(i@),
            ResolveError::NoBasename(p) => ResolveErrorV::NoBasename(p@),
        }
    }
}

impl DeepView for ResolveError {
    type V = ResolveErrorV;

    open spec fn deep_view(&self) -> ResolveErrorV {
        self.view()
    }
}

/// First value associated with `k`, scanning from the front.
pub open spec fn assoc_first(m: Seq<(Seq<char>, Seq<char>)>, k: Seq<char>) -> Option<Seq<char>>
    decreases m.len(),
{
    if m.len() == 0 {
        None
    } else if m[0].0 == k {
        Some(m[0].1)
    } else {
        assoc_first(m.skip(1), k)
    }
}

/// Position of the first element of `tags` equal to `t`.
pub open spec fn index_of_first(tags: Seq<Seq<char>>, t: Seq<char>) -> Option<int>
    decreases tags.len(),
{
    if tags.len() == 0 {
        None
    } else if tags[0] == t {
        Some(0)
    } else {
        match index_of_first(tags.skip(1), t) {
            Some(i) => Some(i + 1),
            None => None,
        }
    }
}

/// Mathematical model of one repository as the backend reports it.
#[verifier::ext_equal]
pub ghost struct GitV {
    pub dir: Seq<char>,
    pub valid: bool,
    pub fetch_ok: bool,
    pub toplevel_dir: Option<Seq<char>>,
    pub current_commit: Option<Seq<char>>,
    pub remote_url: Option<Seq<char>>,
    pub exact_tags: Seq<(Seq<char>, Seq<char>)>,
    pub floor_tags: Seq<(Seq<char>, Seq<char>)>,
    pub tag_commits: Seq<(Seq<char>, Seq<char>)>,
    pub tags_asc: Seq<Seq<char>>,
    pub checkout_ok: bool,
}

impl GitV {
    /// The directory is the top level of its own working copy.
    pub open spec fn toplevel(self) -> bool {
        self.toplevel_dir == Some(self.dir)
    }

    /// The repository passes batch discovery: valid and top-level.
    pub open spec fn discovered(self) -> bool {
        self.valid && self.toplevel()
    }

    /// The tag exactly on `c`, if `c` is itself a release point.
    pub open spec fn exact_tag_of(self, c: Seq<char>) -> Option<Seq<char>> {
        assoc_first(self.exact_tags, c)
    }

    /// The floor tag of `c`: the nearest tag at or before it.
    pub open spec fn floor_tag_of(self, c: Seq<char>) -> Option<Seq<char>> {
        assoc_first(self.floor_tags, c)
    }

    /// The commit a tag designates.
    pub open spec fn commit_of_tag(self, t: Seq<char>) -> Option<Seq<char>> {
        assoc_first(self.tag_commits, t)
    }
}

/// One version-controlled working directory, modeled in memory: each field
/// holds what the backend would answer for the corresponding query. A query
/// whose field is `None` fails with a [`CommandError`].
#[derive(Debug)]
pub struct Git {
    /// The working directory's path.
    pub dir: String,
    /// The directory is a working copy of the backend.
    pub valid: bool,
    /// Fetching from the remote succeeds.
    pub fetch_ok: bool,
    /// The top-level directory of the working copy containing `dir`.
    pub toplevel_dir: Option<String>,
    /// The commit the working tree is at.
    pub current_commit: Option<String>,
    /// The URL of the `origin` remote.
    pub remote_url: Option<String>,
    /// Exactly tagged commits: commit to tag.
    pub exact_tags: Vec<(String, String)>,
    /// Floor tags: commit to the nearest tag at or before it.
    pub floor_tags: Vec<(String, String)>,
    /// Tag to the commit it designates.
    pub tag_commits: Vec<(String, String)>,
    /// All tags, ascending by creation time.
    pub tags_asc: Vec<String>,
    /// Resetting the working tree succeeds.
    pub checkout_ok: bool,
}

impl View for Git {
    type V = GitV;

    open spec fn view(&self) -> GitV {
        GitV {
            dir: self.dir@,
            valid: self.valid,
            fetch_ok: self.fetch_ok,
            toplevel_dir: self.toplevel_dir.deep_view(),
            current_commit: self.current_commit.deep_view(),
            remote_url: self.remote_url.deep_view(),
            exact_tags: self.exact_tags.deep_view(),
            floor_tags: self.floor_tags.deep_view(),
            tag_commits: self.tag_commits.deep_view(),
            tags_asc: self.tags_asc.deep_view(),
            checkout_ok: self.checkout_ok,
        }
    }
}

impl DeepView for Git {
    type V = GitV;

    open spec fn deep_view(&self) -> GitV {
        self.view()
    }
}

/// A command failure of the in-memory source: empty diagnostics.
fn command_error() -> (e: CommandError)
    ensures
        e@ == Seq::<char>::empty(),
{
    CommandError { message: String::new() }
}

/// First value associated with `k` in `m`, scanning from the front.
fn assoc_get(m: &Vec<(String, String)>, k: &str) -> (r: Option<String>)
    ensures
        match r {
            Some(v) => assoc_first(m.deep_view(), k@) == Some(v@),
            None => assoc_first(m.deep_view(), k@) is None,
        },
{
    proof {
        assert(m.deep_view().skip(0) =~= m.deep_view());
    }
    let mut i: usize = 0;
    while i < m.len()
        invariant
            i <= m.len(),
            assoc_first(m.deep_view(), k@) == assoc_first(m.deep_view().skip(i as int), k@),
        decreases m.len() - i,
    {
        proof {
            assert(m.deep_view().skip(i as int)[0] == m.deep_view()[i as int]);
            assert(m.deep_view().skip(i as int).skip(1) =~= m.deep_view().skip(i + 1));
        }
        if strutil::str_eq(m[i].0.as_str(), k) {
            return Some(m[i].1.clone());
        }
        i = i + 1;
    }
    proof {
        assert(m.deep_view().skip(i as int) =~= Seq::<(Seq<char>, Seq<char>)>::empty());
    }
    None
}

impl Git {
    /// A fresh in-memory source for `dir`, with nothing scripted: not a
    /// valid repository until its fields say otherwise.
    pub fn new(dir: String) -> (g: Git)
        ensures
            g@ == (GitV {
                dir: dir@,
                valid: false,
                fetch_ok: false,
                toplevel_dir: None,
                current_commit: None,
                remote_url: None,
                exact_tags: Seq::empty(),
                floor_tags: Seq::empty(),
                tag_commits: Seq::empty(),
                tags_asc: Seq::empty(),
                checkout_ok: false,
            }),
    {
        let g = Git {
            dir,
            valid: false,
            fetch_ok: false,
            toplevel_dir: None,
            current_commit: None,
            remote_url: None,
            exact_tags: Vec::new(),
            floor_tags: Vec::new(),
            tag_commits: Vec::new(),
            tags_asc: Vec::new(),
            checkout_ok: false,
        };
        proof {
            assert(g@.exact_tags =~= Seq::<(Seq<char>, Seq<char>)>::empty());
            assert(g@.floor_tags =~= Seq::<(Seq<char>, Seq<char>)>::empty());
            assert(g@.tag_commits =~= Seq::<(Seq<char>, Seq<char>)>::empty());
            assert(g@.tags_asc =~= Seq::<Seq<char>>::empty());
            assert(g@.toplevel_dir == None::<Seq<char>>);
            assert(g@.current_commit == None::<Seq<char>>);
            assert(g@.remote_url == None::<Seq<char>>);
        }
        g
    }

    /// The directory is a working copy of the backend.
    pub fn is_valid(&self) -> (r: bool)
        ensures
            r == self@.valid,
    {
        self.valid
    }

    /// The directory is the top level of its own working copy, not a
    /// nested subdirectory of a repository above it.
    pub fn is_toplevel_dir(&self) -> (r: bool)
        ensures
            r == self@.toplevel(),
    {
        match &self.toplevel_dir {
            Some(d) => strutil::str_eq(d.as_str(), self.dir.as_str()),
            None => false,
        }
    }

    /// The top-level directory of the working copy containing this one.
    pub fn show_toplevel_dir(&self) -> (r: Result<String, CommandError>)
        ensures
            match self@.toplevel_dir {
                Some(d) => r matches Ok(s) && s@ == d,
                None => r matches Err(e) && e@ == Seq::<char>::empty(),
            },
    {
        match &self.toplevel_dir {
            Some(d) => Ok(d.clone()),
            None => Err(command_error()),
        }
    }

    /// Fetch from the remote.
    pub fn fetch(&self) -> (r: Result<(), CommandError>)
        ensures
            self@.fetch_ok ==> (r matches Ok(u) && u == ()),
            !self@.fetch_ok ==> (r matches Err(e) && e@ == Seq::<char>::empty()),
    {
        if self.fetch_ok {
            Ok(())
        } else {
            Err(command_error())
        }
    }

    /// Hard-reset the working tree to `commit`. Destructive on a real
    /// working copy; the in-memory source only reports the scripted result.
    pub fn checkout(&self, commit: &str) -> (r: Result<(), CommandError>)
        ensures
            self@.checkout_ok ==> (r matches Ok(u) && u == ()),
            !self@.checkout_ok ==> (r matches Err(e) && e@ == Seq::<char>::empty()),
    {
        let _ = commit;
        if self.checkout_ok {
            Ok(())
        } else {
            Err(command_error())
        }
    }

    /// The commit a tag (or any revision name) designates.
    pub fn get_commit_from_tag(&self, tag: &str) -> (r: Result<String, CommandError>)
        ensures
            match self@.commit_of_tag(tag@) {
                Some(c) => r matches Ok(s) && s@ == c,
                None => r matches Err(e) && e@ == Seq::<char>::empty(),
            },
    {
        match assoc_get(&self.tag_commits, tag) {
            Some(c) => Ok(c),
            None => Err(command_error()),
        }
    }

    /// The commit the working tree is at.
    pub fn get_current_commit(&self) -> (r: Result<String, CommandError>)
        ensures
            match self@.current_commit {
                Some(c) => r matches Ok(s) && s@ == c,
                None => r matches Err(e) && e@ == Seq::<char>::empty(),
            },
    {
        match &self.current_commit {
            Some(c) => Ok(c.clone()),
            None => Err(command_error()),
        }
    }

    /// The tag exactly on `commit`; fails when the commit is not itself a
    /// release point.
    pub fn get_tag_from_commit(&self, commit: &str) -> (r: Result<String, CommandError>)
        ensures
            match self@.exact_tag_of(commit@) {
                Some(t) => r matches Ok(s) && s@ == t,
                None => r matches Err(e) && e@ == Seq::<char>::empty(),
            },
    {
        match assoc_get(&self.exact_tags, commit) {
            Some(t) => Ok(t),
            None => Err(command_error()),
        }
    }

    /// The floor tag of `commit`: the nearest tag at or before it.
    pub fn get_latest_tag(&self, commit: &str) -> (r: Result<String, CommandError>)
        ensures
            match self@.floor_tag_of(commit@) {
                Some(t) => r matches Ok(s) && s@ == t,
                None => r matches Err(e) && e@ == Seq::<char>::empty(),
            },
    {
        match assoc_get(&self.floor_tags, commit) {
            Some(t) => Ok(t),
            None => Err(command_error()),
        }
    }

    /// All tags, ascending by creation time.
    pub fn list_tags_order_by_creatordate_asc(&self) -> (r: Vec<String>)
        ensures
            r.deep_view() == self@.tags_asc,
    {
        let mut out: Vec<String> = Vec::new();
        let mut i: usize = 0;
        while i < self.tags_asc.len()
            invariant
                i <= self.tags_asc.len(),
                out@.len() == i,
                forall|j: int| 0 <= j < i ==> (#[trigger] out@[j])@ == self.tags_asc@[j]@,
            decreases self.tags_asc.len() - i,
        {
            out.push(self.tags_asc[i].clone());
            i = i + 1;
        }
        proof {
            assert(out.deep_view() =~= self.tags_asc.deep_view());
        }
        out
    }

    /// The URL of the `origin` remote.
    pub fn remote_origin_url(&self) -> (r: Result<String, CommandError>)
        ensures
            match self@.remote_url {
                Some(u) => r matches Ok(s) && s@ == u,
                None => r matches Err(e) && e@ == Seq::<char>::empty(),
            },
    {
        match &self.remote_url {
            Some(u) => Ok(u.clone()),
            None => Err(command_error()),
        }
    }

    /// Resolve the release tag applicable to `commit`: the exact tag when
    /// the commit is itself a release point; otherwise the tag one newer
    /// than the commit's floor tag in creation order, or the floor tag
    /// itself when no newer tag exists. Fails with `InconsistentTagState`
    /// when the floor tag is absent from the full listing.
    pub fn get_same_or_newer_or_latest_tag(&self, commit: &str) -> (r: Result<
        String,
        ResolveError,
    >)
        ensures
            match r {
                Ok(t) => resolve_tag_spec(self@, commit@) == Ok::<Seq<char>, ResolveErrorV>(t@),
                Err(e) => resolve_tag_spec(self@, commit@) == Err::<Seq<char>, ResolveErrorV>(e@),
            },
    {
        match self.get_tag_from_commit(commit) {
            Ok(tag) => Ok(tag),
            Err(_) => {
                let latest_tag = match self.get_latest_tag(commit) {
                    Ok(t) => t,
                    Err(e) => {
                        return Err(ResolveError::Command(e));
                    },
                };
                let tags = self.list_tags_order_by_creatordate_asc();
                next_or_latest_tag(latest_tag.as_str(), &tags)
            },
        }
    }

    /// The dependency name this repository should be tracked under,
    /// derived from its remote origin URL.
    pub fn renovate_dep_name(&self) -> (r: Result<String, ResolveError>)
        ensures
            match self@.remote_url {
                None => (r matches Err(e) && e@ == ResolveErrorV::Command(Seq::<char>::empty())),
                Some(u) => match dep_name_of_url(u) {
                    Some(d) => r matches Ok(s) && s@ == d,
                    None => (r matches Err(e) && e@ == ResolveErrorV::UnsupportedRemote(u)),
                },
            },
    {
        let url = match self.remote_origin_url() {
            Ok(u) => u,
            Err(e) => {
                return Err(ResolveError::Command(e));
            },
        };
        match renovate_dep_name_from_url(url.as_str()) {
            Some(d) => Ok(d),
            None => Err(ResolveError::UnsupportedRemote(url)),
        }
    }

    /// The datasource scheme resolving this repository's dependency name.
    pub fn renovate_datasource(&self) -> (r: Result<String, ResolveError>)
        ensures
            match self@.remote_url {
                None => (r matches Err(e) && e@ == ResolveErrorV::Command(Seq::<char>::empty())),
                Some(u) => if is_github_url(u) {
                    r matches Ok(s) && s@ == github_tags()
                } else {
                    (r matches Err(e) && e@ == ResolveErrorV::UnsupportedRemote(u))
                },
            },
    {
        let url = match self.remote_origin_url() {
            Ok(u) => u,
            Err(e) => {
                return Err(ResolveError::Command(e));
            },
        };
        match renovate_datasource_from_url(url.as_str()) {
            Some(d) => Ok(d),
            None => Err(ResolveError::UnsupportedRemote(url)),
        }
    }
}

/// The choice made once a floor tag is in hand: the tag one position newer
/// in the ascending listing, or the floor tag itself when it is the newest.
pub open spec fn next_or_latest_spec(f: Seq<char>, tags: Seq<Seq<char>>) -> Result<
    Seq<char>,
    ResolveErrorV,
> {
    match index_of_first(tags, f) {
        None => Err(ResolveErrorV::InconsistentTagState(f)),
        Some(i) => if i + 1 < tags.len() {
            Ok(tags[i + 1])
        } else {
            Ok(f)
        },
    }
}

/// The full resolution: the exact tag if the commit is a release point,
/// otherwise the floor tag rounded forward by [`next_or_latest_spec`]. A
/// failing floor query (no tag is reachable) propagates as a command error.
pub open spec fn resolve_tag_spec(g: GitV, c: Seq<char>) -> Result<Seq<char>, ResolveErrorV> {
    match g.exact_tag_of(c) {
        Some(t) => Ok(t),
        None => match g.floor_tag_of(c) {
            None => Err(ResolveErrorV::Command(Seq::empty())),
            Some(f) => next_or_latest_spec(f, g.tags_asc),
        },
    }
}

proof fn lemma_index_of_first_found(tags: Seq<Seq<char>>, t: Seq<char>, i: int)
    requires
        0 <= i < tags.len(),
        tags[i] == t,
        forall|j: int| 0 <= j < i ==> tags[j] != t,
    ensures
        index_of_first(tags, t) == Some(i),
    decreases i,
{
    if i > 0 {
        lemma_index_of_first_found(tags.skip(1), t, i - 1);
    }
}

proof fn lemma_index_of_first_none(tags: Seq<Seq<char>>, t: Seq<char>)
    requires
        forall|j: int| 0 <= j < tags.len() ==> tags[j] != t,
    ensures
        index_of_first(tags, t) is None,
    decreases tags.len(),
{
    if tags.len() > 0 {
        lemma_index_of_first_none(tags.skip(1), t);
    }
}

/// Given the floor tag and the full ascending tag listing, pick the next
/// newer tag, or the floor tag itself when it is the newest; fail with
/// `InconsistentTagState` when the floor tag is absent from the listing.
/// This is the decision a caller driving a real backend feeds its query
/// results through.
pub fn next_or_latest_tag(latest_tag: &str, tags: &Vec<String>) -> (r: Result<
    String,
    ResolveError,
>)
    ensures
        match r {
            Ok(t) => next_or_latest_spec(latest_tag@, tags.deep_view()) == Ok::<
                Seq<char>,
                ResolveErrorV,
            >(t@),
            Err(e) => next_or_latest_spec(latest_tag@, tags.deep_view()) == Err::<
                Seq<char>,
                ResolveErrorV,
            >(e@),
        },
{
    let n = tags.len();
    let mut i: usize = 0;
    while i < n
        invariant
            i <= n,
            n == tags@.len(),
            forall|j: int| 0 <= j < i ==> tags.deep_view()[j] != latest_tag@,
        decreases n - i,
    {
        if strutil::str_eq(tags[i].as_str(), latest_tag) {
            proof {
                lemma_index_of_first_found(tags.deep_view(), latest_tag@, i as int);
            }
            if i + 1 < n {
                return Ok(tags[i + 1].clone());
            } else {
                return Ok(latest_tag.to_owned());
            }
        }
        i = i + 1;
    }
    proof {
        lemma_index_of_first_none(tags.deep_view(), latest_tag@);
    }
    Err(ResolveError::InconsistentTagState(latest_tag.to_owned()))
}

/// The datasource identifier for GitHub-hosted origins.
pub open spec fn github_tags() -> Seq<char> {
    "github-tags"@
}

/// The recognized HTTPS origin form.
pub open spec fn https_prefix() -> Seq<char> {
    "https://github.com/"@
}

/// The recognized SSH origin form.
pub open spec fn ssh_prefix() -> Seq<char> {
    "git@github.com:"@
}

/// The optional repository suffix, stripped from derived names.
pub open spec fn git_suffix() -> Seq<char> {
    ".git"@
}

/// `s` with one trailing `.git` removed, when present.
pub open spec fn strip_git_suffix(s: Seq<char>) -> Seq<char> {
    if git_suffix().is_suffix_of(s) {
        s.take(s.len() - git_suffix().len())
    } else {
        s
    }
}

/// The `owner/repo` name derived from a recognized GitHub origin URL;
/// `None` for every other URL form.
pub open spec fn dep_name_of_url(u: Seq<char>) -> Option<Seq<char>> {
    if https_prefix().is_prefix_of(u) {
        Some(strip_git_suffix(u.skip(https_prefix().len() as int)))
    } else if ssh_prefix().is_prefix_of(u) {
        Some(strip_git_suffix(u.skip(ssh_prefix().len() as int)))
    } else {
        None
    }
}

/// The URL is a recognized GitHub origin, in either form.
pub open spec fn is_github_url(u: Seq<char>) -> bool {
    https_prefix().is_prefix_of(u) || ssh_prefix().is_prefix_of(u)
}

fn strip_git_suffix_exec(s: &str) -> (r: String)
    ensures
        r@ == strip_git_suffix(s@),
{
    proof {
        reveal_strlit(".git");
    }
    let suf = ".git";
    let slen = s.unicode_len();
    if strutil::str_ends_with(s, suf) {
        let r = strutil::substring(s, 0, slen - suf.unicode_len());
        proof {
            assert(s@.subrange(0, s@.len() - git_suffix().len()) == s@.take(
                s@.len() - git_suffix().len(),
            ));
        }
        r
    } else {
        s.to_owned()
    }
}

/// Derive the dependency name from a remote origin URL: the `owner/repo`
/// part of a recognized GitHub origin, with a trailing `.git` stripped.
pub fn renovate_dep_name_from_url(url: &str) -> (r: Option<String>)
    ensures
        match r {
            Some(d) => dep_name_of_url(url@) == Some(d@),
            None => dep_name_of_url(url@) is None,
        },
{
    let hp = "https://github.com/";
    if strutil::str_starts_with(url, hp) {
        let rest = strutil::substring(url, hp.unicode_len(), url.unicode_len());
        proof {
            assert(url@.subrange(https_prefix().len() as int, url@.len() as int) == url@.skip(
                https_prefix().len() as int,
            ));
        }
        return Some(strip_git_suffix_exec(rest.as_str()));
    }
    let sp = "git@github.com:";
    if strutil::str_starts_with(url, sp) {
        let rest = strutil::substring(url, sp.unicode_len(), url.unicode_len());
        proof {
            assert(url@.subrange(ssh_prefix().len() as int, url@.len() as int) == url@.skip(
                ssh_prefix().len() as int,
            ));
        }
        return Some(strip_git_suffix_exec(rest.as_str()));
    }
    None
}

/// Derive the datasource from a remote origin URL: the fixed identifier
/// for both recognized GitHub origin forms, and nothing otherwise.
pub fn renovate_datasource_from_url(url: &str) -> (r: Option<String>)
    ensures
        match r {
            Some(d) => is_github_url(url@) && d@ == github_tags(),
            None => !is_github_url(url@),
        },
{
    let https_form = strutil::str_starts_with(url, "https://github.com/");
    let ssh_form = strutil::str_starts_with(url, "git@github.com:");
    if https_form || ssh_form {
        Some(String::from_str("github-tags"))
    } else {
        None
    }
}

/// The prefix of full ref names in the backend's tag listing.
pub open spec fn refs_tags_prefix() -> Seq<char> {
    "refs/tags/"@
}

/// A tag name from one line of the backend's tag listing: the line with
/// one leading `refs/tags/` removed, or the line unchanged when the prefix
/// is absent.
pub open spec fn tag_of_ref_line(s: Seq<char>) -> Seq<char> {
    if refs_tags_prefix().is_prefix_of(s) {
        s.skip(refs_tags_prefix().len() as int)
    } else {
        s
    }
}

/// Turn the lines of the backend's tag listing into tag names, stripping
/// one leading `refs/tags/` from each line. Callers driving a real backend
/// feed its listing output through this before resolving.
pub fn tags_from_ref_lines(lines: &Vec<String>) -> (r: Vec<String>)
    ensures
        r@.len() == lines@.len(),
        forall|i: int|
            0 <= i < lines@.len() ==> (#[trigger] r@[i])@ == tag_of_ref_line(lines@[i]@),
{
    let p = "refs/tags/";
    proof {
        reveal_strlit("refs/tags/");
        assert(p@ =~= refs_tags_prefix());
    }
    let mut out: Vec<String> = Vec::new();
    let mut i: usize = 0;
    while i < lines.len()
        invariant
            i <= lines@.len(),
            out@.len() == i,
            p@ == refs_tags_prefix(),
            forall|j: int| 0 <= j < i ==> (#[trigger] out@[j])@ == tag_of_ref_line(lines@[j]@),
        decreases lines@.len() - i,
    {
        let s = lines[i].as_str();
        if strutil::str_starts_with(s, p) {
            let rest = strutil::substring(s, p.unicode_len(), s.unicode_len());
            proof {
                assert(p@ == refs_tags_prefix());
                assert(rest@ =~= s@.skip(refs_tags_prefix().len() as int));
                assert(rest@ == tag_of_ref_line(s@));
            }
            out.push(rest);
        } else {
            out.push(lines[i].clone());
        }
        i = i + 1;
    }
    out
}

/// Exact-tag resolution: a commit that is itself tagged resolves to that
/// tag, whatever other tags are present.
pub proof fn lemma_exact_tag_resolution(g: GitV, c: Seq<char>, t: Seq<char>)
    requires
        g.exact_tag_of(c) == Some(t),
    ensures
        resolve_tag_spec(g, c) == Ok::<Seq<char>, ResolveErrorV>(t),
{
}

/// Forward rounding: a commit lying strictly between two releases resolves
/// to the tag one newer than its floor tag in creation order.
pub proof fn lemma_forward_rounding(g: GitV, c: Seq<char>, f: Seq<char>, i: int)
    requires
        g.exact_tag_of(c) is None,
        g.floor_tag_of(c) == Some(f),
        index_of_first(g.tags_asc, f) == Some(i),
        i + 1 < g.tags_asc.len(),
    ensures
        resolve_tag_spec(g, c) == Ok::<Seq<char>, ResolveErrorV>(g.tags_asc[i + 1]),
{
}

/// Tip fallback: when the floor tag is the newest tag, the commit resolves
/// to the floor tag itself.
pub proof fn lemma_tip_fallback(g: GitV, c: Seq<char>, f: Seq<char>, i: int)
    requires
        g.exact_tag_of(c) is None,
        g.floor_tag_of(c) == Some(f),
        index_of_first(g.tags_asc, f) == Some(i),
        i + 1 == g.tags_asc.len(),
    ensures
        resolve_tag_spec(g, c) == Ok::<Seq<char>, ResolveErrorV>(f),
{
}

/// Inconsistency detection: a floor tag absent from the full ascending
/// listing makes resolution fail, and with no other error it fails with
/// `InconsistentTagState` carrying that tag.
pub proof fn lemma_inconsistent_tag_state(g: GitV, c: Seq<char>, f: Seq<char>)
    requires
        g.exact_tag_of(c) is None,
        g.floor_tag_of(c) == Some(f),
        index_of_first(g.tags_asc, f) is None,
    ensures
        resolve_tag_spec(g, c) == Err::<Seq<char>, ResolveErrorV>(
            ResolveErrorV::InconsistentTagState(f),
        ),
{
}

} // verus!
