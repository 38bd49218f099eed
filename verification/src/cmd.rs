//! The workflows: the generate action, the lock resolver, and the batch
//! reconciliation engine with its fail-fast/continue policy.
//!
//! Batch functions take the candidate repositories as in-memory sources
//! ([`Git`]) and the lock file as its lines; they return everything the
//! workflows would emit — outputs in order, per-repository failures, and
//! whether the batch aborted — instead of printing.

use crate::entry::{line_of, parse_line, Entry, EntryV};
use crate::git::{
    dep_name_of_url, github_tags, resolve_tag_spec, CommandError, Git, GitV, ResolveError,
    ResolveErrorV,
};
use crate::strutil;
use vstd::prelude::*;
use vstd::string::StrSliceExecFns;

verus! {

/// The last character of `s` adds nothing to the path it names: a trailing
/// separator, or the dot of a trailing current-directory component.
pub open spec fn trailing_noise(s: Seq<char>) -> bool {
    s.len() > 0 && (s.last() == '/' || (s.last() == '.' && (s.len() == 1 || s[s.len() - 2]
        == '/')))
}

/// `s` with every trailing separator and every trailing current-directory
/// component (a lone `.` between separators) removed, as path normalization
/// drops them when naming the final component.
pub open spec fn trim_path_end(s: Seq<char>) -> Seq<char>
    decreases s.len(),
{
    if trailing_noise(s) {
        trim_path_end(s.drop_last())
    } else {
        s
    }
}

/// Position of the last occurrence of `c` in `s`.
pub open spec fn last_index_of(s: Seq<char>, c: char) -> Option<int>
    decreases s.len(),
{
    if s.len() == 0 {
        None
    } else if s.last() == c {
        Some(s.len() - 1)
    } else {
        last_index_of(s.drop_last(), c)
    }
}

/// The base name of a directory path: the final component once trailing
/// separators and current-directory components are trimmed. `None` when
/// nothing remains or the final component is a parent-directory marker
/// rather than a name.
pub open spec fn basename_of(p: Seq<char>) -> Option<Seq<char>> {
    let t = trim_path_end(p);
    if t.len() == 0 {
        None
    } else {
        let name = match last_index_of(t, '/') {
            Some(i) => t.skip(i + 1),
            None => t,
        };
        if name == seq!['.', '.'] {
            None
        } else {
            Some(name)
        }
    }
}

/// The identifier a repository is tracked under by default: the base name
/// of its directory.
pub fn default_renovate_id(repo_root: &str) -> (r: Result<String, ResolveError>)
    ensures
        match basename_of(repo_root@) {
            Some(n) => r matches Ok(s) && s@ == n,
            None => (r matches Err(e) && e@ == ResolveErrorV::NoBasename(repo_root@)),
        },
{
    let slen: usize = repo_root.unicode_len();
    let mut end: usize = slen;
    let mut done = false;
    proof {
        assert(repo_root@.take(slen as int) =~= repo_root@);
    }
    while !done && end > 0
        invariant
            end <= slen,
            slen == repo_root@.len(),
            trim_path_end(repo_root@) == trim_path_end(repo_root@.take(end as int)),
            done ==> (end > 0 && !trailing_noise(repo_root@.take(end as int))),
        decreases end + (if done { 0int } else { 1int }),
    {
        let c = repo_root.get_char(end - 1);
        proof {
            assert(repo_root@.take(end as int).last() == repo_root@[end - 1]);
            assert(repo_root@.take(end as int).drop_last() =~= repo_root@.take(end - 1));
            if end >= 2 {
                assert(repo_root@.take(end as int)[end - 2] == repo_root@[end - 2]);
            }
        }
        let noise = c == '/' || (c == '.' && (end == 1 || repo_root.get_char(end - 2) == '/'));
        if noise {
            end = end - 1;
        } else {
            done = true;
        }
    }
    let ghost t = trim_path_end(repo_root@);
    proof {
        if end == 0 {
            assert(repo_root@.take(0) =~= Seq::<char>::empty());
            assert(t =~= repo_root@.take(end as int));
        } else {
            assert(t =~= repo_root@.take(end as int));
        }
    }
    if end == 0 {
        return Err(ResolveError::NoBasename(repo_root.to_owned()));
    }
    // scan for the last separator before `end`
    let mut j: usize = end;
    let mut found = false;
    while !found && j > 0
        invariant
            j <= end,
            end <= slen,
            slen == repo_root@.len(),
            t == repo_root@.take(end as int),
            last_index_of(t, '/') == last_index_of(repo_root@.take(j as int), '/'),
            found ==> (j > 0 && repo_root@[j - 1] == '/'),
        decreases j + (if found { 0int } else { 1int }),
    {
        let c = repo_root.get_char(j - 1);
        proof {
            assert(repo_root@.take(j as int).last() == repo_root@[j - 1]);
            assert(repo_root@.take(j as int).drop_last() =~= repo_root@.take(j - 1));
        }
        if c == '/' {
            found = true;
        } else {
            j = j - 1;
        }
    }
    let start: usize = if found {
        j
    } else {
        proof {
            assert(repo_root@.take(0) =~= Seq::<char>::empty());
        }
        0
    };
    proof {
        if found {
            assert(last_index_of(repo_root@.take(j as int), '/') == Some(j - 1));
        }
    }
    let name = strutil::substring(repo_root, start, end);
    proof {
        match last_index_of(t, '/') {
            Some(i) => {
                assert(name@ =~= t.skip(i + 1));
            },
            None => {
                assert(name@ =~= t);
            },
        }
    }
    let is_dotdot = strutil::str_eq(name.as_str(), "..");
    proof {
        reveal_strlit("..");
        assert(".."@ =~= seq!['.', '.']);
    }
    if is_dotdot {
        return Err(ResolveError::NoBasename(repo_root.to_owned()));
    }
    Ok(name)
}

/// What generating a fresh lock entry for one repository yields: the
/// resolved tag as the value, the fixed datasource, the dependency name
/// derived from the remote, and the caller's id — or the first error the
/// steps hit, in order: validity, fetch, current commit, tag resolution,
/// remote recognition.
pub open spec fn generate_spec(g: GitV, id: Seq<char>, c: Option<Seq<char>>) -> Result<
    EntryV,
    ResolveErrorV,
> {
    if !g.valid {
        Err(ResolveErrorV::NotARepository)
    } else if !g.fetch_ok {
        Err(ResolveErrorV::Command(Seq::empty()))
    } else {
        match g.current_commit {
            None => Err(ResolveErrorV::Command(Seq::empty())),
            Some(cur) => {
                let commit = match c {
                    Some(x) => x,
                    None => cur,
                };
                match resolve_tag_spec(g, commit) {
                    Err(e) => Err(e),
                    Ok(tag) => match g.remote_url {
                        None => Err(ResolveErrorV::Command(Seq::empty())),
                        Some(u) => match dep_name_of_url(u) {
                            None => Err(ResolveErrorV::UnsupportedRemote(u)),
                            Some(dep) => Ok(
                                EntryV {
                                    value: tag,
                                    datasource: github_tags(),
                                    dep_name: dep,
                                    id: id,
                                },
                            ),
                        },
                    },
                }
            },
        }
    }
}

/// Compute a fresh lock entry for one repository: resolve the tag for the
/// given commit (or the current one) and derive the dependency provenance
/// from the remote origin URL.
pub fn generate_renovate(git: &Git, renovate_id: &str, commit: Option<String>) -> (r: Result<
    Entry,
    ResolveError,
>)
    ensures
        match r {
            Ok(e) => generate_spec(git@, renovate_id@, commit.deep_view()) == Ok::<
                EntryV,
                ResolveErrorV,
            >(e@),
            Err(err) => generate_spec(git@, renovate_id@, commit.deep_view()) == Err::<
                EntryV,
                ResolveErrorV,
            >(err@),
        },
{
    if !git.is_valid() {
        return Err(ResolveError::NotARepository);
    }
    match git.fetch() {
        Ok(_) => {},
        Err(e) => {
            return Err(ResolveError::Command(e));
        },
    }
    let current_commit = match git.get_current_commit() {
        Ok(c) => c,
        Err(e) => {
            return Err(ResolveError::Command(e));
        },
    };
    let commit = match commit {
        Some(c) => c,
        None => current_commit,
    };
    let tag = match git.get_same_or_newer_or_latest_tag(commit.as_str()) {
        Ok(t) => t,
        Err(e) => {
            return Err(e);
        },
    };
    let dep_name = match git.renovate_dep_name() {
        Ok(d) => d,
        Err(e) => {
            return Err(e);
        },
    };
    let datasource = match git.renovate_datasource() {
        Ok(d) => d,
        Err(e) => {
            return Err(e);
        },
    };
    Ok(Entry::new(tag, datasource, dep_name, renovate_id.to_owned()))
}

/// How resolving one lock entry against one repository went. The resolved
/// commit is the workflow's output, emitted before any checkout; a failing
/// checkout therefore still carries the emitted commit.
#[derive(Debug)]
pub enum LockOutcome {
    /// The commit was resolved and emitted; the checkout, if requested,
    /// succeeded.
    Done(String),
    /// The commit was resolved and emitted, but the requested checkout
    /// failed.
    CheckoutFailed(String, CommandError),
    /// Resolution failed before any output.
    Failed(ResolveError),
}

/// Mathematical model of a [`LockOutcome`].
pub ghost enum LockOutcomeV {
    Done(Seq<char>),
    CheckoutFailed(Seq<char>, Seq<char>),
    Failed(ResolveErrorV),
}

impl View for LockOutcome {
    type V = LockOutcomeV;

    open spec fn view(&self) -> LockOutcomeV {
        match self {
            LockOutcome::Done(c) => LockOutcomeV::Done(c@),
            LockOutcome::CheckoutFailed(c, e) => LockOutcomeV::CheckoutFailed(c@, e@),
            LockOutcome::Failed(e) => LockOutcomeV::Failed(e@),
        }
    }
}

/// What resolving one entry against one repository yields: the commit its
/// value designates, after the validity and fetch steps; with `checkout`,
/// the working tree is also reset to that commit.
pub open spec fn lock_spec(g: GitV, e: EntryV, checkout: bool) -> LockOutcomeV {
    if !g.valid {
        LockOutcomeV::Failed(ResolveErrorV::NotARepository)
    } else if !g.fetch_ok {
        LockOutcomeV::Failed(ResolveErrorV::Command(Seq::empty()))
    } else {
        match g.commit_of_tag(e.value) {
            None => LockOutcomeV::Failed(ResolveErrorV::CommitForTag(e.value, Seq::empty())),
            Some(c) => if checkout && !g.checkout_ok {
                LockOutcomeV::CheckoutFailed(c, Seq::empty())
            } else {
                LockOutcomeV::Done(c)
            },
        }
    }
}

/// Resolve one lock entry against one repository: require validity, fetch,
/// resolve the entry's value to a commit, and optionally hard-reset the
/// working tree to it. The resolved commit is the emitted output.
pub fn lock(git: &Git, entry: &Entry, checkout: bool) -> (r: LockOutcome)
    ensures
        r@ == lock_spec(git@, entry@, checkout),
{
    if !git.is_valid() {
        return LockOutcome::Failed(ResolveError::NotARepository);
    }
    match git.fetch() {
        Ok(_) => {},
        Err(e) => {
            return LockOutcome::Failed(ResolveError::Command(e));
        },
    }
    let tag = entry.get_value();
    let commit = match git.get_commit_from_tag(tag.as_str()) {
        Ok(c) => c,
        Err(e) => {
            return LockOutcome::Failed(ResolveError::CommitForTag(tag, e));
        },
    };
    if checkout {
        match git.checkout(commit.as_str()) {
            Ok(_) => {},
            Err(e) => {
                return LockOutcome::CheckoutFailed(commit, e);
            },
        }
    }
    LockOutcome::Done(commit)
}

/// What looking up and resolving the entry for `id` in the lock-file lines
/// yields: lines are scanned in order, a malformed line fails the whole
/// lookup, the first entry carrying `id` is resolved, and a missing entry
/// is an error of its own.
pub open spec fn get_lock_spec(
    g: GitV,
    id: Seq<char>,
    lines: Seq<Seq<char>>,
    checkout: bool,
) -> LockOutcomeV
    decreases lines.len(),
{
    if lines.len() == 0 {
        LockOutcomeV::Failed(ResolveErrorV::MissingEntry(id))
    } else {
        match parse_line(lines[0]) {
            None => LockOutcomeV::Failed(ResolveErrorV::Parse(lines[0])),
            Some(e) => if e.id == id {
                lock_spec(g, e, checkout)
            } else {
                get_lock_spec(g, id, lines.skip(1), checkout)
            },
        }
    }
}

/// Resolve the lock entry recorded for `renovate_id` in the given
/// lock-file lines against one repository.
pub fn get_lock(git: &Git, renovate_id: &str, lines: &Vec<String>, checkout: bool) -> (r:
    LockOutcome)
    ensures
        r@ == get_lock_spec(git@, renovate_id@, lines.deep_view(), checkout),
{
    proof {
        assert(lines.deep_view().skip(0) =~= lines.deep_view());
    }
    let mut i: usize = 0;
    while i < lines.len()
        invariant
            i <= lines@.len(),
            get_lock_spec(git@, renovate_id@, lines.deep_view(), checkout) == get_lock_spec(
                git@,
                renovate_id@,
                lines.deep_view().skip(i as int),
                checkout,
            ),
        decreases lines@.len() - i,
    {
        proof {
            assert(lines.deep_view().skip(i as int)[0] == lines.deep_view()[i as int]);
            assert(lines.deep_view().skip(i as int).skip(1) =~= lines.deep_view().skip(i + 1));
        }
        match Entry::parse(lines[i].as_str()) {
            Err(pe) => {
                return LockOutcome::Failed(ResolveError::Parse(pe));
            },
            Ok(e) => {
                if e.has_id(renovate_id) {
                    return lock(git, &e, checkout);
                }
            },
        }
        i = i + 1;
    }
    proof {
        assert(lines.deep_view().skip(i as int) =~= Seq::<Seq<char>>::empty());
    }
    LockOutcome::Failed(ResolveError::MissingEntry(renovate_id.to_owned()))
}

/// What one batch produced: the outputs emitted so far in order, the
/// failures tolerated under continue-on-error, and the error that aborted
/// the batch under fail-fast, if any. An aborted batch keeps the outputs
/// already produced.
#[derive(Debug)]
pub struct BatchResult {
    /// Emitted lines, in processing order: serialized entries for
    /// batch-generate, resolved commits for batch-lock.
    pub outputs: Vec<String>,
    /// Failures tolerated under continue-on-error, in order.
    pub failures: Vec<ResolveError>,
    /// The error that aborted the batch under fail-fast.
    pub aborted: Option<ResolveError>,
}

/// Mathematical model of a [`BatchResult`].
#[verifier::ext_equal]
pub ghost struct BatchV {
    pub outputs: Seq<Seq<char>>,
    pub failures: Seq<ResolveErrorV>,
    pub aborted: Option<ResolveErrorV>,
}

impl View for BatchResult {
    type V = BatchV;

    open spec fn view(&self) -> BatchV {
        BatchV {
            outputs: self.outputs.deep_view(),
            failures: self.failures.deep_view(),
            aborted: self.aborted.deep_view(),
        }
    }
}

/// The batch before any repository is processed.
pub open spec fn empty_batch() -> BatchV {
    BatchV { outputs: Seq::empty(), failures: Seq::empty(), aborted: None }
}

/// Apply the failure policy: abort the batch under fail-fast, record the
/// failure and continue otherwise.
pub open spec fn fail_policy(prev: BatchV, e: ResolveErrorV, fail_fast: bool) -> BatchV {
    if fail_fast {
        BatchV { outputs: prev.outputs, failures: prev.failures, aborted: Some(e) }
    } else {
        BatchV { outputs: prev.outputs, failures: prev.failures.push(e), aborted: None }
    }
}

/// What generating one discovered repository emits: the serialized entry
/// for its derived id, or the error that stopped it.
pub open spec fn gen_one(g: GitV) -> Result<Seq<char>, ResolveErrorV> {
    match basename_of(g.dir) {
        None => Err(ResolveErrorV::NoBasename(g.dir)),
        Some(id) => match generate_spec(g, id, None) {
            Ok(e) => Ok(line_of(e)),
            Err(err) => Err(err),
        },
    }
}

/// The batch-generate result over the candidate repositories, in order:
/// candidates failing discovery are excluded, each discovered repository
/// contributes its entry line or a failure under the policy, and an abort
/// stops all further processing while keeping earlier outputs.
pub open spec fn batch_gen_spec(repos: Seq<GitV>, fail_fast: bool) -> BatchV
    decreases repos.len(),
{
    if repos.len() == 0 {
        empty_batch()
    } else {
        let prev = batch_gen_spec(repos.drop_last(), fail_fast);
        let g = repos.last();
        if prev.aborted is Some || !g.discovered() {
            prev
        } else {
            match gen_one(g) {
                Ok(out) => BatchV {
                    outputs: prev.outputs.push(out),
                    failures: prev.failures,
                    aborted: None,
                },
                Err(e) => fail_policy(prev, e, fail_fast),
            }
        }
    }
}

proof fn lemma_vec_dv_push<T: DeepView>(pre: Vec<T>, post: Vec<T>, x: T)
    requires
        post@ == pre@.push(x),
    ensures
        post.deep_view() == pre.deep_view().push(x.deep_view()),
{
    assert(post.deep_view() =~= pre.deep_view().push(x.deep_view()));
}

proof fn lemma_take_step<T>(s: Seq<T>, i: int)
    requires
        0 <= i < s.len(),
    ensures
        s.take(i + 1).drop_last() =~= s.take(i),
        s.take(i + 1).last() == s[i],
{
}

/// Record a failure under the batch policy: under fail-fast the batch is
/// marked aborted with this error; otherwise the error joins the tolerated
/// failures.
fn apply_failure(
    failures: &mut Vec<ResolveError>,
    aborted: &mut Option<ResolveError>,
    e: ResolveError,
    fail_fast: bool,
)
    requires
        *old(aborted) is None,
    ensures
        fail_fast ==> *final(failures) == *old(failures) && final(aborted).deep_view() == Some(e@),
        !fail_fast ==> final(failures).deep_view() == old(failures).deep_view().push(e@)
            && *final(aborted) is None,
{
    let ghost xe = e;
    if fail_fast {
        *aborted = Some(e);
    } else {
        let ghost pre = *failures;
        failures.push(e);
        proof {
            lemma_vec_dv_push(pre, *failures, xe);
        }
    }
}

/// Run the generate action over every candidate repository that passes
/// discovery, under the failure policy. Outputs are the serialized entries
/// in processing order; an abort keeps the outputs already produced.
pub fn batch_generate_renovate_settings(candidates: &Vec<Git>, fail_fast: bool) -> (r: BatchResult)
    ensures
        r@ == batch_gen_spec(candidates.deep_view(), fail_fast),
{
    let ghost dv = candidates.deep_view();
    let mut outputs: Vec<String> = Vec::new();
    let mut failures: Vec<ResolveError> = Vec::new();
    let mut aborted: Option<ResolveError> = None;
    proof {
        assert(dv.take(0) =~= Seq::<GitV>::empty());
        assert(outputs.deep_view() =~= Seq::<Seq<char>>::empty());
        assert(failures.deep_view() =~= Seq::<ResolveErrorV>::empty());
    }
    let mut i: usize = 0;
    while i < candidates.len()
        invariant
            i <= candidates@.len(),
            dv == candidates.deep_view(),
            dv.len() == candidates@.len(),
            outputs.deep_view() == batch_gen_spec(dv.take(i as int), fail_fast).outputs,
            failures.deep_view() == batch_gen_spec(dv.take(i as int), fail_fast).failures,
            aborted.deep_view() == batch_gen_spec(dv.take(i as int), fail_fast).aborted,
        decreases candidates@.len() - i,
    {
        proof {
            lemma_take_step(dv, i as int);
            assert(dv[i as int] == candidates@[i as int]@);
        }
        if aborted.is_none() {
            let git = &candidates[i];
            if git.is_valid() && git.is_toplevel_dir() {
                match default_renovate_id(git.dir.as_str()) {
                    Err(e) => apply_failure(&mut failures, &mut aborted, e, fail_fast),
                    Ok(id) => match generate_renovate(git, id.as_str(), None) {
                        Ok(entry) => {
                            let line = entry.serialize();
                            let ghost pre = outputs;
                            outputs.push(line);
                            proof {
                                lemma_vec_dv_push(pre, outputs, line);
                            }
                        },
                        Err(e) => apply_failure(&mut failures, &mut aborted, e, fail_fast),
                    },
                }
            }
        }
        i = i + 1;
    }
    proof {
        assert(dv.take(candidates@.len() as int) =~= dv);
    }
    BatchResult { outputs, failures, aborted }
}

proof fn lemma_append_push(a: Seq<ResolveErrorV>, b: Seq<ResolveErrorV>, x: ResolveErrorV)
    ensures
        a + b.push(x) == (a + b).push(x),
{
    assert(a + b.push(x) =~= (a + b).push(x));
}

/// The entry recorded for `id`: the later of two lines with the same id
/// wins, so the scan runs from the back.
pub open spec fn lookup_entry(entries: Seq<EntryV>, id: Seq<char>) -> Option<EntryV>
    decreases entries.len(),
{
    if entries.len() == 0 {
        None
    } else if entries.last().id == id {
        Some(entries.last())
    } else {
        lookup_entry(entries.drop_last(), id)
    }
}

/// Duplicate id override: when position `i` holds the last line carrying
/// `id`, the lookup resolves to that line's entry — a lock file recording
/// an id twice resolves to the later occurrence.
pub proof fn lemma_duplicate_id_override(entries: Seq<EntryV>, id: Seq<char>, i: int)
    requires
        0 <= i < entries.len(),
        entries[i].id == id,
        forall|j: int| i < j < entries.len() ==> entries[j].id != id,
    ensures
        lookup_entry(entries, id) == Some(entries[i]),
    decreases entries.len(),
{
    if i + 1 < entries.len() {
        assert(entries.drop_last()[i] == entries[i]);
        lemma_duplicate_id_override(entries.drop_last(), id, i);
    }
}

/// The entry recorded for `id` among the parsed lines, later lines
/// overriding earlier ones with the same id.
pub fn find_entry<'a>(entries: &'a Vec<Entry>, id: &str) -> (r: Option<&'a Entry>)
    ensures
        match r {
            Some(e) => lookup_entry(entries.deep_view(), id@) == Some(e@),
            None => lookup_entry(entries.deep_view(), id@) is None,
        },
{
    let ghost dv = entries.deep_view();
    let mut k: usize = entries.len();
    proof {
        assert(dv.take(entries@.len() as int) =~= dv);
    }
    while k > 0
        invariant
            k <= entries@.len(),
            dv == entries.deep_view(),
            dv.len() == entries@.len(),
            lookup_entry(dv, id@) == lookup_entry(dv.take(k as int), id@),
        decreases k,
    {
        proof {
            lemma_take_step(dv, k - 1);
        }
        if entries[k - 1].has_id(id) {
            return Some(&entries[k - 1]);
        }
        k = k - 1;
    }
    proof {
        assert(dv.take(0) =~= Seq::<EntryV>::empty());
    }
    None
}

/// Mathematical model of the lock-file parse stage.
#[verifier::ext_equal]
pub ghost struct ParsedV {
    pub entries: Seq<EntryV>,
    pub failures: Seq<ResolveErrorV>,
    pub aborted: Option<ResolveErrorV>,
}

/// The parse stage over the lock-file lines, in order: a well-formed line
/// adds its entry; a malformed one aborts the batch under fail-fast and is
/// recorded and skipped otherwise.
pub open spec fn parse_lines_spec(lines: Seq<Seq<char>>, fail_fast: bool) -> ParsedV
    decreases lines.len(),
{
    if lines.len() == 0 {
        ParsedV { entries: Seq::empty(), failures: Seq::empty(), aborted: None }
    } else {
        let prev = parse_lines_spec(lines.drop_last(), fail_fast);
        if prev.aborted is Some {
            prev
        } else {
            match parse_line(lines.last()) {
                Some(e) => ParsedV {
                    entries: prev.entries.push(e),
                    failures: prev.failures,
                    aborted: None,
                },
                None => if fail_fast {
                    ParsedV {
                        entries: prev.entries,
                        failures: prev.failures,
                        aborted: Some(ResolveErrorV::Parse(lines.last())),
                    }
                } else {
                    ParsedV {
                        entries: prev.entries,
                        failures: prev.failures.push(ResolveErrorV::Parse(lines.last())),
                        aborted: None,
                    }
                },
            }
        }
    }
}

/// Duplicate id override across the whole parse stage: when line `j` is the
/// last lock-file line whose entry carries `id`, and parsing did not abort,
/// the lookup that batch resolution applies per directory resolves `id` to
/// line `j`'s entry — the later of two lines recording the same id wins.
pub proof fn lemma_last_line_wins(lines: Seq<Seq<char>>, fail_fast: bool, id: Seq<char>, j: int)
    requires
        0 <= j < lines.len(),
        parse_line(lines[j]) matches Some(e) && e.id == id,
        forall|k: int|
            j < k < lines.len() ==> !((#[trigger] parse_line(lines[k])) matches Some(e) && e.id
                == id),
        parse_lines_spec(lines, fail_fast).aborted is None,
    ensures
        lookup_entry(parse_lines_spec(lines, fail_fast).entries, id) == Some(
            parse_line(lines[j])->Some_0,
        ),
    decreases lines.len(),
{
    let prev = parse_lines_spec(lines.drop_last(), fail_fast);
    // once the stage aborts it stays aborted, so the prefix did not abort
    assert(prev.aborted is None);
    if j == lines.len() - 1 {
        let e = parse_line(lines[j])->Some_0;
        assert(parse_lines_spec(lines, fail_fast).entries == prev.entries.push(e));
    } else {
        assert(lines.drop_last()[j] == lines[j]);
        assert(forall|k: int|
            j < k < lines.drop_last().len() ==> !((#[trigger] parse_line(
                lines.drop_last()[k],
            )) matches Some(e) && e.id == id));
        lemma_last_line_wins(lines.drop_last(), fail_fast, id, j);
        match parse_line(lines.last()) {
            Some(e2) => {
                // the last line's entry carries another id, so the lookup
                // from the back falls through to the prefix
                assert(!(parse_line(lines[lines.len() - 1]) matches Some(e) && e.id == id));
                assert(e2.id != id);
                assert(prev.entries.push(e2).drop_last() =~= prev.entries);
            },
            None => {
                assert(!fail_fast);
            },
        }
    }
}

/// The resolve stage of batch-lock over the candidate repositories, in
/// order: candidates failing discovery are excluded; a discovered
/// repository whose derived id has no entry is skipped without output or
/// failure; otherwise its entry is resolved, the commit is emitted, and
/// failures follow the policy. An abort stops all further processing while
/// keeping earlier outputs.
pub open spec fn batch_lock_resolve_spec(
    repos: Seq<GitV>,
    entries: Seq<EntryV>,
    fail_fast: bool,
    checkout: bool,
) -> BatchV
    decreases repos.len(),
{
    if repos.len() == 0 {
        empty_batch()
    } else {
        let prev = batch_lock_resolve_spec(repos.drop_last(), entries, fail_fast, checkout);
        let g = repos.last();
        if prev.aborted is Some || !g.discovered() {
            prev
        } else {
            match basename_of(g.dir) {
                None => fail_policy(prev, ResolveErrorV::NoBasename(g.dir), fail_fast),
                Some(id) => match lookup_entry(entries, id) {
                    None => prev,
                    Some(e) => match lock_spec(g, e, checkout) {
                        LockOutcomeV::Done(c) => BatchV {
                            outputs: prev.outputs.push(c),
                            failures: prev.failures,
                            aborted: None,
                        },
                        LockOutcomeV::CheckoutFailed(c, m) => fail_policy(
                            BatchV {
                                outputs: prev.outputs.push(c),
                                failures: prev.failures,
                                aborted: None,
                            },
                            ResolveErrorV::Command(m),
                            fail_fast,
                        ),
                        LockOutcomeV::Failed(err) => fail_policy(prev, err, fail_fast),
                    },
                },
            }
        }
    }
}

/// Lock lookup miss: a discovered repository whose derived id has no lock
/// entry contributes nothing to the batch — no output and no failure.
pub proof fn lemma_lock_lookup_miss(
    repos: Seq<GitV>,
    entries: Seq<EntryV>,
    fail_fast: bool,
    checkout: bool,
)
    requires
        repos.len() > 0,
        basename_of(repos.last().dir) matches Some(id) && lookup_entry(entries, id) is None,
    ensures
        batch_lock_resolve_spec(repos, entries, fail_fast, checkout) == batch_lock_resolve_spec(
            repos.drop_last(),
            entries,
            fail_fast,
            checkout,
        ),
{
}

/// The whole batch-lock run: parse the lock file, then resolve every
/// discovered repository's entry. An abort while parsing yields no output;
/// otherwise parse-stage failures precede resolve-stage failures.
pub open spec fn batch_lock_spec(
    repos: Seq<GitV>,
    lines: Seq<Seq<char>>,
    fail_fast: bool,
    checkout: bool,
) -> BatchV {
    let p = parse_lines_spec(lines, fail_fast);
    if p.aborted is Some {
        BatchV { outputs: Seq::empty(), failures: p.failures, aborted: p.aborted }
    } else {
        let r = batch_lock_resolve_spec(repos, p.entries, fail_fast, checkout);
        BatchV { outputs: r.outputs, failures: p.failures + r.failures, aborted: r.aborted }
    }
}

/// Resolve the lock entries of every candidate repository that passes
/// discovery, under the failure policy: parse the lock-file lines into the
/// recorded entries (later lines override earlier ones with the same id),
/// then resolve and emit one commit per repository with an entry.
pub fn batch_get_lock(
    candidates: &Vec<Git>,
    lines: &Vec<String>,
    fail_fast: bool,
    checkout: bool,
) -> (r: BatchResult)
    ensures
        r@ == batch_lock_spec(candidates.deep_view(), lines.deep_view(), fail_fast, checkout),
{
    let ghost ldv = lines.deep_view();
    let mut entries: Vec<Entry> = Vec::new();
    let mut failures: Vec<ResolveError> = Vec::new();
    let mut aborted: Option<ResolveError> = None;
    proof {
        assert(ldv.take(0) =~= Seq::<Seq<char>>::empty());
        assert(entries.deep_view() =~= Seq::<EntryV>::empty());
        assert(failures.deep_view() =~= Seq::<ResolveErrorV>::empty());
    }
    let mut i: usize = 0;
    while i < lines.len()
        invariant
            i <= lines@.len(),
            ldv == lines.deep_view(),
            ldv.len() == lines@.len(),
            entries.deep_view() == parse_lines_spec(ldv.take(i as int), fail_fast).entries,
            failures.deep_view() == parse_lines_spec(ldv.take(i as int), fail_fast).failures,
            aborted.deep_view() == parse_lines_spec(ldv.take(i as int), fail_fast).aborted,
        decreases lines@.len() - i,
    {
        proof {
            lemma_take_step(ldv, i as int);
            assert(ldv[i as int] == lines@[i as int]@);
        }
        if aborted.is_none() {
            match Entry::parse(lines[i].as_str()) {
                Ok(e) => {
                    let ghost pre = entries;
                    entries.push(e);
                    proof {
                        lemma_vec_dv_push(pre, entries, e);
                    }
                },
                Err(pe) => apply_failure(
                    &mut failures,
                    &mut aborted,
                    ResolveError::Parse(pe),
                    fail_fast,
                ),
            }
        }
        i = i + 1;
    }
    proof {
        assert(ldv.take(lines@.len() as int) =~= ldv);
    }
    if aborted.is_some() {
        return BatchResult { outputs: Vec::new(), failures, aborted };
    }
    let ghost edv = entries.deep_view();
    let ghost parse_failures = failures.deep_view();
    let ghost dv = candidates.deep_view();
    let mut outputs: Vec<String> = Vec::new();
    proof {
        assert(dv.take(0) =~= Seq::<GitV>::empty());
        assert(outputs.deep_view() =~= Seq::<Seq<char>>::empty());
        assert(parse_failures + Seq::<ResolveErrorV>::empty() =~= parse_failures);
    }
    let mut k: usize = 0;
    while k < candidates.len()
        invariant
            k <= candidates@.len(),
            dv == candidates.deep_view(),
            dv.len() == candidates@.len(),
            edv == entries.deep_view(),
            outputs.deep_view() == batch_lock_resolve_spec(
                dv.take(k as int),
                edv,
                fail_fast,
                checkout,
            ).outputs,
            failures.deep_view() == parse_failures + batch_lock_resolve_spec(
                dv.take(k as int),
                edv,
                fail_fast,
                checkout,
            ).failures,
            aborted.deep_view() == batch_lock_resolve_spec(
                dv.take(k as int),
                edv,
                fail_fast,
                checkout,
            ).aborted,
        decreases candidates@.len() - k,
    {
        proof {
            lemma_take_step(dv, k as int);
            assert(dv[k as int] == candidates@[k as int]@);
        }
        if aborted.is_none() {
            let git = &candidates[k];
            if git.is_valid() && git.is_toplevel_dir() {
                match default_renovate_id(git.dir.as_str()) {
                    Err(e) => {
                        let ghost ev = e@;
                        apply_failure(&mut failures, &mut aborted, e, fail_fast);
                        proof {
                            if !fail_fast {
                                lemma_append_push(
                                    parse_failures,
                                    batch_lock_resolve_spec(dv.take(k as int), edv, fail_fast, checkout).failures,
                                    ev,
                                );
                            }
                        }
                    },
                    Ok(id) => {
                        match find_entry(&entries, id.as_str()) {
                            None => {},
                            Some(entry) => {
                                match lock(git, entry, checkout) {
                                    LockOutcome::Done(c) => {
                                        let ghost pre = outputs;
                                        let ghost cv = c;
                                        outputs.push(c);
                                        proof {
                                            lemma_vec_dv_push(pre, outputs, cv);
                                        }
                                    },
                                    LockOutcome::CheckoutFailed(c, m) => {
                                        let ghost pre = outputs;
                                        let ghost cv = c;
                                        outputs.push(c);
                                        proof {
                                            lemma_vec_dv_push(pre, outputs, cv);
                                        }
                                        let ghost ev = ResolveError::Command(m)@;
                                        apply_failure(
                                            &mut failures,
                                            &mut aborted,
                                            ResolveError::Command(m),
                                            fail_fast,
                                        );
                                        proof {
                                            if !fail_fast {
                                                lemma_append_push(
                                    parse_failures,
                                    batch_lock_resolve_spec(dv.take(k as int), edv, fail_fast, checkout).failures,
                                    ev,
                                );
                                            }
                                        }
                                    },
                                    LockOutcome::Failed(err) => {
                                        let ghost ev = err@;
                                        apply_failure(&mut failures, &mut aborted, err, fail_fast);
                                        proof {
                                            if !fail_fast {
                                                lemma_append_push(
                                    parse_failures,
                                    batch_lock_resolve_spec(dv.take(k as int), edv, fail_fast, checkout).failures,
                                    ev,
                                );
                                            }
                                        }
                                    },
                                }
                            },
                        }
                    },
                }
            }
        }
        k = k + 1;
    }
    proof {
        assert(dv.take(candidates@.len() as int) =~= dv);
    }
    BatchResult { outputs, failures, aborted }
}

/// The candidate positions that pass discovery: valid repositories that
/// are the top level of their own working copy, in the order given.
pub fn read_git_dirs(candidates: &Vec<Git>) -> (r: Vec<usize>)
    ensures
        forall|a: int, b: int| 0 <= a < b < r@.len() ==> r@[a] < r@[b],
        forall|a: int|
            0 <= a < r@.len() ==> (#[trigger] r@[a]) < candidates@.len()
                && candidates@[r@[a] as int]@.discovered(),
        forall|j: int|
            0 <= j < candidates@.len() && (#[trigger] candidates@[j]@.discovered())
                ==> exists|a: int| 0 <= a < r@.len() && r@[a] == j,
{
    let mut r: Vec<usize> = Vec::new();
    let mut i: usize = 0;
    while i < candidates.len()
        invariant
            i <= candidates@.len(),
            forall|a: int, b: int| 0 <= a < b < r@.len() ==> r@[a] < r@[b],
            forall|a: int|
                0 <= a < r@.len() ==> (#[trigger] r@[a]) < i
                    && candidates@[r@[a] as int]@.discovered(),
            forall|j: int|
                0 <= j < i && (#[trigger] candidates@[j]@.discovered())
                    ==> exists|a: int| 0 <= a < r@.len() && r@[a] == j,
        decreases candidates@.len() - i,
    {
        let git = &candidates[i];
        if git.is_valid() && git.is_toplevel_dir() {
            let ghost pre = r@;
            r.push(i);
            proof {
                assert forall|j: int|
                    0 <= j < i + 1 && (#[trigger] candidates@[j]@.discovered())
                        implies exists|a: int| 0 <= a < r@.len() && r@[a] == j by {
                    if j < i {
                        let a = choose|a: int| 0 <= a < pre.len() && pre[a] == j;
                        assert(r@[a] == j);
                    } else {
                        assert(r@[r@.len() - 1] == j);
                    }
                }
            }
        }
        i = i + 1;
    }
    r
}

} // verus!
