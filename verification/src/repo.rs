//! The repository descriptor and its bootstrap/discovery protocol. A `Repo`
//! bundles a worktree path, the parsed configuration, and the three object
//! tables. `create` plans the on-disk layout of a fresh repository, `load`
//! gates an existing one on its format version, and `find` resolves the
//! nearest enclosing repository from probe results gathered on the way up to
//! the filesystem root. All filesystem reads and writes happen at the edge:
//! these functions exchange plain values with it.

use vstd::prelude::*;

use crate::config::{version_ok, Config};
use crate::object::{Blob, Commit, Tree};
use crate::path::RPath;
use crate::store::Store;
use crate::Error;

verus! {

/// The three object tables, one per object kind.
#[derive(Debug)]
pub struct Db {
    pub blobs: Store<Blob>,
    pub commits: Store<Commit>,
    pub trees: Store<Tree>,
}

impl Db {
    /// Three empty tables.
    pub fn empty() -> (r: Db)
        ensures
            r.blobs@ == Map::<Seq<char>, Blob>::empty(),
            r.commits@ == Map::<Seq<char>, Commit>::empty(),
            r.trees@ == Map::<Seq<char>, Tree>::empty(),
    {
        Db { blobs: Store::new(), commits: Store::new(), trees: Store::new() }
    }
}

/// What a probe of a candidate control directory found on disk.
#[derive(Clone, Copy, Debug, PartialEq, Eq, Structural)]
pub enum ControlProbe {
    /// Nothing exists under that name.
    Missing,
    /// A directory exists there.
    IsDir,
    /// Something exists there but it is not a directory.
    IsOther,
}

/// One file the create plan asks the caller to write.
#[derive(Debug)]
pub struct PlanFile {
    pub path: RPath,
    pub contents: String,
}

/// The mathematical value of a `PlanFile`.
pub ghost struct PlanFileView {
    pub path: Seq<Seq<char>>,
    pub contents: Seq<char>,
}

impl View for PlanFile {
    type V = PlanFileView;

    open spec fn view(&self) -> PlanFileView {
        PlanFileView { path: self.path@, contents: self.contents@ }
    }
}

impl DeepView for PlanFile {
    type V = PlanFileView;

    open spec fn deep_view(&self) -> PlanFileView {
        self.view()
    }
}

/// The filesystem actions that realise a fresh repository: directories to
/// create (in order, tolerating ones that already exist), then files to
/// write (in order; the configuration file comes last, so an interrupted
/// create leaves no repository that `load` would accept).
#[derive(Debug)]
pub struct CreatePlan {
    pub dirs: Vec<RPath>,
    pub files: Vec<PlanFile>,
}

/// The directories a fresh repository needs under the worktree `w`: the
/// control directory itself, branch metadata, ref namespaces, and the table
/// directory.
pub open spec fn spec_create_dirs(w: Seq<Seq<char>>) -> Seq<Seq<Seq<char>>> {
    let g = w.push(".grist"@);
    seq![
        g,
        g.push("branches"@),
        g.push("refs"@).push("tags"@),
        g.push("refs"@).push("heads"@),
        g.push("db"@),
    ]
}

/// The text of a fresh repository's configuration file.
pub open spec fn spec_config_file_text() -> Seq<char> {
    "[core]\nrepositoryformatversion=0\nfilemode=false\nbare=false\n"@
}

/// The files a fresh repository needs under the worktree `w`: placeholders,
/// the head reference, empty object tables, and last the configuration file.
pub open spec fn spec_create_files(w: Seq<Seq<char>>) -> Seq<PlanFileView> {
    let g = w.push(".grist"@);
    seq![
        PlanFileView {
            path: g.push("description"@),
            contents: "unnamed repo: edit this file to name the repo"@,
        },
        PlanFileView { path: g.push("HEAD"@), contents: "ref: refs/heads/master\n"@ },
        PlanFileView { path: g.push("db"@).push("blobs.json"@), contents: "{}"@ },
        PlanFileView { path: g.push("db"@).push("commits.json"@), contents: "{}"@ },
        PlanFileView { path: g.push("db"@).push("trees.json"@), contents: "{}"@ },
        PlanFileView { path: g.push("config.yaml"@), contents: spec_config_file_text() },
    ]
}

/// The baseline configuration a fresh repository is given: the supported
/// format version, file-mode tracking off, non-bare.
pub open spec fn spec_default_config() -> Map<(Seq<char>, Seq<char>), Option<Seq<char>>> {
    Map::empty().insert(("core"@, "repositoryformatversion"@), Some("0"@)).insert(
        ("core"@, "filemode"@),
        Some("false"@),
    ).insert(("core"@, "bare"@), Some("false"@))
}

/// The position of the deepest set flag: with `flags[k]` saying whether the
/// prefix of `k` segments of a start path has a control directory, this is
/// the root of the repository an upward search finds.
pub open spec fn find_hit(flags: Seq<bool>) -> Option<int>
    decreases flags.len(),
{
    if flags.len() == 0 {
        None
    } else if flags.last() {
        Some(flags.len() - 1)
    } else {
        find_hit(flags.drop_last())
    }
}

/// What `find_hit` returns: the deepest set flag, or `None` exactly when no
/// flag is set.
pub proof fn lemma_find_hit(flags: Seq<bool>)
    ensures
        match find_hit(flags) {
            Some(i) => 0 <= i < flags.len() && flags[i] && forall|j: int|
                i < j < flags.len() ==> !flags[j],
            None => forall|j: int| 0 <= j < flags.len() ==> !flags[j],
        },
    decreases flags.len(),
{
    if flags.len() > 0 && !flags.last() {
        lemma_find_hit(flags.drop_last());
        let d = flags.drop_last();
        match find_hit(d) {
            Some(i) => {
                assert(flags[i] == d[i]);
                assert forall|j: int| i < j < flags.len() implies !flags[j] by {
                    if j < flags.len() - 1 {
                        assert(flags[j] == d[j]);
                    } else {
                        assert(!flags.last());
                    }
                }
            },
            None => {
                assert forall|j: int| 0 <= j < flags.len() implies !flags[j] by {
                    if j < flags.len() - 1 {
                        assert(flags[j] == d[j]);
                    } else {
                        assert(!flags.last());
                    }
                }
            },
        }
    }
}

/// Discovery is a function of its inputs: two searches over the same probe
/// results resolve to the same repository root.
pub proof fn lemma_find_idempotent(flags: Seq<bool>, r1: Option<int>, r2: Option<int>)
    requires
        r1 == find_hit(flags),
        r2 == find_hit(flags),
    ensures
        r1 == r2,
{
}

/// Discovery is stable under descent: probing upward from any descendant of
/// a start path, when none of the added path levels has a control directory
/// of its own, hits the same repository root.
pub proof fn lemma_find_descendant(
    start: Seq<Seq<char>>,
    flags: Seq<bool>,
    ext_segs: Seq<Seq<char>>,
    ext_flags: Seq<bool>,
)
    requires
        flags.len() == start.len() + 1,
        ext_flags.len() == ext_segs.len(),
        forall|j: int| 0 <= j < ext_flags.len() ==> !ext_flags[j],
    ensures
        find_hit(flags + ext_flags) == find_hit(flags),
        find_hit(flags) matches Some(i) ==> (start + ext_segs).take(i) == start.take(i),
    decreases ext_flags.len(),
{
    if ext_flags.len() == 0 {
        assert(flags + ext_flags =~= flags);
    } else {
        lemma_find_descendant(start, flags, ext_segs.drop_last(), ext_flags.drop_last());
        assert((flags + ext_flags).drop_last() =~= flags + ext_flags.drop_last());
        assert(!(flags + ext_flags).last());
    }
    lemma_find_hit(flags);
    match find_hit(flags) {
        Some(i) => {
            assert((start + ext_segs).take(i) =~= start.take(i));
        },
        None => {},
    }
}

/// The repository descriptor: a worktree, its parsed configuration, and the
/// three object tables it exclusively owns.
#[derive(Debug)]
pub struct Repo {
    pub worktree: RPath,
    pub config: Config,
    pub db: Db,
}

impl Repo {
    /// Assembles a descriptor from its parts; an absent configuration means
    /// an empty one. No gate is applied here.
    pub fn new(worktree: RPath, config: Option<Config>, db: Db) -> (r: Repo)
        ensures
            r.worktree@ == worktree@,
            r.db == db,
            match config {
                Some(c) => r.config == c,
                None => r.config@ == Map::<(Seq<char>, Seq<char>), Option<Seq<char>>>::empty(),
            },
    {
        let config = match config {
            Some(c) => c,
            None => Config::new(),
        };
        Repo { worktree, config, db }
    }

    /// Opens an existing repository from what the caller found on disk:
    /// fails with `NotARepository` unless the control path is a directory,
    /// with `ConfigNotFound` when no configuration file was there, and with
    /// `UnsupportedVersion` unless the stored format version is exactly the
    /// supported one; otherwise the descriptor is assembled unchanged.
    pub fn load(worktree: RPath, probe: ControlProbe, config: Option<Config>, db: Db) -> (r: Result<
        Repo,
        Error,
    >)
        ensures
            (r is Ok) <==> (probe is IsDir && (match config {
                Some(c) => version_ok(c),
                None => false,
            })),
            r matches Ok(repo) ==> repo.worktree@ == worktree@ && Some(repo.config) == config
                && repo.db == db,
            !(probe is IsDir) ==> r == Err::<Repo, Error>(Error::NotARepository),
            probe is IsDir && config is None ==> r == Err::<Repo, Error>(Error::ConfigNotFound),
            probe is IsDir ==> (match config {
                Some(c) => !version_ok(c) ==> r == Err::<Repo, Error>(Error::UnsupportedVersion),
                None => true,
            }),
    {
        match probe {
            ControlProbe::IsDir => {},
            _ => {
                return Err(Error::NotARepository);
            },
        }
        let config = match config {
            Some(c) => c,
            None => {
                return Err(Error::ConfigNotFound);
            },
        };
        if !config.version_supported() {
            return Err(Error::UnsupportedVersion);
        }
        Ok(Repo { worktree, config, db })
    }

    /// Plans a new repository at `worktree`: fails with `NotADirectory` when
    /// something that is not a directory already sits where the control
    /// directory belongs; otherwise returns the descriptor (baseline
    /// configuration, empty tables) and the filesystem actions that realise
    /// it on disk.
    pub fn create(worktree: RPath, probe: ControlProbe) -> (r: Result<(Repo, CreatePlan), Error>)
        ensures
            (r is Ok) <==> !(probe is IsOther),
            probe is IsOther ==> r == Err::<(Repo, CreatePlan), Error>(Error::NotADirectory),
            r matches Ok((repo, plan)) ==> repo.worktree@ == worktree@ && repo.config@
                == spec_default_config() && version_ok(repo.config) && repo.db.blobs@ == Map::<
                Seq<char>,
                Blob,
            >::empty() && repo.db.commits@ == Map::<Seq<char>, Commit>::empty() && repo.db.trees@
                == Map::<Seq<char>, Tree>::empty() && plan.dirs.deep_view() == spec_create_dirs(
                worktree@,
            ) && plan.files.deep_view() == spec_create_files(worktree@),
    {
        match probe {
            ControlProbe::IsOther => {
                return Err(Error::NotADirectory);
            },
            _ => {},
        }
        let gristpath = worktree.join(".grist");
        let refs = gristpath.join("refs");
        let dbdir = gristpath.join("db");

        let mut dirs: Vec<RPath> = Vec::new();
        dirs.push(gristpath.duplicate());
        dirs.push(gristpath.join("branches"));
        dirs.push(refs.join("tags"));
        dirs.push(refs.join("heads"));
        dirs.push(dbdir.duplicate());

        let mut files: Vec<PlanFile> = Vec::new();
        files.push(
            PlanFile {
                path: gristpath.join("description"),
                contents: "unnamed repo: edit this file to name the repo".to_owned(),
            },
        );
        files.push(
            PlanFile { path: gristpath.join("HEAD"), contents: "ref: refs/heads/master\n".to_owned() },
        );
        files.push(PlanFile { path: dbdir.join("blobs.json"), contents: "{}".to_owned() });
        files.push(PlanFile { path: dbdir.join("commits.json"), contents: "{}".to_owned() });
        files.push(PlanFile { path: dbdir.join("trees.json"), contents: "{}".to_owned() });
        files.push(
            PlanFile {
                path: gristpath.join("config.yaml"),
                contents: "[core]\nrepositoryformatversion=0\nfilemode=false\nbare=false\n".to_owned(),
            },
        );

        let plan = CreatePlan { dirs, files };
        proof {
            assert(plan.dirs.deep_view() =~= spec_create_dirs(worktree@));
            assert(plan.files.deep_view() =~= spec_create_files(worktree@));
        }
        let repo = Repo { worktree, config: Self::default_config(), db: Db::empty() };
        Ok((repo, plan))
    }

    /// Resolves the nearest enclosing repository. `has_control[k]` reports
    /// whether the path made of the first `k` segments of `start` contains a
    /// control directory; the caller gathers those probes on the way up. The
    /// result is the deepest such prefix, or `NotARepository` exactly when no
    /// enclosing path has one — the search never runs past the filesystem
    /// root. Pure in its inputs: probing again from the same path finds the
    /// same repository.
    pub fn find(start: &RPath, has_control: &Vec<bool>) -> (r: Result<RPath, Error>)
        requires
            has_control@.len() == start@.len() + 1,
        ensures
            (r is Ok) <==> find_hit(has_control@) is Some,
            r matches Ok(p) ==> find_hit(has_control@) matches Some(i) && p@ == start@.take(i),
            r matches Err(e) ==> e == Error::NotARepository && forall|j: int|
                0 <= j < has_control@.len() ==> !has_control@[j],
    {
        proof {
            lemma_find_hit(has_control@);
        }
        let mut k: usize = has_control.len();
        while k > 0
            invariant
                has_control@.len() == start@.len() + 1,
                0 <= k <= has_control@.len(),
                forall|j: int| k <= j < has_control@.len() ==> !has_control@[j],
            decreases k,
        {
            if has_control[k - 1] {
                proof {
                    lemma_find_hit(has_control@);
                    match find_hit(has_control@) {
                        Some(i) => {
                            assert(i == k - 1);
                        },
                        None => {
                            assert(false);
                        },
                    }
                }
                return Ok(start.prefix(k - 1));
            }
            k = k - 1;
        }
        proof {
            lemma_find_hit(has_control@);
            match find_hit(has_control@) {
                Some(i) => {
                    assert(!has_control@[i]);
                    assert(false);
                },
                None => {},
            }
        }
        Err(Error::NotARepository)
    }

    /// The baseline configuration of a fresh repository.
    pub fn default_config() -> (r: Config)
        ensures
            r@ == spec_default_config(),
            version_ok(r),
    {
        let mut config = Config::new();
        config.set("core", "repositoryformatversion", Some("0".to_owned()));
        config.set("core", "filemode", Some("false".to_owned()));
        config.set("core", "bare", Some("false".to_owned()));
        proof {
            reveal_strlit("repositoryformatversion");
            reveal_strlit("filemode");
            reveal_strlit("bare");
            assert(config@ =~= spec_default_config());
            assert("repositoryformatversion"@.len() == 23);
            assert("filemode"@.len() == 8);
            assert("bare"@.len() == 4);
            assert("repositoryformatversion"@ != "filemode"@);
            assert("repositoryformatversion"@ != "bare"@);
            assert(crate::config::version_ok(config));
        }
        config
    }

    /// The control directory of this repository: `.grist` under the worktree.
    pub fn gristpath(&self) -> (r: RPath)
        ensures
            r@ == self.worktree@.push(".grist"@),
    {
        self.worktree.join(".grist")
    }

    /// The blob table.
    pub fn blobs(&self) -> (r: &Store<Blob>)
        ensures
            r == &self.db.blobs,
    {
        &self.db.blobs
    }

    /// The commit table.
    pub fn commits(&self) -> (r: &Store<Commit>)
        ensures
            r == &self.db.commits,
    {
        &self.db.commits
    }

    /// The tree table.
    pub fn trees(&self) -> (r: &Store<Tree>)
        ensures
            r == &self.db.trees,
    {
        &self.db.trees
    }

    /// The three object tables.
    pub fn db(&self) -> (r: &Db)
        ensures
            r == &self.db,
    {
        &self.db
    }
}

} // verus!
