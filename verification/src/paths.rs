use crate::utils::AppError;
use std::path::PathBuf;
use vstd::prelude::*;

verus! {

/// Tag classifying a stored path.
#[derive(Clone, Copy, PartialEq, Eq, Structural, Debug)]
pub enum PathSection {
    Visited,
    Top,
}

/// One bookmarked path together with its section tag.
#[derive(Clone, Debug)]
pub struct PathInfo {
    pub path: String,
    pub section: PathSection,
}

/// Mathematical image of one entry: the path's characters and the section tag.
pub ghost struct EntryModel {
    pub path: Seq<char>,
    pub section: PathSection,
}

impl View for PathInfo {
    type V = EntryModel;

    open spec fn view(&self) -> EntryModel {
        EntryModel { path: self.path@, section: self.section }
    }
}

/// The entry models of a vector of entries, in order.
pub open spec fn models_of(entries: Seq<PathInfo>) -> Seq<EntryModel> {
    entries.map_values(|e: PathInfo| e@)
}

/// Whether some entry of `entries` holds exactly the path `p`.
pub open spec fn has_path(entries: Seq<EntryModel>, p: Seq<char>) -> bool {
    exists|i: int| 0 <= i < entries.len() && entries[i].path == p
}

/// The contents after adding `p`: unchanged when an entry with that exact path is
/// already present, else with a `Visited` entry for `p` appended.
pub open spec fn with_added(entries: Seq<EntryModel>, p: Seq<char>) -> Seq<EntryModel> {
    if has_path(entries, p) {
        entries
    } else {
        entries.push(EntryModel { path: p, section: PathSection::Visited })
    }
}

/// The path of each entry, in order.
pub open spec fn paths_of(entries: Seq<EntryModel>) -> Seq<Seq<char>> {
    entries.map_values(|e: EntryModel| e.path)
}

/// No two entries hold the same path.
pub open spec fn deduplicated(entries: Seq<EntryModel>) -> bool {
    forall|i: int, j: int|
        0 <= i < j < entries.len() ==> entries[i].path != entries[j].path
}

/// The message carried by the error a load reports when the store is bound to no
/// configuration file.
pub open spec fn missing_config_message() -> Seq<char> {
    "Missing config file"@
}

/// Declares std::path::PathBuf so that it can stand in signatures. The library
/// reads nothing inside such a value: it only hands it to the filesystem calls
/// below.
#[verifier::external_type_specification]
#[verifier::external_body]
pub struct ExPathBuf(PathBuf);

/// Relies on std::path::Path::exists: true exactly when the location can be
/// confirmed to exist on disk at the time of the call. The result depends on the
/// filesystem, so nothing is promised of it.
#[verifier::external_body]
fn location_exists(candidate: &PathBuf) -> bool {
    candidate.as_path().exists()
}

/// Relies on std::path::Path::canonicalize: the canonical absolute form of the
/// location, when the filesystem can resolve it and the result is valid UTF-8,
/// and nothing otherwise. The result depends on the filesystem, so nothing is
/// promised of it.
#[verifier::external_body]
fn canonical_string(candidate: &PathBuf) -> Option<String> {
    match candidate.as_path().canonicalize() {
        Ok(resolved) => match resolved.to_str() {
            Some(s) => Some(s.to_owned()),
            None => None,
        },
        Err(_) => None,
    }
}

/// The ordered, deduplicated collection of bookmarked paths, optionally bound to
/// the configuration file that persists it.
pub struct PathStore {
    paths: Vec<PathInfo>,
    pub config_file: Option<String>,
}

/// Mathematical image of a store: its entries in insertion order, and the bound
/// configuration file's characters, if any.
pub ghost struct StoreModel {
    pub entries: Seq<EntryModel>,
    pub config: Option<Seq<char>>,
}

impl View for PathStore {
    type V = StoreModel;

    closed spec fn view(&self) -> StoreModel {
        StoreModel {
            entries: models_of(self.paths@),
            config: match self.config_file {
                Some(f) => Some(f@),
                None => None,
            },
        }
    }
}

impl PathStore {
    /// Creates an empty store bound to no configuration file.
    pub fn new() -> (r: Self)
        ensures
            r@.entries == Seq::<EntryModel>::empty(),
            r@.config is None,
    {
        let store = PathStore { paths: Vec::new(), config_file: None };
        proof {
            assert(store@.entries =~= Seq::<EntryModel>::empty());
        }
        store
    }

    /// Appends an entry for `path` with section `Visited`, unless an entry with
    /// that exact path string is already present; a duplicate is a silent no-op.
    pub fn add_path(&mut self, path: String)
        ensures
            final(self)@.entries == with_added(old(self)@.entries, path@),
            final(self)@.config == old(self)@.config,
    {
        let n = self.paths.len();
        let mut i: usize = 0;
        while i < n
            invariant
                n == self.paths.len(),
                i <= n,
                *self == *old(self),
                forall|j: int| 0 <= j < i ==> self.paths@[j]@.path != path@,
            decreases n - i,
        {
            if self.paths[i].path == path {
                proof {
                    assert(self@.entries[i as int].path == path@);
                    assert(has_path(self@.entries, path@));
                }
                return;
            }
            i += 1;
        }
        proof {
            assert forall|k: int| 0 <= k < self@.entries.len()
                implies self@.entries[k].path != path@ by {
                assert(self@.entries[k] == self.paths@[k]@);
            }
            assert(!has_path(self@.entries, path@));
        }
        self.paths.push(PathInfo { path, section: PathSection::Visited });
        proof {
            assert(final(self)@.entries =~= with_added(old(self)@.entries, path@));
        }
    }

    /// Adds the location after resolving it to its canonical absolute form.
    /// A location that cannot be confirmed to exist on disk is rejected: the
    /// result is `Ok(false)` and the store is unchanged. An existing location is
    /// canonicalized and added like any path string, and the result is
    /// `Ok(true)`. A location whose canonical form cannot be produced even
    /// though its existence was confirmed is unexpected: the result is an error
    /// and the store is unchanged.
    pub fn add_path_buf(&mut self, path: PathBuf) -> (r: Result<bool, AppError>)
        ensures
            final(self)@.config == old(self)@.config,
            r matches Ok(added) && !added ==> final(self)@ == old(self)@,
            r matches Ok(added) && added ==> exists|p: Seq<char>|
                final(self)@.entries == with_added(old(self)@.entries, p),
            r is Err ==> final(self)@ == old(self)@,
    {
        if !location_exists(&path) {
            return Ok(false);
        }
        match canonical_string(&path) {
            Some(absolute_path) => {
                self.add_path(absolute_path);
                Ok(true)
            }
            None => Err(AppError::new(String::from_str("Failed to canonicalize existing path"))),
        }
    }

    /// The stored paths, in insertion order.
    pub fn list_sorted_paths(&self) -> (r: Vec<&str>)
        ensures
            r@.len() == self@.entries.len(),
            forall|i: int| 0 <= i < r@.len() ==> r@[i]@ == self@.entries[i].path,
    {
        let mut out: Vec<&str> = Vec::new();
        let mut i: usize = 0;
        while i < self.paths.len()
            invariant
                i <= self.paths.len(),
                out@.len() == i,
                forall|j: int| 0 <= j < i ==> out@[j]@ == self@.entries[j].path,
            decreases self.paths.len() - i,
        {
            out.push(self.paths[i].path.as_str());
            i += 1;
        }
        out
    }

    /// The configuration file a load must read: the bound location, or a
    /// missing-configuration error when the store is bound to none, in which
    /// case the entries are untouched (nothing here can touch them).
    pub fn config_source(&self) -> (r: Result<&String, AppError>)
        ensures
            r is Ok <==> self@.config is Some,
            r matches Ok(f) ==> Some(f@) == self@.config,
            r matches Err(e) ==> e@ == missing_config_message(),
    {
        match &self.config_file {
            Some(f) => Ok(f),
            None => Err(AppError::new(String::from_str("Missing config file"))),
        }
    }

    /// The file a save must overwrite with the full entry sequence: the bound
    /// location, or nothing when the store is bound to none, in which case a
    /// save is a no-op that succeeds.
    pub fn save_source(&self) -> (r: Option<&String>)
        ensures
            r is Some <==> self@.config is Some,
            r matches Some(f) ==> Some(f@) == self@.config,
    {
        match &self.config_file {
            Some(f) => Some(f),
            None => None,
        }
    }

    /// Replaces the whole in-memory entry sequence with `entries`, as a load
    /// does with the deserialized file content.
    pub fn apply_loaded(&mut self, entries: Vec<PathInfo>)
        ensures
            final(self)@.entries == models_of(entries@),
            final(self)@.config == old(self)@.config,
    {
        self.paths = entries;
    }

    /// The stored entries, in order, exactly as a save serializes them.
    pub fn entries(&self) -> (r: &Vec<PathInfo>)
        ensures
            models_of(r@) == self@.entries,
    {
        &self.paths
    }
}

/// Idempotence of adding: going through an add for a path a second time changes
/// nothing, wherever the two adds stand relative to other adds.
pub proof fn lemma_add_idempotent(entries: Seq<EntryModel>, p: Seq<char>)
    ensures
        with_added(with_added(entries, p), p) == with_added(entries, p),
{
    if !has_path(entries, p) {
        let once = with_added(entries, p);
        assert(once[entries.len() as int].path == p);
        assert(has_path(once, p));
    }
}

/// Deduplication: a store that holds no path twice still holds no path twice
/// after an add, and then holds exactly one entry for the added path — its
/// presence is `has_path`, its uniqueness is `deduplicated`.
pub proof fn lemma_add_deduplicates(entries: Seq<EntryModel>, p: Seq<char>)
    requires
        deduplicated(entries),
    ensures
        deduplicated(with_added(entries, p)),
        has_path(with_added(entries, p), p),
{
    let added = with_added(entries, p);
    if has_path(entries, p) {
        assert(added == entries);
    } else {
        assert forall|i: int, j: int| 0 <= i < j < added.len() implies added[i].path
            != added[j].path by {
            if j == entries.len() {
                assert(!(0 <= i < entries.len() && entries[i].path == p));
            }
        }
        assert(added[entries.len() as int].path == p);
    }
}

/// How many entries hold exactly the path `p`.
pub open spec fn path_count(entries: Seq<EntryModel>, p: Seq<char>) -> nat
    decreases entries.len(),
{
    if entries.len() == 0 {
        0
    } else {
        path_count(entries.drop_last(), p) + if entries.last().path == p {
            1nat
        } else {
            0nat
        }
    }
}

/// A path no entry holds is counted zero times.
proof fn lemma_count_absent(entries: Seq<EntryModel>, p: Seq<char>)
    requires
        !has_path(entries, p),
    ensures
        path_count(entries, p) == 0,
    decreases entries.len(),
{
    if entries.len() > 0 {
        assert(entries.last().path != p) by {
            assert(entries[entries.len() - 1] == entries.last());
        }
        assert(!has_path(entries.drop_last(), p)) by {
            if has_path(entries.drop_last(), p) {
                let i = choose|i: int|
                    0 <= i < entries.drop_last().len() && entries.drop_last()[i].path == p;
                assert(entries[i].path == p);
            }
        }
        lemma_count_absent(entries.drop_last(), p);
    }
}

/// In contents that hold no path twice, a path some entry holds is counted
/// exactly once.
proof fn lemma_count_present_once(entries: Seq<EntryModel>, p: Seq<char>)
    requires
        deduplicated(entries),
        has_path(entries, p),
    ensures
        path_count(entries, p) == 1,
    decreases entries.len(),
{
    let shorter = entries.drop_last();
    assert(deduplicated(shorter)) by {
        assert(forall|i: int| 0 <= i < shorter.len() ==> shorter[i] == entries[i]);
    }
    if entries.last().path == p {
        assert(!has_path(shorter, p)) by {
            if has_path(shorter, p) {
                let i = choose|i: int| 0 <= i < shorter.len() && shorter[i].path == p;
                assert(entries[i].path == entries[entries.len() - 1].path);
            }
        }
        lemma_count_absent(shorter, p);
    } else {
        let i = choose|i: int| 0 <= i < entries.len() && entries[i].path == p;
        assert(entries[entries.len() - 1] == entries.last());
        assert(i < entries.len() - 1);
        assert(has_path(shorter, p)) by {
            assert(shorter[i].path == p);
        }
        lemma_count_present_once(shorter, p);
    }
}

/// Idempotence, counted: in a store that holds no path twice, an add leaves
/// exactly one entry for the added path — however often it was added before,
/// and wherever those adds stood relative to adds of other paths.
pub proof fn lemma_add_exactly_once(entries: Seq<EntryModel>, p: Seq<char>)
    requires
        deduplicated(entries),
    ensures
        path_count(with_added(entries, p), p) == 1,
{
    lemma_add_deduplicates(entries, p);
    lemma_count_present_once(with_added(entries, p), p);
}

/// The contents after adding each path of `ps` in order, starting from
/// `entries`.
pub open spec fn with_all_added(entries: Seq<EntryModel>, ps: Seq<Seq<char>>) -> Seq<EntryModel>
    decreases ps.len(),
{
    if ps.len() == 0 {
        entries
    } else {
        with_all_added(with_added(entries, ps[0]), ps.drop_first())
    }
}

/// A path's presence after a push: the pushed entry's path, or one already held.
proof fn lemma_has_path_push(entries: Seq<EntryModel>, e: EntryModel, p: Seq<char>)
    ensures
        has_path(entries.push(e), p) <==> (has_path(entries, p) || e.path == p),
{
    if has_path(entries, p) {
        let i = choose|i: int| 0 <= i < entries.len() && entries[i].path == p;
        assert(entries.push(e)[i].path == p);
    }
    if e.path == p {
        assert(entries.push(e)[entries.len() as int].path == p);
    }
    if has_path(entries.push(e), p) && e.path != p {
        let i = choose|i: int| 0 <= i < entries.push(e).len() && entries.push(e)[i].path == p;
        assert(entries[i].path == p);
    }
}

/// Order preservation: adding pairwise distinct paths, none of which the store
/// already holds, appends them to the listing in exactly the order added.
pub proof fn lemma_adds_preserve_order(entries: Seq<EntryModel>, ps: Seq<Seq<char>>)
    requires
        forall|i: int, j: int| 0 <= i < j < ps.len() ==> ps[i] != ps[j],
        forall|i: int| 0 <= i < ps.len() ==> !has_path(entries, #[trigger] ps[i]),
    ensures
        paths_of(with_all_added(entries, ps)) == paths_of(entries) + ps,
    decreases ps.len(),
{
    if ps.len() == 0 {
        assert(paths_of(entries) + ps =~= paths_of(entries));
    } else {
        let p0 = ps[0];
        let e0 = EntryModel { path: p0, section: PathSection::Visited };
        let grown = entries.push(e0);
        assert(with_added(entries, p0) == grown);
        let rest = ps.drop_first();
        assert forall|i: int| 0 <= i < rest.len() implies !has_path(grown, #[trigger] rest[i]) by {
            assert(rest[i] == ps[i + 1]);
            lemma_has_path_push(entries, e0, rest[i]);
        }
        lemma_adds_preserve_order(grown, rest);
        assert(paths_of(grown) =~= paths_of(entries).push(p0));
        assert(paths_of(entries).push(p0) + rest =~= paths_of(entries) + ps);
    }
}

/// Order preservation from an empty store: adding pairwise distinct paths
/// yields a listing equal to the sequence added.
pub proof fn lemma_order_preservation(ps: Seq<Seq<char>>)
    requires
        forall|i: int, j: int| 0 <= i < j < ps.len() ==> ps[i] != ps[j],
    ensures
        paths_of(with_all_added(Seq::<EntryModel>::empty(), ps)) == ps,
{
    lemma_adds_preserve_order(Seq::<EntryModel>::empty(), ps);
    assert(paths_of(Seq::<EntryModel>::empty()) =~= Seq::<Seq<char>>::empty());
    assert(Seq::<Seq<char>>::empty() + ps =~= ps);
}

} // verus!
