//! The registry of assets known to an application.
use std::borrow::Cow;
use std::sync::Arc;
use vstd::prelude::*;

verus! {

/// Bytes of an asset that has been loaded.
pub type AssetData = Vec<u8>;

/// Loads one asset when it is first requested, possibly from disk.
pub trait AssetLoader {
    /// The asset's bytes, or `None` when it cannot be loaded.
    fn load(&self) -> Option<AssetData>;
}

/// One way to store a set of assets: loads an asset by path and lists the paths under a
/// directory. Errors are reported as messages.
pub trait AssetSource {
    /// Load the given asset from the source path.
    fn load(&self, path: &str) -> Result<Option<AssetData>, String>;

    /// List the assets at the given path.
    fn list(&self, path: &str) -> Result<Vec<String>, String>;
}

/// The entry stored in the registry.
pub enum AssetEntry<L> {
    /// The asset is pre-loaded: embedded, or already read from disk.
    PreLoaded(AssetData),
    /// The entry is loaded on demand.
    OnDemand(L),
}

impl AssetSource for () {
    /// The empty source holds no asset.
    fn load(&self, path: &str) -> (r: Result<Option<AssetData>, String>)
        ensures
            r == Ok::<Option<AssetData>, String>(None),
    {
        Ok(None)
    }

    /// The empty source lists nothing.
    fn list(&self, path: &str) -> (r: Result<Vec<String>, String>)
        ensures
            r matches Ok(paths) && paths@.len() == 0,
    {
        Ok(Vec::new())
    }
}

impl<L> From<AssetData> for AssetEntry<L> {
    /// Bytes become a pre-loaded entry.
    fn from(value: AssetData) -> (r: Self) {
        AssetEntry::PreLoaded(value)
    }
}

impl<L> vstd::std_specs::convert::FromSpecImpl<AssetData> for AssetEntry<L> {
    open spec fn obeys_from_spec() -> bool {
        true
    }

    open spec fn from_spec(v: AssetData) -> AssetEntry<L> {
        AssetEntry::PreLoaded(v)
    }
}

/// Caused when two assets are registered at the same path.
#[derive(Debug)]
pub struct DuplicateAssetPath(pub String);

/// Collection of assets, one per path.
pub struct AssetRegistry<L> {
    entries: Vec<(String, AssetEntry<L>)>,
}

/// Loads an asset of an `AssetSource` by its path.
pub struct SourceLoader<S> {
    /// The shared source.
    pub source: Arc<S>,
    /// The path handed to the source's `load`.
    pub path: String,
}

impl<S: AssetSource> AssetLoader for SourceLoader<S> {
    /// The source's bytes for the path; an error or a missing asset gives `None`.
    fn load(&self) -> (r: Option<AssetData>)
        ensures
            exists|loaded: Result<Option<AssetData>, String>|
                load_gave(&*self.source, self.path@, loaded) && r == loaded_data_spec(loaded),
    {
        let path = self.path.as_str();
        let loaded = self.source.load(path);
        let ghost given = loaded;
        proof {
            assert(call_ensures(S::load, (&*self.source, path), given));
            assert(load_gave(&*self.source, self.path@, given));
        }
        loaded_data(loaded)
    }
}

/// Loaded bytes handed over as owned data.
pub open spec fn owned_bytes<'a>(loaded: Option<AssetData>) -> Option<Cow<'a, [u8]>> {
    match loaded {
        Some(bytes) => Some(Cow::Owned(bytes)),
        None => None,
    }
}

/// The bytes that a source's `load` result gives: the asset's bytes, or `None`.
pub open spec fn loaded_data_spec(loaded: Result<Option<AssetData>, String>) -> Option<AssetData> {
    match loaded {
        Ok(Some(data)) => Some(data),
        _ => None,
    }
}

/// The bytes given what a source's `load` gave: the asset's bytes, or `None` for a missing
/// asset or an error.
pub fn loaded_data(loaded: Result<Option<AssetData>, String>) -> (r: Option<AssetData>)
    ensures
        r == loaded_data_spec(loaded),
{
    match loaded {
        Ok(Some(data)) => Some(data),
        _ => None,
    }
}

/// Another handle to the same shared value.
///
/// Calls `Arc::clone`, which returns a pointer to the same allocation: the handle stands
/// for the same value.
#[verifier::external_body]
fn share<S>(source: &Arc<S>) -> (r: Arc<S>)
    ensures
        r == *source,
{
    source.clone()
}

impl<L> AssetRegistry<L> {
    /// No two entries share a path.
    #[verifier::type_invariant]
    closed spec fn paths_unique(self) -> bool {
        forall|i: int, j: int|
            0 <= i < j < self.entries@.len() ==> (#[trigger] self.entries@[i]).0@ != (
            #[trigger] self.entries@[j]).0@
    }

    /// The position of the entry at `path`, if any.
    closed spec fn holds_at(self, path: Seq<char>, i: int) -> bool {
        0 <= i < self.entries@.len() && self.entries@[i].0@ == path
    }

    /// The assets by path.
    pub closed spec fn view(&self) -> Map<Seq<char>, AssetEntry<L>> {
        Map::new(
            |path: Seq<char>| exists|i: int| self.holds_at(path, i),
            |path: Seq<char>| self.entries@[choose|i: int| self.holds_at(path, i)].1,
        )
    }

    /// An empty registry.
    pub fn new() -> (r: Self)
        ensures
            r@ == Map::<Seq<char>, AssetEntry<L>>::empty(),
    {
        let r = AssetRegistry { entries: Vec::new() };
        assert(r@ == Map::<Seq<char>, AssetEntry<L>>::empty());
        r
    }

    /// The position of the entry at `path`, if there is one.
    fn find(&self, path: &String) -> (r: Option<usize>)
        ensures
            r matches Some(i) ==> self.holds_at(path@, i as int),
            r is None ==> forall|i: int| !self.holds_at(path@, i),
    {
        let mut i: usize = 0;
        while i < self.entries.len()
            invariant
                i <= self.entries@.len(),
                forall|j: int| 0 <= j < i ==> !self.holds_at(path@, j),
            decreases self.entries@.len() - i,
        {
            if self.entries[i].0 == *path {
                return Some(i);
            }
            i = i + 1;
        }
        None
    }

    proof fn lemma_view_at(&self, path: Seq<char>, i: int)
        requires
            self.paths_unique(),
            self.holds_at(path, i),
        ensures
            self@.contains_key(path),
            self@[path] == self.entries@[i].1,
    {
        let j = choose|j: int| self.holds_at(path, j);
        assert(self.holds_at(path, j));
        if j != i {
            if j < i {
                assert(self.entries@[j].0@ != self.entries@[i].0@);
            } else {
                assert(self.entries@[i].0@ != self.entries@[j].0@);
            }
        }
    }

    /// Inserts a single asset. If there is already an entry at `path`, the registry is
    /// left unchanged and the duplicate path is returned.
    pub fn insert(&mut self, path: String, asset: AssetEntry<L>) -> (r: Result<(), DuplicateAssetPath>)
        ensures
            match r {
                Ok(()) => !old(self)@.contains_key(path@) && final(self)@ == old(self)@.insert(path@, asset),
                Err(duplicate) => old(self)@.contains_key(path@) && duplicate.0@ == path@ && final(self)@ == old(self)@,
            },
    {
        proof {
            use_type_invariant(&*self);
        }
        match self.find(&path) {
            Some(i) => {
                proof {
                    self.lemma_view_at(path@, i as int);
                }
                Err(DuplicateAssetPath(path))
            },
            None => {
                let ghost before = *self;
                let ghost key = path@;
                proof {
                    if before@.contains_key(key) {
                        let j = choose|j: int| before.holds_at(key, j);
                        assert(before.holds_at(key, j));
                    }
                }
                let mut entries = Vec::new();
                std::mem::swap(&mut entries, &mut self.entries);
                entries.push((path, asset));
                proof {
                    assert forall|i: int, j: int|
                        0 <= i < j < entries@.len() implies (#[trigger] entries@[i]).0@ != (
                        #[trigger] entries@[j]).0@ by {
                        if j == entries@.len() - 1 {
                            assert(!before.holds_at(key, i));
                        }
                    }
                }
                self.entries = entries;
                proof {
                    use_type_invariant(&*self);
                    let n = before.entries@.len() as int;
                    assert(self.holds_at(key, n));
                    assert forall|p: Seq<char>| #[trigger] self@.contains_key(p) == before@.insert(key, asset).contains_key(p) by {
                        if p == key {
                        } else if self@.contains_key(p) {
                            let j = choose|j: int| self.holds_at(p, j);
                            assert(before.holds_at(p, j));
                        } else if before@.contains_key(p) {
                            let j = choose|j: int| before.holds_at(p, j);
                            assert(self.holds_at(p, j));
                        }
                    }
                    assert forall|p: Seq<char>| #[trigger] self@.contains_key(p) implies self@[p] == before@.insert(key, asset)[p] by {
                        if p == key {
                            self.lemma_view_at(p, n);
                        } else {
                            let j = choose|j: int| self.holds_at(p, j);
                            assert(before.holds_at(p, j));
                            self.lemma_view_at(p, j);
                            before.lemma_view_at(p, j);
                        }
                    }
                    assert(self@ == before@.insert(key, asset));
                }
                Ok(())
            },
        }
    }

    /// The asset data at `path`: `None` when there is no entry; pre-loaded bytes are lent
    /// from the registry without copying; an on-demand entry asks its loader once and its
    /// bytes are handed over.
    pub fn load<'a>(&'a self, path: &str) -> (r: Option<Cow<'a, [u8]>>)
        where L: AssetLoader,
        ensures
            !self@.contains_key(path@) ==> r is None,
            self@.contains_key(path@) ==> match self@[path@] {
                AssetEntry::PreLoaded(data) => r matches Some(Cow::Borrowed(bytes)) && bytes@ == data@,
                AssetEntry::OnDemand(loader) => exists|loaded: Option<AssetData>| {
                    &&& call_ensures(L::load, (&loader,), loaded)
                    &&& r == owned_bytes(loaded)
                },
            },
    {
        proof {
            use_type_invariant(self);
        }
        let key = path.to_owned();
        match self.find(&key) {
            None => {
                proof {
                    if self@.contains_key(path@) {
                        let j = choose|j: int| self.holds_at(path@, j);
                        assert(self.holds_at(key@, j));
                    }
                }
                None
            },
            Some(i) => {
                proof {
                    self.lemma_view_at(path@, i as int);
                }
                match &self.entries[i].1 {
                    AssetEntry::PreLoaded(data) => Some(Cow::Borrowed(data.as_slice())),
                    AssetEntry::OnDemand(loader) => {
                        let loaded = loader.load();
                        let ghost given = loaded;
                        let r = match loaded {
                            Some(bytes) => Some(Cow::Owned(bytes)),
                            None => None,
                        };
                        assert(call_ensures(L::load, (loader,), given));
                        assert(r == owned_bytes(given));
                        r
                    },
                }
            },
        }
    }

    /// Inserts each entry in turn; paths already present by then are left as they were and
    /// reported, in order.
    pub fn extend(&mut self, entries: Vec<(String, AssetEntry<L>)>) -> (r: Result<(), Vec<DuplicateAssetPath>>)
        ensures
            final(self)@ == extended(old(self)@, entries@, entries@.len() as int),
            match r {
                Ok(()) => duplicates_of(old(self)@, entries@, entries@.len() as int).len() == 0,
                Err(duplicates) => duplicates@.len() > 0 && duplicates@.map_values(|d: DuplicateAssetPath| d.0@)
                    == duplicates_of(old(self)@, entries@, entries@.len() as int),
            },
    {
        let ghost start = self@;
        let ghost all = entries@;
        let mut duplicates: Vec<DuplicateAssetPath> = Vec::new();
        for entry in it: entries
            invariant
                all == it.seq(),
                self@ == extended(start, all, it.index() as int),
                duplicates@.map_values(|d: DuplicateAssetPath| d.0@) == duplicates_of(start, all, it.index() as int),
        {
            let (path, asset) = entry;
            let ghost before = duplicates@;
            match self.insert(path, asset) {
                Ok(()) => {},
                Err(duplicate) => {
                    duplicates.push(duplicate);
                    assert(duplicates@.map_values(|d: DuplicateAssetPath| d.0@) == before.map_values(|d: DuplicateAssetPath| d.0@).push(duplicates@.last().0@));
                },
            }
        }
        if duplicates.len() == 0 {
            Ok(())
        } else {
            Err(duplicates)
        }
    }
}

/// The entry kept for `path` given what the source's `load` gave for it: the bytes as a
/// pre-loaded entry; a missing asset or an error keeps nothing.
pub fn preloaded_entry<L>(path: String, loaded: Result<Option<AssetData>, String>) -> (r: Option<(String, AssetEntry<L>)>)
    ensures
        match loaded {
            Ok(Some(data)) => r == Some((path, AssetEntry::<L>::PreLoaded(data))),
            _ => r is None,
        },
{
    match loaded {
        Ok(Some(data)) => Some((path, AssetEntry::PreLoaded(data))),
        _ => None,
    }
}

/// The paths that a listing gave: none when listing failed.
pub open spec fn listed_strings(listed: Result<Vec<String>, String>) -> Seq<String> {
    match listed {
        Ok(paths) => paths@,
        Err(_) => Seq::empty(),
    }
}

/// The pre-loaded entries kept from `paths` given what loading each gave: the paths whose
/// asset loaded, with its bytes, in order.
pub open spec fn kept_preloaded<L>(paths: Seq<String>, loaded: Seq<Result<Option<AssetData>, String>>) -> Seq<(String, AssetEntry<L>)>
    decreases paths.len(),
{
    if paths.len() == 0 {
        Seq::empty()
    } else {
        let n = paths.len() - 1;
        let before = kept_preloaded(paths.take(n), loaded);
        match loaded[n] {
            Ok(Some(data)) => before.push((paths[n], AssetEntry::PreLoaded(data))),
            _ => before,
        }
    }
}

/// The pre-loaded entries for `paths`, where `loaded[i]` is what loading `paths[i]` gave:
/// the assets that loaded, in order; a missing asset or an error keeps nothing.
pub fn preloaded_entries<L>(paths: Vec<String>, loaded: Vec<Result<Option<AssetData>, String>>) -> (r: Vec<(String, AssetEntry<L>)>)
    requires
        paths@.len() == loaded@.len(),
    ensures
        r@ == kept_preloaded::<L>(paths@, loaded@),
{
    let ghost all_paths = paths@;
    let ghost all_loaded = loaded@;
    let mut out: Vec<(String, AssetEntry<L>)> = Vec::new();
    let mut loaded = loaded;
    let mut rest = paths;
    // Work from the back so that each step removes the last path.
    let mut kept_rev: Vec<(String, AssetEntry<L>)> = Vec::new();
    proof {
        assert(all_paths.take(all_paths.len() as int) =~= all_paths);
    }
    while rest.len() > 0
        invariant
            rest@ == all_paths.take(rest@.len() as int),
            loaded@ == all_loaded.take(rest@.len() as int),
            all_paths.len() == all_loaded.len(),
            rest@.len() <= all_paths.len(),
            kept_preloaded::<L>(rest@, all_loaded) + kept_rev@.reverse() == kept_preloaded::<L>(all_paths, all_loaded),
        decreases rest@.len(),
    {
        let ghost before_rest = rest@;
        let ghost before_rev = kept_rev@;
        let path = rest.pop().unwrap();
        let result = loaded.pop().unwrap();
        proof {
            assert(rest@ =~= before_rest.take(before_rest.len() - 1));
            assert(rest@ =~= all_paths.take(rest@.len() as int));
            assert(loaded@ =~= all_loaded.take(rest@.len() as int));
        }
        match preloaded_entry(path, result) {
            Some(entry) => {
                kept_rev.push(entry);
                proof {
                    assert(kept_rev@.reverse() =~= seq![entry] + before_rev.reverse());
                    assert(kept_preloaded::<L>(before_rest, all_loaded) =~= kept_preloaded::<L>(rest@, all_loaded).push(entry));
                }
            },
            None => {
                proof {
                    assert(kept_preloaded::<L>(before_rest, all_loaded) =~= kept_preloaded::<L>(rest@, all_loaded));
                }
            },
        }
    }
    proof {
        assert(kept_preloaded::<L>(rest@, all_loaded) =~= Seq::<(String, AssetEntry<L>)>::empty());
    }
    while kept_rev.len() > 0
        invariant
            out@ + kept_rev@.reverse() == kept_preloaded::<L>(all_paths, all_loaded),
        decreases kept_rev@.len(),
    {
        let ghost before_rev = kept_rev@;
        let ghost before_out = out@;
        let entry = kept_rev.pop().unwrap();
        out.push(entry);
        proof {
            assert(before_rev.reverse() =~= seq![entry] + kept_rev@.reverse());
            assert(out@ + kept_rev@.reverse() =~= before_out + before_rev.reverse());
        }
    }
    proof {
        assert(out@ + kept_rev@.reverse() =~= out@);
    }
    out
}

/// `loaded` is what the source's `load` may give for `path`.
pub open spec fn load_gave<S: AssetSource>(source: &S, path: Seq<char>, loaded: Result<Option<AssetData>, String>) -> bool {
    exists|arg: &str| arg@ == path && call_ensures(S::load, (source, arg), loaded)
}

/// Lists every path of `source` (nothing when listing fails) and loads each in turn,
/// keeping the assets that loaded, as pre-loaded entries in listing order.
pub fn iter_preloaded<S: AssetSource, L>(source: &S) -> (r: Vec<(String, AssetEntry<L>)>)
    ensures
        exists|listed: Result<Vec<String>, String>, loaded: Seq<Result<Option<AssetData>, String>>| {
            &&& call_ensures(S::list, (source, ""), listed)
            &&& loaded.len() == listed_strings(listed).len()
            &&& forall|i: int| 0 <= i < loaded.len() ==> #[trigger] load_gave(source, listed_strings(listed)[i]@, loaded[i])
            &&& r@ == kept_preloaded::<L>(listed_strings(listed), loaded)
        },
{
    let listed = source.list("");
    let ghost listed_ghost = listed;
    let paths = match listed {
        Ok(paths) => paths,
        Err(_) => Vec::new(),
    };
    let mut loaded: Vec<Result<Option<AssetData>, String>> = Vec::new();
    let mut i: usize = 0;
    while i < paths.len()
        invariant
            paths@ == listed_strings(listed_ghost),
            i <= paths@.len(),
            loaded@.len() == i,
            forall|k: int| 0 <= k < i ==> #[trigger] load_gave(source, paths@[k]@, loaded@[k]),
        decreases paths@.len() - i,
    {
        let path = paths[i].as_str();
        let result = source.load(path);
        let ghost before = loaded@;
        loaded.push(result);
        proof {
            assert(path@ == paths@[i as int]@);
            assert(call_ensures(S::load, (source, path), loaded@[i as int]));
            assert(load_gave(source, paths@[i as int]@, loaded@[i as int]));
            assert forall|k: int| 0 <= k < i + 1 implies #[trigger] load_gave(source, paths@[k]@, loaded@[k]) by {
                if k < i {
                    assert(before[k] == loaded@[k]);
                }
            }
        }
        i = i + 1;
    }
    let ghost all_loaded = loaded@;
    let r = preloaded_entries(paths, loaded);
    assert(call_ensures(S::list, (source, ""), listed_ghost));
    assert(r@ == kept_preloaded::<L>(listed_strings(listed_ghost), all_loaded));
    r
}

/// One on-demand entry per path of `paths`, in order, each loading its path from `source`.
pub open spec fn ondemand_for<S>(entries: Seq<(String, AssetEntry<SourceLoader<S>>)>, paths: Seq<String>, source: Arc<S>) -> bool {
    &&& entries.len() == paths.len()
    &&& forall|i: int| #![trigger entries[i]] 0 <= i < entries.len() ==> {
        &&& entries[i].0@ == paths[i]@
        &&& entries[i].1 matches AssetEntry::OnDemand(loader) && loader.path@ == paths[i]@ && loader.source == source
    }
}

/// One on-demand entry per path, in order, each loading that path from `source`.
pub fn ondemand_entries<S>(source: &Arc<S>, paths: Vec<String>) -> (r: Vec<(String, AssetEntry<SourceLoader<S>>)>)
    ensures
        ondemand_for(r@, paths@, *source),
{
    let mut out: Vec<(String, AssetEntry<SourceLoader<S>>)> = Vec::new();
    for path in it: paths
        invariant
            it.seq() == paths@,
            out@.len() == it.index(),
            forall|i: int| #![trigger out@[i]] 0 <= i < out@.len() ==> {
                &&& out@[i].0@ == paths@[i]@
                &&& out@[i].1 matches AssetEntry::OnDemand(loader) && loader.path@ == paths@[i]@ && loader.source == *source
            },
    {
        let loader = SourceLoader { source: share(source), path: path.clone() };
        out.push((path, AssetEntry::OnDemand(loader)));
    }
    out
}

/// Lists every path of `source` (nothing when listing fails), and gives for each an entry
/// that loads it from `source` when it is requested.
pub fn iter_ondemand<S: AssetSource>(source: Arc<S>) -> (r: Vec<(String, AssetEntry<SourceLoader<S>>)>)
    ensures
        exists|listed: Result<Vec<String>, String>|
            call_ensures(S::list, (&*source, ""), listed) && ondemand_for(r@, listed_strings(listed), source),
{
    let listed = source.list("");
    let ghost listed_ghost = listed;
    let paths = match listed {
        Ok(paths) => paths,
        Err(_) => Vec::new(),
    };
    let r = ondemand_entries(&source, paths);
    assert(call_ensures(S::list, (&*source, ""), listed_ghost));
    assert(ondemand_for(r@, listed_strings(listed_ghost), source));
    r
}

impl<L> AssetRegistry<L> {
    /// A registry holding the entries in turn; of two entries at one path the first is
    /// kept.
    pub fn from_iter(entries: Vec<(String, AssetEntry<L>)>) -> (r: Self)
        ensures
            r@ == extended(Map::<Seq<char>, AssetEntry<L>>::empty(), entries@, entries@.len() as int),
    {
        let mut registry = AssetRegistry::new();
        let _ = registry.extend(entries);
        registry
    }
}

impl<S: AssetSource> AssetRegistry<SourceLoader<S>> {
    /// A registry of every path that `source` lists, each loaded on demand from the source.
    pub fn from_source(source: S) -> (r: Self)
        ensures
            exists|listed: Result<Vec<String>, String>| {
                &&& call_ensures(S::list, (&source, ""), listed)
                &&& r@.dom() == listed_path_set(listed)
            },
            forall|path: Seq<char>| #[trigger] r@.contains_key(path) ==> loads_path(r@[path], source, path),
    {
        AssetRegistry::from_shared(Arc::new(source))
    }

    /// A registry of every path that the shared `source` lists, each loaded on demand from
    /// that source.
    pub fn from_shared(source: Arc<S>) -> (r: Self)
        ensures
            exists|listed: Result<Vec<String>, String>| {
                &&& call_ensures(S::list, (&*source, ""), listed)
                &&& r@.dom() == listed_path_set(listed)
            },
            forall|path: Seq<char>| #[trigger] r@.contains_key(path) ==> loads_path(r@[path], *source, path),
    {
        let ghost shared = source;
        let entries = iter_ondemand(source);
        let r = AssetRegistry::from_iter(entries);
        proof {
            lemma_extended_keeps(Map::<Seq<char>, AssetEntry<SourceLoader<S>>>::empty(), entries@, shared, entries@.len() as int);
            let listed = choose|listed: Result<Vec<String>, String>|
                call_ensures(S::list, (&*shared, ""), listed) && ondemand_for(entries@, listed_strings(listed), shared);
            let empty = Map::<Seq<char>, AssetEntry<SourceLoader<S>>>::empty();
            let n = entries@.len() as int;
            assert forall|path: Seq<char>| #[trigger] r@.dom().contains(path) == listed_path_set(listed).contains(path) by {
                law_extend_keeps_first(empty, entries@, n, path);
                if r@.dom().contains(path) {
                    let j = choose|j: int| 0 <= j < n && #[trigger] entries@[j].0@ == path;
                    assert(listed_strings(listed)[j]@ == path);
                }
                if listed_path_set(listed).contains(path) {
                    let j = choose|j: int| 0 <= j < listed_strings(listed).len() && #[trigger] listed_strings(listed)[j]@ == path;
                    assert(entries@[j].0@ == path);
                }
            }
            assert(r@.dom() =~= listed_path_set(listed));
        }
        r
    }
}

/// The entry loads `path` on demand from `source`.
pub open spec fn loads_path<S>(entry: AssetEntry<SourceLoader<S>>, source: S, path: Seq<char>) -> bool {
    entry matches AssetEntry::OnDemand(loader) && loader.path@ == path && *loader.source == source
}

/// Inserting keeps each value tied to its own path, where every entry inserted is.
proof fn lemma_extended_keeps<S>(start: Map<Seq<char>, AssetEntry<SourceLoader<S>>>, entries: Seq<(String, AssetEntry<SourceLoader<S>>)>, source: Arc<S>, n: int)
    requires
        0 <= n <= entries.len(),
        forall|path: Seq<char>| #[trigger] start.contains_key(path) ==>
            loads_path(start[path], *source, path),
        forall|i: int| #![trigger entries[i]] 0 <= i < entries.len() ==>
            loads_path(entries[i].1, *source, entries[i].0@),
    ensures
        forall|path: Seq<char>| #[trigger] extended(start, entries, n).contains_key(path) ==>
            loads_path(extended(start, entries, n)[path], *source, path),
    decreases n,
{
    if n > 0 {
        lemma_extended_keeps(start, entries, source, n - 1);
        let before = extended(start, entries, n - 1);
        let key = entries[n - 1].0@;
        assert(loads_path(entries[n - 1].1, *source, key));
        assert forall|path: Seq<char>| #[trigger] extended(start, entries, n).contains_key(path) implies
            loads_path(extended(start, entries, n)[path], *source, path) by {
            if !before.contains_key(key) && path == key {
            } else {
                assert(before.contains_key(path));
            }
        }
    }
}

/// A unique identifier for the image cache.
#[derive(Copy, Clone, Debug, PartialEq, Eq, Structural, PartialOrd, Ord, Hash)]
pub struct ImageId(pub usize);

/// Which frame of which image to render.
#[derive(Clone, Debug, PartialEq, Eq, Structural, Hash)]
pub struct RenderImageParams {
    /// The image.
    pub image_id: ImageId,
    /// The frame of that image.
    pub frame_index: usize,
}

/// The registry after inserting the first `n` entries in turn: the first entry at a path
/// wins.
pub open spec fn extended<L>(start: Map<Seq<char>, AssetEntry<L>>, entries: Seq<(String, AssetEntry<L>)>, n: int) -> Map<Seq<char>, AssetEntry<L>>
    decreases n,
{
    if n <= 0 {
        start
    } else {
        let before = extended(start, entries, n - 1);
        if before.contains_key(entries[n - 1].0@) {
            before
        } else {
            before.insert(entries[n - 1].0@, entries[n - 1].1)
        }
    }
}

/// The paths among the first `n` entries that were already present when inserted.
pub open spec fn duplicates_of<L>(start: Map<Seq<char>, AssetEntry<L>>, entries: Seq<(String, AssetEntry<L>)>, n: int) -> Seq<Seq<char>>
    decreases n,
{
    if n <= 0 {
        Seq::empty()
    } else {
        let before = duplicates_of(start, entries, n - 1);
        if extended(start, entries, n - 1).contains_key(entries[n - 1].0@) {
            before.push(entries[n - 1].0@)
        } else {
            before
        }
    }
}

/// Extending a registry keeps every path it had with its entry, adds every new path, and
/// for a new path keeps the first entry given for it: an item is inserted exactly when its
/// path is neither present before nor given by an earlier item.
pub proof fn law_extend_keeps_first<L>(start: Map<Seq<char>, AssetEntry<L>>, entries: Seq<(String, AssetEntry<L>)>, n: int, path: Seq<char>)
    requires
        0 <= n <= entries.len(),
    ensures
        extended(start, entries, n).contains_key(path) <==> (start.contains_key(path) || exists|j: int|
            0 <= j < n && #[trigger] entries[j].0@ == path),
        start.contains_key(path) ==> extended(start, entries, n)[path] == start[path],
        forall|j: int| #![trigger entries[j]]
            0 <= j < n && entries[j].0@ == path && !start.contains_key(path) && (forall|m: int|
                0 <= m < j ==> #[trigger] entries[m].0@ != path) ==> extended(start, entries, n)[path]
                == entries[j].1,
    decreases n,
{
    if n > 0 {
        law_extend_keeps_first(start, entries, n - 1, path);
        let before = extended(start, entries, n - 1);
        if entries[n - 1].0@ == path {
            assert(exists|j: int| 0 <= j < n && #[trigger] entries[j].0@ == path) by {
                assert(entries[n - 1].0@ == path);
            }
        }
        assert forall|j: int| #![trigger entries[j]]
            0 <= j < n && entries[j].0@ == path && !start.contains_key(path) && (forall|m: int|
                0 <= m < j ==> #[trigger] entries[m].0@ != path) implies extended(start, entries, n)[path]
                == entries[j].1 by {
            if j < n - 1 {
                assert(before.contains_key(path));
            } else {
                if before.contains_key(path) {
                    let m = choose|m: int| 0 <= m < n - 1 && #[trigger] entries[m].0@ == path;
                    assert(entries[m].0@ != path);
                }
            }
        }
    }
}

/// The paths that a listing gave, as a set.
pub open spec fn listed_path_set(listed: Result<Vec<String>, String>) -> Set<Seq<char>> {
    Set::new(|path: Seq<char>| exists|j: int| 0 <= j < listed_strings(listed).len() && #[trigger] listed_strings(listed)[j]@ == path)
}

} // verus!
