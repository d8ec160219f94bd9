//! Which files are watched, and what a change of one of them asks for.

use vstd::prelude::*;
use vstd::string::*;
use crate::config::css::{css_import_values, imports, local_css_import_path, local_path, CSS_IMPORT_SCAN_LIMIT};
use crate::paths::{
    is_straight, join_path, joined_path, made_absolute, normalize, normalize_path, normalized, parent, path_of,
    path_text, path_views, straight, NormalPath, PathSet, PathView,
};
use crate::text::{self, chars_of, views};

verus! {

/// A scan of the style sheets that a style sheet imports, directly or through others.
#[derive(Debug)]
pub struct CssScan {
    /// The style sheets that were reached.
    pub seen: PathSet,
    /// The style sheets that are still to be looked at, in their order.
    pub pending: Vec<NormalPath>,
}

/// What a [`CssScan`] holds.
pub struct ScanView {
    pub seen: Seq<PathView>,
    pub pending: Seq<PathView>,
}

impl View for CssScan {
    type V = ScanView;

    open spec fn view(&self) -> ScanView {
        ScanView { seen: self.seen.list(), pending: path_views(self.pending@) }
    }
}

/// The scan at the next style sheet to read, which is the last one seen; nothing is left to read
/// once [`CSS_IMPORT_SCAN_LIMIT`] sheets were reached.
pub open spec fn advanced(s: ScanView) -> (ScanView, Option<PathView>)
    decreases s.pending.len(),
{
    if s.pending.len() == 0 {
        (s, None)
    } else {
        let path = s.pending[0];
        let rest = s.pending.drop_first();
        if s.seen.contains(path) {
            advanced(ScanView { pending: rest, ..s })
        } else if s.seen.len() + 1 >= CSS_IMPORT_SCAN_LIMIT {
            (ScanView { seen: s.seen.push(path), pending: Seq::empty() }, None)
        } else {
            (ScanView { seen: s.seen.push(path), pending: rest }, Some(path))
        }
    }
}

/// The file that an import means in the style sheet at `importer`: relative ones are within its
/// directory.
pub open spec fn resolved(importer: PathView, import: Seq<char>, working_dir: Option<Seq<char>>) -> PathView {
    let dir = match parent(importer) {
        Some(d) => path_text(d),
        None => seq!['/'],
    };
    normalized(made_absolute(joined_path(dir, import), working_dir))
}

/// The files that the first `n` imports mean; those that are no files are left out.
pub open spec fn resolved_imports(
    importer: PathView,
    values: Seq<Seq<char>>,
    working_dir: Option<Seq<char>>,
) -> Seq<PathView>
    decreases values.len(),
{
    if values.len() == 0 {
        Seq::empty()
    } else {
        let before = resolved_imports(importer, values.drop_last(), working_dir);
        match local_path(values.last()) {
            Some(path) => before.push(resolved(importer, path, working_dir)),
            None => before,
        }
    }
}

impl CssScan {
    /// A scan that begins with a style sheet.
    pub fn new(root: NormalPath) -> (scan: Self)
        ensures
            scan@ == (ScanView { seen: Seq::empty(), pending: seq![root@] }),
    {
        let mut pending: Vec<NormalPath> = Vec::new();
        let ghost first = root@;
        pending.push(root);
        proof {
            assert(path_views(pending@) =~= seq![first]);
        }
        CssScan { seen: PathSet::new(), pending }
    }

    /// The next style sheet to read.
    pub fn next(&mut self) -> (path: Option<NormalPath>)
        ensures
            (final(self)@, path_of(path)) == advanced(old(self)@),
    {
        let ghost start = self@;
        while self.pending.len() > 0
            invariant
                start == old(self)@,
                advanced(self@) == advanced(start),
            decreases self.pending@.len(),
        {
            let ghost before = self@;
            let path = self.pending.remove(0);
            proof {
                assert(path@ == before.pending[0]);
                assert(path_views(self.pending@) =~= before.pending.drop_first());
            }
            let copy = path.copy();
            let known = self.seen.contains(&path);
            proof {
                assert(self.seen@.contains(path@) == before.seen.contains(path@));
            }
            if !known {
                self.seen.insert(path);
                if self.seen.len() >= CSS_IMPORT_SCAN_LIMIT {
                    self.pending = Vec::new();
                    proof {
                        assert(path_views(self.pending@) =~= Seq::empty());
                    }
                    return None;
                }
                return Some(copy);
            }
        }
        proof {
            assert(self@.pending.len() == 0);
        }
        None
    }

    /// Takes the imports of a style sheet that was read into account.
    pub fn add_sheet(&mut self, path: &NormalPath, css: &str, working_dir: &Option<String>)
        ensures
            final(self)@ == (ScanView {
                pending: old(self)@.pending + resolved_imports(path@, imports(css@), chars_of(*working_dir)),
                ..old(self)@
            }),
    {
        let ghost start = self@;
        let ghost wd = chars_of(*working_dir);
        let values = css_import_values(css);
        let ghost all = views(values@);
        let dir = match path.parent() {
            Some(d) => d.to_text(),
            None => "/".to_string(),
        };
        proof {
            reveal_strlit("/");
            assert("/"@ =~= seq!['/']);
            assert(all.take(0) =~= Seq::empty());
            assert(start.pending + resolved_imports(path@, all.take(0), wd) =~= start.pending);
        }
        let mut i: usize = 0;
        while i < values.len()
            invariant
                i <= values@.len(),
                all == views(values@),
                wd == chars_of(*working_dir),
                dir@ == (match parent(path@) {
                    Some(d) => path_text(d),
                    None => seq!['/'],
                }),
                self@.seen == start.seen,
                self@.pending == start.pending + resolved_imports(path@, all.take(i as int), wd),
            decreases values@.len() - i,
        {
            let ghost before = self@;
            proof {
                assert(all.take(i + 1).drop_last() =~= all.take(i as int));
                assert(all.take(i + 1).last() == values@[i as int]@);
            }
            match local_css_import_path(values[i].as_str()) {
                Some(import) => {
                    let whole = join_path(dir.as_str(), import.as_str());
                    let target = normalize_path(whole.as_str(), working_dir);
                    let ghost added = target@;
                    self.pending.push(target);
                    proof {
                        assert(path_views(self.pending@) =~= before.pending.push(added));
                        assert(start.pending + resolved_imports(path@, all.take(i as int), wd).push(added)
                            =~= before.pending.push(added));
                    }
                }
                None => {}
            }
            i += 1;
        }
        proof {
            assert(all.take(i as int) =~= all);
        }
    }
}

/// A style sheet is read at most once, and no scan reaches more than [`CSS_IMPORT_SCAN_LIMIT`].
pub proof fn scan_is_bounded(s: ScanView)
    requires
        s.seen.no_duplicates(),
        s.seen.len() <= CSS_IMPORT_SCAN_LIMIT,
        s.seen.len() == CSS_IMPORT_SCAN_LIMIT ==> s.pending.len() == 0,
    ensures
        advanced(s).0.seen.no_duplicates(),
        advanced(s).0.seen.len() <= CSS_IMPORT_SCAN_LIMIT,
        advanced(s).0.seen.len() == CSS_IMPORT_SCAN_LIMIT ==> advanced(s).0.pending.len() == 0,
        match advanced(s).1 {
            Some(path) => !s.seen.contains(path) && advanced(s).0.seen == s.seen.push(path),
            None => advanced(s).0.pending.len() == 0,
        },
    decreases s.pending.len(),
{
    if s.pending.len() > 0 {
        if s.seen.contains(s.pending[0]) {
            scan_is_bounded(ScanView { pending: s.pending.drop_first(), ..s });
        }
    }
}

/// The files whose change means a change of style: the places where the user's style sheet may
/// be, the style sheets in use, and what links among them point to.
pub open spec fn watch_paths(
    search: Seq<Seq<char>>,
    sheets: Set<PathView>,
    targets: Set<PathView>,
    working_dir: Option<Seq<char>>,
) -> Set<PathView> {
    Set::new(
        |p: PathView|
            sheets.contains(p) || targets.contains(p) || exists|i: int|
                0 <= i < search.len() && normalized(made_absolute(#[trigger] search[i], working_dir)) == p,
    )
}

/// The files whose change means a change of style.
pub fn compute_style_watch_paths(
    search_paths: &Vec<String>,
    sheets: &PathSet,
    targets: &PathSet,
    working_dir: &Option<String>,
) -> (watched: PathSet)
    ensures
        watched@ == watch_paths(views(search_paths@), sheets@, targets@, chars_of(*working_dir)),
{
    let ghost wd = chars_of(*working_dir);
    let ghost search = views(search_paths@);
    let mut watched = PathSet::new();
    let mut i: usize = 0;
    while i < search_paths.len()
        invariant
            i <= search_paths@.len(),
            search == views(search_paths@),
            wd == chars_of(*working_dir),
            forall|p: PathView|
                watched@.contains(p) <==> exists|j: int|
                    0 <= j < i && normalized(made_absolute(#[trigger] search[j], wd)) == p,
        decreases search_paths@.len() - i,
    {
        let ghost before = watched@;
        let path = normalize_path(search_paths[i].as_str(), working_dir);
        let ghost added = path@;
        watched.insert(path);
        proof {
            assert(search[i as int] == search_paths@[i as int]@);
            assert(normalized(made_absolute(search[i as int], wd)) == added);
            assert forall|p: PathView| watched@.contains(p) <==> exists|j: int|
                0 <= j < i + 1 && normalized(made_absolute(#[trigger] search[j], wd)) == p by {
                if before.contains(p) {
                    let j = choose|j: int| 0 <= j < i && normalized(made_absolute(#[trigger] search[j], wd)) == p;
                    assert(0 <= j < i + 1);
                }
            }
        }
        i += 1;
    }
    watched.extend(sheets);
    watched.extend(targets);
    proof {
        assert(watched@ =~= watch_paths(search, sheets@, targets@, wd));
    }
    watched
}

/// The directories of watched files, but for that of the configuration.
pub open spec fn watch_dirs(watched: Set<PathView>, config_dir: PathView) -> Set<PathView> {
    Set::new(|d: PathView| d != config_dir && exists|p: PathView| #[trigger] watched.contains(p) && parent(p) == Some(d))
}

/// The directories of watched files, but for that of the configuration.
pub fn style_watch_dirs(watched: &PathSet, config_dir: &NormalPath) -> (dirs: PathSet)
    ensures
        dirs@ == watch_dirs(watched@, config_dir@),
{
    let mut dirs = PathSet::new();
    let paths = watched.paths();
    let ghost all = path_views(paths@);
    let mut i: usize = 0;
    while i < paths.len()
        invariant
            i <= paths@.len(),
            all == path_views(paths@),
            all == watched.list(),
            forall|d: PathView|
                dirs@.contains(d) <==> d != config_dir@ && exists|j: int| 0 <= j < i && parent(#[trigger] all[j]) == Some(d),
        decreases paths@.len() - i,
    {
        let ghost before = dirs@;
        assert(all[i as int] == paths@[i as int]@);
        match paths[i].parent() {
            Some(dir) => {
                let ghost added = dir@;
                if !dir.same(config_dir) {
                    dirs.insert(dir);
                }
            }
            None => {}
        }
        proof {
            assert forall|d: PathView| dirs@.contains(d) <==> d != config_dir@ && exists|j: int|
                0 <= j < i + 1 && parent(#[trigger] all[j]) == Some(d) by {
                if before.contains(d) {
                    let j = choose|j: int| 0 <= j < i && parent(#[trigger] all[j]) == Some(d);
                    assert(0 <= j < i + 1);
                }
                if dirs@.contains(d) && !before.contains(d) {
                    assert(parent(all[i as int]) == Some(d));
                }
            }
        }
        i += 1;
    }
    proof {
        assert forall|d: PathView| dirs@.contains(d) == watch_dirs(watched@, config_dir@).contains(d) by {
            if dirs@.contains(d) {
                let j = choose|j: int| 0 <= j < i && parent(#[trigger] all[j]) == Some(d);
                assert(watched@.contains(all[j]));
            }
            if watch_dirs(watched@, config_dir@).contains(d) {
                let p = choose|p: PathView| #[trigger] watched@.contains(p) && parent(p) == Some(d);
                let j = choose|j: int| 0 <= j < all.len() && all[j] == p;
                assert(parent(all[j]) == Some(d));
            }
        }
        assert(dirs@ =~= watch_dirs(watched@, config_dir@));
    }
    dirs
}

/// Whether a change at a path means a change of style: it is a watched file, or the directory of
/// one that was replaced or removed.
pub open spec fn style_path(path: PathView, watched: Set<PathView>) -> bool {
    watched.contains(path) || exists|w: PathView| #[trigger] watched.contains(w) && parent(w) == Some(path)
}

/// Whether a change at a path means a change of style.
pub fn is_style_change_path(path: &NormalPath, watched: &PathSet) -> (yes: bool)
    ensures
        yes == style_path(path@, watched@),
{
    if watched.contains(path) {
        return true;
    }
    let paths = watched.paths();
    let ghost all = path_views(paths@);
    let mut i: usize = 0;
    while i < paths.len()
        invariant
            i <= paths@.len(),
            all == path_views(paths@),
            all == watched.list(),
            forall|j: int| 0 <= j < i ==> parent(#[trigger] all[j]) != Some(path@),
        decreases paths@.len() - i,
    {
        assert(all[i as int] == paths@[i as int]@);
        match paths[i].parent() {
            Some(dir) => {
                if dir.same(path) {
                    proof {
                        assert(watched@.contains(all[i as int]));
                    }
                    return true;
                }
            }
            None => {}
        }
        i += 1;
    }
    proof {
        if exists|w: PathView| #[trigger] watched@.contains(w) && parent(w) == Some(path@) {
            let w = choose|w: PathView| #[trigger] watched@.contains(w) && parent(w) == Some(path@);
            let j = choose|j: int| 0 <= j < all.len() && all[j] == w;
            assert(parent(all[j]) == Some(path@));
        }
    }
    false
}

/// What became of watching a directory.
#[derive(Clone, Copy, Debug, PartialEq, Eq, Structural)]
pub enum Armed {
    /// There is no such directory.
    Absent,
    Watching,
    Refused,
}

/// The directories of a list with an outcome.
pub open spec fn with_outcome(dirs: Seq<PathView>, outcomes: Seq<Armed>, wanted: Armed) -> Set<PathView> {
    Set::new(|d: PathView| exists|i: int| 0 <= i < dirs.len() && (#[trigger] dirs[i]) == d && outcomes[i] == wanted)
}

/// The directories that are now watched; `failed` holds those that could not be, and what was
/// refused before and is no longer asked for leaves it.
pub fn arm_style_dirs(dirs: &PathSet, outcomes: &Vec<Armed>, failed: &mut PathSet) -> (result: (PathSet, PathSet))
    requires
        outcomes@.len() == dirs.list().len(),
    ensures
        result.0@ == with_outcome(dirs.list(), outcomes@, Armed::Watching),
        result.1@ == with_outcome(dirs.list(), outcomes@, Armed::Refused).difference(old(failed)@),
        final(failed)@ == old(failed)@.intersect(dirs@).difference(result.0@).union(
            with_outcome(dirs.list(), outcomes@, Armed::Refused),
        ),
{
    let ghost given = failed@;
    let ghost all = dirs.list();
    let paths = dirs.paths();
    let mut armed = PathSet::new();
    let mut refused = PathSet::new();
    let mut i: usize = 0;
    while i < paths.len()
        invariant
            i <= paths@.len(),
            all == path_views(paths@),
            outcomes@.len() == all.len(),
            forall|d: PathView|
                armed@.contains(d) <==> exists|j: int|
                    0 <= j < i && (#[trigger] all[j]) == d && outcomes@[j] == Armed::Watching,
            forall|d: PathView|
                refused@.contains(d) <==> exists|j: int|
                    0 <= j < i && (#[trigger] all[j]) == d && outcomes@[j] == Armed::Refused,
        decreases paths@.len() - i,
    {
        let ghost a = armed@;
        let ghost r = refused@;
        assert(all[i as int] == paths@[i as int]@);
        match outcomes[i] {
            Armed::Absent => {}
            Armed::Watching => {
                armed.insert(paths[i].copy());
            }
            Armed::Refused => {
                refused.insert(paths[i].copy());
            }
        }
        proof {
            assert forall|d: PathView| armed@.contains(d) <==> exists|j: int|
                0 <= j < i + 1 && (#[trigger] all[j]) == d && outcomes@[j] == Armed::Watching by {
                if a.contains(d) {
                    let j = choose|j: int| 0 <= j < i && (#[trigger] all[j]) == d && outcomes@[j] == Armed::Watching;
                    assert(0 <= j < i + 1);
                }
                if armed@.contains(d) && !a.contains(d) {
                    assert(all[i as int] == d);
                }
            }
            assert forall|d: PathView| refused@.contains(d) <==> exists|j: int|
                0 <= j < i + 1 && (#[trigger] all[j]) == d && outcomes@[j] == Armed::Refused by {
                if r.contains(d) {
                    let j = choose|j: int| 0 <= j < i && (#[trigger] all[j]) == d && outcomes@[j] == Armed::Refused;
                    assert(0 <= j < i + 1);
                }
                if refused@.contains(d) && !r.contains(d) {
                    assert(all[i as int] == d);
                }
            }
        }
        i += 1;
    }
    proof {
        assert(armed@ =~= with_outcome(all, outcomes@, Armed::Watching));
        assert(refused@ =~= with_outcome(all, outcomes@, Armed::Refused));
    }
    let fresh = refused.difference(failed);
    let unasked = failed.difference(dirs);
    let mut kept = failed.difference(&unasked);
    kept = kept.difference(&armed);
    kept.extend(&refused);
    proof {
        assert(kept@ =~= given.intersect(dirs@).difference(armed@).union(refused@));
    }
    *failed = kept;
    (armed, fresh)
}

/// The watcher of the configuration and of the style sheets.
#[derive(Debug)]
pub struct StyleWatcher {
    /// The file of the configuration.
    pub config: NormalPath,
    /// Files whose change means a change of style.
    pub watched: PathSet,
    /// The directories that are to be watched.
    pub desired: PathSet,
    /// The directories that are watched.
    pub armed: PathSet,
    pub needs_rescan: bool,
}

/// What a [`StyleWatcher`] holds.
pub struct WatcherView {
    pub config: PathView,
    pub watched: Set<PathView>,
    pub desired: Set<PathView>,
    pub armed: Set<PathView>,
    pub needs_rescan: bool,
}

impl View for StyleWatcher {
    type V = WatcherView;

    open spec fn view(&self) -> WatcherView {
        WatcherView {
            config: self.config@,
            watched: self.watched@,
            desired: self.desired@,
            armed: self.armed@,
            needs_rescan: self.needs_rescan,
        }
    }
}

/// The directory that is watched for the configuration.
pub open spec fn config_watch_dir(config: PathView) -> PathView {
    match parent(config) {
        Some(dir) => dir,
        None => config,
    }
}

/// What changes of files ask for.
#[derive(Clone, Copy, Debug, PartialEq, Eq, Structural)]
pub struct FileChange {
    /// The configuration is to be read again.
    pub reload_config: bool,
    /// The style sheets are to be loaded again.
    pub reload_style: bool,
}

/// Some vanished files of a list: those in `missing`, at most `limit` of them, in order.
pub open spec fn vanished(list: Seq<PathView>, missing: Set<PathView>, limit: nat) -> Set<PathView>
    decreases list.len(),
{
    if list.len() == 0 || limit == 0 {
        Set::empty()
    } else if missing.contains(list[0]) {
        vanished(list.drop_first(), missing, (limit - 1) as nat).insert(list[0])
    } else {
        vanished(list.drop_first(), missing, limit)
    }
}

fn keep_vanished(list: &Vec<NormalPath>, missing: &PathSet, limit: usize, into: &mut PathSet)
    ensures
        final(into)@ == old(into)@.union(vanished(path_views(list@), missing@, limit as nat)),
{
    let ghost all = path_views(list@);
    let ghost start = into@;
    let mut left: usize = limit;
    let mut i: usize = 0;
    proof {
        assert(all.skip(0) =~= all);
    }
    while i < list.len() && left > 0
        invariant
            i <= list@.len(),
            all == path_views(list@),
            start.union(vanished(all, missing@, limit as nat)) == into@.union(
                vanished(all.skip(i as int), missing@, left as nat),
            ),
        decreases list@.len() - i,
    {
        let ghost before = into@;
        proof {
            assert(all.skip(i as int)[0] == list@[i as int]@);
            assert(all.skip(i as int).drop_first() =~= all.skip(i + 1));
        }
        if missing.contains(&list[i]) {
            into.insert(list[i].copy());
            left -= 1;
            proof {
                let rest = vanished(all.skip(i + 1), missing@, left as nat);
                assert(before.union(rest.insert(list@[i as int]@)) =~= into@.union(rest));
            }
        }
        i += 1;
    }
    proof {
        let rest = vanished(all.skip(i as int), missing@, left as nat);
        assert(rest =~= Set::empty());
        assert(into@.union(rest) =~= into@);
    }
}

/// Whether a path is written as that of the configuration.
pub open spec fn is_config_path(path: Seq<char>, config: PathView) -> bool {
    straight(path) && normalized(path) == config
}

impl StyleWatcher {
    /// A watcher that watches nothing yet.
    pub fn new(config: NormalPath, watched: PathSet) -> (watcher: Self)
        ensures
            watcher@ == (WatcherView {
                config: config@,
                watched: watched@,
                desired: watch_dirs(watched@, config_watch_dir(config@)),
                armed: Set::empty(),
                needs_rescan: false,
            }),
    {
        let dir = StyleWatcher::dir_of(&config);
        let desired = style_watch_dirs(&watched, &dir);
        StyleWatcher { config, watched, desired, armed: PathSet::new(), needs_rescan: false }
    }

    fn dir_of(config: &NormalPath) -> (dir: NormalPath)
        ensures
            dir@ == config_watch_dir(config@),
    {
        match config.parent() {
            Some(d) => d,
            None => config.copy(),
        }
    }

    /// The directory of the configuration.
    pub fn config_dir(&self) -> (dir: NormalPath)
        ensures
            dir@ == config_watch_dir(self@.config),
    {
        StyleWatcher::dir_of(&self.config)
    }

    /// Takes the directories over that are watched from the start.
    pub fn started(&mut self, now: PathSet)
        ensures
            final(self)@ == (WatcherView { armed: now@, ..old(self)@ }),
    {
        self.armed = now;
    }

    /// Takes changes at some paths over. A change of a style sheet has the imports looked at again.
    /// The configuration is known by its path alone, style sheets by where their paths lead.
    pub fn files_changed(&mut self, paths: &Vec<String>, working_dir: &Option<String>) -> (change: FileChange)
        ensures
            change.reload_config == exists|i: int|
                0 <= i < paths@.len() && is_config_path((#[trigger] paths@[i])@, old(self)@.config),
            change.reload_style == exists|i: int|
                0 <= i < paths@.len() && style_path(
                    normalized(made_absolute((#[trigger] paths@[i])@, chars_of(*working_dir))),
                    old(self)@.watched,
                ),
            final(self)@ == (WatcherView {
                needs_rescan: old(self)@.needs_rescan || change.reload_style,
                ..old(self)@
            }),
    {
        let ghost dir = chars_of(*working_dir);
        let mut reload_config = false;
        let mut reload_style = false;
        let mut i: usize = 0;
        while i < paths.len()
            invariant
                i <= paths@.len(),
                dir == chars_of(*working_dir),
                self@ == old(self)@,
                reload_config == exists|j: int|
                    0 <= j < i && is_config_path((#[trigger] paths@[j])@, self@.config),
                reload_style == exists|j: int|
                    0 <= j < i && style_path(
                        normalized(made_absolute((#[trigger] paths@[j])@, dir)),
                        self@.watched,
                    ),
            decreases paths@.len() - i,
        {
            let ghost was = (reload_config, reload_style);
            let path = paths[i].as_str();
            if is_straight(path) && normalize(path).same(&self.config) {
                reload_config = true;
            }
            let leads_to = normalize_path(path, working_dir);
            if is_style_change_path(&leads_to, &self.watched) {
                reload_style = true;
            }
            proof {
                if was.0 {
                    let j = choose|j: int| 0 <= j < i && is_config_path((#[trigger] paths@[j])@, self@.config);
                    assert(0 <= j < i + 1 && is_config_path(paths@[j]@, self@.config));
                }
                if was.1 {
                    let j = choose|j: int|
                        0 <= j < i && style_path(normalized(made_absolute((#[trigger] paths@[j])@, dir)), self@.watched);
                    assert(0 <= j < i + 1 && style_path(normalized(made_absolute(paths@[j]@, dir)), self@.watched));
                }
                if reload_config && !was.0 {
                    assert(is_config_path(paths@[i as int]@, self@.config));
                }
                if reload_style && !was.1 {
                    assert(style_path(normalized(made_absolute(paths@[i as int]@, dir)), self@.watched));
                }
            }
            i += 1;
        }
        if reload_style {
            self.needs_rescan = true;
        }
        FileChange { reload_config, reload_style }
    }

    /// Takes a failure of the watcher over: what changed is not known, so the style is loaded again.
    pub fn watch_failed(&mut self) -> (change: FileChange)
        ensures
            final(self)@ == (WatcherView { needs_rescan: true, ..old(self)@ }),
            change == (FileChange { reload_config: false, reload_style: true }),
    {
        self.needs_rescan = true;
        FileChange { reload_config: false, reload_style: true }
    }

    /// Begins a round and tells whether the imports are to be looked at again.
    pub fn begin_round(&mut self) -> (rescan: bool)
        ensures
            rescan == old(self)@.needs_rescan,
            final(self)@ == (WatcherView { needs_rescan: false, ..old(self)@ }),
    {
        let rescan = self.needs_rescan;
        self.needs_rescan = false;
        rescan
    }

    /// Takes the files to watch over that a new scan found, and tells whether the style is to be
    /// loaded again: a file found only now may have changed while it was not watched. Files that
    /// vanished, `missing`, stay watched for the case that they come back, up to a limit.
    pub fn rescanned(&mut self, found: PathSet, missing: &PathSet) -> (reload: bool)
        ensures
            reload == !found@.subset_of(old(self)@.watched),
            final(self)@.watched == found@.union(
                vanished(old(self).watched.list(), missing@, CSS_IMPORT_SCAN_LIMIT as nat),
            ),
            final(self)@ == (WatcherView {
                watched: final(self)@.watched,
                desired: watch_dirs(final(self)@.watched, config_watch_dir(old(self)@.config)),
                ..old(self)@
            }),
    {
        let reload = !found.is_subset(&self.watched);
        let mut watched = found;
        keep_vanished(self.watched.paths(), missing, CSS_IMPORT_SCAN_LIMIT, &mut watched);
        let dir = self.config_dir();
        self.desired = style_watch_dirs(&watched, &dir);
        self.watched = watched;
        reload
    }

    /// The directories to leave and the directories to watch. After a new scan every directory is
    /// watched anew.
    pub fn plan(&self, rescan: bool) -> (plan: (PathSet, PathSet))
        ensures
            plan.0@ == self@.armed.difference(self@.desired),
            plan.1@ == if rescan { self@.desired } else { self@.desired.difference(self@.armed) },
    {
        let stale = self.armed.difference(&self.desired);
        let wanted = if rescan { self.desired.copy() } else { self.desired.difference(&self.armed) };
        (stale, wanted)
    }

    /// Takes the directories over that are now watched, and tells whether the style is to be loaded
    /// again: a directory watched only now may hold changes already.
    pub fn end_round(&mut self, rescan: bool, now: PathSet) -> (reload: bool)
        ensures
            reload == !now@.subset_of(old(self)@.armed),
            final(self)@ == (WatcherView {
                armed: if rescan { now@ } else { old(self)@.armed.union(now@) },
                needs_rescan: old(self)@.needs_rescan || reload,
                ..old(self)@
            }),
    {
        let reload = !now.is_subset(&self.armed);
        if reload {
            self.needs_rescan = true;
        }
        if rescan {
            self.armed = now;
        } else {
            let mut armed = self.armed.copy();
            armed.extend(&now);
            self.armed = armed;
        }
        reload
    }
}

/// Without a new scan, a round in which every directory can be watched leaves all of them watched,
/// and the next round has nothing left to do.
pub proof fn rounds_settle(w: WatcherView)
    ensures
        ({
            let now = w.desired.difference(w.armed);
            let armed = w.armed.union(now);
            w.desired.subset_of(armed) && w.desired.difference(armed) == Set::<PathView>::empty()
        }),
{
    let now = w.desired.difference(w.armed);
    let armed = w.armed.union(now);
    assert(w.desired.difference(armed) =~= Set::<PathView>::empty());
}

/// A change concerns the style exactly if it is at a file that is watched, or at the directory of one.
pub proof fn watched_files_and_their_directories_count(path: PathView, file: PathView, watched: Set<PathView>)
    ensures
        watched.contains(path) ==> style_path(path, watched),
        watched.contains(file) && parent(file) == Some(path) ==> style_path(path, watched),
        style_path(path, watched) && !watched.contains(path) ==> exists|f: PathView| #[trigger]
            watched.contains(f) && parent(f) == Some(path),
{
}

/// Watched are the places where a sheet may be, the sheets that were read and where links lead, and nothing else. Their
/// directories are watched, but for that of the configuration, which is watched anyway.
pub proof fn all_sheets_and_their_places_are_watched(
    search: Seq<Seq<char>>,
    sheets: Set<PathView>,
    targets: Set<PathView>,
    working_dir: Option<Seq<char>>,
    p: PathView,
    dir: PathView,
    i: int,
)
    ensures
        ({
            let watched = watch_paths(search, sheets, targets, working_dir);
            &&& sheets.contains(p) || targets.contains(p) ==> watched.contains(p)
            &&& 0 <= i < search.len() ==> watched.contains(normalized(made_absolute(search[i], working_dir)))
            &&& watched.contains(p) && !sheets.contains(p) && !targets.contains(p) ==> exists|k: int|
                0 <= k < search.len() && normalized(made_absolute(#[trigger] search[k], working_dir)) == p
            &&& watched.contains(p) && parent(p) is Some ==> forall|config: PathView|
                parent(p)->0 != config ==> #[trigger] watch_dirs(watched, config).contains(parent(p)->0)
            &&& !watch_dirs(watched, dir).contains(dir)
        }),
{
    if 0 <= i < search.len() {
        let q = normalized(made_absolute(search[i], working_dir));
        assert(watch_paths(search, sheets, targets, working_dir).contains(q));
    }
}

/// At most 256 sheets are reached, each once, in the order in which they are imported.
pub proof fn sheets_are_read_once_in_order(s: ScanView)
    ensures
        s.pending.len() > 0 && !s.seen.contains(s.pending[0]) && s.seen.len() + 1 < 256 ==> advanced(s) == (
            ScanView { seen: s.seen.push(s.pending[0]), pending: s.pending.drop_first() },
            Some(s.pending[0]),
        ),
        s.pending.len() > 0 && s.seen.contains(s.pending[0]) ==> advanced(s) == advanced(
            ScanView { pending: s.pending.drop_first(), ..s },
        ),
        s.seen.len() + 1 >= 256 ==> advanced(s).1 is None,
        s.pending.len() == 0 ==> advanced(s).1 is None,
    decreases s.pending.len(),
{
    if s.pending.len() > 0 && s.seen.contains(s.pending[0]) {
        sheets_are_read_once_in_order(ScanView { pending: s.pending.drop_first(), ..s });
    }
}

/// Files that vanished and may come back are some of those that were watched, the first ones, up to a limit.
pub proof fn vanished_files_are_remembered(list: Seq<PathView>, missing: Set<PathView>, limit: nat, p: PathView)
    ensures
        vanished(list, missing, limit).contains(p) ==> list.contains(p) && missing.contains(p),
        list.len() <= limit && list.contains(p) && missing.contains(p) ==> vanished(list, missing, limit).contains(p),
        limit == 0 ==> !vanished(list, missing, limit).contains(p),
        vanished(list, missing, limit).finite(),
        vanished(list, missing, limit).len() <= limit,
    decreases list.len(),
{
    if list.len() > 0 && limit > 0 {
        let rest = list.drop_first();
        let less = if missing.contains(list[0]) { (limit - 1) as nat } else { limit };
        vanished_files_are_remembered(rest, missing, less, p);
        if rest.contains(p) {
            let i = choose|i: int| 0 <= i < rest.len() && rest[i] == p;
            assert(list[i + 1] == p);
        }
        assert(list.contains(list[0]));
        if list.contains(p) && p != list[0] {
            let i = choose|i: int| 0 <= i < list.len() && list[i] == p;
            assert(rest[i - 1] == p);
        }
    }
}

/// An import is a file within the directory of the sheet that imports it, or one from the root.
pub proof fn imports_lie_beside_their_sheet(importer: PathView, import: Seq<char>, working_dir: Option<Seq<char>>)
    requires
        importer.rooted,
        importer.names.len() > 0,
    ensures
        import.len() > 0 && import[0] == '/' ==> resolved(importer, import, working_dir) == normalized(import),
        !(import.len() > 0 && import[0] == '/') ==> resolved(importer, import, working_dir) == normalized(
            joined_path(path_text(PathView { rooted: true, names: importer.names.drop_last() }), import),
        ),
{
    let dir = path_text(PathView { rooted: true, names: importer.names.drop_last() });
    assert(dir[0] == '/');
    if !(import.len() > 0 && import[0] == '/') {
        let joined = joined_path(dir, import);
        assert(joined[0] == '/');
    }
}

/// Changes count for the configuration only under a path without detours that means its file. Its directory is watched;
/// one without a directory is watched itself.
pub proof fn configurations_are_told_by_their_path(path: Seq<char>, config: PathView, dir: PathView)
    ensures
        is_config_path(path, config) <==> normalized(path) == config && straight(path),
        parent(config) == Some(dir) ==> config_watch_dir(config) == dir,
        parent(config) is None ==> config_watch_dir(config) == config,
{
}

/// One more import adds the file that it means, if it means one, behind the files of those before.
pub proof fn imports_are_followed_in_order(
    importer: PathView,
    values: Seq<Seq<char>>,
    value: Seq<char>,
    working_dir: Option<Seq<char>>,
)
    ensures
        resolved_imports(importer, Seq::empty(), working_dir).len() == 0,
        ({
            let before = resolved_imports(importer, values, working_dir);
            let after = resolved_imports(importer, values.push(value), working_dir);
            &&& local_path(value) is None ==> after == before
            &&& local_path(value) is Some ==> after == before.push(
                resolved(importer, local_path(value)->0, working_dir),
            )
        }),
{
    assert(values.push(value).drop_last() =~= values);
}

/// What became of watching each directory is told of that directory and of no other.
pub proof fn outcomes_are_told_of_their_directory(dirs: Seq<PathView>, outcomes: Seq<Armed>, wanted: Armed, i: int)
    requires
        dirs.len() == outcomes.len(),
        0 <= i < dirs.len(),
        forall|j: int, k: int| #![trigger dirs[j], dirs[k]] 0 <= j < k < dirs.len() ==> dirs[j] != dirs[k],
    ensures
        with_outcome(dirs, outcomes, wanted).contains(dirs[i]) <==> outcomes[i] == wanted,
        forall|d: PathView| #[trigger] with_outcome(dirs, outcomes, wanted).contains(d) ==> dirs.contains(d),
{
    if with_outcome(dirs, outcomes, wanted).contains(dirs[i]) {
        let j = choose|j: int| 0 <= j < dirs.len() && (#[trigger] dirs[j]) == dirs[i] && outcomes[j] == wanted;
        if j < i {
            assert(dirs[j] != dirs[i]);
        }
        if i < j {
            assert(dirs[i] != dirs[j]);
        }
    }
}

} // verus!
