//! Paths of files, taken apart into names.

use vstd::prelude::*;
use vstd::string::*;
use crate::text::{self, chars_of, views};

verus! {

/// The pieces of a text between the separators `c`.
pub open spec fn split(s: Seq<char>, c: char) -> Seq<Seq<char>>
    decreases s.len(),
{
    if s.len() == 0 {
        seq![Seq::empty()]
    } else {
        let before = split(s.drop_last(), c);
        if s.last() == c {
            before.push(Seq::empty())
        } else {
            before.drop_last().push(before.last().push(s.last()))
        }
    }
}

/// A path that holds neither `.` nor `..`.
#[derive(Debug)]
pub struct NormalPath {
    /// Whether the path begins at the root.
    pub rooted: bool,
    pub names: Vec<String>,
}

/// What a [`NormalPath`] holds.
pub struct PathView {
    pub rooted: bool,
    pub names: Seq<Seq<char>>,
}

impl View for NormalPath {
    type V = PathView;

    open spec fn view(&self) -> PathView {
        PathView { rooted: self.rooted, names: views(self.names@) }
    }
}

/// What an optional path holds.
pub open spec fn path_of(path: Option<NormalPath>) -> Option<PathView> {
    match path {
        Some(p) => Some(p@),
        None => None,
    }
}

/// The names after one more piece: `.` and nothing stay, `..` goes up.
pub open spec fn entered(names: Seq<Seq<char>>, piece: Seq<char>) -> Seq<Seq<char>> {
    if piece.len() == 0 || piece == seq!['.'] {
        names
    } else if piece == seq!['.', '.'] {
        if names.len() > 0 { names.drop_last() } else { names }
    } else {
        names.push(piece)
    }
}

/// The names after several pieces.
pub open spec fn walked(pieces: Seq<Seq<char>>) -> Seq<Seq<char>>
    decreases pieces.len(),
{
    if pieces.len() == 0 {
        Seq::empty()
    } else {
        entered(walked(pieces.drop_last()), pieces.last())
    }
}

/// Whether a path begins at the root.
pub open spec fn absolute(path: Seq<char>) -> bool {
    path.len() > 0 && path[0] == '/'
}

/// A path without `.` and `..`, by its text alone.
pub open spec fn normalized(path: Seq<char>) -> PathView {
    PathView { rooted: absolute(path), names: walked(split(path, '/')) }
}

/// The directory of a path; a path without names has none.
pub open spec fn parent(path: PathView) -> Option<PathView> {
    if path.names.len() > 0 {
        Some(PathView { names: path.names.drop_last(), ..path })
    } else {
        None
    }
}

/// How many characters of a path stand before its names: `/`, or `.` if the path begins with that
/// piece.
pub open spec fn lead(path: Seq<char>) -> int {
    if path.len() > 0 && (path[0] == '/' || (path[0] == '.' && (path.len() == 1 || path[1] == '/'))) {
        1
    } else {
        0
    }
}

/// Where the last piece of the first `end` characters begins, behind the lead.
pub open spec fn piece_start(path: Seq<char>, lead: int, end: int) -> int
    decreases end - lead,
{
    if end <= lead {
        lead
    } else if path[end - 1] == '/' {
        end
    } else {
        piece_start(path, lead, end - 1)
    }
}

/// Where what stands before a piece ends: at the separator, or at the lead.
pub open spec fn before_piece(lead: int, start: int) -> int {
    if start > lead {
        start - 1
    } else {
        lead
    }
}

/// A piece begins behind the lead and not behind its end.
pub proof fn pieces_lie_behind_the_lead(path: Seq<char>, lead: int, end: int)
    ensures
        lead <= end ==> lead <= piece_start(path, lead, end) <= end,
    decreases end - lead,
{
    if end > lead && path[end - 1] != '/' {
        pieces_lie_behind_the_lead(path, lead, end - 1);
    }
}

/// The first `end` characters of a path without the pieces at their end that say nothing: empty
/// ones and `.`.
pub open spec fn bare_end(path: Seq<char>, lead: int, end: int) -> int
    decreases end - lead,
{
    if end <= lead {
        lead
    } else {
        proof {
            pieces_lie_behind_the_lead(path, lead, end);
        }
        let start = piece_start(path, lead, end);
        let piece = path.subrange(start, end);
        if piece.len() == 0 || piece == seq!['.'] {
            bare_end(path, lead, before_piece(lead, start))
        } else {
            end
        }
    }
}

/// The directory of a path as the path writes it: what stands before its last piece. Pieces that say
/// nothing do not count. A path that is only a root, or nothing, has none.
pub open spec fn written_parent(path: Seq<char>) -> Option<Seq<char>> {
    let lead = lead(path);
    let end = bare_end(path, lead, path.len() as int);
    if end > lead {
        Some(path.take(bare_end(path, lead, before_piece(lead, piece_start(path, lead, end)))))
    } else if lead == 1 && path[0] == '.' {
        Some(Seq::empty())
    } else {
        None
    }
}

/// The names of a path with `/` between them.
pub open spec fn between_slashes(names: Seq<Seq<char>>) -> Seq<char>
    decreases names.len(),
{
    if names.len() == 0 {
        Seq::empty()
    } else if names.len() == 1 {
        names[0]
    } else {
        between_slashes(names.drop_last()) + seq!['/'] + names.last()
    }
}

/// A path as a text.
pub open spec fn path_text(path: PathView) -> Seq<char> {
    if path.rooted {
        seq!['/'] + between_slashes(path.names)
    } else {
        between_slashes(path.names)
    }
}

/// A path within a directory, as texts; a path from the root stands for itself.
pub open spec fn joined_path(dir: Seq<char>, path: Seq<char>) -> Seq<char> {
    if absolute(path) || dir.len() == 0 {
        path
    } else if dir.last() == '/' {
        dir + path
    } else {
        dir + seq!['/'] + path
    }
}

/// Whether a path begins at the root.
pub fn is_absolute(path: &str) -> (yes: bool)
    ensures
        yes == absolute(path@),
{
    let chars = text::to_chars(path);
    chars.len() > 0 && chars[0] == '/'
}

/// A path within a directory.
pub fn join_path(dir: &str, path: &str) -> (whole: String)
    ensures
        whole@ == joined_path(dir@, path@),
{
    let chars = text::to_chars(dir);
    if is_absolute(path) || chars.len() == 0 {
        path.to_string()
    } else if chars[chars.len() - 1] == '/' {
        text::joined(dir, path)
    } else {
        proof {
            reveal_strlit("/");
        }
        let start = text::joined(dir, "/");
        proof {
            assert("/"@ =~= seq!['/']);
        }
        text::joined(start.as_str(), path)
    }
}

/// A path from the root: relative ones are within the working directory, if there is one.
pub open spec fn made_absolute(path: Seq<char>, working_dir: Option<Seq<char>>) -> Seq<char> {
    if absolute(path) {
        path
    } else {
        match working_dir {
            Some(dir) => joined_path(dir, path),
            None => path,
        }
    }
}

/// A path from the root: relative ones are within the working directory, if there is one.
pub fn make_absolute(path: &str, working_dir: &Option<String>) -> (whole: String)
    ensures
        whole@ == made_absolute(path@, text::chars_of(*working_dir)),
{
    if is_absolute(path) {
        return path.to_string();
    }
    match working_dir {
        Some(dir) => join_path(dir.as_str(), path),
        None => path.to_string(),
    }
}

/// The pieces of a text between the separators `c`.
pub fn split_on(s: &str, c: char) -> (pieces: Vec<String>)
    ensures
        views(pieces@) == split(s@, c),
{
    let chars = text::to_chars(s);
    let mut pieces: Vec<String> = Vec::new();
    let mut start: usize = 0;
    let mut i: usize = 0;
    proof {
        assert(s@.take(0) =~= Seq::empty());
        assert(views(pieces@).push(s@.subrange(0, 0)) =~= split(s@.take(0), c));
    }
    while i < chars.len()
        invariant
            start <= i <= chars@.len(),
            chars@ == s@,
            views(pieces@).push(s@.subrange(start as int, i as int)) == split(s@.take(i as int), c),
        decreases chars@.len() - i,
    {
        let ghost before = views(pieces@);
        let ghost open = s@.subrange(start as int, i as int);
        proof {
            assert(s@.take(i + 1).drop_last() =~= s@.take(i as int));
        }
        if chars[i] == c {
            pieces.push(text::slice(&chars, start, i));
            start = i + 1;
            proof {
                assert(views(pieces@) =~= before.push(open));
                assert(s@.subrange(i + 1, i + 1) =~= Seq::empty());
            }
        } else {
            proof {
                assert(s@.subrange(start as int, i + 1) =~= open.push(s@[i as int]));
                assert(before.push(open).drop_last() =~= before);
            }
        }
        i += 1;
    }
    let ghost before = views(pieces@);
    pieces.push(text::slice(&chars, start, i));
    proof {
        assert(s@.take(i as int) =~= s@);
        assert(views(pieces@) =~= before.push(s@.subrange(start as int, i as int)));
    }
    pieces
}

/// A path without `.` and `..`, by its text alone.
pub fn normalize(path: &str) -> (normal: NormalPath)
    ensures
        normal@ == normalized(path@),
{
    let pieces = split_on(path, '/');
    let ghost all = views(pieces@);
    let mut names: Vec<String> = Vec::new();
    let mut i: usize = 0;
    proof {
        assert(all.take(0) =~= Seq::empty());
        assert(views(names@) =~= Seq::empty());
        reveal_strlit(".");
        reveal_strlit("..");
        assert("."@ =~= seq!['.']);
        assert(".."@ =~= seq!['.', '.']);
        reveal_strlit("");
    }
    while i < pieces.len()
        invariant
            i <= pieces@.len(),
            all == views(pieces@),
            views(names@) == walked(all.take(i as int)),
            "."@ == seq!['.'],
            ".."@ == seq!['.', '.'],
            ""@.len() == 0,
        decreases pieces@.len() - i,
    {
        let piece = &pieces[i];
        let ghost before = views(names@);
        proof {
            assert(all.take(i + 1).drop_last() =~= all.take(i as int));
            assert(all.take(i + 1).last() == piece@);
            if piece@.len() == 0 {
                assert(piece@ =~= ""@);
            }
        }
        if text::str_eq(piece.as_str(), "") || text::str_eq(piece.as_str(), ".") {
        } else if text::str_eq(piece.as_str(), "..") {
            if names.len() > 0 {
                names.pop();
                proof {
                    assert(views(names@) =~= before.drop_last());
                }
            }
        } else {
            names.push(piece.clone());
            proof {
                assert(views(names@) =~= before.push(piece@));
            }
        }
        i += 1;
    }
    proof {
        assert(all.take(i as int) =~= all);
    }
    NormalPath { rooted: is_absolute(path), names }
}

/// Whether a path begins at the root and never goes up.
pub open spec fn straight(path: Seq<char>) -> bool {
    absolute(path) && !split(path, '/').contains(".."@)
}

/// Whether a path begins at the root and never goes up.
pub fn is_straight(path: &str) -> (yes: bool)
    ensures
        yes == straight(path@),
{
    is_absolute(path) && !text::list_contains(&split_on(path, '/'), "..")
}

/// A path from the root without `.` and `..`.
pub fn normalize_path(path: &str, working_dir: &Option<String>) -> (normal: NormalPath)
    ensures
        normal@ == normalized(made_absolute(path@, text::chars_of(*working_dir))),
{
    let whole = make_absolute(path, working_dir);
    normalize(whole.as_str())
}

fn copy_names(names: &Vec<String>, n: usize) -> (copy: Vec<String>)
    requires
        n <= names@.len(),
    ensures
        views(copy@) == views(names@).take(n as int),
{
    let mut copy: Vec<String> = Vec::new();
    let mut i: usize = 0;
    while i < n
        invariant
            i <= n <= names@.len(),
            copy@.len() == i,
            forall|j: int| 0 <= j < i ==> (#[trigger] copy@[j])@ == names@[j]@,
        decreases n - i,
    {
        copy.push(names[i].clone());
        i += 1;
    }
    proof {
        assert(views(copy@) =~= views(names@).take(n as int));
    }
    copy
}

fn read_piece_start(chars: &Vec<char>, lead: usize, end: usize) -> (start: usize)
    requires
        lead <= end <= chars@.len(),
    ensures
        start == piece_start(chars@, lead as int, end as int),
        lead <= start <= end,
{
    let mut start: usize = end;
    while start > lead && chars[start - 1] != '/'
        invariant
            lead <= start <= end <= chars@.len(),
            piece_start(chars@, lead as int, end as int) == piece_start(chars@, lead as int, start as int),
        decreases start,
    {
        start -= 1;
    }
    start
}

fn read_bare_end(chars: &Vec<char>, lead: usize, end: usize) -> (bare: usize)
    requires
        lead <= end <= chars@.len(),
    ensures
        bare == bare_end(chars@, lead as int, end as int),
        lead <= bare <= end,
{
    let mut bare: usize = end;
    while bare > lead
        invariant
            lead <= bare <= end <= chars@.len(),
            bare_end(chars@, lead as int, end as int) == bare_end(chars@, lead as int, bare as int),
        decreases bare,
    {
        let start: usize = read_piece_start(chars, lead, bare);
        let ghost piece = chars@.subrange(start as int, bare as int);
        let silent = start == bare || (bare - start == 1 && chars[start] == '.');
        proof {
            if silent && start != bare {
                assert(piece =~= seq!['.']);
            }
            if piece == seq!['.'] {
                assert(piece[0] == '.' && piece.len() == 1);
            }
        }
        if !silent {
            return bare;
        }
        bare = if start > lead { start - 1 } else { lead };
    }
    bare
}

/// The directory of a path as the path writes it.
pub fn parent_as_written(path: &str) -> (dir: Option<String>)
    ensures
        chars_of(dir) == written_parent(path@),
{
    let chars = text::to_chars(path);
    let n: usize = chars.len();
    let lead: usize = if n > 0 && (chars[0] == '/' || (chars[0] == '.' && (n == 1 || chars[1] == '/'))) { 1 } else { 0 };
    let end: usize = read_bare_end(&chars, lead, n);
    if end > lead {
        let start: usize = read_piece_start(&chars, lead, end);
        let before: usize = if start > lead { start - 1 } else { lead };
        let stop: usize = read_bare_end(&chars, lead, before);
        let dir = text::slice(&chars, 0, stop);
        proof {
            assert(dir@ =~= path@.take(stop as int));
        }
        Some(dir)
    } else if lead == 1 && chars[0] == '.' {
        Some(String::new())
    } else {
        None
    }
}

impl NormalPath {
    /// The directory of the path.
    pub fn parent(&self) -> (dir: Option<NormalPath>)
        ensures
            path_of(dir) == parent(self@),
    {
        if self.names.len() == 0 {
            return None;
        }
        let names = copy_names(&self.names, self.names.len() - 1);
        proof {
            assert(views(self.names@).take(self.names@.len() - 1) =~= views(self.names@).drop_last());
        }
        Some(NormalPath { rooted: self.rooted, names })
    }

    pub fn same(&self, other: &NormalPath) -> (yes: bool)
        ensures
            yes == (self@ == other@),
    {
        self.rooted == other.rooted && text::same_texts(&self.names, &other.names)
    }

    pub fn copy(&self) -> (copy: NormalPath)
        ensures
            copy@ == self@,
    {
        let names = copy_names(&self.names, self.names.len());
        proof {
            assert(views(self.names@).take(self.names@.len() as int) =~= views(self.names@));
        }
        NormalPath { rooted: self.rooted, names }
    }

    /// The path as a text.
    pub fn to_text(&self) -> (s: String)
        ensures
            s@ == path_text(self@),
    {
        let ghost all = views(self.names@);
        let mut out = String::new();
        let mut i: usize = 0;
        proof {
            reveal_strlit("/");
            assert("/"@ =~= seq!['/']);
            assert(all.take(0) =~= Seq::empty());
            assert(out@ =~= between_slashes(all.take(0)));
        }
        while i < self.names.len()
            invariant
                i <= self.names@.len(),
                all == views(self.names@),
                "/"@ == seq!['/'],
                out@ == between_slashes(all.take(i as int)),
            decreases self.names@.len() - i,
        {
            proof {
                assert(all.take(i + 1).drop_last() =~= all.take(i as int));
                assert(all.take(i + 1).last() == self.names@[i as int]@);
            }
            if i == 0 {
                out = self.names[i].clone();
            } else {
                let start = text::joined(out.as_str(), "/");
                out = text::joined(start.as_str(), self.names[i].as_str());
            }
            i += 1;
        }
        proof {
            assert(all.take(i as int) =~= all);
        }
        if self.rooted {
            text::joined("/", out.as_str())
        } else {
            out
        }
    }
}

/// What the paths of a list hold.
pub open spec fn path_views(paths: Seq<NormalPath>) -> Seq<PathView> {
    paths.map_values(|p: NormalPath| p@)
}

/// A set of paths that keeps the order in which they came.
#[derive(Debug)]
pub struct PathSet {
    items: Vec<NormalPath>,
}

impl View for PathSet {
    type V = Set<PathView>;

    open spec fn view(&self) -> Set<PathView> {
        self.list().to_set()
    }
}

impl PathSet {
    #[verifier::type_invariant]
    spec fn items_are_distinct(self) -> bool {
        path_views(self.items@).no_duplicates()
    }

    /// The paths, in their order.
    pub closed spec fn list(self) -> Seq<PathView> {
        path_views(self.items@)
    }

    pub fn new() -> (set: Self)
        ensures
            set.list() == Seq::<PathView>::empty(),
            set@ == Set::<PathView>::empty(),
    {
        let set = PathSet { items: Vec::new() };
        proof {
            assert(set.list() =~= Seq::<PathView>::empty());
            assert(set@ =~= Set::<PathView>::empty());
        }
        set
    }

    /// The paths, in their order.
    pub fn paths(&self) -> (items: &Vec<NormalPath>)
        ensures
            path_views(items@) == self.list(),
            self.list().no_duplicates(),
    {
        proof {
            use_type_invariant(self);
        }
        &self.items
    }

    pub fn len(&self) -> (n: usize)
        ensures
            n == self.list().len(),
            self@.finite(),
            n == self@.len(),
    {
        proof {
            use_type_invariant(self);
            self.list().unique_seq_to_set();
        }
        self.items.len()
    }

    pub fn contains(&self, path: &NormalPath) -> (yes: bool)
        ensures
            yes == self@.contains(path@),
    {
        let ghost all = self.list();
        let mut i: usize = 0;
        while i < self.items.len()
            invariant
                i <= self.items@.len(),
                all == path_views(self.items@),
                all == self.list(),
                forall|j: int| 0 <= j < i ==> #[trigger] all[j] != path@,
            decreases self.items@.len() - i,
        {
            if self.items[i].same(path) {
                proof {
                    assert(all[i as int] == path@);
                }
                return true;
            }
            i += 1;
        }
        false
    }

    /// Adds a path behind the others and tells whether it is new.
    pub fn insert(&mut self, path: NormalPath) -> (new: bool)
        ensures
            new == !old(self)@.contains(path@),
            final(self).list() == if new { old(self).list().push(path@) } else { old(self).list() },
            final(self)@ == old(self)@.insert(path@),
    {
        proof {
            use_type_invariant(&*self);
        }
        let ghost before = self.list();
        if self.contains(&path) {
            proof {
                assert(self@.insert(path@) =~= self@);
            }
            return false;
        }
        let mut items: Vec<NormalPath> = Vec::new();
        std::mem::swap(&mut self.items, &mut items);
        let ghost added = path@;
        items.push(path);
        proof {
            let after = path_views(items@);
            assert(after =~= before.push(added));
            assert(after.to_set() =~= before.to_set().insert(added)) by {
                assert forall|x: PathView| after.to_set().contains(x) == before.to_set().insert(added).contains(x) by {
                    if before.contains(x) {
                        let k = choose|k: int| 0 <= k < before.len() && before[k] == x;
                        assert(after[k] == x);
                    }
                    assert(after[before.len() as int] == added);
                }
            }
        }
        self.items = items;
        true
    }

    /// Whether every path is in the other set.
    pub fn is_subset(&self, other: &PathSet) -> (yes: bool)
        ensures
            yes == self@.subset_of(other@),
    {
        let ghost all = self.list();
        let mut i: usize = 0;
        while i < self.items.len()
            invariant
                i <= self.items@.len(),
                all == path_views(self.items@),
                all == self.list(),
                forall|j: int| 0 <= j < i ==> other@.contains(#[trigger] all[j]),
            decreases self.items@.len() - i,
        {
            assert(all[i as int] == self.items@[i as int]@);
            if !other.contains(&self.items[i]) {
                proof {
                    assert(self@.contains(all[i as int]));
                }
                return false;
            }
            i += 1;
        }
        true
    }

    /// The paths that the other set does not have.
    pub fn difference(&self, other: &PathSet) -> (rest: PathSet)
        ensures
            rest@ == self@.difference(other@),
    {
        let ghost all = self.list();
        let mut rest = PathSet::new();
        let mut i: usize = 0;
        while i < self.items.len()
            invariant
                i <= self.items@.len(),
                all == path_views(self.items@),
                all == self.list(),
                rest@ == all.take(i as int).to_set().difference(other@),
            decreases self.items@.len() - i,
        {
            assert(all[i as int] == self.items@[i as int]@);
            let ghost held = rest@;
            if !other.contains(&self.items[i]) {
                rest.insert(self.items[i].copy());
            }
            proof {
                lemma_take_to_set(all, i as int);
                assert(rest@ =~= all.take(i + 1).to_set().difference(other@));
            }
            i += 1;
        }
        proof {
            assert(all.take(i as int) =~= all);
        }
        rest
    }

    /// Adds the paths of another set.
    pub fn extend(&mut self, other: &PathSet)
        ensures
            final(self)@ == old(self)@.union(other@),
    {
        let ghost before = self@;
        let ghost all = other.list();
        let mut i: usize = 0;
        proof {
            assert(all.take(0).to_set() =~= Set::empty());
            assert(self@ =~= before.union(all.take(0).to_set()));
        }
        while i < other.items.len()
            invariant
                i <= other.items@.len(),
                all == path_views(other.items@),
                all == other.list(),
                self@ == before.union(all.take(i as int).to_set()),
            decreases other.items@.len() - i,
        {
            assert(all[i as int] == other.items@[i as int]@);
            self.insert(other.items[i].copy());
            proof {
                lemma_take_to_set(all, i as int);
                assert(self@ =~= before.union(all.take(i + 1).to_set()));
            }
            i += 1;
        }
        proof {
            assert(all.take(i as int) =~= all);
        }
    }

    pub fn copy(&self) -> (copy: PathSet)
        ensures
            copy@ == self@,
    {
        let mut copy = PathSet::new();
        copy.extend(self);
        proof {
            assert(copy@ =~= self@);
        }
        copy
    }
}

proof fn lemma_take_to_set(all: Seq<PathView>, i: int)
    requires
        0 <= i < all.len(),
    ensures
        all.take(i + 1).to_set() == all.take(i).to_set().insert(all[i]),
{
    let long = all.take(i + 1);
    let short = all.take(i);
    let a = long.to_set();
    let b = short.to_set().insert(all[i]);
    assert forall|x: PathView| a.contains(x) == b.contains(x) by {
        if short.contains(x) {
            let k = choose|k: int| 0 <= k < short.len() && #[trigger] short[k] == x;
            assert(long[k] == x);
        }
        if long.contains(x) {
            let k = choose|k: int| 0 <= k < long.len() && #[trigger] long[k] == x;
            if k < i {
                assert(short[k] == x);
            }
        }
        assert(long[i] == all[i]);
    }
    assert(a =~= b);
}

/// Names that neither stay nor go up keep their place when walked again.
spec fn plain(names: Seq<Seq<char>>) -> bool {
    forall|i: int|
        0 <= i < names.len() ==> (#[trigger] names[i]).len() > 0 && names[i] != seq!['.'] && names[i] != seq!['.', '.']
}

proof fn lemma_walked_is_plain(pieces: Seq<Seq<char>>)
    ensures
        plain(walked(pieces)),
    decreases pieces.len(),
{
    if pieces.len() > 0 {
        lemma_walked_is_plain(pieces.drop_last());
    }
}

/// A normal path holds neither empty names nor `.` nor `..`.
pub proof fn normal_names(path: Seq<char>, i: int)
    requires
        0 <= i < normalized(path).names.len(),
    ensures
        normalized(path).names[i].len() > 0,
        normalized(path).names[i] != seq!['.'],
        normalized(path).names[i] != seq!['.', '.'],
{
    lemma_walked_is_plain(split(path, '/'));
}

proof fn lemma_pieces(s: Seq<char>, c: char)
    ensures
        split(s, c).len() > 0,
        forall|i: int| 0 <= i < split(s, c).len() ==> !(#[trigger] split(s, c)[i]).contains(c),
    decreases s.len(),
{
    if s.len() > 0 {
        lemma_pieces(s.drop_last(), c);
        let before = split(s.drop_last(), c);
        let all = split(s, c);
        assert forall|i: int| 0 <= i < all.len() implies !(#[trigger] all[i]).contains(c) by {
            if i < before.len() - 1 {
                assert(all[i] == before[i]);
            } else if s.last() == c && i == before.len() - 1 {
                assert(all[i] == before[i]);
            } else if s.last() != c {
                assert(all[i] == before.last().push(s.last()));
                if all[i].contains(c) {
                    let k = choose|k: int| 0 <= k < all[i].len() && #[trigger] all[i][k] == c;
                    assert(before.last()[k] == c);
                }
            }
        }
    } else {
        assert(!Seq::<char>::empty().contains(c));
    }
}

/// A piece without separators behind a separator is the last piece.
pub proof fn split_behind(a: Seq<char>, b: Seq<char>, c: char)
    requires
        !b.contains(c),
    ensures
        split(a + seq![c] + b, c) == split(a, c).push(b),
    decreases b.len(),
{
    let whole = a + seq![c] + b;
    if b.len() == 0 {
        assert(whole.drop_last() =~= a);
        assert(whole.last() == c);
        assert(b =~= Seq::empty());
    } else {
        let shorter = b.drop_last();
        assert forall|k: int| 0 <= k < shorter.len() implies shorter[k] != c by {
            assert(b[k] == shorter[k]);
            assert(b.contains(b[k]));
        }
        assert(b.contains(b.last()));
        split_behind(a, shorter, c);
        assert(whole.drop_last() =~= a + seq![c] + shorter);
        assert(split(a, c).push(shorter).drop_last() =~= split(a, c));
        assert(shorter.push(b.last()) =~= b);
    }
}

/// A text without separators is one piece.
pub proof fn split_single(b: Seq<char>, c: char)
    requires
        !b.contains(c),
    ensures
        split(b, c) == seq![b],
    decreases b.len(),
{
    if b.len() > 0 {
        let shorter = b.drop_last();
        assert forall|k: int| 0 <= k < shorter.len() implies shorter[k] != c by {
            assert(b[k] == shorter[k]);
            assert(b.contains(b[k]));
        }
        assert(b.contains(b.last()));
        split_single(shorter, c);
        assert(shorter.push(b.last()) =~= b);
        assert(split(b, c) =~= seq![b]);
    } else {
        assert(b =~= Seq::empty());
    }
}

proof fn lemma_split_ahead(x: Seq<char>, c: char)
    ensures
        split(seq![c] + x, c) == seq![Seq::<char>::empty()] + split(x, c),
    decreases x.len(),
{
    let whole = seq![c] + x;
    reveal_with_fuel(split, 2);
    if x.len() == 0 {
        assert(whole.drop_last() =~= Seq::empty());
        assert(whole.last() == c);
        assert(split(whole, c) =~= seq![Seq::<char>::empty()] + split(x, c));
    } else {
        lemma_pieces(x.drop_last(), c);
        lemma_split_ahead(x.drop_last(), c);
        assert(whole.drop_last() =~= seq![c] + x.drop_last());
        assert(whole.last() == x.last());
        assert(split(whole, c) =~= seq![Seq::<char>::empty()] + split(x, c));
    }
}

proof fn lemma_split_joined(names: Seq<Seq<char>>)
    requires
        names.len() > 0,
        forall|i: int| 0 <= i < names.len() ==> !(#[trigger] names[i]).contains('/'),
    ensures
        split(between_slashes(names), '/') == names,
    decreases names.len(),
{
    if names.len() == 1 {
        split_single(names[0], '/');
        assert(seq![names[0]] =~= names);
    } else {
        lemma_split_joined(names.drop_last());
        split_behind(between_slashes(names.drop_last()), names.last(), '/');
        assert(names.drop_last().push(names.last()) =~= names);
    }
}

proof fn lemma_walked_skips_first(pieces: Seq<Seq<char>>)
    ensures
        walked(seq![Seq::<char>::empty()] + pieces) == walked(pieces),
    decreases pieces.len(),
{
    let longer = seq![Seq::<char>::empty()] + pieces;
    reveal_with_fuel(walked, 2);
    if pieces.len() == 0 {
        assert(longer.drop_last() =~= Seq::empty());
    } else {
        lemma_walked_skips_first(pieces.drop_last());
        assert(longer.drop_last() =~= seq![Seq::<char>::empty()] + pieces.drop_last());
    }
}

proof fn lemma_plain_stays(names: Seq<Seq<char>>)
    requires
        plain(names),
    ensures
        walked(names) == names,
    decreases names.len(),
{
    if names.len() > 0 {
        assert(plain(names.drop_last()));
        lemma_plain_stays(names.drop_last());
        assert(names.drop_last().push(names.last()) =~= names);
    } else {
        assert(names =~= Seq::empty());
    }
}

proof fn lemma_walked_from_pieces(pieces: Seq<Seq<char>>)
    requires
        forall|i: int| 0 <= i < pieces.len() ==> !(#[trigger] pieces[i]).contains('/'),
    ensures
        forall|i: int| 0 <= i < walked(pieces).len() ==> !(#[trigger] walked(pieces)[i]).contains('/'),
    decreases pieces.len(),
{
    if pieces.len() > 0 {
        lemma_walked_from_pieces(pieces.drop_last());
        let before = walked(pieces.drop_last());
        let piece = pieces[pieces.len() - 1];
        assert(!piece.contains('/'));
        assert forall|i: int| 0 <= i < walked(pieces).len() implies !(#[trigger] walked(pieces)[i]).contains('/') by {
            assert(walked(pieces)[i] == piece || (i < before.len() && walked(pieces)[i] == before[i]));
        }
    }
}

/// Normalizing a normal path changes nothing.
pub proof fn normalizing_is_idempotent(path: Seq<char>)
    ensures
        normalized(path_text(normalized(path))) == normalized(path),
{
    let normal = normalized(path);
    let names = normal.names;
    let body = between_slashes(names);
    lemma_pieces(path, '/');
    lemma_walked_from_pieces(split(path, '/'));
    lemma_walked_is_plain(split(path, '/'));
    if names.len() > 0 {
        lemma_split_joined(names);
        lemma_plain_stays(names);
        lemma_first_char(names);
    } else {
        reveal_with_fuel(walked, 2);
        assert(split(body, '/') =~= seq![Seq::<char>::empty()]);
        assert(split(body, '/').drop_last() =~= Seq::empty());
        assert(walked(split(body, '/')) =~= names);
    }
    if normal.rooted {
        lemma_split_ahead(body, '/');
        lemma_walked_skips_first(split(body, '/'));
        assert((seq!['/'] + body)[0] == '/');
    }
}

proof fn lemma_first_char(names: Seq<Seq<char>>)
    requires
        names.len() > 0,
        plain(names),
        forall|i: int| 0 <= i < names.len() ==> !(#[trigger] names[i]).contains('/'),
    ensures
        !absolute(between_slashes(names)),
        between_slashes(names).len() > 0,
    decreases names.len(),
{
    if names.len() == 1 {
        assert(names[0].contains(names[0][0]));
    } else {
        assert(plain(names.drop_last()));
        lemma_first_char(names.drop_last());
        let front = between_slashes(names.drop_last());
        assert(between_slashes(names)[0] == front[0]);
    }
}

/// A name that is put behind a path goes into it. One dot and nothing stay, two dots go up.
pub proof fn paths_are_followed_name_by_name(path: Seq<char>, name: Seq<char>)
    requires
        path.len() > 0,
        !name.contains('/'),
    ensures
        ({
            let before = normalized(path);
            let after = normalized(path + seq!['/'] + name);
            &&& after.rooted == before.rooted
            &&& name.len() == 0 || name == seq!['.'] ==> after.names == before.names
            &&& name == seq!['.', '.'] && before.names.len() > 0 ==> after.names == before.names.drop_last()
            &&& name == seq!['.', '.'] && before.names.len() == 0 ==> after.names == before.names
            &&& name.len() > 0 && name != seq!['.'] && name != seq!['.', '.'] ==> after.names == before.names.push(name)
                && parent(after) == Some(before)
        }),
{
    split_behind(path, name, '/');
    let whole = path + seq!['/'] + name;
    assert(whole[0] == path[0]);
    assert(split(path, '/').push(name).drop_last() =~= split(path, '/'));
    assert(seq!['.'].len() == 1 && seq!['.', '.'].len() == 2);
    let before = normalized(path);
    let after = normalized(whole);
    if name.len() > 0 && name != seq!['.'] && name != seq!['.', '.'] {
        assert(after.names.drop_last() =~= before.names);
    }
}

/// A path is absolute exactly if it begins at the root. Within a directory it stands behind a slash, but for one from
/// the root, which stands for itself.
pub proof fn relative_paths_lie_within_their_directory(dir: Seq<char>, path: Seq<char>)
    ensures
        path.len() > 0 && path[0] == '/' ==> joined_path(dir, path) == path && made_absolute(path, Some(dir)) == path,
        !(path.len() > 0 && path[0] == '/') && dir.len() > 0 && dir.last() != '/' ==> joined_path(dir, path) == dir + seq![
            '/',
        ] + path,
        !(path.len() > 0 && path[0] == '/') && dir.len() > 0 && dir.last() == '/' ==> joined_path(dir, path) == dir + path,
        !(path.len() > 0 && path[0] == '/') ==> made_absolute(path, Some(dir)) == joined_path(dir, path),
        made_absolute(path, None) == path,
        normalized(path).rooted <==> path.len() > 0 && path[0] == '/',
{
}

/// A path leads straight to its file exactly if it begins at the root and none of its names goes up.
pub proof fn straight_paths_never_go_up(path: Seq<char>, i: int)
    ensures
        straight(path) && 0 <= i < split(path, '/').len() ==> split(path, '/')[i] != seq!['.', '.'],
        straight(path) ==> path.len() > 0 && path[0] == '/',
        path.len() > 0 && path[0] == '/' && (forall|k: int|
            0 <= k < split(path, '/').len() ==> #[trigger] split(path, '/')[k] != seq!['.', '.']) ==> straight(path),
{
    reveal_strlit("..");
    assert(".."@ =~= seq!['.', '.']);
    let pieces = split(path, '/');
    if straight(path) && 0 <= i < pieces.len() {
        assert(pieces.contains(pieces[i]));
    }
    if pieces.contains(".."@) {
        let k = choose|k: int| 0 <= k < pieces.len() && pieces[k] == ".."@;
        assert(pieces[k] == seq!['.', '.']);
    }
}

proof fn lemma_piece(path: Seq<char>, lead: int, start: int, end: int)
    requires
        lead <= start <= end <= path.len(),
        start == lead || path[start - 1] == '/',
        forall|k: int| start <= k < end ==> path[k] != '/',
    ensures
        piece_start(path, lead, end) == start,
    decreases end - start,
{
    if end > start {
        lemma_piece(path, lead, start, end - 1);
    }
}

/// A name in a directory has that directory as it is written, a name alone has the one that is written as nothing, and
/// a name behind the root has the root. The root and nothing have none.
pub proof fn directories_are_told_as_written(dir: Seq<char>, name: Seq<char>)
    requires
        name.len() > 0,
        !name.contains('/'),
        name != seq!['.'],
    ensures
        dir.len() > 0 && dir.last() != '/' && dir.last() != '.' ==> written_parent(dir + seq!['/'] + name) == Some(dir),
        written_parent(name) == Some(Seq::<char>::empty()),
        written_parent(seq!['/'] + name) == Some(seq!['/']),
        written_parent(seq!['.', '/'] + name) == Some(seq!['.']),
        written_parent(seq!['/']) is None,
        written_parent(Seq::empty()) is None,
        written_parent(seq!['.']) == Some(Seq::<char>::empty()),
{
    assert forall|k: int| 0 <= k < name.len() implies name[k] != '/' by {
        assert(name.contains(name[k]));
    }
    if dir.len() > 0 && dir.last() != '/' && dir.last() != '.' {
        let path = dir + seq!['/'] + name;
        let at = lead(path);
        let start = dir.len() as int + 1;
        let end = path.len() as int;
        assert(path[dir.len() as int] == '/');
        assert(path[dir.len() - 1] == dir.last());
        assert(forall|k: int| start <= k < end ==> path[k] == name[k - start]);
        assert(path[0] == dir[0]);
        assert(at < dir.len());
        lemma_piece(path, at, start, end);
        assert(path.subrange(start, end) =~= name);
        assert(bare_end(path, at, end) == end);
        assert(before_piece(at, start) == dir.len());
        let from = piece_start(path, at, dir.len() as int);
        pieces_lie_behind_the_lead(path, at, dir.len() - 1);
        assert(from <= dir.len() - 1);
        assert(path.subrange(from, dir.len() as int).last() == dir.last());
        assert(bare_end(path, at, dir.len() as int) == dir.len());
        assert(path.take(dir.len() as int) =~= dir);
    }
    lemma_bare_name(name);
    let rooted = seq!['/'] + name;
    assert(rooted[0] == '/' && lead(rooted) == 1);
    assert(forall|k: int| 1 <= k < rooted.len() ==> rooted[k] == name[k - 1]);
    lemma_piece(rooted, 1, 1, rooted.len() as int);
    assert(rooted.subrange(1, rooted.len() as int) =~= name);
    assert(rooted.take(1) =~= seq!['/']);
    let here = seq!['.', '/'] + name;
    assert(here[0] == '.' && here[1] == '/' && lead(here) == 1);
    assert(forall|k: int| 2 <= k < here.len() ==> here[k] == name[k - 2]);
    lemma_piece(here, 1, 2, here.len() as int);
    assert(here.subrange(2, here.len() as int) =~= name);
    assert(here.take(1) =~= seq!['.']);
    assert(lead(seq!['/']) == 1 && lead(seq!['.']) == 1);
}

proof fn lemma_bare_name(name: Seq<char>)
    requires
        name.len() > 0,
        forall|k: int| 0 <= k < name.len() ==> name[k] != '/',
        name != seq!['.'],
    ensures
        written_parent(name) == Some(Seq::<char>::empty()),
{
    if lead(name) == 1 {
        assert(name =~= seq!['.']);
    }
    lemma_piece(name, 0, 0, name.len() as int);
    assert(name.subrange(0, name.len() as int) =~= name);
    assert(name.take(0) =~= Seq::empty());
}

} // verus!
