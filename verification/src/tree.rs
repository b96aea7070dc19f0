//! A navigable file tree: visible nodes, selection, expansion, and
//! case-insensitive search.
//!
//! Directory listing itself is the collaborator's job and sits behind
//! one trusted wrapper over the `ignore` crate; everything the tree
//! decides from a listing — which entries show, at which depth, what is
//! selected, what a search matches — is verified.

use vstd::prelude::*;
use crate::vtmodel::{imax, imin};

verus! {

/// One visible entry of the tree.
#[derive(Debug)]
pub struct FileNode {
    pub path: String,
    /// The path of the directory this entry was listed under; empty for
    /// the root node.
    pub parent: String,
    pub name: String,
    pub depth: usize,
    pub is_dir: bool,
}

/// One raw directory entry as the walker reports it.
pub struct DirEntryInfo {
    pub path: String,
    pub name: String,
    pub is_dir: bool,
}

/// Relies on `ignore::WalkBuilder`: lists one directory level (the
/// directory itself plus its direct children), honoring gitignore rules
/// and the hidden-file switch, entries sorted by file name.
#[verifier::external_body]
fn list_dir(path: &String, show_hidden: bool) -> (r: Vec<DirEntryInfo>)
{
    let walker = ignore::WalkBuilder::new(path).hidden(!show_hidden).git_ignore(true).git_global(
        true,
    ).git_exclude(true).max_depth(Some(1)).sort_by_file_name(|a, b| a.cmp(b)).build();
    let mut out = Vec::new();
    for entry in walker.flatten() {
        let p = entry.path().to_path_buf();
        let name = p.file_name().map(|n| n.to_string_lossy().to_string()).unwrap_or_else(
            || p.to_string_lossy().to_string(),
        );
        out.push(DirEntryInfo { path: p.to_string_lossy().to_string(), name, is_dir: p.is_dir() });
    }
    out
}

/// What `str::to_lowercase` returns: the Unicode lowercase mapping of
/// the text, a function of the characters alone.
pub uninterp spec fn lower_of(s: Seq<char>) -> Seq<char>;

/// Relies on `str::to_lowercase`: the lowercase mapping of the string.
#[verifier::external_body]
fn lowercase(s: &String) -> (r: String)
    ensures
        r@ == lower_of(s@),
{
    s.to_lowercase()
}

/// Whether `n` occurs as a contiguous run inside `h`.
pub open spec fn has_substring(h: Seq<char>, n: Seq<char>) -> bool {
    exists|i: int| 0 <= i <= h.len() - n.len() && #[trigger] h.subrange(i, i + n.len() as int) == n
}

/// Relies on `str::contains`: true exactly when the pattern occurs as a
/// substring.
#[verifier::external_body]
fn str_contains(h: &String, n: &String) -> (r: bool)
    ensures
        r == has_substring(h@, n@),
{
    h.contains(n.as_str())
}

/// Whether a node name matches a search query: case-insensitive
/// containment.
pub open spec fn matches_query(name: Seq<char>, q: Seq<char>) -> bool {
    has_substring(lower_of(name), lower_of(q))
}

/// Whether `ms` records the index `i`.
pub open spec fn found_in(ms: Seq<usize>, i: int) -> bool {
    exists|a: int| 0 <= a < ms.len() && (#[trigger] ms[a] as int) == i
}

/// Whether `v` holds a string equal to `s`.
pub open spec fn holds_string(v: Seq<String>, s: Seq<char>) -> bool {
    exists|i: int| 0 <= i < v.len() && v[i]@ == s
}

fn contains_str(v: &Vec<String>, s: &String) -> (r: bool)
    ensures
        r == holds_string(v@, s@),
{
    let mut i: usize = 0;
    while i < v.len()
        invariant
            i <= v@.len(),
            forall|j: int| 0 <= j < i ==> v@[j]@ != s@,
        decreases v@.len() - i,
    {
        let e = &v[i];
        if *e == *s {
            return true;
        }
        i = i + 1;
    }
    false
}

/// The file tree: the flattened visible nodes, the selection, the set of
/// expanded directories, and the current search matches.
pub struct FileTree {
    root: String,
    nodes: Vec<FileNode>,
    show_hidden: bool,
    max_depth: usize,
    selected: usize,
    expanded: Vec<String>,
    search_matches: Vec<usize>,
    current_match: usize,
    offset: usize,
}

impl FileTree {
    pub closed spec fn nodes_spec(&self) -> Seq<FileNode> {
        self.nodes@
    }

    pub closed spec fn selected_spec(&self) -> int {
        self.selected as int
    }

    pub closed spec fn offset_spec(&self) -> int {
        self.offset as int
    }

    pub closed spec fn root_spec(&self) -> Seq<char> {
        self.root@
    }

    pub closed spec fn show_hidden_spec(&self) -> bool {
        self.show_hidden
    }

    pub closed spec fn expanded_has(&self, p: Seq<char>) -> bool {
        holds_string(self.expanded@, p)
    }

    pub closed spec fn matches_spec(&self) -> Seq<usize> {
        self.search_matches@
    }

    pub closed spec fn current_match_spec(&self) -> int {
        self.current_match as int
    }

    /// The selection is in bounds (0 on an empty tree) and every
    /// recorded search match points at a node.
    pub closed spec fn wf(&self) -> bool {
        &&& (self.nodes@.len() == 0 ==> self.selected == 0)
        &&& (self.nodes@.len() > 0 ==> (self.selected as int) < self.nodes@.len())
        &&& (forall|i: int|
            0 <= i < self.search_matches@.len() ==> (#[trigger] self.search_matches@[i] as int)
                < self.nodes@.len())
        &&& (self.search_matches@.len() > 0 ==> (self.current_match as int)
            < self.search_matches@.len())
    }

    /// A tree rooted at `root`, with the root expanded and its visible
    /// nodes built.
    pub fn new(root: String, show_hidden: bool, max_depth: usize) -> (r: FileTree)
        ensures
            r.wf(),
            r.root_spec() == root@,
            r.show_hidden_spec() == show_hidden,
            r.selected_spec() == 0,
            r.offset_spec() == 0,
            r.expanded_has(root@),
    {
        let root2 = root.clone();
        let mut expanded: Vec<String> = Vec::new();
        expanded.push(root.clone());
        let mut tree = FileTree {
            root: root2,
            nodes: Vec::new(),
            show_hidden,
            max_depth,
            selected: 0,
            expanded,
            search_matches: Vec::new(),
            current_match: 0,
            offset: 0,
        };
        proof {
            assert(tree.expanded@[0]@ == root@);
            assert(holds_string(tree.expanded@, root@));
        }
        tree.rebuild_visible_nodes();
        proof {
            assert(tree.expanded_has(root@));
        }
        tree
    }

    pub fn root_path(&self) -> (r: &String)
        ensures
            r@ == self.root_spec(),
    {
        &self.root
    }

    pub fn nodes(&self) -> (r: &Vec<FileNode>)
        ensures
            r@ == self.nodes_spec(),
    {
        &self.nodes
    }

    pub fn selected(&self) -> (r: usize)
        ensures
            r as int == self.selected_spec(),
    {
        self.selected
    }

    pub fn offset(&self) -> (r: usize)
        ensures
            r as int == self.offset_spec(),
    {
        self.offset
    }

    pub fn set_offset(&mut self, offset: usize)
        requires
            old(self).wf(),
        ensures
            final(self).wf(),
            final(self).offset_spec() == offset as int,
            final(self).nodes_spec() == old(self).nodes_spec(),
            final(self).selected_spec() == old(self).selected_spec(),
    {
        self.offset = offset;
    }

    pub fn show_hidden(&self) -> (r: bool)
        ensures
            r == self.show_hidden_spec(),
    {
        self.show_hidden
    }

    /// Whether the directory at `path` is currently expanded.
    pub fn is_expanded(&self, path: &String) -> (r: bool)
        ensures
            r == self.expanded_has(path@),
    {
        contains_str(&self.expanded, path)
    }

    /// Rebuild the flattened node list from the file system, then clamp
    /// the selection and drop stale search matches.
    fn rebuild_visible_nodes(&mut self)
        requires
            old(self).wf(),
        ensures
            final(self).wf(),
            final(self).root_spec() == old(self).root_spec(),
            final(self).show_hidden_spec() == old(self).show_hidden_spec(),
            forall|p: Seq<char>| final(self).expanded_has(p) == old(self).expanded_has(p),
            final(self).selected_spec() == imin(
                old(self).selected_spec(),
                imax(final(self).nodes_spec().len() - 1, 0),
            ),
            final(self).offset_spec() == old(self).offset_spec(),
            final(self).matches_spec().len() == 0,
    {
        let mut nodes: Vec<FileNode> = Vec::new();
        build_subtree(&self.root, 0, self.max_depth, self.show_hidden, &self.expanded, &mut nodes);
        self.nodes = nodes;
        if self.nodes.len() == 0 {
            self.selected = 0;
        } else if self.selected >= self.nodes.len() {
            self.selected = self.nodes.len() - 1;
        }
        self.search_matches = Vec::new();
        self.current_match = 0;
    }

    /// Move the selection down one node, stopping at the last.
    pub fn select_next(&mut self)
        requires
            old(self).wf(),
        ensures
            final(self).wf(),
            final(self).nodes_spec() == old(self).nodes_spec(),
            final(self).selected_spec() == (if old(self).selected_spec() + 1
                < old(self).nodes_spec().len() {
                old(self).selected_spec() + 1
            } else {
                old(self).selected_spec()
            }),
    {
        if self.nodes.len() > 0 && self.selected < self.nodes.len() - 1 {
            self.selected = self.selected + 1;
        }
    }

    /// Move the selection up one node, stopping at the first.
    pub fn select_previous(&mut self)
        requires
            old(self).wf(),
        ensures
            final(self).wf(),
            final(self).nodes_spec() == old(self).nodes_spec(),
            final(self).selected_spec() == imax(old(self).selected_spec() - 1, 0),
    {
        if self.selected > 0 {
            self.selected = self.selected - 1;
        }
    }

    pub fn select_first(&mut self)
        requires
            old(self).wf(),
        ensures
            final(self).wf(),
            final(self).nodes_spec() == old(self).nodes_spec(),
            final(self).selected_spec() == 0,
    {
        self.selected = 0;
    }

    pub fn select_last(&mut self)
        requires
            old(self).wf(),
        ensures
            final(self).wf(),
            final(self).nodes_spec() == old(self).nodes_spec(),
            final(self).selected_spec() == imax(old(self).nodes_spec().len() - 1, 0),
    {
        if self.nodes.len() > 0 {
            self.selected = self.nodes.len() - 1;
        } else {
            self.selected = 0;
        }
    }

    /// Move the selection up by `amount`, stopping at the first node.
    pub fn page_up(&mut self, amount: usize)
        requires
            old(self).wf(),
        ensures
            final(self).wf(),
            final(self).nodes_spec() == old(self).nodes_spec(),
            final(self).selected_spec() == imax(old(self).selected_spec() - amount, 0),
    {
        if self.selected > amount {
            self.selected = self.selected - amount;
        } else {
            self.selected = 0;
        }
    }

    /// Move the selection down by `amount`, stopping at the last node.
    pub fn page_down(&mut self, amount: usize)
        requires
            old(self).wf(),
        ensures
            final(self).wf(),
            final(self).nodes_spec() == old(self).nodes_spec(),
            final(self).selected_spec() == imin(
                old(self).selected_spec() + amount,
                imax(old(self).nodes_spec().len() - 1, 0),
            ),
    {
        let lim = if self.nodes.len() > 0 {
            self.nodes.len() - 1
        } else {
            0
        };
        self.selected = if amount > lim - self.selected {
            lim
        } else {
            self.selected + amount
        };
    }

    /// Expand or collapse the selected directory and rebuild; a file or
    /// an empty tree is left alone.
    pub fn toggle_expand(&mut self)
        requires
            old(self).wf(),
        ensures
            final(self).wf(),
            old(self).nodes_spec().len() == 0 ==> *final(self) == *old(self),
            (old(self).nodes_spec().len() > 0
                && !old(self).nodes_spec()[old(self).selected_spec()].is_dir) ==> *final(self)
                == *old(self),
            (old(self).nodes_spec().len() > 0
                && old(self).nodes_spec()[old(self).selected_spec()].is_dir) ==> {
                let p = old(self).nodes_spec()[old(self).selected_spec()].path@;
                &&& final(self).expanded_has(p) == !old(self).expanded_has(p)
                &&& forall|q: Seq<char>|
                    q != p ==> final(self).expanded_has(q) == old(self).expanded_has(q)
            },
    {
        if self.selected < self.nodes.len() {
            if self.nodes[self.selected].is_dir {
                let path = self.nodes[self.selected].path.clone();
                self.toggle_expanded_entry(&path);
                self.rebuild_visible_nodes();
            }
        }
    }

    /// Flip one path's membership in the expanded set.
    fn toggle_expanded_entry(&mut self, path: &String)
        requires
            old(self).wf(),
        ensures
            final(self).wf(),
            final(self).expanded_has(path@) == !old(self).expanded_has(path@),
            forall|q: Seq<char>|
                q != path@ ==> final(self).expanded_has(q) == old(self).expanded_has(q),
            final(self).nodes_spec() == old(self).nodes_spec(),
            final(self).selected_spec() == old(self).selected_spec(),
            final(self).root_spec() == old(self).root_spec(),
            final(self).show_hidden_spec() == old(self).show_hidden_spec(),
            final(self).matches_spec() == old(self).matches_spec(),
            final(self).current_match_spec() == old(self).current_match_spec(),
    {
        let mut kept: Vec<String> = Vec::new();
        let mut found = false;
        let mut i: usize = 0;
        while i < self.expanded.len()
            invariant
                i <= self.expanded@.len(),
                old(self).wf(),
                self == old(self),
                found ==> holds_string(self.expanded@, path@),
                !found ==> forall|j: int| 0 <= j < i ==> self.expanded@[j]@ != path@,
                forall|a: int|
                    0 <= a < kept@.len() ==> #[trigger] kept@[a]@ != path@ && holds_string(
                        self.expanded@,
                        kept@[a]@,
                    ),
                forall|j: int|
                    0 <= j < i && self.expanded@[j]@ != path@ ==> holds_string(
                        kept@,
                        #[trigger] self.expanded@[j]@,
                    ),
            decreases self.expanded@.len() - i,
        {
            let e = &self.expanded[i];
            if *e == *path {
                found = true;
            } else {
                let ghost prev = kept@;
                kept.push(self.expanded[i].clone());
                proof {
                    assert(kept@[kept@.len() - 1]@ == self.expanded@[i as int]@);
                    assert forall|j: int| 0 <= j < i + 1 && self.expanded@[j]@ != path@
                        implies holds_string(kept@, #[trigger] self.expanded@[j]@) by {
                        if j < i {
                            let w = choose|w: int|
                                0 <= w < prev.len() && prev[w]@ == self.expanded@[j]@;
                            assert(kept@[w]@ == self.expanded@[j]@);
                        } else {
                            assert(kept@[kept@.len() - 1]@ == self.expanded@[j]@);
                        }
                    }
                }
            }
            i = i + 1;
        }
        if !found {
            let ghost prev = kept@;
            kept.push(path.clone());
            proof {
                assert(kept@[kept@.len() - 1]@ == path@);
                assert forall|j: int| 0 <= j < self.expanded@.len() && self.expanded@[j]@ != path@
                    implies holds_string(kept@, #[trigger] self.expanded@[j]@) by {
                    let w = choose|w: int| 0 <= w < prev.len() && prev[w]@ == self.expanded@[j]@;
                    assert(kept@[w]@ == self.expanded@[j]@);
                }
            }
            self.expanded = kept;
            proof {
                assert(holds_string(self.expanded@, path@));
                assert forall|q: Seq<char>| q != path@ implies self.expanded_has(q) == old(self).expanded_has(q) by {
                    if holds_string(self.expanded@, q) {
                        let w = choose|w: int|
                            0 <= w < self.expanded@.len() && self.expanded@[w]@ == q;
                        if w < self.expanded@.len() - 1 {
                            assert(holds_string(old(self).expanded@, q));
                        }
                    }
                    if holds_string(old(self).expanded@, q) {
                        let j = choose|j: int|
                            0 <= j < old(self).expanded@.len() && old(self).expanded@[j]@ == q;
                        assert(holds_string(self.expanded@, q));
                    }
                }
            }
        } else {
            self.expanded = kept;
            proof {
                assert(!holds_string(self.expanded@, path@)) by {
                    if holds_string(self.expanded@, path@) {
                        let w = choose|w: int|
                            0 <= w < self.expanded@.len() && self.expanded@[w]@ == path@;
                    }
                }
                assert forall|q: Seq<char>| q != path@ implies self.expanded_has(q) == old(self).expanded_has(q) by {
                    if holds_string(self.expanded@, q) {
                        let w = choose|w: int|
                            0 <= w < self.expanded@.len() && self.expanded@[w]@ == q;
                        assert(holds_string(old(self).expanded@, q));
                    }
                    if holds_string(old(self).expanded@, q) {
                        let j = choose|j: int|
                            0 <= j < old(self).expanded@.len() && old(self).expanded@[j]@ == q;
                        assert(holds_string(self.expanded@, q));
                    }
                }
            }
        }
    }

    /// Enter or open the selected node: an expanded directory or a file
    /// yields its path for the caller (change directory, or reference
    /// the file); a collapsed directory is expanded in place and yields
    /// nothing.
    pub fn toggle_or_open(&mut self) -> (r: Option<String>)
        requires
            old(self).wf(),
        ensures
            final(self).wf(),
            old(self).nodes_spec().len() == 0 ==> r is None && *final(self) == *old(self),
            (old(self).nodes_spec().len() > 0 && {
                let n = old(self).nodes_spec()[old(self).selected_spec()];
                !n.is_dir || old(self).expanded_has(n.path@)
            }) ==> (r matches Some(p) && p@ == old(self).nodes_spec()[old(self).selected_spec()].path@
                && *final(self) == *old(self)),
            (old(self).nodes_spec().len() > 0 && {
                let n = old(self).nodes_spec()[old(self).selected_spec()];
                n.is_dir && !old(self).expanded_has(n.path@)
            }) ==> (r is None && final(self).expanded_has(
                old(self).nodes_spec()[old(self).selected_spec()].path@,
            )),
    {
        if self.selected < self.nodes.len() {
            let path = self.nodes[self.selected].path.clone();
            if self.nodes[self.selected].is_dir {
                if contains_str(&self.expanded, &path) {
                    Some(path)
                } else {
                    self.toggle_expanded_entry(&path);
                    self.rebuild_visible_nodes();
                    None
                }
            } else {
                Some(path)
            }
        } else {
            None
        }
    }

    /// Collapse the selected directory when it is expanded; otherwise
    /// move the selection to the node's parent when it is visible.
    pub fn collapse_or_parent(&mut self)
        requires
            old(self).wf(),
        ensures
            final(self).wf(),
            old(self).nodes_spec().len() == 0 ==> *final(self) == *old(self),
            (old(self).nodes_spec().len() > 0 && {
                let n = old(self).nodes_spec()[old(self).selected_spec()];
                n.is_dir && old(self).expanded_has(n.path@)
            }) ==> !final(self).expanded_has(
                old(self).nodes_spec()[old(self).selected_spec()].path@,
            ),
            (old(self).nodes_spec().len() > 0 && {
                let n = old(self).nodes_spec()[old(self).selected_spec()];
                !(n.is_dir && old(self).expanded_has(n.path@))
            }) ==> final(self).nodes_spec() == old(self).nodes_spec() && (final(self).selected_spec()
                == old(self).selected_spec() || final(self).nodes_spec()[final(self).selected_spec()].path@
                == old(self).nodes_spec()[old(self).selected_spec()].parent@),
    {
        if self.selected < self.nodes.len() {
            let is_dir = self.nodes[self.selected].is_dir;
            let path = self.nodes[self.selected].path.clone();
            if is_dir && contains_str(&self.expanded, &path) {
                self.toggle_expanded_entry(&path);
                self.rebuild_visible_nodes();
            } else {
                let parent = self.nodes[self.selected].parent.clone();
                let mut i: usize = 0;
                let mut hit: Option<usize> = None;
                while i < self.nodes.len()
                    invariant
                        i <= self.nodes@.len(),
                        old(self).wf(),
                        self == old(self),
                        parent@ == self.nodes@[self.selected as int].parent@,
                        hit matches Some(k) ==> (k as int) < self.nodes@.len()
                            && self.nodes@[k as int].path@ == parent@,
                    decreases self.nodes@.len() - i,
                {
                    let np = &self.nodes[i].path;
                    if *np == parent {
                        hit = Some(i);
                        break;
                    }
                    i = i + 1;
                }
                if let Some(k) = hit {
                    self.selected = k;
                }
            }
        }
    }

    /// Rebuild from the file system and clamp the selection.
    pub fn refresh(&mut self)
        requires
            old(self).wf(),
        ensures
            final(self).wf(),
            final(self).root_spec() == old(self).root_spec(),
            final(self).show_hidden_spec() == old(self).show_hidden_spec(),
            forall|p: Seq<char>| final(self).expanded_has(p) == old(self).expanded_has(p),
    {
        self.rebuild_visible_nodes();
    }

    /// Refresh after a change under `path`; the whole tree is rebuilt.
    pub fn refresh_path(&mut self, path: &String)
        requires
            old(self).wf(),
        ensures
            final(self).wf(),
            final(self).root_spec() == old(self).root_spec(),
            final(self).show_hidden_spec() == old(self).show_hidden_spec(),
    {
        let _ = path;
        self.refresh();
    }

    /// Flip hidden-file visibility and rebuild.
    pub fn toggle_hidden(&mut self)
        requires
            old(self).wf(),
        ensures
            final(self).wf(),
            final(self).show_hidden_spec() == !old(self).show_hidden_spec(),
            final(self).root_spec() == old(self).root_spec(),
    {
        self.show_hidden = !self.show_hidden;
        self.refresh();
    }

    /// Record every node whose name contains the query, ignoring case,
    /// and select the first match.  An empty query clears the matches.
    pub fn search(&mut self, query: &String)
        requires
            old(self).wf(),
        ensures
            final(self).wf(),
            final(self).nodes_spec() == old(self).nodes_spec(),
            query@.len() == 0 ==> final(self).matches_spec().len() == 0
                && final(self).selected_spec() == old(self).selected_spec(),
            forall|a: int, b: int|
                0 <= a < b < final(self).matches_spec().len() ==> final(self).matches_spec()[a]
                    < final(self).matches_spec()[b],
            forall|a: int|
                0 <= a < final(self).matches_spec().len() ==> matches_query(
                    old(self).nodes_spec()[#[trigger] final(self).matches_spec()[a] as int].name@,
                    query@,
                ),
            query@.len() > 0 ==> forall|i: int|
                0 <= i < old(self).nodes_spec().len() && matches_query(
                    old(self).nodes_spec()[i].name@,
                    query@,
                ) ==> found_in(final(self).matches_spec(), i),
            final(self).matches_spec().len() > 0 ==> final(self).selected_spec()
                == final(self).matches_spec()[0] as int && final(self).current_match_spec() == 0,
            final(self).matches_spec().len() == 0 ==> final(self).selected_spec()
                == old(self).selected_spec(),
    {
        self.search_matches = Vec::new();
        self.current_match = 0;
        if query.as_str().is_empty() {
            return;
        }
        let q_lower = lowercase(query);
        let mut i: usize = 0;
        while i < self.nodes.len()
            invariant
                i <= self.nodes@.len(),
                old(self).wf(),
                self.nodes@ == old(self).nodes@,
                self.selected == old(self).selected,
                self.expanded@ == old(self).expanded@,
                self.current_match == 0,
                q_lower@ == lower_of(query@),
                forall|a: int, b: int|
                    0 <= a < b < self.search_matches@.len() ==> #[trigger] self.search_matches@[a]
                        < #[trigger] self.search_matches@[b],
                forall|a: int|
                    0 <= a < self.search_matches@.len() ==> (#[trigger] self.search_matches@[a] as int)
                        < i as int && matches_query(
                        self.nodes@[self.search_matches@[a] as int].name@,
                        query@,
                    ),
                forall|j: int|
                    0 <= j < i && matches_query(self.nodes@[j].name@, query@) ==> found_in(
                        self.search_matches@,
                        j,
                    ),
            decreases self.nodes@.len() - i,
        {
            let lname = lowercase(&self.nodes[i].name);
            let ghost prev = self.search_matches@;
            if str_contains(&lname, &q_lower) {
                self.search_matches.push(i);
            }
            i = i + 1;
            proof {
                assert forall|j: int| 0 <= j < i && matches_query(self.nodes@[j].name@, query@)
                    implies found_in(self.search_matches@, j) by {
                    if j < i - 1 {
                        assert(found_in(prev, j));
                        let a = choose|a: int| 0 <= a < prev.len() && ((#[trigger] prev[a]) as int) == j;
                        assert((self.search_matches@[a] as int) == j);
                    } else {
                        assert((self.search_matches@[self.search_matches@.len() - 1] as int) == j);
                    }
                }
            }
        }
        proof {
            assert forall|j: int| 0 <= j < old(self).nodes_spec().len() && matches_query(
                old(self).nodes_spec()[j].name@,
                query@,
            ) implies found_in(self.search_matches@, j) by {
                assert(0 <= j < self.nodes@.len() && matches_query(self.nodes@[j].name@, query@));
            }
        }
        if self.search_matches.len() > 0 {
            self.selected = self.search_matches[0];
        }
    }

    /// Step the selection to the next search match, wrapping around.
    pub fn search_next(&mut self)
        requires
            old(self).wf(),
        ensures
            final(self).wf(),
            final(self).nodes_spec() == old(self).nodes_spec(),
            final(self).matches_spec() == old(self).matches_spec(),
            old(self).matches_spec().len() == 0 ==> *final(self) == *old(self),
            old(self).matches_spec().len() > 0 ==> {
                let ms = old(self).matches_spec();
                let k = (old(self).current_match_spec() + 1) % (ms.len() as int);
                &&& final(self).current_match_spec() == k
                &&& final(self).selected_spec() == ms[k] as int
            },
    {
        if self.search_matches.len() == 0 {
            return;
        }
        self.current_match = (self.current_match + 1) % self.search_matches.len();
        self.selected = self.search_matches[self.current_match];
    }

    /// Step the selection to the previous search match, wrapping around.
    pub fn search_prev(&mut self)
        requires
            old(self).wf(),
        ensures
            final(self).wf(),
            final(self).nodes_spec() == old(self).nodes_spec(),
            final(self).matches_spec() == old(self).matches_spec(),
            old(self).matches_spec().len() == 0 ==> *final(self) == *old(self),
            old(self).matches_spec().len() > 0 ==> {
                let ms = old(self).matches_spec();
                let k = if old(self).current_match_spec() == 0 {
                    ms.len() - 1
                } else {
                    old(self).current_match_spec() - 1
                };
                &&& final(self).current_match_spec() == k
                &&& final(self).selected_spec() == ms[k] as int
            },
    {
        if self.search_matches.len() == 0 {
            return;
        }
        self.current_match = if self.current_match == 0 {
            self.search_matches.len() - 1
        } else {
            self.current_match - 1
        };
        self.selected = self.search_matches[self.current_match];
    }
}

/// Append the visible nodes under `path` at `depth`: the directory's
/// entries in walker order, each expanded directory followed by its own
/// subtree, nothing below `max_depth`.
fn build_subtree(
    path: &String,
    depth: usize,
    max_depth: usize,
    show_hidden: bool,
    expanded: &Vec<String>,
    out: &mut Vec<FileNode>,
)
    ensures
        final(out)@.len() >= old(out)@.len(),
        final(out)@.take(old(out)@.len() as int) == old(out)@,
        forall|i: int|
            old(out)@.len() <= i < final(out)@.len() ==> depth as int
                <= (#[trigger] final(out)@[i].depth as int) <= max_depth as int,
    decreases max_depth + 1 - depth,
{
    proof {
        assert(out@.take(out@.len() as int) =~= out@);
    }
    if depth > max_depth {
        return;
    }
    let entries = list_dir(path, show_hidden);
    let mut i: usize = 0;
    while i < entries.len()
        invariant
            i <= entries@.len(),
            depth <= max_depth,
            out@.len() >= old(out)@.len(),
            out@.take(old(out)@.len() as int) == old(out)@,
            forall|k: int|
                old(out)@.len() <= k < out@.len() ==> depth as int
                    <= (#[trigger] out@[k].depth as int) <= max_depth as int,
        decreases entries@.len() - i,
    {
        let e = &entries[i];
        let same_as_root = e.path == *path;
        let hidden_name = starts_with_dot(&e.name);
        let take_it = if depth == 0 {
            same_as_root
        } else {
            !same_as_root && (show_hidden || !hidden_name)
        };
        if take_it {
            let node = FileNode {
                path: e.path.clone(),
                parent: if depth == 0 { String::new() } else { path.clone() },
                name: e.name.clone(),
                depth,
                is_dir: e.is_dir,
            };
            let ghost before = out@;
            out.push(node);
            proof {
                assert(out@.take(old(out)@.len() as int) =~= before.take(old(out)@.len() as int));
            }
            if e.is_dir && depth < max_depth && contains_str(expanded, &e.path) {
                let ghost mid = out@;
                build_subtree(&e.path, depth + 1, max_depth, show_hidden, expanded, out);
                proof {
                    assert(out@.take(mid.len() as int) == mid);
                    assert(out@.take(mid.len() as int).take(old(out)@.len() as int) =~= out@.take(
                        old(out)@.len() as int,
                    ));
                    assert forall|k: int|
                        old(out)@.len() <= k < out@.len() implies depth as int <= (
                    #[trigger] out@[k].depth as int) <= max_depth as int by {
                        if k < mid.len() {
                            assert(out@[k] == out@.take(mid.len() as int)[k]);
                        }
                    }
                }
            }
        }
        i = i + 1;
    }
}

/// Whether a file name begins with a dot.
fn starts_with_dot(name: &String) -> (r: bool)
    ensures
        r == (name@.len() > 0 && name@[0] == '.'),
{
    if name.as_str().is_empty() {
        false
    } else {
        let c = name.as_str().get_char(0);
        c == '.'
    }
}

} // verus!
