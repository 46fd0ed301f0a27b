use vstd::prelude::*;

use crate::site::Site;
use crate::text::{
    chars_of, lemma_seq_lt_asymmetric, lemma_seq_lt_irreflexive, lemma_seq_lt_total,
    lemma_seq_lt_transitive, seq_contains, seq_lt, spec_contains, spec_split, lowercase_text,
    spec_trim, split_char, str_eq, str_lt, string_of, string_views, to_lowercase, trim, views,
};

verus! {

// ---------------------------------------------------------------------------
// Orders on names and paths
// ---------------------------------------------------------------------------

/// Order of entry names in the tree: case-insensitively first, then by the
/// exact text, so that names that differ only in case keep a fixed order.
pub open spec fn name_before(a: Seq<char>, b: Seq<char>) -> bool {
    ||| seq_lt(lowercase_text(a), lowercase_text(b))
    ||| lowercase_text(a) == lowercase_text(b) && seq_lt(a, b)
}

/// The order used by a sorted list: entry names (`by_name`) or plain text
/// order, the order of a `BTreeSet<String>`.
pub open spec fn ordered(by_name: bool, a: Seq<char>, b: Seq<char>) -> bool {
    if by_name {
        name_before(a, b)
    } else {
        seq_lt(a, b)
    }
}

pub proof fn lemma_ordered_strict(by_name: bool, a: Seq<char>, b: Seq<char>)
    ensures
        !ordered(by_name, a, a),
        !(ordered(by_name, a, b) && ordered(by_name, b, a)),
        a != b ==> ordered(by_name, a, b) || ordered(by_name, b, a),
{
    lemma_seq_lt_irreflexive(a);
    lemma_seq_lt_irreflexive(lowercase_text(a));
    lemma_seq_lt_asymmetric(a, b);
    lemma_seq_lt_asymmetric(lowercase_text(a), lowercase_text(b));
    if a != b {
        lemma_seq_lt_total(a, b);
        if lowercase_text(a) != lowercase_text(b) {
            lemma_seq_lt_total(lowercase_text(a), lowercase_text(b));
        }
    }
}

pub proof fn lemma_ordered_transitive(by_name: bool, a: Seq<char>, b: Seq<char>, c: Seq<char>)
    requires
        ordered(by_name, a, b),
        ordered(by_name, b, c),
    ensures
        ordered(by_name, a, c),
{
    if by_name {
        let (la, lb, lc) = (lowercase_text(a), lowercase_text(b), lowercase_text(c));
        if seq_lt(la, lb) && seq_lt(lb, lc) {
            lemma_seq_lt_transitive(la, lb, lc);
        } else if seq_lt(la, lb) {
        } else if seq_lt(lb, lc) {
        } else {
            lemma_seq_lt_transitive(a, b, c);
        }
    } else {
        lemma_seq_lt_transitive(a, b, c);
    }
}

fn before(by_name: bool, a: &str, b: &str) -> (r: bool)
    ensures
        r == ordered(by_name, a@, b@),
{
    if by_name {
        let la = to_lowercase(a);
        let lb = to_lowercase(b);
        if str_lt(la.as_str(), lb.as_str()) {
            true
        } else {
            str_eq(la.as_str(), lb.as_str()) && str_lt(a, b)
        }
    } else {
        str_lt(a, b)
    }
}

/// Every earlier element comes strictly before every later one.
pub open spec fn strictly_sorted(by_name: bool, s: Seq<Seq<char>>) -> bool {
    forall|i: int, j: int| 0 <= i < j < s.len() ==> ordered(by_name, #[trigger] s[i], #[trigger] s[j])
}

/// Whether `v` holds `item`.
pub(crate) fn holds(v: &Vec<String>, item: &str) -> (r: bool)
    ensures
        r == string_views(v@).contains(item@),
{
    let mut i: usize = 0;
    while i < v.len()
        invariant
            i <= v.len(),
            forall|k: int| 0 <= k < i ==> v@[k]@ != item@,
        decreases v.len() - i,
    {
        if str_eq(v[i].as_str(), item) {
            assert(string_views(v@)[i as int] == item@);
            return true;
        }
        i = i + 1;
    }
    proof {
        if string_views(v@).contains(item@) {
            let k = choose|k: int| 0 <= k < string_views(v@).len() && string_views(v@)[k] == item@;
            assert(v@[k]@ == item@);
        }
    }
    false
}

/// Adds `item` to a strictly sorted list of texts, keeping it strictly
/// sorted; returns whether it was new.
pub(crate) fn insert_sorted(by_name: bool, v: &mut Vec<String>, item: String) -> (inserted: bool)
    requires
        strictly_sorted(by_name, string_views(old(v)@)),
    ensures
        strictly_sorted(by_name, string_views(final(v)@)),
        inserted == !string_views(old(v)@).contains(item@),
        forall|x: Seq<char>|
            string_views(final(v)@).contains(x) <==> (string_views(old(v)@).contains(x) || x
                == item@),
        !inserted ==> final(v)@ == old(v)@,
{
    let ghost old_views = string_views(v@);
    let mut i: usize = 0;
    while i < v.len() && before(by_name, v[i].as_str(), item.as_str())
        invariant
            i <= v.len(),
            v@ == old(v)@,
            old_views == string_views(v@),
            forall|k: int| 0 <= k < i ==> ordered(by_name, #[trigger] old_views[k], item@),
        decreases v.len() - i,
    {
        i = i + 1;
    }
    if i < v.len() && str_eq(v[i].as_str(), item.as_str()) {
        assert(old_views[i as int] == item@);
        return false;
    }
    proof {
        // Nothing from `i` on equals `item`: the element at `i` comes after it,
        // and the later ones after that.
        if i < v.len() {
            lemma_ordered_strict(by_name, old_views[i as int], item@);
        }
        assert forall|k: int| 0 <= k < old_views.len() implies old_views[k] != item@ by {
            lemma_ordered_strict(by_name, old_views[k], item@);
            if k > i {
                lemma_ordered_strict(by_name, old_views[i as int], old_views[k]);
            }
        }
    }
    v.insert(i, item);
    let ghost new_views = string_views(v@);
    proof {
        assert(new_views =~= old_views.insert(i as int, item@));
        assert forall|p: int, q: int| 0 <= p < q < new_views.len() implies ordered(
            by_name,
            #[trigger] new_views[p],
            #[trigger] new_views[q],
        ) by {
            if q == i {
            } else if p == i {
                lemma_ordered_strict(by_name, old_views[i as int], item@);
                if q - 1 > i {
                    lemma_ordered_transitive(
                        by_name,
                        item@,
                        old_views[i as int],
                        old_views[q - 1],
                    );
                }
            } else if p < i && q > i {
                assert(ordered(by_name, old_views[p], item@));
            } else if p < i {
            } else {
                assert(new_views[p] == old_views[p - 1]);
                assert(new_views[q] == old_views[q - 1]);
            }
        }
        assert forall|x: Seq<char>|
            new_views.contains(x) <==> (old_views.contains(x) || x == item@) by {
            if new_views.contains(x) {
                let k = choose|k: int| 0 <= k < new_views.len() && new_views[k] == x;
                if k < i {
                    assert(old_views[k] == x);
                } else if k > i {
                    assert(old_views[k - 1] == x);
                }
            }
            if old_views.contains(x) {
                let k = choose|k: int| 0 <= k < old_views.len() && old_views[k] == x;
                if k < i {
                    assert(new_views[k] == x);
                } else {
                    assert(new_views[k + 1] == x);
                }
            }
            if x == item@ {
                assert(new_views[i as int] == x);
            }
        }
    }
    true
}

/// Removes `item` from a strictly sorted list of texts; returns whether it
/// was there.
fn remove_sorted(by_name: bool, v: &mut Vec<String>, item: &str) -> (removed: bool)
    requires
        strictly_sorted(by_name, string_views(old(v)@)),
    ensures
        strictly_sorted(by_name, string_views(final(v)@)),
        removed == string_views(old(v)@).contains(item@),
        forall|x: Seq<char>|
            string_views(final(v)@).contains(x) <==> (string_views(old(v)@).contains(x) && x
                != item@),
        !removed ==> final(v)@ == old(v)@,
{
    let ghost old_views = string_views(v@);
    let mut i: usize = 0;
    while i < v.len()
        invariant
            i <= v.len(),
            v@ == old(v)@,
            old_views == string_views(v@),
            strictly_sorted(by_name, old_views),
            forall|k: int| 0 <= k < i ==> old_views[k] != item@,
        decreases v.len() - i,
    {
        if str_eq(v[i].as_str(), item) {
            v.remove(i);
            let ghost new_views = string_views(v@);
            proof {
                assert(new_views =~= old_views.remove(i as int));
                assert(old_views.contains(item@)) by {
                    assert(old_views[i as int] == item@);
                }
                assert forall|p: int, q: int| 0 <= p < q < new_views.len() implies ordered(
                    by_name,
                    #[trigger] new_views[p],
                    #[trigger] new_views[q],
                ) by {
                    if p >= i {
                        assert(new_views[p] == old_views[p + 1]);
                        assert(new_views[q] == old_views[q + 1]);
                    } else if q >= i {
                        assert(new_views[q] == old_views[q + 1]);
                    }
                }
                assert forall|x: Seq<char>|
                    new_views.contains(x) <==> (old_views.contains(x) && x != item@) by {
                    if new_views.contains(x) {
                        let k = choose|k: int| 0 <= k < new_views.len() && new_views[k] == x;
                        if k < i {
                            assert(old_views[k] == x);
                            lemma_ordered_strict(by_name, old_views[k], old_views[i as int]);
                        } else {
                            assert(old_views[k + 1] == x);
                            lemma_ordered_strict(by_name, old_views[i as int], old_views[k + 1]);
                        }
                    }
                    if old_views.contains(x) && x != item@ {
                        let k = choose|k: int| 0 <= k < old_views.len() && old_views[k] == x;
                        if k < i {
                            assert(new_views[k] == x);
                        } else {
                            assert(k != i);
                            assert(new_views[k - 1] == x);
                        }
                    }
                }
            }
            return true;
        }
        i = i + 1;
    }
    proof {
        if old_views.contains(item@) {
            let k = choose|k: int| 0 <= k < old_views.len() && old_views[k] == item@;
            assert(old_views[k] != item@);
        }
    }
    false
}

// ---------------------------------------------------------------------------
// Tree entries and rows
// ---------------------------------------------------------------------------

#[derive(Debug, Clone, Copy, PartialEq, Eq, Structural)]
pub enum TreeEntryKind {
    Directory,
    File,
}

/// One entry of the Project tree: its path from the Project root, its own
/// name, and, for a directory, its entries in display order.
#[derive(Debug, PartialEq, Eq)]
pub struct TreeNode {
    pub path: String,
    pub name: String,
    pub kind: TreeEntryKind,
    pub children: Vec<TreeNode>,
}

/// One row of the tree as displayed.
#[derive(Debug, Clone, PartialEq, Eq)]
pub struct VisibleRow {
    pub path: String,
    pub name: String,
    pub kind: TreeEntryKind,
    pub depth: usize,
    pub expanded: bool,
    pub selected: bool,
    pub focused: bool,
}

pub struct RowView {
    pub path: Seq<char>,
    pub name: Seq<char>,
    pub kind: TreeEntryKind,
    pub depth: nat,
    pub expanded: bool,
    pub selected: bool,
    pub focused: bool,
}

impl View for VisibleRow {
    type V = RowView;

    open spec fn view(&self) -> RowView {
        RowView {
            path: self.path@,
            name: self.name@,
            kind: self.kind,
            depth: self.depth as nat,
            expanded: self.expanded,
            selected: self.selected,
            focused: self.focused,
        }
    }
}

pub open spec fn row_views(rows: Seq<VisibleRow>) -> Seq<RowView> {
    rows.map_values(|r: VisibleRow| r@)
}

#[derive(Debug, Clone, Copy, PartialEq, Eq, Structural)]
pub enum TreeKey {
    ArrowUp,
    ArrowDown,
    ArrowLeft,
    ArrowRight,
    Enter,
}

/// The state of a tree that is kept per Project.
#[derive(Debug, Clone, PartialEq, Eq, Default)]
pub struct ProjectTreeState {
    pub expanded_paths: Vec<String>,
    pub filter: String,
    pub selected_path: Option<String>,
}

/// What a Project tree is: its root path, its entries, the expanded
/// directories, the filter text, and the selected and focused paths.
#[verifier::ext_equal]
pub struct TreeModel {
    pub project_path: Seq<char>,
    pub entries: Seq<TreeNode>,
    pub expanded: Set<Seq<char>>,
    pub filter: Seq<char>,
    pub selected: Option<Seq<char>>,
    pub focused: Option<Seq<char>>,
}

pub open spec fn opt_view(o: Option<String>) -> Option<Seq<char>> {
    match o {
        Some(s) => Some(s@),
        None => None,
    }
}

// ---------------------------------------------------------------------------
// Filtering
// ---------------------------------------------------------------------------

/// A path matches a filter when the trimmed filter is not empty and occurs
/// in the path, both taken in lower case.
pub open spec fn path_matches(path: Seq<char>, filter: Seq<char>) -> bool {
    let needle = lowercase_text(spec_trim(filter));
    needle.len() > 0 && spec_contains(lowercase_text(path), needle)
}

/// Whether some entry of `nodes[i..]`, or one below it, matches the filter.
pub open spec fn any_match_from(nodes: Seq<TreeNode>, i: int, filter: Seq<char>) -> bool
    decreases nodes, nodes.len() - i,
{
    if 0 <= i < nodes.len() {
        ||| path_matches(nodes[i].path@, filter)
        ||| any_match_from(nodes[i].children@, 0, filter)
        ||| any_match_from(nodes, i + 1, filter)
    } else {
        false
    }
}

/// Whether an entry or one below it matches the filter.
pub open spec fn subtree_matches(node: TreeNode, filter: Seq<char>) -> bool {
    path_matches(node.path@, filter) || any_match_from(node.children@, 0, filter)
}

/// An entry shows when the filter is blank or its subtree matches.
pub open spec fn shows(node: TreeNode, filter: Seq<char>) -> bool {
    spec_trim(filter).len() == 0 || subtree_matches(node, filter)
}

/// The lower-case trimmed filter, as chars; empty when nothing can match.
fn needle_of(filter: &str) -> (r: Vec<char>)
    ensures
        r@ == lowercase_text(spec_trim(filter@)),
{
    let t = trim(filter);
    chars_of(to_lowercase(t.as_str()).as_str())
}

fn matches_needle(path: &str, needle: &Vec<char>, filter: Ghost<Seq<char>>) -> (r: bool)
    requires
        needle@ == lowercase_text(spec_trim(filter@)),
    ensures
        r == path_matches(path@, filter@),
{
    if needle.len() == 0 {
        return false;
    }
    let lower = chars_of(to_lowercase(path).as_str());
    seq_contains(&lower, needle)
}

fn any_match(nodes: &Vec<TreeNode>, needle: &Vec<char>, filter: Ghost<Seq<char>>) -> (r: bool)
    requires
        needle@ == lowercase_text(spec_trim(filter@)),
    ensures
        r == any_match_from(nodes@, 0, filter@),
    decreases nodes@,
{
    let mut i: usize = nodes.len();
    let mut found = false;
    while i > 0
        invariant
            i <= nodes.len(),
            needle@ == lowercase_text(spec_trim(filter@)),
            found == any_match_from(nodes@, i as int, filter@),
        decreases i,
    {
        i = i - 1;
        let node = &nodes[i];
        assert(decreases_to!(nodes@ => nodes@[i as int].children@));
        found = matches_needle(node.path.as_str(), needle, filter) || any_match(
            &node.children,
            needle,
            filter,
        ) || found;
    }
    found
}

fn node_matches(node: &TreeNode, needle: &Vec<char>, filter: Ghost<Seq<char>>) -> (r: bool)
    requires
        needle@ == lowercase_text(spec_trim(filter@)),
    ensures
        r == subtree_matches(*node, filter@),
{
    matches_needle(node.path.as_str(), needle, filter) || any_match(&node.children, needle, filter)
}

// ---------------------------------------------------------------------------
// Rows
// ---------------------------------------------------------------------------

/// The displayed rows of `nodes[i..]` at `depth`: each entry that shows,
/// followed, when it is an expanded directory, by the rows of its entries
/// one level deeper.
pub open spec fn rows_from(m: TreeModel, nodes: Seq<TreeNode>, i: int, depth: nat) -> Seq<RowView>
    decreases nodes, nodes.len() - i,
{
    if 0 <= i < nodes.len() {
        let n = nodes[i];
        if !shows(n, m.filter) {
            rows_from(m, nodes, i + 1, depth)
        } else {
            let open = n.kind == TreeEntryKind::Directory && m.expanded.contains(n.path@);
            let row = RowView {
                path: n.path@,
                name: n.name@,
                kind: n.kind,
                depth,
                expanded: open,
                selected: m.selected == Some(n.path@),
                focused: m.focused == Some(n.path@),
            };
            let below = if open {
                rows_from(m, n.children@, 0, depth + 1)
            } else {
                Seq::empty()
            };
            seq![row] + below + rows_from(m, nodes, i + 1, depth)
        }
    } else {
        Seq::empty()
    }
}

/// The rows of the whole tree.
pub open spec fn visible(m: TreeModel) -> Seq<RowView> {
    rows_from(m, m.entries, 0, 0)
}

/// How many levels `nodes[i..]` reach.
pub open spec fn height_from(nodes: Seq<TreeNode>, i: int) -> nat
    decreases nodes, nodes.len() - i,
{
    if 0 <= i < nodes.len() {
        let here = 1 + height_from(nodes[i].children@, 0);
        let rest = height_from(nodes, i + 1);
        if here > rest {
            here
        } else {
            rest
        }
    } else {
        0
    }
}

/// The first entry in display order (an entry before those below it, those
/// before the later ones) whose path is `p`.
pub open spec fn find_from(nodes: Seq<TreeNode>, i: int, p: Seq<char>) -> Option<TreeNode>
    decreases nodes, nodes.len() - i,
{
    if 0 <= i < nodes.len() {
        if nodes[i].path@ == p {
            Some(nodes[i])
        } else {
            match find_from(nodes[i].children@, 0, p) {
                Some(n) => Some(n),
                None => find_from(nodes, i + 1, p),
            }
        }
    } else {
        None
    }
}

fn find_node<'a>(nodes: &'a Vec<TreeNode>, p: &str) -> (r: Option<&'a TreeNode>)
    ensures
        match r {
            Some(n) => find_from(nodes@, 0, p@) == Some(*n),
            None => find_from(nodes@, 0, p@) is None,
        },
    decreases nodes@,
{
    let mut i: usize = 0;
    while i < nodes.len()
        invariant
            i <= nodes.len(),
            find_from(nodes@, 0, p@) == find_from(nodes@, i as int, p@),
        decreases nodes.len() - i,
    {
        let node = &nodes[i];
        if str_eq(node.path.as_str(), p) {
            return Some(node);
        }
        assert(decreases_to!(nodes@ => nodes@[i as int].children@));
        match find_node(&node.children, p) {
            Some(found) => {
                return Some(found);
            },
            None => {},
        }
        i = i + 1;
    }
    None
}

// ---------------------------------------------------------------------------
// Building the tree from tracked files
// ---------------------------------------------------------------------------

/// The non-empty `/`-separated segments of a tracked file path.
pub open spec fn path_segments(f: Seq<char>) -> Seq<Seq<char>> {
    spec_split(f, '/').filter(|p: Seq<char>| p.len() > 0)
}

pub open spec fn entry_views(v: Seq<Vec<String>>) -> Seq<Seq<Seq<char>>> {
    v.map_values(|e: Vec<String>| string_views(e@))
}

/// Some entry lies below a directory named `n` at this level.
pub open spec fn has_dir(entries: Seq<Seq<Seq<char>>>, n: Seq<char>) -> bool {
    exists|k: int| 0 <= k < entries.len() && entries[k].len() > 1 && #[trigger] entries[k][0] == n
}

/// Some entry is a file named `n` at this level.
pub open spec fn has_file(entries: Seq<Seq<Seq<char>>>, n: Seq<char>) -> bool {
    exists|k: int| 0 <= k < entries.len() && entries[k].len() == 1 && #[trigger] entries[k][0] == n
}

pub open spec fn under_dir(n: Seq<char>) -> spec_fn(Seq<Seq<char>>) -> bool {
    |e: Seq<Seq<char>>| e.len() > 1 && e[0] == n
}

/// The entries below the directory `n`, without its name.
pub open spec fn sub_entries(entries: Seq<Seq<Seq<char>>>, n: Seq<char>) -> Seq<Seq<Seq<char>>> {
    entries.filter(under_dir(n)).map_values(|e: Seq<Seq<char>>| e.drop_first())
}

pub open spec fn join_path(prefix: Seq<char>, name: Seq<char>) -> Seq<char> {
    if prefix.len() == 0 {
        name
    } else {
        prefix + seq!['/'] + name
    }
}

/// Directories come before files; within each, names are in name order.
pub open spec fn in_order(a: TreeNode, b: TreeNode) -> bool {
    ||| a.kind == b.kind && name_before(a.name@, b.name@)
    ||| a.kind == TreeEntryKind::Directory && b.kind == TreeEntryKind::File
}

/// An entry's path is its name under `prefix`, and its name is one of the
/// directories or files at this level; a file has no entries.
pub open spec fn placed(n: TreeNode, entries: Seq<Seq<Seq<char>>>, prefix: Seq<char>) -> bool {
    &&& n.path@ == join_path(prefix, n.name@)
    &&& match n.kind {
        TreeEntryKind::Directory => has_dir(entries, n.name@),
        TreeEntryKind::File => has_file(entries, n.name@) && n.children@.len() == 0,
    }
}

/// One level of the tree holds exactly the directories and the files named
/// by `entries`, each once, in order.
pub open spec fn level_shape(
    nodes: Seq<TreeNode>,
    entries: Seq<Seq<Seq<char>>>,
    prefix: Seq<char>,
) -> bool {
    &&& forall|i: int, j: int|
        0 <= i < j < nodes.len() ==> in_order(#[trigger] nodes[i], #[trigger] nodes[j])
    &&& forall|i: int| 0 <= i < nodes.len() ==> placed(#[trigger] nodes[i], entries, prefix)
    &&& forall|n: Seq<char>|
        has_dir(entries, n) ==> exists|i: int|
            0 <= i < nodes.len() && nodes[i].kind == TreeEntryKind::Directory && #[trigger] nodes[i].name@ == n
    &&& forall|n: Seq<char>|
        has_file(entries, n) ==> exists|i: int|
            0 <= i < nodes.len() && nodes[i].kind == TreeEntryKind::File && #[trigger] nodes[i].name@ == n
}

/// `nodes` is the tree of `entries` under `prefix`: this level has the
/// right shape, and each directory from `i` on holds the tree of the
/// entries below it.
pub open spec fn built_from(
    nodes: Seq<TreeNode>,
    entries: Seq<Seq<Seq<char>>>,
    prefix: Seq<char>,
    i: int,
) -> bool
    decreases nodes, nodes.len() - i,
{
    if i == 0 && !level_shape(nodes, entries, prefix) {
        false
    } else if 0 <= i < nodes.len() {
        &&& nodes[i].kind == TreeEntryKind::Directory ==> built_from(
            nodes[i].children@,
            sub_entries(entries, nodes[i].name@),
            nodes[i].path@,
            0,
        )
        &&& built_from(nodes, entries, prefix, i + 1)
    } else {
        true
    }
}

/// The tree of a list of tracked files.
pub open spec fn tree_of(files: Seq<String>, nodes: Seq<TreeNode>) -> bool {
    built_from(nodes, files.map_values(|f: String| path_segments(f@)), Seq::empty(), 0)
}

/// The non-empty segments of a path.
fn segments(f: &str) -> (r: Vec<String>)
    ensures
        string_views(r@) == path_segments(f@),
{
    let v = chars_of(f);
    let pieces = split_char(&v, '/');
    let ghost all = views(pieces@);
    let mut out: Vec<String> = Vec::new();
    let mut i: usize = 0;
    while i < pieces.len()
        invariant
            i <= pieces.len(),
            all == views(pieces@),
            string_views(out@) == all.take(i as int).filter(|p: Seq<char>| p.len() > 0),
        decreases pieces.len() - i,
    {
        let piece = &pieces[i];
        proof {
            assert(all.take(i + 1) =~= all.take(i as int).push(piece@));
            all.take(i as int).lemma_filter_push(piece@, |p: Seq<char>| p.len() > 0);
        }
        if piece.len() > 0 {
            let ghost before = out@;
            out.push(string_of(piece, 0, piece.len()));
            proof {
                assert(piece@.subrange(0, piece@.len() as int) =~= piece@);
                assert(string_views(out@) =~= string_views(before).push(piece@));
            }
        }
        i = i + 1;
    }
    assert(all.take(all.len() as int) =~= all);
    out
}

/// The names of the directories (`dirs`) or files at this level, each once,
/// in name order.
fn level_names(entries: &Vec<Vec<String>>, dirs: bool) -> (r: Vec<String>)
    ensures
        strictly_sorted(true, string_views(r@)),
        forall|n: Seq<char>|
            string_views(r@).contains(n) <==> if dirs {
                has_dir(entry_views(entries@), n)
            } else {
                has_file(entry_views(entries@), n)
            },
{
    let ghost ev = entry_views(entries@);
    let mut out: Vec<String> = Vec::new();
    let mut i: usize = 0;
    while i < entries.len()
        invariant
            i <= entries.len(),
            ev == entry_views(entries@),
            strictly_sorted(true, string_views(out@)),
            forall|n: Seq<char>|
                string_views(out@).contains(n) <==> exists|k: int|
                    0 <= k < i && (if dirs {
                        ev[k].len() > 1
                    } else {
                        ev[k].len() == 1
                    }) && #[trigger] ev[k][0] == n,
        decreases entries.len() - i,
    {
        let e = &entries[i];
        let wanted = if dirs {
            e.len() > 1
        } else {
            e.len() == 1
        };
        let ghost before = string_views(out@);
        if wanted {
            insert_sorted(true, &mut out, e[0].clone());
        }
        proof {
            assert forall|n: Seq<char>|
                (exists|k: int|
                    0 <= k < i + 1 && (if dirs {
                        ev[k].len() > 1
                    } else {
                        ev[k].len() == 1
                    }) && #[trigger] ev[k][0] == n) implies string_views(out@).contains(n) by {
                let k = choose|k: int|
                    0 <= k < i + 1 && (if dirs {
                        ev[k].len() > 1
                    } else {
                        ev[k].len() == 1
                    }) && #[trigger] ev[k][0] == n;
                if k < i {
                    assert(before.contains(n));
                } else {
                    assert(ev[k][0] == e@[0]@);
                }
            }
            assert forall|n: Seq<char>|
                string_views(out@).contains(n) implies exists|k: int|
                    0 <= k < i + 1 && (if dirs {
                        ev[k].len() > 1
                    } else {
                        ev[k].len() == 1
                    }) && #[trigger] ev[k][0] == n by {
                if !before.contains(n) {
                    assert(ev[i as int][0] == n);
                }
            }
        }
        i = i + 1;
    }
    proof {
        assert forall|n: Seq<char>|
            string_views(out@).contains(n) <==> if dirs {
                has_dir(ev, n)
            } else {
                has_file(ev, n)
            } by {
            if string_views(out@).contains(n) {
                let k = choose|k: int|
                    0 <= k < i && (if dirs {
                        ev[k].len() > 1
                    } else {
                        ev[k].len() == 1
                    }) && #[trigger] ev[k][0] == n;
            }
            if dirs && has_dir(ev, n) {
                let k = choose|k: int| 0 <= k < ev.len() && ev[k].len() > 1 && #[trigger] ev[k][0] == n;
            }
            if !dirs && has_file(ev, n) {
                let k = choose|k: int| 0 <= k < ev.len() && ev[k].len() == 1 && #[trigger] ev[k][0] == n;
            }
        }
    }
    out
}

/// The entries below the directory `name`, each without its first segment.
fn entries_below(entries: &Vec<Vec<String>>, name: &str, bound: Ghost<nat>) -> (r: Vec<Vec<String>>)
    requires
        forall|k: int| 0 <= k < entries@.len() ==> entries@[k]@.len() <= bound@,
    ensures
        entry_views(r@) == sub_entries(entry_views(entries@), name@),
        forall|k: int| 0 <= k < r@.len() ==> r@[k]@.len() < bound@,
{
    let ghost ev = entry_views(entries@);
    let mut out: Vec<Vec<String>> = Vec::new();
    let mut i: usize = 0;
    while i < entries.len()
        invariant
            i <= entries.len(),
            ev == entry_views(entries@),
            forall|k: int| 0 <= k < entries@.len() ==> entries@[k]@.len() <= bound@,
            entry_views(out@) == ev.take(i as int).filter(under_dir(name@)).map_values(
                |e: Seq<Seq<char>>| e.drop_first(),
            ),
            forall|k: int| 0 <= k < out@.len() ==> out@[k]@.len() < bound@,
        decreases entries.len() - i,
    {
        let e = &entries[i];
        proof {
            assert(ev[i as int] == string_views(e@));
            assert(ev.take(i + 1) =~= ev.take(i as int).push(string_views(e@)));
            ev.take(i as int).lemma_filter_push(string_views(e@), under_dir(name@));
        }
        if e.len() > 1 && str_eq(e[0].as_str(), name) {
            let mut tail: Vec<String> = Vec::new();
            let mut j: usize = 1;
            while j < e.len()
                invariant
                    1 <= j <= e.len(),
                    string_views(tail@) == string_views(e@).subrange(1, j as int),
                decreases e.len() - j,
            {
                let ghost t = string_views(tail@);
                tail.push(e[j].clone());
                assert(string_views(tail@) =~= t.push(e@[j as int]@));
                assert(string_views(tail@) =~= string_views(e@).subrange(1, j + 1));
                j = j + 1;
            }
            let ghost before = out@;
            out.push(tail);
            proof {
                let f = ev.take(i as int).filter(under_dir(name@));
                assert(string_views(e@).subrange(1, e@.len() as int) =~= string_views(
                    e@,
                ).drop_first());
                assert(entry_views(out@) =~= entry_views(before).push(
                    string_views(e@).drop_first(),
                ));
                assert(f.push(string_views(e@)).map_values(|e: Seq<Seq<char>>| e.drop_first())
                    =~= f.map_values(|e: Seq<Seq<char>>| e.drop_first()).push(
                    string_views(e@).drop_first(),
                ));
            }
        }
        i = i + 1;
    }
    assert(ev.take(ev.len() as int) =~= ev);
    out
}

fn join_name(prefix: &str, name: &str) -> (r: String)
    ensures
        r@ == join_path(prefix@, name@),
{
    if prefix.is_empty() {
        name.to_owned()
    } else {
        let mut out = prefix.to_owned();
        out.append("/");
        out.append(name);
        proof {
            reveal_strlit("/");
        }
        out
    }
}

proof fn lemma_built(
    nodes: Seq<TreeNode>,
    entries: Seq<Seq<Seq<char>>>,
    prefix: Seq<char>,
    i: int,
)
    requires
        0 <= i <= nodes.len(),
        level_shape(nodes, entries, prefix),
        forall|j: int|
            i <= j < nodes.len() && #[trigger] nodes[j].kind == TreeEntryKind::Directory
                ==> built_from(nodes[j].children@, sub_entries(entries, nodes[j].name@), nodes[j].path@, 0),
    ensures
        built_from(nodes, entries, prefix, i),
    decreases nodes.len() - i,
{
    if i < nodes.len() {
        lemma_built(nodes, entries, prefix, i + 1);
    }
}

proof fn lemma_height(nodes: Seq<TreeNode>, i: int, bound: nat)
    requires
        0 <= i <= nodes.len(),
        bound >= 1,
        forall|j: int| i <= j < nodes.len() ==> height_from(#[trigger] nodes[j].children@, 0) < bound,
    ensures
        height_from(nodes, i) <= bound,
    decreases nodes.len() - i,
{
    if i < nodes.len() {
        lemma_height(nodes, i + 1, bound);
    }
}

/// The entries of one level of the tree, built from the segments of the
/// files under `prefix`.
fn build_level(entries: &Vec<Vec<String>>, prefix: &str, bound: usize) -> (r: Vec<TreeNode>)
    requires
        forall|k: int| 0 <= k < entries@.len() ==> entries@[k]@.len() <= bound,
    ensures
        built_from(r@, entry_views(entries@), prefix@, 0),
        height_from(r@, 0) <= bound,
    decreases bound,
{
    let ghost ev = entry_views(entries@);
    let dir_names = level_names(entries, true);
    let file_names = level_names(entries, false);
    let ghost dn = string_views(dir_names@);
    let ghost fnm = string_views(file_names@);
    let mut nodes: Vec<TreeNode> = Vec::new();
    let mut i: usize = 0;
    while i < dir_names.len()
        invariant
            i <= dir_names.len(),
            ev == entry_views(entries@),
            dn == string_views(dir_names@),
            forall|n: Seq<char>| dn.contains(n) <==> has_dir(ev, n),
            forall|k: int| 0 <= k < entries@.len() ==> entries@[k]@.len() <= bound,
            nodes.len() == i,
            forall|j: int|
                0 <= j < i ==> {
                    &&& (#[trigger] nodes@[j]).kind == TreeEntryKind::Directory
                    &&& nodes@[j].name@ == dn[j]
                    &&& nodes@[j].path@ == join_path(prefix@, dn[j])
                    &&& built_from(nodes@[j].children@, sub_entries(ev, dn[j]), nodes@[j].path@, 0)
                    &&& height_from(nodes@[j].children@, 0) < bound
                },
        decreases dir_names.len() - i,
    {
        let name = &dir_names[i];
        proof {
            assert(dn.contains(dn[i as int]));
            let k = choose|k: int| 0 <= k < ev.len() && ev[k].len() > 1 && #[trigger] ev[k][0] == dn[i as int];
            assert(entries@[k]@.len() == ev[k].len());
        }
        let below = entries_below(entries, name.as_str(), Ghost(bound as nat));
        let path = join_name(prefix, name.as_str());
        let children = build_level(&below, path.as_str(), bound - 1);
        nodes.push(TreeNode {
            path,
            name: name.clone(),
            kind: TreeEntryKind::Directory,
            children,
        });
        i = i + 1;
    }
    let mut j: usize = 0;
    while j < file_names.len()
        invariant
            j <= file_names.len(),
            ev == entry_views(entries@),
            fnm == string_views(file_names@),
            forall|n: Seq<char>| fnm.contains(n) <==> has_file(ev, n),
            forall|k: int| 0 <= k < entries@.len() ==> entries@[k]@.len() <= bound,
            nodes.len() == dn.len() + j,
            forall|q: int|
                0 <= q < dn.len() ==> {
                    &&& (#[trigger] nodes@[q]).kind == TreeEntryKind::Directory
                    &&& nodes@[q].name@ == dn[q]
                    &&& nodes@[q].path@ == join_path(prefix@, dn[q])
                    &&& built_from(nodes@[q].children@, sub_entries(ev, dn[q]), nodes@[q].path@, 0)
                    &&& height_from(nodes@[q].children@, 0) < bound
                },
            forall|q: int|
                0 <= q < j ==> {
                    &&& (#[trigger] nodes@[dn.len() + q]).kind == TreeEntryKind::File
                    &&& nodes@[dn.len() + q].name@ == fnm[q]
                    &&& nodes@[dn.len() + q].path@ == join_path(prefix@, fnm[q])
                    &&& nodes@[dn.len() + q].children@.len() == 0
                },
        decreases file_names.len() - j,
    {
        let name = &file_names[j];
        proof {
            assert(fnm.contains(fnm[j as int]));
            let k = choose|k: int| 0 <= k < ev.len() && ev[k].len() == 1 && #[trigger] ev[k][0] == fnm[j as int];
            assert(entries@[k]@.len() == ev[k].len());
        }
        let path = join_name(prefix, name.as_str());
        let ghost before = nodes@;
        nodes.push(TreeNode {
            path,
            name: name.clone(),
            kind: TreeEntryKind::File,
            children: Vec::new(),
        });
        proof {
            assert forall|q: int| 0 <= q < dn.len() implies nodes@[q] == before[q] by {}
            assert forall|q: int| 0 <= q < j implies #[trigger] nodes@[dn.len() + q] == before[dn.len() + q] by {}
        }
        j = j + 1;
    }
    let ghost r = nodes@;
    let ghost d = dn.len() as int;
    proof {
        assert forall|a: int, b: int| 0 <= a < b < r.len() implies in_order(
            #[trigger] r[a],
            #[trigger] r[b],
        ) by {
            if b < d {
            } else if a >= d {
                assert(r[a] == nodes@[d + (a - d)]);
                assert(r[b] == nodes@[d + (b - d)]);
            } else {
                assert(r[b] == nodes@[d + (b - d)]);
            }
        }
        assert forall|a: int| 0 <= a < r.len() implies placed(#[trigger] r[a], ev, prefix@) by {
            if a < d {
                assert(dn.contains(dn[a]));
            } else {
                assert(r[a] == nodes@[d + (a - d)]);
                assert(fnm.contains(fnm[a - d]));
            }
        }
        assert forall|n: Seq<char>| has_dir(ev, n) implies exists|a: int|
            0 <= a < r.len() && r[a].kind == TreeEntryKind::Directory && #[trigger] r[a].name@ == n by {
            assert(dn.contains(n));
            let a = choose|a: int| 0 <= a < dn.len() && dn[a] == n;
            assert(r[a].name@ == n);
        }
        assert forall|n: Seq<char>| has_file(ev, n) implies exists|a: int|
            0 <= a < r.len() && r[a].kind == TreeEntryKind::File && #[trigger] r[a].name@ == n by {
            assert(fnm.contains(n));
            let a = choose|a: int| 0 <= a < fnm.len() && fnm[a] == n;
            assert(r[d + a] == nodes@[dn.len() + a]);
            assert(r[d + a].name@ == n);
        }
        assert forall|a: int|
            0 <= a < r.len() && #[trigger] r[a].kind == TreeEntryKind::Directory implies built_from(
                r[a].children@,
                sub_entries(ev, r[a].name@),
                r[a].path@,
                0,
            ) by {
            if a >= d {
                assert(r[a] == nodes@[d + (a - d)]);
            }
        }
        lemma_built(r, ev, prefix@, 0);
        if r.len() > 0 {
            assert forall|a: int| 0 <= a < r.len() implies height_from(
                #[trigger] r[a].children@,
                0,
            ) < bound by {
                if a >= d {
                    assert(r[a] == nodes@[d + (a - d)]);
                    assert(fnm.contains(fnm[a - d]));
                    let k = choose|k: int| 0 <= k < ev.len() && ev[k].len() == 1 && #[trigger] ev[k][0] == fnm[a - d];
                    assert(entries@[k]@.len() == ev[k].len());
                }
            }
            lemma_height(r, 0, bound as nat);
        }
    }
    nodes
}

// ---------------------------------------------------------------------------
// The Project tree
// ---------------------------------------------------------------------------

/// A Project's file tree with its display state.
pub struct ProjectTree {
    project_path: String,
    children: Vec<TreeNode>,
    expanded: Vec<String>,
    filter: String,
    selected: Option<String>,
    focused: Option<String>,
}

impl View for ProjectTree {
    type V = TreeModel;

    closed spec fn view(&self) -> TreeModel {
        TreeModel {
            project_path: self.project_path@,
            entries: self.children@,
            expanded: string_views(self.expanded@).to_set(),
            filter: self.filter@,
            selected: opt_view(self.selected),
            focused: opt_view(self.focused),
        }
    }
}

/// The model with another set of expanded directories.
pub open spec fn with_expanded(m: TreeModel, e: Set<Seq<char>>) -> TreeModel {
    TreeModel {
        project_path: m.project_path,
        entries: m.entries,
        expanded: e,
        filter: m.filter,
        selected: m.selected,
        focused: m.focused,
    }
}

/// Focusing and selecting `p`, and whether that changed anything.
pub open spec fn focus_on(m: TreeModel, p: Seq<char>) -> (TreeModel, bool) {
    (
        TreeModel {
            project_path: m.project_path,
            entries: m.entries,
            expanded: m.expanded,
            filter: m.filter,
            selected: Some(p),
            focused: Some(p),
        },
        m.focused != Some(p) || m.selected != Some(p),
    )
}

/// Whether the first entry with path `p` is a directory.
pub open spec fn is_dir_path(entries: Seq<TreeNode>, p: Seq<char>) -> bool {
    find_from(entries, 0, p) matches Some(n) && n.kind == TreeEntryKind::Directory
}

/// The paths of the directories above `p`.
pub open spec fn ancestor_paths(p: Seq<char>) -> Set<Seq<char>> {
    Set::new(|a: Seq<char>| exists|i: int| 0 <= i < p.len() && p[i] == '/' && a == p.subrange(0, i))
}

/// The directories, anywhere in `nodes[i..]`, that hold an entry whose
/// subtree matches the filter.
pub open spec fn match_ancestors(nodes: Seq<TreeNode>, i: int, filter: Seq<char>) -> Set<Seq<char>>
    decreases nodes, nodes.len() - i,
{
    if 0 <= i < nodes.len() {
        let n = nodes[i];
        let here = if n.kind == TreeEntryKind::Directory && any_match_from(n.children@, 0, filter) {
            set![n.path@].union(match_ancestors(n.children@, 0, filter))
        } else {
            Set::empty()
        };
        here.union(match_ancestors(nodes, i + 1, filter))
    } else {
        Set::empty()
    }
}

/// The expanded set after the filter is set to `filter`: an empty filter
/// adds nothing; otherwise every directory holding a match is expanded.
pub open spec fn expanded_for_filter(m: TreeModel, filter: Seq<char>) -> Set<Seq<char>> {
    if filter.len() == 0 {
        m.expanded
    } else {
        m.expanded.union(match_ancestors(m.entries, 0, filter))
    }
}

/// The model after its filter is set to `filter`.
pub open spec fn with_filter(m: TreeModel, filter: Seq<char>) -> TreeModel {
    TreeModel {
        project_path: m.project_path,
        entries: m.entries,
        expanded: expanded_for_filter(m, filter),
        filter,
        selected: m.selected,
        focused: m.focused,
    }
}

pub proof fn lemma_to_set(s: Seq<Seq<char>>, x: Seq<char>)
    ensures
        s.to_set().contains(x) == s.contains(x),
{
}

impl ProjectTree {
    /// The tree's invariant: the expanded directories are kept as a sorted
    /// list of distinct paths, and the tree is shallow enough to number its
    /// levels.
    pub closed spec fn wf(&self) -> bool {
        &&& strictly_sorted(false, string_views(self.expanded@))
        &&& height_from(self.children@, 0) <= usize::MAX
    }

    /// The tree of a Project's tracked files (paths with `/` between their
    /// segments): directories before files, each in name order, nothing
    /// expanded, no filter and no selection.
    pub fn from_tracked_files(project_path: String, files: &[String]) -> (r: Self)
        ensures
            r.wf(),
            r@.project_path == project_path@,
            tree_of(files@, r@.entries),
            r@.expanded.is_empty(),
            r@.filter.len() == 0,
            r@.selected is None,
            r@.focused is None,
    {
        let ghost fe = files@.map_values(|f: String| path_segments(f@));
        let mut entries: Vec<Vec<String>> = Vec::new();
        let mut bound: usize = 0;
        let mut i: usize = 0;
        while i < files.len()
            invariant
                i <= files@.len(),
                fe == files@.map_values(|f: String| path_segments(f@)),
                entry_views(entries@) == fe.take(i as int),
                forall|k: int| 0 <= k < entries@.len() ==> entries@[k]@.len() <= bound,
            decreases files@.len() - i,
        {
            let parts = segments(files[i].as_str());
            if parts.len() > bound {
                bound = parts.len();
            }
            let ghost before = entries@;
            entries.push(parts);
            proof {
                assert(entry_views(entries@) =~= entry_views(before).push(string_views(parts@)));
                assert(fe.take(i + 1) =~= fe.take(i as int).push(fe[i as int]));
            }
            i = i + 1;
        }
        assert(fe.take(files@.len() as int) =~= fe);
        proof {
            reveal_strlit("");
            assert(""@ =~= Seq::<char>::empty());
        }
        let children = build_level(&entries, "", bound);
        let r = ProjectTree {
            project_path,
            children,
            expanded: Vec::new(),
            filter: String::new(),
            selected: None,
            focused: None,
        };
        assert(r@.expanded =~= Set::empty());
        r
    }

    /// The tree of a Project's tracked files.
    pub fn from_project(project: &Site) -> (r: Self)
        ensures
            r.wf(),
            r@.project_path == project.root_path@,
            tree_of(project.tracked_files@, r@.entries),
            r@.expanded.is_empty(),
            r@.filter.len() == 0,
            r@.selected is None,
            r@.focused is None,
    {
        Self::from_tracked_files(project.root_path.clone(), project.tracked_files.as_slice())
    }

    pub fn project_path(&self) -> (r: &str)
        ensures
            r@ == self@.project_path,
    {
        self.project_path.as_str()
    }

    pub fn root_entries(&self) -> (r: &[TreeNode])
        ensures
            r@ == self@.entries,
    {
        self.children.as_slice()
    }

    pub fn filter(&self) -> (r: &str)
        ensures
            r@ == self@.filter,
    {
        self.filter.as_str()
    }

    pub fn selected_path(&self) -> (r: Option<&str>)
        ensures
            match r {
                Some(s) => self@.selected == Some(s@),
                None => self@.selected is None,
            },
    {
        match &self.selected {
            Some(s) => Some(s.as_str()),
            None => None,
        }
    }

    pub fn focused_path(&self) -> (r: Option<&str>)
        ensures
            match r {
                Some(s) => self@.focused == Some(s@),
                None => self@.focused is None,
            },
    {
        match &self.focused {
            Some(s) => Some(s.as_str()),
            None => None,
        }
    }

    pub fn is_expanded(&self, path: &str) -> (r: bool)
        ensures
            r == self@.expanded.contains(path@),
    {
        holds(&self.expanded, path)
    }

    /// The state to keep for this Project: the expanded directories in
    /// sorted order, the filter and the selection.
    pub fn snapshot_state(&self) -> (r: ProjectTreeState)
        requires
            self.wf(),
        ensures
            strictly_sorted(false, string_views(r.expanded_paths@)),
            string_views(r.expanded_paths@).to_set() == self@.expanded,
            r.filter@ == self@.filter,
            opt_view(r.selected_path) == self@.selected,
    {
        let mut paths: Vec<String> = Vec::new();
        let mut i: usize = 0;
        while i < self.expanded.len()
            invariant
                i <= self.expanded.len(),
                string_views(paths@) == string_views(self.expanded@).take(i as int),
            decreases self.expanded.len() - i,
        {
            let ghost before = paths@;
            paths.push(self.expanded[i].clone());
            assert(string_views(paths@) =~= string_views(before).push(self.expanded@[i as int]@));
            assert(string_views(paths@) =~= string_views(self.expanded@).take(i + 1));
            i = i + 1;
        }
        assert(string_views(self.expanded@).take(i as int) =~= string_views(self.expanded@));
        let selected_path = match &self.selected {
            Some(s) => Some(s.clone()),
            None => None,
        };
        ProjectTreeState { expanded_paths: paths, filter: self.filter.clone(), selected_path }
    }

    fn contains_path(&self, path: &str) -> (r: bool)
        ensures
            r == find_from(self@.entries, 0, path@) is Some,
    {
        match find_node(&self.children, path) {
            Some(_) => true,
            None => false,
        }
    }

    fn is_directory(&self, path: &str) -> (r: bool)
        ensures
            r == is_dir_path(self@.entries, path@),
    {
        match find_node(&self.children, path) {
            Some(n) => n.kind == TreeEntryKind::Directory,
            None => false,
        }
    }

    fn add_expanded(&mut self, path: String) -> (r: bool)
        requires
            old(self).wf(),
        ensures
            final(self).wf(),
            r == !old(self)@.expanded.contains(path@),
            final(self)@ == with_expanded(old(self)@, old(self)@.expanded.insert(path@)),
    {
        let r = insert_sorted(false, &mut self.expanded, path);
        assert(self@.expanded =~= old(self)@.expanded.insert(path@));
        r
    }

    /// Expands a directory; returns whether it was newly expanded. Paths
    /// that are not directories of the tree are left alone.
    pub fn expand(&mut self, path: &str) -> (r: bool)
        requires
            old(self).wf(),
        ensures
            final(self).wf(),
            is_dir_path(old(self)@.entries, path@) ==> {
                &&& r == !old(self)@.expanded.contains(path@)
                &&& final(self)@ == with_expanded(old(self)@, old(self)@.expanded.insert(path@))
            },
            !is_dir_path(old(self)@.entries, path@) ==> !r && final(self)@ == old(self)@,
    {
        if !self.is_directory(path) {
            return false;
        }
        self.add_expanded(path.to_owned())
    }

    /// Collapses a path; returns whether it was expanded.
    pub fn collapse(&mut self, path: &str) -> (r: bool)
        requires
            old(self).wf(),
        ensures
            final(self).wf(),
            r == old(self)@.expanded.contains(path@),
            final(self)@ == with_expanded(old(self)@, old(self)@.expanded.remove(path@)),
    {
        let r = remove_sorted(false, &mut self.expanded, path);
        assert(self@.expanded =~= old(self)@.expanded.remove(path@));
        r
    }

    /// Collapses an expanded path, or else expands it.
    pub fn toggle_expanded(&mut self, path: &str) -> (r: bool)
        requires
            old(self).wf(),
        ensures
            final(self).wf(),
            (final(self)@, r) == toggle_outcome(old(self)@, path@),
    {
        if self.is_expanded(path) {
            self.collapse(path)
        } else {
            self.expand(path)
        }
    }

    /// Selects and focuses an entry of the tree; other paths are refused.
    pub fn select(&mut self, path: &str) -> (r: bool)
        requires
            old(self).wf(),
        ensures
            final(self).wf(),
            r == find_from(old(self)@.entries, 0, path@) is Some,
            r ==> final(self)@ == focus_on(old(self)@, path@).0,
            !r ==> final(self)@ == old(self)@,
    {
        if !self.contains_path(path) {
            return false;
        }
        self.selected = Some(path.to_owned());
        self.focused = Some(path.to_owned());
        assert(self@ =~= focus_on(old(self)@, path@).0);
        true
    }

    fn focus_row(&mut self, path: &str) -> (r: bool)
        requires
            old(self).wf(),
        ensures
            final(self).wf(),
            (final(self)@, r) == focus_on(old(self)@, path@),
    {
        let same_focus = match &self.focused {
            Some(f) => str_eq(f.as_str(), path),
            None => false,
        };
        let same_selection = match &self.selected {
            Some(f) => str_eq(f.as_str(), path),
            None => false,
        };
        self.focused = Some(path.to_owned());
        self.selected = Some(path.to_owned());
        assert(self@ =~= focus_on(old(self)@, path@).0);
        !same_focus || !same_selection
    }

    /// Expands every directory above an entry and selects it; paths not in
    /// the tree are refused.
    pub fn reveal_path(&mut self, path: &str) -> (r: bool)
        requires
            old(self).wf(),
        ensures
            final(self).wf(),
            r == find_from(old(self)@.entries, 0, path@) is Some,
            r ==> final(self)@ == focus_on(
                with_expanded(old(self)@, old(self)@.expanded.union(ancestor_paths(path@))),
                path@,
            ).0,
            !r ==> final(self)@ == old(self)@,
    {
        if !self.contains_path(path) {
            return false;
        }
        let v = chars_of(path);
        let mut i: usize = 0;
        while i < v.len()
            invariant
                i <= v.len(),
                v@ == path@,
                self.wf(),
                find_from(self@.entries, 0, path@) is Some,
                self@ == with_expanded(
                    old(self)@,
                    old(self)@.expanded.union(
                        Set::new(
                            |a: Seq<char>|
                                exists|j: int| 0 <= j < i && path@[j] == '/' && a == path@.subrange(0, j),
                        ),
                    ),
                ),
            decreases v.len() - i,
        {
            if v[i] == '/' {
                self.add_expanded(string_of(&v, 0, i));
            }
            proof {
                let before = Set::new(
                    |a: Seq<char>|
                        exists|j: int| 0 <= j < i && path@[j] == '/' && a == path@.subrange(0, j),
                );
                let after = Set::new(
                    |a: Seq<char>|
                        exists|j: int| 0 <= j < i + 1 && path@[j] == '/' && a == path@.subrange(0, j),
                );
                if v[i as int] == '/' {
                    assert(after =~= before.insert(path@.subrange(0, i as int)));
                } else {
                    assert(after =~= before);
                }
                assert(self@.expanded =~= old(self)@.expanded.union(after));
            }
            i = i + 1;
        }
        proof {
            let all = Set::new(
                |a: Seq<char>| exists|j: int| 0 <= j < i && path@[j] == '/' && a == path@.subrange(0, j),
            );
            assert(all =~= ancestor_paths(path@));
        }
        self.select(path)
    }
}

/// Collapsing an expanded path, or else expanding a directory.
pub open spec fn toggle_outcome(m: TreeModel, p: Seq<char>) -> (TreeModel, bool) {
    if m.expanded.contains(p) {
        (with_expanded(m, m.expanded.remove(p)), true)
    } else if is_dir_path(m.entries, p) {
        (with_expanded(m, m.expanded.insert(p)), true)
    } else {
        (m, false)
    }
}

/// Toggling the same path twice gives back the tree as it was: a directory
/// is expanded and collapsed again, or collapsed and expanded again. (A path
/// that is expanded but names no directory is collapsed once and then left
/// alone, so it is no case of this.)
pub proof fn law_toggle_twice_restores(m: TreeModel, p: Seq<char>)
    requires
        is_dir_path(m.entries, p) || !m.expanded.contains(p),
    ensures
        toggle_outcome(toggle_outcome(m, p).0, p).0 == m,
{
    let once = toggle_outcome(m, p).0;
    if m.expanded.contains(p) {
        assert(once.expanded.insert(p) =~= m.expanded);
    } else if is_dir_path(m.entries, p) {
        assert(once.expanded.remove(p) =~= m.expanded);
    }
}

// ---------------------------------------------------------------------------
// Rows, filtering and keys
// ---------------------------------------------------------------------------

fn opt_is(o: &Option<String>, p: &str) -> (r: bool)
    ensures
        r == (opt_view(*o) == Some(p@)),
{
    match o {
        Some(s) => str_eq(s.as_str(), p),
        None => false,
    }
}

/// Adds to `expanded` every directory in `nodes` that holds a match.
fn expand_matches(
    nodes: &Vec<TreeNode>,
    needle: &Vec<char>,
    filter: Ghost<Seq<char>>,
    expanded: &mut Vec<String>,
)
    requires
        needle@ == lowercase_text(spec_trim(filter@)),
        strictly_sorted(false, string_views(old(expanded)@)),
    ensures
        strictly_sorted(false, string_views(final(expanded)@)),
        string_views(final(expanded)@).to_set() == string_views(old(expanded)@).to_set().union(
            match_ancestors(nodes@, 0, filter@),
        ),
    decreases nodes@,
{
    let ghost start = string_views(expanded@);
    let ghost all = match_ancestors(nodes@, 0, filter@);
    let mut i: usize = 0;
    while i < nodes.len()
        invariant
            i <= nodes.len(),
            needle@ == lowercase_text(spec_trim(filter@)),
            all == match_ancestors(nodes@, 0, filter@),
            strictly_sorted(false, string_views(expanded@)),
            forall|x: Seq<char>| start.contains(x) ==> string_views(expanded@).contains(x),
            forall|x: Seq<char>|
                string_views(expanded@).contains(x) ==> start.contains(x) || all.contains(x),
            forall|x: Seq<char>|
                all.contains(x) ==> string_views(expanded@).contains(x) || match_ancestors(
                    nodes@,
                    i as int,
                    filter@,
                ).contains(x),
            forall|x: Seq<char>|
                match_ancestors(nodes@, i as int, filter@).contains(x) ==> all.contains(x),
        decreases nodes.len() - i,
    {
        let node = &nodes[i];
        let ghost here_set = match_ancestors(nodes@, i as int, filter@);
        let ghost next_set = match_ancestors(nodes@, i + 1, filter@);
        if node.kind == TreeEntryKind::Directory && any_match(&node.children, needle, filter) {
            let ghost before = string_views(expanded@);
            insert_sorted(false, expanded, node.path.clone());
            assert(decreases_to!(nodes@ => nodes@[i as int].children@));
            let ghost mid = string_views(expanded@);
            expand_matches(&node.children, needle, filter, expanded);
            proof {
                let below = match_ancestors(node.children@, 0, filter@);
                assert forall|x: Seq<char>| mid.contains(x) implies string_views(
                    expanded@,
                ).contains(x) by {
                    lemma_to_set(mid, x);
                    lemma_to_set(string_views(expanded@), x);
                }
                assert forall|x: Seq<char>| string_views(expanded@).contains(x) implies (mid.contains(
                    x,
                ) || below.contains(x)) by {
                    lemma_to_set(mid, x);
                    lemma_to_set(string_views(expanded@), x);
                }
                assert forall|x: Seq<char>| below.contains(x) implies string_views(
                    expanded@,
                ).contains(x) by {
                    lemma_to_set(string_views(expanded@), x);
                }
            }
        }
        i = i + 1;
    }
    proof {
        assert(string_views(expanded@).to_set() =~= start.to_set().union(all));
    }
}

impl ProjectTree {
    fn collect_visible(
        &self,
        nodes: &Vec<TreeNode>,
        depth: usize,
        blank: bool,
        needle: &Vec<char>,
        rows: &mut Vec<VisibleRow>,
    )
        requires
            blank == (spec_trim(self@.filter).len() == 0),
            needle@ == lowercase_text(spec_trim(self@.filter)),
            depth + height_from(nodes@, 0) <= usize::MAX,
        ensures
            row_views(final(rows)@) == row_views(old(rows)@) + rows_from(
                self@,
                nodes@,
                0,
                depth as nat,
            ),
        decreases nodes@,
    {
        let ghost m = self@;
        let ghost start = row_views(rows@);
        let mut i: usize = 0;
        while i < nodes.len()
            invariant
                i <= nodes.len(),
                m == self@,
                blank == (spec_trim(m.filter).len() == 0),
                needle@ == lowercase_text(spec_trim(m.filter)),
                depth + height_from(nodes@, i as int) <= usize::MAX,
                row_views(rows@) + rows_from(m, nodes@, i as int, depth as nat) == start
                    + rows_from(m, nodes@, 0, depth as nat),
            decreases nodes.len() - i,
        {
            let node = &nodes[i];
            let shown = blank || node_matches(node, needle, Ghost(m.filter));
            if shown {
                let open = node.kind == TreeEntryKind::Directory && holds(
                    &self.expanded,
                    node.path.as_str(),
                );
                let ghost before = row_views(rows@);
                let row = VisibleRow {
                    path: node.path.clone(),
                    name: node.name.clone(),
                    kind: node.kind,
                    depth,
                    expanded: open,
                    selected: opt_is(&self.selected, node.path.as_str()),
                    focused: opt_is(&self.focused, node.path.as_str()),
                };
                rows.push(row);
                assert(row_views(rows@) =~= before.push(row@));
                if open {
                    assert(decreases_to!(nodes@ => nodes@[i as int].children@));
                    let ghost mid = row_views(rows@);
                    self.collect_visible(&node.children, depth + 1, blank, needle, rows);
                    assert(row_views(rows@) + rows_from(m, nodes@, i + 1, depth as nat) =~= before
                        + rows_from(m, nodes@, i as int, depth as nat));
                } else {
                    assert(row_views(rows@) + rows_from(m, nodes@, i + 1, depth as nat) =~= before
                        + rows_from(m, nodes@, i as int, depth as nat));
                }
            }
            i = i + 1;
        }
        assert(row_views(rows@) =~= start + rows_from(m, nodes@, 0, depth as nat));
    }

    /// The rows of the tree as displayed.
    pub fn visible_rows(&self) -> (r: Vec<VisibleRow>)
        requires
            self.wf(),
        ensures
            row_views(r@) == visible(self@),
    {
        let mut rows: Vec<VisibleRow> = Vec::new();
        let blank = trim(self.filter.as_str()).as_str().is_empty();
        let needle = needle_of(self.filter.as_str());
        self.collect_visible(&self.children, 0, blank, &needle, &mut rows);
        assert(row_views(rows@) =~= visible(self@));
        rows
    }

    /// Sets the filter text; a non-empty filter expands every directory that
    /// holds a match, so that matches show.
    pub fn set_filter(&mut self, filter: &str)
        requires
            old(self).wf(),
        ensures
            final(self).wf(),
            final(self)@ == with_filter(old(self)@, filter@),
    {
        self.filter = filter.to_owned();
        if filter.is_empty() {
            assert(self@ =~= with_filter(old(self)@, filter@));
            return;
        }
        let needle = needle_of(filter);
        expand_matches(&self.children, &needle, Ghost(filter@), &mut self.expanded);
        assert(self@ =~= with_filter(old(self)@, filter@));
    }
}

// ---------------------------------------------------------------------------
// Restoring state and keyboard navigation
// ---------------------------------------------------------------------------

/// The model after a kept state is applied: only expanded paths that are in
/// the tree are kept, a selection in the tree is selected and focused, and
/// the filter is set as by `set_filter`.
pub open spec fn applied(
    m: TreeModel,
    expanded_paths: Seq<Seq<char>>,
    filter: Seq<char>,
    selected: Option<Seq<char>>,
) -> TreeModel {
    let kept = Set::new(
        |p: Seq<char>| expanded_paths.contains(p) && find_from(m.entries, 0, p) is Some,
    );
    let with_kept = with_expanded(m, kept);
    let chosen = match selected {
        Some(p) => if find_from(m.entries, 0, p) is Some {
            focus_on(with_kept, p).0
        } else {
            with_kept
        },
        None => with_kept,
    };
    with_filter(chosen, filter)
}

/// The first row from `i` on whose path is `p`, or the number of rows.
pub open spec fn first_row_at(rows: Seq<RowView>, p: Seq<char>, i: int) -> int
    decreases rows.len() - i,
{
    if i < 0 || i >= rows.len() {
        rows.len() as int
    } else if rows[i].path == p {
        i
    } else {
        first_row_at(rows, p, i + 1)
    }
}

/// The row of the focused path, if it is displayed.
pub open spec fn focus_index(m: TreeModel) -> Option<int> {
    match m.focused {
        Some(p) => {
            let k = first_row_at(visible(m), p, 0);
            if k < visible(m).len() {
                Some(k)
            } else {
                None
            }
        },
        None => None,
    }
}

/// Index of the last `/` before position `i`, or -1.
pub open spec fn last_slash(p: Seq<char>, i: int) -> int
    decreases i,
{
    if i <= 0 {
        -1
    } else if p[i - 1] == '/' {
        i - 1
    } else {
        last_slash(p, i - 1)
    }
}

/// The path of the directory holding `p`, if `p` has one.
pub open spec fn parent_of(p: Seq<char>) -> Option<Seq<char>> {
    let k = last_slash(p, p.len() as int);
    if k >= 0 {
        Some(p.subrange(0, k))
    } else {
        None
    }
}

/// What a key does to the tree, and whether anything changed. With no rows
/// nothing happens. Up and down move the focus (and selection) one row,
/// stopping at the ends; without a focused row they go to the first or last
/// row. Right expands a collapsed directory, or moves into an expanded one;
/// left collapses an expanded directory, or moves to the parent; enter
/// toggles a directory or selects a file.
pub open spec fn key_outcome(m: TreeModel, key: TreeKey) -> (TreeModel, bool) {
    let rows = visible(m);
    if rows.len() == 0 {
        (m, false)
    } else {
        match key {
            TreeKey::ArrowDown => {
                let idx = match focus_index(m) {
                    Some(i) => if i + 1 < rows.len() {
                        i + 1
                    } else {
                        rows.len() - 1
                    },
                    None => 0,
                };
                focus_on(m, rows[idx].path)
            },
            TreeKey::ArrowUp => {
                let idx = match focus_index(m) {
                    Some(i) => if i > 0 {
                        i - 1
                    } else {
                        0
                    },
                    None => rows.len() - 1,
                };
                focus_on(m, rows[idx].path)
            },
            TreeKey::ArrowRight => match focus_index(m) {
                None => focus_on(m, rows[0].path),
                Some(i) => {
                    let row = rows[i];
                    if row.kind == TreeEntryKind::Directory && !row.expanded {
                        (with_expanded(m, m.expanded.insert(row.path)), true)
                    } else if row.kind == TreeEntryKind::Directory && row.expanded && i + 1
                        < rows.len() && rows[i + 1].depth > row.depth {
                        focus_on(m, rows[i + 1].path)
                    } else {
                        (m, false)
                    }
                },
            },
            TreeKey::ArrowLeft => match focus_index(m) {
                None => (m, false),
                Some(i) => {
                    let row = rows[i];
                    if row.kind == TreeEntryKind::Directory && m.expanded.contains(row.path) {
                        (with_expanded(m, m.expanded.remove(row.path)), true)
                    } else if row.depth > 0 {
                        match parent_of(row.path) {
                            Some(q) => focus_on(m, q),
                            None => (m, false),
                        }
                    } else {
                        (m, false)
                    }
                },
            },
            TreeKey::Enter => match focus_index(m) {
                None => focus_on(m, rows[0].path),
                Some(i) => {
                    let row = rows[i];
                    if row.kind == TreeEntryKind::Directory {
                        toggle_outcome(m, row.path)
                    } else {
                        focus_on(m, row.path)
                    }
                },
            },
        }
    }
}

fn row_position(rows: &Vec<VisibleRow>, p: &str) -> (r: usize)
    ensures
        r == first_row_at(row_views(rows@), p@, 0),
{
    let ghost rv = row_views(rows@);
    let mut i: usize = 0;
    while i < rows.len()
        invariant
            i <= rows.len(),
            rv == row_views(rows@),
            first_row_at(rv, p@, 0) == first_row_at(rv, p@, i as int),
        decreases rows.len() - i,
    {
        if str_eq(rows[i].path.as_str(), p) {
            return i;
        }
        i = i + 1;
    }
    i
}

fn parent_path(path: &str) -> (r: Option<String>)
    ensures
        opt_view(r) == parent_of(path@),
{
    let v = chars_of(path);
    let mut k: usize = v.len();
    while k > 0 && v[k - 1] != '/'
        invariant
            k <= v.len(),
            v@ == path@,
            last_slash(path@, path@.len() as int) == last_slash(path@, k as int),
        decreases k,
    {
        k = k - 1;
    }
    if k == 0 {
        None
    } else {
        Some(string_of(&v, 0, k - 1))
    }
}

proof fn lemma_first_row_at(rows: Seq<RowView>, p: Seq<char>, k: int, i: int)
    requires
        0 <= k <= i < rows.len(),
        rows[i].path == p,
        forall|j: int| k <= j < i ==> (#[trigger] rows[j]).path != p,
    ensures
        first_row_at(rows, p, k) == i,
    decreases i - k,
{
    if k < i {
        lemma_first_row_at(rows, p, k + 1, i);
    }
}

/// Up and down move the focus and the selection by exactly one displayed
/// row: with the focus on row `i` (its first appearance among the displayed
/// rows), ArrowUp focuses and selects row `i - 1` (row 0 stays), ArrowDown
/// focuses and selects row `i + 1` (the last row stays). Expansion, filter
/// and entries are untouched.
pub proof fn law_arrows_move_one_row(m: TreeModel, i: int)
    requires
        0 <= i < visible(m).len(),
        m.focused == Some(visible(m)[i].path),
        forall|j: int| 0 <= j < i ==> (#[trigger] visible(m)[j]).path != visible(m)[i].path,
    ensures
        ({
            let up = key_outcome(m, TreeKey::ArrowUp).0;
            let above = if i > 0 { i - 1 } else { 0 };
            &&& up.focused == Some(visible(m)[above].path)
            &&& up.selected == Some(visible(m)[above].path)
            &&& up.expanded == m.expanded && up.filter == m.filter && up.entries == m.entries
        }),
        ({
            let down = key_outcome(m, TreeKey::ArrowDown).0;
            let below = if i + 1 < visible(m).len() { i + 1 } else { i };
            &&& down.focused == Some(visible(m)[below].path)
            &&& down.selected == Some(visible(m)[below].path)
            &&& down.expanded == m.expanded && down.filter == m.filter && down.entries == m.entries
        }),
{
    lemma_first_row_at(visible(m), visible(m)[i].path, 0, i);
    assert(focus_index(m) == Some(i));
}

/// Restoring a kept state into a freshly built tree of the same Project's
/// files (nothing selected yet) gives back the kept expanded directories,
/// filter and selection, when every kept path
/// is in the tree, the kept selection is in the tree, and every directory
/// holding a match of the kept filter was expanded (as setting the filter
/// leaves it).
pub proof fn law_restored_state_matches_kept(m: TreeModel, fresh: TreeModel, paths: Seq<Seq<char>>)
    requires
        fresh.entries == m.entries,
        fresh.selected is None,
        paths.to_set() == m.expanded,
        forall|p: Seq<char>| #[trigger] m.expanded.contains(p) ==> find_from(m.entries, 0, p) is Some,
        m.filter.len() > 0 ==> match_ancestors(m.entries, 0, m.filter).subset_of(m.expanded),
        m.selected matches Some(p) ==> find_from(m.entries, 0, p) is Some,
    ensures
        applied(fresh, paths, m.filter, m.selected).entries == m.entries,
        applied(fresh, paths, m.filter, m.selected).expanded == m.expanded,
        applied(fresh, paths, m.filter, m.selected).filter == m.filter,
        applied(fresh, paths, m.filter, m.selected).selected == m.selected,
{
    let kept = Set::new(
        |p: Seq<char>| paths.contains(p) && find_from(fresh.entries, 0, p) is Some,
    );
    assert(kept =~= m.expanded) by {
        assert forall|p: Seq<char>| kept.contains(p) <==> m.expanded.contains(p) by {
            lemma_to_set(paths, p);
        }
    }
    if m.filter.len() > 0 {
        assert(m.expanded.union(match_ancestors(m.entries, 0, m.filter)) =~= m.expanded);
    }
}

impl ProjectTree {
    /// Restores a kept state.
    pub fn apply_state(&mut self, state: &ProjectTreeState)
        requires
            old(self).wf(),
        ensures
            final(self).wf(),
            final(self)@ == applied(
                old(self)@,
                string_views(state.expanded_paths@),
                state.filter@,
                opt_view(state.selected_path),
            ),
    {
        let ghost sp = string_views(state.expanded_paths@);
        let mut kept: Vec<String> = Vec::new();
        let mut i: usize = 0;
        while i < state.expanded_paths.len()
            invariant
                i <= state.expanded_paths.len(),
                sp == string_views(state.expanded_paths@),
                strictly_sorted(false, string_views(kept@)),
                forall|p: Seq<char>|
                    string_views(kept@).contains(p) <==> (sp.take(i as int).contains(p) && find_from(
                        self@.entries,
                        0,
                        p,
                    ) is Some),
            decreases state.expanded_paths.len() - i,
        {
            let p = &state.expanded_paths[i];
            let ghost before = string_views(kept@);
            if self.contains_path(p.as_str()) {
                insert_sorted(false, &mut kept, p.clone());
            }
            proof {
                assert(sp.take(i + 1) =~= sp.take(i as int).push(p@));
                assert forall|q: Seq<char>|
                    string_views(kept@).contains(q) <==> (sp.take(i + 1).contains(q) && find_from(
                        self@.entries,
                        0,
                        q,
                    ) is Some) by {
                    if sp.take(i + 1).contains(q) && q != p@ {
                        let k = choose|k: int| 0 <= k < i + 1 && #[trigger] sp.take(i + 1)[k] == q;
                        assert(sp.take(i as int)[k] == q);
                    }
                    if sp.take(i as int).contains(q) {
                        let k = choose|k: int| 0 <= k < i && #[trigger] sp.take(i as int)[k] == q;
                        assert(sp.take(i + 1)[k] == q);
                    }
                    if q == p@ {
                        assert(sp.take(i + 1)[i as int] == q);
                    }
                }
            }
            i = i + 1;
        }
        assert(sp.take(i as int) =~= sp);
        let ghost m0 = self@;
        self.expanded = kept;
        assert(self@ =~= with_expanded(
            m0,
            Set::new(|p: Seq<char>| sp.contains(p) && find_from(m0.entries, 0, p) is Some),
        ));
        match &state.selected_path {
            Some(p) => {
                if self.contains_path(p.as_str()) {
                    self.selected = Some(p.clone());
                    self.focused = Some(p.clone());
                }
            },
            None => {},
        }
        let ghost m1 = self@;
        self.set_filter(state.filter.as_str());
        proof {
            let kept_set = Set::new(
                |p: Seq<char>| sp.contains(p) && find_from(m0.entries, 0, p) is Some,
            );
            let wk = with_expanded(m0, kept_set);
            let chosen = match opt_view(state.selected_path) {
                Some(p) => if find_from(m0.entries, 0, p) is Some {
                    focus_on(wk, p).0
                } else {
                    wk
                },
                None => wk,
            };
            assert(m1 =~= chosen);
        }
    }

    /// Handles a navigation key; returns whether the tree changed.
    pub fn handle_key(&mut self, key: TreeKey) -> (r: bool)
        requires
            old(self).wf(),
        ensures
            final(self).wf(),
            (final(self)@, r) == key_outcome(old(self)@, key),
    {
        let rows = self.visible_rows();
        let ghost rv = row_views(rows@);
        if rows.len() == 0 {
            return false;
        }
        let n = rows.len();
        let current: Option<usize> = match &self.focused {
            Some(f) => {
                let k = row_position(&rows, f.as_str());
                if k < n {
                    Some(k)
                } else {
                    None
                }
            },
            None => None,
        };
        assert(match current {
            Some(k) => focus_index(self@) == Some(k as int),
            None => focus_index(self@) is None,
        });
        match key {
            TreeKey::ArrowDown => {
                let idx = match current {
                    Some(i) => if i + 1 < n {
                        i + 1
                    } else {
                        n - 1
                    },
                    None => 0,
                };
                assert(rows@[idx as int]@ == rv[idx as int]);
                self.focus_row(rows[idx].path.as_str())
            },
            TreeKey::ArrowUp => {
                let idx = match current {
                    Some(i) => if i > 0 {
                        i - 1
                    } else {
                        0
                    },
                    None => n - 1,
                };
                assert(rows@[idx as int]@ == rv[idx as int]);
                self.focus_row(rows[idx].path.as_str())
            },
            TreeKey::ArrowRight => {
                match current {
                    None => {
                        assert(rows@[0]@ == rv[0]);
                        self.focus_row(rows[0].path.as_str())
                    },
                    Some(idx) => {
                        let row = &rows[idx];
                        assert(row@ == rv[idx as int]);
                        if row.kind == TreeEntryKind::Directory && !row.expanded {
                            self.add_expanded(row.path.clone());
                            true
                        } else if row.kind == TreeEntryKind::Directory && row.expanded && idx + 1
                            < n && rows[idx + 1].depth > row.depth {
                            assert(rows@[idx + 1]@ == rv[idx + 1]);
                            self.focus_row(rows[idx + 1].path.as_str())
                        } else {
                            false
                        }
                    },
                }
            },
            TreeKey::ArrowLeft => {
                match current {
                    None => false,
                    Some(idx) => {
                        let row = &rows[idx];
                        assert(row@ == rv[idx as int]);
                        if row.kind == TreeEntryKind::Directory && self.is_expanded(
                            row.path.as_str(),
                        ) {
                            self.collapse(row.path.as_str())
                        } else if row.depth > 0 {
                            match parent_path(row.path.as_str()) {
                                Some(parent) => self.focus_row(parent.as_str()),
                                None => false,
                            }
                        } else {
                            false
                        }
                    },
                }
            },
            TreeKey::Enter => {
                match current {
                    None => {
                        assert(rows@[0]@ == rv[0]);
                        self.focus_row(rows[0].path.as_str())
                    },
                    Some(idx) => {
                        let row = &rows[idx];
                        assert(row@ == rv[idx as int]);
                        if row.kind == TreeEntryKind::Directory {
                            self.toggle_expanded(row.path.as_str())
                        } else {
                            self.focus_row(row.path.as_str())
                        }
                    },
                }
            },
        }
    }
}

} // verus!
