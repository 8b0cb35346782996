//! Archive layout: which entries a packed tree holds, and how a listing of
//! entries read back from an archive is turned into restore steps.

use vstd::prelude::*;
use crate::text::push_char;

verus! {

broadcast use vstd::string::group_string_axioms;

/// Entry name reserved for an archive that holds one single file. A walked
/// directory never yields it, so it tells the two modes apart on unpack.
pub const SINGLE_FILE_ENTRY: &'static str = "__SYNC_SINGLE_FILE__";

/// The reserved entry name, as characters.
pub open spec fn single_file_name() -> Seq<char> {
    SINGLE_FILE_ENTRY@
}

/// What one node of a directory tree holds.
#[derive(Clone, Debug)]
pub enum NodeContent {
    File(Vec<u8>),
    Directory,
}

/// One node of a directory tree, named by its path relative to the tree's
/// root, with `/` between components. The root itself has the empty path.
#[derive(Clone, Debug)]
pub struct TreeNode {
    pub path: String,
    pub content: NodeContent,
}

/// What is packed: one file's bytes, or the nodes of a walked directory tree.
#[derive(Clone, Debug)]
pub enum SourceTree {
    File(Vec<u8>),
    Directory(Vec<TreeNode>),
}

/// One entry of an archive: its name, and the bytes of a file (`None` for a
/// directory entry, whose name ends with `/`).
#[derive(Clone, Debug)]
pub struct ArchiveEntry {
    pub name: String,
    pub data: Option<Vec<u8>>,
}

/// One entry as read back from an archive: its stored name, the path that the
/// archive reader accepts as enclosed in the target (if any), its unix mode
/// bits (if stored) and its bytes.
#[derive(Clone, Debug)]
pub struct ReadEntry {
    pub name: String,
    pub enclosed: Option<String>,
    pub mode: Option<u32>,
    pub data: Vec<u8>,
}

/// A step of a directory restore: create a directory, or write a file, at a
/// path relative to the target, then apply the mode bits if there are any.
#[derive(Clone, Debug)]
pub struct RestoreStep {
    pub path: String,
    pub content: NodeContent,
    pub mode: Option<u32>,
}

/// How an archive is restored.
#[derive(Clone, Debug)]
pub enum RestorePlan {
    /// Write these bytes as the one file at the target path.
    SingleFile(Vec<u8>),
    /// Create the target directory, then carry out the steps in order.
    Tree(Vec<RestoreStep>),
}

/// The model of a node's content: `Some(bytes)` for a file, `None` for a
/// directory.
pub open spec fn content_view(c: NodeContent) -> Option<Seq<u8>> {
    match c {
        NodeContent::File(b) => Some(b@),
        NodeContent::Directory => None,
    }
}

impl ArchiveEntry {
    pub open spec fn view(&self) -> (Seq<char>, Option<Seq<u8>>) {
        (self.name@, match self.data {
            Some(b) => Some(b@),
            None => None,
        })
    }
}

/// The archive entry that a tree node becomes, if any: a file under its path;
/// a directory under its path followed by `/`; the root, with its empty path,
/// becomes none.
pub open spec fn node_entry(n: TreeNode) -> Option<(Seq<char>, Option<Seq<u8>>)> {
    match n.content {
        NodeContent::File(b) => Some((n.path@, Some(b@))),
        NodeContent::Directory => if n.path@.len() == 0 {
            None
        } else {
            Some((n.path@.push('/'), None))
        },
    }
}

/// The entries that the nodes `ns` become, in order.
pub open spec fn nodes_entries(ns: Seq<TreeNode>) -> Seq<(Seq<char>, Option<Seq<u8>>)>
    decreases ns.len(),
{
    if ns.len() == 0 {
        Seq::empty()
    } else {
        let rest = nodes_entries(ns.drop_last());
        match node_entry(ns.last()) {
            Some(e) => rest.push(e),
            None => rest,
        }
    }
}

/// The entries that a source becomes: a single file goes under the reserved
/// name; a directory tree gives one entry per node but the root.
pub open spec fn packed_entries(t: SourceTree) -> Seq<(Seq<char>, Option<Seq<u8>>)> {
    match t {
        SourceTree::File(b) => seq![(single_file_name(), Some(b@))],
        SourceTree::Directory(ns) => nodes_entries(ns@),
    }
}

/// Plans the entries of the archive of `source`, in the order they are written.
pub fn plan_pack(source: &SourceTree) -> (r: Vec<ArchiveEntry>)
    ensures
        r@.map_values(|e: ArchiveEntry| e@) == packed_entries(*source),
{
    let mut out: Vec<ArchiveEntry> = Vec::new();
    match source {
        SourceTree::File(b) => {
            out.push(ArchiveEntry { name: String::from_str(SINGLE_FILE_ENTRY), data: Some(b.clone()) });
            assert(out@.map_values(|e: ArchiveEntry| e@) =~= packed_entries(*source));
        },
        SourceTree::Directory(nodes) => {
            let mut i: usize = 0;
            while i < nodes.len()
                invariant
                    i <= nodes@.len(),
                    out@.map_values(|e: ArchiveEntry| e@) == nodes_entries(nodes@.take(i as int)),
                decreases nodes@.len() - i,
            {
                let node = &nodes[i];
                proof {
                    assert(nodes@.take(i + 1).drop_last() =~= nodes@.take(i as int));
                }
                match &node.content {
                    NodeContent::File(b) => {
                        out.push(ArchiveEntry { name: node.path.clone(), data: Some(b.clone()) });
                    },
                    NodeContent::Directory => {
                        if node.path.as_str().unicode_len() > 0 {
                            let mut name = node.path.clone();
                            push_char(&mut name, '/');
                            out.push(ArchiveEntry { name, data: None });
                        }
                    },
                }
                assert(out@.map_values(|e: ArchiveEntry| e@) =~= nodes_entries(nodes@.take(i + 1)));
                i = i + 1;
            }
            assert(nodes@.take(nodes@.len() as int) =~= nodes@);
        },
    }
    out
}


/// Whether `s` ends with `/`.
pub open spec fn ends_with_slash(s: Seq<char>) -> bool {
    s.len() > 0 && s.last() == '/'
}

/// `s` without one trailing `/`, if it has one.
pub open spec fn strip_slash(s: Seq<char>) -> Seq<char> {
    if ends_with_slash(s) {
        s.drop_last()
    } else {
        s
    }
}

/// The model of a restore step: its path, its content, its mode bits.
pub open spec fn step_view(s: RestoreStep) -> (Seq<char>, Option<Seq<u8>>, Option<u32>) {
    (s.path@, content_view(s.content), s.mode)
}

/// The step that an entry read back becomes: none when the reader does not
/// accept its path as enclosed; a directory (the path without its trailing
/// `/`) when the stored name ends with `/`; else a file with the entry's bytes.
pub open spec fn entry_step(e: ReadEntry) -> Option<(Seq<char>, Option<Seq<u8>>, Option<u32>)> {
    match e.enclosed {
        None => None,
        Some(p) => if ends_with_slash(e.name@) {
            Some((strip_slash(p@), None, e.mode))
        } else {
            Some((p@, Some(e.data@), e.mode))
        },
    }
}

/// The steps that the entries `es` become, in order.
pub open spec fn entries_steps(es: Seq<ReadEntry>) -> Seq<(Seq<char>, Option<Seq<u8>>, Option<u32>)>
    decreases es.len(),
{
    if es.len() == 0 {
        Seq::empty()
    } else {
        let rest = entries_steps(es.drop_last());
        match entry_step(es.last()) {
            Some(st) => rest.push(st),
            None => rest,
        }
    }
}

/// The first index at or after `i` whose entry carries the reserved name.
pub open spec fn marker_from(es: Seq<ReadEntry>, i: int) -> Option<int>
    decreases es.len() - i,
{
    if i < 0 || i >= es.len() {
        None
    } else if es[i].name@ == single_file_name() {
        Some(i)
    } else {
        marker_from(es, i + 1)
    }
}

/// The model of a restore plan.
pub enum PlanView {
    Single(Seq<u8>),
    Steps(Seq<(Seq<char>, Option<Seq<u8>>, Option<u32>)>),
}

impl RestorePlan {
    pub open spec fn view(&self) -> PlanView {
        match self {
            RestorePlan::SingleFile(b) => PlanView::Single(b@),
            RestorePlan::Tree(st) => PlanView::Steps(st@.map_values(|s: RestoreStep| step_view(s))),
        }
    }
}

/// How the entries `es` read back from an archive are restored: an archive
/// that holds the reserved name is a single file, the bytes of the first entry
/// so named; any other is a directory tree.
pub open spec fn restore_plan_of(es: Seq<ReadEntry>) -> PlanView {
    match marker_from(es, 0) {
        Some(i) => PlanView::Single(es[i].data@),
        None => PlanView::Steps(entries_steps(es)),
    }
}

/// Whether `s` is the reserved entry name.
fn is_single_file_name(s: &String) -> (r: bool)
    ensures
        r == (s@ == single_file_name()),
{
    let m = String::from_str(SINGLE_FILE_ENTRY);
    *s == m
}

/// Whether the string ends with `/`.
fn has_trailing_slash(s: &str) -> (r: bool)
    ensures
        r == ends_with_slash(s@),
{
    let n = s.unicode_len();
    n > 0 && s.get_char(n - 1) == '/'
}

/// The string without one trailing `/`, if it has one.
fn without_trailing_slash(s: &str) -> (r: String)
    ensures
        r@ == strip_slash(s@),
{
    let n = s.unicode_len();
    if n > 0 && s.get_char(n - 1) == '/' {
        s.substring_char(0, n - 1).to_string()
    } else {
        s.to_string()
    }
}

/// Plans the restore of the entries read back from an archive.
pub fn plan_unpack(entries: &Vec<ReadEntry>) -> (r: RestorePlan)
    ensures
        r@ == restore_plan_of(entries@),
{
    let mut k: usize = 0;
    while k < entries.len()
        invariant
            k <= entries@.len(),
            marker_from(entries@, 0) == marker_from(entries@, k as int),
        decreases entries@.len() - k,
    {
        if is_single_file_name(&entries[k].name) {
            return RestorePlan::SingleFile(entries[k].data.clone());
        }
        k = k + 1;
    }
    let mut steps: Vec<RestoreStep> = Vec::new();
    let mut i: usize = 0;
    while i < entries.len()
        invariant
            i <= entries@.len(),
            steps@.map_values(|s: RestoreStep| step_view(s)) == entries_steps(entries@.take(i as int)),
        decreases entries@.len() - i,
    {
        let e = &entries[i];
        proof {
            assert(entries@.take(i + 1).drop_last() =~= entries@.take(i as int));
        }
        match &e.enclosed {
            None => {},
            Some(p) => {
                if has_trailing_slash(e.name.as_str()) {
                    let path = without_trailing_slash(p.as_str());
                    steps.push(RestoreStep { path, content: NodeContent::Directory, mode: e.mode });
                } else {
                    steps.push(RestoreStep { path: p.clone(), content: NodeContent::File(e.data.clone()), mode: e.mode });
                }
            },
        }
        assert(steps@.map_values(|s: RestoreStep| step_view(s)) =~= entries_steps(entries@.take(i + 1)));
        i = i + 1;
    }
    assert(entries@.take(entries@.len() as int) =~= entries@);
    RestorePlan::Tree(steps)
}

/// The model of a tree's nodes but the root: path and content of each, in order.
pub open spec fn tree_model(ns: Seq<TreeNode>) -> Seq<(Seq<char>, Option<Seq<u8>>)>
    decreases ns.len(),
{
    if ns.len() == 0 {
        Seq::empty()
    } else {
        let rest = tree_model(ns.drop_last());
        let n = ns.last();
        if n.content is Directory && n.path@.len() == 0 {
            rest
        } else {
            rest.push((n.path@, content_view(n.content)))
        }
    }
}

/// The paths and contents that a restore plan of steps creates, in order.
pub open spec fn restored_nodes(steps: Seq<(Seq<char>, Option<Seq<u8>>, Option<u32>)>) -> Seq<(Seq<char>, Option<Seq<u8>>)> {
    steps.map_values(|st: (Seq<char>, Option<Seq<u8>>, Option<u32>)| (st.0, st.1))
}

/// Whether `es` is what reading back an archive of the entries `planned`
/// gives: the same names in the same order, each accepted as enclosed, and
/// the same bytes for each file.
pub open spec fn mirrors(es: Seq<ReadEntry>, planned: Seq<(Seq<char>, Option<Seq<u8>>)>) -> bool {
    &&& es.len() == planned.len()
    &&& forall|i: int| 0 <= i < es.len() ==> {
        &&& (#[trigger] es[i]).name@ == planned[i].0
        &&& es[i].enclosed is Some
        &&& es[i].enclosed->0@ == planned[i].0
        &&& (planned[i].1 is Some ==> es[i].data@ == planned[i].1->0)
    }
}

/// Whether a source can be told apart on restore: no node of a directory
/// tree has the reserved name as its path, nor a path that ends with `/`.
pub open spec fn source_paths_ok(t: SourceTree) -> bool {
    match t {
        SourceTree::File(_) => true,
        SourceTree::Directory(ns) => forall|i: int| 0 <= i < ns@.len() ==> {
            &&& (#[trigger] ns@[i]).path@ != single_file_name()
            &&& !ends_with_slash(ns@[i].path@)
        },
    }
}

/// The node an entry stands for: a directory entry without its trailing `/`.
pub open spec fn entry_node(e: (Seq<char>, Option<Seq<u8>>)) -> (Seq<char>, Option<Seq<u8>>) {
    if e.1 is None {
        (strip_slash(e.0), None)
    } else {
        e
    }
}

/// Whether each entry is a directory exactly when its name ends with `/`,
/// and none has the reserved name.
pub open spec fn entries_well_named(planned: Seq<(Seq<char>, Option<Seq<u8>>)>) -> bool {
    forall|i: int| 0 <= i < planned.len() ==> {
        &&& ((#[trigger] planned[i]).1 is None <==> ends_with_slash(planned[i].0))
        &&& planned[i].0 != single_file_name()
    }
}

proof fn lemma_marker_last_char()
    ensures
        single_file_name().len() > 0,
        !ends_with_slash(single_file_name()),
{
    reveal_strlit("__SYNC_SINGLE_FILE__");
}

pub proof fn lemma_nodes_entries_well_named(ns: Seq<TreeNode>)
    requires
        forall|i: int| 0 <= i < ns.len() ==> {
            &&& (#[trigger] ns[i]).path@ != single_file_name()
            &&& !ends_with_slash(ns[i].path@)
        },
    ensures
        entries_well_named(nodes_entries(ns)),
        nodes_entries(ns).map_values(|e: (Seq<char>, Option<Seq<u8>>)| entry_node(e)) == tree_model(ns),
    decreases ns.len(),
{
    lemma_marker_last_char();
    if ns.len() > 0 {
        let init = ns.drop_last();
        assert forall|i: int| 0 <= i < init.len() implies {
            &&& (#[trigger] init[i]).path@ != single_file_name()
            &&& !ends_with_slash(init[i].path@)
        } by {
            assert(init[i] == ns[i]);
        }
        lemma_nodes_entries_well_named(init);
        let n = ns.last();
        assert(n == ns[ns.len() - 1]);
        let rest = nodes_entries(init);
        if let Some(e) = node_entry(n) {
            if n.content is Directory {
                assert(e.0.drop_last() =~= n.path@);
            }
            assert(rest.push(e).map_values(|e: (Seq<char>, Option<Seq<u8>>)| entry_node(e))
                =~= rest.map_values(|e: (Seq<char>, Option<Seq<u8>>)| entry_node(e)).push(entry_node(e)));
            assert forall|i: int| 0 <= i < rest.push(e).len() implies {
                &&& ((#[trigger] rest.push(e)[i]).1 is None <==> ends_with_slash(rest.push(e)[i].0))
                &&& rest.push(e)[i].0 != single_file_name()
            } by {
                if i < rest.len() {
                    assert(rest.push(e)[i] == rest[i]);
                }
            }
        }
    }
}

proof fn lemma_entries_steps_mirror(es: Seq<ReadEntry>, planned: Seq<(Seq<char>, Option<Seq<u8>>)>)
    requires
        mirrors(es, planned),
        entries_well_named(planned),
    ensures
        restored_nodes(entries_steps(es)) == planned.map_values(|e: (Seq<char>, Option<Seq<u8>>)| entry_node(e)),
        marker_from(es, 0) is None,
    decreases es.len(),
{
    if es.len() > 0 {
        let ei = es.drop_last();
        let pi = planned.drop_last();
        assert forall|i: int| 0 <= i < ei.len() implies {
            &&& (#[trigger] ei[i]).name@ == pi[i].0
            &&& ei[i].enclosed is Some
            &&& ei[i].enclosed->0@ == pi[i].0
            &&& (pi[i].1 is Some ==> ei[i].data@ == pi[i].1->0)
        } by {
            assert(ei[i] == es[i]);
            assert(pi[i] == planned[i]);
        }
        assert forall|i: int| 0 <= i < pi.len() implies {
            &&& ((#[trigger] pi[i]).1 is None <==> ends_with_slash(pi[i].0))
            &&& pi[i].0 != single_file_name()
        } by {
            assert(pi[i] == planned[i]);
        }
        lemma_entries_steps_mirror(ei, pi);
        let k = es.len() - 1;
        assert(es.last() == es[k]);
        assert(planned.last() == planned[k]);
        let st = entry_step(es.last()).unwrap();
        assert(restored_nodes(entries_steps(ei).push(st)) =~= restored_nodes(entries_steps(ei)).push((st.0, st.1)));
        assert(planned.map_values(|e: (Seq<char>, Option<Seq<u8>>)| entry_node(e))
            =~= pi.map_values(|e: (Seq<char>, Option<Seq<u8>>)| entry_node(e)).push(entry_node(planned[k])));
        // no entry carries the reserved name
        assert forall|j: int| 0 <= j <= es.len() implies #[trigger] marker_from(es, j) is None by {
            lemma_no_marker_from(es, j);
        }
    }
}

proof fn lemma_no_marker_from(es: Seq<ReadEntry>, j: int)
    requires
        forall|i: int| 0 <= i < es.len() ==> (#[trigger] es[i]).name@ != single_file_name(),
    ensures
        marker_from(es, j) is None,
    decreases es.len() - j,
{
    if 0 <= j < es.len() {
        lemma_no_marker_from(es, j + 1);
    }
}

/// Round trip of the archive layout: restoring from what reading back the
/// archive of a source gives (the packed entries' names, in order, each
/// accepted as enclosed, with their bytes) yields the source again. A single
/// file comes back as its bytes. A directory tree comes back as each node but
/// the root, in the walked order, with the same relative path and the same
/// content; an empty directory comes back as a directory with nothing in it.
/// This holds of every tree whose node paths are not the reserved name and do
/// not end with `/`.
pub proof fn lemma_pack_unpack_round_trip(t: SourceTree, es: Seq<ReadEntry>)
    requires
        mirrors(es, packed_entries(t)),
        source_paths_ok(t),
    ensures
        match t {
            SourceTree::File(b) => restore_plan_of(es) == PlanView::Single(b@),
            SourceTree::Directory(ns) => match restore_plan_of(es) {
                PlanView::Steps(st) => restored_nodes(st) == tree_model(ns@),
                PlanView::Single(_) => false,
            },
        },
{
    match t {
        SourceTree::File(b) => {
            assert(es[0].name@ == single_file_name());
            assert(marker_from(es, 0) == Some(0int));
        },
        SourceTree::Directory(ns) => {
            lemma_nodes_entries_well_named(ns@);
            lemma_entries_steps_mirror(es, nodes_entries(ns@));
        },
    }
}

} // verus!
