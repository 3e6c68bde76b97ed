use vstd::prelude::*;

use crate::history::{
    count_tag, lemma_count_tag_snoc, line_diff_of, raw_wf, DiffChangeModel, DiffTag,
};
use crate::strutil::without_trailing;

verus! {

/// A repository as the host reports it.
pub struct GitRepoInfo {
    pub path: String,
    pub branch: Option<String>,
    pub remote_url: Option<String>,
    pub is_dirty: bool,
    pub head_commit: Option<String>,
}

/// One file's working-tree status.
pub struct GitFileStatus {
    pub path: String,
    pub status: String,
    pub is_staged: bool,
}

/// One commit of the history.
pub struct GitCommitInfo {
    pub id: String,
    pub short_id: String,
    pub message: String,
    pub author_name: String,
    pub author_email: String,
    pub timestamp: i64,
    pub parent_ids: Vec<String>,
}

/// One branch of the repository.
pub struct BranchInfo {
    pub name: String,
    pub is_head: bool,
    pub is_remote: bool,
}

/// One configured remote.
pub struct RemoteInfo {
    pub name: String,
    pub url: String,
}

/// One rendered line of a side-by-side diff view.
pub struct DiffLine {
    pub line_type: String,
    pub old_line_no: Option<u32>,
    pub new_line_no: Option<u32>,
    pub content: String,
}

/// A whole file's diff, shaped for rendering.
pub struct StructuredDiff {
    pub file_path: String,
    pub old_content: String,
    pub new_content: String,
    pub lines: Vec<DiffLine>,
    pub stats: DiffStats,
}

/// How many lines the diff adds and removes.
pub struct DiffStats {
    pub additions: u32,
    pub deletions: u32,
}

/// The view-side type of each change tag.
pub open spec fn line_type_text(t: DiffTag) -> Seq<char> {
    match t {
        DiffTag::Equal => "context"@,
        DiffTag::Delete => "delete"@,
        DiffTag::Insert => "add"@,
    }
}

/// How many changes of a prefix consume an old line.
pub open spec fn old_consumed(cs: Seq<DiffChangeModel>) -> int {
    count_tag(cs, DiffTag::Equal) + count_tag(cs, DiffTag::Delete)
}

/// How many changes of a prefix consume a new line.
pub open spec fn new_consumed(cs: Seq<DiffChangeModel>) -> int {
    count_tag(cs, DiffTag::Equal) + count_tag(cs, DiffTag::Insert)
}

/// The rendered line for one change, given the one-based line counters
/// after the change: the tag's view type, the side counters the change
/// consumed, and the line with its trailing newlines stripped.
pub open spec fn line_renders(l: DiffLine, c: DiffChangeModel, oc: int, nc: int) -> bool {
    &&& l.line_type@ == line_type_text(c.tag)
    &&& (match c.tag {
        DiffTag::Equal => l.old_line_no == Some(oc as u32) && l.new_line_no == Some(nc as u32),
        DiffTag::Delete => l.old_line_no == Some(oc as u32) && l.new_line_no is None,
        DiffTag::Insert => l.old_line_no is None && l.new_line_no == Some(nc as u32),
    })
    &&& l.content@ == without_trailing(c.value, '\n')
}

fn line_type_string(t: DiffTag) -> (r: String)
    ensures
        r@ == line_type_text(t),
{
    match t {
        DiffTag::Equal => "context".to_owned(),
        DiffTag::Delete => "delete".to_owned(),
        DiffTag::Insert => "add".to_owned(),
    }
}

/// Shapes the diff between a file's two versions for rendering: one line
/// per change, numbered per side as each side's lines are consumed, with
/// exact added and removed counts. The path bound keeps the one-based
/// `u32` counters exact.
pub fn build_structured_diff(file_path: &str, old_content: &str, new_content: &str) -> (r:
    StructuredDiff)
    requires
        old_content@.len() < u32::MAX,
        new_content@.len() < u32::MAX,
    ensures
        r.file_path@ == file_path@,
        r.old_content@ == old_content@,
        r.new_content@ == new_content@,
        r.lines@.len() == line_diff_of(old_content@, new_content@).len(),
        forall|i: int|
            0 <= i < r.lines@.len() ==> line_renders(
                #[trigger] r.lines@[i],
                line_diff_of(old_content@, new_content@)[i],
                old_consumed(line_diff_of(old_content@, new_content@).take(i + 1)),
                new_consumed(line_diff_of(old_content@, new_content@).take(i + 1)),
            ),
        r.stats.additions == count_tag(line_diff_of(old_content@, new_content@), DiffTag::Insert),
        r.stats.deletions == count_tag(line_diff_of(old_content@, new_content@), DiffTag::Delete),
{
    let raw = crate::history::diff_lines(old_content, new_content);
    let ghost dm = crate::history::raw_models(raw@);
    let mut lines: Vec<DiffLine> = Vec::new();
    let mut additions: u32 = 0;
    let mut deletions: u32 = 0;
    let mut old_line: u32 = 0;
    let mut new_line: u32 = 0;
    let mut i: usize = 0;
    proof {
        assert(dm.take(0) =~= Seq::<DiffChangeModel>::empty());
    }
    while i < raw.len()
        invariant
            dm == crate::history::raw_models(raw@),
            dm == line_diff_of(old_content@, new_content@),
            old_content@.len() < u32::MAX,
            new_content@.len() < u32::MAX,
            forall|k: int|
                0 <= k < raw@.len() ==> raw_wf(
                    #[trigger] crate::history::raw_models(raw@)[k],
                    old_content@.len() as int,
                    new_content@.len() as int,
                ),
            old_consumed(dm) <= old_content@.len(),
            new_consumed(dm) <= new_content@.len(),
            i <= raw@.len(),
            lines@.len() == i,
            forall|k: int|
                0 <= k < i ==> line_renders(
                    #[trigger] lines@[k],
                    dm[k],
                    old_consumed(dm.take(k + 1)),
                    new_consumed(dm.take(k + 1)),
                ),
            additions == count_tag(dm.take(i as int), DiffTag::Insert),
            deletions == count_tag(dm.take(i as int), DiffTag::Delete),
            old_line == old_consumed(dm.take(i as int)),
            new_line == new_consumed(dm.take(i as int)),
        decreases raw@.len() - i,
    {
        let c = &raw[i];
        proof {
            lemma_count_tag_snoc(dm, DiffTag::Insert, i as int);
            lemma_count_tag_snoc(dm, DiffTag::Delete, i as int);
            lemma_count_tag_snoc(dm, DiffTag::Equal, i as int);
            crate::history::lemma_count_prefix_bound(dm, DiffTag::Equal, i + 1int);
            crate::history::lemma_count_prefix_bound(dm, DiffTag::Delete, i + 1int);
            crate::history::lemma_count_prefix_bound(dm, DiffTag::Insert, i + 1int);
            assert(raw_wf(dm[i as int], old_content@.len() as int, new_content@.len() as int));
        }
        let (line_type, old_no, new_no): (String, Option<u32>, Option<u32>) = match c.tag {
            DiffTag::Delete => {
                deletions = deletions + 1;
                old_line = old_line + 1;
                (line_type_string(c.tag), Some(old_line), None)
            },
            DiffTag::Insert => {
                additions = additions + 1;
                new_line = new_line + 1;
                (line_type_string(c.tag), None, Some(new_line))
            },
            DiffTag::Equal => {
                old_line = old_line + 1;
                new_line = new_line + 1;
                (line_type_string(c.tag), Some(old_line), Some(new_line))
            },
        };
        let content = crate::strutil::trim_trailing(c.value.as_str(), '\n').to_owned();
        lines.push(DiffLine { line_type, old_line_no: old_no, new_line_no: new_no, content });
        i = i + 1;
    }
    proof {
        assert(dm.take(raw@.len() as int) =~= dm);
    }
    StructuredDiff {
        file_path: file_path.to_owned(),
        old_content: old_content.to_owned(),
        new_content: new_content.to_owned(),
        lines,
        stats: DiffStats { additions, deletions },
    }
}

} // verus!
