use vstd::prelude::*;


verus! {

/// One history entry of a file, without its content.
pub struct HistoryEntry {
    pub id: String,
    pub file_path: String,
    pub content_hash: String,
    pub created_at: String,
    pub summary: Option<String>,
    pub is_manual_snapshot: bool,
}

/// The result of comparing two versions of a file.
pub struct DiffResult {
    pub old_content: String,
    pub new_content: String,
    pub changes: Vec<DiffChange>,
    pub stats: DiffStats,
}

/// One line-level change in a diff.
pub struct DiffChange {
    pub tag: String,
    pub old_start: Option<usize>,
    pub old_end: Option<usize>,
    pub new_start: Option<usize>,
    pub new_end: Option<usize>,
    pub content: String,
}

/// How many lines a diff kept, removed and added.
pub struct DiffStats {
    pub additions: usize,
    pub deletions: usize,
    pub unchanged: usize,
}

/// The three kinds of line-level change.
#[derive(PartialEq, Eq, Structural, Clone, Copy, Debug)]
pub enum DiffTag {
    Equal,
    Delete,
    Insert,
}

/// One raw change as the line differ reports it.
pub struct DiffChangeRaw {
    pub tag: DiffTag,
    pub old_index: Option<usize>,
    pub new_index: Option<usize>,
    pub value: String,
}

/// Spec-level model of one raw change.
pub struct DiffChangeModel {
    pub tag: DiffTag,
    pub old_index: Option<int>,
    pub new_index: Option<int>,
    pub value: Seq<char>,
}

impl View for DiffChangeRaw {
    type V = DiffChangeModel;

    open spec fn view(&self) -> DiffChangeModel {
        DiffChangeModel {
            tag: self.tag,
            old_index: match self.old_index {
                Some(i) => Some(i as int),
                None => None,
            },
            new_index: match self.new_index {
                Some(i) => Some(i as int),
                None => None,
            },
            value: self.value@,
        }
    }
}

/// The models of a raw change list, in order.
pub open spec fn raw_models(s: Seq<DiffChangeRaw>) -> Seq<DiffChangeModel> {
    s.map(|i: int, c: DiffChangeRaw| c@)
}

/// Names the line diff of two texts: a function of the two texts alone.
pub uninterp spec fn line_diff_of(old: Seq<char>, new: Seq<char>) -> Seq<DiffChangeModel>;

/// The shape every raw change has: which side carries a line index follows
/// the tag, and a line index stays below that side's character count (a
/// line holds at least one character) and below the machine's address
/// bound.
pub open spec fn raw_wf(c: DiffChangeModel, old_len: int, new_len: int) -> bool {
    &&& (c.tag == DiffTag::Equal ==> c.old_index is Some && c.new_index is Some)
    &&& (c.tag == DiffTag::Delete ==> c.old_index is Some && c.new_index is None)
    &&& (c.tag == DiffTag::Insert ==> c.old_index is None && c.new_index is Some)
    &&& (match c.old_index {
        Some(i) => 0 <= i < old_len && i + 1 < usize::MAX,
        None => true,
    })
    &&& (match c.new_index {
        Some(i) => 0 <= i < new_len && i + 1 < usize::MAX,
        None => true,
    })
}

/// How many changes in the list carry the given tag.
pub open spec fn count_tag(cs: Seq<DiffChangeModel>, t: DiffTag) -> int
    decreases cs.len(),
{
    if cs.len() == 0 {
        0
    } else {
        count_tag(cs.drop_last(), t) + if cs.last().tag == t {
            1int
        } else {
            0int
        }
    }
}

/// Adding one change bumps exactly its tag's count.
pub proof fn lemma_count_tag_snoc(cs: Seq<DiffChangeModel>, t: DiffTag, i: int)
    requires
        0 <= i < cs.len(),
    ensures
        count_tag(cs.take(i + 1), t) == count_tag(cs.take(i), t) + if cs[i].tag == t {
            1int
        } else {
            0int
        },
{
    assert(cs.take(i + 1).drop_last() =~= cs.take(i));
    assert(cs.take(i + 1).last() == cs[i]);
}

/// Relies on similar's TextDiff::from_lines and its change iterator: the
/// line diff of two texts depends on the texts alone. Per that crate's
/// source, an equal line carries both indices, a deleted line only its old
/// index, an inserted line only its new index; each side's lines are
/// consumed once, so index and count stay below the side's character
/// count, and Rust's allocation bound keeps every index below the address
/// bound.
#[verifier::external_body]
pub(crate) fn diff_lines(old: &str, new: &str) -> (r: Vec<DiffChangeRaw>)
    ensures
        raw_models(r@) == line_diff_of(old@, new@),
        forall|i: int|
            0 <= i < r@.len() ==> raw_wf(
                #[trigger] raw_models(r@)[i],
                old@.len() as int,
                new@.len() as int,
            ),
        count_tag(raw_models(r@), DiffTag::Equal) + count_tag(raw_models(r@), DiffTag::Delete)
            <= old@.len(),
        count_tag(raw_models(r@), DiffTag::Equal) + count_tag(raw_models(r@), DiffTag::Insert)
            <= new@.len(),
{
    let diff = similar::TextDiff::from_lines(old, new);
    diff.iter_all_changes().map(|c| DiffChangeRaw {
        tag: match c.tag() {
            similar::ChangeTag::Equal => DiffTag::Equal,
            similar::ChangeTag::Delete => DiffTag::Delete,
            similar::ChangeTag::Insert => DiffTag::Insert,
        },
        old_index: c.old_index(),
        new_index: c.new_index(),
        value: c.value().to_string(),
    }).collect()
}

/// Names the hexadecimal SHA-256 digest of a text: a function of the text
/// alone.
pub uninterp spec fn sha256_hex_of(s: Seq<char>) -> Seq<char>;

/// Relies on sha2's Sha256: the digest depends on the content alone, and
/// its rendering is 64 lowercase hexadecimal digits.
#[verifier::external_body]
pub fn hash_content(content: &str) -> (r: String)
    ensures
        r@ == sha256_hex_of(content@),
        r@.len() == 64,
        forall|i: int|
            0 <= i < r@.len() ==> ('0' <= #[trigger] r@[i] <= '9' || 'a' <= r@[i] <= 'f'),
{
    let mut hasher = <sha2::Sha256 as sha2::Digest>::new();
    sha2::Digest::update(&mut hasher, content.as_bytes());
    format!("{:x}", sha2::Digest::finalize(hasher))
}

/// The text of each change tag.
pub open spec fn tag_text(t: DiffTag) -> Seq<char> {
    match t {
        DiffTag::Equal => "equal"@,
        DiffTag::Delete => "delete"@,
        DiffTag::Insert => "insert"@,
    }
}

/// The shaped change carries the raw change's tag as text, its indices and
/// one-past ends, and its line verbatim.
pub open spec fn change_renders(d: DiffChange, c: DiffChangeModel) -> bool {
    &&& d.tag@ == tag_text(c.tag)
    &&& (match (d.old_start, c.old_index) {
        (Some(a), Some(b)) => a as int == b,
        (None, None) => true,
        _ => false,
    })
    &&& (match (d.old_end, c.old_index) {
        (Some(a), Some(b)) => a as int == b + 1,
        (None, None) => true,
        _ => false,
    })
    &&& (match (d.new_start, c.new_index) {
        (Some(a), Some(b)) => a as int == b,
        (None, None) => true,
        _ => false,
    })
    &&& (match (d.new_end, c.new_index) {
        (Some(a), Some(b)) => a as int == b + 1,
        (None, None) => true,
        _ => false,
    })
    &&& d.content@ == c.value
}

fn tag_string(t: DiffTag) -> (r: String)
    ensures
        r@ == tag_text(t),
{
    match t {
        DiffTag::Equal => "equal".to_owned(),
        DiffTag::Delete => "delete".to_owned(),
        DiffTag::Insert => "insert".to_owned(),
    }
}

/// Compares two versions line by line: one shaped change per diffed line,
/// in diff order, and exact counts of added, removed and kept lines.
pub fn generate_diff(old_content: &str, new_content: &str) -> (r: DiffResult)
    ensures
        r.old_content@ == old_content@,
        r.new_content@ == new_content@,
        r.changes@.len() == line_diff_of(old_content@, new_content@).len(),
        forall|i: int|
            0 <= i < r.changes@.len() ==> change_renders(
                #[trigger] r.changes@[i],
                line_diff_of(old_content@, new_content@)[i],
            ),
        r.stats.additions == count_tag(line_diff_of(old_content@, new_content@), DiffTag::Insert),
        r.stats.deletions == count_tag(line_diff_of(old_content@, new_content@), DiffTag::Delete),
        r.stats.unchanged == count_tag(line_diff_of(old_content@, new_content@), DiffTag::Equal),
{
    let raw = diff_lines(old_content, new_content);
    let ghost dm = raw_models(raw@);
    let mut changes: Vec<DiffChange> = Vec::new();
    let mut additions: usize = 0;
    let mut deletions: usize = 0;
    let mut unchanged: usize = 0;
    let mut i: usize = 0;
    proof {
        assert(dm.take(0) =~= Seq::<DiffChangeModel>::empty());
    }
    while i < raw.len()
        invariant
            dm == raw_models(raw@),
            dm == line_diff_of(old_content@, new_content@),
            forall|k: int|
                0 <= k < raw@.len() ==> raw_wf(
                    #[trigger] raw_models(raw@)[k],
                    old_content@.len() as int,
                    new_content@.len() as int,
                ),
            count_tag(dm, DiffTag::Equal) + count_tag(dm, DiffTag::Delete) <= old_content@.len(),
            count_tag(dm, DiffTag::Equal) + count_tag(dm, DiffTag::Insert) <= new_content@.len(),
            i <= raw@.len(),
            changes@.len() == i,
            forall|k: int|
                0 <= k < i ==> change_renders(#[trigger] changes@[k], dm[k]),
            additions == count_tag(dm.take(i as int), DiffTag::Insert),
            deletions == count_tag(dm.take(i as int), DiffTag::Delete),
            unchanged == count_tag(dm.take(i as int), DiffTag::Equal),
        decreases raw@.len() - i,
    {
        let c = &raw[i];
        proof {
            lemma_count_tag_snoc(dm, DiffTag::Insert, i as int);
            lemma_count_tag_snoc(dm, DiffTag::Delete, i as int);
            lemma_count_tag_snoc(dm, DiffTag::Equal, i as int);
            lemma_count_le_len(dm.take(i as int), DiffTag::Insert);
            lemma_count_le_len(dm.take(i as int), DiffTag::Delete);
            lemma_count_le_len(dm.take(i as int), DiffTag::Equal);
            assert(raw_wf(dm[i as int], old_content@.len() as int, new_content@.len() as int));
        }
        match c.tag {
            DiffTag::Equal => {
                unchanged = unchanged + 1;
            },
            DiffTag::Delete => {
                deletions = deletions + 1;
            },
            DiffTag::Insert => {
                additions = additions + 1;
            },
        }
        let old_end = match c.old_index {
            Some(x) => Some(x + 1),
            None => None,
        };
        let new_end = match c.new_index {
            Some(x) => Some(x + 1),
            None => None,
        };
        changes.push(
            DiffChange {
                tag: tag_string(c.tag),
                old_start: c.old_index,
                old_end,
                new_start: c.new_index,
                new_end,
                content: c.value.clone(),
            },
        );
        i = i + 1;
    }
    proof {
        assert(dm.take(raw@.len() as int) =~= dm);
    }
    DiffResult {
        old_content: old_content.to_owned(),
        new_content: new_content.to_owned(),
        changes,
        stats: DiffStats { additions, deletions, unchanged },
    }
}

/// A tag's count over a prefix never exceeds its count over the whole
/// list.
pub proof fn lemma_count_prefix_bound(cs: Seq<DiffChangeModel>, t: DiffTag, i: int)
    requires
        0 <= i <= cs.len(),
    ensures
        count_tag(cs.take(i), t) <= count_tag(cs, t),
        count_tag(cs.take(i), t) >= 0,
    decreases cs.len() - i,
{
    lemma_count_nonneg(cs.take(i), t);
    if i == cs.len() {
        assert(cs.take(i) =~= cs);
    } else {
        lemma_count_prefix_bound(cs, t, i + 1);
        lemma_count_tag_snoc(cs, t, i);
    }
}

proof fn lemma_count_nonneg(cs: Seq<DiffChangeModel>, t: DiffTag)
    ensures
        count_tag(cs, t) >= 0,
    decreases cs.len(),
{
    if cs.len() > 0 {
        lemma_count_nonneg(cs.drop_last(), t);
    }
}

/// A tag's count never exceeds the list's length.
proof fn lemma_count_le_len(cs: Seq<DiffChangeModel>, t: DiffTag)
    ensures
        count_tag(cs, t) <= cs.len(),
    decreases cs.len(),
{
    if cs.len() > 0 {
        lemma_count_le_len(cs.drop_last(), t);
    }
}

/// Compares a stored snapshot with the current content.
pub fn diff_with_current(snapshot_content: &str, current_content: &str) -> (r: DiffResult)
    ensures
        r.old_content@ == snapshot_content@,
        r.new_content@ == current_content@,
        r.changes@.len() == line_diff_of(snapshot_content@, current_content@).len(),
        forall|i: int|
            0 <= i < r.changes@.len() ==> change_renders(
                #[trigger] r.changes@[i],
                line_diff_of(snapshot_content@, current_content@)[i],
            ),
        r.stats.additions == count_tag(
            line_diff_of(snapshot_content@, current_content@),
            DiffTag::Insert,
        ),
        r.stats.deletions == count_tag(
            line_diff_of(snapshot_content@, current_content@),
            DiffTag::Delete,
        ),
        r.stats.unchanged == count_tag(
            line_diff_of(snapshot_content@, current_content@),
            DiffTag::Equal,
        ),
{
    generate_diff(snapshot_content, current_content)
}

} // verus!
