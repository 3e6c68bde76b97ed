use vstd::prelude::*;

use crate::json::{jget, obj_lookup, Json};
use crate::strutil::{contains_seq, replace_char, str_eq};

verus! {

/// What one tool advertises to the model: its name, what it does, and a
/// JSON-Schema description of its arguments.
#[derive(Debug)]
pub struct ToolDefinition {
    pub name: String,
    pub description: String,
    pub parameters: Json,
}

/// `j` is a JSON string holding exactly `s`.
pub open spec fn is_json_str(j: Json, s: Seq<char>) -> bool {
    match j {
        Json::Str(t) => t@ == s,
        _ => false,
    }
}

/// The capabilities a session's registry can hold.
#[derive(PartialEq, Eq, Structural, Clone, Copy)]
pub enum ToolKind {
    ListFiles,
    ReadFile,
    WriteFile,
    ProposeEdit,
    RunTerminal,
    FindResource,
    SearchFiles,
    SemanticSearch,
}

/// The wire name of each tool.
pub open spec fn spec_tool_name(k: ToolKind) -> Seq<char> {
    match k {
        ToolKind::ListFiles => "list_files"@,
        ToolKind::ReadFile => "read_file"@,
        ToolKind::WriteFile => "write_file"@,
        ToolKind::ProposeEdit => "propose_edit"@,
        ToolKind::RunTerminal => "run_terminal"@,
        ToolKind::FindResource => "find_resource"@,
        ToolKind::SearchFiles => "search_files"@,
        ToolKind::SemanticSearch => "semantic_search"@,
    }
}

/// The wire name of a tool.
pub fn tool_name(k: ToolKind) -> (r: &'static str)
    ensures
        r@ == spec_tool_name(k),
{
    match k {
        ToolKind::ListFiles => "list_files",
        ToolKind::ReadFile => "read_file",
        ToolKind::WriteFile => "write_file",
        ToolKind::ProposeEdit => "propose_edit",
        ToolKind::RunTerminal => "run_terminal",
        ToolKind::FindResource => "find_resource",
        ToolKind::SearchFiles => "search_files",
        ToolKind::SemanticSearch => "semantic_search",
    }
}

/// Spec-level model of the external work one tool call asks the host for.
/// Everything the host needs is carried as plain values; nothing here has
/// touched the outside world yet.
pub enum EffectModel {
    ListDir { path: Seq<char> },
    ReadFile { path: Seq<char> },
    WriteFile { path: Seq<char>, content: Seq<char> },
    ProposeEdit { path: Seq<char>, new_content: Seq<char> },
    RunCommand { command: Seq<char>, cwd: Seq<char> },
    FindResource { pattern: Seq<char>, display_pattern: Seq<char>, collection: Option<Seq<char>> },
    SearchFiles { query: Seq<char>, use_regex: bool, extensions: Seq<Seq<char>> },
    SemanticSearch { query: Seq<char>, k: u64 },
}

/// The external work one tool call asks the host for.
#[derive(Debug)]
pub enum ToolEffect {
    ListDir { path: String },
    ReadFile { path: String },
    WriteFile { path: String, content: String },
    ProposeEdit { path: String, new_content: String },
    RunCommand { command: String, cwd: String },
    FindResource { pattern: String, display_pattern: String, collection: Option<String> },
    SearchFiles { query: String, use_regex: bool, extensions: Vec<String> },
    SemanticSearch { query: String, k: u64 },
}

impl View for ToolEffect {
    type V = EffectModel;

    open spec fn view(&self) -> EffectModel {
        match self {
            ToolEffect::ListDir { path } => EffectModel::ListDir { path: path@ },
            ToolEffect::ReadFile { path } => EffectModel::ReadFile { path: path@ },
            ToolEffect::WriteFile { path, content } => EffectModel::WriteFile {
                path: path@,
                content: content@,
            },
            ToolEffect::ProposeEdit { path, new_content } => EffectModel::ProposeEdit {
                path: path@,
                new_content: new_content@,
            },
            ToolEffect::RunCommand { command, cwd } => EffectModel::RunCommand {
                command: command@,
                cwd: cwd@,
            },
            ToolEffect::FindResource { pattern, display_pattern, collection } => {
                EffectModel::FindResource {
                    pattern: pattern@,
                    display_pattern: display_pattern@,
                    collection: match collection {
                        Some(c) => Some(c@),
                        None => None,
                    },
                }
            },
            ToolEffect::SearchFiles { query, use_regex, extensions } => EffectModel::SearchFiles {
                query: query@,
                use_regex: *use_regex,
                extensions: extensions@.map(|i: int, s: String| s@),
            },
            ToolEffect::SemanticSearch { query, k } => EffectModel::SemanticSearch {
                query: query@,
                k: *k,
            },
        }
    }
}

/// The string elements of a JSON array, in order; elements of any other
/// kind are passed over, as the tools' argument readers do.
pub open spec fn string_elems(a: Seq<Json>) -> Seq<Seq<char>>
    decreases a.len(),
{
    if a.len() == 0 {
        Seq::empty()
    } else {
        let rest = string_elems(a.drop_first());
        match a[0] {
            Json::Str(s) => seq![s@] + rest,
            _ => rest,
        }
    }
}

/// What each tool does with its parsed argument object: either the external
/// work to ask the host for, or the error text the tool reports.
///
/// This is the reference meaning of tool-argument validation; the executable
/// `prepare_tool` returns exactly this.
pub open spec fn spec_prepare(k: ToolKind, args: Json) -> Result<EffectModel, Seq<char>> {
    match k {
        ToolKind::ListFiles => match jget(args, "path"@) {
            Json::Str(p) => Ok(EffectModel::ListDir { path: p@ }),
            _ => Err("Missing path argument"@),
        },
        ToolKind::ReadFile => match jget(args, "path"@) {
            Json::Str(p) => if contains_seq(p@, ".."@) {
                Err("Access denied: Traversal paths not allowed"@)
            } else {
                Ok(EffectModel::ReadFile { path: p@ })
            },
            _ => Err("Missing path argument"@),
        },
        ToolKind::WriteFile => match (jget(args, "path"@), jget(args, "content"@)) {
            (Json::Str(p), Json::Str(c)) => if contains_seq(p@, ".."@) {
                Err("Access denied: Traversal paths not allowed"@)
            } else {
                Ok(EffectModel::WriteFile { path: p@, content: c@ })
            },
            (Json::Str(p), _) => Err("Missing content argument"@),
            _ => Err("Missing path argument"@),
        },
        ToolKind::ProposeEdit => match (jget(args, "path"@), jget(args, "new_content"@)) {
            (Json::Str(p), Json::Str(c)) => Ok(
                EffectModel::ProposeEdit { path: p@, new_content: c@ },
            ),
            (Json::Str(p), _) => Err("Missing new_content argument"@),
            _ => Err("Missing path argument"@),
        },
        ToolKind::RunTerminal => match jget(args, "command"@) {
            Json::Str(c) => Ok(
                EffectModel::RunCommand {
                    command: c@,
                    cwd: match jget(args, "cwd"@) {
                        Json::Str(d) => d@,
                        _ => "."@,
                    },
                },
            ),
            _ => Err("Missing command argument"@),
        },
        ToolKind::FindResource => match jget(args, "name"@) {
            Json::Str(n) => Ok(
                EffectModel::FindResource {
                    pattern: seq!['%'] + crate::strutil::replaced(n@, '*', '%') + seq!['%'],
                    display_pattern: crate::strutil::replaced(n@, '*', '%'),
                    collection: match jget(args, "collection"@) {
                        Json::Str(c) => Some(c@),
                        _ => None,
                    },
                },
            ),
            _ => Err("Missing name argument"@),
        },
        ToolKind::SearchFiles => match jget(args, "query"@) {
            Json::Str(q) => Ok(
                EffectModel::SearchFiles {
                    query: q@,
                    use_regex: match jget(args, "regex"@) {
                        Json::Bool(b) => b,
                        _ => false,
                    },
                    extensions: match jget(args, "extensions"@) {
                        Json::Arr(a) => string_elems(a@),
                        _ => Seq::empty(),
                    },
                },
            ),
            _ => Err("Missing query"@),
        },
        ToolKind::SemanticSearch => match jget(args, "query"@) {
            Json::Str(q) => Ok(
                EffectModel::SemanticSearch {
                    query: q@,
                    k: match jget(args, "k"@) {
                        Json::Num(n) => if crate::json::is_dec_digits(n@) && crate::json::dec_val(
                            n@,
                        ) <= u64::MAX {
                            crate::json::dec_val(n@) as u64
                        } else {
                            5
                        },
                        _ => 5,
                    },
                },
            ),
            _ => Err("Missing query"@),
        },
    }
}

/// Collects the string elements of a JSON array.
fn collect_string_elems(a: &Vec<Json>) -> (r: Vec<String>)
    ensures
        r@.map(|i: int, s: String| s@) == string_elems(a@),
{
    let mut out: Vec<String> = Vec::new();
    let mut i: usize = 0;
    proof {
        lemma_string_elems_take(a@, 0);
    }
    while i < a.len()
        invariant
            i <= a@.len(),
            out@.map(|j: int, s: String| s@) =~= string_elems(a@.take(i as int)),
        decreases a@.len() - i,
    {
        let ghost prev = out@;
        match &a[i] {
            Json::Str(s) => {
                out.push(s.clone());
                proof {
                    assert(out@.map(|j: int, s: String| s@) =~= prev.map(|j: int, s: String| s@)
                        + seq![a@[i as int]->Str_0@]);
                }
            },
            _ => {},
        }
        proof {
            lemma_string_elems_snoc(a@, i as int);
        }
        i = i + 1;
    }
    proof {
        assert(a@.take(a@.len() as int) =~= a@);
    }
    out
}

proof fn lemma_string_elems_take(a: Seq<Json>, i: int)
    requires
        0 <= i <= a.len(),
    ensures
        i == 0 ==> string_elems(a.take(i)) =~= Seq::<Seq<char>>::empty(),
{
}

/// Extending the prefix by one element appends that element's contribution.
proof fn lemma_string_elems_snoc(a: Seq<Json>, i: int)
    requires
        0 <= i < a.len(),
    ensures
        string_elems(a.take(i + 1)) == string_elems(a.take(i)) + (match a[i] {
            Json::Str(s) => seq![s@],
            _ => Seq::<Seq<char>>::empty(),
        }),
    decreases i,
{
    if i == 0 {
        assert(a.take(1).drop_first() =~= a.take(0));
        assert(string_elems(a.take(0)) =~= Seq::<Seq<char>>::empty());
        match a[0] {
            Json::Str(s) => {
                assert(string_elems(a.take(1)) =~= seq![s@]);
                assert(string_elems(a.take(0)) + seq![s@] =~= seq![s@]);
            },
            _ => {
                assert(string_elems(a.take(1)) =~= Seq::<Seq<char>>::empty());
            },
        }
    } else {
        lemma_string_elems_snoc(a.drop_first(), i - 1);
        assert(a.take(i + 1).drop_first() =~= a.drop_first().take(i));
        assert(a.take(i).drop_first() =~= a.drop_first().take(i - 1));
        assert(a.drop_first()[i - 1] == a[i]);
        assert(a.take(i + 1)[0] == a[0]);
        assert(a.take(i)[0] == a[0]);
        match a[0] {
            Json::Str(s) => {
                assert(string_elems(a.take(i + 1)) =~= seq![s@] + string_elems(
                    a.drop_first().take(i),
                ));
                assert(string_elems(a.take(i)) + (match a[i] {
                    Json::Str(t) => seq![t@],
                    _ => Seq::<Seq<char>>::empty(),
                }) =~= seq![s@] + (string_elems(a.drop_first().take(i - 1)) + (match a[i] {
                    Json::Str(t) => seq![t@],
                    _ => Seq::<Seq<char>>::empty(),
                })));
            },
            _ => {
                assert(string_elems(a.take(i + 1)) =~= string_elems(a.drop_first().take(i)));
                assert(string_elems(a.take(i)) =~= string_elems(a.drop_first().take(i - 1)));
            },
        }
    }
}

/// Validates one tool call's parsed arguments and names the external work
/// it asks for, exactly as `spec_prepare` defines it.
pub fn prepare_tool(k: ToolKind, args: &Json) -> (r: Result<ToolEffect, String>)
    ensures
        match (r, spec_prepare(k, *args)) {
            (Ok(e), Ok(m)) => e@ == m,
            (Err(t), Err(m)) => t@ == m,
            _ => false,
        },
{
    match k {
        ToolKind::ListFiles => match require_str(args, "path", "Missing path argument") {
            Ok(p) => Ok(ToolEffect::ListDir { path: p }),
            Err(e) => Err(e),
        },
        ToolKind::ReadFile => match require_str(args, "path", "Missing path argument") {
            Ok(p) => {
                if crate::strutil::str_contains(p.as_str(), "..") {
                    Err("Access denied: Traversal paths not allowed".to_owned())
                } else {
                    Ok(ToolEffect::ReadFile { path: p })
                }
            },
            Err(e) => Err(e),
        },
        ToolKind::WriteFile => match require_str(args, "path", "Missing path argument") {
            Ok(p) => match require_str(args, "content", "Missing content argument") {
                Ok(c) => {
                    if crate::strutil::str_contains(p.as_str(), "..") {
                        Err("Access denied: Traversal paths not allowed".to_owned())
                    } else {
                        Ok(ToolEffect::WriteFile { path: p, content: c })
                    }
                },
                Err(e) => Err(e),
            },
            Err(e) => Err(e),
        },
        ToolKind::ProposeEdit => match require_str(args, "path", "Missing path argument") {
            Ok(p) => match require_str(args, "new_content", "Missing new_content argument") {
                Ok(c) => Ok(ToolEffect::ProposeEdit { path: p, new_content: c }),
                Err(e) => Err(e),
            },
            Err(e) => Err(e),
        },
        ToolKind::RunTerminal => match require_str(args, "command", "Missing command argument") {
            Ok(c) => {
                let cwd = match optional_str(args, "cwd") {
                    Some(d) => d,
                    None => ".".to_owned(),
                };
                Ok(ToolEffect::RunCommand { command: c, cwd })
            },
            Err(e) => Err(e),
        },
        ToolKind::FindResource => match require_str(args, "name", "Missing name argument") {
            Ok(n) => {
                let display_pattern = replace_char(n.as_str(), '*', '%');
                let mut pattern = String::new();
                pattern.push('%');
                pattern.append(display_pattern.as_str());
                pattern.push('%');
                proof {
                    assert(pattern@ =~= seq!['%'] + crate::strutil::replaced(n@, '*', '%')
                        + seq!['%']);
                }
                let collection = optional_str(args, "collection");
                Ok(ToolEffect::FindResource { pattern, display_pattern, collection })
            },
            Err(e) => Err(e),
        },
        ToolKind::SearchFiles => match require_str(args, "query", "Missing query") {
            Ok(q) => {
                let use_regex = match args.get("regex") {
                    Some(v) => match v.bool_of() {
                        Some(b) => b,
                        None => false,
                    },
                    None => false,
                };
                let extensions = match args.get("extensions") {
                    Some(v) => match v.arr_of() {
                        Some(a) => collect_string_elems(a),
                        None => Vec::new(),
                    },
                    None => Vec::new(),
                };
                proof {
                    assert(Seq::<String>::empty().map(|i: int, s: String| s@)
                        =~= Seq::<Seq<char>>::empty());
                }
                Ok(ToolEffect::SearchFiles { query: q, use_regex, extensions })
            },
            Err(e) => Err(e),
        },
        ToolKind::SemanticSearch => match require_str(args, "query", "Missing query") {
            Ok(q) => {
                let k_arg: u64 = match args.get("k") {
                    Some(v) => match v {
                        Json::Num(n) => match crate::json::num_as_u64(n.as_str()) {
                            Some(x) => x,
                            None => 5,
                        },
                        _ => 5,
                    },
                    None => 5,
                };
                Ok(ToolEffect::SemanticSearch { query: q, k: k_arg })
            },
            Err(e) => Err(e),
        },
    }
}

/// One directory entry as the host reports it back.
pub struct DirEntry {
    pub is_dir: bool,
    pub name: String,
}

/// One match row of the external full-text search.
pub struct SearchHit {
    pub file_name: String,
    pub line_number: usize,
    pub line_content: String,
}

/// The listing line for one directory entry.
pub open spec fn spec_entry_line(is_dir: bool, name: Seq<char>) -> Seq<char> {
    (if is_dir {
        "[DIR] "@
    } else {
        "[FILE] "@
    }) + name
}

/// The listing text: one line per entry, capped at 100 entries with a
/// truncation marker line.
pub open spec fn spec_list_output(entries: Seq<(bool, Seq<char>)>) -> Seq<char> {
    let lines = entries.map(|i: int, e: (bool, Seq<char>)| spec_entry_line(e.0, e.1));
    if lines.len() > 100 {
        crate::strutil::joined_nl(lines.take(100).push("... (truncated)"@))
    } else {
        crate::strutil::joined_nl(lines)
    }
}

/// Formats a directory listing handed back by the host.
pub fn list_files_output(entries: &Vec<DirEntry>) -> (r: String)
    ensures
        r@ == spec_list_output(entries@.map(|i: int, e: DirEntry| (e.is_dir, e.name@))),
{
    let ghost pairs = entries@.map(|i: int, e: DirEntry| (e.is_dir, e.name@));
    let ghost all_lines = pairs.map(|i: int, e: (bool, Seq<char>)| spec_entry_line(e.0, e.1));
    let shown: usize = if entries.len() > 100 {
        100
    } else {
        entries.len()
    };
    let mut lines: Vec<String> = Vec::new();
    let mut i: usize = 0;
    while i < shown
        invariant
            pairs == entries@.map(|i: int, e: DirEntry| (e.is_dir, e.name@)),
            all_lines == pairs.map(|i: int, e: (bool, Seq<char>)| spec_entry_line(e.0, e.1)),
            shown <= entries@.len(),
            i <= shown,
            lines@.len() == i,
            forall|j: int| 0 <= j < i ==> #[trigger] lines@[j]@ == all_lines[j],
        decreases shown - i,
    {
        let mut line = if entries[i].is_dir {
            "[DIR] ".to_owned()
        } else {
            "[FILE] ".to_owned()
        };
        line.append(entries[i].name.as_str());
        lines.push(line);
        i = i + 1;
    }
    if entries.len() > 100 {
        lines.push("... (truncated)".to_owned());
        proof {
            let want = all_lines.take(100).push("... (truncated)"@);
            assert(lines@.map(|i: int, s: String| s@) =~= want);
        }
    } else {
        proof {
            assert(lines@.map(|i: int, s: String| s@) =~= all_lines);
        }
    }
    crate::strutil::join_lines(&lines)
}

/// The reading of a file, capped at 10000 characters with a truncation
/// marker.
pub open spec fn spec_read_file_output(content: Seq<char>) -> Seq<char> {
    if content.len() > 10000 {
        content.take(10000) + "... [TRUNCATED caused by length]"@
    } else {
        content
    }
}

/// Formats file content handed back by the host, truncating an oversized
/// reading.
pub fn read_file_output(content: &str) -> (r: String)
    ensures
        r@ == spec_read_file_output(content@),
{
    let len = content.unicode_len();
    if len > 10000 {
        let mut s = content.substring_char(0, 10000).to_owned();
        s.append("... [TRUNCATED caused by length]");
        proof {
            assert(content@.subrange(0, 10000) =~= content@.take(10000));
        }
        s
    } else {
        content.to_owned()
    }
}

/// The acknowledgement after a successful write.
pub open spec fn spec_write_file_output(path: Seq<char>) -> Seq<char> {
    "Successfully wrote to "@ + path
}

/// Formats the acknowledgement after the host wrote a file.
pub fn write_file_output(path: &str) -> (r: String)
    ensures
        r@ == spec_write_file_output(path@),
{
    let mut s = "Successfully wrote to ".to_owned();
    s.append(path);
    s
}

/// The acknowledgement after an edit proposal went out for review.
pub open spec fn spec_propose_edit_output(path: Seq<char>) -> Seq<char> {
    "Proposed edit for "@ + path + ". User is reviewing changes..."@
}

/// Formats the acknowledgement after an edit proposal was published.
pub fn propose_edit_output(path: &str) -> (r: String)
    ensures
        r@ == spec_propose_edit_output(path@),
{
    let mut s = "Proposed edit for ".to_owned();
    s.append(path);
    s.append(". User is reviewing changes...");
    s
}

/// The refusal when an edit is proposed for a file that does not exist.
pub open spec fn spec_propose_edit_missing(path: Seq<char>) -> Seq<char> {
    "File does not exist: "@ + path + ". Use write_file to create new files."@
}

/// Formats the refusal for an edit proposal on a missing file.
pub fn propose_edit_missing(path: &str) -> (r: String)
    ensures
        r@ == spec_propose_edit_missing(path@),
{
    let mut s = "File does not exist: ".to_owned();
    s.append(path);
    s.append(". Use write_file to create new files.");
    s
}

/// The report of a completed shell command: both streams, labelled. A
/// non-zero exit is reported as text, never as a failure.
pub open spec fn spec_run_terminal_output(stdout: Seq<char>, stderr: Seq<char>) -> Seq<char> {
    "STDOUT:\n"@ + stdout + "\nSTDERR:\n"@ + stderr
}

/// Formats the captured output of a completed shell command.
pub fn run_terminal_output(stdout: &str, stderr: &str) -> (r: String)
    ensures
        r@ == spec_run_terminal_output(stdout@, stderr@),
{
    let mut s = "STDOUT:\n".to_owned();
    s.append(stdout);
    s.append("\nSTDERR:\n");
    s.append(stderr);
    s
}

/// The line reporting one found resource.
pub open spec fn spec_hit_line(path: Seq<char>, collection: Seq<char>) -> Seq<char> {
    "- ["@ + collection + "] "@ + path + "\n"@
}

/// The report of a resource lookup: the rows found, or a miss naming the
/// pattern.
pub open spec fn spec_find_resource_output(
    display_pattern: Seq<char>,
    rows: Seq<(Seq<char>, Seq<char>)>,
) -> Seq<char> {
    if rows.len() == 0 {
        "No files found matching '"@ + display_pattern + "'."@
    } else {
        "Found "@ + crate::strutil::dec_str(rows.len() as nat) + " matches:\n"@
            + crate::strutil::concat_rows(
            rows.map(|i: int, r: (Seq<char>, Seq<char>)| spec_hit_line(r.0, r.1)),
        )
    }
}

/// Formats the rows a resource lookup handed back; each row is a path and
/// the collection holding it.
pub fn find_resource_output(display_pattern: &str, rows: &Vec<(String, String)>) -> (r: String)
    ensures
        r@ == spec_find_resource_output(
            display_pattern@,
            rows@.map(|i: int, p: (String, String)| (p.0@, p.1@)),
        ),
{
    let ghost pairs = rows@.map(|i: int, p: (String, String)| (p.0@, p.1@));
    let ghost row_lines = pairs.map(|i: int, r: (Seq<char>, Seq<char>)| spec_hit_line(r.0, r.1));
    if rows.len() == 0 {
        let mut s = "No files found matching '".to_owned();
        s.append(display_pattern);
        s.append("'.");
        return s;
    }
    let mut s = "Found ".to_owned();
    s.append(crate::strutil::usize_to_string(rows.len()).as_str());
    s.append(" matches:\n");
    let ghost header = s@;
    let mut i: usize = 0;
    proof {
        assert(row_lines.take(0) =~= Seq::<Seq<char>>::empty());
        assert(s@ =~= header + crate::strutil::concat_rows(row_lines.take(0)));
    }
    while i < rows.len()
        invariant
            pairs == rows@.map(|i: int, p: (String, String)| (p.0@, p.1@)),
            row_lines == pairs.map(|i: int, r: (Seq<char>, Seq<char>)| spec_hit_line(r.0, r.1)),
            i <= rows@.len(),
            s@ == header + crate::strutil::concat_rows(row_lines.take(i as int)),
        decreases rows@.len() - i,
    {
        s.append("- [");
        s.append(rows[i].1.as_str());
        s.append("] ");
        s.append(rows[i].0.as_str());
        s.append("\n");
        proof {
            crate::strutil::lemma_concat_rows_snoc(row_lines, i as int);
            assert(row_lines[i as int] == spec_hit_line(rows@[i as int].0@, rows@[i as int].1@));
            assert(s@ =~= header + (crate::strutil::concat_rows(row_lines.take(i as int))
                + row_lines[i as int]));
        }
        i = i + 1;
    }
    proof {
        assert(row_lines.take(rows@.len() as int) =~= row_lines);
    }
    s
}

/// The line reporting one full-text match.
pub open spec fn spec_search_hit_line(
    file_name: Seq<char>,
    line_number: nat,
    line_content: Seq<char>,
) -> Seq<char> {
    file_name + ":"@ + crate::strutil::dec_str(line_number) + " - "@
        + crate::strutil::trimmed_ws(line_content) + "\n"@
}

/// The report of a full-text search: a header with the counts, then one
/// line per match.
pub open spec fn spec_search_files_output(
    hits: Seq<(Seq<char>, nat, Seq<char>)>,
    total_files: nat,
) -> Seq<char> {
    "Found "@ + crate::strutil::dec_str(hits.len() as nat) + " matches in "@
        + crate::strutil::dec_str(total_files) + " files:\n"@ + crate::strutil::concat_rows(
        hits.map(|i: int, h: (Seq<char>, nat, Seq<char>)| spec_search_hit_line(h.0, h.1, h.2)),
    )
}

/// Formats the matches the external search collaborator handed back.
pub fn search_files_output(hits: &Vec<SearchHit>, total_files: usize) -> (r: String)
    ensures
        r@ == spec_search_files_output(
            hits@.map(|i: int, h: SearchHit| (h.file_name@, h.line_number as nat, h.line_content@)),
            total_files as nat,
        ),
{
    let ghost rows = hits@.map(
        |i: int, h: SearchHit| (h.file_name@, h.line_number as nat, h.line_content@),
    );
    let ghost row_lines = rows.map(
        |i: int, h: (Seq<char>, nat, Seq<char>)| spec_search_hit_line(h.0, h.1, h.2),
    );
    let mut s = "Found ".to_owned();
    s.append(crate::strutil::usize_to_string(hits.len()).as_str());
    s.append(" matches in ");
    s.append(crate::strutil::usize_to_string(total_files).as_str());
    s.append(" files:\n");
    let ghost header = s@;
    let mut i: usize = 0;
    proof {
        assert(row_lines.take(0) =~= Seq::<Seq<char>>::empty());
        assert(s@ =~= header + crate::strutil::concat_rows(row_lines.take(0)));
    }
    while i < hits.len()
        invariant
            rows == hits@.map(
                |i: int, h: SearchHit| (h.file_name@, h.line_number as nat, h.line_content@),
            ),
            row_lines == rows.map(
                |i: int, h: (Seq<char>, nat, Seq<char>)| spec_search_hit_line(h.0, h.1, h.2),
            ),
            i <= hits@.len(),
            s@ == header + crate::strutil::concat_rows(row_lines.take(i as int)),
        decreases hits@.len() - i,
    {
        s.append(hits[i].file_name.as_str());
        s.append(":");
        s.append(crate::strutil::usize_to_string(hits[i].line_number).as_str());
        s.append(" - ");
        s.append(crate::strutil::trim_ws(hits[i].line_content.as_str()));
        s.append("\n");
        proof {
            crate::strutil::lemma_concat_rows_snoc(row_lines, i as int);
            assert(row_lines[i as int] == spec_search_hit_line(
                hits@[i as int].file_name@,
                hits@[i as int].line_number as nat,
                hits@[i as int].line_content@,
            ));
            assert(s@ =~= header + (crate::strutil::concat_rows(row_lines.take(i as int))
                + row_lines[i as int]));
        }
        i = i + 1;
    }
    proof {
        assert(row_lines.take(hits@.len() as int) =~= row_lines);
    }
    s
}

/// The line reporting one semantic match; the host renders the score text,
/// since scores are not values of this library.
pub open spec fn spec_semantic_hit_line(id: Seq<char>, score: Seq<char>) -> Seq<char> {
    "- "@ + id + " (Score: "@ + score + ")\n"@
}

/// The report of a semantic search: a header with the count, then one line
/// per match.
pub open spec fn spec_semantic_search_output(results: Seq<(Seq<char>, Seq<char>)>) -> Seq<char> {
    "Found "@ + crate::strutil::dec_str(results.len() as nat) + " semantic matches:\n"@
        + crate::strutil::concat_rows(
        results.map(|i: int, r: (Seq<char>, Seq<char>)| spec_semantic_hit_line(r.0, r.1)),
    )
}

/// Formats the nearest-neighbour rows the vector index handed back; each
/// row is an id and the rendered score.
pub fn semantic_search_output(results: &Vec<(String, String)>) -> (r: String)
    ensures
        r@ == spec_semantic_search_output(
            results@.map(|i: int, p: (String, String)| (p.0@, p.1@)),
        ),
{
    let ghost pairs = results@.map(|i: int, p: (String, String)| (p.0@, p.1@));
    let ghost row_lines = pairs.map(
        |i: int, r: (Seq<char>, Seq<char>)| spec_semantic_hit_line(r.0, r.1),
    );
    let mut s = "Found ".to_owned();
    s.append(crate::strutil::usize_to_string(results.len()).as_str());
    s.append(" semantic matches:\n");
    let ghost header = s@;
    let mut i: usize = 0;
    proof {
        assert(row_lines.take(0) =~= Seq::<Seq<char>>::empty());
        assert(s@ =~= header + crate::strutil::concat_rows(row_lines.take(0)));
    }
    while i < results.len()
        invariant
            pairs == results@.map(|i: int, p: (String, String)| (p.0@, p.1@)),
            row_lines == pairs.map(
                |i: int, r: (Seq<char>, Seq<char>)| spec_semantic_hit_line(r.0, r.1),
            ),
            i <= results@.len(),
            s@ == header + crate::strutil::concat_rows(row_lines.take(i as int)),
        decreases results@.len() - i,
    {
        s.append("- ");
        s.append(results[i].0.as_str());
        s.append(" (Score: ");
        s.append(results[i].1.as_str());
        s.append(")\n");
        proof {
            crate::strutil::lemma_concat_rows_snoc(row_lines, i as int);
            assert(row_lines[i as int] == spec_semantic_hit_line(
                results@[i as int].0@,
                results@[i as int].1@,
            ));
            assert(s@ =~= header + (crate::strutil::concat_rows(row_lines.take(i as int))
                + row_lines[i as int]));
        }
        i = i + 1;
    }
    proof {
        assert(row_lines.take(results@.len() as int) =~= row_lines);
    }
    s
}

/// Reads a required string argument, with the tool's own error text when it
/// is absent or not a string.
fn require_str(args: &Json, key: &str, err: &str) -> (r: Result<String, String>)
    ensures
        match r {
            Ok(s) => jget(*args, key@) matches Json::Str(t) && t@ == s@,
            Err(e) => !(jget(*args, key@) is Str) && e@ == err@,
        },
{
    match args.get(key) {
        Some(v) => match v.str_of() {
            Some(s) => Ok(s.clone()),
            None => Err(err.to_owned()),
        },
        None => Err(err.to_owned()),
    }
}

/// Reads an optional string argument.
fn optional_str(args: &Json, key: &str) -> (r: Option<String>)
    ensures
        match r {
            Some(s) => jget(*args, key@) matches Json::Str(t) && t@ == s@,
            None => !(jget(*args, key@) is Str),
        },
{
    match args.get(key) {
        Some(v) => match v.str_of() {
            Some(s) => Some(s.clone()),
            None => None,
        },
        None => None,
    }
}

/// What happens next for one requested call: a tool output that is already
/// known (an argument or lookup failure, reported as recoverable text), or
/// the external work the host must perform.
#[derive(Debug)]
pub enum ToolStep {
    Ready(String),
    Effect(ToolEffect),
}

/// Spec-level model of `ToolStep`.
pub enum StepModel {
    Ready(Seq<char>),
    Effect(EffectModel),
}

impl View for ToolStep {
    type V = StepModel;

    open spec fn view(&self) -> StepModel {
        match self {
            ToolStep::Ready(t) => StepModel::Ready(t@),
            ToolStep::Effect(e) => StepModel::Effect(e@),
        }
    }
}

/// The recoverable report of an argument text that did not parse.
pub open spec fn spec_parse_error_text(name: Seq<char>, e: Seq<char>) -> Seq<char> {
    "Error parsing arguments for tool '"@ + name + "': "@ + e
}

/// The recoverable report of a name no registered tool carries.
pub open spec fn spec_unknown_tool_text(name: Seq<char>) -> Seq<char> {
    "Error: Tool '"@ + name + "' not found"@
}

/// The recoverable report of a tool's own failure.
pub open spec fn spec_tool_error_text(e: Seq<char>) -> Seq<char> {
    "Error: "@ + e
}

/// Wraps a tool's own failure as the recoverable tool output the loop
/// records: the host hands a failed effect's error here before recording
/// it, so a tool's failure never aborts the session.
pub fn tool_error_output(e: &str) -> (r: String)
    ensures
        r@ == spec_tool_error_text(e@),
{
    let mut t = "Error: ".to_owned();
    t.append(e);
    proof {
        assert(t@ =~= spec_tool_error_text(e@));
    }
    t
}

/// How one requested call resolves against a registry, given the parse
/// outcome of its argument text: every failure is a ready tool output, and
/// only a validated call asks the host for work.
pub open spec fn spec_resolve(
    tools: Seq<ToolKind>,
    c: crate::message::CallModel,
    args: Result<Json, Seq<char>>,
) -> StepModel {
    match args {
        Err(e) => StepModel::Ready(spec_parse_error_text(c.name, e)),
        Ok(a) => match lookup_tool(tools, c.name) {
            None => StepModel::Ready(spec_unknown_tool_text(c.name)),
            Some(k) => match spec_prepare(k, a) {
                Err(t) => StepModel::Ready(spec_tool_error_text(t)),
                Ok(eff) => StepModel::Effect(eff),
            },
        },
    }
}

impl ToolRegistry {
    /// Resolves one requested call against this registry, exactly as
    /// `spec_resolve` defines it, given the parse outcome of the call's
    /// argument text.
    pub fn resolve_with_args(&self, call: &crate::message::ToolCall, args: Result<Json, String>) -> (r:
        ToolStep)
        ensures
            r@ == spec_resolve(
                self.tools@,
                call@,
                match args {
                    Ok(j) => Ok(j),
                    Err(e) => Err(e@),
                },
            ),
    {
        match args {
            Err(e) => {
                let mut t = "Error parsing arguments for tool '".to_owned();
                t.append(call.function.name.as_str());
                t.append("': ");
                t.append(e.as_str());
                proof {
                    assert(t@ =~= spec_parse_error_text(call@.name, e@));
                }
                ToolStep::Ready(t)
            },
            Ok(a) => match self.get(call.function.name.as_str()) {
                None => {
                    let mut t = "Error: Tool '".to_owned();
                    t.append(call.function.name.as_str());
                    t.append("' not found");
                    proof {
                        assert(t@ =~= spec_unknown_tool_text(call@.name));
                    }
                    ToolStep::Ready(t)
                },
                Some(k) => match prepare_tool(k, &a) {
                    Err(e) => {
                        ToolStep::Ready(tool_error_output(e.as_str()))
                    },
                    Ok(eff) => ToolStep::Effect(eff),
                },
            },
        }
    }

    /// Resolves one requested call: parses its argument text and resolves
    /// the parse outcome, exactly as `spec_resolve` defines resolution on
    /// what the parser makes of the text.
    pub fn resolve_tool_call(&self, call: &crate::message::ToolCall) -> (r: ToolStep)
        ensures
            r@ == spec_resolve(
                self.tools@,
                call@,
                crate::json::parsed_json_of(call@.arguments),
            ),
    {
        let parsed = crate::json::parse_json(call.function.arguments.as_str());
        let ghost pm: Result<Json, Seq<char>> = match parsed {
            Ok(ref j) => Ok(*j),
            Err(ref e) => Err(e@),
        };
        proof {
            assert(pm == crate::json::parsed_json_of(call@.arguments));
        }
        let r = self.resolve_with_args(call, parsed);
        proof {
            assert(r@ == spec_resolve(self.tools@, call@, pm));
        }
        r
    }
}

/// A file read whose path climbs out of its directory is refused during
/// validation, with the fixed refusal text, and asks the host for no
/// external work at all: the filesystem is never touched for it.
pub proof fn lemma_traversal_read_refused(args: Json)
    requires
        jget(args, "path"@) matches Json::Str(p) && contains_seq(p@, ".."@),
    ensures
        spec_prepare(ToolKind::ReadFile, args) == Err::<EffectModel, Seq<char>>(
            "Access denied: Traversal paths not allowed"@,
        ),
{
}

/// The same refusal guards writes: a traversal path never reaches the
/// host.
pub proof fn lemma_traversal_write_refused(args: Json)
    requires
        jget(args, "path"@) matches Json::Str(p) && contains_seq(p@, ".."@),
        jget(args, "content"@) is Str,
    ensures
        spec_prepare(ToolKind::WriteFile, args) == Err::<EffectModel, Seq<char>>(
            "Access denied: Traversal paths not allowed"@,
        ),
{
}

/// What each tool tells the model about itself.
pub open spec fn spec_tool_description(k: ToolKind) -> Seq<char> {
    match k {
        ToolKind::ListFiles => "List files in a directory. Use this to explore the project structure."@,
        ToolKind::ReadFile => "Read the contents of a file."@,
        ToolKind::WriteFile => "Write content to a file. Overwrites existing files. Use carefully."@,
        ToolKind::ProposeEdit => "Propose changes to an existing file. Use this for editing code or text. The user will review the changes in a Diff View."@,
        ToolKind::RunTerminal => "Run a shell command. Use cautiously."@,
        ToolKind::FindResource => "Find files in the database. Can search by name/path and optionally filter by collection."@,
        ToolKind::SearchFiles => "Search for text patterns (regex or string) inside files in the database."@,
        ToolKind::SemanticSearch => "Search for similar content by meaning (embeddings). Useful for finding exercises, chapters, or concepts."@,
    }
}

/// The schema declares the named argument with the given JSON type.
pub open spec fn declares_arg(params: Json, name: Seq<char>, ty: Seq<char>) -> bool {
    is_json_str(jget(jget(jget(params, "properties"@), name), "type"@), ty)
}

/// The schema's required list holds exactly the given names, in order.
pub open spec fn requires_args(params: Json, names: Seq<Seq<char>>) -> bool {
    match jget(params, "required"@) {
        Json::Arr(req) => req@.len() == names.len() && forall|i: int|
            0 <= i < names.len() ==> is_json_str(#[trigger] req@[i], names[i]),
        _ => false,
    }
}

/// What each tool's argument schema declares and demands: the declared
/// properties with their JSON types, and the required names — the whole
/// artifact the model sees of the tool's arguments.
pub open spec fn def_params_ok(k: ToolKind, params: Json) -> bool {
    match k {
        ToolKind::ListFiles => declares_arg(params, "path"@, "string"@) && requires_args(
            params,
            seq!["path"@],
        ),
        ToolKind::ReadFile => declares_arg(params, "path"@, "string"@) && requires_args(
            params,
            seq!["path"@],
        ),
        ToolKind::WriteFile => declares_arg(params, "path"@, "string"@) && declares_arg(
            params,
            "content"@,
            "string"@,
        ) && requires_args(params, seq!["path"@, "content"@]),
        ToolKind::ProposeEdit => declares_arg(params, "path"@, "string"@) && declares_arg(
            params,
            "new_content"@,
            "string"@,
        ) && requires_args(params, seq!["path"@, "new_content"@]),
        ToolKind::RunTerminal => declares_arg(params, "command"@, "string"@) && declares_arg(
            params,
            "cwd"@,
            "string"@,
        ) && requires_args(params, seq!["command"@]),
        ToolKind::FindResource => declares_arg(params, "name"@, "string"@) && declares_arg(
            params,
            "collection"@,
            "string"@,
        ) && requires_args(params, seq!["name"@]),
        ToolKind::SearchFiles => declares_arg(params, "query"@, "string"@) && declares_arg(
            params,
            "regex"@,
            "boolean"@,
        ) && declares_arg(params, "extensions"@, "array"@) && requires_args(
            params,
            seq!["query"@],
        ),
        ToolKind::SemanticSearch => declares_arg(params, "query"@, "string"@) && declares_arg(
            params,
            "k"@,
            "integer"@,
        ) && requires_args(params, seq!["query"@]),
    }
}

/// A definition advertises the right name and description and describes its
/// arguments as a JSON-Schema object declaring exactly the tool's
/// properties and required names.
pub open spec fn is_definition_for(d: ToolDefinition, k: ToolKind) -> bool {
    &&& d.name@ == spec_tool_name(k)
    &&& d.description@ == spec_tool_description(k)
    &&& is_json_str(jget(d.parameters, "type"@), "object"@)
    &&& def_params_ok(k, d.parameters)
}

fn prop_obj(ty: &str, desc: &str) -> (j: Json)
    ensures
        is_json_str(jget(j, "type"@), ty@),
        is_json_str(jget(j, "description"@), desc@),
{
    let mut fields: Vec<(String, Json)> = Vec::new();
    fields.push(("type".to_owned(), Json::Str(ty.to_owned())));
    fields.push(("description".to_owned(), Json::Str(desc.to_owned())));
    let j = Json::Obj(fields);
    proof {
        reveal_strlit("type");
        reveal_strlit("description");
        assert("type"@.len() == 4);
        assert("description"@.len() == 11);
        crate::strutil::seq_neq_len("type"@, "description"@);
        crate::json::lemma_obj_lookup_at(fields@, "type"@, 0);
        crate::json::lemma_obj_lookup_at(fields@, "description"@, 1);
    }
    j
}

fn schema_obj(props: Vec<(String, Json)>, required: Vec<Json>) -> (r: Json)
    ensures
        is_json_str(jget(r, "type"@), "object"@),
        jget(r, "properties"@) == Json::Obj(props),
        jget(r, "required"@) == Json::Arr(required),
{
    let mut fields: Vec<(String, Json)> = Vec::new();
    fields.push(("type".to_owned(), Json::Str("object".to_owned())));
    fields.push(("properties".to_owned(), Json::Obj(props)));
    fields.push(("required".to_owned(), Json::Arr(required)));
    let r = Json::Obj(fields);
    proof {
        reveal_strlit("type");
        reveal_strlit("properties");
        reveal_strlit("required");
        assert("type"@.len() == 4);
        assert("properties"@.len() == 10);
        assert("required"@.len() == 8);
        crate::strutil::seq_neq_len("type"@, "properties"@);
        crate::strutil::seq_neq_len("type"@, "required"@);
        crate::strutil::seq_neq_len("properties"@, "required"@);
        crate::json::lemma_obj_lookup_at(fields@, "type"@, 0);
        crate::json::lemma_obj_lookup_at(fields@, "properties"@, 1);
        crate::json::lemma_obj_lookup_at(fields@, "required"@, 2);
    }
    r
}

/// Lists a directory of the project tree.
pub struct ListFilesTool;

/// Reads one file, within the size cap.
pub struct ReadFileTool;

/// Writes a new file, creating parent directories.
pub struct WriteFileTool;

/// Runs one shell command and reports both output streams.
pub struct RunTerminalTool;

/// Searches file contents through the external search collaborator.
pub struct DatabaseSearchTool;

/// Publishes an edit proposal for review instead of touching the disk.
pub struct ProposeEditTool;

/// Looks a resource up by name pattern in the external store.
pub struct FindResourceTool;

/// Finds similar content through the external vector index.
pub struct SemanticSearchTool;

impl ListFilesTool {
    /// The tool's advertised definition.
    pub fn definition(&self) -> (r: ToolDefinition)
        ensures
            is_definition_for(r, ToolKind::ListFiles),
    {
        let mut props: Vec<(String, Json)> = Vec::new();
        props.push(("path".to_owned(), prop_obj("string", "Absolute path to directory to list")));
        let ghost gprops = props@;
        let required = vec![Json::Str("path".to_owned())];
        let ghost greq = required@;
        let params = schema_obj(props, required);
        proof {
            crate::json::lemma_obj_lookup_at(gprops, "path"@, 0);
            assert(declares_arg(params, "path"@, "string"@));
            assert(is_json_str(greq[0], "path"@));
            assert(requires_args(params, seq!["path"@]));
        }
        ToolDefinition {
            name: "list_files".to_owned(),
            description: "List files in a directory. Use this to explore the project structure."
                .to_owned(),
            parameters: params,
        }
    }
}

impl ReadFileTool {
    /// The tool's advertised definition.
    pub fn definition(&self) -> (r: ToolDefinition)
        ensures
            is_definition_for(r, ToolKind::ReadFile),
    {
        let mut props: Vec<(String, Json)> = Vec::new();
        props.push(("path".to_owned(), prop_obj("string", "Absolute path to file to read")));
        let ghost gprops = props@;
        let required = vec![Json::Str("path".to_owned())];
        let ghost greq = required@;
        let params = schema_obj(props, required);
        proof {
            crate::json::lemma_obj_lookup_at(gprops, "path"@, 0);
            assert(declares_arg(params, "path"@, "string"@));
            assert(is_json_str(greq[0], "path"@));
            assert(requires_args(params, seq!["path"@]));
        }
        ToolDefinition {
            name: "read_file".to_owned(),
            description: "Read the contents of a file.".to_owned(),
            parameters: params,
        }
    }
}

impl WriteFileTool {
    /// The tool's advertised definition.
    pub fn definition(&self) -> (r: ToolDefinition)
        ensures
            is_definition_for(r, ToolKind::WriteFile),
    {
        let mut props: Vec<(String, Json)> = Vec::new();
        props.push(("path".to_owned(), prop_obj("string", "Absolute path to file")));
        props.push(("content".to_owned(), prop_obj("string", "Content to write")));
        let ghost gprops = props@;
        let required = vec![Json::Str("path".to_owned()), Json::Str("content".to_owned())];
        let ghost greq = required@;
        let params = schema_obj(props, required);
        proof {
            reveal_strlit("path");
            reveal_strlit("content");
            assert("path"@.len() == 4);
            assert("content"@.len() == 7);
            crate::strutil::seq_neq_len("path"@, "content"@);
            crate::json::lemma_obj_lookup_at(gprops, "path"@, 0);
            crate::json::lemma_obj_lookup_at(gprops, "content"@, 1);
            assert(declares_arg(params, "path"@, "string"@));
            assert(declares_arg(params, "content"@, "string"@));
            assert(is_json_str(greq[0], "path"@));
            assert(is_json_str(greq[1], "content"@));
            assert(requires_args(params, seq!["path"@, "content"@]));
        }
        ToolDefinition {
            name: "write_file".to_owned(),
            description: "Write content to a file. Overwrites existing files. Use carefully."
                .to_owned(),
            parameters: params,
        }
    }
}

impl ProposeEditTool {
    /// The tool's advertised definition.
    pub fn definition(&self) -> (r: ToolDefinition)
        ensures
            is_definition_for(r, ToolKind::ProposeEdit),
    {
        let mut props: Vec<(String, Json)> = Vec::new();
        props.push(("path".to_owned(), prop_obj("string", "Absolute path to file")));
        props.push(
            ("new_content".to_owned(), prop_obj("string", "The full new content of the file")),
        );
        let ghost gprops = props@;
        let required = vec![Json::Str("path".to_owned()), Json::Str("new_content".to_owned())];
        let ghost greq = required@;
        let params = schema_obj(props, required);
        proof {
            reveal_strlit("path");
            reveal_strlit("new_content");
            assert("path"@.len() == 4);
            assert("new_content"@.len() == 11);
            crate::strutil::seq_neq_len("path"@, "new_content"@);
            crate::json::lemma_obj_lookup_at(gprops, "path"@, 0);
            crate::json::lemma_obj_lookup_at(gprops, "new_content"@, 1);
            assert(declares_arg(params, "path"@, "string"@));
            assert(declares_arg(params, "new_content"@, "string"@));
            assert(is_json_str(greq[0], "path"@));
            assert(is_json_str(greq[1], "new_content"@));
            assert(requires_args(params, seq!["path"@, "new_content"@]));
        }
        ToolDefinition {
            name: "propose_edit".to_owned(),
            description: "Propose changes to an existing file. Use this for editing code or text. The user will review the changes in a Diff View."
                .to_owned(),
            parameters: params,
        }
    }
}

impl RunTerminalTool {
    /// The tool's advertised definition.
    pub fn definition(&self) -> (r: ToolDefinition)
        ensures
            is_definition_for(r, ToolKind::RunTerminal),
    {
        let mut props: Vec<(String, Json)> = Vec::new();
        props.push(("command".to_owned(), prop_obj("string", "Command to execute")));
        props.push(("cwd".to_owned(), prop_obj("string", "Working directory")));
        let ghost gprops = props@;
        let required = vec![Json::Str("command".to_owned())];
        let ghost greq = required@;
        let params = schema_obj(props, required);
        proof {
            reveal_strlit("command");
            reveal_strlit("cwd");
            assert("command"@.len() == 7);
            assert("cwd"@.len() == 3);
            crate::strutil::seq_neq_len("command"@, "cwd"@);
            crate::json::lemma_obj_lookup_at(gprops, "command"@, 0);
            crate::json::lemma_obj_lookup_at(gprops, "cwd"@, 1);
            assert(declares_arg(params, "command"@, "string"@));
            assert(declares_arg(params, "cwd"@, "string"@));
            assert(is_json_str(greq[0], "command"@));
            assert(requires_args(params, seq!["command"@]));
        }
        ToolDefinition {
            name: "run_terminal".to_owned(),
            description: "Run a shell command. Use cautiously.".to_owned(),
            parameters: params,
        }
    }
}

impl FindResourceTool {
    /// The tool's advertised definition.
    pub fn definition(&self) -> (r: ToolDefinition)
        ensures
            is_definition_for(r, ToolKind::FindResource),
    {
        let mut props: Vec<(String, Json)> = Vec::new();
        props.push(
            ("name".to_owned(), prop_obj("string", "Filename or partial pattern (e.g. 'Untitled.tex')")),
        );
        props.push(
            (
                "collection".to_owned(),
                prop_obj("string", "Optional: Filter by collection name (e.g. 'testLatex')"),
            ),
        );
        let ghost gprops = props@;
        let required = vec![Json::Str("name".to_owned())];
        let ghost greq = required@;
        let params = schema_obj(props, required);
        proof {
            reveal_strlit("name");
            reveal_strlit("collection");
            assert("name"@.len() == 4);
            assert("collection"@.len() == 10);
            crate::strutil::seq_neq_len("name"@, "collection"@);
            crate::json::lemma_obj_lookup_at(gprops, "name"@, 0);
            crate::json::lemma_obj_lookup_at(gprops, "collection"@, 1);
            assert(declares_arg(params, "name"@, "string"@));
            assert(declares_arg(params, "collection"@, "string"@));
            assert(is_json_str(greq[0], "name"@));
            assert(requires_args(params, seq!["name"@]));
        }
        ToolDefinition {
            name: "find_resource".to_owned(),
            description: "Find files in the database. Can search by name/path and optionally filter by collection."
                .to_owned(),
            parameters: params,
        }
    }
}

impl DatabaseSearchTool {
    /// The tool's advertised definition.
    pub fn definition(&self) -> (r: ToolDefinition)
        ensures
            is_definition_for(r, ToolKind::SearchFiles),
    {
        let mut props: Vec<(String, Json)> = Vec::new();
        props.push(("query".to_owned(), prop_obj("string", "Text to search for")));
        props.push(("regex".to_owned(), prop_obj("boolean", "Use regex? Default false")));
        let mut ext: Vec<(String, Json)> = Vec::new();
        ext.push(("type".to_owned(), Json::Str("array".to_owned())));
        ext.push(("items".to_owned(), prop_obj("string", "File extension")));
        ext.push(
            ("description".to_owned(), Json::Str("File extensions (tex, bib...)".to_owned())),
        );
        let ghost gext = ext@;
        proof {
            crate::json::lemma_obj_lookup_at(gext, "type"@, 0);
        }
        props.push(("extensions".to_owned(), Json::Obj(ext)));
        let ghost gprops = props@;
        let required = vec![Json::Str("query".to_owned())];
        let ghost greq = required@;
        let params = schema_obj(props, required);
        proof {
            reveal_strlit("query");
            reveal_strlit("regex");
            reveal_strlit("extensions");
            assert("query"@.len() == 5);
            assert("regex"@.len() == 5);
            assert("extensions"@.len() == 10);
            crate::strutil::seq_neq_at("query"@, "regex"@, 0);
            crate::strutil::seq_neq_len("query"@, "extensions"@);
            crate::strutil::seq_neq_len("regex"@, "extensions"@);
            crate::json::lemma_obj_lookup_at(gprops, "query"@, 0);
            crate::json::lemma_obj_lookup_at(gprops, "regex"@, 1);
            crate::json::lemma_obj_lookup_at(gprops, "extensions"@, 2);
            assert(declares_arg(params, "query"@, "string"@));
            assert(declares_arg(params, "regex"@, "boolean"@));
            assert(declares_arg(params, "extensions"@, "array"@));
            assert(is_json_str(greq[0], "query"@));
            assert(requires_args(params, seq!["query"@]));
        }
        ToolDefinition {
            name: "search_files".to_owned(),
            description: "Search for text patterns (regex or string) inside files in the database."
                .to_owned(),
            parameters: params,
        }
    }
}

impl SemanticSearchTool {
    /// The tool's advertised definition.
    pub fn definition(&self) -> (r: ToolDefinition)
        ensures
            is_definition_for(r, ToolKind::SemanticSearch),
    {
        let mut props: Vec<(String, Json)> = Vec::new();
        props.push(("query".to_owned(), prop_obj("string", "Concept or text to find")));
        props.push(("k".to_owned(), prop_obj("integer", "Number of results (default 5)")));
        let ghost gprops = props@;
        let required = vec![Json::Str("query".to_owned())];
        let ghost greq = required@;
        let params = schema_obj(props, required);
        proof {
            reveal_strlit("query");
            reveal_strlit("k");
            assert("query"@.len() == 5);
            assert("k"@.len() == 1);
            crate::strutil::seq_neq_len("query"@, "k"@);
            crate::json::lemma_obj_lookup_at(gprops, "query"@, 0);
            crate::json::lemma_obj_lookup_at(gprops, "k"@, 1);
            assert(declares_arg(params, "query"@, "string"@));
            assert(declares_arg(params, "k"@, "integer"@));
            assert(is_json_str(greq[0], "query"@));
            assert(requires_args(params, seq!["query"@]));
        }
        ToolDefinition {
            name: "semantic_search".to_owned(),
            description: "Search for similar content by meaning (embeddings). Useful for finding exercises, chapters, or concepts."
                .to_owned(),
            parameters: params,
        }
    }
}

/// The definition a given tool advertises.
pub fn definition_of(k: ToolKind) -> (r: ToolDefinition)
    ensures
        is_definition_for(r, k),
{
    match k {
        ToolKind::ListFiles => ListFilesTool.definition(),
        ToolKind::ReadFile => ReadFileTool.definition(),
        ToolKind::WriteFile => WriteFileTool.definition(),
        ToolKind::ProposeEdit => ProposeEditTool.definition(),
        ToolKind::RunTerminal => RunTerminalTool.definition(),
        ToolKind::FindResource => FindResourceTool.definition(),
        ToolKind::SearchFiles => DatabaseSearchTool.definition(),
        ToolKind::SemanticSearch => SemanticSearchTool.definition(),
    }
}

/// First registered tool under the given name, if any.
pub open spec fn lookup_tool(ts: Seq<ToolKind>, name: Seq<char>) -> Option<ToolKind>
    decreases ts.len(),
{
    if ts.len() == 0 {
        None
    } else if spec_tool_name(ts[0]) == name {
        Some(ts[0])
    } else {
        lookup_tool(ts.drop_first(), name)
    }
}

proof fn lemma_lookup_tool_found(ts: Seq<ToolKind>, name: Seq<char>, i: int)
    requires
        0 <= i < ts.len(),
        forall|k: int| 0 <= k < i ==> spec_tool_name(#[trigger] ts[k]) != name,
        spec_tool_name(ts[i]) == name,
    ensures
        lookup_tool(ts, name) == Some(ts[i]),
    decreases i,
{
    if i > 0 {
        assert(spec_tool_name(ts[0]) != name);
        assert(forall|k: int|
            0 <= k < i - 1 ==> #[trigger] ts.drop_first()[k] == ts[k + 1]);
        lemma_lookup_tool_found(ts.drop_first(), name, i - 1);
    }
}

proof fn lemma_lookup_tool_none(ts: Seq<ToolKind>, name: Seq<char>)
    requires
        forall|k: int| 0 <= k < ts.len() ==> spec_tool_name(#[trigger] ts[k]) != name,
    ensures
        lookup_tool(ts, name) is None,
    decreases ts.len(),
{
    if ts.len() > 0 {
        assert(spec_tool_name(ts[0]) != name);
        assert(forall|k: int|
            0 <= k < ts.len() - 1 ==> #[trigger] ts.drop_first()[k] == ts[k + 1]);
        lemma_lookup_tool_none(ts.drop_first(), name);
    }
}

/// The fixed registration order of a fresh session's capabilities.
pub open spec fn canonical_tools() -> Seq<ToolKind> {
    seq![
        ToolKind::ListFiles,
        ToolKind::ReadFile,
        ToolKind::WriteFile,
        ToolKind::ProposeEdit,
        ToolKind::RunTerminal,
        ToolKind::FindResource,
        ToolKind::SearchFiles,
        ToolKind::SemanticSearch,
    ]
}

/// The named set of capabilities one session exposes to the model. Built
/// once per session; lookups and the advertised definition list both follow
/// registration order, so iteration order is stable.
pub struct ToolRegistry {
    pub tools: Vec<ToolKind>,
}

impl ToolRegistry {
    /// A registry holding every tool, in the fixed registration order.
    pub fn new() -> (r: Self)
        ensures
            r.tools@ == canonical_tools(),
    {
        let mut registry = ToolRegistry { tools: Vec::new() };
        registry.register(ToolKind::ListFiles);
        registry.register(ToolKind::ReadFile);
        registry.register(ToolKind::WriteFile);
        registry.register(ToolKind::ProposeEdit);
        registry.register(ToolKind::RunTerminal);
        registry.register(ToolKind::FindResource);
        registry.register(ToolKind::SearchFiles);
        registry.register(ToolKind::SemanticSearch);
        proof {
            assert(registry.tools@ =~= canonical_tools());
        }
        registry
    }

    /// Adds one tool at the end of the registration order.
    pub fn register(&mut self, t: ToolKind)
        ensures
            final(self).tools@ == old(self).tools@.push(t),
    {
        self.tools.push(t);
    }

    /// Looks a tool up by its wire name. An unknown name is no error of the
    /// registry: the caller reports it as a recoverable tool output.
    pub fn get(&self, name: &str) -> (r: Option<ToolKind>)
        ensures
            r == lookup_tool(self.tools@, name@),
    {
        let n = self.tools.len();
        let mut i: usize = 0;
        while i < n
            invariant
                n == self.tools@.len(),
                i <= n,
                forall|k: int| 0 <= k < i ==> spec_tool_name(#[trigger] self.tools@[k]) != name@,
            decreases n - i,
        {
            let t = self.tools[i];
            if str_eq(tool_name(t), name) {
                proof {
                    lemma_lookup_tool_found(self.tools@, name@, i as int);
                }
                return Some(t);
            }
            i = i + 1;
        }
        proof {
            lemma_lookup_tool_none(self.tools@, name@);
        }
        None
    }

    /// The definitions of every registered tool, in registration order.
    pub fn get_definitions(&self) -> (r: Vec<ToolDefinition>)
        ensures
            r@.len() == self.tools@.len(),
            forall|i: int|
                0 <= i < r@.len() ==> is_definition_for(#[trigger] r@[i], self.tools@[i]),
    {
        let mut out: Vec<ToolDefinition> = Vec::new();
        let mut i: usize = 0;
        while i < self.tools.len()
            invariant
                i <= self.tools@.len(),
                out@.len() == i,
                forall|j: int|
                    0 <= j < i ==> is_definition_for(#[trigger] out@[j], self.tools@[j]),
            decreases self.tools@.len() - i,
        {
            out.push(definition_of(self.tools[i]));
            i = i + 1;
        }
        out
    }
}

} // verus!
