use texagent::ctan::{
    get_package_by_id, get_packages, CTANPackage, CTANTopic, PackageDatabase,
};
use texagent::git::build_structured_diff;
use texagent::history::{diff_with_current, generate_diff, hash_content};
use texagent::json::{parse_json, Json};
use texagent::manager::validate_identifier;
use texagent::metadata::{DocumentMetadata, FileMetadata};

#[test]
fn sha256_digest_is_exact() {
    assert_eq!(
        hash_content("abc"),
        "ba7816bf8f01cfea414140de5dae2223b00361a396177a9cb410ff61f20015ad"
    );
    assert_eq!(hash_content("").len(), 64);
}

#[test]
fn diff_counts_and_tags() {
    let d = generate_diff("a\nb\nc\n", "a\nx\nc\n");
    assert_eq!(d.stats.unchanged, 2);
    assert_eq!(d.stats.deletions, 1);
    assert_eq!(d.stats.additions, 1);
    assert_eq!(d.old_content, "a\nb\nc\n");
    assert_eq!(d.new_content, "a\nx\nc\n");
    let tags: Vec<&str> = d.changes.iter().map(|c| c.tag.as_str()).collect();
    assert_eq!(tags, vec!["equal", "delete", "insert", "equal"]);
    assert_eq!(d.changes[1].content, "b\n");
    assert_eq!(d.changes[1].old_start, Some(1));
    assert_eq!(d.changes[1].old_end, Some(2));
    assert_eq!(d.changes[1].new_start, None);
}

#[test]
fn diff_with_current_equals_generate_diff() {
    let a = diff_with_current("x\n", "y\n");
    let b = generate_diff("x\n", "y\n");
    assert_eq!(a.stats.additions, b.stats.additions);
    assert_eq!(a.stats.deletions, b.stats.deletions);
    assert_eq!(a.changes.len(), b.changes.len());
}

#[test]
fn identical_content_diffs_to_equals_only() {
    let d = generate_diff("same\n", "same\n");
    assert_eq!(d.stats.additions, 0);
    assert_eq!(d.stats.deletions, 0);
    assert_eq!(d.stats.unchanged, 1);
}

#[test]
fn structured_diff_numbers_lines_per_side() {
    let d = build_structured_diff("main.tex", "a\nb\n", "a\nc\n");
    assert_eq!(d.file_path, "main.tex");
    assert_eq!(d.stats.additions, 1);
    assert_eq!(d.stats.deletions, 1);
    assert_eq!(d.lines.len(), 3);
    assert_eq!(d.lines[0].line_type, "context");
    assert_eq!(d.lines[0].old_line_no, Some(1));
    assert_eq!(d.lines[0].new_line_no, Some(1));
    assert_eq!(d.lines[0].content, "a");
    assert_eq!(d.lines[1].line_type, "delete");
    assert_eq!(d.lines[1].old_line_no, Some(2));
    assert_eq!(d.lines[1].new_line_no, None);
    assert_eq!(d.lines[2].line_type, "add");
    assert_eq!(d.lines[2].new_line_no, Some(2));
}

#[test]
fn identifier_validation() {
    assert!(validate_identifier("resources", None));
    assert!(validate_identifier("file_history", Some("content_hash")));
    assert!(!validate_identifier("resources; DROP TABLE x", None));
    assert!(!validate_identifier("resources", Some("a-b")));
    assert!(validate_identifier("", None));
}

#[test]
fn fresh_metadata_is_unset() {
    let f = FileMetadata::new();
    assert!(f.file_type_id.is_none());
    assert!(f.difficulty.is_none());
    assert!(f.chapters.is_none());
    assert!(f.bib_entries.is_none());
    let d = DocumentMetadata::new();
    assert!(d.title.is_none());
    assert!(d.included_files.is_none());
    let f2: FileMetadata = Default::default();
    assert!(f2.custom_tags.is_none());
    let d2: DocumentMetadata = Default::default();
    assert!(d2.needs_update.is_none());
}

fn pkg(id: &str, name: &str, caption: &str, topics: Vec<&str>) -> CTANPackage {
    CTANPackage {
        id: id.to_owned(),
        name: name.to_owned(),
        caption: caption.to_owned(),
        version: "1.0".to_owned(),
        topics: if topics.is_empty() {
            None
        } else {
            Some(
                topics
                    .into_iter()
                    .map(|k| CTANTopic { details: String::new(), key: k.to_owned() })
                    .collect(),
            )
        },
        home: None,
        ctan: None,
    }
}

#[test]
fn package_filter_is_case_folded_and_counts_all_matches() {
    let db = PackageDatabase::new(vec![
        pkg("amsmath", "AMSmath", "Mathematical facilities", vec!["maths"]),
        pkg("tikz", "TikZ", "Drawing", vec!["graphics"]),
        pkg("mathtools", "mathtools", "Extends amsmath", vec!["maths"]),
    ]);
    let r = get_packages(&db, Some("MATH".to_owned()), None, None, None);
    assert_eq!(r.total, 2);
    assert_eq!(r.packages.len(), 2);
    assert_eq!(r.packages[0].name, "AMSmath");
    assert_eq!(r.packages[1].name, "mathtools");

    let r = get_packages(&db, None, Some("graphics".to_owned()), None, None);
    assert_eq!(r.total, 1);
    assert_eq!(r.packages[0].id, "tikz");

    let r = get_packages(&db, Some("math".to_owned()), Some("graphics".to_owned()), None, None);
    assert_eq!(r.total, 0);
    assert!(r.packages.is_empty());
}

#[test]
fn package_pagination_windows_the_matches() {
    let db = PackageDatabase::new(
        (0..5).map(|i| pkg(&format!("p{}", i), &format!("p{}", i), "", vec![])).collect(),
    );
    let r = get_packages(&db, None, None, Some(2), Some(1));
    assert_eq!(r.total, 5);
    assert_eq!(r.packages.len(), 2);
    assert_eq!(r.packages[0].id, "p1");
    assert_eq!(r.packages[1].id, "p2");
    let r = get_packages(&db, None, None, Some(10), Some(4));
    assert_eq!(r.packages.len(), 1);
    let r = get_packages(&db, None, None, Some(10), Some(9));
    assert!(r.packages.is_empty());
}

#[test]
fn topics_are_distinct_and_sorted() {
    let db = PackageDatabase::new(vec![
        pkg("a", "a", "", vec!["maths", "graphics"]),
        pkg("b", "b", "", vec!["graphics", "bibliography"]),
        pkg("c", "c", "", vec![]),
    ]);
    let topics = texagent::ctan::get_all_topics(&db);
    let keys: Vec<&str> = topics.iter().map(|t| t.key.as_str()).collect();
    assert_eq!(keys, vec!["bibliography", "graphics", "maths"]);
}

#[test]
fn package_lookup_by_id_is_case_folded() {
    let db = PackageDatabase::new(vec![pkg("TikZ-id", "TikZ", "", vec![])]);
    let i = get_package_by_id(&db, "tikz-ID").unwrap();
    assert_eq!(db.packages[i].name, "TikZ");
    assert!(get_package_by_id(&db, "none").is_none());
}

#[test]
fn json_parser_reads_numbers_as_tokens() {
    let j = parse_json("{\"a\":1.5,\"b\":[true,null,\"s\"]}").unwrap();
    match j.get("a") {
        Some(Json::Num(n)) => assert_eq!(n, "1.5"),
        _ => panic!("expected a number token"),
    }
    match j.get("b") {
        Some(Json::Arr(items)) => {
            assert!(matches!(items[0], Json::Bool(true)));
            assert!(matches!(items[1], Json::Null));
            assert!(matches!(&items[2], Json::Str(s) if s == "s"));
        }
        _ => panic!("expected an array"),
    }
    assert!(parse_json("{oops").is_err());
}
