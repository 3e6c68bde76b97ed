use texagent::compiler::is_allowed_engine;

#[test]
fn test_is_allowed_engine_simple() {
    assert!(is_allowed_engine("pdflatex"));
    assert!(is_allowed_engine("xelatex"));
    assert!(is_allowed_engine("lualatex"));
    assert!(is_allowed_engine("latexmk"));
}

#[test]
fn test_is_allowed_engine_with_paths() {
    assert!(is_allowed_engine("/usr/local/bin/pdflatex"));
    assert!(is_allowed_engine("C:\\texlive\\bin\\pdflatex.exe"));
}

#[test]
fn engine_case_insensitive() {
    assert!(is_allowed_engine("PDFLATEX"));
    assert!(is_allowed_engine("XeLaTeX"));
}

#[test]
fn engine_rejects_others() {
    assert!(!is_allowed_engine("rm"));
    assert!(!is_allowed_engine("/bin/sh"));
    assert!(!is_allowed_engine(""));
    assert!(!is_allowed_engine("pdflatex2"));
    assert!(!is_allowed_engine("mylatexmk"));
}

#[test]
fn engine_stem_strips_extension_only_after_name() {
    assert!(is_allowed_engine("pdflatex.exe"));
    assert!(!is_allowed_engine(".pdflatex"));
}
