use nyx_scanner::ext::{extension, file_name, language_of, lowercase_ext};
use std::path::Path;
use nyx_scanner::labels::{
    classify, lookup, Cap, DataLabel, Kind, ALL_CAPS, ENV_VAR, FILE_IO, HTML_ESCAPE, JSON_PARSE,
    SHELL_ESCAPE, URL_ENCODE,
};
use nyx_scanner::project::{get_project_info, sanitize_project_name, squeeze_name};
use nyx_scanner::errors::NyxError;
use nyx_scanner::text::{chars_of, head_chars, sort_dedup, str_eq, place_of_text, Place};

#[test]
fn capability_alphabet_has_six_bits() {
    assert_eq!(ENV_VAR | HTML_ESCAPE | SHELL_ESCAPE | URL_ENCODE | JSON_PARSE | FILE_IO, ALL_CAPS);
    assert_eq!(Cap::all().bits(), 0x3f);
    assert!(Cap::empty().is_empty());
    assert_eq!(Cap::from_bits(0x05).union(Cap::from_bits(0x06)).bits(), 0x07);
    assert_eq!(Cap::from_bits(0x05).intersection(Cap::from_bits(0x06)).bits(), 0x04);
    assert_eq!(Cap::from_bits(0x05).complement().bits(), 0x3a);
    assert_eq!(Cap::from_bits(0x07).difference(Cap::from_bits(0x02)).bits(), 0x05);
    assert!(Cap::from_bits(0x04).intersects(Cap::from_bits(0x06)));
    assert!(!Cap::from_bits(0x01).intersects(Cap::from_bits(0x06)));
}

#[test]
fn lookup_maps_raw_kinds_and_is_total() {
    assert_eq!(lookup("rust", "if_expression"), Kind::If);
    assert_eq!(lookup("rs", "loop_expression"), Kind::InfiniteLoop);
    assert_eq!(lookup("rust", "while_statement"), Kind::While);
    assert_eq!(lookup("rust", "for_statement"), Kind::For);
    assert_eq!(lookup("rust", "loop_statement"), Kind::LoopBody);
    assert_eq!(lookup("rust", "return_statement"), Kind::Return);
    assert_eq!(lookup("rust", "break_expression"), Kind::Break);
    assert_eq!(lookup("rust", "continue_statement"), Kind::Continue);
    assert_eq!(lookup("rust", "source_file"), Kind::SourceFile);
    assert_eq!(lookup("rust", "block"), Kind::Block);
    assert_eq!(lookup("rust", "function_item"), Kind::Function);
    assert_eq!(lookup("rust", "call_expression"), Kind::CallFn);
    assert_eq!(lookup("rust", "method_call_expression"), Kind::CallMethod);
    assert_eq!(lookup("rust", "macro_invocation"), Kind::CallMacro);
    assert_eq!(lookup("rust", "let_declaration"), Kind::CallWrapper);
    assert_eq!(lookup("rust", "expression_statement"), Kind::CallWrapper);
    assert_eq!(lookup("rust", "assignment_expression"), Kind::Assignment);
    assert_eq!(lookup("rust", "line_comment"), Kind::Trivia);
    assert_eq!(lookup("rust", ";"), Kind::Trivia);
    assert_eq!(lookup("rust", "\n"), Kind::Trivia);
    assert_eq!(lookup("rust", "while_expression"), Kind::Other);
    assert_eq!(lookup("rust", ""), Kind::Other);
    // the language key of `lookup` is taken as it is written
    assert_eq!(lookup("RUST", "if_expression"), Kind::Other);
    assert_eq!(lookup("javascript", "if_expression"), Kind::Other);
}

#[test]
fn classify_takes_the_head_and_the_first_rule() {
    let all = Cap::all();
    assert_eq!(classify("rust", "env::var(\"X\").unwrap"), Some(DataLabel::Source(all)));
    assert_eq!(classify("RUST", "std::env::var"), Some(DataLabel::Source(all)));
    assert_eq!(classify("rs", "  Std::Env::Var  (x)"), Some(DataLabel::Source(all)));
    assert_eq!(classify("rust", "fs::read_to_string(p)"), Some(DataLabel::Source(all)));
    assert_eq!(
        classify("rust", "html_escape::encode_safe(&x)"),
        Some(DataLabel::Sanitizer(Cap::from_bits(HTML_ESCAPE)))
    );
    assert_eq!(
        classify("rust", "shell_escape::unix::escape(x)"),
        Some(DataLabel::Sanitizer(Cap::from_bits(SHELL_ESCAPE)))
    );
    // a family matcher accepts every head that begins with it, and the
    // first rule in order wins
    assert_eq!(
        classify("rust", "sanitize_shell(x)"),
        Some(DataLabel::Sanitizer(Cap::from_bits(HTML_ESCAPE)))
    );
    assert_eq!(
        classify("rust", "sanitize_anything"),
        Some(DataLabel::Sanitizer(Cap::from_bits(HTML_ESCAPE)))
    );
    assert_eq!(
        classify("rust", "Command::new(\"sh\").arg"),
        Some(DataLabel::Sink(Cap::from_bits(SHELL_ESCAPE)))
    );
    assert_eq!(
        classify("rust", "println"),
        Some(DataLabel::Sink(Cap::from_bits(HTML_ESCAPE)))
    );
    assert_eq!(
        classify("js", "JSON.parse(s)"),
        Some(DataLabel::Sanitizer(Cap::from_bits(JSON_PARSE)))
    );
    assert_eq!(
        classify("javascript", "window.eval"),
        Some(DataLabel::Sink(Cap::from_bits(SHELL_ESCAPE)))
    );
}

#[test]
fn classify_wants_a_segment_boundary_before_the_match() {
    // the match ends the head but follows a letter
    assert_eq!(classify("rust", "myenv::var(x)"), None);
    assert_eq!(classify("rust", "xprintln"), None);
    assert_eq!(classify("javascript", "medieval"), None);
    // the match follows `.` or `:`
    assert!(classify("rust", "a.println").is_some());
    assert!(classify("rust", "a:println").is_some());
    // the head ends at the first `<` too
    assert!(classify("rust", "env::var<T>(x)").is_some());
    // no rule, or no language
    assert_eq!(classify("rust", "do_something()"), None);
    assert_eq!(classify("rust", ""), None);
    assert_eq!(classify("brainfuck", "env::var"), None);
}

#[test]
fn head_is_cut_trimmed_and_lowered() {
    assert_eq!(head_chars("  Foo::Bar (x) "), chars_of("foo::bar"));
    assert_eq!(head_chars("\u{2003}A\u{00A0}"), chars_of("a"));
    assert_eq!(head_chars("<T>x"), chars_of(""));
    assert_eq!(head_chars("ÄB"), chars_of("Äb"));
}

#[test]
fn texts_are_compared_and_ordered_by_their_bytes() {
    assert!(str_eq("abc", "abc"));
    assert!(!str_eq("abc", "abd"));
    assert!(!str_eq("abc", "ab"));
    assert_eq!(place_of_text("a", "b"), Place::Before);
    assert_eq!(place_of_text("b", "a"), Place::After);
    assert_eq!(place_of_text("ab", "ab"), Place::Same);
    assert_eq!(place_of_text("ab", "abc"), Place::Before);
    assert_eq!(place_of_text("", "a"), Place::Before);
    assert_eq!(place_of_text("Z", "a"), Place::Before);
    assert_eq!(place_of_text("é", "z"), Place::After);
}

#[test]
fn sort_dedup_orders_and_drops_repetitions() {
    let names: Vec<String> = vec!["rs".into(), "toml".into(), "jpg".into(), "rs".into(), "a".into()];
    assert_eq!(sort_dedup(&names), vec!["a", "jpg", "rs", "toml"]);
    let none: Vec<String> = Vec::new();
    assert!(sort_dedup(&none).is_empty());
}

#[test]
fn extensions_follow_the_last_dot_of_the_file_name() {
    assert_eq!(extension("a/b/file.tar.gz"), Some("gz".to_string()));
    assert_eq!(extension("a.d/file"), None);
    assert_eq!(extension(".hidden"), None);
    assert_eq!(extension("dir/.hidden.rs"), Some("rs".to_string()));
    assert_eq!(extension("file."), Some("".to_string()));
    assert_eq!(extension(""), None);
}

#[test]
fn file_names_are_the_last_component_of_a_path() {
    let name = |p: &str| file_name(p).into_iter().collect::<String>();
    assert_eq!(name("a/b/file.rs"), "file.rs");
    assert_eq!(name("a/b/"), "b");
    assert_eq!(name("a/b/."), "b");
    assert_eq!(name("a/b/.//"), "b");
    assert_eq!(name("a/b/.."), "");
    assert_eq!(name("a/..b"), "..b");
    assert_eq!(name("..."), "...");
    assert_eq!(name("/"), "");
    assert_eq!(name("."), "");
    assert_eq!(name("./"), "");
    assert_eq!(name(""), "");
    assert_eq!(extension("a/b.rs/"), Some("rs".to_string()));
    assert_eq!(extension("a/b.rs/."), Some("rs".to_string()));
    assert_eq!(extension("a/b.rs/.."), None);
}

#[test]
fn file_names_and_extensions_are_those_of_a_path_with_slashes() {
    if std::path::MAIN_SEPARATOR != '/' {
        return;
    }
    let paths = [
        "", ".", "..", "/", "//", "./", "./.", "/.", "a", "a/", "a//", "a/.", "a/./", "a/..",
        "a/../", "a/b", "/a/b.rs", "a.b/c", "a.b/c.", ".a", ".a.b", "a/.b", "..a", "a..", "...",
        "a/./b", "./a", "../a", "a/b/./.", "a/b.tar.gz/", "x.RS", "a/.../", "a/. /", "a/.x/.",
    ];
    for p in paths {
        let want = Path::new(p).file_name().map(|n| n.to_str().unwrap().to_string());
        let got: String = file_name(p).into_iter().collect();
        assert_eq!(if got.is_empty() { None } else { Some(got) }, want, "file name of {:?}", p);
        let want = Path::new(p).extension().map(|n| n.to_str().unwrap().to_string());
        assert_eq!(extension(p), want, "extension of {:?}", p);
    }
}

#[test]
fn extensions_are_matched_whatever_their_case() {
    assert_eq!(lowercase_ext("a/b/Main.Rs"), Some("rs"));
    assert_eq!(lowercase_ext("x.CPP"), Some("cpp"));
    assert_eq!(lowercase_ext("x.c++"), Some("cpp"));
    assert_eq!(lowercase_ext("x.c"), Some("c"));
    assert_eq!(lowercase_ext("x.java"), Some("java"));
    assert_eq!(lowercase_ext("x.go"), Some("go"));
    assert_eq!(lowercase_ext("x.php"), Some("php"));
    assert_eq!(lowercase_ext("x.ts"), Some("ts"));
    assert_eq!(lowercase_ext("x.js"), Some("js"));
    assert_eq!(lowercase_ext("x.rb"), Some("rb"));
    assert_eq!(lowercase_ext("rs"), None);
    assert_eq!(lowercase_ext(".rs"), None);
    assert_eq!(lowercase_ext("x.rs/y"), None);
}

#[test]
fn every_canonical_extension_has_its_language() {
    assert_eq!(language_of("rs"), Some("rust"));
    assert_eq!(language_of("c"), Some("c"));
    assert_eq!(language_of("cpp"), Some("cpp"));
    assert_eq!(language_of("java"), Some("java"));
    assert_eq!(language_of("go"), Some("go"));
    assert_eq!(language_of("php"), Some("php"));
    assert_eq!(language_of("py"), Some("python"));
    assert_eq!(language_of("ts"), Some("typescript"));
    assert_eq!(language_of("js"), Some("javascript"));
    assert_eq!(language_of("rb"), Some("ruby"));
    assert_eq!(language_of("tsx"), None);
}

#[test]
fn project_names_lose_runs_and_ends_of_underscores() {
    assert_eq!(sanitize_project_name("__a__b__"), "a_b");
    assert_eq!(sanitize_project_name("ÄÖ Ü"), "äö_ü");
    assert_eq!(sanitize_project_name("a-b_c"), "a_b_c");
    assert_eq!(sanitize_project_name("@@@"), "");
    assert_eq!(sanitize_project_name(""), "");
    let chars: Vec<char> = "a?b".chars().collect();
    assert_eq!(squeeze_name(&chars, &vec![true, false, true]), "a_b");
    assert_eq!(squeeze_name(&chars, &vec![false, false, false]), "");
    assert_eq!(squeeze_name(&chars, &vec![false, true, true]), "?b");
}

#[test]
fn project_info_names_the_cache_after_the_sanitized_name() {
    let (name, db) = get_project_info("/home/u/Example Project", "/data").unwrap();
    assert_eq!(name, "Example Project");
    assert_eq!(db, "/data/example_project.sqlite");
    let (_, db) = get_project_info("proj", "/data/").unwrap();
    assert_eq!(db, "/data/proj.sqlite");
    let (_, db) = get_project_info("proj", "").unwrap();
    assert_eq!(db, "proj.sqlite");
    let (name, db) = get_project_info("/home/u/", "/data").unwrap();
    assert_eq!(name, "u");
    assert_eq!(db, "/data/u.sqlite");
    let (name, _) = get_project_info("/home/My-App/./", "/data").unwrap();
    assert_eq!(name, "My-App");
    for path in ["/home/u/..", "..", ".", "/", "", "./", "//"] {
        let err = get_project_info(path, "/data").unwrap_err();
        assert!(
            matches!(err, NyxError::Other(ref m) if m == "Unable to determine project name"),
            "path: {}",
            path
        );
    }
}

#[test]
fn get_project_info_uses_sanitized_name_in_sqlite_path() {
    let root = "/tmp/projects";
    let project_dir = format!("{}/{}", root, "Example Project");

    let (project_name, db_path) =
        get_project_info(&project_dir, root).expect("should detect project");

    assert_eq!(project_name, "Example Project");
    assert_eq!(db_path, format!("{}/{}", root, "example_project.sqlite"));
}
