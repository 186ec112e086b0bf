use yinc::directive::Source;
use yinc::document::Document;
use yinc::engine::{Resolution, Step};
use yinc::error::YincError;
use yinc::shell::ShellExecutor;

fn s(x: &str) -> Document {
    Document::Str(x.to_string())
}

fn num(x: &str) -> Document {
    Document::Number(x.to_string())
}

fn map(entries: Vec<(&str, Document)>) -> Document {
    Document::Mapping(entries.into_iter().map(|(k, v)| (s(k), v)).collect())
}

fn tagged(tag: &str, text: &str) -> Document {
    Document::Tagged(tag.to_string(), Box::new(s(text)))
}

fn directive(text: &str) -> Document {
    tagged("!include", text)
}

/// Drives a pass to its end, answering each request with `answer`, and
/// records every request.
fn run(
    doc: Document,
    mut answer: impl FnMut(&Source) -> Result<Document, YincError>,
) -> (Result<Document, YincError>, Vec<String>) {
    let mut r = Resolution::new(doc, "!include".to_string(), "/root/dir".to_string());
    let mut asked = Vec::new();
    loop {
        match r.step() {
            Step::Continue => {}
            Step::Fetch(src) => {
                asked.push(format!("{:?}", src));
                assert_eq!(r.base_dir, "/root/dir");
                match answer(&src) {
                    Ok(d) => r.supply(d),
                    Err(e) => return (Err(e), asked),
                }
            }
            Step::Fail(e) => return (Err(e), asked),
            Step::Done => {
                assert_eq!(r.base_dir, "/root/dir");
                return (Ok(r.doc), asked);
            }
        }
    }
}

fn at<'a>(d: &'a Document, keys: &[&str]) -> &'a Document {
    let mut cur = d;
    for k in keys {
        cur = cur.get(k).unwrap_or_else(|| panic!("no key {}", k));
    }
    cur
}

fn text_of(d: &Document) -> String {
    match d {
        Document::Str(t) | Document::Number(t) => t.clone(),
        other => panic!("not a scalar: {:?}", other),
    }
}

#[test]
fn plain_document_comes_back_unchanged() {
    let make = || {
        map(vec![
            ("test", s("data")),
            ("value", num("123")),
            ("list", Document::Sequence(vec![s("item1"), s("item2")])),
            ("other", tagged("!custom", "x")),
            ("flag", Document::Bool(true)),
            ("none", Document::Null),
        ])
    };
    let (r, asked) = run(make(), |_| panic!("nothing to fetch"));
    assert!(asked.is_empty());
    assert_eq!(format!("{:?}", r.unwrap()), format!("{:?}", make()));
}

#[test]
fn single_directive_is_replaced() {
    let doc = map(vec![
        ("common", map(vec![("settings", directive("child.yml"))])),
        ("data", map(vec![("value", num("42"))])),
    ]);
    let (r, asked) = run(doc, |src| match src {
        Source::File(p) if p == "child.yml" => Ok(map(vec![
            ("debug", Document::Bool(true)),
            ("timeout", num("30")),
        ])),
        other => panic!("unexpected {:?}", other),
    });
    let out = r.unwrap();
    assert_eq!(asked.len(), 1);
    assert_eq!(text_of(at(&out, &["common", "settings", "timeout"])), "30");
    assert_eq!(text_of(at(&out, &["data", "value"])), "42");
}

#[test]
fn three_level_chain_is_resolved() {
    let a = map(vec![("a", num("1")), ("next", directive("b.yml"))]);
    let (r, asked) = run(a, |src| match src {
        Source::File(p) if p == "b.yml" => Ok(map(vec![("b", num("2")), ("next", directive("c.yml"))])),
        Source::File(p) if p == "c.yml" => Ok(map(vec![("c", num("3"))])),
        other => panic!("unexpected {:?}", other),
    });
    let out = r.unwrap();
    assert_eq!(asked.len(), 2);
    assert_eq!(text_of(at(&out, &["a"])), "1");
    assert_eq!(text_of(at(&out, &["next", "b"])), "2");
    assert_eq!(text_of(at(&out, &["next", "next", "c"])), "3");
}

#[test]
fn glob_content_is_a_sequence_of_both_files() {
    let doc = map(vec![("services", directive("configs/*.yml"))]);
    let (r, _) = run(doc, |src| match src {
        Source::Glob(p) if p == "configs/*.yml" => Ok(Document::Sequence(vec![
            map(vec![("name", s("service1")), ("port", num("8080"))]),
            map(vec![("name", s("service2")), ("port", num("8081"))]),
        ])),
        other => panic!("unexpected {:?}", other),
    });
    match at(&r.unwrap(), &["services"]) {
        Document::Sequence(items) => {
            assert_eq!(items.len(), 2);
            assert_eq!(text_of(at(&items[0], &["name"])), "service1");
            assert_eq!(text_of(at(&items[1], &["port"])), "8081");
        }
        other => panic!("not a sequence: {:?}", other),
    }
}

#[test]
fn json_content_becomes_a_mapping() {
    let doc = map(vec![("configuration", directive("$(json data.json)")), ("name", s("test-app"))]);
    let (r, _) = run(doc, |src| match src {
        Source::Json(p) if p == "data.json" => Ok(map(vec![
            ("a", num("1")),
            ("b", Document::Sequence(vec![Document::Bool(true), Document::Null])),
        ])),
        other => panic!("unexpected {:?}", other),
    });
    let out = r.unwrap();
    assert_eq!(text_of(at(&out, &["configuration", "a"])), "1");
    match at(&out, &["configuration", "b"]) {
        Document::Sequence(items) => {
            assert!(matches!(items[0], Document::Bool(true)));
            assert!(matches!(items[1], Document::Null));
            assert_eq!(items.len(), 2);
        }
        other => panic!("not a sequence: {:?}", other),
    }
    assert_eq!(text_of(at(&out, &["name"])), "test-app");
}

#[test]
fn shell_output_is_substituted() {
    let doc = map(vec![("timestamp", directive("$(shell echo \"2024-01-01\")"))]);
    let (r, asked) = run(doc, |src| match src {
        Source::Shell(c) if c == "echo \"2024-01-01\"" => {
            let out = ShellExecutor::outcome(true, &b"2024-01-01\n".to_vec(), &Vec::new())?;
            Ok(s(out.trim()))
        }
        other => panic!("unexpected {:?}", other),
    });
    assert_eq!(asked.len(), 1);
    assert_eq!(text_of(at(&r.unwrap(), &["timestamp"])), "2024-01-01");
}

#[test]
fn shell_failure_ends_the_pass() {
    let doc = map(vec![
        ("x", directive("$(shell exit 1)")),
        ("y", directive("never.yml")),
    ]);
    let (r, asked) = run(doc, |src| match src {
        Source::Shell(_) => {
            ShellExecutor::outcome(false, &Vec::new(), &b"boom".to_vec()).map(|o| s(&o))
        }
        other => panic!("unexpected {:?}", other),
    });
    assert_eq!(asked.len(), 1);
    match r.unwrap_err() {
        YincError::Shell(m) => assert!(m.contains("boom")),
        other => panic!("unexpected {:?}", other),
    }
}

#[test]
fn unknown_wrapped_form_ends_the_pass() {
    let doc = map(vec![("x", directive("$(frobnicate a)"))]);
    let (r, asked) = run(doc, |_| panic!("nothing to fetch"));
    assert!(asked.is_empty());
    match r.unwrap_err() {
        YincError::Parse(m) => assert_eq!(m, "Unknown directive: $(frobnicate a)"),
        other => panic!("unexpected {:?}", other),
    }
}

#[test]
fn every_relative_path_is_asked_for_as_written() {
    let doc = map(vec![("first", directive("a/x.yml")), ("second", directive("b/y.yml"))]);
    let (r, asked) = run(doc, |src| match src {
        Source::File(p) if p == "a/x.yml" => Ok(map(vec![("inner", directive("common.yml"))])),
        Source::File(p) if p == "b/y.yml" => Ok(map(vec![("inner", directive("common.yml"))])),
        Source::File(p) if p == "common.yml" => Ok(map(vec![("root", Document::Bool(true))])),
        other => panic!("unexpected {:?}", other),
    });
    let out = r.unwrap();
    assert_eq!(
        asked,
        vec![
            "File(\"a/x.yml\")",
            "File(\"b/y.yml\")",
            "File(\"common.yml\")",
            "File(\"common.yml\")",
        ]
    );
    assert!(matches!(at(&out, &["first", "inner", "root"]), Document::Bool(true)));
    assert!(matches!(at(&out, &["second", "inner", "root"]), Document::Bool(true)));
}

#[test]
fn entries_are_looked_at_before_children_are_visited() {
    let doc = map(vec![
        ("nested", map(vec![("deep", directive("deep.yml"))])),
        ("one", directive("one.yml")),
        ("two", directive("two.yml")),
    ]);
    let (r, asked) = run(doc, |src| match src {
        Source::File(p) => Ok(s(p)),
        other => panic!("unexpected {:?}", other),
    });
    assert!(r.is_ok());
    assert_eq!(asked, vec!["File(\"one.yml\")", "File(\"two.yml\")", "File(\"deep.yml\")"]);
}

#[test]
fn directives_outside_mapping_values_stay() {
    let doc = map(vec![
        ("list", Document::Sequence(vec![directive("x.yml")])),
        ("other_tag", tagged("!replace", "y.yml")),
        ("number", Document::Tagged("!include".to_string(), Box::new(num("5")))),
    ]);
    let (r, asked) = run(doc, |_| panic!("nothing to fetch"));
    assert!(asked.is_empty());
    let out = r.unwrap();
    assert!(matches!(at(&out, &["other_tag"]), Document::Tagged(..)));
}

#[test]
fn missing_file_names_the_path() {
    let doc = map(vec![("data", directive("non_existent.yml"))]);
    let (r, _) = run(doc, |src| match src {
        Source::File(p) => yinc::resolver::Resolver::resolve_path(format!("/root/dir/{}", p), false)
            .map(|_| Document::Null),
        other => panic!("unexpected {:?}", other),
    });
    let e = r.unwrap_err();
    assert_eq!(e.to_string(), "Include error: File not found: /root/dir/non_existent.yml");
}

#[test]
fn supply_without_a_request_changes_nothing() {
    let mut r = Resolution::new(map(vec![("k", s("v"))]), "!include".to_string(), ".".to_string());
    r.supply(s("ignored"));
    assert_eq!(text_of(at(&r.doc, &["k"])), "v");
    assert!(matches!(r.step(), Step::Continue));
    assert!(matches!(r.step(), Step::Continue));
    assert!(matches!(r.step(), Step::Continue));
    assert!(matches!(r.step(), Step::Done));
}

#[test]
fn get_finds_the_first_matching_key() {
    let d = Document::Mapping(vec![(num("1"), s("n")), (s("a"), s("first")), (s("a"), s("second"))]);
    assert_eq!(text_of(d.get("a").unwrap()), "first");
    assert!(d.get("1").is_none());
    assert!(d.get("").is_none());
    assert!(s("a").get("a").is_none());
}
