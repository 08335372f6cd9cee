use script_list::manifest::{manifest_from_members, parse_manifest, scripts_from_members};
use script_list::order::{name_lt, sort_by_name};
use script_list::render::{
    decimal_text, pad_name, render, shorten_command, table, Line, OutputFormat, Style,
};
use script_list::run::{list_scripts, load, missing_manifest_notice, Config, ReadOutcome};
use script_list::select::{contains_folded, filter_entries, name_matches, select};
use std::collections::BTreeMap;

fn pairs(items: &[(&str, &str)]) -> Vec<(String, String)> {
    items.iter().map(|(a, b)| (a.to_string(), b.to_string())).collect()
}

fn texts(lines: &[Line]) -> Vec<String> {
    lines.iter().map(|l| l.text.clone()).collect()
}

fn config(filter: Option<&str>, format: OutputFormat, names_only: bool) -> Config {
    Config {
        path: None,
        names_only,
        filter: filter.map(|f| f.to_string()),
        format,
    }
}

#[test]
fn test_read_package_json() {
    let json = r#"{
            "name": "test",
            "scripts": {
                "build": "cargo build",
                "test": "cargo test"
            }
        }"#;

    let package = parse_manifest(json).ok().unwrap();
    assert_eq!(package.name, Some("test".to_string()));
    assert_eq!(package.scripts.len(), 2);
}

#[test]
fn scripts_round_trip_through_decoder() {
    let m = parse_manifest(r#"{"scripts":{"test":"jest","build":"tsc --watch","x y":"a \"q\""}}"#)
        .ok()
        .unwrap();
    let got: BTreeMap<String, String> = m.scripts.into_iter().collect();
    let want: BTreeMap<String, String> =
        pairs(&[("test", "jest"), ("build", "tsc --watch"), ("x y", "a \"q\"")])
            .into_iter()
            .collect();
    assert_eq!(got, want);
    assert_eq!(m.name, None);
    assert_eq!(m.description, None);
}

#[test]
fn missing_scripts_field_is_empty() {
    let m = parse_manifest(r#"{"name":"app","description":"d","version":"1.0.0"}"#).ok().unwrap();
    assert_eq!(m.name, Some("app".to_string()));
    assert_eq!(m.description, Some("d".to_string()));
    assert!(m.scripts.is_empty());
    assert!(m.has_no_scripts());
}

#[test]
fn null_name_is_absent() {
    let m = parse_manifest(r#"{"name":null,"scripts":{"a":"b"}}"#).ok().unwrap();
    assert_eq!(m.name, None);
    assert_eq!(m.scripts, pairs(&[("a", "b")]));
}

#[test]
fn invalid_json_is_a_parse_error() {
    assert!(parse_manifest("{ not json").is_err());
    assert!(parse_manifest("").is_err());
}

#[test]
fn wrong_shapes_are_parse_errors() {
    assert!(parse_manifest("[1, 2]").is_err());
    assert!(parse_manifest(r#"{"name": 3}"#).is_err());
    assert!(parse_manifest(r#"{"description": [true]}"#).is_err());
    assert!(parse_manifest(r#"{"scripts": null}"#).is_err());
    assert!(parse_manifest(r#"{"scripts": {"a": 1}}"#).is_err());
    assert!(parse_manifest(r#"{"scripts": {"a": null}}"#).is_err());
    assert!(parse_manifest(r#"{"scripts": ["a"]}"#).is_err());
}

#[test]
fn name_order_is_ordinal() {
    assert!(name_lt("build", "test"));
    assert!(!name_lt("test", "build"));
    assert!(name_lt("Zeta", "alpha"));
    assert!(name_lt("pre", "prebuild"));
    assert!(!name_lt("same", "same"));
}

#[test]
fn sort_orders_by_name() {
    let mut v = pairs(&[("test", "1"), ("build", "2"), ("Lint", "3"), ("build:dev", "4")]);
    sort_by_name(&mut v);
    assert_eq!(
        v,
        pairs(&[("Lint", "3"), ("build", "2"), ("build:dev", "4"), ("test", "1")])
    );
}

#[test]
fn sort_is_idempotent() {
    let mut v = pairs(&[("c", "3"), ("a", "1"), ("b", "2")]);
    sort_by_name(&mut v);
    let once = v.clone();
    sort_by_name(&mut v);
    assert_eq!(v, once);
    let mut empty: Vec<(String, String)> = Vec::new();
    sort_by_name(&mut empty);
    assert!(empty.is_empty());
}

#[test]
fn filter_is_case_insensitive_substring() {
    assert!(name_matches("BUILD", "bui"));
    assert!(name_matches("rebuild", "BUI"));
    assert!(!name_matches("test", "bui"));
    assert!(name_matches("anything", ""));
    assert!(contains_folded("abc", "bc"));
    assert!(!contains_folded("abc", "BC"));
    assert!(!contains_folded("ab", "abc"));
    let v = pairs(&[("b", "1"), ("A", "2")]);
    assert_eq!(filter_entries(&v, Some("")), v);
    assert_eq!(filter_entries(&v, None), v);
}

#[test]
fn filter_bui_keeps_build_and_rebuild() {
    let v = pairs(&[("test", "z"), ("rebuild", "y"), ("build", "x")]);
    let sel = select(&v, Some("bui"));
    assert_eq!(sel, pairs(&[("build", "x"), ("rebuild", "y")]));
    let sel = select(&v, Some("BUI"));
    assert_eq!(sel, pairs(&[("build", "x"), ("rebuild", "y")]));
}

#[test]
fn list_scenario() {
    let m = parse_manifest(r#"{"scripts":{"build":"tsc","test":"jest"}}"#).ok().unwrap();
    let r = list_scripts(&config(None, OutputFormat::List, false), &m);
    assert_eq!(r.exit_code, 0);
    assert_eq!(texts(&r.out), vec!["build: tsc".to_string(), "test: jest".to_string()]);
    assert!(r.err.is_empty());
}

#[test]
fn empty_scripts_warns_and_succeeds() {
    let m = parse_manifest(r#"{"name":"x","scripts":{}}"#).ok().unwrap();
    for format in [OutputFormat::Table, OutputFormat::List, OutputFormat::Json] {
        let r = list_scripts(&config(None, format, false), &m);
        assert_eq!(r.exit_code, 0);
        assert!(r.out.is_empty());
        assert_eq!(r.err.len(), 1);
        assert_eq!(r.err[0].style, Style::Warning);
        assert!(r.err[0].text.contains("No scripts found"));
    }
}

#[test]
fn missing_file_gives_notice_and_status_one() {
    let r = load(ReadOutcome::NotFound, "package.json", "proj", "/home/u/proj");
    let report = match r {
        Err(rep) => rep,
        Ok(_) => panic!("a missing file must end the run"),
    };
    assert_eq!(report.exit_code, 1);
    assert!(report.out.is_empty());
    assert_eq!(
        texts(&report.err),
        vec!["", "proj", "", "No package.json file found:", "  /home/u/proj", ""]
    );
    assert_eq!(report.err[1].style, Style::Alert);
    assert_eq!(texts(&missing_manifest_notice("a", "/a")).len(), 6);
}

#[test]
fn read_and_parse_failures() {
    let r = load(ReadOutcome::Failed("permission denied".to_string()), "p.json", "d", "/d");
    let rep = match r {
        Err(rep) => rep,
        Ok(_) => panic!("expected a failure"),
    };
    assert_eq!(rep.exit_code, 1);
    assert_eq!(texts(&rep.err), vec!["Failed to read p.json: permission denied"]);
    let r = load(ReadOutcome::Loaded("{oops".to_string()), "p.json", "d", "/d");
    let rep = match r {
        Err(rep) => rep,
        Ok(_) => panic!("expected a failure"),
    };
    assert_eq!(rep.exit_code, 1);
    assert!(rep.err[0].text.starts_with("Failed to parse p.json as JSON: "));
    assert!(rep.err[0].text.len() > "Failed to parse p.json as JSON: ".len());
    let r = load(ReadOutcome::Loaded(r#"{"scripts":{"a":"b"}}"#.to_string()), "p", "d", "/d");
    assert!(r.is_ok());
}

#[test]
fn long_command_is_cut_in_table_only() {
    let long = "x".repeat(60);
    let m = parse_manifest(&format!(r#"{{"scripts":{{"dev":"{}"}}}}"#, long)).ok().unwrap();
    let cut = format!("{}...", "x".repeat(47));
    let t = list_scripts(&config(None, OutputFormat::Table, false), &m);
    assert!(t.out.iter().any(|l| l.text.ends_with(&cut)));
    assert!(!t.out.iter().any(|l| l.text.contains(&long)));
    let l = list_scripts(&config(None, OutputFormat::List, false), &m);
    assert_eq!(texts(&l.out), vec![format!("dev: {}", long)]);
    let j = list_scripts(&config(None, OutputFormat::Json, false), &m);
    assert!(j.out[0].text.contains(&long));
}

#[test]
fn shorten_and_pad_exact() {
    assert_eq!(shorten_command(&"a".repeat(50)), "a".repeat(50));
    assert_eq!(shorten_command(&"a".repeat(51)), format!("{}...", "a".repeat(47)));
    assert_eq!(shorten_command("é".repeat(51).as_str()), format!("{}...", "é".repeat(47)));
    assert_eq!(pad_name("ab", 5), "ab   ");
    assert_eq!(pad_name("abcdef", 3), "abcdef");
}

#[test]
fn decimal_digits() {
    assert_eq!(decimal_text(0), "0");
    assert_eq!(decimal_text(7), "7");
    assert_eq!(decimal_text(1204), "1204");
    assert_eq!(decimal_text(usize::MAX), usize::MAX.to_string());
}

#[test]
fn table_layout() {
    let v = pairs(&[("build", "tsc"), ("test", "jest")]);
    let lines = table(&v, &Some("app".to_string()), &None);
    let t = texts(&lines);
    assert_eq!(t[0], "");
    assert_eq!(t[1], "📦 app");
    assert_eq!(t[2], "");
    assert_eq!(t[3], "Script      Command");
    assert_eq!(t[4], "─".repeat(62));
    assert_eq!(t[5], "build       tsc");
    assert_eq!(t[6], "test        jest");
    assert_eq!(t[7], "");
    assert_eq!(t[8], "ℹ️ Found 2 script(s)");
    assert_eq!(t.len(), 9);
    let wide = pairs(&[("a-very-long-script-name", "c")]);
    let t = texts(&table(&wide, &None, &Some("about".to_string())));
    assert_eq!(t[1], "about");
    assert_eq!(t[3], format!("{}  Command", pad_name("Script", 23)));
    assert_eq!(t[4].chars().count(), 23 + 52);
    assert_eq!(t[5], "a-very-long-script-name  c");
}

#[test]
fn names_only_shows_names_in_every_format() {
    let m = parse_manifest(r#"{"name":"n","scripts":{"build":"tsc","test":"jest"}}"#).ok().unwrap();
    for format in [OutputFormat::Table, OutputFormat::List] {
        let r = list_scripts(&config(None, format, true), &m);
        assert_eq!(texts(&r.out), vec!["build".to_string(), "test".to_string()]);
    }
    let r = list_scripts(&config(None, OutputFormat::Json, true), &m);
    assert_eq!(r.exit_code, 0);
    let names: Vec<String> = serde_json::from_str(&r.out[0].text).unwrap();
    assert_eq!(names, vec!["build".to_string(), "test".to_string()]);
    assert!(!r.out[0].text.contains("tsc"));
    assert!(!r.out[0].text.contains("jest"));
}

#[test]
fn json_output_round_trips() {
    let m = parse_manifest(r#"{"scripts":{"test":"jest","build":"tsc","lint":"eslint \"src\""}}"#)
        .ok()
        .unwrap();
    let r = list_scripts(&config(Some("t"), OutputFormat::Json, false), &m);
    assert_eq!(r.exit_code, 0);
    assert_eq!(r.out.len(), 1);
    let back: BTreeMap<String, String> = serde_json::from_str(&r.out[0].text).unwrap();
    let want: BTreeMap<String, String> =
        pairs(&[("test", "jest"), ("lint", "eslint \"src\"")]).into_iter().collect();
    assert_eq!(back, want);
    let lint = r.out[0].text.find("\"lint\"").unwrap();
    let test = r.out[0].text.find("\"test\"").unwrap();
    assert!(lint < test);
}

#[test]
fn render_json_directly() {
    let v = pairs(&[("a", "1")]);
    let m = parse_manifest("{}").ok().unwrap();
    let r = render(OutputFormat::Json, &v, false, &m);
    assert_eq!(r[0].text, "{\n  \"a\": \"1\"\n}");
    let one = render(OutputFormat::Json, &pairs(&[("build", "tsc")]), false, &m);
    assert_eq!(texts(&one), vec!["{\n  \"build\": \"tsc\"\n}".to_string()]);
    let none = render(OutputFormat::Json, &Vec::new(), false, &m);
    assert_eq!(texts(&none), vec!["{}".to_string()]);
    let again = render(OutputFormat::Json, &pairs(&[("build", "tsc")]), false, &m);
    assert_eq!(texts(&again), texts(&one));
}

#[test]
fn empty_table_counts_zero() {
    let t = texts(&table(&Vec::new(), &None, &None));
    assert_eq!(t[2], "Script      Command");
    assert_eq!(t[3], "─".repeat(62));
    assert_eq!(t[4], "");
    assert_eq!(t[5], "ℹ️ Found 0 script(s)");
    assert_eq!(t.len(), 6);
}

#[test]
fn manifest_from_decoded_members() {
    let members = pairs(&[
        ("description", "\"tools\""),
        ("name", "null"),
        ("scripts", "{\"b\":\"2\",\"a\":\"1\"}"),
    ]);
    let m = manifest_from_members(&members).ok().unwrap();
    assert_eq!(m.name, None);
    assert_eq!(m.description, Some("tools".to_string()));
    assert_eq!(m.scripts, pairs(&[("a", "1"), ("b", "2")]));
    assert!(manifest_from_members(&pairs(&[("name", "7")])).is_err());
    assert!(manifest_from_members(&pairs(&[("scripts", "[]")])).is_err());
    let empty = manifest_from_members(&Vec::new()).ok().unwrap();
    assert!(empty.scripts.is_empty());
    let s = scripts_from_members(&pairs(&[("x", "\"run x\""), ("y", "\"a\\nb\"")])).ok().unwrap();
    assert_eq!(s, pairs(&[("x", "run x"), ("y", "a\nb")]));
    assert!(scripts_from_members(&pairs(&[("x", "1")])).is_err());
}

#[test]
fn config_default_path() {
    let c = config(None, OutputFormat::Table, false);
    assert_eq!(c.manifest_path(), "package.json");
    let c = Config { path: Some("x/p.json".to_string()), ..c };
    assert_eq!(c.manifest_path(), "x/p.json");
}
