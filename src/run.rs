//! One invocation of the lister: the decisions between reading the manifest
//! and writing the output, as functions from inputs to a report.
use vstd::prelude::*;
use vstd::string::*;
use crate::manifest::{manifest_of, parse_manifest, PackageJson};
use crate::order::{same_entries, sorted_by_name};
use crate::render::{lines_view, push_line, render, rendered, Line, OutputFormat, Style};
use crate::select::{filtered, select};

verus! {

/// The settings of one invocation.
pub struct Config {
    pub path: Option<String>,
    pub names_only: bool,
    pub filter: Option<String>,
    pub format: OutputFormat,
}

impl Config {
    /// The manifest's location: the given path, else `package.json`.
    pub fn manifest_path(&self) -> (r: String)
        ensures
            r@ == match self.path {
                Some(p) => p@,
                None => "package.json"@,
            },
    {
        match &self.path {
            Some(p) => p.clone(),
            None => String::from_str("package.json"),
        }
    }
}

/// What reading the manifest file gave.
pub enum ReadOutcome {
    Loaded(String),
    NotFound,
    Failed(String),
}

/// What to write and how to end: lines for standard output and standard
/// error, and the exit status.
pub struct Report {
    pub out: Vec<Line>,
    pub err: Vec<Line>,
    pub exit_code: u8,
}

/// The notice shown when there is no manifest: the working directory's name
/// and full path.
pub open spec fn notice_lines(dir_name: Seq<char>, dir_path: Seq<char>) -> Seq<(Style, Seq<char>)> {
    seq![
        (Style::Plain, Seq::<char>::empty()),
        (Style::Alert, dir_name),
        (Style::Plain, Seq::<char>::empty()),
        (Style::Muted, "No package.json file found:"@),
        (Style::Muted, "  "@ + dir_path),
        (Style::Plain, Seq::<char>::empty()),
    ]
}

/// The warning shown for a manifest without scripts.
pub open spec fn warning_lines() -> Seq<(Style, Seq<char>)> {
    seq![(Style::Warning, "⚠️  No scripts found in package.json"@)]
}

pub open spec fn read_error_lines(path: Seq<char>, cause: Seq<char>) -> Seq<(Style, Seq<char>)> {
    seq![(Style::Error, "Failed to read "@ + path + ": "@ + cause)]
}

pub open spec fn parse_error_prefix(path: Seq<char>) -> Seq<char> {
    "Failed to parse "@ + path + " as JSON: "@
}

/// The notice for a missing manifest.
pub fn missing_manifest_notice(dir_name: &str, dir_path: &str) -> (r: Vec<Line>)
    ensures
        lines_view(r@) == notice_lines(dir_name@, dir_path@),
{
    let mut out: Vec<Line> = Vec::new();
    push_line(&mut out, Style::Plain, String::new());
    push_line(&mut out, Style::Alert, String::from_str(dir_name));
    push_line(&mut out, Style::Plain, String::new());
    push_line(&mut out, Style::Muted, String::from_str("No package.json file found:"));
    let mut p = String::from_str("  ");
    p.append(dir_path);
    push_line(&mut out, Style::Muted, p);
    push_line(&mut out, Style::Plain, String::new());
    assert(lines_view(out@) =~= notice_lines(dir_name@, dir_path@));
    out
}

fn failure(text: String) -> (r: Report)
    ensures
        r.exit_code == 1,
        r.out@.len() == 0,
        lines_view(r.err@) == seq![(Style::Error, text@)],
        r.err@.len() == 1 && r.err@[0].style == Style::Error && r.err@[0].text@ == text@,
{
    let mut err: Vec<Line> = Vec::new();
    push_line(&mut err, Style::Error, text);
    assert(lines_view(err@) =~= seq![(Style::Error, text@)]);
    assert(lines_view(err@)[0] == err@[0]@);
    Report { out: Vec::new(), err, exit_code: 1 }
}

/// Turns what reading the manifest at `path` gave into the manifest, or into
/// the report that ends the run: the notice and status 1 when the file is
/// missing, an error and status 1 when it could not be read or decoded.
pub fn load(read: ReadOutcome, path: &str, dir_name: &str, dir_path: &str) -> (r: Result<PackageJson, Report>)
    ensures
        match read {
            ReadOutcome::NotFound => r is Err && r->Err_0.exit_code == 1 && r->Err_0.out@.len() == 0
                && lines_view(r->Err_0.err@) == notice_lines(dir_name@, dir_path@),
            ReadOutcome::Failed(cause) => r is Err && r->Err_0.exit_code == 1 && r->Err_0.out@.len() == 0
                && lines_view(r->Err_0.err@) == read_error_lines(path@, cause@),
            ReadOutcome::Loaded(text) => match manifest_of(text@) {
                Some(m) => r is Ok && r->Ok_0@ == m && r->Ok_0.wf(),
                None => r is Err && r->Err_0.exit_code == 1 && r->Err_0.out@.len() == 0
                    && r->Err_0.err@.len() == 1
                    && r->Err_0.err@[0].style == Style::Error
                    && r->Err_0.err@[0].text@.subrange(0, parse_error_prefix(path@).len() as int)
                    == parse_error_prefix(path@),
            },
        },
{
    match read {
        ReadOutcome::NotFound => {
            let out: Vec<Line> = Vec::new();
            let err = missing_manifest_notice(dir_name, dir_path);
            assert(out@.len() == 0);
            Err(Report { out, err, exit_code: 1 })
        },
        ReadOutcome::Failed(cause) => {
            let mut t = String::from_str("Failed to read ");
            t.append(path);
            t.append(": ");
            t.append(cause.as_str());
            Err(failure(t))
        },
        ReadOutcome::Loaded(text) => match parse_manifest(text.as_str()) {
            Ok(m) => Ok(m),
            Err(e) => {
                let mut t = String::from_str("Failed to parse ");
                t.append(path);
                t.append(" as JSON: ");
                let ghost prefix = t@;
                t.append(e.message.as_str());
                assert(t@.subrange(0, prefix.len() as int) =~= prefix);
                Err(failure(t))
            },
        },
    }
}

/// Lists the manifest's scripts under the settings: a warning and status 0
/// when it has none; otherwise the entries that pass the filter, sorted by
/// name, rendered in the chosen format with status 0.
pub fn list_scripts(config: &Config, manifest: &PackageJson) -> (r: Report)
    requires
        manifest.wf(),
    ensures
        manifest@.scripts.len() == 0 ==> r.exit_code == 0 && r.out@.len() == 0
            && lines_view(r.err@) == warning_lines(),
        manifest@.scripts.len() > 0 ==> r.exit_code == 0 && r.err@.len() == 0 && exists|sel: Seq<(String, String)>|
            sorted_by_name(sel) && same_entries(sel, filtered(manifest.scripts@, match config.filter {
                Some(p) => Some(p@),
                None => None,
            })) && lines_view(r.out@) == #[trigger] rendered(
                config.format,
                sel,
                config.names_only,
                manifest@.name,
                manifest@.description,
            ),
        r.exit_code == 0,
{
    if manifest.has_no_scripts() {
        let mut err: Vec<Line> = Vec::new();
        push_line(&mut err, Style::Warning, String::from_str("⚠️  No scripts found in package.json"));
        assert(lines_view(err@) =~= warning_lines());
        return Report { out: Vec::new(), err, exit_code: 0 };
    }
    let pattern: Option<&str> = match &config.filter {
        Some(p) => Some(p.as_str()),
        None => None,
    };
    let sel = select(&manifest.scripts, pattern);
    let out = render(config.format, &sel, config.names_only, manifest);
    assert(sorted_by_name(sel@) && same_entries(sel@, filtered(manifest.scripts@, match config.filter {
        Some(p) => Some(p@),
        None => None,
    })) && lines_view(out@) == rendered(
        config.format,
        sel@,
        config.names_only,
        manifest@.name,
        manifest@.description,
    ));
    Report { out, err: Vec::new(), exit_code: 0 }
}

} // verus!
