//! Rendering of the selected entries as lines of text, in one of three formats.
//! Each line carries a style that the terminal front end may show in colour.
use vstd::prelude::*;
use vstd::string::*;
use std::collections::BTreeMap;
use crate::manifest::{opt_view, pairs_view, PackageJson};
use crate::order::sorted_by_name;

verus! {

/// The longest command shown whole in a table; longer ones are cut.
pub const MAX_COMMAND_CHARS: usize = 50;

/// How many characters of a cut command are kept before the ellipsis.
pub const KEPT_COMMAND_CHARS: usize = 47;

/// The narrowest name column of a table.
pub const MIN_NAME_WIDTH: usize = 10;

/// The width that the rule adds to the name column.
pub const RULE_EXTRA: usize = 52;

/// The selectable output encodings.
#[derive(Clone, Copy, Debug, PartialEq, Eq, Structural)]
pub enum OutputFormat {
    Table,
    List,
    Json,
}

/// How a line is meant to be shown.
#[derive(Clone, Copy, Debug, PartialEq, Eq, Structural)]
pub enum Style {
    Plain,
    Title,
    Muted,
    Heading,
    Rule,
    Name,
    Row,
    Note,
    Alert,
    Warning,
    Error,
}

/// One line of output.
pub struct Line {
    pub style: Style,
    pub text: String,
}

impl View for Line {
    type V = (Style, Seq<char>);

    open spec fn view(&self) -> (Style, Seq<char>) {
        (self.style, self.text@)
    }
}

pub open spec fn lines_view(s: Seq<Line>) -> Seq<(Style, Seq<char>)> {
    s.map_values(|l: Line| l@)
}

/// `unit` written `n` times.
pub open spec fn repeat(unit: Seq<char>, n: nat) -> Seq<char>
    decreases n,
{
    if n == 0 {
        Seq::empty()
    } else {
        repeat(unit, (n - 1) as nat) + unit
    }
}

/// `s` followed by spaces up to `width` characters.
pub open spec fn pad(s: Seq<char>, width: nat) -> Seq<char> {
    if s.len() < width {
        s + repeat(" "@, (width - s.len()) as nat)
    } else {
        s
    }
}

/// A command as a table shows it: whole up to the limit, else cut with an ellipsis.
pub open spec fn shown_command(c: Seq<char>) -> Seq<char> {
    if c.len() > MAX_COMMAND_CHARS {
        c.subrange(0, KEPT_COMMAND_CHARS as int) + "..."@
    } else {
        c
    }
}

/// The length of the longest name.
pub open spec fn longest_name(entries: Seq<(String, String)>) -> nat
    decreases entries.len(),
{
    if entries.len() == 0 {
        0
    } else {
        let rest = longest_name(entries.drop_last());
        let n = entries.last().0@.len();
        if n > rest { n } else { rest }
    }
}

/// The width of a table's name column.
pub open spec fn name_width(entries: Seq<(String, String)>) -> nat {
    let n = longest_name(entries);
    if n > MIN_NAME_WIDTH { n } else { MIN_NAME_WIDTH as nat }
}

pub open spec fn digit_text(d: nat) -> Seq<char> {
    if d == 0 { "0"@ }
    else if d == 1 { "1"@ }
    else if d == 2 { "2"@ }
    else if d == 3 { "3"@ }
    else if d == 4 { "4"@ }
    else if d == 5 { "5"@ }
    else if d == 6 { "6"@ }
    else if d == 7 { "7"@ }
    else if d == 8 { "8"@ }
    else { "9"@ }
}

/// The decimal digits of `n`.
pub open spec fn decimal(n: nat) -> Seq<char>
    decreases n,
{
    if n < 10 {
        digit_text(n)
    } else {
        decimal(n / 10) + digit_text(n % 10)
    }
}

/// A table row: the padded name, two spaces, and the command as shown.
pub open spec fn row_text(name: Seq<char>, command: Seq<char>, width: nat) -> Seq<char> {
    pad(name, width) + "  "@ + shown_command(command)
}

/// One line per entry holding only its name.
pub open spec fn name_lines(entries: Seq<(String, String)>, style: Style) -> Seq<(Style, Seq<char>)> {
    entries.map_values(|e: (String, String)| (style, e.0@))
}

/// The header block above a table: the manifest's name and description between blank lines.
pub open spec fn header_lines(name: Option<Seq<char>>, description: Option<Seq<char>>) -> Seq<(Style, Seq<char>)> {
    seq![(Style::Plain, Seq::<char>::empty())]
        + match name { Some(n) => seq![(Style::Title, "📦 "@ + n)], None => Seq::empty() }
        + match description { Some(d) => seq![(Style::Muted, d)], None => Seq::empty() }
        + seq![(Style::Plain, Seq::<char>::empty())]
}

/// The full table of the entries.
pub open spec fn table_lines(
    entries: Seq<(String, String)>,
    name: Option<Seq<char>>,
    description: Option<Seq<char>>,
) -> Seq<(Style, Seq<char>)> {
    let w = name_width(entries);
    header_lines(name, description)
        + seq![
            (Style::Heading, pad("Script"@, w) + "  "@ + "Command"@),
            (Style::Rule, repeat("─"@, (w + RULE_EXTRA) as nat)),
        ]
        + entries.map_values(|e: (String, String)| (Style::Row, row_text(e.0@, e.1@, w)))
        + seq![
            (Style::Plain, Seq::<char>::empty()),
            (Style::Note, "ℹ️ Found "@ + decimal(entries.len()) + " script(s)"@),
        ]
}

/// The list format: `name: command` per entry.
pub open spec fn list_lines(entries: Seq<(String, String)>) -> Seq<(Style, Seq<char>)> {
    entries.map_values(|e: (String, String)| (Style::Row, e.0@ + ": "@ + e.1@))
}

/// The pretty-printed JSON object of the pairs, keys in their order, as serde_json writes it.
pub uninterp spec fn pretty_object_json(pairs: Seq<(Seq<char>, Seq<char>)>) -> Seq<char>;

/// The pretty-printed JSON array of the strings, as serde_json writes it.
pub uninterp spec fn pretty_array_json(items: Seq<Seq<char>>) -> Seq<char>;

/// What each format shows, where the JSON encoder succeeds.
pub open spec fn rendered(
    format: OutputFormat,
    entries: Seq<(String, String)>,
    names_only: bool,
    name: Option<Seq<char>>,
    description: Option<Seq<char>>,
) -> Seq<(Style, Seq<char>)> {
    match format {
        OutputFormat::Table => if names_only {
            name_lines(entries, Style::Name)
        } else {
            table_lines(entries, name, description)
        },
        OutputFormat::List => if names_only {
            name_lines(entries, Style::Plain)
        } else {
            list_lines(entries)
        },
        OutputFormat::Json => if names_only {
            seq![(Style::Plain, pretty_array_json(entries.map_values(|e: (String, String)| e.0@)))]
        } else {
            seq![(Style::Plain, pretty_object_json(pairs_view(entries)))]
        },
    }
}

/// Only the table cuts long commands: each list line holds its entry's whole
/// command, the JSON text encodes the whole pairs, and each table row ends with
/// the command as `shown_command` gives it.
pub proof fn lemma_only_table_cuts_commands(
    entries: Seq<(String, String)>,
    name: Option<Seq<char>>,
    description: Option<Seq<char>>,
)
    ensures
        rendered(OutputFormat::List, entries, false, name, description).len() == entries.len(),
        forall|i: int|
            0 <= i < entries.len() ==> #[trigger] rendered(OutputFormat::List, entries, false, name, description)[i].1
                == entries[i].0@ + ": "@ + entries[i].1@,
        rendered(OutputFormat::Json, entries, false, name, description) == seq![
            (Style::Plain, pretty_object_json(pairs_view(entries))),
        ],
        forall|i: int|
            0 <= i < entries.len() ==> #[trigger] pairs_view(entries)[i] == (entries[i].0@, entries[i].1@),
        forall|i: int|
            0 <= i < entries.len() ==> table_lines(entries, name, description)[header_lines(name, description).len()
                + 2 + i].1 == row_text(#[trigger] entries[i].0@, entries[i].1@, name_width(entries)),
{
    assert forall|i: int| 0 <= i < entries.len() implies table_lines(entries, name, description)[header_lines(
        name,
        description,
    ).len() + 2 + i].1 == row_text(#[trigger] entries[i].0@, entries[i].1@, name_width(entries)) by {
        let h = header_lines(name, description);
        let w = name_width(entries);
        let rows = entries.map_values(|e: (String, String)| (Style::Row, row_text(e.0@, e.1@, w)));
        let top = h + seq![
            (Style::Heading, pad("Script"@, w) + "  "@ + "Command"@),
            (Style::Rule, repeat("─"@, (w + RULE_EXTRA) as nat)),
        ];
        assert(top.len() == h.len() + 2);
        assert((top + rows)[h.len() + 2 + i] == rows[i]);
    }
}

/// Names-only output holds names alone: in the table and list formats it is
/// one line per entry holding exactly that entry's name, and in every format it
/// is the same for any two entry sequences with the same names in the same
/// order, whatever their commands.
pub proof fn lemma_names_only_shows_only_names(
    format: OutputFormat,
    a: Seq<(String, String)>,
    b: Seq<(String, String)>,
    name: Option<Seq<char>>,
    description: Option<Seq<char>>,
)
    requires
        a.len() == b.len(),
        forall|i: int| 0 <= i < a.len() ==> #[trigger] a[i].0@ == b[i].0@,
    ensures
        rendered(format, a, true, name, description) == rendered(format, b, true, name, description),
        format != OutputFormat::Json ==> rendered(format, a, true, name, description).len() == a.len(),
        format != OutputFormat::Json ==> forall|i: int|
            0 <= i < a.len() ==> #[trigger] rendered(format, a, true, name, description)[i].1 == a[i].0@,
{
    assert(name_lines(a, Style::Name) =~= name_lines(b, Style::Name));
    assert(name_lines(a, Style::Plain) =~= name_lines(b, Style::Plain));
    assert(a.map_values(|e: (String, String)| e.0@) =~= b.map_values(|e: (String, String)| e.0@));
}

/// Relies on `serde_json::to_string_pretty` on a `BTreeMap<&str, &str>`, which
/// writes keys in the map's order: ascending by bytes, which for names sorted by
/// code point is the order given. It writes into a `Vec`, which cannot fail,
/// and string keys and values always serialize, so it returns `Ok`.
#[verifier::external_body]
fn encode_object(entries: &Vec<(String, String)>) -> (r: Result<String, serde_json::Error>)
    requires
        crate::order::sorted_by_name(entries@),
    ensures
        r is Ok,
        r is Ok ==> r->Ok_0@ == pretty_object_json(pairs_view(entries@)),
{
    let map: BTreeMap<&str, &str> = entries.iter().map(|(k, v)| (k.as_str(), v.as_str())).collect();
    serde_json::to_string_pretty(&map)
}

/// Relies on `serde_json::to_string_pretty` on a `Vec<&str>`. It writes into a
/// `Vec`, which cannot fail, and strings always serialize, so it returns `Ok`.
#[verifier::external_body]
fn encode_array(entries: &Vec<(String, String)>) -> (r: Result<String, serde_json::Error>)
    ensures
        r is Ok,
        r is Ok ==> r->Ok_0@ == pretty_array_json(entries@.map_values(|e: (String, String)| e.0@)),
{
    let names: Vec<&str> = entries.iter().map(|(k, _)| k.as_str()).collect();
    serde_json::to_string_pretty(&names)
}

proof fn lemma_repeat_add(unit: Seq<char>, a: nat, b: nat)
    ensures
        repeat(unit, a + b) == repeat(unit, a) + repeat(unit, b),
    decreases b,
{
    if b == 0 {
        assert(repeat(unit, a) + repeat(unit, 0) =~= repeat(unit, a));
    } else {
        lemma_repeat_add(unit, a, (b - 1) as nat);
        assert(repeat(unit, a + b) == repeat(unit, (a + b - 1) as nat) + unit);
        assert(repeat(unit, a) + repeat(unit, b) =~= repeat(unit, a) + repeat(unit, (b - 1) as nat) + unit);
    }
}

/// Appends `unit` to `s`, `n` times.
fn append_repeat(s: &mut String, unit: &str, n: usize)
    ensures
        final(s)@ == old(s)@ + repeat(unit@, n as nat),
{
    let mut i: usize = 0;
    while i < n
        invariant
            i <= n,
            s@ == old(s)@ + repeat(unit@, i as nat),
        decreases n - i,
    {
        s.append(unit);
        i = i + 1;
        assert(s@ =~= old(s)@ + repeat(unit@, i as nat));
    }
}

/// `s` padded with spaces to `width` characters.
pub fn pad_name(s: &str, width: usize) -> (r: String)
    ensures
        r@ == pad(s@, width as nat),
{
    let mut r = String::from_str(s);
    let n = s.unicode_len();
    if n < width {
        append_repeat(&mut r, " ", width - n);
    }
    r
}

/// A command as a table shows it, cut with an ellipsis beyond the limit.
pub fn shorten_command(c: &str) -> (r: String)
    ensures
        r@ == shown_command(c@),
{
    if c.unicode_len() > MAX_COMMAND_CHARS {
        let mut r = String::from_str(c.substring_char(0, KEPT_COMMAND_CHARS));
        r.append("...");
        r
    } else {
        String::from_str(c)
    }
}

fn digit(d: usize) -> (r: &'static str)
    requires
        d < 10,
    ensures
        r@ == digit_text(d as nat),
{
    if d == 0 { "0" }
    else if d == 1 { "1" }
    else if d == 2 { "2" }
    else if d == 3 { "3" }
    else if d == 4 { "4" }
    else if d == 5 { "5" }
    else if d == 6 { "6" }
    else if d == 7 { "7" }
    else if d == 8 { "8" }
    else { "9" }
}

/// The decimal digits of `n`.
pub fn decimal_text(n: usize) -> (r: String)
    ensures
        r@ == decimal(n as nat),
    decreases n,
{
    if n < 10 {
        String::from_str(digit(n))
    } else {
        let mut r = decimal_text(n / 10);
        r.append(digit(n % 10));
        r
    }
}

/// The length of the longest name, in characters.
pub fn longest(entries: &Vec<(String, String)>) -> (r: usize)
    ensures
        r as nat == longest_name(entries@),
{
    let mut m: usize = 0;
    let mut i: usize = 0;
    while i < entries.len()
        invariant
            i <= entries@.len(),
            m as nat == longest_name(entries@.subrange(0, i as int)),
        decreases entries@.len() - i,
    {
        proof {
            assert(entries@.subrange(0, i + 1).drop_last() =~= entries@.subrange(0, i as int));
        }
        let n = entries[i].0.unicode_len();
        if n > m {
            m = n;
        }
        i = i + 1;
    }
    assert(entries@.subrange(0, i as int) =~= entries@);
    m
}

pub(crate) fn push_line(out: &mut Vec<Line>, style: Style, text: String)
    ensures
        lines_view(final(out)@) == lines_view(old(out)@).push((style, text@)),
{
    out.push(Line { style, text });
    assert(lines_view(out@) =~= lines_view(old(out)@).push((style, text@)));
}

/// One line per entry with its name alone.
pub fn names(entries: &Vec<(String, String)>, style: Style) -> (r: Vec<Line>)
    ensures
        lines_view(r@) == name_lines(entries@, style),
{
    let mut out: Vec<Line> = Vec::new();
    let mut i: usize = 0;
    while i < entries.len()
        invariant
            i <= entries@.len(),
            lines_view(out@) == name_lines(entries@.subrange(0, i as int), style),
        decreases entries@.len() - i,
    {
        push_line(&mut out, style, entries[i].0.clone());
        i = i + 1;
        assert(name_lines(entries@.subrange(0, i as int), style) =~= name_lines(
            entries@.subrange(0, i - 1),
            style,
        ).push((style, entries@[i - 1].0@)));
    }
    assert(entries@.subrange(0, i as int) =~= entries@);
    out
}

/// The list format: `name: command` per entry.
pub fn list(entries: &Vec<(String, String)>) -> (r: Vec<Line>)
    ensures
        lines_view(r@) == list_lines(entries@),
{
    let mut out: Vec<Line> = Vec::new();
    let mut i: usize = 0;
    while i < entries.len()
        invariant
            i <= entries@.len(),
            lines_view(out@) == list_lines(entries@.subrange(0, i as int)),
        decreases entries@.len() - i,
    {
        let mut t = entries[i].0.clone();
        t.append(": ");
        t.append(entries[i].1.as_str());
        push_line(&mut out, Style::Row, t);
        i = i + 1;
        assert(list_lines(entries@.subrange(0, i as int)) =~= list_lines(entries@.subrange(0, i - 1)).push(
            (Style::Row, entries@[i - 1].0@ + ": "@ + entries@[i - 1].1@),
        ));
    }
    assert(entries@.subrange(0, i as int) =~= entries@);
    out
}

/// The manifest's name and description between blank lines.
pub fn header_block(name: &Option<String>, description: &Option<String>) -> (r: Vec<Line>)
    ensures
        lines_view(r@) == header_lines(opt_view(*name), opt_view(*description)),
{
    let mut out: Vec<Line> = Vec::new();
    push_line(&mut out, Style::Plain, String::new());
    match name {
        Some(n) => {
            let mut t = String::from_str("📦 ");
            t.append(n.as_str());
            push_line(&mut out, Style::Title, t);
        },
        None => {},
    }
    match description {
        Some(d) => push_line(&mut out, Style::Muted, d.clone()),
        None => {},
    }
    push_line(&mut out, Style::Plain, String::new());
    assert(lines_view(out@) =~= header_lines(opt_view(*name), opt_view(*description)));
    out
}

/// The table format: header block, column headings, a rule, one row per
/// entry, and a count of the entries.
pub fn table(entries: &Vec<(String, String)>, name: &Option<String>, description: &Option<String>) -> (r: Vec<Line>)
    ensures
        lines_view(r@) == table_lines(entries@, opt_view(*name), opt_view(*description)),
{
    let n = longest(entries);
    let w = if n > MIN_NAME_WIDTH { n } else { MIN_NAME_WIDTH };
    let mut out = header_block(name, description);
    let ghost head = lines_view(out@);
    let mut h = pad_name("Script", w);
    h.append("  ");
    h.append("Command");
    push_line(&mut out, Style::Heading, h);
    let mut rule = String::new();
    append_repeat(&mut rule, "─", w);
    append_repeat(&mut rule, "─", RULE_EXTRA);
    proof {
        lemma_repeat_add("─"@, w as nat, RULE_EXTRA as nat);
        assert(rule@ =~= repeat("─"@, (w + RULE_EXTRA) as nat));
    }
    push_line(&mut out, Style::Rule, rule);
    let ghost top = lines_view(out@);
    let ghost rows = entries@.map_values(|e: (String, String)| (Style::Row, row_text(e.0@, e.1@, w as nat)));
    let mut i: usize = 0;
    while i < entries.len()
        invariant
            i <= entries@.len(),
            lines_view(out@) == top + rows.subrange(0, i as int),
            rows == entries@.map_values(|e: (String, String)| (Style::Row, row_text(e.0@, e.1@, w as nat))),
        decreases entries@.len() - i,
    {
        let mut t = pad_name(entries[i].0.as_str(), w);
        t.append("  ");
        let c = shorten_command(entries[i].1.as_str());
        t.append(c.as_str());
        push_line(&mut out, Style::Row, t);
        i = i + 1;
        assert(top + rows.subrange(0, i as int) =~= (top + rows.subrange(0, i - 1)).push(rows[i - 1]));
    }
    push_line(&mut out, Style::Plain, String::new());
    let mut f = String::from_str("ℹ️ Found ");
    let count = decimal_text(entries.len());
    f.append(count.as_str());
    f.append(" script(s)");
    push_line(&mut out, Style::Note, f);
    assert(rows.subrange(0, i as int) =~= rows);
    assert(lines_view(out@) =~= table_lines(entries@, opt_view(*name), opt_view(*description)));
    out
}

/// Renders the entries, sorted by name, in the chosen format.
pub fn render(
    format: OutputFormat,
    entries: &Vec<(String, String)>,
    names_only: bool,
    manifest: &PackageJson,
) -> (r: Vec<Line>)
    requires
        sorted_by_name(entries@),
    ensures
        lines_view(r@) == rendered(format, entries@, names_only, manifest@.name, manifest@.description),
{
    match format {
        OutputFormat::Table => if names_only {
            names(entries, Style::Name)
        } else {
            table(entries, &manifest.name, &manifest.description)
        },
        OutputFormat::List => if names_only {
            names(entries, Style::Plain)
        } else {
            list(entries)
        },
        OutputFormat::Json => {
            let encoded = if names_only { encode_array(entries) } else { encode_object(entries) };
            let text = match encoded {
                Ok(t) => t,
                Err(_) => {
                    assert(false);
                    String::new()
                },
            };
            let mut out: Vec<Line> = Vec::new();
            push_line(&mut out, Style::Plain, text);
            assert(lines_view(out@) =~= rendered(format, entries@, names_only, manifest@.name, manifest@.description));
            out
        },
    }
}

} // verus!
