//! The manifest: a JSON object whose optional `name` and `description` are
//! strings and whose optional `scripts` maps script names to command lines.
//! JSON syntax is decoded by serde_json; the shape of the manifest is checked here.
use vstd::prelude::*;
use vstd::string::*;
use std::collections::BTreeMap;
use serde_json::value::RawValue;
use crate::order::names_distinct;

verus! {

#[verifier::external_type_specification]
#[verifier::external_body]
pub struct ExJsonError(serde_json::Error);

/// The members of a JSON object, each with the JSON text of its value, as
/// serde_json decodes them; `None` where the text is not a JSON object.
pub uninterp spec fn object_members_of(text: Seq<char>) -> Option<Seq<(Seq<char>, Seq<char>)>>;

/// What serde_json decodes from a JSON text as an optional string: `null`
/// gives `Some(None)`, a string gives `Some(Some(s))`; `None` for anything else.
pub uninterp spec fn optional_string_of(text: Seq<char>) -> Option<Option<Seq<char>>>;

/// The pairs of strings as pairs of character sequences.
pub open spec fn pairs_view(s: Seq<(String, String)>) -> Seq<(Seq<char>, Seq<char>)> {
    s.map_values(|p: (String, String)| (p.0@, p.1@))
}

pub open spec fn opt_view(o: Option<String>) -> Option<Seq<char>> {
    match o {
        Some(s) => Some(s@),
        None => None,
    }
}

/// Relies on `serde_json::from_str` into a `BTreeMap<String, Box<RawValue>>`
/// and on `RawValue::get`: it fails unless the text is one JSON object, and
/// the map holds each key once.
#[verifier::external_body]
fn decode_object(text: &str) -> (r: Result<Vec<(String, String)>, serde_json::Error>)
    ensures
        match r {
            Ok(m) => object_members_of(text@) == Some(pairs_view(m@)) && names_distinct(m@),
            Err(_) => object_members_of(text@) is None,
        },
{
    match serde_json::from_str::<BTreeMap<String, Box<RawValue>>>(text) {
        Ok(m) => Ok(m.into_iter().map(|(k, v)| (k, v.get().to_string())).collect()),
        Err(e) => Err(e),
    }
}

/// Relies on `serde_json::from_str` into an `Option<String>`.
#[verifier::external_body]
fn decode_optional_string(text: &str) -> (r: Result<Option<String>, serde_json::Error>)
    ensures
        match r {
            Ok(v) => optional_string_of(text@) == Some(opt_view(v)),
            Err(_) => optional_string_of(text@) is None,
        },
{
    serde_json::from_str::<Option<String>>(text)
}

/// The value text of the member named `key`, if there is one (the first, where
/// several share the key).
pub open spec fn member(members: Seq<(Seq<char>, Seq<char>)>, key: Seq<char>) -> Option<Seq<char>>
    decreases members.len(),
{
    if members.len() == 0 {
        None
    } else if members[0].0 == key {
        Some(members[0].1)
    } else {
        member(members.drop_first(), key)
    }
}

/// An optional string field: absent or `null` is `None`; anything but a
/// string or `null` makes the manifest invalid (outer `None`).
pub open spec fn string_field(members: Seq<(Seq<char>, Seq<char>)>, key: Seq<char>) -> Option<Option<Seq<char>>> {
    match member(members, key) {
        None => Some(None),
        Some(raw) => optional_string_of(raw),
    }
}

/// The script pairs of an object's members, each value a string; `None`
/// where some value is not a string.
pub open spec fn script_pairs(members: Seq<(Seq<char>, Seq<char>)>) -> Option<Seq<(Seq<char>, Seq<char>)>>
    decreases members.len(),
{
    if members.len() == 0 {
        Some(Seq::empty())
    } else {
        match (optional_string_of(members.last().1), script_pairs(members.drop_last())) {
            (Some(Some(c)), Some(init)) => Some(init.push((members.last().0, c))),
            _ => None,
        }
    }
}

/// The `scripts` field: absent is empty; otherwise an object of strings.
pub open spec fn scripts_field(members: Seq<(Seq<char>, Seq<char>)>) -> Option<Seq<(Seq<char>, Seq<char>)>> {
    match member(members, "scripts"@) {
        None => Some(Seq::empty()),
        Some(raw) => match object_members_of(raw) {
            None => None,
            Some(pairs) => script_pairs(pairs),
        },
    }
}

/// What a manifest holds, as mathematical values.
pub ghost struct ManifestView {
    pub name: Option<Seq<char>>,
    pub description: Option<Seq<char>>,
    pub scripts: Seq<(Seq<char>, Seq<char>)>,
}

/// The manifest that a text denotes, or `None` where the text is not valid JSON
/// or does not have the manifest's shape.
pub open spec fn manifest_of(text: Seq<char>) -> Option<ManifestView> {
    match object_members_of(text) {
        None => None,
        Some(ms) => manifest_of_members(ms),
    }
}

/// The manifest that the members of a JSON object denote, or `None` where a
/// field does not have the manifest's shape.
pub open spec fn manifest_of_members(ms: Seq<(Seq<char>, Seq<char>)>) -> Option<ManifestView> {
    match (string_field(ms, "name"@), string_field(ms, "description"@), scripts_field(ms)) {
        (Some(n), Some(d), Some(s)) => Some(ManifestView { name: n, description: d, scripts: s }),
        _ => None,
    }
}

/// A decoded manifest.
pub struct PackageJson {
    pub name: Option<String>,
    pub description: Option<String>,
    pub scripts: Vec<(String, String)>,
}

impl View for PackageJson {
    type V = ManifestView;

    open spec fn view(&self) -> ManifestView {
        ManifestView {
            name: opt_view(self.name),
            description: opt_view(self.description),
            scripts: pairs_view(self.scripts@),
        }
    }
}

impl PackageJson {
    /// Script names are distinct.
    pub open spec fn wf(&self) -> bool {
        names_distinct(self.scripts@)
    }

    /// Whether the manifest has no scripts.
    pub fn has_no_scripts(&self) -> (r: bool)
        ensures
            r == (self@.scripts.len() == 0),
    {
        self.scripts.len() == 0
    }
}

/// Why a text is not a manifest, with the decoder's diagnostic.
#[derive(Debug)]
pub struct ParseError {
    pub message: String,
}

proof fn lemma_member_skip(s: Seq<(Seq<char>, Seq<char>)>, key: Seq<char>, i: int)
    requires
        0 <= i <= s.len(),
        forall|k: int| 0 <= k < i ==> #[trigger] s[k].0 != key,
    ensures
        member(s, key) == member(s.subrange(i, s.len() as int), key),
    decreases i,
{
    if i > 0 {
        assert(s.drop_first().subrange(i - 1, s.drop_first().len() as int) =~= s.subrange(i, s.len() as int));
        assert forall|k: int| 0 <= k < i - 1 implies #[trigger] s.drop_first()[k].0 != key by {
            assert(s.drop_first()[k] == s[k + 1]);
        }
        lemma_member_skip(s.drop_first(), key, i - 1);
    } else {
        assert(s.subrange(0, s.len() as int) =~= s);
    }
}

/// The index of the first member named `key`, if any.
pub fn find_member(members: &Vec<(String, String)>, key: &str) -> (r: Option<usize>)
    ensures
        match r {
            Some(i) => i < members@.len() && member(pairs_view(members@), key@) == Some(members@[i as int].1@),
            None => member(pairs_view(members@), key@) is None,
        },
{
    let ghost pv = pairs_view(members@);
    let k = String::from_str(key);
    let mut i: usize = 0;
    while i < members.len()
        invariant
            i <= members@.len(),
            pv == pairs_view(members@),
            k@ == key@,
            forall|j: int| 0 <= j < i ==> #[trigger] pv[j].0 != key@,
        decreases members@.len() - i,
    {
        if members[i].0 == k {
            proof {
                lemma_member_skip(pv, key@, i as int);
                assert(pv.subrange(i as int, pv.len() as int)[0] == pv[i as int]);
            }
            return Some(i);
        }
        i = i + 1;
    }
    proof {
        lemma_member_skip(pv, key@, i as int);
    }
    None
}

fn parse_error(e: serde_json::Error) -> (r: ParseError) {
    ParseError { message: e.to_string() }
}

/// Where some prefix holds a value that is not a string, so does the whole.
proof fn lemma_script_pairs_prefix(s: Seq<(Seq<char>, Seq<char>)>, k: int)
    requires
        0 <= k <= s.len(),
        script_pairs(s.subrange(0, k)) is None,
    ensures
        script_pairs(s) is None,
    decreases s.len() - k,
{
    if k < s.len() {
        let t = s.subrange(0, k + 1);
        assert(t.drop_last() =~= s.subrange(0, k));
        lemma_script_pairs_prefix(s, k + 1);
    } else {
        assert(s.subrange(0, k) =~= s);
    }
}

/// The script pairs of an object's members, each value decoded as a string.
pub fn scripts_from_members(members: &Vec<(String, String)>) -> (r: Result<Vec<(String, String)>, ParseError>)
    ensures
        r is Ok <==> script_pairs(pairs_view(members@)) is Some,
        r is Ok ==> script_pairs(pairs_view(members@)) == Some(pairs_view(r->Ok_0@)),
        r is Ok ==> r->Ok_0@.len() == members@.len(),
        r is Ok ==> forall|i: int| 0 <= i < members@.len() ==> #[trigger] r->Ok_0@[i].0@ == members@[i].0@,
{
    let ghost pv = pairs_view(members@);
    let mut out: Vec<(String, String)> = Vec::new();
    let mut i: usize = 0;
    while i < members.len()
        invariant
            i <= members@.len(),
            pv == pairs_view(members@),
            script_pairs(pv.subrange(0, i as int)) == Some(pairs_view(out@)),
            out@.len() == i,
            forall|j: int| 0 <= j < i ==> #[trigger] out@[j].0@ == members@[j].0@,
        decreases members@.len() - i,
    {
        let ghost sub = pv.subrange(0, i + 1);
        proof {
            assert(sub.drop_last() =~= pv.subrange(0, i as int));
        }
        match decode_optional_string(members[i].1.as_str()) {
            Ok(Some(c)) => {
                let ghost prev = out@;
                out.push((members[i].0.clone(), c));
                assert(pairs_view(out@) =~= pairs_view(prev).push((sub.last().0, c@)));
            },
            Ok(None) => {
                proof {
                    lemma_script_pairs_prefix(pv, i + 1);
                }
                return Err(ParseError { message: String::from_str("invalid type: null, expected a string") });
            },
            Err(e) => {
                proof {
                    lemma_script_pairs_prefix(pv, i + 1);
                }
                return Err(parse_error(e));
            },
        }
        i = i + 1;
    }
    assert(pv.subrange(0, i as int) =~= pv);
    Ok(out)
}

/// Decodes a manifest from its JSON text.
pub fn parse_manifest(text: &str) -> (r: Result<PackageJson, ParseError>)
    ensures
        r is Ok <==> manifest_of(text@) is Some,
        r is Ok ==> r->Ok_0@ == manifest_of(text@)->0 && r->Ok_0.wf(),
{
    match decode_object(text) {
        Ok(members) => manifest_from_members(&members),
        Err(e) => Err(parse_error(e)),
    }
}

/// Builds a manifest from the members of a JSON object, each with the JSON
/// text of its value: `name` and `description` strings or `null`, `scripts`
/// an object of strings, each optional.
pub fn manifest_from_members(members: &Vec<(String, String)>) -> (r: Result<PackageJson, ParseError>)
    ensures
        r is Ok <==> manifest_of_members(pairs_view(members@)) is Some,
        r is Ok ==> r->Ok_0@ == manifest_of_members(pairs_view(members@))->0 && r->Ok_0.wf(),
{
    let ghost ms = pairs_view(members@);
    let name = match find_member(&members, "name") {
        None => None,
        Some(i) => match decode_optional_string(members[i].1.as_str()) {
            Ok(v) => v,
            Err(e) => return Err(parse_error(e)),
        },
    };
    let description = match find_member(&members, "description") {
        None => None,
        Some(i) => match decode_optional_string(members[i].1.as_str()) {
            Ok(v) => v,
            Err(e) => return Err(parse_error(e)),
        },
    };
    let scripts = match find_member(&members, "scripts") {
        None => Vec::new(),
        Some(i) => {
            let pairs = match decode_object(members[i].1.as_str()) {
                Ok(p) => p,
                Err(e) => return Err(parse_error(e)),
            };
            let r = scripts_from_members(&pairs);
            match r {
                Ok(s) => {
                    assert(names_distinct(s@));
                    s
                },
                Err(e) => return Err(e),
            }
        },
    };
    let m = PackageJson { name, description, scripts };
    assert(m@.scripts =~= scripts_field(ms).unwrap());
    Ok(m)
}

} // verus!
