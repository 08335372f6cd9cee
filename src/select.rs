//! Case-insensitive filtering of script entries by name, and their selection.
use vstd::prelude::*;
use vstd::string::*;
use crate::order::{chars_of, names_distinct, same_entries, sort_by_name, sorted_by_name};

verus! {

/// The lower-case form of a string, as Rust's standard library computes it.
pub uninterp spec fn lower_of(s: Seq<char>) -> Seq<char>;

/// Relies on `str::to_lowercase`: the result is a function of the characters
/// alone, and the empty string stays empty.
#[verifier::external_body]
fn lowercase(s: &str) -> (r: String)
    ensures
        r@ == lower_of(s@),
        s@.len() == 0 ==> r@.len() == 0,
{
    s.to_lowercase()
}

/// `needle` occurs in `hay` as a contiguous run of characters.
pub open spec fn has_substring(hay: Seq<char>, needle: Seq<char>) -> bool {
    exists|i: int| 0 <= i <= hay.len() - needle.len() && #[trigger] hay.subrange(i, i + needle.len()) == needle
}

/// Whether a name is kept under an optional pattern: always without one,
/// otherwise when its lower-case form holds the lower-case pattern.
pub open spec fn name_selected(name: Seq<char>, pattern: Option<Seq<char>>) -> bool {
    match pattern {
        None => true,
        Some(p) => has_substring(lower_of(name), lower_of(p)),
    }
}

/// The entries kept by the filter, in their original order.
pub open spec fn filtered(entries: Seq<(String, String)>, pattern: Option<Seq<char>>) -> Seq<(String, String)> {
    entries.filter(|e: (String, String)| name_selected(e.0@, pattern))
}

/// Whether `needle` occurs in `hay`, comparing characters exactly.
pub fn contains_folded(hay: &str, needle: &str) -> (r: bool)
    ensures
        r == has_substring(hay@, needle@),
{
    let h = chars_of(hay);
    let n = chars_of(needle);
    if n.len() > h.len() {
        return false;
    }
    let last = h.len() - n.len();
    let mut i: usize = 0;
    loop
        invariant
            h@ == hay@,
            n@ == needle@,
            h@.len() <= usize::MAX,
            last == h@.len() - n@.len(),
            i <= last,
            forall|k: int| 0 <= k < i ==> #[trigger] hay@.subrange(k, k + needle@.len()) != needle@,
        decreases last - i,
    {
        let mut j: usize = 0;
        let mut same = true;
        while same && j < n.len()
            invariant
                h@ == hay@,
                n@ == needle@,
                h@.len() <= usize::MAX,
                i + n@.len() <= h@.len(),
                j <= n@.len(),
                forall|t: int| 0 <= t < j ==> h@[i + t] == n@[t],
                !same ==> j < n@.len() && h@[i + j] != n@[j as int],
            decreases n@.len() - j + (if same { 1int } else { 0int }),
        {
            if h[i + j] == n[j] {
                j = j + 1;
            } else {
                same = false;
            }
        }
        if j == n.len() {
            assert(hay@.subrange(i as int, i + needle@.len()) =~= needle@);
            return true;
        }
        assert(hay@.subrange(i as int, i + needle@.len())[j as int] != needle@[j as int]);
        if i == last {
            return false;
        }
        i = i + 1;
    }
}

/// Whether `name` holds `pattern`, ignoring case: both sides are lower-cased first.
pub fn name_matches(name: &str, pattern: &str) -> (r: bool)
    ensures
        r == has_substring(lower_of(name@), lower_of(pattern@)),
{
    let n = lowercase(name);
    let p = lowercase(pattern);
    contains_folded(n.as_str(), p.as_str())
}

/// The entries whose names match the pattern, if any, in their original order.
pub fn filter_entries(entries: &Vec<(String, String)>, pattern: Option<&str>) -> (r: Vec<(String, String)>)
    ensures
        r@ == filtered(entries@, match pattern { Some(p) => Some(p@), None => None }),
        (pattern is None || pattern->0@.len() == 0) ==> r@ == entries@,
{
    let ghost pat: Option<Seq<char>> = match pattern { Some(p) => Some(p@), None => None };
    let lowered: Option<String> = match pattern {
        Some(p) => Some(lowercase(p)),
        None => None,
    };
    let mut out: Vec<(String, String)> = Vec::new();
    let mut i: usize = 0;
    while i < entries.len()
        invariant
            i <= entries@.len(),
            pat == match pattern { Some(p) => Some(p@), None => None },
            match pattern {
                Some(p) => lowered is Some && lowered->0@ == lower_of(p@) && (p@.len() == 0 ==> lowered->0@.len() == 0),
                None => lowered is None,
            },
            out@ == filtered(entries@.subrange(0, i as int), pat),
        decreases entries@.len() - i,
    {
        let keep = match &lowered {
            Some(p) => {
                let n = lowercase(entries[i].0.as_str());
                contains_folded(n.as_str(), p.as_str())
            },
            None => true,
        };
        proof {
            let sub = entries@.subrange(0, i + 1);
            assert(sub.drop_last() =~= entries@.subrange(0, i as int));
            assert(sub.last() == entries@[i as int]);
            assert(keep == name_selected(entries@[i as int].0@, pat));
            reveal(Seq::filter);
            let pred = |e: (String, String)| name_selected(e.0@, pat);
            assert(pred(sub.last()) == keep);
            assert(sub.filter(pred) == if keep {
                sub.drop_last().filter(pred).push(sub.last())
            } else {
                sub.drop_last().filter(pred)
            });
        }
        if keep {
            let e = (entries[i].0.clone(), entries[i].1.clone());
            out.push(e);
        }
        i = i + 1;
    }
    assert(entries@.subrange(0, entries@.len() as int) =~= entries@);
    proof {
        if pattern is None || pattern->0@.len() == 0 {
            if pattern is Some {
                assert(lower_of(pat->0).len() == 0);
                assert forall|e: (String, String)| name_selected(e.0@, pat) by {
                    let h = lower_of(e.0@);
                    let n = lower_of(pat->0);
                    assert(h.subrange(0, 0 + n.len() as int) =~= n);
                }
            }
            lemma_filter_all(entries@, pat);
        }
    }
    out
}

/// A filter that keeps every name keeps the whole sequence.
proof fn lemma_filter_all(entries: Seq<(String, String)>, pattern: Option<Seq<char>>)
    requires
        forall|e: (String, String)| name_selected(e.0@, pattern),
    ensures
        filtered(entries, pattern) == entries,
    decreases entries.len(),
{
    reveal(Seq::filter);
    if entries.len() > 0 {
        lemma_filter_all(entries.drop_last(), pattern);
        assert(entries.drop_last().push(entries.last()) =~= entries);
    }
}

/// Filtering is a case-insensitive substring test on names: an entry is kept
/// exactly when it was present and its lower-case name holds the lower-case
/// pattern; with no pattern every entry is kept.
pub proof fn lemma_filter_is_case_insensitive_substring(
    entries: Seq<(String, String)>,
    pattern: Option<Seq<char>>,
    e: (String, String),
)
    ensures
        filtered(entries, pattern).contains(e) <==> (entries.contains(e) && match pattern {
            None => true,
            Some(p) => has_substring(lower_of(e.0@), lower_of(p)),
        }),
        pattern is None ==> filtered(entries, pattern) == entries,
{
    broadcast use vstd::seq_lib::group_filter_ensures;
    let pred = |x: (String, String)| name_selected(x.0@, pattern);
    if filtered(entries, pattern).contains(e) {
        entries.lemma_filter_contains_rev(pred, e);
    }
    if entries.contains(e) && name_selected(e.0@, pattern) {
        let i = choose|i: int| 0 <= i < entries.len() && entries[i] == e;
        entries.lemma_filter_contains(pred, i);
    }
    if pattern is None {
        lemma_filter_all(entries, pattern);
    }
}

/// Filters the entries by the optional pattern, then sorts them by name.
pub fn select(entries: &Vec<(String, String)>, pattern: Option<&str>) -> (r: Vec<(String, String)>)
    requires
        names_distinct(entries@),
    ensures
        sorted_by_name(r@),
        same_entries(r@, filtered(entries@, match pattern { Some(p) => Some(p@), None => None })),
{
    let mut kept = filter_entries(entries, pattern);
    proof {
        let pat: Option<Seq<char>> = match pattern { Some(p) => Some(p@), None => None };
        lemma_filter_keeps_distinct(entries@, pat);
    }
    sort_by_name(&mut kept);
    kept
}

/// Filtering keeps names distinct.
proof fn lemma_filter_keeps_distinct(entries: Seq<(String, String)>, pattern: Option<Seq<char>>)
    requires
        names_distinct(entries),
    ensures
        names_distinct(filtered(entries, pattern)),
    decreases entries.len(),
{
    reveal(Seq::filter);
    if entries.len() > 0 {
        let init = entries.drop_last();
        lemma_filter_keeps_distinct(init, pattern);
        let pred = |e: (String, String)| name_selected(e.0@, pattern);
        let f = filtered(init, pattern);
        assert forall|k: int| 0 <= k < f.len() implies #[trigger] f[k].0@ != entries.last().0@ by {
            broadcast use vstd::seq_lib::group_filter_ensures;
            assert(f == init.filter(pred));
            assert(init.filter(pred).contains(f[k]));
            init.lemma_filter_contains_rev(pred, f[k]);
            assert(init.contains(f[k]));
            let q = choose|q: int| 0 <= q < init.len() && init[q] == f[k];
            assert(entries[q] == f[k]);
        }
    }
}

} // verus!
