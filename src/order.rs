//! The ordinal order on names and the sort of script entries by name.
use vstd::prelude::*;
use vstd::string::*;

verus! {

/// Strict lexicographic order on character sequences, by code point.
/// For strings this is also the order of their UTF-8 bytes.
pub open spec fn seq_lt(a: Seq<char>, b: Seq<char>) -> bool
    decreases a.len(),
{
    if a.len() == 0 {
        b.len() > 0
    } else if b.len() == 0 {
        false
    } else if a[0] != b[0] {
        a[0] < b[0]
    } else {
        seq_lt(a.drop_first(), b.drop_first())
    }
}

/// Entries strictly ascending by name (hence with distinct names).
pub open spec fn sorted_by_name(s: Seq<(String, String)>) -> bool {
    forall|i: int, j: int| 0 <= i < j < s.len() ==> seq_lt(#[trigger] s[i].0@, #[trigger] s[j].0@)
}

/// No two entries share a name.
pub open spec fn names_distinct(s: Seq<(String, String)>) -> bool {
    forall|i: int, j: int| 0 <= i < j < s.len() ==> #[trigger] s[i].0@ != #[trigger] s[j].0@
}

/// Two entry sequences hold the same entries.
pub open spec fn same_entries(a: Seq<(String, String)>, b: Seq<(String, String)>) -> bool {
    &&& a.len() == b.len()
    &&& forall|x: (String, String)| a.contains(x) <==> b.contains(x)
}

pub proof fn lemma_lt_irreflexive(a: Seq<char>)
    ensures
        !seq_lt(a, a),
    decreases a.len(),
{
    if a.len() > 0 {
        lemma_lt_irreflexive(a.drop_first());
    }
}

pub proof fn lemma_lt_asymmetric(a: Seq<char>, b: Seq<char>)
    ensures
        !(seq_lt(a, b) && seq_lt(b, a)),
    decreases a.len(),
{
    if a.len() > 0 && b.len() > 0 && a[0] == b[0] {
        lemma_lt_asymmetric(a.drop_first(), b.drop_first());
    }
}

pub proof fn lemma_lt_transitive(a: Seq<char>, b: Seq<char>, c: Seq<char>)
    requires
        seq_lt(a, b),
        seq_lt(b, c),
    ensures
        seq_lt(a, c),
    decreases a.len(),
{
    if a.len() > 0 && b.len() > 0 && c.len() > 0 && a[0] == b[0] && b[0] == c[0] {
        lemma_lt_transitive(a.drop_first(), b.drop_first(), c.drop_first());
    }
}

pub proof fn lemma_lt_total(a: Seq<char>, b: Seq<char>)
    requires
        a != b,
    ensures
        seq_lt(a, b) || seq_lt(b, a),
    decreases a.len(),
{
    if a.len() > 0 && b.len() > 0 && a[0] == b[0] {
        if a.drop_first() == b.drop_first() {
            assert(a =~= seq![a[0]] + a.drop_first());
            assert(b =~= seq![b[0]] + b.drop_first());
        }
        lemma_lt_total(a.drop_first(), b.drop_first());
    } else if a.len() > 0 && b.len() > 0 {
        assert(a[0] != b[0]);
    } else if a.len() == 0 && b.len() == 0 {
        assert(a =~= b);
    }
}

/// Sorting is idempotent: a sequence already sorted by name has exactly one
/// sorted arrangement of its entries, itself, so `sort_by_name` leaves it unchanged.
pub proof fn lemma_sort_idempotent(s: Seq<(String, String)>, r: Seq<(String, String)>)
    requires
        sorted_by_name(s),
        sorted_by_name(r),
        same_entries(r, s),
    ensures
        r == s,
    decreases s.len(),
{
    if s.len() == 0 {
        assert(r =~= s);
    } else {
        assert(r.contains(r[0]));
        assert(s.contains(s[0]));
        let k = choose|k: int| 0 <= k < s.len() && s[k] == r[0];
        let m = choose|m: int| 0 <= m < r.len() && r[m] == s[0];
        if k > 0 && m > 0 {
            assert(seq_lt(s[0].0@, s[k].0@));
            assert(seq_lt(r[0].0@, r[m].0@));
            lemma_lt_asymmetric(s[0].0@, r[0].0@);
        } else if k > 0 {
            assert(r[0] == s[0]);
        }
        assert(r[0] == s[0]);
        let rt = r.drop_first();
        let st = s.drop_first();
        assert forall|x: (String, String)| rt.contains(x) <==> st.contains(x) by {
            if rt.contains(x) {
                let a = choose|a: int| 0 <= a < rt.len() && rt[a] == x;
                assert(r[a + 1] == x);
                assert(seq_lt(r[0].0@, r[a + 1].0@));
                lemma_lt_irreflexive(r[0].0@);
                assert(s.contains(x));
                let b = choose|b: int| 0 <= b < s.len() && s[b] == x;
                assert(b != 0);
                assert(st[b - 1] == x);
            }
            if st.contains(x) {
                let a = choose|a: int| 0 <= a < st.len() && st[a] == x;
                assert(s[a + 1] == x);
                assert(seq_lt(s[0].0@, s[a + 1].0@));
                lemma_lt_irreflexive(s[0].0@);
                assert(r.contains(x));
                let b = choose|b: int| 0 <= b < r.len() && r[b] == x;
                assert(b != 0);
                assert(rt[b - 1] == x);
            }
        }
        lemma_sort_idempotent(st, rt);
        assert(r =~= seq![r[0]] + rt);
        assert(s =~= seq![s[0]] + st);
    }
}

/// The characters of a string, one by one.
pub fn chars_of(s: &str) -> (r: Vec<char>)
    ensures
        r@ == s@,
{
    let n = s.unicode_len();
    let mut r: Vec<char> = Vec::new();
    let mut i: usize = 0;
    while i < n
        invariant
            n == s@.len(),
            i <= n,
            r@ == s@.subrange(0, i as int),
        decreases n - i,
    {
        r.push(s.get_char(i));
        i = i + 1;
    }
    assert(r@ =~= s@);
    r
}

/// Whether `a` comes strictly before `b` in ordinal order.
pub fn name_lt(a: &str, b: &str) -> (r: bool)
    ensures
        r == seq_lt(a@, b@),
{
    let x = chars_of(a);
    let y = chars_of(b);
    let mut i: usize = 0;
    assert(a@.skip(0) =~= a@);
    assert(b@.skip(0) =~= b@);
    while i < x.len() && i < y.len() && x[i] == y[i]
        invariant
            i <= x@.len(),
            i <= y@.len(),
            x@ == a@,
            y@ == b@,
            seq_lt(a@, b@) == seq_lt(a@.skip(i as int), b@.skip(i as int)),
        decreases x@.len() - i,
    {
        assert(a@.skip(i as int).drop_first() =~= a@.skip(i + 1));
        assert(b@.skip(i as int).drop_first() =~= b@.skip(i + 1));
        i = i + 1;
    }
    if i == x.len() {
        i < y.len()
    } else if i == y.len() {
        false
    } else {
        x[i] < y[i]
    }
}

/// Sorts the entries by name, ascending in ordinal order.
pub fn sort_by_name(entries: &mut Vec<(String, String)>)
    requires
        names_distinct(old(entries)@),
    ensures
        sorted_by_name(final(entries)@),
        same_entries(final(entries)@, old(entries)@),
{
    let n = entries.len();
    let mut out: Vec<(String, String)> = Vec::new();
    let mut i: usize = 0;
    while i < n
        invariant
            n == entries@.len(),
            i <= n,
            names_distinct(entries@),
            sorted_by_name(out@),
            out@.len() == i,
            forall|x: (String, String)| out@.contains(x) <==> entries@.subrange(0, i as int).contains(x),
        decreases n - i,
    {
        let name = entries[i].0.clone();
        let command = entries[i].1.clone();
        let mut j: usize = 0;
        while j < out.len() && name_lt(&out[j].0, &name)
            invariant
                j <= out@.len(),
                forall|k: int| 0 <= k < j ==> seq_lt(#[trigger] out@[k].0@, name@),
            decreases out@.len() - j,
        {
            j = j + 1;
        }
        if j < out.len() {
            proof {
            assert(out@.contains(out@[j as int]));
            let ghost k = choose|k: int| 0 <= k < i && entries@[k] == out@[j as int];
            assert(entries@.subrange(0, i as int)[k] == out@[j as int]);
            assert(entries@[k].0@ != entries@[i as int].0@);
            lemma_lt_total(name@, out@[j as int].0@);
            assert(seq_lt(name@, out@[j as int].0@));
            }
        }
        let ghost prev = out@;
        out.insert(j, (name, command));
        assert forall|a: int, b: int| 0 <= a < b < out@.len() implies seq_lt(
            #[trigger] out@[a].0@,
            #[trigger] out@[b].0@,
        ) by {
            if b == j {
            } else if a == j {
                if b - 1 > j {
                    lemma_lt_transitive(name@, prev[j as int].0@, prev[b - 1].0@);
                }
            } else if a > j {
                assert(out@[a] == prev[a - 1]);
            } else if b > j {
                assert(out@[b] == prev[b - 1]);
            }
        }
        assert forall|x: (String, String)| out@.contains(x) <==> entries@.subrange(
            0,
            i + 1,
        ).contains(x) by {
            if out@.contains(x) {
                let m = choose|m: int| 0 <= m < out@.len() && out@[m] == x;
                if m < j {
                    assert(prev[m] == x);
                    assert(prev.contains(x));
                } else if m > j {
                    assert(prev[m - 1] == x);
                    assert(prev.contains(x));
                } else {
                    assert(entries@.subrange(0, i + 1)[i as int] == x);
                }
                if m != j {
                    let q = choose|q: int| 0 <= q < i && #[trigger] entries@.subrange(0, i as int)[q] == x;
                    assert(entries@.subrange(0, i + 1)[q] == x);
                }
            }
            if entries@.subrange(0, i + 1).contains(x) {
                let q = choose|q: int| 0 <= q < i + 1 && #[trigger] entries@.subrange(0, i + 1)[q] == x;
                if q == i {
                    assert(out@[j as int] == x);
                } else {
                    assert(entries@.subrange(0, i as int)[q] == x);
                    assert(prev.contains(x));
                    let m = choose|m: int| 0 <= m < prev.len() && prev[m] == x;
                    if m < j {
                        assert(out@[m] == x);
                    } else {
                        assert(out@[m + 1] == x);
                    }
                }
            }
        }
        i = i + 1;
    }
    assert(entries@.subrange(0, n as int) =~= entries@);
    *entries = out;
}

} // verus!
