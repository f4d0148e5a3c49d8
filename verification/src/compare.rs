//! Reconciling the table row counts of two interchange files.
//!
//! Each side is a list of `(table name, row count)` pairs. The comparison lists
//! every table named on either side once, in name order, with the row count each
//! side gives it (the last pair with that name; zero when the side has none).

use vstd::prelude::*;
use crate::dyd::strings_view;
use crate::text::string_of;

verus! {

// ---------------------------------------------------------------------------
// Name order
// ---------------------------------------------------------------------------

/// `a` comes strictly before `b` in character order. For UTF-8 text this is
/// also the order of the encoded bytes.
pub open spec fn spec_name_lt(a: Seq<char>, b: Seq<char>) -> bool
    decreases a.len(),
{
    if a.len() == 0 {
        b.len() > 0
    } else if b.len() == 0 {
        false
    } else if (a[0] as u32) < (b[0] as u32) {
        true
    } else if a[0] == b[0] {
        spec_name_lt(a.drop_first(), b.drop_first())
    } else {
        false
    }
}

proof fn lemma_name_lt_total(a: Seq<char>, b: Seq<char>)
    ensures
        a != b ==> spec_name_lt(a, b) || spec_name_lt(b, a),
    decreases a.len(),
{
    if a.len() > 0 && b.len() > 0 && a[0] != b[0] {
        lemma_char_code_injective(a[0], b[0]);
    } else if a.len() > 0 && b.len() > 0 && a[0] == b[0] {
        lemma_name_lt_total(a.drop_first(), b.drop_first());
        if a.drop_first() == b.drop_first() {
            assert(a =~= seq![a[0]] + a.drop_first());
            assert(b =~= seq![b[0]] + b.drop_first());
        }
    } else if a.len() == 0 && b.len() == 0 {
        assert(a =~= b);
    }
}

proof fn lemma_name_lt_transitive(a: Seq<char>, b: Seq<char>, c: Seq<char>)
    ensures
        spec_name_lt(a, b) && spec_name_lt(b, c) ==> spec_name_lt(a, c),
    decreases a.len(),
{
    if a.len() > 0 && b.len() > 0 && c.len() > 0 && a[0] == b[0] && b[0] == c[0] {
        lemma_name_lt_transitive(a.drop_first(), b.drop_first(), c.drop_first());
    }
}

proof fn lemma_char_code_injective(c: char, d: char)
    ensures
        c != d ==> (c as u32) != (d as u32),
{
}

/// Whether `a` comes strictly before `b` in character order.
pub fn name_lt(a: &Vec<char>, b: &Vec<char>) -> (r: bool)
    ensures
        r == spec_name_lt(a@, b@),
{
    let mut i: usize = 0;
    assert(a@.skip(0) =~= a@);
    assert(b@.skip(0) =~= b@);
    while i < a.len() && i < b.len()
        invariant
            i <= a@.len(),
            i <= b@.len(),
            spec_name_lt(a@, b@) == spec_name_lt(a@.skip(i as int), b@.skip(i as int)),
        decreases a@.len() - i,
    {
        assert(a@.skip(i as int)[0] == a@[i as int]);
        assert(b@.skip(i as int)[0] == b@[i as int]);
        if a[i] != b[i] {
            return (a[i] as u32) < (b[i] as u32);
        }
        assert(a@.skip(i as int).drop_first() =~= a@.skip(i + 1));
        assert(b@.skip(i as int).drop_first() =~= b@.skip(i + 1));
        i = i + 1;
    }
    a.len() < b.len()
}

/// Strictly increasing in name order.
pub open spec fn spec_sorted_names(s: Seq<Seq<char>>) -> bool {
    forall|i: int, j: int| 0 <= i < j < s.len() ==> spec_name_lt(#[trigger] s[i], #[trigger] s[j])
}

fn insert_name(names: &mut Vec<String>, x: &String)
    requires
        spec_sorted_names(strings_view(old(names)@)),
    ensures
        spec_sorted_names(strings_view(final(names)@)),
        forall|y: Seq<char>|
            strings_view(final(names)@).contains(y) <==> (strings_view(old(names)@).contains(y)
                || y == x@),
{
    let ghost before = strings_view(names@);
    let xc = crate::text::str_chars(x.as_str());
    let mut p: usize = 0;
    while p < names.len() && name_lt(&crate::text::str_chars(names[p].as_str()), &xc)
        invariant
            p <= names@.len(),
            xc@ == x@,
            before == strings_view(names@),
            forall|i: int| 0 <= i < p ==> spec_name_lt(#[trigger] before[i], x@),
        decreases names@.len() - p,
    {
        p = p + 1;
    }
    if p < names.len() && names[p].eq(x) {
        proof {
            assert(before[p as int] == x@);
            assert forall|y: Seq<char>| before.contains(y) <==> (before.contains(y) || y == x@) by {
                if y == x@ {
                    assert(before[p as int] == y);
                }
            }
        }
        return;
    }
    proof {
        if p < before.len() {
            lemma_name_lt_total(before[p as int], x@);
            assert(spec_name_lt(x@, before[p as int]));
            assert forall|j: int| p <= j < before.len() implies spec_name_lt(
                x@,
                #[trigger] before[j],
            ) by {
                if j > p {
                    assert(spec_name_lt(before[p as int], before[j]));
                    lemma_name_lt_transitive(x@, before[p as int], before[j]);
                }
            }
        }
    }
    names.insert(p, string_of(x.as_str()));
    proof {
        let after = strings_view(names@);
        let ins = before.insert(p as int, x@);
        before.insert_ensures(p as int, x@);
        assert(after =~= ins);
        assert forall|i: int, j: int| 0 <= i < j < after.len() implies spec_name_lt(
            #[trigger] after[i],
            #[trigger] after[j],
        ) by {
            if j < p {
            } else if j == p {
            } else if i < p {
                assert(after[j] == before[j - 1]);
                assert(spec_name_lt(before[i], before[j - 1]));
            } else if i == p {
                assert(after[j] == before[j - 1]);
            } else {
                assert(after[i] == before[i - 1]);
                assert(after[j] == before[j - 1]);
            }
        }
        assert forall|y: Seq<char>| after.contains(y) <==> (before.contains(y) || y == x@) by {
            if after.contains(y) {
                let k = choose|k: int| 0 <= k < after.len() && after[k] == y;
                if k < p {
                    assert(before[k] == y);
                } else if k > p {
                    assert(before[k - 1] == y);
                }
            }
            if before.contains(y) {
                let k = choose|k: int| 0 <= k < before.len() && before[k] == y;
                if k < p {
                    assert(after[k] == y);
                } else {
                    assert(after[k + 1] == y);
                }
            }
            if y == x@ {
                assert(after[p as int] == y);
            }
        }
    }
}

// ---------------------------------------------------------------------------
// Row-count comparison
// ---------------------------------------------------------------------------

/// One compared table.
pub struct TableRowCount {
    pub table: String,
    pub left: usize,
    pub right: usize,
}

pub open spec fn counts_view(v: Seq<(String, usize)>) -> Seq<(Seq<char>, usize)> {
    v.map_values(|p: (String, usize)| (p.0@, p.1))
}

pub open spec fn rows_view(v: Seq<TableRowCount>) -> Seq<(Seq<char>, usize, usize)> {
    v.map_values(|r: TableRowCount| (r.table@, r.left, r.right))
}

/// The count of the last pair named `name`, or zero when there is none.
pub open spec fn spec_last_count(v: Seq<(Seq<char>, usize)>, name: Seq<char>) -> usize
    decreases v.len(),
{
    if v.len() == 0 {
        0
    } else if v.last().0 == name {
        v.last().1
    } else {
        spec_last_count(v.drop_last(), name)
    }
}

/// How many compared tables have different counts on the two sides.
pub open spec fn spec_mismatches(rows: Seq<(Seq<char>, usize, usize)>) -> nat
    decreases rows.len(),
{
    if rows.len() == 0 {
        0
    } else {
        spec_mismatches(rows.drop_last()) + (if rows.last().1 != rows.last().2 {
            1nat
        } else {
            0nat
        })
    }
}

/// Whether some pair of `v` is named `name`.
pub open spec fn spec_names(v: Seq<(Seq<char>, usize)>, name: Seq<char>) -> bool {
    exists|i: int| 0 <= i < v.len() && #[trigger] v[i].0 == name
}

fn last_count(v: &Vec<(String, usize)>, name: &String) -> (r: usize)
    ensures
        r == spec_last_count(counts_view(v@), name@),
{
    let ghost cv = counts_view(v@);
    let mut found: usize = 0;
    let mut i: usize = 0;
    while i < v.len()
        invariant
            i <= v@.len(),
            cv == counts_view(v@),
            found == spec_last_count(cv.subrange(0, i as int), name@),
        decreases v@.len() - i,
    {
        assert(cv.subrange(0, i + 1).drop_last() =~= cv.subrange(0, i as int));
        assert(cv.subrange(0, i + 1).last() == (v@[i as int].0@, v@[i as int].1));
        if v[i].0.eq(name) {
            found = v[i].1;
        }
        i = i + 1;
    }
    assert(cv.subrange(0, cv.len() as int) =~= cv);
    found
}

fn insert_all(names: &mut Vec<String>, v: &Vec<(String, usize)>)
    requires
        spec_sorted_names(strings_view(old(names)@)),
    ensures
        spec_sorted_names(strings_view(final(names)@)),
        forall|y: Seq<char>|
            #![trigger strings_view(final(names)@).contains(y)]
            #![trigger strings_view(old(names)@).contains(y)]
            strings_view(final(names)@).contains(y) <==> (strings_view(old(names)@).contains(y)
                || spec_names(counts_view(v@), y)),
{
    let ghost start = strings_view(names@);
    let ghost cv = counts_view(v@);
    let mut i: usize = 0;
    while i < v.len()
        invariant
            i <= v@.len(),
            cv == counts_view(v@),
            spec_sorted_names(strings_view(names@)),
            forall|y: Seq<char>|
                strings_view(names@).contains(y) <==> (start.contains(y) || exists|k: int|
                    0 <= k < i && #[trigger] cv[k].0 == y),
        decreases v@.len() - i,
    {
        let ghost pre = strings_view(names@);
        let ghost yi = v@[i as int].0@;
        insert_name(names, &v[i].0);
        proof {
            assert(cv[i as int].0 == yi);
            assert(forall|y: Seq<char>|
                strings_view(names@).contains(y) <==> (pre.contains(y) || y == yi));
            assert(forall|y: Seq<char>|
                pre.contains(y) <==> (start.contains(y) || exists|k: int|
                    0 <= k < i && #[trigger] cv[k].0 == y));
            assert forall|y: Seq<char>|
                strings_view(names@).contains(y) <==> (start.contains(y) || exists|k: int|
                    0 <= k < i + 1 && #[trigger] cv[k].0 == y) by {
                if y == cv[i as int].0 {
                    assert(exists|k: int| 0 <= k < i + 1 && #[trigger] cv[k].0 == y);
                }
                if exists|k: int| 0 <= k < i + 1 && #[trigger] cv[k].0 == y {
                    let k = choose|k: int| 0 <= k < i + 1 && #[trigger] cv[k].0 == y;
                    if k < i {
                        assert(exists|k: int| 0 <= k < i && #[trigger] cv[k].0 == y);
                    }
                }
            }
        }
        i = i + 1;
    }
}

/// Compares the row counts of two files: one row per table named on either side,
/// in name order, and the number of tables whose counts differ.
pub fn compare_row_counts(left: &Vec<(String, usize)>, right: &Vec<(String, usize)>) -> (r: (
    Vec<TableRowCount>,
    usize,
))
    ensures
        spec_sorted_names(rows_view(r.0@).map_values(|t: (Seq<char>, usize, usize)| t.0)),
        forall|y: Seq<char>|
            (exists|k: int| 0 <= k < r.0@.len() && #[trigger] r.0@[k].table@ == y) <==> (
            spec_names(counts_view(left@), y) || spec_names(counts_view(right@), y)),
        forall|k: int|
            0 <= k < r.0@.len() ==> (#[trigger] r.0@[k]).left == spec_last_count(
                counts_view(left@),
                r.0@[k].table@,
            ) && r.0@[k].right == spec_last_count(counts_view(right@), r.0@[k].table@),
        r.1 == spec_mismatches(rows_view(r.0@)),
{
    let mut names: Vec<String> = Vec::new();
    let ghost empty = strings_view(names@);
    assert(empty =~= Seq::<Seq<char>>::empty());
    insert_all(&mut names, left);
    let ghost mid = strings_view(names@);
    insert_all(&mut names, right);
    proof {
        assert forall|y: Seq<char>|
            strings_view(names@).contains(y) <==> (spec_names(counts_view(left@), y) || spec_names(
                counts_view(right@),
                y,
            )) by {
            assert(!empty.contains(y));
            assert(mid.contains(y) <==> (empty.contains(y) || spec_names(counts_view(left@), y)));
            assert(strings_view(names@).contains(y) <==> (mid.contains(y) || spec_names(
                counts_view(right@),
                y,
            )));
        }
    }
    let ghost nv = strings_view(names@);
    let mut rows: Vec<TableRowCount> = Vec::new();
    let mut mismatches: usize = 0;
    let mut k: usize = 0;
    while k < names.len()
        invariant
            k <= names@.len(),
            nv == strings_view(names@),
            rows@.len() == k,
            mismatches <= k,
            forall|j: int| 0 <= j < k ==> (#[trigger] rows@[j]).table@ == nv[j],
            forall|j: int|
                0 <= j < k ==> (#[trigger] rows@[j]).left == spec_last_count(
                    counts_view(left@),
                    rows@[j].table@,
                ) && rows@[j].right == spec_last_count(counts_view(right@), rows@[j].table@),
            mismatches == spec_mismatches(rows_view(rows@)),
        decreases names@.len() - k,
    {
        let name = &names[k];
        let l = last_count(left, name);
        let rc = last_count(right, name);
        let ghost before = rows@;
        rows.push(TableRowCount { table: string_of(name.as_str()), left: l, right: rc });
        proof {
            assert(rows_view(rows@).drop_last() =~= rows_view(before));
        }
        if l != rc {
            mismatches = mismatches + 1;
        }
        k = k + 1;
    }
    proof {
        let tv = rows_view(rows@).map_values(|t: (Seq<char>, usize, usize)| t.0);
        assert(tv =~= nv);
        assert forall|y: Seq<char>|
            (exists|j: int| 0 <= j < rows@.len() && #[trigger] rows@[j].table@ == y) <==> (
            spec_names(counts_view(left@), y) || spec_names(counts_view(right@), y)) by {
            assert(nv.contains(y) <==> (spec_names(counts_view(left@), y) || spec_names(
                counts_view(right@),
                y,
            )));
            if exists|j: int| 0 <= j < rows@.len() && #[trigger] rows@[j].table@ == y {
                let j = choose|j: int| 0 <= j < rows@.len() && #[trigger] rows@[j].table@ == y;
                assert(nv[j] == y);
            }
            if nv.contains(y) {
                let j = choose|j: int| 0 <= j < nv.len() && nv[j] == y;
                assert(rows@[j].table@ == y);
            }
        }
    }
    (rows, mismatches)
}

/// A comparison reports no mismatch exactly when every compared table has the
/// same row count on both sides.
pub proof fn law_no_mismatch_iff_counts_agree(rows: Seq<(Seq<char>, usize, usize)>)
    ensures
        (spec_mismatches(rows) == 0) <==> (forall|k: int|
            0 <= k < rows.len() ==> (#[trigger] rows[k]).1 == rows[k].2),
    decreases rows.len(),
{
    if rows.len() > 0 {
        let prev = rows.drop_last();
        law_no_mismatch_iff_counts_agree(prev);
        if forall|k: int| 0 <= k < rows.len() ==> (#[trigger] rows[k]).1 == rows[k].2 {
            assert forall|k: int| 0 <= k < prev.len() implies (#[trigger] prev[k]).1 == prev[k].2 by {
                assert(prev[k] == rows[k]);
            }
            assert(rows[rows.len() - 1] == rows.last());
        }
        if spec_mismatches(rows) == 0 {
            assert forall|k: int| 0 <= k < rows.len() implies (#[trigger] rows[k]).1 == rows[k].2 by {
                if k < prev.len() {
                    assert(prev[k] == rows[k]);
                }
            }
        }
    }
}

/// The first position holding `target`.
pub fn first_index_of(ids: &Vec<i32>, target: i32) -> (r: Option<usize>)
    ensures
        match r {
            Some(k) => k < ids@.len() && ids@[k as int] == target && forall|j: int|
                0 <= j < k ==> ids@[j] != target,
            None => forall|j: int| 0 <= j < ids@.len() ==> ids@[j] != target,
        },
{
    let mut k: usize = 0;
    while k < ids.len()
        invariant
            k <= ids@.len(),
            forall|j: int| 0 <= j < k ==> ids@[j] != target,
        decreases ids@.len() - k,
    {
        if ids[k] == target {
            return Some(k);
        }
        k = k + 1;
    }
    None
}

} // verus!
