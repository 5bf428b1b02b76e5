//! Table column derivation for arrays of object records: the union of
//! their field names, ordered with identifying fields first.

use vstd::prelude::*;

use crate::json::{Json, JsonV};
use crate::text::str_eq;

verus! {

/// The sort priority of a column name: identifying fields first, action
/// fields second, everything else last.
pub open spec fn spec_column_priority(name: Seq<char>) -> int {
    if name == "tool"@ || name == "name"@ || name == "pattern"@ || name == "key"@ {
        0
    } else if name == "action"@ || name == "decision"@ || name == "type"@ {
        1
    } else {
        2
    }
}

/// Returns a sort priority for a column name. Lower values appear first.
pub fn column_priority(name: &str) -> (r: u8)
    ensures
        r as int == spec_column_priority(name@),
{
    if str_eq(name, "tool") || str_eq(name, "name") || str_eq(name, "pattern") || str_eq(
        name,
        "key",
    ) {
        0
    } else if str_eq(name, "action") || str_eq(name, "decision") || str_eq(name, "type") {
        1
    } else {
        2
    }
}

/// Whether some collected column has this name.
pub open spec fn spec_has_name(cols: Seq<String>, x: Seq<char>) -> bool {
    exists|t: int| 0 <= t < cols.len() && (#[trigger] cols[t])@ == x
}

/// Appending keeps every present name present, and makes the appended
/// name present.
proof fn lemma_has_name_push(cols: Seq<String>, y: String, x: Seq<char>)
    ensures
        spec_has_name(cols, x) ==> spec_has_name(cols.push(y), x),
        spec_has_name(cols.push(y), y@),
{
    if spec_has_name(cols, x) {
        let t = choose|t: int| 0 <= t < cols.len() && (#[trigger] cols[t])@ == x;
        assert(cols.push(y)[t]@ == x);
    }
    assert(cols.push(y)[cols.len() as int]@ == y@);
}

/// Collects unique object field names from an array of values, in first
/// appearance order, stably reordered so lower-priority-number columns
/// appear first; an array with any non-object yields no columns, and
/// when all items are objects every field name of every item appears.
pub fn collect_object_columns(items: &Vec<Json>) -> (r: Vec<String>)
    ensures
        forall|i: int, j: int|
            0 <= i < j < r@.len() ==> spec_column_priority(#[trigger] r@[i]@)
                <= spec_column_priority(#[trigger] r@[j]@),
        forall|i: int, j: int| 0 <= i < j < r@.len() ==> (#[trigger] r@[i])@ != (#[trigger] r@[j])@,
        (forall|i: int| 0 <= i < items@.len() ==> (#[trigger] items@[i].deep_view()) is Obj)
            ==> forall|i: int, j: int|
            0 <= i < items@.len() && 0 <= j < crate::app::obj_entries_of(
                items@[i].deep_view(),
            ).len() ==> spec_has_name(
                r@,
                (#[trigger] crate::app::obj_entries_of(items@[i].deep_view())[j]).0,
            ),
{
    let mut columns: Vec<String> = Vec::new();
    let mut i: usize = 0;
    while i < items.len()
        invariant
            forall|a: int, b: int|
                0 <= a < b < columns@.len() ==> (#[trigger] columns@[a])@ != (#[trigger] columns@[
                    b
                ])@,
            forall|a: int, b: int|
                0 <= a < i && 0 <= b < crate::app::obj_entries_of(
                    items@[a].deep_view(),
                ).len() ==> spec_has_name(
                    columns@,
                    (#[trigger] crate::app::obj_entries_of(items@[a].deep_view())[b]).0,
                ),
            i <= items@.len(),
        decreases items@.len() - i,
    {
        match &items[i] {
            Json::Obj(es) => {
                proof {
                    crate::json::lemma_view_of_entries_len(es@);
                }
                let mut j: usize = 0;
                while j < es.len()
                    invariant
                        items@[i as int] == Json::Obj(*es),
                        i < items@.len(),
                        crate::app::obj_entries_of(items@[i as int].deep_view())
                            == crate::json::view_of_entries(es@),
                        crate::json::view_of_entries(es@).len() == es@.len(),
                        forall|a: int, b: int|
                            0 <= a < b < columns@.len() ==> (#[trigger] columns@[a])@ != (
                            #[trigger] columns@[b])@,
                        forall|a: int, b: int|
                            0 <= a < i && 0 <= b < crate::app::obj_entries_of(
                                items@[a].deep_view(),
                            ).len() ==> spec_has_name(
                                columns@,
                                (#[trigger] crate::app::obj_entries_of(
                                    items@[a].deep_view(),
                                )[b]).0,
                            ),
                        forall|b: int|
                            0 <= b < j ==> spec_has_name(
                                columns@,
                                (#[trigger] crate::json::view_of_entries(es@)[b]).0,
                            ),
                        j <= es@.len(),
                    decreases es@.len() - j,
                {
                    proof {
                        crate::json::lemma_view_of_entries_index(es@, j as int);
                    }
                    let key = &es[j].0;
                    if !contains_name(&columns, key.as_str()) {
                        let ghost before = columns@;
                        columns.push(key.clone());
                        proof {
                            assert forall|x: Seq<char>| spec_has_name(before, x) implies
                                spec_has_name(columns@, x) by {
                                lemma_has_name_push(before, columns@.last(), x);
                            }
                            lemma_has_name_push(before, columns@.last(), key@);
                        }
                    } else {
                        proof {
                            assert(spec_has_name(columns@, key@));
                        }
                    }
                    j = j + 1;
                }
            },
            _ => {
                proof {
                    assert(!(items@[i as int].deep_view() is Obj));
                }
                return Vec::new();
            },
        }
        i = i + 1;
    }
    // A three-bucket pass: a stable sort by priority.
    let mut out: Vec<String> = Vec::new();
    let mut p: u8 = 0;
    while p < 3
        invariant
            forall|a: int, b: int|
                0 <= a < b < out@.len() ==> spec_column_priority(#[trigger] out@[a]@)
                    <= spec_column_priority(#[trigger] out@[b]@),
            forall|a: int|
                0 <= a < out@.len() ==> spec_column_priority(#[trigger] out@[a]@) < p as int,
            forall|a: int, b: int|
                0 <= a < b < out@.len() ==> (#[trigger] out@[a])@ != (#[trigger] out@[b])@,
            forall|a: int, b: int|
                0 <= a < b < columns@.len() ==> (#[trigger] columns@[a])@ != (#[trigger] columns@[
                    b
                ])@,
            forall|a: int|
                0 <= a < columns@.len() && spec_column_priority((#[trigger] columns@[a])@)
                    < p as int ==> spec_has_name(out@, columns@[a]@),
        decreases 3 - p,
    {
        let mut t: usize = 0;
        while t < columns.len()
            invariant
                p < 3,
                forall|a: int, b: int|
                    0 <= a < b < out@.len() ==> spec_column_priority(#[trigger] out@[a]@)
                        <= spec_column_priority(#[trigger] out@[b]@),
                forall|a: int|
                    0 <= a < out@.len() ==> spec_column_priority(#[trigger] out@[a]@) <= p as int,
                forall|b: int|
                    0 <= b < out@.len() ==> spec_column_priority((#[trigger] out@[b])@) < p as int
                        || exists|a: int|
                        0 <= a < t && (#[trigger] columns@[a])@ == out@[b]@,
                forall|a: int, b: int|
                    0 <= a < b < out@.len() ==> (#[trigger] out@[a])@ != (#[trigger] out@[b])@,
                forall|a: int, b: int|
                    0 <= a < b < columns@.len() ==> (#[trigger] columns@[a])@ != (
                    #[trigger] columns@[b])@,
                forall|a: int|
                    0 <= a < columns@.len() && (spec_column_priority((#[trigger] columns@[a])@)
                        < p as int || (spec_column_priority(columns@[a]@) == p as int && a
                        < t)) ==> spec_has_name(out@, columns@[a]@),
                t <= columns@.len(),
            decreases columns@.len() - t,
        {
            if column_priority(columns[t].as_str()) == p {
                proof {
                    assert forall|b: int| 0 <= b < out@.len() implies (#[trigger] out@[b])@
                        != columns@[t as int]@ by {
                        if spec_column_priority(out@[b]@) < p as int {
                        } else {
                            let a = choose|a: int|
                                0 <= a < t && (#[trigger] columns@[a])@ == out@[b]@;
                        }
                    }
                }
                let ghost before = out@;
                out.push(columns[t].clone());
                proof {
                    assert forall|x: Seq<char>| spec_has_name(before, x) implies spec_has_name(
                        out@,
                        x,
                    ) by {
                        lemma_has_name_push(before, out@.last(), x);
                    }
                    lemma_has_name_push(before, out@.last(), columns@[t as int]@);
                }
            }
            t = t + 1;
        }
        p = p + 1;
    }
    proof {
        assert forall|x: Seq<char>| spec_has_name(columns@, x) implies spec_has_name(
            out@,
            x,
        ) by {
            let a = choose|t2: int| 0 <= t2 < columns@.len() && (#[trigger] columns@[t2])@ == x;
            assert(spec_column_priority(columns@[a]@) < 3);
            assert(spec_has_name(out@, columns@[a]@));
        }
    }
    out
}

/// Whether a name is already among the collected columns.
fn contains_name(columns: &Vec<String>, name: &str) -> (r: bool)
    ensures
        r == exists|i: int| 0 <= i < columns@.len() && (#[trigger] columns@[i])@ == name@,
{
    let mut i: usize = 0;
    while i < columns.len()
        invariant
            i <= columns@.len(),
            forall|t: int| 0 <= t < i ==> (#[trigger] columns@[t])@ != name@,
        decreases columns@.len() - i,
    {
        if str_eq(columns[i].as_str(), name) {
            return true;
        }
        i = i + 1;
    }
    false
}

} // verus!
