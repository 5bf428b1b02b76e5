//! A plain model of JSON-like values.
//!
//! Objects are vectors of key/value pairs whose keys are strictly sorted,
//! matching the ordered maps the persistence layer produces, so that each
//! document value has exactly one well-formed representation.

use vstd::prelude::*;

use crate::text::{str_eq, str_less, str_lt};

verus! {

/// A JSON-like value.
///
/// Numbers representable as `i64` are held in `Int`; any other number (a
/// float or an integer beyond `i64`) is held in `Num` as its literal
/// decimal token, so the model itself stays free of floating point.
#[derive(Debug)]
pub enum Json {
    Null,
    Bool(bool),
    Int(i64),
    Num(String),
    Str(String),
    Arr(Vec<Json>),
    Obj(Vec<(String, Json)>),
}

/// The mathematical value of a `Json` tree.
pub enum JsonV {
    Null,
    Bool(bool),
    Int(int),
    Num(Seq<char>),
    Str(Seq<char>),
    Arr(Seq<JsonV>),
    Obj(Seq<(Seq<char>, JsonV)>),
}

impl Json {
    /// The abstract value of this tree.
    pub open spec fn deep_view(&self) -> JsonV
        decreases self,
    {
        match self {
            Json::Null => JsonV::Null,
            Json::Bool(b) => JsonV::Bool(*b),
            Json::Int(n) => JsonV::Int(*n as int),
            Json::Num(s) => JsonV::Num(s@),
            Json::Str(s) => JsonV::Str(s@),
            Json::Arr(items) => JsonV::Arr(view_of_list(items@)),
            Json::Obj(entries) => JsonV::Obj(view_of_entries(entries@)),
        }
    }
}

/// The abstract values of a list of trees.
pub open spec fn view_of_list(s: Seq<Json>) -> Seq<JsonV>
    decreases s,
{
    if s.len() == 0 {
        Seq::empty()
    } else {
        view_of_list(s.drop_last()).push(s.last().deep_view())
    }
}

/// The abstract values of a list of key/value pairs.
pub open spec fn view_of_entries(s: Seq<(String, Json)>) -> Seq<(Seq<char>, JsonV)>
    decreases s,
{
    if s.len() == 0 {
        Seq::empty()
    } else {
        view_of_entries(s.drop_last()).push((s.last().0@, s.last().1.deep_view()))
    }
}

pub broadcast proof fn lemma_view_of_list_len(s: Seq<Json>)
    ensures
        #[trigger] view_of_list(s).len() == s.len(),
    decreases s,
{
    if s.len() > 0 {
        lemma_view_of_list_len(s.drop_last());
    }
}

pub broadcast proof fn lemma_view_of_list_index(s: Seq<Json>, i: int)
    requires
        0 <= i < s.len(),
    ensures
        #[trigger] view_of_list(s)[i] == s[i].deep_view(),
    decreases s,
{
    lemma_view_of_list_len(s);
    if s.len() > 0 && i < s.len() - 1 {
        lemma_view_of_list_index(s.drop_last(), i);
    }
}

pub broadcast proof fn lemma_view_of_entries_len(s: Seq<(String, Json)>)
    ensures
        #[trigger] view_of_entries(s).len() == s.len(),
    decreases s,
{
    if s.len() > 0 {
        lemma_view_of_entries_len(s.drop_last());
    }
}

pub broadcast proof fn lemma_view_of_entries_index(s: Seq<(String, Json)>, i: int)
    requires
        0 <= i < s.len(),
    ensures
        #[trigger] view_of_entries(s)[i] == (s[i].0@, s[i].1.deep_view()),
    decreases s,
{
    lemma_view_of_entries_len(s);
    if s.len() > 0 && i < s.len() - 1 {
        lemma_view_of_entries_index(s.drop_last(), i);
    }
}

} // verus!

verus! {

/// The integer part of a JSON number token: one or more digits, with no
/// leading zero unless the part is exactly "0".
pub open spec fn num_int_part(u: Seq<char>) -> bool {
    u.len() >= 1 && crate::text::all_digits(u) && (u[0] == '0' ==> u.len() == 1)
}

/// An optional fraction part: empty, or a dot followed by digits.
pub open spec fn num_frac_part(u: Seq<char>) -> bool {
    u.len() == 0 || (u.len() >= 2 && u[0] == '.' && crate::text::all_digits(u.drop_first()))
}

/// An optional exponent part: empty, or `e`/`E`, an optional sign, and digits.
pub open spec fn num_exp_part(u: Seq<char>) -> bool {
    ||| u.len() == 0
    ||| {
        &&& u.len() >= 2
        &&& (u[0] == 'e' || u[0] == 'E')
        &&& {
            let w = u.drop_first();
            if w[0] == '+' || w[0] == '-' {
                w.len() >= 2 && crate::text::all_digits(w.drop_first())
            } else {
                crate::text::all_digits(w)
            }
        }
    }
}

/// A full JSON number token: optional minus sign, then integer, fraction
/// and exponent parts.
pub open spec fn json_num_token(s: Seq<char>) -> bool {
    let t = if s.len() > 0 && s[0] == '-' {
        s.drop_first()
    } else {
        s
    };
    exists|i: int, j: int|
        {
            &&& 1 <= i <= j <= t.len()
            &&& num_int_part(#[trigger] t.take(i))
            &&& num_frac_part(t.subrange(i, j))
            &&& num_exp_part(#[trigger] t.skip(j))
        }
}

/// An exponent part in the parser's normalized spelling: absent, or a
/// lower-case `e`, an explicit sign, and digits.
pub open spec fn norm_exp_part(u: Seq<char>) -> bool {
    ||| u.len() == 0
    ||| {
        &&& u.len() >= 3
        &&& u[0] == 'e'
        &&& (u[1] == '+' || u[1] == '-')
        &&& crate::text::all_digits(u.skip(2))
    }
}

/// A JSON number token in the parser's normalized form: integer and
/// fraction parts as in `json_num_token`, the exponent (if any) spelled
/// with a lower-case `e` and an explicit sign. Parsing stores tokens in
/// this form and leaves tokens already in it verbatim.
pub open spec fn norm_num_token(s: Seq<char>) -> bool {
    let t = if s.len() > 0 && s[0] == '-' {
        s.drop_first()
    } else {
        s
    };
    exists|i: int, j: int|
        {
            &&& 1 <= i <= j <= t.len()
            &&& num_int_part(#[trigger] t.take(i))
            &&& num_frac_part(t.subrange(i, j))
            &&& norm_exp_part(#[trigger] t.skip(j))
        }
}

/// A number token is held in canonical form when it is a normalized JSON
/// number that `i64` parsing rejects; integers in `i64` range live in
/// `Json::Int`.
pub open spec fn wf_num_token(s: Seq<char>) -> bool {
    norm_num_token(s) && crate::text::spec_parse_i64(s) is None
}

/// Strictly sorted keys: the well-formed order of object entries.
pub open spec fn sorted_keys(es: Seq<(Seq<char>, JsonV)>) -> bool {
    forall|i: int, j: int| 0 <= i < j < es.len() ==> str_lt(#[trigger] es[i].0, #[trigger] es[j].0)
}

/// Well-formedness of an abstract value: number tokens canonical and
/// object keys strictly sorted, recursively.
pub open spec fn wf_value(v: JsonV) -> bool
    decreases v,
{
    match v {
        JsonV::Null => true,
        JsonV::Bool(_) => true,
        JsonV::Int(_) => true,
        JsonV::Num(s) => wf_num_token(s),
        JsonV::Str(_) => true,
        JsonV::Arr(items) => wf_list(items),
        JsonV::Obj(es) => sorted_keys(es) && wf_entry_list(es),
    }
}

/// Well-formedness of every element of a list.
pub open spec fn wf_list(s: Seq<JsonV>) -> bool
    decreases s,
{
    if s.len() == 0 {
        true
    } else {
        wf_list(s.drop_last()) && wf_value(s.last())
    }
}

/// Well-formedness of every value of an entry list.
pub open spec fn wf_entry_list(es: Seq<(Seq<char>, JsonV)>) -> bool
    decreases es,
{
    if es.len() == 0 {
        true
    } else {
        wf_entry_list(es.drop_last()) && wf_value(es.last().1)
    }
}

pub broadcast proof fn lemma_wf_list_index(s: Seq<JsonV>, i: int)
    requires
        0 <= i < s.len(),
        wf_list(s),
    ensures
        #[trigger] wf_value(s[i]),
    decreases s,
{
    if i < s.len() - 1 {
        lemma_wf_list_index(s.drop_last(), i);
    }
}

pub broadcast proof fn lemma_wf_entry_list_index(es: Seq<(Seq<char>, JsonV)>, i: int)
    requires
        0 <= i < es.len(),
        wf_entry_list(es),
    ensures
        #[trigger] wf_value(es[i].1),
    decreases es,
{
    if i < es.len() - 1 {
        lemma_wf_entry_list_index(es.drop_last(), i);
    }
}

/// A pointwise-well-formed list is well-formed.
pub proof fn lemma_wf_list_all(s: Seq<JsonV>)
    requires
        forall|i: int| 0 <= i < s.len() ==> wf_value(#[trigger] s[i]),
    ensures
        wf_list(s),
    decreases s,
{
    if s.len() > 0 {
        lemma_wf_list_all(s.drop_last());
    }
}

/// A pointwise-well-formed entry list is well-formed.
pub proof fn lemma_wf_entry_list_all(es: Seq<(Seq<char>, JsonV)>)
    requires
        forall|i: int| 0 <= i < es.len() ==> wf_value((#[trigger] es[i]).1),
    ensures
        wf_entry_list(es),
    decreases es,
{
    if es.len() > 0 {
        lemma_wf_entry_list_all(es.drop_last());
    }
}

} // verus!

verus! {

/// The value stored under `k`, searching front to back.
pub open spec fn lookup(es: Seq<(Seq<char>, JsonV)>, k: Seq<char>) -> Option<JsonV>
    decreases es.len(),
{
    if es.len() == 0 {
        None
    } else if es[0].0 == k {
        Some(es[0].1)
    } else {
        lookup(es.drop_first(), k)
    }
}

/// Whether some entry has key `k`.
pub open spec fn has_key(es: Seq<(Seq<char>, JsonV)>, k: Seq<char>) -> bool {
    lookup(es, k) is Some
}

/// Entry insertion in key order: overwrites an equal key in place,
/// otherwise places the new pair before the first larger key.
pub open spec fn entries_insert(es: Seq<(Seq<char>, JsonV)>, k: Seq<char>, v: JsonV) -> Seq<
    (Seq<char>, JsonV),
>
    decreases es.len(),
{
    if es.len() == 0 {
        seq![(k, v)]
    } else if str_lt(k, es[0].0) {
        seq![(k, v)] + es
    } else if es[0].0 == k {
        es.update(0, (k, v))
    } else {
        seq![es[0]] + entries_insert(es.drop_first(), k, v)
    }
}

/// Entry removal: drops the first entry whose key is `k`, if any.
pub open spec fn entries_remove(es: Seq<(Seq<char>, JsonV)>, k: Seq<char>) -> Seq<
    (Seq<char>, JsonV),
>
    decreases es.len(),
{
    if es.len() == 0 {
        es
    } else if es[0].0 == k {
        es.drop_first()
    } else {
        seq![es[0]] + entries_remove(es.drop_first(), k)
    }
}

/// What insertion does to every lookup, and to sortedness.
pub proof fn lemma_insert_props(es: Seq<(Seq<char>, JsonV)>, k: Seq<char>, v: JsonV)
    requires
        sorted_keys(es),
    ensures
        sorted_keys(entries_insert(es, k, v)),
        lookup(entries_insert(es, k, v), k) == Some(v),
        forall|k2: Seq<char>|
            k2 != k ==> #[trigger] lookup(entries_insert(es, k, v), k2) == lookup(es, k2),
        entries_insert(es, k, v).len() == if has_key(es, k) {
            es.len() as int
        } else {
            es.len() + 1int
        },
    decreases es.len(),
{
    crate::text::lemma_str_lt_trichotomy(k, if es.len() > 0 {
        es[0].0
    } else {
        k
    });
    let r = entries_insert(es, k, v);
    if es.len() == 0 {
        assert(r =~= seq![(k, v)]);
        assert forall|k2: Seq<char>| k2 != k implies #[trigger] lookup(r, k2) == lookup(
            es,
            k2,
        ) by {
            assert(r.drop_first() =~= es);
        }
    } else if str_lt(k, es[0].0) {
        assert(r[0] == (k, v));
        assert(r.drop_first() =~= es);
        assert forall|t: int| 0 <= t < es.len() implies str_lt(k, (#[trigger] es[t]).0) by {
            if t > 0 {
                crate::text::lemma_str_lt_trans(k, es[0].0, es[t].0);
            }
        }
        lemma_lookup_below(es, k);
        assert forall|i: int, j: int| 0 <= i < j < r.len() implies str_lt(
            #[trigger] r[i].0,
            #[trigger] r[j].0,
        ) by {
            if i > 0 {
                assert(r[i] == es[i - 1]);
                assert(r[j] == es[j - 1]);
            } else {
                assert(r[j] == es[j - 1]);
                if j > 1 {
                    crate::text::lemma_str_lt_trans(k, es[0].0, es[j - 1].0);
                }
            }
        }
    } else if es[0].0 == k {
        assert(r =~= es.update(0, (k, v)));
        assert forall|k2: Seq<char>| k2 != k implies #[trigger] lookup(r, k2) == lookup(
            es,
            k2,
        ) by {
            assert(r.drop_first() =~= es.drop_first());
        }
        assert forall|i: int, j: int| 0 <= i < j < r.len() implies str_lt(
            #[trigger] r[i].0,
            #[trigger] r[j].0,
        ) by {
            assert(es[i].0 == r[i].0);
            assert(es[j].0 == r[j].0);
        }
    } else {
        // k is greater than the first key: recurse past it.
        let tail = es.drop_first();
        assert(sorted_keys(tail)) by {
            assert forall|i: int, j: int| 0 <= i < j < tail.len() implies str_lt(
                #[trigger] tail[i].0,
                #[trigger] tail[j].0,
            ) by {
                assert(tail[i] == es[i + 1]);
                assert(tail[j] == es[j + 1]);
            }
        }
        lemma_insert_props(tail, k, v);
        let rt = entries_insert(tail, k, v);
        assert(r == seq![es[0]] + rt);
        assert(r[0] == es[0]);
        assert(r.drop_first() =~= rt);
        assert(lookup(r, k) == lookup(rt, k));
        assert forall|k2: Seq<char>| k2 != k implies #[trigger] lookup(r, k2) == lookup(
            es,
            k2,
        ) by {
            if r[0].0 == k2 {
                assert(lookup(r, k2) == Some(r[0].1));
                assert(lookup(es, k2) == Some(es[0].1));
            } else {
                assert(lookup(r, k2) == lookup(r.drop_first(), k2));
                assert(lookup(es, k2) == lookup(tail, k2));
            }
        }
        // str_lt(es[0].0, k): first key stays smallest.
        assert(str_lt(es[0].0, k));
        assert forall|t: int| 0 <= t < tail.len() implies str_lt(
            es[0].0,
            (#[trigger] tail[t]).0,
        ) by {
            assert(tail[t] == es[t + 1]);
        }
        assert forall|i: int, j: int| 0 <= i < j < r.len() implies str_lt(
            #[trigger] r[i].0,
            #[trigger] r[j].0,
        ) by {
            if i > 0 {
                assert(r[i] == rt[i - 1]);
                assert(r[j] == rt[j - 1]);
            } else {
                assert(r[j] == rt[j - 1]);
                lemma_first_key_bound(es[0].0, tail, k, v, j - 1);
                assert(first_key_bound(es[0].0, tail, k, v, j - 1));
            }
        }
        assert(has_key(es, k) == has_key(tail, k));
    }
}

/// A key below every stored key is absent.
pub proof fn lemma_lookup_below(es: Seq<(Seq<char>, JsonV)>, k: Seq<char>)
    requires
        forall|t: int| 0 <= t < es.len() ==> str_lt(k, (#[trigger] es[t]).0),
    ensures
        lookup(es, k) is None,
    decreases es.len(),
{
    if es.len() > 0 {
        crate::text::lemma_str_lt_trichotomy(k, es[0].0);
        let tail = es.drop_first();
        assert forall|t: int| 0 <= t < tail.len() implies str_lt(k, (#[trigger] tail[t]).0) by {
            assert(tail[t] == es[t + 1]);
        }
        lemma_lookup_below(tail, k);
    }
}

/// Every key of `entries_insert(tail, k, v)` is above a bound below both
/// `k` and the keys of `tail`.
spec fn first_key_bound(
    b: Seq<char>,
    tail: Seq<(Seq<char>, JsonV)>,
    k: Seq<char>,
    v: JsonV,
    i: int,
) -> bool {
    0 <= i < entries_insert(tail, k, v).len() ==> str_lt(b, entries_insert(tail, k, v)[i].0)
}

proof fn lemma_first_key_bound(
    b: Seq<char>,
    tail: Seq<(Seq<char>, JsonV)>,
    k: Seq<char>,
    v: JsonV,
    i: int,
)
    requires
        str_lt(b, k),
        forall|t: int| 0 <= t < tail.len() ==> str_lt(b, (#[trigger] tail[t]).0),
    ensures
        first_key_bound(b, tail, k, v, i),
    decreases tail.len(),
{
    let rt = entries_insert(tail, k, v);
    if 0 <= i < rt.len() {
        if tail.len() == 0 {
            assert(rt[i] == (k, v));
        } else if str_lt(k, tail[0].0) {
            if i == 0 {
                assert(rt[0] == (k, v));
            } else {
                assert(rt[i] == tail[i - 1]);
            }
        } else if tail[0].0 == k {
            assert(rt[i].0 == tail[i].0);
        } else {
            if i == 0 {
                assert(rt[0] == tail[0]);
            } else {
                let tt = tail.drop_first();
                assert forall|t: int| 0 <= t < tt.len() implies str_lt(
                    b,
                    (#[trigger] tt[t]).0,
                ) by {
                    assert(tt[t] == tail[t + 1]);
                }
                lemma_first_key_bound(b, tt, k, v, i - 1);
                assert(rt[i] == entries_insert(tt, k, v)[i - 1]);
            }
        }
    }
}

} // verus!

verus! {

/// What removal does to every lookup, and to sortedness.
pub proof fn lemma_remove_props(es: Seq<(Seq<char>, JsonV)>, k: Seq<char>)
    requires
        sorted_keys(es),
    ensures
        sorted_keys(entries_remove(es, k)),
        lookup(entries_remove(es, k), k) is None,
        forall|k2: Seq<char>|
            k2 != k ==> #[trigger] lookup(entries_remove(es, k), k2) == lookup(es, k2),
        entries_remove(es, k).len() == if has_key(es, k) {
            es.len() - 1
        } else {
            es.len() as int
        },
    decreases es.len(),
{
    let r = entries_remove(es, k);
    if es.len() == 0 {
    } else {
        let tail = es.drop_first();
        assert forall|i: int, j: int| 0 <= i < j < tail.len() implies str_lt(
            (#[trigger] tail[i]).0,
            (#[trigger] tail[j]).0,
        ) by {
            assert(tail[i] == es[i + 1]);
            assert(tail[j] == es[j + 1]);
        }
        if es[0].0 == k {
            assert(r == tail);
            assert forall|t: int| 0 <= t < tail.len() implies str_lt(k, (#[trigger] tail[t]).0) by {
                assert(tail[t] == es[t + 1]);
            }
            lemma_lookup_below(tail, k);
        } else {
            lemma_remove_props(tail, k);
            let rt = entries_remove(tail, k);
            assert(r == seq![es[0]] + rt);
            assert(r[0] == es[0]);
            assert(r.drop_first() =~= rt);
            assert forall|k2: Seq<char>| k2 != k implies #[trigger] lookup(r, k2) == lookup(
                es,
                k2,
            ) by {
                if r[0].0 == k2 {
                    assert(lookup(r, k2) == Some(r[0].1));
                    assert(lookup(es, k2) == Some(es[0].1));
                } else {
                    assert(lookup(r, k2) == lookup(rt, k2));
                    assert(lookup(es, k2) == lookup(tail, k2));
                }
            }
            assert(lookup(r, k) == lookup(rt, k));
            assert forall|i: int, j: int| 0 <= i < j < r.len() implies str_lt(
                #[trigger] r[i].0,
                #[trigger] r[j].0,
            ) by {
                if i > 0 {
                    assert(r[i] == rt[i - 1]);
                    assert(r[j] == rt[j - 1]);
                } else {
                    assert(r[j] == rt[j - 1]);
                    lemma_remove_keeps_keys(tail, k, j - 1);
                }
            }
        }
    }
}

/// Every entry of a removal result was an entry of the input.
pub proof fn lemma_remove_keeps_keys(es: Seq<(Seq<char>, JsonV)>, k: Seq<char>, i: int)
    requires
        0 <= i < entries_remove(es, k).len(),
    ensures
        exists|t: int|
            0 <= t < es.len() && (#[trigger] es[t]) == entries_remove(es, k)[i],
    decreases es.len(),
{
    let r = entries_remove(es, k);
    if es.len() > 0 {
        if es[0].0 == k {
            assert(es[i + 1] == r[i]);
        } else if i == 0 {
            assert(es[0] == r[0]);
        } else {
            let tail = es.drop_first();
            lemma_remove_keeps_keys(tail, k, i - 1);
            let t = choose|t: int|
                0 <= t < tail.len() && (#[trigger] tail[t]) == entries_remove(tail, k)[i - 1];
            assert(es[t + 1] == tail[t]);
            assert(r[i] == entries_remove(tail, k)[i - 1]);
        }
    }
}

/// The shape of an insertion: at the first position whose key is not
/// smaller, either overwrite in place or make room.
pub proof fn lemma_insert_at(es: Seq<(Seq<char>, JsonV)>, k: Seq<char>, v: JsonV, p: int)
    requires
        sorted_keys(es),
        0 <= p <= es.len(),
        forall|i: int| 0 <= i < p ==> str_lt((#[trigger] es[i]).0, k),
        p < es.len() ==> !str_lt(es[p as int].0, k),
    ensures
        entries_insert(es, k, v) == if p < es.len() && es[p].0 == k {
            es.update(p, (k, v))
        } else {
            es.insert(p, (k, v))
        },
    decreases es.len(),
{
    let r = entries_insert(es, k, v);
    if es.len() == 0 {
        assert(r =~= es.insert(0, (k, v)));
    } else if p == 0 {
        crate::text::lemma_str_lt_trichotomy(k, es[0].0);
        if es[0].0 == k {
            assert(r =~= es.update(0, (k, v)));
        } else {
            assert(str_lt(k, es[0].0));
            assert(r =~= es.insert(0, (k, v)));
        }
    } else {
        assert(str_lt(es[0].0, k));
        let tail = es.drop_first();
        assert forall|i: int, j: int| 0 <= i < j < tail.len() implies str_lt(
            (#[trigger] tail[i]).0,
            (#[trigger] tail[j]).0,
        ) by {
            assert(tail[i] == es[i + 1]);
            assert(tail[j] == es[j + 1]);
        }
        assert forall|i: int| 0 <= i < p - 1 implies str_lt((#[trigger] tail[i]).0, k) by {
            assert(tail[i] == es[i + 1]);
        }
        assert(p - 1 < tail.len() ==> tail[p - 1] == es[p as int]);
        lemma_insert_at(tail, k, v, p - 1);
        crate::text::lemma_str_lt_trichotomy(k, es[0].0);
        let rt = entries_insert(tail, k, v);
        assert(r == seq![es[0]] + rt);
        if p < es.len() && es[p].0 == k {
            assert(rt == tail.update(p - 1, (k, v)));
            assert(r =~= es.update(p, (k, v)));
        } else {
            assert(rt == tail.insert(p - 1, (k, v)));
            assert(r =~= es.insert(p, (k, v)));
        }
    }
}

/// The shape of a removal: the entry at the found position disappears.
pub proof fn lemma_remove_at(es: Seq<(Seq<char>, JsonV)>, k: Seq<char>, p: int)
    requires
        0 <= p < es.len(),
        es[p].0 == k,
        forall|i: int| 0 <= i < p ==> (#[trigger] es[i]).0 != k,
    ensures
        entries_remove(es, k) == es.remove(p),
    decreases es.len(),
{
    if p == 0 {
        assert(entries_remove(es, k) =~= es.remove(0));
    } else {
        let tail = es.drop_first();
        assert forall|i: int| 0 <= i < p - 1 implies (#[trigger] tail[i]).0 != k by {
            assert(tail[i] == es[i + 1]);
        }
        assert(tail[p - 1] == es[p as int]);
        lemma_remove_at(tail, k, p - 1);
        assert(entries_remove(es, k) == seq![es[0]] + tail.remove(p - 1));
        assert(seq![es[0]] + tail.remove(p - 1) =~= es.remove(p));
    }
}

/// A key equal to no stored key removes nothing.
pub proof fn lemma_remove_absent(es: Seq<(Seq<char>, JsonV)>, k: Seq<char>)
    requires
        forall|i: int| 0 <= i < es.len() ==> (#[trigger] es[i]).0 != k,
    ensures
        entries_remove(es, k) == es,
        lookup(es, k) is None,
    decreases es.len(),
{
    if es.len() > 0 {
        let tail = es.drop_first();
        assert forall|i: int| 0 <= i < tail.len() implies (#[trigger] tail[i]).0 != k by {
            assert(tail[i] == es[i + 1]);
        }
        lemma_remove_absent(tail, k);
        assert(seq![es[0]] + tail =~= es);
    }
}

/// A found position yields the lookup result.
pub proof fn lemma_lookup_at(es: Seq<(Seq<char>, JsonV)>, k: Seq<char>, p: int)
    requires
        0 <= p < es.len(),
        es[p].0 == k,
        forall|i: int| 0 <= i < p ==> (#[trigger] es[i]).0 != k,
    ensures
        lookup(es, k) == Some(es[p].1),
    decreases p,
{
    if p > 0 {
        let tail = es.drop_first();
        assert forall|i: int| 0 <= i < p - 1 implies (#[trigger] tail[i]).0 != k by {
            assert(tail[i] == es[i + 1]);
        }
        assert(tail[p - 1] == es[p as int]);
        lemma_lookup_at(tail, k, p - 1);
    }
}

} // verus!

verus! {

/// Looks a key up in an entry list, front to back.
pub fn entries_get<'a>(entries: &'a Vec<(String, Json)>, key: &str) -> (r: Option<&'a Json>)
    ensures
        match r {
            Some(v) => lookup(view_of_entries(entries@), key@) == Some(v.deep_view()),
            None => lookup(view_of_entries(entries@), key@) is None,
        },
{
    let ghost es = view_of_entries(entries@);
    proof {
        lemma_view_of_entries_len(entries@);
    }
    let mut i: usize = 0;
    while i < entries.len()
        invariant
            es == view_of_entries(entries@),
            i <= entries@.len(),
            es.len() == entries@.len(),
            forall|t: int| 0 <= t < i ==> (#[trigger] es[t]).0 != key@,
        decreases entries@.len() - i,
    {
        proof {
            lemma_view_of_entries_index(entries@, i as int);
        }
        if str_eq(entries[i].0.as_str(), key) {
            proof {
                lemma_lookup_at(es, key@, i as int);
            }
            return Some(&entries[i].1);
        }
        i = i + 1;
    }
    proof {
        lemma_remove_absent(es, key@);
    }
    None
}

/// Inserts or overwrites a key: in key order when the entries are
/// sorted, at the first position whose key is not smaller in any case.
pub fn entries_set(entries: &mut Vec<(String, Json)>, key: &str, value: Json)
    ensures
        sorted_keys(view_of_entries(old(entries)@)) ==> view_of_entries(final(entries)@)
            == entries_insert(view_of_entries(old(entries)@), key@, value.deep_view()),
{
    let ghost es = view_of_entries(old(entries)@);
    proof {
        lemma_view_of_entries_len(old(entries)@);
    }
    let mut p: usize = 0;
    while p < entries.len() && str_less(entries[p].0.as_str(), key)
        invariant
            entries == old(entries),
            es == view_of_entries(entries@),
            p <= entries@.len(),
            es.len() == entries@.len(),
            forall|t: int| 0 <= t < p ==> str_lt((#[trigger] es[t]).0, key@),
        decreases entries@.len() - p,
    {
        proof {
            lemma_view_of_entries_index(entries@, p as int);
        }
        p = p + 1;
    }
    proof {
        if p < entries@.len() {
            lemma_view_of_entries_index(entries@, p as int);
        }
        if sorted_keys(es) {
            lemma_insert_at(es, key@, value.deep_view(), p as int);
        }
    }
    let overwrite = p < entries.len() && str_eq(entries[p].0.as_str(), key);
    if overwrite {
        entries.remove(p);
        entries.insert(p, (key.to_owned(), value));
        proof {
            let now = entries@;
            assert(now =~= old(entries)@.update(p as int, now[p as int]));
            assert forall|t: int| 0 <= t < now.len() implies view_of_entries(now)[t] == es.update(
                p as int,
                (key@, value.deep_view()),
            )[t] by {
                lemma_view_of_entries_index(now, t);
                if t != p {
                    lemma_view_of_entries_index(old(entries)@, t);
                }
            }
            lemma_view_of_entries_len(now);
            assert(view_of_entries(now) =~= es.update(p as int, (key@, value.deep_view())));
        }
    } else {
        entries.insert(p, (key.to_owned(), value));
        proof {
            let now = entries@;
            lemma_view_of_entries_len(now);
            assert forall|t: int| 0 <= t < now.len() implies view_of_entries(now)[t] == es.insert(
                p as int,
                (key@, value.deep_view()),
            )[t] by {
                lemma_view_of_entries_index(now, t);
                if t < p {
                    lemma_view_of_entries_index(old(entries)@, t);
                } else if t > p {
                    lemma_view_of_entries_index(old(entries)@, t - 1);
                }
            }
            assert(view_of_entries(now) =~= es.insert(p as int, (key@, value.deep_view())));
        }
    }
}

/// Removes a key if present; reports whether an entry was removed.
pub fn entries_delete(entries: &mut Vec<(String, Json)>, key: &str) -> (removed: bool)
    ensures
        view_of_entries(final(entries)@) == entries_remove(
            view_of_entries(old(entries)@),
            key@,
        ),
        removed == has_key(view_of_entries(old(entries)@), key@),
{
    let ghost es = view_of_entries(old(entries)@);
    proof {
        lemma_view_of_entries_len(old(entries)@);
    }
    let mut p: usize = 0;
    while p < entries.len()
        invariant
            entries == old(entries),
            es == view_of_entries(entries@),
            p <= entries@.len(),
            es.len() == entries@.len(),
            forall|t: int| 0 <= t < p ==> (#[trigger] es[t]).0 != key@,
        decreases entries@.len() - p,
    {
        proof {
            lemma_view_of_entries_index(entries@, p as int);
        }
        if str_eq(entries[p].0.as_str(), key) {
            proof {
                lemma_lookup_at(es, key@, p as int);
                lemma_remove_at(es, key@, p as int);
            }
            entries.remove(p);
            proof {
                let now = entries@;
                lemma_view_of_entries_len(now);
                assert forall|t: int| 0 <= t < now.len() implies view_of_entries(now)[t]
                    == es.remove(p as int)[t] by {
                    lemma_view_of_entries_index(now, t);
                    if t < p {
                        lemma_view_of_entries_index(old(entries)@, t);
                    } else {
                        lemma_view_of_entries_index(old(entries)@, t + 1);
                    }
                }
                assert(view_of_entries(now) =~= es.remove(p as int));
            }
            return true;
        }
        p = p + 1;
    }
    proof {
        lemma_remove_absent(es, key@);
    }
    false
}

/// The keys of an entry list, in stored order.
pub fn entries_keys(entries: &Vec<(String, Json)>) -> (r: Vec<String>)
    ensures
        r@.len() == view_of_entries(entries@).len(),
        forall|i: int|
            0 <= i < r@.len() ==> (#[trigger] r@[i])@ == view_of_entries(entries@)[i].0,
{
    proof {
        lemma_view_of_entries_len(entries@);
    }
    let mut out: Vec<String> = Vec::new();
    let mut i: usize = 0;
    while i < entries.len()
        invariant
            i <= entries@.len(),
            out@.len() == i,
            view_of_entries(entries@).len() == entries@.len(),
            forall|t: int|
                0 <= t < i ==> (#[trigger] out@[t])@ == view_of_entries(entries@)[t].0,
        decreases entries@.len() - i,
    {
        proof {
            lemma_view_of_entries_index(entries@, i as int);
        }
        out.push(entries[i].0.clone());
        i = i + 1;
    }
    out
}

impl Json {
    /// Object member lookup, as on a JSON value; `None` for non-objects.
    pub fn get<'a>(&'a self, key: &str) -> (r: Option<&'a Json>)
        ensures
            match self.deep_view() {
                JsonV::Obj(es) => match r {
                    Some(v) => lookup(es, key@) == Some(v.deep_view()),
                    None => lookup(es, key@) is None,
                },
                _ => r is None,
            },
    {
        match self {
            Json::Obj(entries) => entries_get(entries, key),
            _ => None,
        }
    }
}

impl Clone for Json {
    /// A deep copy with the same abstract value.
    fn clone(&self) -> (res: Json)
        ensures
            res.deep_view() == self.deep_view(),
        decreases *self,
    {
        match self {
            Json::Null => Json::Null,
            Json::Bool(b) => Json::Bool(*b),
            Json::Int(n) => Json::Int(*n),
            Json::Num(s) => Json::Num(s.clone()),
            Json::Str(s) => Json::Str(s.clone()),
            Json::Arr(items) => {
                let mut out: Vec<Json> = Vec::new();
                let mut i: usize = 0;
                while i < items.len()
                    invariant
                        self == Json::Arr(*items),
                        i <= items@.len(),
                        out@.len() == i,
                        forall|t: int|
                            0 <= t < i ==> (#[trigger] out@[t]).deep_view()
                                == items@[t].deep_view(),
                    decreases items@.len() - i,
                {
                    proof {
                        assert(decreases_to!(*self => self->Arr_0));
                        assert(decreases_to!(self->Arr_0 => self->Arr_0@));
                        assert(decreases_to!(self->Arr_0@ => self->Arr_0@[i as int]));
                        assert(self->Arr_0@ == items@);
                        assert(decreases_to!(*self => items@[i as int]));
                    }
                    out.push(items[i].clone());
                    i = i + 1;
                }
                proof {
                    lemma_view_of_list_len(out@);
                    lemma_view_of_list_len(items@);
                    assert forall|t: int| 0 <= t < out@.len() implies view_of_list(out@)[t]
                        == view_of_list(items@)[t] by {
                        lemma_view_of_list_index(out@, t);
                        lemma_view_of_list_index(items@, t);
                    }
                    assert(view_of_list(out@) =~= view_of_list(items@));
                }
                Json::Arr(out)
            },
            Json::Obj(entries) => {
                let mut out: Vec<(String, Json)> = Vec::new();
                let mut i: usize = 0;
                while i < entries.len()
                    invariant
                        self == Json::Obj(*entries),
                        i <= entries@.len(),
                        out@.len() == i,
                        forall|t: int|
                            0 <= t < i ==> (#[trigger] out@[t]).0@ == entries@[t].0@
                                && out@[t].1.deep_view() == entries@[t].1.deep_view(),
                    decreases entries@.len() - i,
                {
                    proof {
                        assert(decreases_to!(*self => self->Obj_0));
                        assert(decreases_to!(self->Obj_0 => self->Obj_0@));
                        assert(decreases_to!(self->Obj_0@ => self->Obj_0@[i as int]));
                        assert(decreases_to!(self->Obj_0@[i as int] => self->Obj_0@[i as int].1));
                        assert(self->Obj_0@ == entries@);
                        assert(decreases_to!(*self => entries@[i as int].1));
                    }
                    let pair = &entries[i];
                    out.push((pair.0.clone(), pair.1.clone()));
                    i = i + 1;
                }
                proof {
                    lemma_view_of_entries_len(out@);
                    lemma_view_of_entries_len(entries@);
                    assert forall|t: int| 0 <= t < out@.len() implies view_of_entries(out@)[t]
                        == view_of_entries(entries@)[t] by {
                        lemma_view_of_entries_index(out@, t);
                        lemma_view_of_entries_index(entries@, t);
                    }
                    assert(view_of_entries(out@) =~= view_of_entries(entries@));
                }
                Json::Obj(out)
            },
        }
    }
}

} // verus!

verus! {

/// Structural equality of two trees, decided recursively.
fn json_eq(a: &Json, b: &Json) -> (r: bool)
    ensures
        r == (a.deep_view() == b.deep_view()),
    decreases *a,
{
    match (a, b) {
        (Json::Null, Json::Null) => true,
        (Json::Bool(x), Json::Bool(y)) => x == y,
        (Json::Int(x), Json::Int(y)) => x == y,
        (Json::Num(x), Json::Num(y)) => str_eq(x.as_str(), y.as_str()),
        (Json::Str(x), Json::Str(y)) => str_eq(x.as_str(), y.as_str()),
        (Json::Arr(xs), Json::Arr(ys)) => {
            proof {
                lemma_view_of_list_len(xs@);
                lemma_view_of_list_len(ys@);
            }
            if xs.len() != ys.len() {
                return false;
            }
            let mut i: usize = 0;
            while i < xs.len()
                invariant
                    a == Json::Arr(*xs),
                    b == Json::Arr(*ys),
                    i <= xs@.len(),
                    xs@.len() == ys@.len(),
                    forall|t: int|
                        0 <= t < i ==> (#[trigger] xs@[t]).deep_view() == ys@[t].deep_view(),
                decreases xs@.len() - i,
            {
                proof {
                    assert(decreases_to!(*a => a->Arr_0));
                    assert(decreases_to!(a->Arr_0 => a->Arr_0@));
                    assert(decreases_to!(a->Arr_0@ => a->Arr_0@[i as int]));
                    assert(a->Arr_0@ == xs@);
                }
                if !json_eq(&xs[i], &ys[i]) {
                    proof {
                        lemma_view_of_list_index(xs@, i as int);
                        lemma_view_of_list_index(ys@, i as int);
                        assert(view_of_list(xs@)[i as int] != view_of_list(ys@)[i as int]);
                    }
                    return false;
                }
                i = i + 1;
            }
            proof {
                assert forall|t: int| 0 <= t < xs@.len() implies view_of_list(xs@)[t]
                    == view_of_list(ys@)[t] by {
                    lemma_view_of_list_index(xs@, t);
                    lemma_view_of_list_index(ys@, t);
                }
                assert(view_of_list(xs@) =~= view_of_list(ys@));
            }
            true
        },
        (Json::Obj(xs), Json::Obj(ys)) => {
            proof {
                lemma_view_of_entries_len(xs@);
                lemma_view_of_entries_len(ys@);
            }
            if xs.len() != ys.len() {
                return false;
            }
            let mut i: usize = 0;
            while i < xs.len()
                invariant
                    a == Json::Obj(*xs),
                    b == Json::Obj(*ys),
                    i <= xs@.len(),
                    xs@.len() == ys@.len(),
                    forall|t: int|
                        0 <= t < i ==> (#[trigger] xs@[t]).0@ == ys@[t].0@ && xs@[t].1.deep_view()
                            == ys@[t].1.deep_view(),
                decreases xs@.len() - i,
            {
                proof {
                    assert(decreases_to!(*a => a->Obj_0));
                    assert(decreases_to!(a->Obj_0 => a->Obj_0@));
                    assert(decreases_to!(a->Obj_0@ => a->Obj_0@[i as int]));
                    assert(decreases_to!(a->Obj_0@[i as int] => a->Obj_0@[i as int].1));
                    assert(a->Obj_0@ == xs@);
                }
                let kx = &xs[i];
                let ky = &ys[i];
                if !str_eq(kx.0.as_str(), ky.0.as_str()) || !json_eq(&kx.1, &ky.1) {
                    proof {
                        lemma_view_of_entries_index(xs@, i as int);
                        lemma_view_of_entries_index(ys@, i as int);
                        assert(view_of_entries(xs@)[i as int] != view_of_entries(ys@)[i as int]);
                    }
                    return false;
                }
                i = i + 1;
            }
            proof {
                assert forall|t: int| 0 <= t < xs@.len() implies view_of_entries(xs@)[t]
                    == view_of_entries(ys@)[t] by {
                    lemma_view_of_entries_index(xs@, t);
                    lemma_view_of_entries_index(ys@, t);
                }
                assert(view_of_entries(xs@) =~= view_of_entries(ys@));
            }
            true
        },
        _ => {
            proof {
                assert(a.deep_view() != b.deep_view());
            }
            false
        },
    }
}

impl PartialEq for Json {
    /// Two trees are equal when their abstract values are.
    fn eq(&self, other: &Json) -> (r: bool) {
        json_eq(self, other)
    }
}

impl Eq for Json {

}

impl vstd::std_specs::cmp::PartialEqSpecImpl for Json {
    open spec fn obeys_eq_spec() -> bool {
        true
    }

    open spec fn eq_spec(&self, other: &Json) -> bool {
        self.deep_view() == other.deep_view()
    }
}

} // verus!

verus! {

/// Well-formedness of a document's entry list: keys strictly sorted and
/// every value well-formed.
pub open spec fn wf_entries(es: Seq<(Seq<char>, JsonV)>) -> bool {
    sorted_keys(es) && wf_entry_list(es)
}

} // verus!

verus! {

/// Inserting a well-formed value keeps every entry value well-formed.
pub proof fn lemma_insert_wf(es: Seq<(Seq<char>, JsonV)>, k: Seq<char>, v: JsonV)
    requires
        wf_entry_list(es),
        wf_value(v),
    ensures
        wf_entry_list(entries_insert(es, k, v)),
    decreases es.len(),
{
    let r = entries_insert(es, k, v);
    if es.len() == 0 {
        reveal_with_fuel(wf_entry_list, 2);
        assert(r.drop_last() =~= Seq::empty());
        assert(r.last() == (k, v));
        assert(wf_entry_list(r));
    } else if str_lt(k, es[0].0) {
        assert forall|i: int| 0 <= i < r.len() implies wf_value((#[trigger] r[i]).1) by {
            if i == 0 {
                assert(r[0] == (k, v));
            } else {
                assert(r[i] == es[i - 1]);
                lemma_wf_entry_list_index(es, i - 1);
            }
        }
        lemma_wf_entry_list_all(r);
        assert(wf_entry_list(r));
    } else if es[0].0 == k {
        assert forall|i: int| 0 <= i < r.len() implies wf_value((#[trigger] r[i]).1) by {
            if i == 0 {
                assert(r[0] == (k, v));
            } else {
                assert(r[i] == es[i]);
                lemma_wf_entry_list_index(es, i);
            }
        }
        lemma_wf_entry_list_all(r);
        assert(wf_entry_list(r));
    } else {
        let tail = es.drop_first();
        assert forall|i: int| 0 <= i < tail.len() implies wf_value((#[trigger] tail[i]).1) by {
            assert(tail[i] == es[i + 1]);
            lemma_wf_entry_list_index(es, i + 1);
        }
        lemma_wf_entry_list_all(tail);
        lemma_insert_wf(tail, k, v);
        let rt = entries_insert(tail, k, v);
        assert forall|i: int| 0 <= i < r.len() implies wf_value((#[trigger] r[i]).1) by {
            if i == 0 {
                assert(r[0] == es[0]);
                lemma_wf_entry_list_index(es, 0);
            } else {
                assert(r[i] == rt[i - 1]);
                lemma_wf_entry_list_index(rt, i - 1);
            }
        }
        lemma_wf_entry_list_all(r);
        assert(wf_entry_list(r));
    }
}

/// Removal keeps every remaining entry value well-formed.
pub proof fn lemma_remove_wf(es: Seq<(Seq<char>, JsonV)>, k: Seq<char>)
    requires
        wf_entry_list(es),
    ensures
        wf_entry_list(entries_remove(es, k)),
{
    let r = entries_remove(es, k);
    assert forall|i: int| 0 <= i < r.len() implies wf_value((#[trigger] r[i]).1) by {
        lemma_remove_keeps_keys(es, k, i);
        let t = choose|t: int| 0 <= t < es.len() && (#[trigger] es[t]) == r[i];
        lemma_wf_entry_list_index(es, t);
    }
    lemma_wf_entry_list_all(r);
}

} // verus!

verus! {

/// A value found by lookup in a well-formed entry list is well-formed.
pub proof fn lemma_lookup_wf(es: Seq<(Seq<char>, JsonV)>, k: Seq<char>)
    requires
        wf_entry_list(es),
        lookup(es, k) is Some,
    ensures
        wf_value(lookup(es, k)->0),
    decreases es.len(),
{
    if es.len() > 0 {
        if es[0].0 == k {
            lemma_wf_entry_list_index(es, 0);
        } else {
            let tail = es.drop_first();
            assert forall|i: int| 0 <= i < tail.len() implies wf_value(
                (#[trigger] tail[i]).1,
            ) by {
                assert(tail[i] == es[i + 1]);
                lemma_wf_entry_list_index(es, i + 1);
            }
            lemma_wf_entry_list_all(tail);
            lemma_lookup_wf(tail, k);
        }
    }
}

} // verus!

verus! {

/// The view of a list with one element removed.
pub proof fn lemma_view_list_remove(s: Seq<Json>, i: int)
    requires
        0 <= i < s.len(),
    ensures
        view_of_list(s.remove(i)) == view_of_list(s).remove(i),
{
    lemma_view_of_list_len(s);
    lemma_view_of_list_len(s.remove(i));
    assert forall|t: int| 0 <= t < view_of_list(s.remove(i)).len() implies #[trigger] view_of_list(
        s.remove(i),
    )[t] == view_of_list(s).remove(i)[t] by {
        lemma_view_of_list_index(s.remove(i), t);
        if t < i {
            lemma_view_of_list_index(s, t);
        } else {
            lemma_view_of_list_index(s, t + 1);
        }
    }
    assert(view_of_list(s.remove(i)) =~= view_of_list(s).remove(i));
}

/// The view of a list with one element replaced.
pub proof fn lemma_view_list_update(s: Seq<Json>, i: int, x: Json)
    requires
        0 <= i < s.len(),
    ensures
        view_of_list(s.update(i, x)) == view_of_list(s).update(i, x.deep_view()),
{
    lemma_view_of_list_len(s);
    lemma_view_of_list_len(s.update(i, x));
    assert forall|t: int| 0 <= t < view_of_list(s.update(i, x)).len() implies #[trigger]
        view_of_list(s.update(i, x))[t] == view_of_list(s).update(i, x.deep_view())[t] by {
        lemma_view_of_list_index(s.update(i, x), t);
        if t != i {
            lemma_view_of_list_index(s, t);
        }
    }
    assert(view_of_list(s.update(i, x)) =~= view_of_list(s).update(i, x.deep_view()));
}

/// The view of a list with one element dropped from the end.
pub proof fn lemma_view_list_drop_last(s: Seq<Json>)
    requires
        s.len() > 0,
    ensures
        view_of_list(s.drop_last()) == view_of_list(s).drop_last(),
{
    lemma_view_of_list_len(s);
    lemma_view_of_list_len(s.drop_last());
    assert forall|t: int| 0 <= t < view_of_list(s.drop_last()).len() implies #[trigger]
        view_of_list(s.drop_last())[t] == view_of_list(s).drop_last()[t] by {
        lemma_view_of_list_index(s.drop_last(), t);
        lemma_view_of_list_index(s, t);
    }
    assert(view_of_list(s.drop_last()) =~= view_of_list(s).drop_last());
}

/// Removal keeps a list pointwise well-formed.
pub proof fn lemma_wf_list_remove(s: Seq<JsonV>, i: int)
    requires
        0 <= i < s.len(),
        wf_list(s),
    ensures
        wf_list(s.remove(i)),
{
    assert forall|t: int| 0 <= t < s.remove(i).len() implies wf_value(
        #[trigger] s.remove(i)[t],
    ) by {
        if t < i {
            lemma_wf_list_index(s, t);
        } else {
            lemma_wf_list_index(s, t + 1);
        }
    }
    lemma_wf_list_all(s.remove(i));
}

/// Replacing one element with a well-formed one keeps a list well-formed.
pub proof fn lemma_wf_list_update(s: Seq<JsonV>, i: int, x: JsonV)
    requires
        0 <= i < s.len(),
        wf_list(s),
        wf_value(x),
    ensures
        wf_list(s.update(i, x)),
{
    assert forall|t: int| 0 <= t < s.update(i, x).len() implies wf_value(
        #[trigger] s.update(i, x)[t],
    ) by {
        if t != i {
            lemma_wf_list_index(s, t);
        }
    }
    lemma_wf_list_all(s.update(i, x));
}

/// Dropping the last element keeps a list well-formed.
pub proof fn lemma_wf_list_drop_last(s: Seq<JsonV>)
    requires
        s.len() > 0,
        wf_list(s),
    ensures
        wf_list(s.drop_last()),
{
}

} // verus!

verus! {

/// Every stored key is found by lookup.
pub proof fn lemma_key_present(es: Seq<(Seq<char>, JsonV)>, i: int)
    requires
        0 <= i < es.len(),
    ensures
        has_key(es, es[i].0),
    decreases i,
{
    if es[0].0 != es[i].0 {
        let tail = es.drop_first();
        assert(tail[i - 1] == es[i]);
        lemma_key_present(tail, i - 1);
    }
}

/// How long a removal result is, with no order assumption.
pub proof fn lemma_remove_len(es: Seq<(Seq<char>, JsonV)>, k: Seq<char>)
    ensures
        entries_remove(es, k).len() == if has_key(es, k) {
            es.len() - 1
        } else {
            es.len() as int
        },
    decreases es.len(),
{
    if es.len() > 0 && es[0].0 != k {
        lemma_remove_len(es.drop_first(), k);
    }
}

} // verus!

verus! {

/// How deeply a value nests arrays and objects: zero for scalars, one
/// more than the deepest child for containers.
pub open spec fn value_depth(v: JsonV) -> nat
    decreases v,
{
    match v {
        JsonV::Null => 0,
        JsonV::Bool(_) => 0,
        JsonV::Int(_) => 0,
        JsonV::Num(_) => 0,
        JsonV::Str(_) => 0,
        JsonV::Arr(items) => 1 + list_depth(items),
        JsonV::Obj(es) => 1 + entry_list_depth(es),
    }
}

/// The deepest nesting among the elements of a list.
pub open spec fn list_depth(s: Seq<JsonV>) -> nat
    decreases s,
{
    if s.len() == 0 {
        0
    } else if list_depth(s.drop_last()) >= value_depth(s.last()) {
        list_depth(s.drop_last())
    } else {
        value_depth(s.last())
    }
}

/// The deepest nesting among the values of an entry list.
pub open spec fn entry_list_depth(es: Seq<(Seq<char>, JsonV)>) -> nat
    decreases es,
{
    if es.len() == 0 {
        0
    } else if entry_list_depth(es.drop_last()) >= value_depth(es.last().1) {
        entry_list_depth(es.drop_last())
    } else {
        value_depth(es.last().1)
    }
}

} // verus!
