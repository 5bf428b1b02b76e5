//! The document overlay: the explicit key/value store layered over the
//! schema defaults, with loading, saving and validation.

use vstd::prelude::*;

use crate::codec;
use crate::json::{
    entries_delete, entries_get, entries_insert, entries_keys, entries_remove, entries_set,
    has_key, lemma_insert_props, lemma_insert_wf, lemma_remove_props, lemma_remove_wf, lookup,
    sorted_keys, wf_entries, wf_value, Json, JsonV,
};
use crate::settings::{
    get_setting_def, known_key, spec_default, spec_options, spec_section_of, spec_type_of,
    SettingType,
};
use crate::text::{str_eq, trim, trim_spec};

verus! {

/// The loaded configuration state: the explicitly set keys with their
/// values, and whether they have changed since the last load or save.
pub struct Config {
    /// All explicitly set values (known and unknown keys), in key order.
    values: Vec<(String, Json)>,
    /// Whether values have been modified since the last save or load.
    dirty: bool,
}

/// The value `get` resolves for a key: the explicit value if present,
/// else the schema default, else null.
pub open spec fn spec_get(es: Seq<(Seq<char>, JsonV)>, k: Seq<char>) -> JsonV {
    match lookup(es, k) {
        Some(v) => v,
        None => if known_key(k) {
            spec_default(k)
        } else {
            JsonV::Null
        },
    }
}

/// Whether a candidate value has the kind a setting type asks for.
pub open spec fn spec_type_ok(t: SettingType, v: JsonV) -> bool {
    match t {
        SettingType::Boolean => v is Bool,
        SettingType::String => v is Str,
        SettingType::StringEnum => v is Str,
        SettingType::Number => v is Int || v is Num,
        SettingType::ArrayString => v matches JsonV::Arr(a) && forall|i: int|
            0 <= i < a.len() ==> (#[trigger] a[i]) is Str,
        SettingType::ArrayObject => v matches JsonV::Arr(a) && forall|i: int|
            0 <= i < a.len() ==> (#[trigger] a[i]) is Obj,
        SettingType::Object => v is Obj,
    }
}

/// Whether a candidate value is acceptable for a key: unknown keys always
/// pass; known keys must match their type, and an enum value must be one
/// of the options.
pub open spec fn spec_validate(k: Seq<char>, v: JsonV) -> bool {
    if !known_key(k) {
        true
    } else {
        &&& spec_type_ok(spec_type_of(k), v)
        &&& (spec_type_of(k) is StringEnum ==> match spec_options(k) {
            Some(opts) => v matches JsonV::Str(x) && opts.contains(x),
            None => true,
        })
    }
}

impl Config {
    /// The explicit entries, as key/value pairs in stored order.
    pub closed spec fn entries(&self) -> Seq<(Seq<char>, JsonV)> {
        crate::json::view_of_entries(self.values@)
    }

    /// Whether unsaved changes exist.
    pub closed spec fn spec_dirty(&self) -> bool {
        self.dirty
    }

    /// The structural invariant: keys strictly sorted, hence unique.
    pub open spec fn inv(&self) -> bool {
        sorted_keys(self.entries())
    }

    /// Full well-formedness: the invariant plus well-formed values.
    pub open spec fn wf(&self) -> bool {
        wf_entries(self.entries())
    }

    /// Reads a document from its persisted text. A blank text is an empty
    /// document; anything else must parse as a JSON object.
    pub fn from_text(text: &str) -> (r: Result<Config, String>)
        ensures
            trim_spec(text@).len() == 0 ==> (r matches Ok(c) && c.entries() == Seq::<
                (Seq<char>, JsonV),
            >::empty()),
            r matches Ok(c) ==> c.wf() && !c.spec_dirty(),
            forall|es: Seq<(Seq<char>, JsonV)>|
                wf_entries(es) && 1 + crate::json::entry_list_depth(es)
                    < codec::PARSE_DEPTH_LIMIT && text@ == codec::rendered_doc(es).push('\n')
                    && trim_spec(text@).len() > 0 ==> r is Ok && (r->Ok_0).entries() == es,
    {
        let trimmed = trim(text);
        if trimmed.unicode_len() == 0 {
            let c = Config { values: Vec::new(), dirty: false };
            proof {
                assert(c.entries() =~= Seq::<(Seq<char>, JsonV)>::empty());
            }
            Ok(c)
        } else {
            match codec::doc_from_text(text) {
                Ok(values) => Ok(Config { values, dirty: false }),
                Err(e) => Err(e),
            }
        }
    }

    /// The persisted text of the document: its explicit entries as a
    /// pretty-printed object, with a trailing newline.
    pub fn to_text(&self) -> (r: String)
        ensures
            self.wf() ==> r@ == codec::rendered_doc(self.entries()).push('\n'),
            r@.len() > 0 && r@[0] == '{',
    {
        let mut text = codec::doc_to_text(&self.values);
        let ghost rendered = text@;
        text.append("\n");
        proof {
            reveal_strlit("\n");
            assert(text@ =~= rendered.push('\n'));
        }
        text
    }

    /// Writing the document out and reading it back yields the same
    /// explicit entries, unknown keys included, with nothing pending; it
    /// holds of every well-formed document the parser can nest.
    pub fn reparsed(&self) -> (r: Option<Config>)
        ensures
            self.wf() && 1 + crate::json::entry_list_depth(self.entries())
                < codec::PARSE_DEPTH_LIMIT ==> (r matches Some(c) && c.entries()
                == self.entries() && !c.spec_dirty() && c.wf()),
    {
        let text = self.to_text();
        proof {
            if self.wf() {
                crate::text::lemma_trim_nonblank(text@);
            }
        }
        match Config::from_text(text.as_str()) {
            Ok(c) => Some(c),
            Err(_) => None,
        }
    }

    /// The current value for a key: the explicit value, else the schema
    /// default, else null.
    pub fn get(&self, key: &str) -> (r: Json)
        ensures
            r.deep_view() == spec_get(self.entries(), key@),
    {
        match entries_get(&self.values, key) {
            Some(v) => v.clone(),
            None => match get_setting_def(key) {
                Some(d) => d.default,
                None => Json::Null,
            },
        }
    }

    /// The explicit value for a key, or `None` when it is not set.
    pub fn get_raw<'a>(&'a self, key: &str) -> (r: Option<&'a Json>)
        ensures
            match r {
                Some(v) => lookup(self.entries(), key@) == Some(v.deep_view()),
                None => lookup(self.entries(), key@) is None,
            },
    {
        entries_get(&self.values, key)
    }

    /// Sets a value for a key and marks the document dirty. Never
    /// validates: validation is the caller's responsibility.
    pub fn set(&mut self, key: &str, value: Json)
        requires
            old(self).inv(),
        ensures
            final(self).entries() == entries_insert(
                old(self).entries(),
                key@,
                value.deep_view(),
            ),
            final(self).spec_dirty(),
            final(self).inv(),
            lookup(final(self).entries(), key@) == Some(value.deep_view()),
            forall|k2: Seq<char>|
                k2 != key@ ==> #[trigger] lookup(final(self).entries(), k2) == lookup(
                    old(self).entries(),
                    k2,
                ),
            old(self).wf() && wf_value(value.deep_view()) ==> final(self).wf(),
    {
        proof {
            lemma_insert_props(self.entries(), key@, value.deep_view());
            if self.wf() && wf_value(value.deep_view()) {
                lemma_insert_wf(self.entries(), key@, value.deep_view());
            }
        }
        entries_set(&mut self.values, key, value);
        self.dirty = true;
    }

    /// Clears an explicit override, reverting the key to its default;
    /// marks the document dirty only if a value was actually removed.
    pub fn remove(&mut self, key: &str)
        requires
            old(self).inv(),
        ensures
            final(self).entries() == entries_remove(old(self).entries(), key@),
            final(self).spec_dirty() == (old(self).spec_dirty() || has_key(
                old(self).entries(),
                key@,
            )),
            final(self).inv(),
            lookup(final(self).entries(), key@) is None,
            forall|k2: Seq<char>|
                k2 != key@ ==> #[trigger] lookup(final(self).entries(), k2) == lookup(
                    old(self).entries(),
                    k2,
                ),
            old(self).wf() ==> final(self).wf(),
    {
        proof {
            lemma_remove_props(self.entries(), key@);
            if self.wf() {
                lemma_remove_wf(self.entries(), key@);
            }
        }
        let removed = entries_delete(&mut self.values, key);
        if removed {
            self.dirty = true;
        }
    }

    /// Whether the config has unsaved changes.
    pub fn is_dirty(&self) -> (r: bool)
        ensures
            r == self.spec_dirty(),
    {
        self.dirty
    }

    /// Records a successful save: the entries stand, nothing is pending.
    pub fn mark_saved(&mut self)
        ensures
            final(self).entries() == old(self).entries(),
            !final(self).spec_dirty(),
    {
        self.dirty = false;
    }

    /// All explicit keys that belong to no section, in stored order: the
    /// entries of the catch-all section.
    pub fn unknown_keys(&self) -> (r: Vec<String>)
        ensures
            r@.len() == spec_unknown_keys(self.entries()).len(),
            forall|i: int|
                0 <= i < r@.len() ==> (#[trigger] r@[i])@ == spec_unknown_keys(self.entries())[i],
    {
        let keys = entries_keys(&self.values);
        let ghost es = self.entries();
        let mut out: Vec<String> = Vec::new();
        let mut i: usize = 0;
        proof {
            assert(es.take(0) =~= Seq::<(Seq<char>, JsonV)>::empty());
        }
        while i < keys.len()
            invariant
                keys@.len() == es.len(),
                forall|t: int| 0 <= t < keys@.len() ==> (#[trigger] keys@[t])@ == es[t].0,
                i <= keys@.len(),
                out@.len() == spec_unknown_keys(es.take(i as int)).len(),
                forall|t: int|
                    0 <= t < out@.len() ==> (#[trigger] out@[t])@ == spec_unknown_keys(
                        es.take(i as int),
                    )[t],
            decreases keys@.len() - i,
        {
            let ghost prev = es.take(i as int);
            proof {
                assert(es.take(i + 1).drop_last() =~= prev);
                assert(es.take(i + 1).last() == es[i as int]);
            }
            if crate::settings::section_for_key(keys[i].as_str()).is_none() {
                out.push(keys[i].clone());
            }
            i = i + 1;
        }
        proof {
            assert(es.take(i as int) =~= es);
        }
        out
    }

    /// Checks that a value matches the expected type for a known setting;
    /// unknown keys always pass. The message names the expected kind and,
    /// for enum mismatches, the valid options.
    pub fn validate_value(key: &str, value: &Json) -> (r: Result<(), String>)
        ensures
            r is Ok <==> spec_validate(key@, value.deep_view()),
            r matches Err(m) ==> m@ == spec_validate_message(key@, value.deep_view()),
    {
        broadcast use crate::json::lemma_view_of_list_len, crate::json::lemma_view_of_list_index;

        let def = match get_setting_def(key) {
            Some(d) => d,
            None => {
                return Ok(());
            },
        };
        let type_ok = match def.setting_type {
            SettingType::Boolean => matches!(value, Json::Bool(_)),
            SettingType::String => matches!(value, Json::Str(_)),
            SettingType::StringEnum => matches!(value, Json::Str(_)),
            SettingType::Number => matches!(value, Json::Int(_) | Json::Num(_)),
            SettingType::ArrayString => match value {
                Json::Arr(items) => all_strings(items),
                _ => false,
            },
            SettingType::ArrayObject => match value {
                Json::Arr(items) => all_objects(items),
                _ => false,
            },
            SettingType::Object => matches!(value, Json::Obj(_)),
        };
        proof {
            let dv = value.deep_view();
            match value {
                Json::Arr(items) => {
                    let a = crate::json::view_of_list(items@);
                    assert(dv == JsonV::Arr(a));
                    crate::json::lemma_view_of_list_len(items@);
                    assert forall|t: int| 0 <= t < a.len() implies #[trigger] a[t]
                        == items@[t].deep_view() by {
                        crate::json::lemma_view_of_list_index(items@, t);
                    }
                    if forall|t: int| 0 <= t < items@.len() ==> (#[trigger] items@[t].deep_view())
                        is Str {
                        assert forall|t: int| 0 <= t < a.len() implies (#[trigger] a[t]) is Str by {
                            assert(a[t] == items@[t].deep_view());
                        }
                    }
                    if forall|t: int| 0 <= t < items@.len() ==> (#[trigger] items@[t].deep_view())
                        is Obj {
                        assert forall|t: int| 0 <= t < a.len() implies (#[trigger] a[t]) is Obj by {
                            assert(a[t] == items@[t].deep_view());
                        }
                    }
                    if exists|t: int|
                        0 <= t < items@.len() && !((#[trigger] items@[t].deep_view()) is Str) {
                        let t = choose|t: int|
                            0 <= t < items@.len() && !((#[trigger] items@[t].deep_view()) is Str);
                        assert(a[t] == items@[t].deep_view());
                        assert(!((a[t]) is Str));
                    }
                    if exists|t: int|
                        0 <= t < items@.len() && !((#[trigger] items@[t].deep_view()) is Obj) {
                        let t = choose|t: int|
                            0 <= t < items@.len() && !((#[trigger] items@[t].deep_view()) is Obj);
                        assert(a[t] == items@[t].deep_view());
                        assert(!((a[t]) is Obj));
                    }
                },
                _ => {},
            }
            assert(type_ok == spec_type_ok(def.setting_type, value.deep_view()));
        }
        if !type_ok {
            let mut msg = kind_name(def.setting_type).to_owned();
            msg.append(" expected for key '");
            msg.append(key);
            msg.append("'");
            return Err(msg);
        }
        if matches!(def.setting_type, SettingType::StringEnum) {
            if let (Some(options), Json::Str(s)) = (&def.enum_options, value) {
                let mut i: usize = 0;
                let ghost opts = spec_options(key@)->0;
                while i < options.len()
                    invariant
                        def.wf(),
                        def.key@ == key@,
                        known_key(key@),
                        def.setting_type is StringEnum,
                        spec_type_ok(spec_type_of(key@), value.deep_view()),
                        value.deep_view() == JsonV::Str(s@),
                        def.enum_options matches Some(o) && o == options,
                        opts == spec_options(key@)->0,
                        spec_options(key@) is Some,
                        options@.len() == opts.len(),
                        forall|t: int|
                            0 <= t < options@.len() ==> (#[trigger] options@[t])@ == opts[t],
                        i <= options@.len(),
                        forall|t: int| 0 <= t < i ==> opts[t] != s@,
                    decreases options@.len() - i,
                {
                    if str_eq(options[i], s.as_str()) {
                        proof {
                            assert(opts.contains(s@));
                        }
                        return Ok(());
                    }
                    i = i + 1;
                }
                proof {
                    assert(!opts.contains(s@)) by {
                        if opts.contains(s@) {
                            let t = choose|t: int| 0 <= t < opts.len() && opts[t] == s@;
                        }
                    }
                }
                let mut msg = "invalid value '".to_owned();
                msg.append(s.as_str());
                msg.append("' for '");
                msg.append(key);
                msg.append("', expected one of: ");
                let ghost base = msg@;
                let mut j: usize = 0;
                while j < options.len()
                    invariant
                        def.wf(),
                        def.key@ == key@,
                        known_key(key@),
                        def.setting_type is StringEnum,
                        value.deep_view() == JsonV::Str(s@),
                        spec_type_ok(spec_type_of(key@), value.deep_view()),
                        !spec_options(key@)->0.contains(s@),
                        spec_options(key@) is Some,
                        opts == spec_options(key@)->0,
                        def.enum_options matches Some(o) && o == options,
                        options@.len() == opts.len(),
                        forall|t: int|
                            0 <= t < options@.len() ==> (#[trigger] options@[t])@ == opts[t],
                        base == "invalid value '"@ + s@ + "' for '"@ + key@
                            + "', expected one of: "@,
                        j <= options@.len(),
                        j == 0 ==> msg@ == base,
                        j > 0 ==> msg@ == base + spec_options_joined(opts.take(j as int)),
                    decreases options@.len() - j,
                {
                    if j > 0 {
                        msg.append(", ");
                    }
                    msg.append(options[j]);
                    proof {
                        if j == 0 {
                            assert(opts.take(1)[0] == opts[0]);
                            assert(spec_options_joined(opts.take(1)) == opts[0]);
                            assert(msg@ =~= base + spec_options_joined(opts.take(1)));
                        } else {
                            assert(opts.take(j + 1).drop_last() =~= opts.take(j as int));
                            assert(opts.take(j + 1).last() == opts[j as int]);
                            assert(msg@ =~= base + spec_options_joined(opts.take(j + 1)));
                        }
                    }
                    j = j + 1;
                }
                proof {
                    assert(opts.take(j as int) =~= opts);
                    if opts.len() == 0 {
                        assert(msg@ =~= base + spec_options_joined(opts));
                    }
                    assert(msg@ == spec_validate_message(key@, value.deep_view()));
                }
                return Err(msg);
            }
        }
        Ok(())
    }
}

/// The unknown keys among the entries: those with no section, in order.
pub open spec fn spec_unknown_keys(es: Seq<(Seq<char>, JsonV)>) -> Seq<Seq<char>>
    decreases es.len(),
{
    if es.len() == 0 {
        Seq::empty()
    } else if spec_section_of(es.last().0) is None {
        spec_unknown_keys(es.drop_last()).push(es.last().0)
    } else {
        spec_unknown_keys(es.drop_last())
    }
}

/// Whether every element is a string.
fn all_strings(items: &Vec<Json>) -> (r: bool)
    ensures
        r == (forall|i: int|
            0 <= i < items@.len() ==> (#[trigger] items@[i].deep_view()) is Str),
{
    let mut i: usize = 0;
    while i < items.len()
        invariant
            i <= items@.len(),
            forall|t: int| 0 <= t < i ==> (#[trigger] items@[t].deep_view()) is Str,
        decreases items@.len() - i,
    {
        if !matches!(&items[i], Json::Str(_)) {
            proof {
                assert(!(items@[i as int].deep_view() is Str));
            }
            return false;
        }
        i = i + 1;
    }
    true
}

/// Whether every element is an object.
fn all_objects(items: &Vec<Json>) -> (r: bool)
    ensures
        r == (forall|i: int|
            0 <= i < items@.len() ==> (#[trigger] items@[i].deep_view()) is Obj),
{
    let mut i: usize = 0;
    while i < items.len()
        invariant
            i <= items@.len(),
            forall|t: int| 0 <= t < i ==> (#[trigger] items@[t].deep_view()) is Obj,
        decreases items@.len() - i,
    {
        if !matches!(&items[i], Json::Obj(_)) {
            proof {
                assert(!(items@[i as int].deep_view() is Obj));
            }
            return false;
        }
        i = i + 1;
    }
    true
}

/// The display name of a setting kind, as used in rejection messages.
fn kind_name(t: SettingType) -> (r: &'static str)
    ensures
        r@ == spec_kind_name(t),
{
    match t {
        SettingType::Boolean => "boolean",
        SettingType::String => "string",
        SettingType::StringEnum => "string",
        SettingType::Number => "number",
        SettingType::ArrayString => "array of strings",
        SettingType::ArrayObject => "array of objects",
        SettingType::Object => "object",
    }
}

} // verus!

verus! {

/// What `get` resolves on a well-formed document is well-formed: the
/// stored value is, and every schema default is.
pub proof fn lemma_get_wf(es: Seq<(Seq<char>, JsonV)>, k: Seq<char>)
    requires
        wf_entries(es),
    ensures
        wf_value(spec_get(es, k)),
{
    if lookup(es, k) is Some {
        crate::json::lemma_lookup_wf(es, k);
    } else if known_key(k) {
        assert(wf_value(spec_default(k)));
    }
}

} // verus!

verus! {

/// On a freshly loaded empty document, every known key resolves to its
/// schema default.
pub proof fn lemma_fresh_get_default(k: Seq<char>)
    requires
        known_key(k),
    ensures
        spec_get(Seq::<(Seq<char>, JsonV)>::empty(), k) == spec_default(k),
{
}

/// After setting a value that validation accepts, the key resolves to
/// that value and has an explicit entry.
pub proof fn lemma_set_then_get(es: Seq<(Seq<char>, JsonV)>, k: Seq<char>, v: JsonV)
    requires
        sorted_keys(es),
        spec_validate(k, v),
    ensures
        spec_get(entries_insert(es, k, v), k) == v,
        lookup(entries_insert(es, k, v), k) is Some,
{
    crate::json::lemma_insert_props(es, k, v);
}

/// After removing a key, it has no explicit entry and resolves to the
/// schema default, or to null when the schema does not know it.
pub proof fn lemma_remove_reverts(es: Seq<(Seq<char>, JsonV)>, k: Seq<char>)
    requires
        sorted_keys(es),
    ensures
        lookup(entries_remove(es, k), k) is None,
        spec_get(entries_remove(es, k), k) == (if known_key(k) {
            spec_default(k)
        } else {
            JsonV::Null
        }),
{
    crate::json::lemma_remove_props(es, k);
}

} // verus!

verus! {

/// The display name of a setting kind, as used in rejection messages.
pub open spec fn spec_kind_name(t: SettingType) -> Seq<char> {
    match t {
        SettingType::Boolean => "boolean"@,
        SettingType::String => "string"@,
        SettingType::StringEnum => "string"@,
        SettingType::Number => "number"@,
        SettingType::ArrayString => "array of strings"@,
        SettingType::ArrayObject => "array of objects"@,
        SettingType::Object => "object"@,
    }
}

/// The option list joined with commas, as printed in enum rejections.
pub open spec fn spec_options_joined(opts: Seq<Seq<char>>) -> Seq<char>
    decreases opts.len(),
{
    if opts.len() == 0 {
        Seq::empty()
    } else if opts.len() == 1 {
        opts[0]
    } else {
        spec_options_joined(opts.drop_last()) + ", "@ + opts.last()
    }
}

/// The reason a rejected value carries: the expected kind for a kind
/// mismatch, or the offered value and the valid options for an enum
/// mismatch.
pub open spec fn spec_validate_message(k: Seq<char>, v: JsonV) -> Seq<char> {
    if !spec_type_ok(spec_type_of(k), v) {
        spec_kind_name(spec_type_of(k)) + " expected for key '"@ + k + "'"@
    } else {
        "invalid value '"@ + (match v {
            JsonV::Str(x) => x,
            _ => Seq::empty(),
        }) + "' for '"@ + k + "', expected one of: "@ + spec_options_joined(spec_options(k)->0)
    }
}

} // verus!
