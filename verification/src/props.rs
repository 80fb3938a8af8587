//! Free-form property bags: JSON-shaped trees of primitive values, arrays and
//! objects, without floating point. Nodes, edges, query filters and request
//! contexts all carry their properties as these values.

use vstd::prelude::*;

verus! {

broadcast use vstd::seq::group_seq_axioms;

/// One key-value entry of a property object.
#[derive(Debug)]
pub struct PropEntry {
    pub key: String,
    pub value: PropValue,
}

/// A property value: a JSON-shaped tree. Objects are ordered key-value lists.
#[derive(Debug)]
pub enum PropValue {
    Null,
    Bool(bool),
    Int(i64),
    Str(String),
    Arr(Vec<PropValue>),
    Obj(Vec<PropEntry>),
}

/// Mathematical model of one object entry.
pub struct PropEntryView {
    pub key: Seq<char>,
    pub value: PropView,
}

/// Mathematical model of a property value.
pub enum PropView {
    Null,
    Bool(bool),
    Int(int),
    Str(Seq<char>),
    Arr(Seq<PropView>),
    Obj(Seq<PropEntryView>),
}

impl View for PropValue {
    type V = PropView;

    open spec fn view(&self) -> PropView
        decreases self,
    {
        match self {
            PropValue::Null => PropView::Null,
            PropValue::Bool(b) => PropView::Bool(*b),
            PropValue::Int(i) => PropView::Int(*i as int),
            PropValue::Str(s) => PropView::Str(s@),
            PropValue::Arr(items) => PropView::Arr(
                Seq::new(
                    items@.len(),
                    |i: int|
                        if 0 <= i < items@.len() {
                            items@[i]@
                        } else {
                            PropView::Null
                        },
                ),
            ),
            PropValue::Obj(entries) => PropView::Obj(
                Seq::new(
                    entries@.len(),
                    |i: int|
                        if 0 <= i < entries@.len() {
                            entries@[i]@
                        } else {
                            PropEntryView { key: Seq::empty(), value: PropView::Null }
                        },
                ),
            ),
        }
    }
}

impl View for PropEntry {
    type V = PropEntryView;

    open spec fn view(&self) -> PropEntryView
        decreases self,
    {
        PropEntryView { key: self.key@, value: self.value@ }
    }
}

/// The view of an array value is the element-wise view of its items.
pub broadcast proof fn lemma_arr_view(items: Vec<PropValue>)
    ensures
        (#[trigger] PropValue::Arr(items)@) matches PropView::Arr(s) && s.len() == items@.len()
            && forall|i: int| 0 <= i < items@.len() ==> s[i] == items@[i]@,
{
}

/// The view of an object value is the entry-wise view of its entries.
pub broadcast proof fn lemma_obj_view(entries: Vec<PropEntry>)
    ensures
        (#[trigger] PropValue::Obj(entries)@) matches PropView::Obj(s) && s.len()
            == entries@.len() && forall|i: int| 0 <= i < entries@.len() ==> s[i] == entries@[i]@,
{
}

/// Entry-wise view of a property bag.
pub open spec fn props_view(entries: Seq<PropEntry>) -> Seq<PropEntryView> {
    Seq::new(
        entries.len(),
        |i: int|
            if 0 <= i < entries.len() {
                entries[i]@
            } else {
                PropEntryView { key: Seq::empty(), value: PropView::Null }
            },
    )
}

/// First-match lookup of a key in a property bag.
pub open spec fn lookup_prop(s: Seq<PropEntryView>, key: Seq<char>) -> Option<PropView>
    decreases s.len(),
{
    if s.len() == 0 {
        None
    } else if s[0].key == key {
        Some(s[0].value)
    } else {
        lookup_prop(s.drop_first(), key)
    }
}

/// Replacing the first entry holding a key, or appending the entry when the
/// key is absent.
pub open spec fn update_prop(
    s: Seq<PropEntryView>,
    key: Seq<char>,
    value: PropView,
) -> Seq<PropEntryView>
    decreases s.len(),
{
    if s.len() == 0 {
        seq![PropEntryView { key, value }]
    } else if s[0].key == key {
        seq![PropEntryView { key, value }] + s.drop_first()
    } else {
        seq![s[0]] + update_prop(s.drop_first(), key, value)
    }
}

/// When the first `i` keys all differ from `key`, the lookup is decided by
/// the rest of the bag.
proof fn lemma_lookup_skip(s: Seq<PropEntryView>, key: Seq<char>, i: int)
    requires
        0 <= i <= s.len(),
        forall|j: int| 0 <= j < i ==> s[j].key != key,
    ensures
        lookup_prop(s, key) == lookup_prop(s.skip(i), key),
    decreases i,
{
    if i > 0 {
        assert(s.drop_first().skip(i - 1) =~= s.skip(i));
        lemma_lookup_skip(s.drop_first(), key, i - 1);
    } else {
        assert(s.skip(0) =~= s);
    }
}

/// Looking up a key after updating it yields the new value; other keys are
/// unaffected.
pub proof fn lemma_lookup_after_update(s: Seq<PropEntryView>, key: Seq<char>, value: PropView)
    ensures
        lookup_prop(update_prop(s, key, value), key) == Some(value),
        forall|other: Seq<char>|
            other != key ==> #[trigger] lookup_prop(update_prop(s, key, value), other)
                == lookup_prop(s, other),
    decreases s.len(),
{
    if s.len() == 0 {
        assert(update_prop(s, key, value) =~= seq![PropEntryView { key, value }]);
        assert(update_prop(s, key, value).len() == 1);
        assert(update_prop(s, key, value)[0] == PropEntryView { key, value });
        assert(lookup_prop(update_prop(s, key, value), key) == Some(value));
        assert forall|other: Seq<char>| other != key implies #[trigger] lookup_prop(
            update_prop(s, key, value),
            other,
        ) == lookup_prop(s, other) by {
            reveal_with_fuel(lookup_prop, 2);
            let u = update_prop(s, key, value);
            assert(u[0] == PropEntryView { key, value });
            assert(u.drop_first().len() == 0);
        }
    } else if s[0].key == key {
        assert(update_prop(s, key, value)[0] == PropEntryView { key, value });
        assert(update_prop(s, key, value).drop_first() =~= s.drop_first());
        assert(lookup_prop(update_prop(s, key, value), key) == Some(value));
        assert forall|other: Seq<char>| other != key implies #[trigger] lookup_prop(
            update_prop(s, key, value),
            other,
        ) == lookup_prop(s, other) by {
            let u = update_prop(s, key, value);
            assert(u[0] == PropEntryView { key, value });
            assert(u.drop_first() =~= s.drop_first());
        }
    } else {
        lemma_lookup_after_update(s.drop_first(), key, value);
        assert(update_prop(s, key, value)[0] == s[0]);
        assert(update_prop(s, key, value).drop_first() =~= update_prop(s.drop_first(), key, value));
        assert(lookup_prop(update_prop(s, key, value), key) == Some(value));
        assert forall|other: Seq<char>| other != key implies #[trigger] lookup_prop(
            update_prop(s, key, value),
            other,
        ) == lookup_prop(s, other) by {
            let u = update_prop(s, key, value);
            assert(u[0] == s[0]);
            assert(u.drop_first() =~= update_prop(s.drop_first(), key, value));
            assert(lookup_prop(update_prop(s.drop_first(), key, value), other) == lookup_prop(
                s.drop_first(),
                other,
            ));
        }
    }
}

/// Structural equality of two property values, decided by their models.
#[verifier::loop_isolation(false)]
pub fn prop_value_eq(a: &PropValue, b: &PropValue) -> (r: bool)
    ensures
        r == (a@ == b@),
    decreases a,
{
    match (a, b) {
        (PropValue::Null, PropValue::Null) => true,
        (PropValue::Bool(x), PropValue::Bool(y)) => *x == *y,
        (PropValue::Int(x), PropValue::Int(y)) => *x == *y,
        (PropValue::Str(x), PropValue::Str(y)) => *x == *y,
        (PropValue::Arr(xs), PropValue::Arr(ys)) => {
            proof {
                lemma_arr_view(*xs);
                lemma_arr_view(*ys);
                assert(*a == PropValue::Arr(*xs));
                assert(*b == PropValue::Arr(*ys));
            }
            if xs.len() != ys.len() {
                return false;
            }
            let mut i: usize = 0;
            while i < xs.len()
                invariant
                    0 <= i <= xs.len(),
                    forall|j: int| 0 <= j < i ==> xs@[j]@ == ys@[j]@,
                decreases xs.len() - i,
            {
                if !prop_value_eq(&xs[i], &ys[i]) {
                    proof {
                        assert(a@->Arr_0[i as int] == xs@[i as int]@);
                        assert(b@->Arr_0[i as int] == ys@[i as int]@);
                        assert(a@->Arr_0 != b@->Arr_0);
                    }
                    return false;
                }
                i += 1;
            }
            proof {
                assert(a@->Arr_0 =~= b@->Arr_0);
            }
            true
        },
        (PropValue::Obj(xs), PropValue::Obj(ys)) => {
            proof {
                lemma_obj_view(*xs);
                lemma_obj_view(*ys);
                assert(*a == PropValue::Obj(*xs));
                assert(*b == PropValue::Obj(*ys));
            }
            if xs.len() != ys.len() {
                return false;
            }
            let mut i: usize = 0;
            while i < xs.len()
                invariant
                    0 <= i <= xs.len(),
                    forall|j: int| 0 <= j < i ==> xs@[j]@ == ys@[j]@,
                decreases xs.len() - i,
            {
                if !crate::ext::str_eq(xs[i].key.as_str(), ys[i].key.as_str()) {
                    proof {
                        assert(a@->Obj_0[i as int] == xs@[i as int]@);
                        assert(b@->Obj_0[i as int] == ys@[i as int]@);
                        assert(a@->Obj_0[i as int].key != b@->Obj_0[i as int].key);
                        assert(a@->Obj_0 != b@->Obj_0);
                    }
                    return false;
                }
                if !prop_value_eq(&xs[i].value, &ys[i].value) {
                    proof {
                        assert(a@->Obj_0[i as int] == xs@[i as int]@);
                        assert(b@->Obj_0[i as int] == ys@[i as int]@);
                        assert(a@->Obj_0[i as int].value != b@->Obj_0[i as int].value);
                        assert(a@->Obj_0 != b@->Obj_0);
                    }
                    return false;
                }
                i += 1;
            }
            proof {
                assert(a@->Obj_0 =~= b@->Obj_0);
            }
            true
        },
        _ => {
            proof {
                assert(a@ != b@);
            }
            false
        },
    }
}

impl Clone for PropValue {
    /// Cloning preserves the model.
    #[verifier::loop_isolation(false)]
    fn clone(&self) -> (res: Self)
        ensures
            res@ == self@,
        decreases self,
    {
        match self {
            PropValue::Null => PropValue::Null,
            PropValue::Bool(b) => PropValue::Bool(*b),
            PropValue::Int(i) => PropValue::Int(*i),
            PropValue::Str(s) => PropValue::Str(s.clone()),
            PropValue::Arr(xs) => {
                let mut out: Vec<PropValue> = Vec::new();
                let mut i: usize = 0;
                while i < xs.len()
                    invariant
                        0 <= i <= xs.len(),
                        out@.len() == i,
                        forall|j: int| 0 <= j < i ==> out@[j]@ == xs@[j]@,
                    decreases xs.len() - i,
                {
                    out.push(xs[i].clone());
                    i += 1;
                }
                let res = PropValue::Arr(out);
                proof {
                    assert(res@->Arr_0 =~= self@->Arr_0);
                }
                res
            },
            PropValue::Obj(xs) => {
                let mut out: Vec<PropEntry> = Vec::new();
                let mut i: usize = 0;
                while i < xs.len()
                    invariant
                        0 <= i <= xs.len(),
                        out@.len() == i,
                        forall|j: int| 0 <= j < i ==> out@[j]@ == xs@[j]@,
                    decreases xs.len() - i,
                {
                    let entry = PropEntry { key: xs[i].key.clone(), value: xs[i].value.clone() };
                    out.push(entry);
                    i += 1;
                }
                let res = PropValue::Obj(out);
                proof {
                    assert(res@->Obj_0 =~= self@->Obj_0);
                }
                res
            },
        }
    }
}

impl Clone for PropEntry {
    /// Cloning preserves the model.
    fn clone(&self) -> (res: Self)
        ensures
            res@ == self@,
    {
        PropEntry { key: self.key.clone(), value: self.value.clone() }
    }
}

/// Clones a whole property bag, preserving its model.
pub fn clone_props(entries: &Vec<PropEntry>) -> (res: Vec<PropEntry>)
    ensures
        props_view(res@) == props_view(entries@),
        res@.len() == entries@.len(),
{
    let mut out: Vec<PropEntry> = Vec::new();
    let mut i: usize = 0;
    while i < entries.len()
        invariant
            0 <= i <= entries.len(),
            out@.len() == i,
            forall|j: int| 0 <= j < i ==> out@[j]@ == entries@[j]@,
        decreases entries.len() - i,
    {
        out.push(entries[i].clone());
        i += 1;
    }
    proof {
        assert(props_view(out@) =~= props_view(entries@));
    }
    out
}

/// First-match lookup in a property bag; `None` when the key is absent.
pub fn props_get<'a>(entries: &'a Vec<PropEntry>, key: &str) -> (r: Option<&'a PropValue>)
    ensures
        match r {
            Some(v) => lookup_prop(props_view(entries@), key@) == Some(v@),
            None => lookup_prop(props_view(entries@), key@) is None,
        },
{
    let ghost s = props_view(entries@);
    let mut i: usize = 0;
    while i < entries.len()
        invariant
            0 <= i <= entries.len(),
            s == props_view(entries@),
            s.len() == entries@.len(),
            forall|j: int| 0 <= j < i ==> s[j].key != key@,
        decreases entries.len() - i,
    {
        if crate::ext::str_eq(entries[i].key.as_str(), key) {
            proof {
                lemma_lookup_skip(s, key@, i as int);
                assert(s.skip(i as int)[0] == s[i as int]);
            }
            return Some(&entries[i].value);
        }
        i += 1;
    }
    proof {
        lemma_lookup_skip(s, key@, entries@.len() as int);
        assert(s.skip(s.len() as int).len() == 0);
    }
    None
}

/// When the first match of a key sits at position `i`, updating the key
/// replaces exactly that entry.
proof fn lemma_update_at_index(s: Seq<PropEntryView>, key: Seq<char>, value: PropView, i: int)
    requires
        0 <= i < s.len(),
        forall|j: int| 0 <= j < i ==> s[j].key != key,
        s[i].key == key,
    ensures
        update_prop(s, key, value) =~= s.update(i, PropEntryView { key, value }),
    decreases i,
{
    if i == 0 {
        assert(update_prop(s, key, value) =~= s.update(0, PropEntryView { key, value }));
    } else {
        lemma_update_at_index(s.drop_first(), key, value, i - 1);
        assert(update_prop(s, key, value) =~= seq![s[0]] + update_prop(
            s.drop_first(),
            key,
            value,
        ));
        assert(seq![s[0]] + s.drop_first().update(i - 1, PropEntryView { key, value }) =~= s
            .update(i, PropEntryView { key, value }));
    }
}

/// Updating a key that is absent from the bag appends a new entry.
proof fn lemma_update_absent(s: Seq<PropEntryView>, key: Seq<char>, value: PropView)
    requires
        forall|j: int| 0 <= j < s.len() ==> s[j].key != key,
    ensures
        update_prop(s, key, value) =~= s.push(PropEntryView { key, value }),
    decreases s.len(),
{
    if s.len() > 0 {
        lemma_update_absent(s.drop_first(), key, value);
        assert(seq![s[0]] + s.drop_first().push(PropEntryView { key, value }) =~= s.push(
            PropEntryView { key, value },
        ));
    }
}

/// Sets a key in a property bag: replaces the first entry holding it, or
/// appends a new entry.
pub fn props_set(entries: &mut Vec<PropEntry>, key: String, value: PropValue)
    ensures
        props_view(final(entries)@) == update_prop(props_view(old(entries)@), key@, value@),
{
    let ghost s0 = props_view(old(entries)@);
    let mut i: usize = 0;
    while i < entries.len()
        invariant
            0 <= i <= entries.len(),
            entries@ == old(entries)@,
            s0 == props_view(entries@),
            s0.len() == entries@.len(),
            forall|j: int| 0 <= j < i ==> s0[j].key != key@,
        decreases entries.len() - i,
    {
        if crate::ext::str_eq(entries[i].key.as_str(), key.as_str()) {
            let ghost kv = key@;
            let ghost vv = value@;
            entries[i] = PropEntry { key, value };
            proof {
                lemma_update_at_index(s0, kv, vv, i as int);
                assert(props_view(entries@) =~= s0.update(
                    i as int,
                    PropEntryView { key: kv, value: vv },
                ));
            }
            return ;
        }
        i += 1;
    }
    let ghost kv = key@;
    let ghost vv = value@;
    entries.push(PropEntry { key, value });
    proof {
        lemma_update_absent(s0, kv, vv);
        assert(props_view(entries@) =~= s0.push(PropEntryView { key: kv, value: vv }));
    }
}

} // verus!
