//! A JSON-like value for rule contexts, payloads and bus events: null,
//! booleans, integers, strings, lists and objects with ordered fields.

use vstd::prelude::*;
use vstd::utf8::encode_utf8;

use crate::strutil::{bytes_eq, dec_digits_of, dec_render, push_bytes};
use crate::audit::{json_escape, push_json_escaped};

verus! {

broadcast use vstd::seq::axiom_seq_index_decreases, vstd::std_specs::vec::axiom_vec_index_decreases;

/// A structured value.
#[derive(Debug)]
pub enum RuleValue {
    Null,
    Bool(bool),
    Int(i64),
    Str(String),
    List(Vec<RuleValue>),
    Obj(Vec<(String, RuleValue)>),
}

/// Model of a [`RuleValue`]: text as the bytes it is written with.
pub enum ValueV {
    Null,
    Bool(bool),
    Int(i64),
    Str(Seq<u8>),
    List(Seq<ValueV>),
    Obj(Seq<(Seq<u8>, ValueV)>),
}

/// The model of a value.
pub open spec fn value_view(v: RuleValue) -> ValueV
    decreases v, 1int, 0int,
{
    match v {
        RuleValue::Null => ValueV::Null,
        RuleValue::Bool(b) => ValueV::Bool(b),
        RuleValue::Int(i) => ValueV::Int(i),
        RuleValue::Str(s) => ValueV::Str(encode_utf8(s@)),
        RuleValue::List(vs) => ValueV::List(list_views(vs@)),
        RuleValue::Obj(fs) => ValueV::Obj(field_views(fs@)),
    }
}

/// The models of a sequence of values.
pub open spec fn list_views(vs: Seq<RuleValue>) -> Seq<ValueV>
    decreases vs, 0int, vs.len(),
{
    if vs.len() == 0 {
        Seq::empty()
    } else {
        seq![value_view(vs[0])] + list_views(vs.skip(1))
    }
}

/// The models of a sequence of object fields.
pub open spec fn field_views(fs: Seq<(String, RuleValue)>) -> Seq<(Seq<u8>, ValueV)>
    decreases fs, 0int, fs.len(),
{
    if fs.len() == 0 {
        Seq::empty()
    } else {
        seq![(encode_utf8(fs[0].0@), value_view(fs[0].1))] + field_views(fs.skip(1))
    }
}

/// Indexing facts for [`list_views`] and [`field_views`].
pub proof fn lemma_list_views_index(vs: Seq<RuleValue>, i: int)
    requires
        0 <= i < vs.len(),
    ensures
        list_views(vs).len() == vs.len(),
        list_views(vs)[i] == value_view(vs[i]),
    decreases vs.len(),
{
    lemma_list_views_len(vs);
    if i > 0 {
        lemma_list_views_index(vs.skip(1), i - 1);
        assert(vs.skip(1)[i - 1] == vs[i]);
    }
}

/// The length of [`list_views`].
pub proof fn lemma_list_views_len(vs: Seq<RuleValue>)
    ensures
        list_views(vs).len() == vs.len(),
    decreases vs.len(),
{
    if vs.len() > 0 {
        lemma_list_views_len(vs.skip(1));
    }
}

/// Indexing facts for [`field_views`].
pub proof fn lemma_field_views_index(fs: Seq<(String, RuleValue)>, i: int)
    requires
        0 <= i < fs.len(),
    ensures
        field_views(fs).len() == fs.len(),
        field_views(fs)[i] == (encode_utf8(fs[i].0@), value_view(fs[i].1)),
    decreases fs.len(),
{
    lemma_field_views_len(fs);
    if i > 0 {
        lemma_field_views_index(fs.skip(1), i - 1);
        assert(fs.skip(1)[i - 1] == fs[i]);
    }
}

/// The length of [`field_views`].
pub proof fn lemma_field_views_len(fs: Seq<(String, RuleValue)>)
    ensures
        field_views(fs).len() == fs.len(),
    decreases fs.len(),
{
    if fs.len() > 0 {
        lemma_field_views_len(fs.skip(1));
    }
}

impl View for RuleValue {
    type V = ValueV;

    open spec fn view(&self) -> ValueV {
        value_view(*self)
    }
}

impl RuleValue {
    /// A deep copy with the same model.
    pub fn duplicate(&self) -> (r: RuleValue)
        ensures
            r@ == self@,
        decreases *self,
    {
        match self {
            RuleValue::Null => RuleValue::Null,
            RuleValue::Bool(b) => RuleValue::Bool(*b),
            RuleValue::Int(i) => RuleValue::Int(*i),
            RuleValue::Str(s) => RuleValue::Str(s.clone()),
            RuleValue::List(vs) => {
                let mut out: Vec<RuleValue> = Vec::new();
                let mut i: usize = 0;
                while i < vs.len()
                    invariant
                        i <= vs@.len(),
                        out@.len() == i,
                        self is List && self->List_0@ == vs@,
                        forall|j: int| 0 <= j < i ==> value_view(#[trigger] out@[j]) == value_view(
                            vs@[j],
                        ),
                    decreases vs@.len() - i,
                {
                    out.push(vs[i].duplicate());
                    i = i + 1;
                }
                let r = RuleValue::List(out);
                proof {
                    assert forall|j: int| 0 <= j < vs@.len() implies #[trigger] list_views(
                        r->List_0@,
                    )[j] == list_views(vs@)[j] by {
                        lemma_list_views_index(r->List_0@, j);
                        lemma_list_views_index(vs@, j);
                    }
                    lemma_list_views_len(r->List_0@);
                    lemma_list_views_len(vs@);
                    assert(list_views(r->List_0@) =~= list_views(vs@));
                }
                r
            },
            RuleValue::Obj(fs) => {
                let mut out: Vec<(String, RuleValue)> = Vec::new();
                let mut i: usize = 0;
                while i < fs.len()
                    invariant
                        i <= fs@.len(),
                        out@.len() == i,
                        self is Obj && self->Obj_0@ == fs@,
                        forall|j: int| 0 <= j < i ==> (#[trigger] out@[j]).0@ == fs@[j].0@
                            && value_view(out@[j].1) == value_view(fs@[j].1),
                    decreases fs@.len() - i,
                {
                    let entry = &fs[i];
                    out.push((entry.0.clone(), entry.1.duplicate()));
                    i = i + 1;
                }
                let r = RuleValue::Obj(out);
                proof {
                    assert forall|j: int| 0 <= j < fs@.len() implies #[trigger] field_views(
                        r->Obj_0@,
                    )[j] == field_views(fs@)[j] by {
                        lemma_field_views_index(r->Obj_0@, j);
                        lemma_field_views_index(fs@, j);
                    }
                    lemma_field_views_len(r->Obj_0@);
                    lemma_field_views_len(fs@);
                    assert(field_views(r->Obj_0@) =~= field_views(fs@));
                }
                r
            },
        }
    }

    /// The integer a value coerces to for numeric comparison.
    pub fn as_int(&self) -> (r: Option<i64>)
        ensures
            r == self@.spec_as_int(),
    {
        match self {
            RuleValue::Int(i) => Some(*i),
            _ => None,
        }
    }
}

impl ValueV {
    /// The integer a value coerces to for numeric comparison.
    pub open spec fn spec_as_int(self) -> Option<i64> {
        match self {
            ValueV::Int(i) => Some(i),
            _ => None,
        }
    }
}

/// Structural equality of two values, by model.
pub fn value_eq(a: &RuleValue, b: &RuleValue) -> (r: bool)
    ensures
        r == (a@ == b@),
    decreases *a,
{
    match (a, b) {
        (RuleValue::Null, RuleValue::Null) => true,
        (RuleValue::Bool(x), RuleValue::Bool(y)) => x == y,
        (RuleValue::Int(x), RuleValue::Int(y)) => x == y,
        (RuleValue::Str(x), RuleValue::Str(y)) => {
            let r = bytes_eq(x.as_str().as_bytes(), y.as_str().as_bytes());
            r
        },
        (RuleValue::List(xs), RuleValue::List(ys)) => {
            if xs.len() != ys.len() {
                assert(a@ != b@) by {
                    lemma_list_views_len(xs@);
                    lemma_list_views_len(ys@);
                }
                return false;
            }
            let mut i: usize = 0;
            while i < xs.len()
                invariant
                    i <= xs@.len(),
                    xs@.len() == ys@.len(),
                    a is List && a->List_0@ == xs@,
                    b is List && b->List_0@ == ys@,
                    forall|j: int| 0 <= j < i ==> value_view(#[trigger] xs@[j]) == value_view(
                        ys@[j],
                    ),
                decreases xs@.len() - i,
            {
                let e = value_eq(&xs[i], &ys[i]);
                if !e {
                    proof {
                        lemma_list_views_index(xs@, i as int);
                        lemma_list_views_index(ys@, i as int);
                        assert(value_view(*a)->List_0[i as int] != value_view(*b)->List_0[i as int]);
                    }
                    return false;
                }
                i = i + 1;
            }
            proof {
                assert forall|j: int| 0 <= j < xs@.len() implies #[trigger] list_views(xs@)[j]
                    == list_views(ys@)[j] by {
                    lemma_list_views_index(xs@, j);
                    lemma_list_views_index(ys@, j);
                }
                lemma_list_views_len(xs@);
                lemma_list_views_len(ys@);
                assert(value_view(*a)->List_0 =~= value_view(*b)->List_0);
            }
            true
        },
        (RuleValue::Obj(xs), RuleValue::Obj(ys)) => {
            if xs.len() != ys.len() {
                assert(a@ != b@) by {
                    lemma_field_views_len(xs@);
                    lemma_field_views_len(ys@);
                }
                return false;
            }
            let mut i: usize = 0;
            while i < xs.len()
                invariant
                    i <= xs@.len(),
                    xs@.len() == ys@.len(),
                    a is Obj && a->Obj_0@ == xs@,
                    b is Obj && b->Obj_0@ == ys@,
                    forall|j: int| 0 <= j < i ==> #[trigger] field_views(xs@)[j] == field_views(
                        ys@,
                    )[j],
                decreases xs@.len() - i,
            {
                let ex = &xs[i];
                let ey = &ys[i];
                let keys = bytes_eq(ex.0.as_str().as_bytes(), ey.0.as_str().as_bytes());
                if !keys {
                    proof {
                        lemma_field_views_index(xs@, i as int);
                        lemma_field_views_index(ys@, i as int);
                        assert(value_view(*a)->Obj_0[i as int].0 != value_view(*b)->Obj_0[i as int].0);
                    }
                    return false;
                }
                let vals = value_eq(&ex.1, &ey.1);
                if !vals {
                    proof {
                        lemma_field_views_index(xs@, i as int);
                        lemma_field_views_index(ys@, i as int);
                        assert(value_view(*a)->Obj_0[i as int].1 != value_view(*b)->Obj_0[i as int].1);
                    }
                    return false;
                }
                assert(encode_utf8(xs@[i as int].0@) == encode_utf8(ys@[i as int].0@));
                assert(value_view(xs@[i as int].1) == value_view(ys@[i as int].1));
                proof {
                    lemma_field_views_index(xs@, i as int);
                    lemma_field_views_index(ys@, i as int);
                }
                i = i + 1;
            }
            proof {
                lemma_field_views_len(xs@);
                lemma_field_views_len(ys@);
                assert(value_view(*a)->Obj_0 =~= value_view(*b)->Obj_0);
            }
            true
        },
        _ => {
            proof {
                vstd::utf8::encode_utf8_decode_utf8(Seq::<char>::empty());
            }
            false
        },
    }
}

/// Decimal rendering of a signed integer.
pub open spec fn int_digits_of(v: int) -> Seq<u8> {
    if v >= 0 {
        dec_digits_of(v as nat)
    } else {
        seq![45u8] + dec_digits_of((-v) as nat)
    }
}

/// The JSON rendering of a value: `null`, `true`/`false`, decimal integers,
/// escaped strings, `[...]` lists and `{...}` objects in field order.
pub open spec fn json_bytes_of(v: ValueV) -> Seq<u8>
    decreases v,
{
    match v {
        ValueV::Null => encode_utf8("null"@),
        ValueV::Bool(b) => if b {
            encode_utf8("true"@)
        } else {
            encode_utf8("false"@)
        },
        ValueV::Int(i) => int_digits_of(i as int),
        ValueV::Str(s) => seq![34u8] + json_escape(s) + seq![34u8],
        ValueV::List(vs) => seq![91u8] + json_list_items(vs) + seq![93u8],
        ValueV::Obj(fs) => seq![123u8] + json_obj_items(fs) + seq![125u8],
    }
}

/// The comma-separated renderings of list items.
pub open spec fn json_list_items(vs: Seq<ValueV>) -> Seq<u8>
    decreases vs, 1int, vs.len(),
{
    if vs.len() == 0 {
        Seq::empty()
    } else if vs.len() == 1 {
        json_bytes_of(vs[0])
    } else {
        json_bytes_of(vs[0]) + seq![44u8] + json_list_items(vs.skip(1))
    }
}

/// The comma-separated renderings of object fields.
pub open spec fn json_obj_items(fs: Seq<(Seq<u8>, ValueV)>) -> Seq<u8>
    decreases fs, 1int, fs.len(),
{
    if fs.len() == 0 {
        Seq::empty()
    } else {
        let field = seq![34u8] + json_escape(fs[0].0) + seq![34u8, 58u8] + json_bytes_of(fs[0].1);
        if fs.len() == 1 {
            field
        } else {
            field + seq![44u8] + json_obj_items(fs.skip(1))
        }
    }
}

/// Append the JSON rendering of `v` to `out`.
pub fn push_json_value(out: &mut Vec<u8>, v: &RuleValue)
    ensures
        final(out)@ == old(out)@ + json_bytes_of(v@),
    decreases *v,
{
    match v {
        RuleValue::Null => {
            push_bytes(out, "null".as_bytes());
        },
        RuleValue::Bool(b) => {
            if *b {
                push_bytes(out, "true".as_bytes());
            } else {
                push_bytes(out, "false".as_bytes());
            }
        },
        RuleValue::Int(i) => {
            let v64 = *i;
            if v64 >= 0 {
                let digits = dec_render(v64 as u64);
                push_bytes(out, digits.as_slice());
            } else {
                out.push(45);
                let magnitude: u64 = (-((v64 as i128)) as u64);
                assert(magnitude == -(v64 as int));
                let digits = dec_render(magnitude);
                push_bytes(out, digits.as_slice());
                assert(out@ =~= old(out)@ + int_digits_of(v64 as int));
            }
        },
        RuleValue::Str(s) => {
            out.push(34);
            push_json_escaped(out, s.as_str().as_bytes());
            out.push(34);
            assert(out@ =~= old(out)@ + json_bytes_of(v@));
        },
        RuleValue::List(vs) => {
            out.push(91);
            let mut i: usize = 0;
            while i < vs.len()
                invariant
                    i <= vs@.len(),
                    v is List && v->List_0@ == vs@,
                    out@ == old(out)@ + seq![91u8] + json_prefix_list(list_views(vs@), i as int),
                decreases vs@.len() - i,
            {
                if i > 0 {
                    out.push(44);
                }
                push_json_value(out, &vs[i]);
                proof {
                    lemma_list_views_index(vs@, i as int);
                    lemma_json_prefix_list_step(list_views(vs@), i as int);
                    assert(out@ =~= old(out)@ + seq![91u8] + json_prefix_list(
                        list_views(vs@),
                        i as int + 1,
                    ));
                }
                i = i + 1;
            }
            out.push(93);
            proof {
                lemma_list_views_len(vs@);
                lemma_json_prefix_list_full(list_views(vs@));
                assert(out@ =~= old(out)@ + json_bytes_of(v@));
            }
        },
        RuleValue::Obj(fs) => {
            out.push(123);
            let mut i: usize = 0;
            while i < fs.len()
                invariant
                    i <= fs@.len(),
                    v is Obj && v->Obj_0@ == fs@,
                    out@ == old(out)@ + seq![123u8] + json_prefix_obj(field_views(fs@), i as int),
                decreases fs@.len() - i,
            {
                if i > 0 {
                    out.push(44);
                }
                out.push(34);
                push_json_escaped(out, fs[i].0.as_str().as_bytes());
                out.push(34);
                out.push(58);
                push_json_value(out, &fs[i].1);
                proof {
                    lemma_field_views_index(fs@, i as int);
                    lemma_json_prefix_obj_step(field_views(fs@), i as int);
                    assert(out@ =~= old(out)@ + seq![123u8] + json_prefix_obj(
                        field_views(fs@),
                        i as int + 1,
                    ));
                }
                i = i + 1;
            }
            out.push(125);
            proof {
                lemma_field_views_len(fs@);
                lemma_json_prefix_obj_full(field_views(fs@));
                assert(out@ =~= old(out)@ + json_bytes_of(v@));
            }
        },
    }
}

/// The rendering of the first `i` list items, with separators.
pub open spec fn json_prefix_list(vs: Seq<ValueV>, i: int) -> Seq<u8>
    decreases i,
{
    if i <= 0 {
        Seq::empty()
    } else if i == 1 {
        json_bytes_of(vs[0])
    } else {
        json_prefix_list(vs, i - 1) + seq![44u8] + json_bytes_of(vs[i - 1])
    }
}

proof fn lemma_json_prefix_list_step(vs: Seq<ValueV>, i: int)
    requires
        0 <= i < vs.len(),
    ensures
        json_prefix_list(vs, i + 1) == if i == 0 {
            json_bytes_of(vs[0])
        } else {
            json_prefix_list(vs, i) + seq![44u8] + json_bytes_of(vs[i])
        },
{
}

proof fn lemma_json_prefix_list_full(vs: Seq<ValueV>)
    ensures
        json_prefix_list(vs, vs.len() as int) =~= json_list_items(vs),
    decreases vs.len(),
{
    if vs.len() > 1 {
        lemma_json_prefix_list_full(vs.skip(1));
        lemma_json_prefix_shift(vs, vs.len() as int - 1);
        assert(json_prefix_list(vs, vs.len() as int) =~= json_bytes_of(vs[0]) + seq![44u8]
            + json_prefix_list(vs.skip(1), vs.len() as int - 1));
    }
}

/// Prefixes commute with dropping the first element.
proof fn lemma_json_prefix_shift(vs: Seq<ValueV>, i: int)
    requires
        1 <= i < vs.len(),
    ensures
        json_prefix_list(vs, i + 1) =~= json_bytes_of(vs[0]) + seq![44u8] + json_prefix_list(
            vs.skip(1),
            i,
        ),
    decreases i,
{
    if i > 1 {
        lemma_json_prefix_shift(vs, i - 1);
        assert(vs.skip(1)[i - 1] == vs[i]);
        assert(json_prefix_list(vs, i + 1) == json_prefix_list(vs, i) + seq![44u8]
            + json_bytes_of(vs[i]));
        assert(json_prefix_list(vs.skip(1), i) == json_prefix_list(vs.skip(1), i - 1) + seq![44u8]
            + json_bytes_of(vs.skip(1)[i - 1]));
    } else {
        assert(vs.skip(1)[0] == vs[1]);
        assert(json_prefix_list(vs, 2) == json_prefix_list(vs, 1) + seq![44u8] + json_bytes_of(
            vs[1],
        ));
        assert(json_prefix_list(vs, 1) == json_bytes_of(vs[0]));
        assert(json_prefix_list(vs.skip(1), 1) == json_bytes_of(vs.skip(1)[0]));
    }
}

/// The rendering of the first `i` object fields, with separators.
pub open spec fn json_prefix_obj(fs: Seq<(Seq<u8>, ValueV)>, i: int) -> Seq<u8>
    decreases i,
{
    if i <= 0 {
        Seq::empty()
    } else {
        let field = seq![34u8] + json_escape(fs[i - 1].0) + seq![34u8, 58u8] + json_bytes_of(
            fs[i - 1].1,
        );
        if i == 1 {
            field
        } else {
            json_prefix_obj(fs, i - 1) + seq![44u8] + field
        }
    }
}

proof fn lemma_json_prefix_obj_step(fs: Seq<(Seq<u8>, ValueV)>, i: int)
    requires
        0 <= i < fs.len(),
    ensures
        json_prefix_obj(fs, i + 1) == {
            let field = seq![34u8] + json_escape(fs[i].0) + seq![34u8, 58u8] + json_bytes_of(
                fs[i].1,
            );
            if i == 0 {
                field
            } else {
                json_prefix_obj(fs, i) + seq![44u8] + field
            }
        },
{
}

proof fn lemma_json_prefix_obj_full(fs: Seq<(Seq<u8>, ValueV)>)
    ensures
        json_prefix_obj(fs, fs.len() as int) =~= json_obj_items(fs),
    decreases fs.len(),
{
    if fs.len() > 1 {
        lemma_json_prefix_obj_full(fs.skip(1));
        lemma_json_prefix_obj_shift(fs, fs.len() as int - 1);
    }
}

proof fn lemma_json_prefix_obj_shift(fs: Seq<(Seq<u8>, ValueV)>, i: int)
    requires
        1 <= i < fs.len(),
    ensures
        json_prefix_obj(fs, i + 1) =~= (seq![34u8] + json_escape(fs[0].0) + seq![34u8, 58u8]
            + json_bytes_of(fs[0].1)) + seq![44u8] + json_prefix_obj(fs.skip(1), i),
    decreases i,
{
    if i > 1 {
        lemma_json_prefix_obj_shift(fs, i - 1);
        assert(fs.skip(1)[i - 1] == fs[i]);
        assert(json_prefix_obj(fs, i + 1) == json_prefix_obj(fs, i) + seq![44u8] + (seq![34u8]
            + json_escape(fs[i].0) + seq![34u8, 58u8] + json_bytes_of(fs[i].1)));
        assert(json_prefix_obj(fs.skip(1), i) == json_prefix_obj(fs.skip(1), i - 1) + seq![44u8]
            + (seq![34u8] + json_escape(fs.skip(1)[i - 1].0) + seq![34u8, 58u8] + json_bytes_of(
            fs.skip(1)[i - 1].1,
        )));
    } else {
        assert(fs.skip(1)[0] == fs[1]);
        assert(json_prefix_obj(fs, 2) == json_prefix_obj(fs, 1) + seq![44u8] + (seq![34u8]
            + json_escape(fs[1].0) + seq![34u8, 58u8] + json_bytes_of(fs[1].1)));
        assert(json_prefix_obj(fs, 1) == seq![34u8] + json_escape(fs[0].0) + seq![34u8, 58u8]
            + json_bytes_of(fs[0].1));
        assert(json_prefix_obj(fs.skip(1), 1) == seq![34u8] + json_escape(fs.skip(1)[0].0) + seq![
            34u8,
            58u8,
        ] + json_bytes_of(fs.skip(1)[0].1));
    }
}

/// Render a value as JSON bytes.
pub fn render_json(v: &RuleValue) -> (r: Vec<u8>)
    ensures
        r@ == json_bytes_of(v@),
{
    let mut out: Vec<u8> = Vec::new();
    push_json_value(&mut out, v);
    out
}

} // verus!
