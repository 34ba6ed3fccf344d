//! A small JSON document tree and a verified renderer for it.
//!
//! The bookmark store is a JSON text; this module gives it an in-memory
//! shape.  Numbers are kept as signed 64-bit integers, which is all the
//! store uses, and strings are raw byte sequences.  `render_json` turns a
//! tree back into text: no whitespace, strings quoted with `"`, `\` and
//! control bytes escaped, object fields in the order they are held.

use vstd::prelude::*;

verus! {

/// One node of a JSON document.
#[derive(Debug, PartialEq, Eq)]
pub enum Json {
    Null,
    Bool(bool),
    Int(i64),
    Str(Vec<u8>),
    Arr(Vec<Json>),
    Obj(Vec<(Vec<u8>, Json)>),
}

/// Mathematical model of `Json`.
pub enum JsonView {
    Null,
    Bool(bool),
    Int(int),
    Str(Seq<u8>),
    Arr(Seq<JsonView>),
    Obj(Seq<(Seq<u8>, JsonView)>),
}

pub open spec fn json_elems_view(es: Seq<Json>) -> Seq<JsonView>
    decreases es,
{
    if es.len() == 0 {
        Seq::empty()
    } else {
        seq![json_view(es[0])] + json_elems_view(es.subrange(1, es.len() as int))
    }
}

pub open spec fn json_fields_view(fs: Seq<(Vec<u8>, Json)>) -> Seq<(Seq<u8>, JsonView)>
    decreases fs,
{
    if fs.len() == 0 {
        Seq::empty()
    } else {
        seq![(fs[0].0@, json_view(fs[0].1))] + json_fields_view(fs.subrange(1, fs.len() as int))
    }
}

pub open spec fn json_view(j: Json) -> JsonView
    decreases j,
{
    match j {
        Json::Null => JsonView::Null,
        Json::Bool(b) => JsonView::Bool(b),
        Json::Int(v) => JsonView::Int(v as int),
        Json::Str(s) => JsonView::Str(s@),
        Json::Arr(es) => JsonView::Arr(json_elems_view(es@)),
        Json::Obj(fs) => JsonView::Obj(json_fields_view(fs@)),
    }
}

impl View for Json {
    type V = JsonView;

    open spec fn view(&self) -> JsonView {
        json_view(*self)
    }
}

/// The decimal digits of `n`, most significant first.
pub open spec fn spec_digits(n: nat) -> Seq<u8>
    decreases n,
{
    if n < 10 {
        seq![(48 + n) as u8]
    } else {
        spec_digits(n / 10).push((48 + n % 10) as u8)
    }
}

/// The rendering of an integer: an optional minus sign, then digits.
pub open spec fn spec_render_int(v: int) -> Seq<u8> {
    if v < 0 {
        seq![45u8] + spec_digits((-v) as nat)
    } else {
        spec_digits(v as nat)
    }
}

/// A hexadecimal digit, lower case.
pub open spec fn spec_hex_digit(n: u8) -> u8 {
    if n < 10 {
        (48 + n) as u8
    } else {
        (87 + n) as u8
    }
}

/// How one string byte is rendered: quote and backslash get a backslash,
/// control bytes a `\u00..` escape, everything else stands as it is.
pub open spec fn spec_escape_byte(b: u8) -> Seq<u8> {
    if b == 34 {
        seq![92u8, 34u8]
    } else if b == 92 {
        seq![92u8, 92u8]
    } else if b < 32 {
        seq![92u8, 117u8, 48u8, 48u8, spec_hex_digit(b / 16), spec_hex_digit(b % 16)]
    } else {
        seq![b]
    }
}

/// The escaped form of a whole string body.
pub open spec fn spec_escape(s: Seq<u8>) -> Seq<u8>
    decreases s.len(),
{
    if s.len() == 0 {
        Seq::empty()
    } else {
        spec_escape(s.drop_last()) + spec_escape_byte(s.last())
    }
}

/// The rendering of a string: escaped body between double quotes.
pub open spec fn spec_render_str(s: Seq<u8>) -> Seq<u8> {
    seq![34u8] + spec_escape(s) + seq![34u8]
}

/// The rendering of a document node.
pub open spec fn spec_render(j: JsonView) -> Seq<u8>
    decreases j, 0int,
{
    match j {
        JsonView::Null => seq![110u8, 117u8, 108u8, 108u8],
        JsonView::Bool(b) => if b {
            seq![116u8, 114u8, 117u8, 101u8]
        } else {
            seq![102u8, 97u8, 108u8, 115u8, 101u8]
        },
        JsonView::Int(v) => spec_render_int(v),
        JsonView::Str(s) => spec_render_str(s),
        JsonView::Arr(es) => seq![91u8] + spec_render_elems(es, 0) + seq![93u8],
        JsonView::Obj(fs) => seq![123u8] + spec_render_fields(fs, 0) + seq![125u8],
    }
}

/// The rendering of the array elements from index `i` on, comma-separated.
pub open spec fn spec_render_elems(es: Seq<JsonView>, i: int) -> Seq<u8>
    decreases es, es.len() - i,
{
    if i < 0 || i >= es.len() {
        Seq::empty()
    } else if i == es.len() - 1 {
        spec_render(es[i])
    } else {
        spec_render(es[i]) + seq![44u8] + spec_render_elems(es, i + 1)
    }
}

/// The rendering of the object fields from index `i` on, comma-separated.
pub open spec fn spec_render_fields(fs: Seq<(Seq<u8>, JsonView)>, i: int) -> Seq<u8>
    decreases fs, fs.len() - i,
{
    if i < 0 || i >= fs.len() {
        Seq::empty()
    } else if i == fs.len() - 1 {
        spec_render_field(fs[i])
    } else {
        spec_render_field(fs[i]) + seq![44u8] + spec_render_fields(fs, i + 1)
    }
}

/// The rendering of one object field: quoted key, colon, value.
pub open spec fn spec_render_field(f: (Seq<u8>, JsonView)) -> Seq<u8>
    decreases f, 1int,
{
    spec_render_str(f.0) + seq![58u8] + spec_render(f.1)
}

fn render_digits_into(n: u64, out: &mut Vec<u8>)
    ensures
        final(out)@ == old(out)@ + spec_digits(n as nat),
    decreases n,
{
    if n < 10 {
        out.push(48 + n as u8);
        assert(out@ =~= old(out)@ + spec_digits(n as nat));
    } else {
        render_digits_into(n / 10, out);
        out.push(48 + (n % 10) as u8);
        assert(out@ =~= old(out)@ + spec_digits(n as nat));
    }
}

fn render_int_into(v: i64, out: &mut Vec<u8>)
    ensures
        final(out)@ == old(out)@ + spec_render_int(v as int),
{
    if v >= 0 {
        render_digits_into(v as u64, out);
    } else {
        out.push(45);
        let m: u64 = ((-(v + 1)) as u64) + 1;
        assert(m as nat == (-(v as int)) as nat);
        render_digits_into(m, out);
        assert(out@ =~= old(out)@ + spec_render_int(v as int));
    }
}

fn escape_into(s: &Vec<u8>, out: &mut Vec<u8>)
    ensures
        final(out)@ == old(out)@ + spec_escape(s@),
{
    let mut i: usize = 0;
    while i < s.len()
        invariant
            i <= s.len(),
            out@ == old(out)@ + spec_escape(s@.subrange(0, i as int)),
        decreases s.len() - i,
    {
        let b = s[i];
        if b == 34 {
            out.push(92);
            out.push(34);
        } else if b == 92 {
            out.push(92);
            out.push(92);
        } else if b < 32 {
            out.push(92);
            out.push(117);
            out.push(48);
            out.push(48);
            let hi = b / 16;
            let lo = b % 16;
            out.push(if hi < 10 { 48 + hi } else { 87 + hi });
            out.push(if lo < 10 { 48 + lo } else { 87 + lo });
        } else {
            out.push(b);
        }
        i += 1;
        proof {
            let pre = s@.subrange(0, i as int);
            assert(pre.drop_last() =~= s@.subrange(0, i - 1));
            assert(pre.last() == s@[i - 1]);
            assert(out@ =~= old(out)@ + spec_escape(pre));
        }
    }
    assert(s@.subrange(0, s@.len() as int) =~= s@);
}

fn render_str_into(s: &Vec<u8>, out: &mut Vec<u8>)
    ensures
        final(out)@ == old(out)@ + spec_render_str(s@),
{
    out.push(34);
    escape_into(s, out);
    out.push(34);
    assert(out@ =~= old(out)@ + spec_render_str(s@));
}

fn render_elems_into(es: &Vec<Json>, i: usize, out: &mut Vec<u8>)
    requires
        i <= es.len(),
    ensures
        final(out)@ == old(out)@ + spec_render_elems(json_elems_view(es@), i as int),
    decreases es@, es.len() - i,
{
    proof {
        lemma_json_elems_view_index(es@);
    }
    let ghost vs = json_elems_view(es@);
    if i == es.len() {
        assert(out@ =~= old(out)@ + spec_render_elems(vs, i as int));
    } else {
        render_into(&es[i], out);
        if i + 1 < es.len() {
            out.push(44);
            render_elems_into(es, i + 1, out);
            assert(out@ =~= old(out)@ + spec_render_elems(vs, i as int));
        } else {
            assert(out@ =~= old(out)@ + spec_render_elems(vs, i as int));
        }
    }
}

fn render_fields_into(fs: &Vec<(Vec<u8>, Json)>, i: usize, out: &mut Vec<u8>)
    requires
        i <= fs.len(),
    ensures
        final(out)@ == old(out)@ + spec_render_fields(json_fields_view(fs@), i as int),
    decreases fs@, fs.len() - i,
{
    proof {
        lemma_json_fields_view_index(fs@);
    }
    let ghost vs = json_fields_view(fs@);
    if i == fs.len() {
        assert(out@ =~= old(out)@ + spec_render_fields(vs, i as int));
    } else {
        render_str_into(&fs[i].0, out);
        out.push(58);
        render_into(&fs[i].1, out);
        assert(out@ =~= old(out)@ + spec_render_field(vs[i as int]));
        if i + 1 < fs.len() {
            out.push(44);
            render_fields_into(fs, i + 1, out);
            assert(out@ =~= old(out)@ + spec_render_fields(vs, i as int));
        } else {
            assert(out@ =~= old(out)@ + spec_render_fields(vs, i as int));
        }
    }
}

/// Append the rendering of `j` to `out`.
fn render_into(j: &Json, out: &mut Vec<u8>)
    ensures
        final(out)@ == old(out)@ + spec_render(json_view(*j)),
    decreases *j, 0int,
{
    match j {
        Json::Null => {
            out.push(110);
            out.push(117);
            out.push(108);
            out.push(108);
            assert(out@ =~= old(out)@ + spec_render(json_view(*j)));
        },
        Json::Bool(b) => {
            if *b {
                out.push(116);
                out.push(114);
                out.push(117);
                out.push(101);
            } else {
                out.push(102);
                out.push(97);
                out.push(108);
                out.push(115);
                out.push(101);
            }
            assert(out@ =~= old(out)@ + spec_render(json_view(*j)));
        },
        Json::Int(v) => {
            render_int_into(*v, out);
        },
        Json::Str(s) => {
            render_str_into(s, out);
        },
        Json::Arr(es) => {
            out.push(91);
            render_elems_into(es, 0, out);
            out.push(93);
            assert(out@ =~= old(out)@ + spec_render(json_view(*j)));
        },
        Json::Obj(fs) => {
            out.push(123);
            render_fields_into(fs, 0, out);
            out.push(125);
            assert(out@ =~= old(out)@ + spec_render(json_view(*j)));
        },
    }
}

/// The text of a document tree, as `spec_render` states it.
pub fn render_json(j: &Json) -> (out: Vec<u8>)
    ensures
        out@ == spec_render(j@),
{
    let mut out: Vec<u8> = Vec::new();
    render_into(j, &mut out);
    assert(out@ =~= spec_render(json_view(*j)));
    out
}

pub proof fn lemma_json_elems_view_index(es: Seq<Json>)
    ensures
        json_elems_view(es).len() == es.len(),
        forall|i: int| 0 <= i < es.len() ==> json_elems_view(es)[i] == json_view(es[i]),
    decreases es.len(),
{
    if es.len() > 0 {
        lemma_json_elems_view_index(es.subrange(1, es.len() as int));
    }
}

pub proof fn lemma_json_fields_view_index(fs: Seq<(Vec<u8>, Json)>)
    ensures
        json_fields_view(fs).len() == fs.len(),
        forall|i: int|
            0 <= i < fs.len() ==> json_fields_view(fs)[i] == (fs[i].0@, json_view(fs[i].1)),
    decreases fs.len(),
{
    if fs.len() > 0 {
        lemma_json_fields_view_index(fs.subrange(1, fs.len() as int));
    }
}

pub proof fn lemma_json_elems_view_snoc(es: Seq<Json>, e: Json)
    ensures
        json_elems_view(es.push(e)) == json_elems_view(es).push(json_view(e)),
    decreases es.len(),
{
    let whole = es.push(e);
    if es.len() == 0 {
        assert(whole[0] == e);
        assert(whole.subrange(1, whole.len() as int) =~= Seq::<Json>::empty());
        assert(json_elems_view(Seq::<Json>::empty()) =~= Seq::<JsonView>::empty());
        assert(json_elems_view(whole) == seq![json_view(e)] + json_elems_view(
            whole.subrange(1, whole.len() as int),
        ));
        assert(json_elems_view(es) =~= Seq::<JsonView>::empty());
        assert(json_elems_view(es.push(e)) =~= json_elems_view(es).push(json_view(e)));
    } else {
        assert(whole[0] == es[0]);
        assert(whole.subrange(1, whole.len() as int) =~= es.subrange(1, es.len() as int).push(e));
        lemma_json_elems_view_snoc(es.subrange(1, es.len() as int), e);
        assert(json_elems_view(es.push(e)) =~= json_elems_view(es).push(json_view(e)));
    }
}

} // verus!
