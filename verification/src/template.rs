//! Template interpolation: `{{expr}}` spans in strings are replaced from a
//! named-extractor table or by path resolution against request and response
//! trees; `\{{` survives as a literal `{{`; an unterminated `{{` passes
//! through; every unresolvable reference yields one warning diagnostic.

use vstd::prelude::*;

use crate::error::Diagnostic;
use crate::error::DiagnosticSeverity;
use crate::path::resolve_simple_spec;
use crate::render::value_text;
use crate::value::Value;
use crate::value::ValueView;

verus! {

/// A table of pre-rendered extractor values, keyed by name.
pub type ExtractorTable = Vec<(String, String)>;

/// First table entry with the given name, if any.
pub open spec fn table_get(t: Seq<(String, String)>, name: Seq<char>) -> Option<Seq<char>>
    decreases t.len(),
{
    if t.len() == 0 {
        None
    } else if t[0].0@ == name {
        Some(t[0].1@)
    } else {
        table_get(t.drop_first(), name)
    }
}

/// First position `j` at or after `i` where `s[j] == a` and `s[j+1] == b`,
/// or -1.
pub open spec fn find_2(s: Seq<char>, a: char, b: char, i: int) -> int
    decreases s.len() - i,
{
    if i < 0 || i + 2 > s.len() {
        -1
    } else if s[i] == a && s[i + 1] == b {
        i
    } else {
        find_2(s, a, b, i + 1)
    }
}

/// A found two-character position lies between the start and the end.
pub proof fn lemma_find_2_bounds(s: Seq<char>, a: char, b: char, i: int)
    ensures
        find_2(s, a, b, i) == -1 || (i <= find_2(s, a, b, i) && find_2(s, a, b, i) + 2
            <= s.len()),
    decreases s.len() - i,
{
    if !(i < 0 || i + 2 > s.len()) && !(s[i] == a && s[i + 1] == b) {
        lemma_find_2_bounds(s, a, b, i + 1);
    }
}

/// The characters of `request.`, the prefix that routes a reference to the
/// request tree.
pub open spec fn request_prefix() -> Seq<char> {
    seq!['r', 'e', 'q', 'u', 'e', 's', 't', '.']
}

/// The characters of `response.`.
pub open spec fn response_prefix() -> Seq<char> {
    seq!['r', 'e', 's', 'p', 'o', 'n', 's', 'e', '.']
}

/// What one `{{expr}}` reference resolves to: the substituted text, and the
/// reference itself when it is unresolvable (which substitutes the empty
/// string and warns).
pub open spec fn resolve_ref(
    expr: Seq<char>,
    table: Seq<(String, String)>,
    req: Option<ValueView>,
    resp: Option<ValueView>,
) -> (Seq<char>, Option<Seq<char>>) {
    match table_get(table, expr) {
        Some(v) => (v, None),
        None => {
            if expr.len() >= 8 && expr.take(8) == request_prefix() {
                match req {
                    Some(rv) => match resolve_simple_spec(expr.skip(8), rv) {
                        Some(val) => (value_text(val), None),
                        None => (Seq::empty(), Some(expr)),
                    },
                    None => (Seq::empty(), Some(expr)),
                }
            } else if expr.len() >= 9 && expr.take(9) == response_prefix() {
                match resp {
                    Some(rv) => match resolve_simple_spec(expr.skip(9), rv) {
                        Some(val) => (value_text(val), None),
                        None => (Seq::empty(), Some(expr)),
                    },
                    None => (Seq::empty(), Some(expr)),
                }
            } else {
                (Seq::empty(), Some(expr))
            }
        },
    }
}

/// The interpolation of `s` from position `i` on: the produced text and the
/// unresolvable references, in order. `\{{` yields a literal `{{`; a `{{`
/// with a matching `}}` is resolved as a reference; a `{{` without one
/// passes through.
pub open spec fn interp_from(
    s: Seq<char>,
    i: int,
    table: Seq<(String, String)>,
    req: Option<ValueView>,
    resp: Option<ValueView>,
) -> (Seq<char>, Seq<Seq<char>>)
    decreases s.len() - i when 0 <= i via interp_from_decreases
{
    if i >= s.len() {
        (Seq::empty(), Seq::empty())
    } else if s[i] == '\\' && i + 2 < s.len() && s[i + 1] == '{' && s[i + 2] == '{' {
        let rest = interp_from(s, i + 3, table, req, resp);
        (seq!['{', '{'] + rest.0, rest.1)
    } else if i + 1 < s.len() && s[i] == '{' && s[i + 1] == '{' {
        let close = find_2(s, '}', '}', i + 2);
        if close < 0 {
            let rest = interp_from(s, i + 2, table, req, resp);
            (seq!['{', '{'] + rest.0, rest.1)
        } else {
            let expr = s.subrange(i + 2, close);
            let rest = interp_from(s, close + 2, table, req, resp);
            let resolved = resolve_ref(expr, table, req, resp);
            match resolved.1 {
                Some(r) => (resolved.0 + rest.0, seq![r] + rest.1),
                None => (resolved.0 + rest.0, rest.1),
            }
        }
    } else {
        let rest = interp_from(s, i + 1, table, req, resp);
        (seq![s[i]] + rest.0, rest.1)
    }
}

#[via_fn]
proof fn interp_from_decreases(
    s: Seq<char>,
    i: int,
    table: Seq<(String, String)>,
    req: Option<ValueView>,
    resp: Option<ValueView>,
) {
    lemma_find_2_bounds(s, '}', '}', i + 2);
}

/// The warning message that names an unresolvable reference.
pub open spec fn w004_message(expr: Seq<char>) -> Seq<char> {
    "unresolvable template reference: '"@ + expr + "'"@
}

/// Whether a diagnostic is the warning for an unresolvable reference.
pub open spec fn is_w004(d: Diagnostic, expr: Seq<char>) -> bool {
    &&& d.severity == DiagnosticSeverity::Warning
    &&& d.code@ == "W-004"@
    &&& d.path is None
    &&& d.message@ == w004_message(expr)
}

/// Whether `ds` is exactly the warning list for the references `refs`.
pub open spec fn diags_match(ds: Seq<Diagnostic>, refs: Seq<Seq<char>>) -> bool {
    &&& ds.len() == refs.len()
    &&& forall|i: int| 0 <= i < ds.len() ==> is_w004(#[trigger] ds[i], refs[i])
}

/// The view of an optional borrowed value.
pub open spec fn opt_view(v: Option<&Value>) -> Option<ValueView> {
    match v {
        Some(x) => Some(x@),
        None => None,
    }
}

/// First position at or after `from` where `a` is followed by `b`, as an
/// executable search.
#[verifier::loop_isolation(false)]
fn find_two(cs: &Vec<char>, a: char, b: char, from: usize) -> (r: Option<usize>)
    requires
        from <= cs@.len(),
    ensures
        match r {
            Some(j) => {
                &&& from <= j
                &&& j + 2 <= cs@.len()
                &&& find_2(cs@, a, b, from as int) == j
            },
            None => find_2(cs@, a, b, from as int) == -1,
        },
{
    let n: usize = cs.len();
    let mut i: usize = from;
    while n - i >= 2
        invariant
            from <= i <= n,
            n == cs@.len(),
            find_2(cs@, a, b, from as int) == find_2(cs@, a, b, i as int),
        decreases n - i,
    {
        if cs[i] == a && cs[i + 1] == b {
            return Some(i);
        }
        i = i + 1;
    }
    None
}

/// First table entry with the given name (executable form).
#[verifier::loop_isolation(false)]
fn table_get_exec<'a>(table: &'a ExtractorTable, name: &Vec<char>) -> (r: Option<&'a String>)
    ensures
        match r {
            Some(v) => table_get(table@, name@) == Some(v@),
            None => table_get(table@, name@) is None,
        },
{
    let n: usize = table.len();
    let mut i: usize = 0;
    proof {
        assert(table@.skip(0) =~= table@);
    }
    while i < n
        invariant
            0 <= i <= n,
            n == table@.len(),
            table_get(table@, name@) == table_get(table@.skip(i as int), name@),
        decreases n - i,
    {
        proof {
            assert(table@.skip(i as int)[0] == table@[i as int]);
            assert(table@.skip(i as int).drop_first() =~= table@.skip(i as int + 1));
        }
        if crate::text::str_eq_chars(table[i].0.as_str(), name) {
            return Some(&table[i].1);
        }
        i = i + 1;
    }
    None
}

/// The warning diagnostic that names an unresolvable reference.
fn w004_diagnostic(expr: &Vec<char>) -> (d: Diagnostic)
    ensures
        is_w004(d, expr@),
{
    let mut message = String::from_str("unresolvable template reference: '");
    let expr_string = crate::text::chars_to_string(expr);
    message.append(expr_string.as_str());
    message.append("'");
    Diagnostic {
        severity: DiagnosticSeverity::Warning,
        code: String::from_str("W-004"),
        path: None,
        message,
    }
}

/// The characters of the `request.` prefix.
fn request_needle() -> (r: Vec<char>)
    ensures
        r@ == request_prefix(),
{
    let mut v: Vec<char> = Vec::new();
    v.push('r');
    v.push('e');
    v.push('q');
    v.push('u');
    v.push('e');
    v.push('s');
    v.push('t');
    v.push('.');
    proof {
        assert(v@ =~= request_prefix());
    }
    v
}

/// The characters of the `response.` prefix.
fn response_needle() -> (r: Vec<char>)
    ensures
        r@ == response_prefix(),
{
    let mut v: Vec<char> = Vec::new();
    v.push('r');
    v.push('e');
    v.push('s');
    v.push('p');
    v.push('o');
    v.push('n');
    v.push('s');
    v.push('e');
    v.push('.');
    proof {
        assert(v@ =~= response_prefix());
    }
    v
}

/// Resolves one reference and appends its substitution text; returns the
/// reference back when it is unresolvable.
fn resolve_ref_exec(
    expr: &Vec<char>,
    extractors: &ExtractorTable,
    request: Option<&Value>,
    response: Option<&Value>,
    out: &mut Vec<char>,
) -> (unresolved: bool)
    ensures
        ({
            let spec_r = resolve_ref(expr@, extractors@, opt_view(request), opt_view(response));
            &&& final(out)@ == old(out)@ + spec_r.0
            &&& unresolved == (spec_r.1 is Some)
            &&& spec_r.1 is Some ==> spec_r.1 == Some(expr@)
        }),
{
    let ghost spec_r = resolve_ref(expr@, extractors@, opt_view(request), opt_view(response));
    match table_get_exec(extractors, expr) {
        Some(val) => {
            let vcs = crate::text::chars_of(val.as_str());
            let n: usize = vcs.len();
            let mut i: usize = 0;
            while i < n
                invariant
                    0 <= i <= n,
                    n == vcs@.len(),
                    out@ == old(out)@ + vcs@.take(i as int),
                decreases n - i,
            {
                let ghost ov = out@;
                out.push(vcs[i]);
                proof {
                    assert(out@ =~= ov + seq![vcs@[i as int]]);
                    assert(vcs@.take(i as int + 1) =~= vcs@.take(i as int) + seq![
                        vcs@[i as int],
                    ]);
                }
                i = i + 1;
            }
            proof {
                assert(vcs@.take(n as int) =~= vcs@);
            }
            false
        },
        None => {
            let req_needle = request_needle();
            let resp_needle = response_needle();
            let is_req = crate::text::chars_start_with(expr, &req_needle);
            let is_resp = if is_req {
                false
            } else {
                crate::text::chars_start_with(expr, &resp_needle)
            };
            proof {
                if is_req {
                    assert(expr@.take(8) =~= expr@.subrange(0, 8));
                }
                if is_resp {
                    assert(expr@.take(9) =~= expr@.subrange(0, 9));
                }
            }
            if is_req || is_resp {
                let skip: usize = if is_req {
                    8
                } else {
                    9
                };
                let tree: Option<&Value> = if is_req {
                    request
                } else {
                    response
                };
                match tree {
                    Some(t) => {
                        let sub = crate::text::slice_chars(expr, skip, expr.len());
                        proof {
                            if is_req {
                                assert(expr@.subrange(8, expr@.len() as int) =~= expr@.skip(8));
                            } else {
                                assert(expr@.subrange(9, expr@.len() as int) =~= expr@.skip(9));
                            }
                        }
                        let sub_string = crate::text::chars_to_string(&sub);
                        match crate::path::resolve_simple_path(sub_string.as_str(), t) {
                            Some(v) => {
                                let text = crate::render::value_to_string(&v);
                                let tcs = crate::text::chars_of(text.as_str());
                                let n: usize = tcs.len();
                                let mut i: usize = 0;
                                while i < n
                                    invariant
                                        0 <= i <= n,
                                        n == tcs@.len(),
                                        out@ == old(out)@ + tcs@.take(i as int),
                                    decreases n - i,
                                {
                                    let ghost ov = out@;
                                    out.push(tcs[i]);
                                    proof {
                                        assert(out@ =~= ov + seq![tcs@[i as int]]);
                                        assert(tcs@.take(i as int + 1) =~= tcs@.take(i as int)
                                            + seq![tcs@[i as int]]);
                                    }
                                    i = i + 1;
                                }
                                proof {
                                    assert(tcs@.take(n as int) =~= tcs@);
                                }
                                false
                            },
                            None => {
                                proof {
                                    assert(out@ =~= old(out)@ + Seq::<char>::empty());
                                }
                                true
                            },
                        }
                    },
                    None => {
                        proof {
                            assert(out@ =~= old(out)@ + Seq::<char>::empty());
                        }
                        true
                    },
                }
            } else {
                proof {
                    assert(out@ =~= old(out)@ + Seq::<char>::empty());
                }
                true
            }
        },
    }
}

/// Resolves `{{expr}}` references in a string.
///
/// Returns the interpolated string and one warning diagnostic for each
/// unresolvable reference, in order of appearance.
#[verifier::loop_isolation(false)]
#[verifier::rlimit(60)]
pub fn interpolate_template(
    template: &str,
    extractors: &ExtractorTable,
    request: Option<&Value>,
    response: Option<&Value>,
) -> (r: (String, Vec<Diagnostic>))
    ensures
        ({
            let spec_r = interp_from(template@, 0, extractors@, opt_view(request), opt_view(
                response,
            ));
            &&& r.0@ == spec_r.0
            &&& diags_match(r.1@, spec_r.1)
        }),
{
    let ghost table = extractors@;
    let ghost req = opt_view(request);
    let ghost resp = opt_view(response);
    let cs = crate::text::chars_of(template);
    let n: usize = cs.len();
    let mut out: Vec<char> = Vec::new();
    let mut diags: Vec<Diagnostic> = Vec::new();
    let ghost mut refs: Seq<Seq<char>> = Seq::empty();
    let mut i: usize = 0;
    while i < n
        invariant
            0 <= i <= n,
            n == cs@.len(),
            interp_from(cs@, 0, table, req, resp).0 == out@ + interp_from(
                cs@,
                i as int,
                table,
                req,
                resp,
            ).0,
            interp_from(cs@, 0, table, req, resp).1 == refs + interp_from(
                cs@,
                i as int,
                table,
                req,
                resp,
            ).1,
            diags_match(diags@, refs),
        decreases n - i,
    {
        let ghost i0 = i as int;
        let ghost here = interp_from(cs@, i0, table, req, resp);
        if cs[i] == '\\' && n - i > 2 && cs[i + 1] == '{' && cs[i + 2] == '{' {
            let ghost ov = out@;
            out.push('{');
            out.push('{');
            proof {
                assert(out@ =~= ov + seq!['{', '{']);
                assert(here.0 =~= seq!['{', '{'] + interp_from(cs@, i0 + 3, table, req, resp).0);
                assert(ov + (seq!['{', '{'] + interp_from(cs@, i0 + 3, table, req, resp).0) =~= (ov
                    + seq!['{', '{']) + interp_from(cs@, i0 + 3, table, req, resp).0);
            }
            i = i + 3;
        } else if n - i > 1 && cs[i] == '{' && cs[i + 1] == '{' {
            match find_two(&cs, '}', '}', i + 2) {
                Some(close) => {
                    let expr = crate::text::slice_chars(&cs, i + 2, close);
                    let ghost ov = out@;
                    let unresolved = resolve_ref_exec(&expr, extractors, request, response,
                        &mut out);
                    let ghost spec_res = resolve_ref(expr@, table, req, resp);
                    if unresolved {
                        diags.push(w004_diagnostic(&expr));
                        proof {
                            refs = refs + seq![expr@];
                        }
                    }
                    proof {
                        let tail = interp_from(cs@, close + 2, table, req, resp);
                        assert(here.0 =~= spec_res.0 + tail.0);
                        assert(ov + (spec_res.0 + tail.0) =~= (ov + spec_res.0) + tail.0);
                        if unresolved {
                            assert(here.1 =~= seq![expr@] + tail.1);
                        } else {
                            assert(here.1 =~= tail.1);
                        }
                    }
                    i = close + 2;
                },
                None => {
                    let ghost ov = out@;
                    out.push('{');
                    out.push('{');
                    proof {
                        assert(out@ =~= ov + seq!['{', '{']);
                        assert(here.0 =~= seq!['{', '{'] + interp_from(
                            cs@,
                            i0 + 2,
                            table,
                            req,
                            resp,
                        ).0);
                        assert(ov + (seq!['{', '{'] + interp_from(cs@, i0 + 2, table, req, resp).0)
                            =~= (ov + seq!['{', '{']) + interp_from(cs@, i0 + 2, table, req, resp).0);
                    }
                    i = i + 2;
                },
            }
        } else {
            let ghost ov = out@;
            out.push(cs[i]);
            proof {
                assert(out@ =~= ov + seq![cs@[i0]]);
                assert(here.0 =~= seq![cs@[i0]] + interp_from(cs@, i0 + 1, table, req, resp).0);
                assert(ov + (seq![cs@[i0]] + interp_from(cs@, i0 + 1, table, req, resp).0) =~= (ov
                    + seq![cs@[i0]]) + interp_from(cs@, i0 + 1, table, req, resp).0);
            }
            i = i + 1;
        }
    }
    proof {
        let done = interp_from(cs@, n as int, table, req, resp);
        assert(done.0 =~= Seq::<char>::empty());
        assert(done.1 =~= Seq::<Seq<char>>::empty());
        assert(out@ + done.0 =~= out@);
        assert(refs + done.1 =~= refs);
    }
    let text = crate::text::chars_to_string(&out);
    (text, diags)
}

/// The tree produced by interpolating every string leaf of `v`; other
/// leaves pass through unchanged.
pub open spec fn interp_value_spec(
    v: ValueView,
    table: Seq<(String, String)>,
    req: Option<ValueView>,
    resp: Option<ValueView>,
) -> ValueView
    decreases v,
{
    match v {
        ValueView::Str(s) => ValueView::Str(interp_from(s, 0, table, req, resp).0),
        ValueView::Arr(items) => ValueView::Arr(
            Seq::new(
                items.len(),
                |i: int|
                    if 0 <= i < items.len() {
                        interp_value_spec(items[i], table, req, resp)
                    } else {
                        ValueView::Null
                    },
            ),
        ),
        ValueView::Obj(entries) => ValueView::Obj(
            Seq::new(
                entries.len(),
                |i: int|
                    if 0 <= i < entries.len() {
                        (entries[i].0, interp_value_spec(entries[i].1, table, req, resp))
                    } else {
                        (Seq::empty(), ValueView::Null)
                    },
            ),
        ),
        _ => v,
    }
}

/// The unresolvable references of every string leaf of `v`, in tree order.
pub open spec fn interp_value_refs(
    v: ValueView,
    table: Seq<(String, String)>,
    req: Option<ValueView>,
    resp: Option<ValueView>,
) -> Seq<Seq<char>>
    decreases v,
{
    match v {
        ValueView::Str(s) => interp_from(s, 0, table, req, resp).1,
        ValueView::Arr(items) => arr_refs(items, table, req, resp),
        ValueView::Obj(entries) => obj_refs(entries, table, req, resp),
        _ => Seq::empty(),
    }
}

/// The unresolvable references of a list of values, concatenated in order.
pub open spec fn arr_refs(
    items: Seq<ValueView>,
    table: Seq<(String, String)>,
    req: Option<ValueView>,
    resp: Option<ValueView>,
) -> Seq<Seq<char>>
    decreases items,
{
    if items.len() == 0 {
        Seq::empty()
    } else {
        interp_value_refs(items[0], table, req, resp) + arr_refs(
            items.drop_first(),
            table,
            req,
            resp,
        )
    }
}

/// The unresolvable references of a list of object entries, concatenated.
pub open spec fn obj_refs(
    entries: Seq<(Seq<char>, ValueView)>,
    table: Seq<(String, String)>,
    req: Option<ValueView>,
    resp: Option<ValueView>,
) -> Seq<Seq<char>>
    decreases entries,
{
    if entries.len() == 0 {
        Seq::empty()
    } else {
        interp_value_refs(entries[0].1, table, req, resp) + obj_refs(
            entries.drop_first(),
            table,
            req,
            resp,
        )
    }
}

/// `arr_refs` distributes over concatenation.
proof fn lemma_arr_refs_concat(
    a: Seq<ValueView>,
    b: Seq<ValueView>,
    table: Seq<(String, String)>,
    req: Option<ValueView>,
    resp: Option<ValueView>,
)
    ensures
        arr_refs(a + b, table, req, resp) == arr_refs(a, table, req, resp) + arr_refs(
            b,
            table,
            req,
            resp,
        ),
    decreases a.len(),
{
    if a.len() == 0 {
        assert(a + b =~= b);
        assert(arr_refs(a, table, req, resp) + arr_refs(b, table, req, resp) =~= arr_refs(
            b,
            table,
            req,
            resp,
        ));
    } else {
        assert((a + b)[0] == a[0]);
        assert((a + b).drop_first() =~= a.drop_first() + b);
        lemma_arr_refs_concat(a.drop_first(), b, table, req, resp);
        assert(arr_refs(a + b, table, req, resp) =~= arr_refs(a, table, req, resp) + arr_refs(
            b,
            table,
            req,
            resp,
        ));
    }
}

/// `obj_refs` distributes over concatenation.
proof fn lemma_obj_refs_concat(
    a: Seq<(Seq<char>, ValueView)>,
    b: Seq<(Seq<char>, ValueView)>,
    table: Seq<(String, String)>,
    req: Option<ValueView>,
    resp: Option<ValueView>,
)
    ensures
        obj_refs(a + b, table, req, resp) == obj_refs(a, table, req, resp) + obj_refs(
            b,
            table,
            req,
            resp,
        ),
    decreases a.len(),
{
    if a.len() == 0 {
        assert(a + b =~= b);
        assert(obj_refs(a, table, req, resp) + obj_refs(b, table, req, resp) =~= obj_refs(
            b,
            table,
            req,
            resp,
        ));
    } else {
        assert((a + b)[0] == a[0]);
        assert((a + b).drop_first() =~= a.drop_first() + b);
        lemma_obj_refs_concat(a.drop_first(), b, table, req, resp);
        assert(obj_refs(a + b, table, req, resp) =~= obj_refs(a, table, req, resp) + obj_refs(
            b,
            table,
            req,
            resp,
        ));
    }
}

/// A one-element list's references are the element's.
proof fn lemma_arr_refs_singleton(
    x: ValueView,
    table: Seq<(String, String)>,
    req: Option<ValueView>,
    resp: Option<ValueView>,
)
    ensures
        arr_refs(seq![x], table, req, resp) == interp_value_refs(x, table, req, resp),
{
    let s = seq![x];
    assert(s.drop_first() =~= Seq::<ValueView>::empty());
    assert(arr_refs(s.drop_first(), table, req, resp).len() == 0);
    assert(arr_refs(s, table, req, resp) =~= interp_value_refs(x, table, req, resp) + arr_refs(
        s.drop_first(),
        table,
        req,
        resp,
    ));
    assert(interp_value_refs(x, table, req, resp) + arr_refs(s.drop_first(), table, req, resp)
        =~= interp_value_refs(x, table, req, resp));
}

/// A one-entry list's references are the entry value's.
proof fn lemma_obj_refs_singleton(
    x: (Seq<char>, ValueView),
    table: Seq<(String, String)>,
    req: Option<ValueView>,
    resp: Option<ValueView>,
)
    ensures
        obj_refs(seq![x], table, req, resp) == interp_value_refs(x.1, table, req, resp),
{
    let s = seq![x];
    assert(s.drop_first() =~= Seq::<(Seq<char>, ValueView)>::empty());
    assert(obj_refs(s.drop_first(), table, req, resp).len() == 0);
    assert(obj_refs(s, table, req, resp) =~= interp_value_refs(x.1, table, req, resp) + obj_refs(
        s.drop_first(),
        table,
        req,
        resp,
    ));
    assert(interp_value_refs(x.1, table, req, resp) + obj_refs(s.drop_first(), table, req, resp)
        =~= interp_value_refs(x.1, table, req, resp));
}

/// Matching diagnostic lists concatenate to a matching list.
proof fn lemma_diags_match_concat(
    d1: Seq<Diagnostic>,
    r1: Seq<Seq<char>>,
    d2: Seq<Diagnostic>,
    r2: Seq<Seq<char>>,
)
    requires
        diags_match(d1, r1),
        diags_match(d2, r2),
    ensures
        diags_match(d1 + d2, r1 + r2),
{
    assert forall|i: int| 0 <= i < d1.len() + d2.len() implies is_w004(
        #[trigger] (d1 + d2)[i],
        (r1 + r2)[i],
    ) by {
        if i < d1.len() {
            assert((d1 + d2)[i] == d1[i]);
            assert((r1 + r2)[i] == r1[i]);
        } else {
            assert((d1 + d2)[i] == d2[i - d1.len()]);
            assert((r1 + r2)[i] == r2[i - d1.len()]);
        }
    }
}

/// Recursively interpolates every string leaf of a value tree, rebuilding
/// the tree and aggregating the diagnostics of every leaf in order.
#[verifier::loop_isolation(false)]
#[verifier::rlimit(60)]
pub fn interpolate_value(
    value: &Value,
    extractors: &ExtractorTable,
    request: Option<&Value>,
    response: Option<&Value>,
) -> (r: (Value, Vec<Diagnostic>))
    ensures
        r.0@ == interp_value_spec(value@, extractors@, opt_view(request), opt_view(response)),
        diags_match(
            r.1@,
            interp_value_refs(value@, extractors@, opt_view(request), opt_view(response)),
        ),
    decreases *value,
{
    let ghost table = extractors@;
    let ghost req = opt_view(request);
    let ghost resp = opt_view(response);
    match value {
        Value::String(s) => {
            let (text, diags) = interpolate_template(s.as_str(), extractors, request, response);
            (Value::String(text), diags)
        },
        Value::Null => (Value::Null, Vec::new()),
        Value::Bool(b) => (Value::Bool(*b), Vec::new()),
        Value::Number(n) => (Value::Number(*n), Vec::new()),
        Value::Array(a) => {
            let ghost avs = crate::value::arr_elems_view(a@);
            let n: usize = a.len();
            let mut out: Vec<Value> = Vec::new();
            let mut diags: Vec<Diagnostic> = Vec::new();
            let mut i: usize = 0;
            proof {
                assert(avs.take(0) =~= Seq::<ValueView>::empty());
            }
            while i < n
                invariant
                    0 <= i <= n,
                    n == a@.len(),
                    avs == crate::value::arr_elems_view(a@),
                    avs.len() == n,
                    out@.len() == i,
                    forall|j: int|
                        0 <= j < i ==> (#[trigger] out@[j])@ == interp_value_spec(
                            avs[j],
                            table,
                            req,
                            resp,
                        ),
                    diags_match(diags@, arr_refs(avs.take(i as int), table, req, resp)),
                decreases n - i,
            {
                proof {
                    assert(avs[i as int] == a@[i as int]@);
                }
                let (child, mut child_diags) = interpolate_value(&a[i], extractors, request,
                    response);
                let ghost d0 = diags@;
                let ghost cd = child_diags@;
                out.push(child);
                diags.append(&mut child_diags);
                proof {
                    assert(avs.take(i as int + 1) =~= avs.take(i as int) + seq![avs[i as int]]);
                    lemma_arr_refs_concat(avs.take(i as int), seq![avs[i as int]], table, req,
                        resp);
                    lemma_arr_refs_singleton(avs[i as int], table, req, resp);
                    lemma_diags_match_concat(
                        d0,
                        arr_refs(avs.take(i as int), table, req, resp),
                        cd,
                        interp_value_refs(avs[i as int], table, req, resp),
                    );
                }
                i = i + 1;
            }
            let result = Value::Array(out);
            proof {
                assert(avs.take(n as int) =~= avs);
                assert(value@ == ValueView::Arr(avs));
                let specd = interp_value_spec(value@, table, req, resp);
                assert forall|j: int| 0 <= j < n implies result@->Arr_0[j] == specd->Arr_0[j] by {
                    assert(result@->Arr_0[j] == out@[j]@);
                }
                assert(result@->Arr_0 =~= specd->Arr_0);
                assert(result@ == specd);
            }
            (result, diags)
        },
        Value::Object(o) => {
            let ghost ovs = crate::value::obj_entries_view(o@);
            let n: usize = o.len();
            let mut out: Vec<(String, Value)> = Vec::new();
            let mut diags: Vec<Diagnostic> = Vec::new();
            let mut i: usize = 0;
            proof {
                assert(ovs.take(0) =~= Seq::<(Seq<char>, ValueView)>::empty());
            }
            while i < n
                invariant
                    0 <= i <= n,
                    n == o@.len(),
                    ovs == crate::value::obj_entries_view(o@),
                    ovs.len() == n,
                    out@.len() == i,
                    forall|j: int|
                        0 <= j < i ==> (#[trigger] out@[j]).0@ == ovs[j].0 && out@[j].1@
                            == interp_value_spec(ovs[j].1, table, req, resp),
                    diags_match(diags@, obj_refs(ovs.take(i as int), table, req, resp)),
                decreases n - i,
            {
                proof {
                    assert(ovs[i as int] == (o@[i as int].0@, o@[i as int].1@));
                }
                let (child, mut child_diags) = interpolate_value(&o[i].1, extractors, request,
                    response);
                let ghost d0 = diags@;
                let ghost cd = child_diags@;
                out.push((o[i].0.clone(), child));
                diags.append(&mut child_diags);
                proof {
                    assert(ovs.take(i as int + 1) =~= ovs.take(i as int) + seq![ovs[i as int]]);
                    lemma_obj_refs_concat(ovs.take(i as int), seq![ovs[i as int]], table, req,
                        resp);
                    lemma_obj_refs_singleton(ovs[i as int], table, req, resp);
                    lemma_diags_match_concat(
                        d0,
                        obj_refs(ovs.take(i as int), table, req, resp),
                        cd,
                        interp_value_refs(ovs[i as int].1, table, req, resp),
                    );
                }
                i = i + 1;
            }
            let result = Value::Object(out);
            proof {
                assert(ovs.take(n as int) =~= ovs);
                assert(value@ == ValueView::Obj(ovs));
                let specd = interp_value_spec(value@, table, req, resp);
                assert forall|j: int| 0 <= j < n implies result@->Obj_0[j] == specd->Obj_0[j] by {
                    assert(result@->Obj_0[j] == (out@[j].0@, out@[j].1@));
                }
                assert(result@->Obj_0 =~= specd->Obj_0);
                assert(result@ == specd);
            }
            (result, diags)
        },
    }
}

} // verus!
