//! Dot-path resolution against a value tree: simple paths (`a.b.c`) and
//! wildcard paths (`items[*].name`) that fan out over array fields.

use vstd::prelude::*;

use crate::text::chars_of;
use crate::value::obj_get;
use crate::value::Value;
use crate::value::ValueView;

verus! {

/// Split a character sequence on a separator. Splitting the empty sequence
/// gives one empty segment.
pub open spec fn split_on(p: Seq<char>, sep: char) -> Seq<Seq<char>>
    decreases p.len(),
{
    if p.len() == 0 {
        seq![Seq::<char>::empty()]
    } else if p[0] == sep {
        seq![Seq::<char>::empty()] + split_on(p.skip(1), sep)
    } else {
        let r = split_on(p.skip(1), sep);
        seq![seq![p[0]] + r[0]] + r.skip(1)
    }
}

/// A split always yields at least one segment.
pub proof fn lemma_split_nonempty(p: Seq<char>, sep: char)
    ensures
        split_on(p, sep).len() >= 1,
    decreases p.len(),
{
    if p.len() == 0 {
    } else if p[0] == sep {
        lemma_split_nonempty(p.skip(1), sep);
    } else {
        lemma_split_nonempty(p.skip(1), sep);
    }
}

/// Resolution of a list of plain segments: each one is an object-key lookup.
pub open spec fn resolve_path_view(segs: Seq<Seq<char>>, v: ValueView) -> Option<ValueView>
    decreases segs.len(),
{
    if segs.len() == 0 {
        Some(v)
    } else {
        match v {
            ValueView::Obj(entries) => match obj_get(entries, segs[0]) {
                Some(child) => resolve_path_view(segs.drop_first(), child),
                None => None,
            },
            _ => None,
        }
    }
}

/// What `resolve_simple_path` returns: the empty path resolves to the root,
/// any other path is split on `.` and walked by object-key lookup.
pub open spec fn resolve_simple_spec(path: Seq<char>, v: ValueView) -> Option<ValueView> {
    if path.len() == 0 {
        Some(v)
    } else {
        resolve_path_view(split_on(path, '.'), v)
    }
}

/// The views of a list of split segments.
pub open spec fn segs_view(s: Seq<Vec<char>>) -> Seq<Seq<char>> {
    Seq::new(
        s.len(),
        |i: int|
            if 0 <= i < s.len() {
                s[i]@
            } else {
                Seq::empty()
            },
    )
}

/// `rest` with its first segment prefixed by `c`.
pub open spec fn prepend_first(c: Seq<char>, rest: Seq<Seq<char>>) -> Seq<Seq<char>> {
    seq![c + rest[0]] + rest.skip(1)
}

/// Split a character vector on a separator (executable form).
#[verifier::loop_isolation(false)]
pub fn split_chars(p: &Vec<char>, sep: char) -> (r: Vec<Vec<char>>)
    ensures
        segs_view(r@) == split_on(p@, sep),
{
    let n: usize = p.len();
    let mut out: Vec<Vec<char>> = Vec::new();
    let mut cur: Vec<char> = Vec::new();
    let mut i: usize = 0;
    proof {
        lemma_split_nonempty(p@, sep);
        assert(p@.skip(0) =~= p@);
    }
    while i < n
        invariant
            0 <= i <= n,
            split_on(p@, sep) =~= segs_view(out@) + prepend_first(
                cur@,
                split_on(p@.skip(i as int), sep),
            ),
        decreases n - i,
    {
        let ghost rest = split_on(p@.skip(i as int), sep);
        let ghost rest1 = split_on(p@.skip(i as int + 1), sep);
        proof {
            lemma_split_nonempty(p@.skip(i as int + 1), sep);
            assert(p@.skip(i as int)[0] == p@[i as int]);
            assert(p@.skip(i as int).skip(1) =~= p@.skip(i as int + 1));
        }
        if p[i] == sep {
            let ghost out0 = out@;
            let ghost cur0 = cur@;
            proof {
                assert(rest =~= seq![Seq::<char>::empty()] + rest1);
                assert(prepend_first(cur@, rest) =~= seq![cur@] + rest1);
                assert(prepend_first(Seq::<char>::empty(), rest1) =~= rest1);
            }
            out.push(cur);
            cur = Vec::new();
            proof {
                assert(segs_view(out@) =~= segs_view(out0) + seq![cur0]);
            }
        } else {
            proof {
                assert(rest =~= prepend_first(seq![p@[i as int]], rest1));
                assert(prepend_first(seq![p@[i as int]], rest1)[0] == seq![p@[i as int]]
                    + rest1[0]);
                assert(prepend_first(seq![p@[i as int]], rest1).skip(1) =~= rest1.skip(1));
                assert(cur@ + (seq![p@[i as int]] + rest1[0]) =~= cur@.push(p@[i as int])
                    + rest1[0]);
                assert(prepend_first(cur@, rest) =~= prepend_first(
                    cur@.push(p@[i as int]),
                    rest1,
                ));
            }
            cur.push(p[i]);
        }
        i = i + 1;
    }
    let ghost out0 = out@;
    let ghost cur0 = cur@;
    proof {
        assert(p@.skip(n as int) =~= Seq::<char>::empty());
        assert(prepend_first(cur@, split_on(Seq::<char>::empty(), sep)) =~= seq![cur@]);
    }
    out.push(cur);
    proof {
        assert(segs_view(out@) =~= segs_view(out0) + seq![cur0]);
    }
    out
}

/// Resolves a simple dot-path against a value tree.
///
/// Returns the value at the path, or `None` if any segment fails to resolve.
/// The empty path returns the root value.
#[verifier::loop_isolation(false)]
pub fn resolve_simple_path(path: &str, value: &Value) -> (r: Option<Value>)
    ensures
        match r {
            Some(out) => resolve_simple_spec(path@, value@) == Some(out@),
            None => resolve_simple_spec(path@, value@) is None,
        },
{
    if path.is_empty() {
        return Some(value.deep_copy());
    }
    let cs = chars_of(path);
    let segs = split_chars(&cs, '.');
    let n: usize = segs.len();
    let ghost sv = segs_view(segs@);
    let mut cur: &Value = value;
    let mut k: usize = 0;
    proof {
        assert(sv.skip(0) =~= sv);
    }
    while k < n
        invariant
            n == segs@.len(),
            sv == segs_view(segs@),
            sv.len() == n,
            0 <= k <= n,
            resolve_path_view(sv, value@) == resolve_path_view(sv.skip(k as int), cur@),
        decreases n - k,
    {
        proof {
            assert(sv.skip(k as int)[0] == sv[k as int]);
            assert(sv.skip(k as int).drop_first() =~= sv.skip(k as int + 1));
        }
        match cur {
            Value::Object(entries) => {
                match Value::entry_chars(entries, &segs[k]) {
                    Some(child) => {
                        cur = child;
                    },
                    None => {
                        return None;
                    },
                }
            },
            _ => {
                return None;
            },
        }
        k = k + 1;
    }
    proof {
        assert(sv.skip(n as int) =~= Seq::<Seq<char>>::empty());
    }
    Some(cur.deep_copy())
}

/// Characters allowed in a path segment: ASCII alphanumerics, `_` and `-`.
pub open spec fn is_path_char(c: char) -> bool {
    ('a' <= c && c <= 'z') || ('A' <= c && c <= 'Z') || ('0' <= c && c <= '9') || c == '_' || c
        == '-'
}

/// Executable form of `is_path_char`.
pub fn path_char(c: char) -> (r: bool)
    ensures
        r == is_path_char(c),
{
    ('a' <= c && c <= 'z') || ('A' <= c && c <= 'Z') || ('0' <= c && c <= '9') || c == '_' || c
        == '-'
}

/// Parse of a wildcard path, from position `i`, with the segment read so far
/// and the segments already produced. A segment is a field name plus a flag
/// saying whether it ends in `[*]`. `None` is a malformed path.
pub open spec fn parse_wild_from(
    p: Seq<char>,
    i: int,
    cur: Seq<char>,
    acc: Seq<(Seq<char>, bool)>,
) -> Option<Seq<(Seq<char>, bool)>>
    decreases p.len() - i,
{
    if i < 0 || i >= p.len() {
        if cur.len() > 0 {
            Some(acc.push((cur, false)))
        } else {
            Some(acc)
        }
    } else if p[i] == '.' {
        if cur.len() == 0 && acc.len() == 0 {
            None
        } else if cur.len() > 0 {
            parse_wild_from(p, i + 1, Seq::empty(), acc.push((cur, false)))
        } else {
            parse_wild_from(p, i + 1, Seq::empty(), acc)
        }
    } else if p[i] == '[' {
        if i + 2 < p.len() && p[i + 1] == '*' && p[i + 2] == ']' {
            if i + 3 < p.len() {
                if p[i + 3] == '.' {
                    parse_wild_from(p, i + 4, Seq::empty(), acc.push((cur, true)))
                } else {
                    None
                }
            } else if i + 3 == p.len() {
                Some(acc.push((cur, true)))
            } else {
                None
            }
        } else {
            None
        }
    } else if is_path_char(p[i]) {
        parse_wild_from(p, i + 1, cur.push(p[i]), acc)
    } else {
        None
    }
}

/// Parse of a whole wildcard path.
pub open spec fn parse_wild(p: Seq<char>) -> Option<Seq<(Seq<char>, bool)>> {
    parse_wild_from(p, 0, Seq::empty(), Seq::empty())
}

/// What one segment yields for one value: a plain segment looks the field up;
/// a wildcard segment looks the field up (or takes the value itself when the
/// name is empty) and fans out over its array elements.
pub open spec fn wild_step_one(seg: (Seq<char>, bool), v: ValueView) -> Seq<ValueView> {
    if seg.1 {
        let target = if seg.0.len() == 0 {
            Some(v)
        } else {
            match v {
                ValueView::Obj(entries) => obj_get(entries, seg.0),
                _ => None,
            }
        };
        match target {
            Some(ValueView::Arr(elems)) => elems,
            _ => Seq::empty(),
        }
    } else {
        match v {
            ValueView::Obj(entries) => match obj_get(entries, seg.0) {
                Some(child) => seq![child],
                None => Seq::empty(),
            },
            _ => Seq::empty(),
        }
    }
}

/// One segment applied to a whole working set, in order.
pub open spec fn wild_step(seg: (Seq<char>, bool), vs: Seq<ValueView>) -> Seq<ValueView>
    decreases vs.len(),
{
    if vs.len() == 0 {
        Seq::empty()
    } else {
        wild_step_one(seg, vs[0]) + wild_step(seg, vs.drop_first())
    }
}

/// `wild_step` on a one-element working set is `wild_step_one`.
pub proof fn lemma_wild_step_singleton(seg: (Seq<char>, bool), x: ValueView)
    ensures
        wild_step(seg, seq![x]) == wild_step_one(seg, x),
{
    let s = seq![x];
    assert(s.drop_first() =~= Seq::<ValueView>::empty());
    assert(wild_step(seg, s.drop_first()).len() == 0);
    assert(wild_step(seg, s) =~= wild_step_one(seg, x) + wild_step(seg, s.drop_first()));
    assert(wild_step_one(seg, x) + wild_step(seg, s.drop_first()) =~= wild_step_one(seg, x));
}

/// `wild_step` distributes over concatenation.
pub proof fn lemma_wild_step_concat(seg: (Seq<char>, bool), a: Seq<ValueView>, b: Seq<ValueView>)
    ensures
        wild_step(seg, a + b) == wild_step(seg, a) + wild_step(seg, b),
    decreases a.len(),
{
    if a.len() == 0 {
        assert(a + b =~= b);
        assert(wild_step(seg, a) + wild_step(seg, b) =~= wild_step(seg, b));
    } else {
        assert((a + b)[0] == a[0]);
        assert((a + b).drop_first() =~= a.drop_first() + b);
        lemma_wild_step_concat(seg, a.drop_first(), b);
        assert(wild_step(seg, a + b) =~= wild_step(seg, a) + wild_step(seg, b));
    }
}

/// All segments applied in order to a working set.
pub open spec fn wild_resolve(segs: Seq<(Seq<char>, bool)>, vs: Seq<ValueView>) -> Seq<ValueView>
    decreases segs.len(),
{
    if segs.len() == 0 {
        vs
    } else {
        wild_resolve(segs.drop_first(), wild_step(segs[0], vs))
    }
}

/// What `resolve_wildcard_path` returns: the empty path yields the root as a
/// one-element list, a malformed path yields the empty list, and otherwise
/// the parsed segments are applied in order starting from the root.
pub open spec fn resolve_wildcard_spec(path: Seq<char>, v: ValueView) -> Seq<ValueView> {
    if path.len() == 0 {
        seq![v]
    } else {
        match parse_wild(path) {
            Some(segs) => wild_resolve(segs, seq![v]),
            None => Seq::empty(),
        }
    }
}

/// The views of the parsed wildcard segments.
pub open spec fn wsegs_view(s: Seq<(Vec<char>, bool)>) -> Seq<(Seq<char>, bool)> {
    Seq::new(
        s.len(),
        |i: int|
            if 0 <= i < s.len() {
                (s[i].0@, s[i].1)
            } else {
                (Seq::empty(), false)
            },
    )
}

/// Split a wildcard path into (name, wildcard) segments (executable form).
#[verifier::loop_isolation(false)]
pub fn split_wildcard_segments(p: &Vec<char>) -> (r: Option<Vec<(Vec<char>, bool)>>)
    ensures
        match r {
            Some(segs) => parse_wild(p@) == Some(wsegs_view(segs@)),
            None => parse_wild(p@) is None,
        },
{
    let n: usize = p.len();
    let mut acc: Vec<(Vec<char>, bool)> = Vec::new();
    let mut cur: Vec<char> = Vec::new();
    let mut i: usize = 0;
    proof {
        assert(wsegs_view(acc@) =~= Seq::<(Seq<char>, bool)>::empty());
    }
    while i < n
        invariant
            0 <= i <= n,
            n == p@.len(),
            parse_wild(p@) == parse_wild_from(p@, i as int, cur@, wsegs_view(acc@)),
        decreases n - i,
    {
        let ghost i0 = i as int;
        let ghost cur0 = cur@;
        let ghost acc0 = wsegs_view(acc@);
        let c = p[i];
        if c == '.' {
            if cur.len() == 0 && acc.len() == 0 {
                return None;
            }
            if cur.len() > 0 {
                let ghost accv = acc@;
                acc.push((cur, false));
                cur = Vec::new();
                proof {
                    assert(wsegs_view(acc@) =~= wsegs_view(accv).push((cur0, false)));
                    assert(parse_wild_from(p@, i0, cur0, acc0) == parse_wild_from(
                        p@,
                        i0 + 1,
                        Seq::empty(),
                        acc0.push((cur0, false)),
                    ));
                }
            } else {
                proof {
                    assert(parse_wild_from(p@, i0, cur0, acc0) == parse_wild_from(
                        p@,
                        i0 + 1,
                        Seq::empty(),
                        acc0,
                    ));
                    assert(cur@ =~= Seq::<char>::empty());
                }
            }
            i = i + 1;
        } else if c == '[' {
            if n - i > 2 && p[i + 1] == '*' && p[i + 2] == ']' {
                let ghost accv = acc@;
                acc.push((cur, true));
                cur = Vec::new();
                proof {
                    assert(wsegs_view(acc@) =~= wsegs_view(accv).push((cur0, true)));
                }
                if n - i > 3 {
                    if p[i + 3] == '.' {
                        proof {
                            assert(parse_wild_from(p@, i0, cur0, acc0) == parse_wild_from(
                                p@,
                                i0 + 4,
                                Seq::empty(),
                                acc0.push((cur0, true)),
                            ));
                        }
                        i = i + 4;
                    } else {
                        return None;
                    }
                } else {
                    proof {
                        assert(parse_wild_from(p@, i0, cur0, acc0) == Some(
                            acc0.push((cur0, true)),
                        ));
                    }
                    return Some(acc);
                }
            } else {
                return None;
            }
        } else if path_char(c) {
            cur.push(c);
            proof {
                assert(parse_wild_from(p@, i0, cur0, acc0) == parse_wild_from(
                    p@,
                    i0 + 1,
                    cur0.push(p@[i0]),
                    acc0,
                ));
            }
            i = i + 1;
        } else {
            return None;
        }
    }
    if cur.len() > 0 {
        let ghost acc0 = acc@;
        let ghost cur0 = cur@;
        acc.push((cur, false));
        proof {
            assert(wsegs_view(acc@) =~= wsegs_view(acc0).push((cur0, false)));
        }
    }
    Some(acc)
}

/// Resolves a wildcard dot-path against a value tree.
///
/// Returns every value the path reaches, fanning out over array fields at
/// `[*]` segments. A malformed path yields the empty list; the empty path
/// yields the root as a one-element list.
#[verifier::loop_isolation(false)]
pub fn resolve_wildcard_path(path: &str, value: &Value) -> (r: Vec<Value>)
    ensures
        crate::value::arr_elems_view(r@) == resolve_wildcard_spec(path@, value@),
{
    let mut out: Vec<Value> = Vec::new();
    if path.is_empty() {
        out.push(value.deep_copy());
        proof {
            assert(crate::value::arr_elems_view(out@) =~= seq![value@]);
        }
        return out;
    }
    let cs = chars_of(path);
    let segs_opt = split_wildcard_segments(&cs);
    let segs = match segs_opt {
        Some(s) => s,
        None => {
            proof {
                assert(crate::value::arr_elems_view(out@) =~= Seq::<ValueView>::empty());
            }
            return out;
        },
    };
    let ghost sv = wsegs_view(segs@);
    let mut current: Vec<Value> = Vec::new();
    current.push(value.deep_copy());
    proof {
        assert(crate::value::arr_elems_view(current@) =~= seq![value@]);
        assert(sv.skip(0) =~= sv);
    }
    let nsegs: usize = segs.len();
    let mut k: usize = 0;
    while k < nsegs
        invariant
            nsegs == segs@.len(),
            sv == wsegs_view(segs@),
            sv.len() == nsegs,
            0 <= k <= nsegs,
            wild_resolve(sv, seq![value@]) == wild_resolve(
                sv.skip(k as int),
                crate::value::arr_elems_view(current@),
            ),
        decreases nsegs - k,
    {
        let ghost curv = crate::value::arr_elems_view(current@);
        proof {
            assert(sv.skip(k as int)[0] == sv[k as int]);
            assert(sv.skip(k as int).drop_first() =~= sv.skip(k as int + 1));
        }
        let mut next: Vec<Value> = Vec::new();
        let ncur: usize = current.len();
        let mut j: usize = 0;
        proof {
            assert(curv.take(0) =~= Seq::<ValueView>::empty());
        }
        while j < ncur
            invariant
                ncur == current@.len(),
                curv == crate::value::arr_elems_view(current@),
                curv.len() == ncur,
                0 <= j <= ncur,
                k < nsegs,
                nsegs == segs@.len(),
                sv == wsegs_view(segs@),
                crate::value::arr_elems_view(next@) == wild_step(sv[k as int], curv.take(j as int)),
            decreases ncur - j,
        {
            let ghost nextv0 = crate::value::arr_elems_view(next@);
            proof {
                assert(curv.take(j as int + 1) =~= curv.take(j as int) + seq![curv[j as int]]);
                lemma_wild_step_concat(sv[k as int], curv.take(j as int), seq![curv[j as int]]);
                lemma_wild_step_singleton(sv[k as int], curv[j as int]);
            }
            let val = &current[j];
            if segs[k].1 {
                // Wildcard segment: find the target, then fan out over its
                // array elements.
                let target: Option<&Value> = if segs[k].0.len() == 0 {
                    Some(val)
                } else {
                    match val {
                        Value::Object(entries) => Value::entry_chars(entries, &segs[k].0),
                        _ => None,
                    }
                };
                match target {
                    Some(Value::Array(elems)) => {
                        let nel: usize = elems.len();
                        let ghost elemsv = crate::value::arr_elems_view(elems@);
                        let mut e: usize = 0;
                        while e < nel
                            invariant
                                nel == elems@.len(),
                                elemsv == crate::value::arr_elems_view(elems@),
                                elemsv.len() == nel,
                                0 <= e <= nel,
                                crate::value::arr_elems_view(next@) == nextv0 + elemsv.take(
                                    e as int,
                                ),
                            decreases nel - e,
                        {
                            let ghost nv = crate::value::arr_elems_view(next@);
                            next.push(elems[e].deep_copy());
                            proof {
                                assert(crate::value::arr_elems_view(next@) =~= nv + seq![
                                    elemsv[e as int],
                                ]);
                                assert(nv + seq![elemsv[e as int]] =~= nextv0 + elemsv.take(
                                    e as int + 1,
                                ));
                            }
                            e = e + 1;
                        }
                        proof {
                            assert(elemsv.take(nel as int) =~= elemsv);
                            assert(wild_step_one(sv[k as int], curv[j as int]) =~= elemsv);
                        }
                    },
                    _ => {
                        proof {
                            assert(wild_step_one(sv[k as int], curv[j as int])
                                =~= Seq::<ValueView>::empty());
                            assert(nextv0 + Seq::<ValueView>::empty() =~= nextv0);
                        }
                    },
                }
            } else {
                // Plain segment: keep the field when it resolves.
                match val {
                    Value::Object(entries) => {
                        match Value::entry_chars(entries, &segs[k].0) {
                            Some(child) => {
                                let ghost nv = crate::value::arr_elems_view(next@);
                                next.push(child.deep_copy());
                                proof {
                                    assert(crate::value::arr_elems_view(next@) =~= nv + seq![
                                        child@,
                                    ]);
                                }
                            },
                            None => {
                                proof {
                                    assert(nextv0 + Seq::<ValueView>::empty() =~= nextv0);
                                }
                            },
                        }
                    },
                    _ => {
                        proof {
                            assert(nextv0 + Seq::<ValueView>::empty() =~= nextv0);
                        }
                    },
                }
            }
            j = j + 1;
        }
        proof {
            assert(curv.take(ncur as int) =~= curv);
        }
        current = next;
        k = k + 1;
    }
    proof {
        assert(sv.skip(nsegs as int) =~= Seq::<(Seq<char>, bool)>::empty());
    }
    current
}

/// Whether a simple dot-path is well formed: empty targets the root, and
/// otherwise every `.`-separated segment is non-empty and made of segment
/// characters.
pub open spec fn valid_simple_path(p: Seq<char>) -> bool {
    p.len() == 0 || {
        let segs = split_on(p, '.');
        forall|i: int|
            0 <= i < segs.len() ==> (#[trigger] segs[i]).len() > 0 && forall|j: int|
                0 <= j < segs[i].len() ==> is_path_char(#[trigger] segs[i][j])
    }
}

/// Validates simple dot-path syntax: no wildcards, no empty segments, only
/// segment characters.
#[verifier::loop_isolation(false)]
pub fn is_valid_simple_dot_path(path: &str) -> (r: bool)
    ensures
        r == valid_simple_path(path@),
{
    if path.is_empty() {
        return true;
    }
    let cs = chars_of(path);
    let segs = split_chars(&cs, '.');
    let ghost sv = segs_view(segs@);
    let n: usize = segs.len();
    let mut i: usize = 0;
    while i < n
        invariant
            0 <= i <= n,
            n == segs@.len(),
            sv == segs_view(segs@),
            sv.len() == n,
            forall|k: int|
                0 <= k < i ==> (#[trigger] sv[k]).len() > 0 && forall|j: int|
                    0 <= j < sv[k].len() ==> is_path_char(#[trigger] sv[k][j]),
        decreases n - i,
    {
        proof {
            assert(sv[i as int] == segs@[i as int]@);
        }
        let m: usize = segs[i].len();
        if m == 0 {
            return false;
        }
        let mut j: usize = 0;
        while j < m
            invariant
                0 <= j <= m,
                i < n,
                m == segs@[i as int]@.len(),
                sv == segs_view(segs@),
                sv.len() == n,
                forall|k: int| 0 <= k < j ==> is_path_char(#[trigger] sv[i as int][k]),
            decreases m - j,
        {
            proof {
                assert(sv[i as int][j as int] == segs@[i as int]@[j as int]);
            }
            if !path_char(segs[i][j]) {
                return false;
            }
            j = j + 1;
        }
        i = i + 1;
    }
    true
}

/// The well-formedness automaton for a wildcard dot-path, from position `i`,
/// with `cur` saying whether the segment being read is non-empty so far:
/// a `.` needs a non-empty segment before it, `[` must open an exact `[*]`
/// followed by `.` or the end, and the path must not end in a dot.
pub open spec fn valid_wild_from(p: Seq<char>, i: int, cur: bool) -> bool
    decreases p.len() - i,
{
    if i < 0 || i >= p.len() {
        cur
    } else if p[i] == '.' {
        cur && valid_wild_from(p, i + 1, false)
    } else if p[i] == '[' {
        &&& i + 2 < p.len()
        &&& p[i + 1] == '*'
        &&& p[i + 2] == ']'
        &&& if i + 3 < p.len() {
            p[i + 3] == '.' && valid_wild_from(p, i + 4, false)
        } else {
            i + 3 == p.len()
        }
    } else if is_path_char(p[i]) {
        valid_wild_from(p, i + 1, true)
    } else {
        false
    }
}

/// Whether a wildcard dot-path is well formed: empty targets the root, and
/// otherwise the path must not begin with a bracket and must pass the
/// segment automaton.
pub open spec fn valid_wildcard_path(p: Seq<char>) -> bool {
    p.len() == 0 || (p[0] != '[' && valid_wild_from(p, 0, false))
}

/// Validates wildcard dot-path syntax: `[*]` only as an exact segment
/// suffix, no empty segments, no leading bracket, no numeric index, only
/// segment characters.
#[verifier::loop_isolation(false)]
pub fn is_valid_wildcard_dot_path(path: &str) -> (r: bool)
    ensures
        r == valid_wildcard_path(path@),
{
    if path.is_empty() {
        return true;
    }
    let cs = chars_of(path);
    let n: usize = cs.len();
    if cs[0] == '[' {
        return false;
    }
    let mut cur = false;
    let mut i: usize = 0;
    while i < n
        invariant
            0 <= i <= n,
            n == cs@.len(),
            valid_wild_from(cs@, 0, false) == valid_wild_from(cs@, i as int, cur),
        decreases n - i,
    {
        let ghost i0 = i as int;
        let ghost cur0 = cur;
        let c = cs[i];
        if c == '.' {
            if !cur {
                return false;
            }
            cur = false;
            i = i + 1;
        } else if c == '[' {
            if n - i > 2 && cs[i + 1] == '*' && cs[i + 2] == ']' {
                if n - i > 3 {
                    if cs[i + 3] == '.' {
                        proof {
                            assert(valid_wild_from(cs@, i0, cur0) == valid_wild_from(
                                cs@,
                                i0 + 4,
                                false,
                            ));
                        }
                        cur = false;
                        i = i + 4;
                    } else {
                        return false;
                    }
                } else {
                    proof {
                        assert(valid_wild_from(cs@, i0, cur0));
                    }
                    return true;
                }
            } else {
                return false;
            }
        } else if path_char(c) {
            cur = true;
            i = i + 1;
        } else {
            return false;
        }
    }
    cur
}

/// The tree built by nesting one-entry objects along `segs` with `leaf` at
/// the bottom.
pub open spec fn nest_obj(segs: Seq<Seq<char>>, leaf: ValueView) -> ValueView
    decreases segs.len(),
{
    if segs.len() == 0 {
        leaf
    } else {
        ValueView::Obj(seq![(segs[0], nest_obj(segs.drop_first(), leaf))])
    }
}

/// Resolving the very path a tree was nested along reaches the leaf.
pub proof fn lemma_resolve_nested(segs: Seq<Seq<char>>, leaf: ValueView)
    ensures
        resolve_path_view(segs, nest_obj(segs, leaf)) == Some(leaf),
    decreases segs.len(),
{
    if segs.len() > 0 {
        let entries = seq![(segs[0], nest_obj(segs.drop_first(), leaf))];
        assert(obj_get(entries, segs[0]) == Some(nest_obj(segs.drop_first(), leaf)));
        lemma_resolve_nested(segs.drop_first(), leaf);
    }
}

/// Resolving one segment past the nested depth fails when the leaf is not
/// itself an object.
pub proof fn lemma_resolve_nested_too_deep(segs: Seq<Seq<char>>, extra: Seq<char>, leaf: ValueView)
    requires
        !(leaf is Obj),
    ensures
        resolve_path_view(segs + seq![extra], nest_obj(segs, leaf)) is None,
    decreases segs.len(),
{
    if segs.len() == 0 {
        assert((segs + seq![extra])[0] == extra);
        assert(nest_obj(segs, leaf) == leaf);
    } else {
        let entries = seq![(segs[0], nest_obj(segs.drop_first(), leaf))];
        assert((segs + seq![extra])[0] == segs[0]);
        assert(obj_get(entries, segs[0]) == Some(nest_obj(segs.drop_first(), leaf)));
        assert((segs + seq![extra]).drop_first() =~= segs.drop_first() + seq![extra]);
        lemma_resolve_nested_too_deep(segs.drop_first(), extra, leaf);
    }
}

/// A wildcard resolve whose segments carry no `[*]` behaves as a simple
/// resolve on a nested tree: it yields exactly the leaf.
pub proof fn lemma_wild_resolve_nested(segs: Seq<(Seq<char>, bool)>, leaf: ValueView)
    requires
        forall|i: int| 0 <= i < segs.len() ==> !(#[trigger] segs[i]).1,
    ensures
        wild_resolve(segs, seq![nest_obj(plain_names(segs), leaf)]) == seq![leaf],
    decreases segs.len(),
{
    if segs.len() == 0 {
        assert(nest_obj(plain_names(segs), leaf) == leaf);
    } else {
        let names = plain_names(segs);
        assert(names[0] == segs[0].0);
        let child = nest_obj(names.drop_first(), leaf);
        let entries = seq![(names[0], child)];
        assert(nest_obj(names, leaf) == ValueView::Obj(entries));
        assert(obj_get(entries, segs[0].0) == Some(child));
        lemma_wild_step_singleton(segs[0], ValueView::Obj(entries));
        assert(wild_step_one(segs[0], ValueView::Obj(entries)) =~= seq![child]);
        assert(plain_names(segs.drop_first()) =~= names.drop_first());
        lemma_wild_resolve_nested(segs.drop_first(), leaf);
    }
}

/// The names of a list of parsed wildcard segments.
pub open spec fn plain_names(segs: Seq<(Seq<char>, bool)>) -> Seq<Seq<char>> {
    Seq::new(
        segs.len(),
        |i: int|
            if 0 <= i < segs.len() {
                segs[i].0
            } else {
                Seq::empty()
            },
    )
}

/// One wildcard segment over an object holding an array field fans out to
/// exactly the array's elements, one result per element.
pub proof fn lemma_wildcard_fanout(name: Seq<char>, elems: Seq<ValueView>)
    requires
        name.len() > 0,
    ensures
        wild_resolve(
            seq![(name, true)],
            seq![ValueView::Obj(seq![(name, ValueView::Arr(elems))])],
        ) == elems,
{
    let root = ValueView::Obj(seq![(name, ValueView::Arr(elems))]);
    let seg = (name, true);
    assert(obj_get(seq![(name, ValueView::Arr(elems))], name) == Some(ValueView::Arr(elems)));
    lemma_wild_step_singleton(seg, root);
    assert(wild_step_one(seg, root) == elems);
    assert(seq![seg].drop_first() =~= Seq::<(Seq<char>, bool)>::empty());
    assert(wild_resolve(seq![seg].drop_first(), elems) == elems);
}

} // verus!
