//! Rendering of values to text: numbers in decimal, strings with JSON
//! escaping, and whole value trees as compact JSON.

use vstd::prelude::*;

use crate::value::Value;
use crate::value::ValueView;

verus! {

/// The decimal digit character for `d` (0 to 9).
pub open spec fn digit_char(d: int) -> char {
    if d == 0 {
        '0'
    } else if d == 1 {
        '1'
    } else if d == 2 {
        '2'
    } else if d == 3 {
        '3'
    } else if d == 4 {
        '4'
    } else if d == 5 {
        '5'
    } else if d == 6 {
        '6'
    } else if d == 7 {
        '7'
    } else if d == 8 {
        '8'
    } else {
        '9'
    }
}

/// The lower-case hexadecimal digit character for `d` (0 to 15).
pub open spec fn hex_char(d: int) -> char {
    if d < 10 {
        digit_char(d)
    } else if d == 10 {
        'a'
    } else if d == 11 {
        'b'
    } else if d == 12 {
        'c'
    } else if d == 13 {
        'd'
    } else if d == 14 {
        'e'
    } else {
        'f'
    }
}

/// Decimal digits of `n`, most significant first, no leading zeros (except
/// for zero itself).
pub open spec fn dec_digits(n: nat) -> Seq<char>
    decreases n,
{
    if n < 10 {
        seq![digit_char(n as int)]
    } else {
        dec_digits(n / 10).push(digit_char((n % 10) as int))
    }
}

/// The last `width` decimal digits of `n`, zero-padded.
pub open spec fn pad_digits(n: nat, width: nat) -> Seq<char>
    decreases width,
{
    if width == 0 {
        Seq::empty()
    } else {
        pad_digits(n / 10, (width - 1) as nat).push(digit_char((n % 10) as int))
    }
}

/// `s` with its trailing `'0'` characters removed.
pub open spec fn trim_zeros(s: Seq<char>) -> Seq<char>
    decreases s.len(),
{
    if s.len() > 0 && s.last() == '0' {
        trim_zeros(s.drop_last())
    } else {
        s
    }
}

/// Decimal rendering of a fixed-point number held as `m` micro-units: the
/// integer part, then a fractional part without trailing zeros when there is
/// one.
pub open spec fn number_text(m: int) -> Seq<char> {
    if m < 0 {
        seq!['-'] + number_text_nonneg(-m as nat)
    } else {
        number_text_nonneg(m as nat)
    }
}

/// `number_text` for a non-negative count of micro-units.
pub open spec fn number_text_nonneg(m: nat) -> Seq<char> {
    if m % 1000000 == 0 {
        dec_digits(m / 1000000)
    } else {
        dec_digits(m / 1000000) + seq!['.'] + trim_zeros(pad_digits(m % 1000000, 6))
    }
}

/// JSON escaping of one character.
pub open spec fn escape_char(c: char) -> Seq<char> {
    if c == '"' {
        seq!['\\', '"']
    } else if c == '\\' {
        seq!['\\', '\\']
    } else if c == '\n' {
        seq!['\\', 'n']
    } else if c == '\r' {
        seq!['\\', 'r']
    } else if c == '\t' {
        seq!['\\', 't']
    } else if c == '\u{8}' {
        seq!['\\', 'b']
    } else if c == '\u{c}' {
        seq!['\\', 'f']
    } else if (c as int) < 32 {
        seq!['\\', 'u', '0', '0', hex_char((c as int) / 16), hex_char((c as int) % 16)]
    } else {
        seq![c]
    }
}

/// JSON escaping of a whole character sequence.
pub open spec fn escape_seq(s: Seq<char>) -> Seq<char>
    decreases s.len(),
{
    if s.len() == 0 {
        Seq::empty()
    } else {
        escape_char(s[0]) + escape_seq(s.drop_first())
    }
}

/// `escape_seq` distributes over concatenation.
pub proof fn lemma_escape_concat(a: Seq<char>, b: Seq<char>)
    ensures
        escape_seq(a + b) == escape_seq(a) + escape_seq(b),
    decreases a.len(),
{
    if a.len() == 0 {
        assert(a + b =~= b);
        assert(escape_seq(a) + escape_seq(b) =~= escape_seq(b));
    } else {
        assert((a + b)[0] == a[0]);
        assert((a + b).drop_first() =~= a.drop_first() + b);
        lemma_escape_concat(a.drop_first(), b);
        assert(escape_seq(a + b) =~= escape_seq(a) + escape_seq(b));
    }
}

/// Compact JSON text of a value.
pub open spec fn json_text(v: ValueView) -> Seq<char>
    decreases v,
{
    match v {
        ValueView::Null => seq!['n', 'u', 'l', 'l'],
        ValueView::Bool(b) => if b {
            seq!['t', 'r', 'u', 'e']
        } else {
            seq!['f', 'a', 'l', 's', 'e']
        },
        ValueView::Number(m) => number_text(m),
        ValueView::Str(s) => seq!['"'] + escape_seq(s) + seq!['"'],
        ValueView::Arr(items) => seq!['['] + arr_text(items) + seq![']'],
        ValueView::Obj(entries) => seq!['{'] + obj_text(entries) + seq!['}'],
    }
}

/// Compact JSON text of array items, comma-separated.
pub open spec fn arr_text(items: Seq<ValueView>) -> Seq<char>
    decreases items,
{
    if items.len() == 0 {
        Seq::empty()
    } else if items.len() == 1 {
        json_text(items[0])
    } else {
        json_text(items[0]) + seq![','] + arr_text(items.drop_first())
    }
}

/// Compact JSON text of object entries, comma-separated.
pub open spec fn obj_text(entries: Seq<(Seq<char>, ValueView)>) -> Seq<char>
    decreases entries,
{
    if entries.len() == 0 {
        Seq::empty()
    } else if entries.len() == 1 {
        entry_text(entries[0])
    } else {
        entry_text(entries[0]) + seq![','] + obj_text(entries.drop_first())
    }
}

/// Compact JSON text of one object entry.
pub open spec fn entry_text(e: (Seq<char>, ValueView)) -> Seq<char>
    decreases e,
{
    seq!['"'] + escape_seq(e.0) + seq!['"', ':'] + json_text(e.1)
}

/// Natural rendering of a value: strings verbatim, null as `null`, booleans
/// and numbers in their plain textual form, arrays and objects as compact
/// JSON.
pub open spec fn value_text(v: ValueView) -> Seq<char> {
    match v {
        ValueView::Str(s) => s,
        _ => json_text(v),
    }
}

/// Joining two non-empty item lists inserts one comma.
pub proof fn lemma_arr_text_concat(a: Seq<ValueView>, b: Seq<ValueView>)
    requires
        a.len() >= 1,
        b.len() >= 1,
    ensures
        arr_text(a + b) == arr_text(a) + seq![','] + arr_text(b),
    decreases a.len(),
{
    assert((a + b)[0] == a[0]);
    assert((a + b).drop_first() =~= a.drop_first() + b);
    if a.len() == 1 {
        assert(a.drop_first() + b =~= b);
        assert(arr_text(a + b) =~= arr_text(a) + seq![','] + arr_text(b));
    } else {
        lemma_arr_text_concat(a.drop_first(), b);
        assert(arr_text(a + b) =~= arr_text(a) + seq![','] + arr_text(b));
    }
}

/// Joining two non-empty entry lists inserts one comma.
pub proof fn lemma_obj_text_concat(a: Seq<(Seq<char>, ValueView)>, b: Seq<(Seq<char>, ValueView)>)
    requires
        a.len() >= 1,
        b.len() >= 1,
    ensures
        obj_text(a + b) == obj_text(a) + seq![','] + obj_text(b),
    decreases a.len(),
{
    assert((a + b)[0] == a[0]);
    assert((a + b).drop_first() =~= a.drop_first() + b);
    if a.len() == 1 {
        assert(a.drop_first() + b =~= b);
        assert(obj_text(a + b) =~= obj_text(a) + seq![','] + obj_text(b));
    } else {
        lemma_obj_text_concat(a.drop_first(), b);
        assert(obj_text(a + b) =~= obj_text(a) + seq![','] + obj_text(b));
    }
}

/// The decimal digit character for `d` (executable form).
pub fn digit(d: u64) -> (r: char)
    requires
        d < 10,
    ensures
        r == digit_char(d as int),
{
    if d == 0 {
        '0'
    } else if d == 1 {
        '1'
    } else if d == 2 {
        '2'
    } else if d == 3 {
        '3'
    } else if d == 4 {
        '4'
    } else if d == 5 {
        '5'
    } else if d == 6 {
        '6'
    } else if d == 7 {
        '7'
    } else if d == 8 {
        '8'
    } else {
        '9'
    }
}

/// The lower-case hexadecimal digit character for `d` (executable form).
pub fn hex_digit(d: u64) -> (r: char)
    requires
        d < 16,
    ensures
        r == hex_char(d as int),
{
    if d < 10 {
        digit(d)
    } else if d == 10 {
        'a'
    } else if d == 11 {
        'b'
    } else if d == 12 {
        'c'
    } else if d == 13 {
        'd'
    } else if d == 14 {
        'e'
    } else {
        'f'
    }
}

/// Appends the decimal digits of `n`.
pub fn push_dec_digits(n: u64, out: &mut Vec<char>)
    ensures
        final(out)@ == old(out)@ + dec_digits(n as nat),
    decreases n,
{
    if n < 10 {
        out.push(digit(n));
        proof {
            assert(out@ =~= old(out)@ + dec_digits(n as nat));
        }
    } else {
        push_dec_digits(n / 10, out);
        out.push(digit(n % 10));
        proof {
            assert(out@ =~= old(out)@ + dec_digits(n as nat));
        }
    }
}

/// Appends the last `width` decimal digits of `n`, zero-padded.
pub fn push_pad_digits(n: u64, width: u64, out: &mut Vec<char>)
    ensures
        final(out)@ == old(out)@ + pad_digits(n as nat, width as nat),
    decreases width,
{
    if width == 0 {
        proof {
            assert(out@ =~= old(out)@ + pad_digits(n as nat, 0));
        }
    } else {
        push_pad_digits(n / 10, width - 1, out);
        out.push(digit(n % 10));
        proof {
            assert(out@ =~= old(out)@ + pad_digits(n as nat, width as nat));
        }
    }
}

/// Appends the decimal rendering of `m` micro-units.
pub fn push_number_text(m: i64, out: &mut Vec<char>)
    ensures
        final(out)@ == old(out)@ + number_text(m as int),
{
    let abs: u64 = if m < 0 {
        out.push('-');
        (-(m as i128)) as u64
    } else {
        m as u64
    };
    let units: u64 = abs / 1000000;
    let frac: u64 = abs % 1000000;
    let ghost mid = out@;
    push_dec_digits(units, out);
    if frac != 0 {
        out.push('.');
        let mut padded: Vec<char> = Vec::new();
        push_pad_digits(frac, 6, &mut padded);
        while padded.len() > 0 && padded[padded.len() - 1] == '0'
            invariant
                trim_zeros(pad_digits(frac as nat, 6)) == trim_zeros(padded@),
            decreases padded@.len(),
        {
            let ghost pv = padded@;
            padded.pop();
            proof {
                assert(padded@ =~= pv.drop_last());
            }
        }
        proof {
            assert(trim_zeros(padded@) == padded@);
        }
        let n: usize = padded.len();
        let mut i: usize = 0;
        while i < n
            invariant
                n == padded@.len(),
                0 <= i <= n,
                out@ == mid + dec_digits((abs / 1000000) as nat) + seq!['.'] + padded@.take(
                    i as int,
                ),
            decreases n - i,
        {
            let ghost ov = out@;
            out.push(padded[i]);
            proof {
                assert(padded@.take(i as int + 1) =~= padded@.take(i as int) + seq![
                    padded@[i as int],
                ]);
                assert(out@ =~= ov + seq![padded@[i as int]]);
            }
            i = i + 1;
        }
        proof {
            assert(padded@.take(n as int) =~= padded@);
            assert(out@ =~= old(out)@ + number_text(m as int));
        }
    } else {
        proof {
            assert(out@ =~= old(out)@ + number_text(m as int));
        }
    }
}

/// Appends the JSON escaping of one character.
pub fn push_escaped_char(c: char, out: &mut Vec<char>)
    ensures
        final(out)@ == old(out)@ + escape_char(c),
{
    if c == '"' {
        out.push('\\');
        out.push('"');
    } else if c == '\\' {
        out.push('\\');
        out.push('\\');
    } else if c == '\n' {
        out.push('\\');
        out.push('n');
    } else if c == '\r' {
        out.push('\\');
        out.push('r');
    } else if c == '\t' {
        out.push('\\');
        out.push('t');
    } else if c == '\u{8}' {
        out.push('\\');
        out.push('b');
    } else if c == '\u{c}' {
        out.push('\\');
        out.push('f');
    } else if (c as u32) < 32 {
        out.push('\\');
        out.push('u');
        out.push('0');
        out.push('0');
        out.push(hex_digit(((c as u32) / 16) as u64));
        out.push(hex_digit(((c as u32) % 16) as u64));
    } else {
        out.push(c);
    }
    proof {
        assert(out@ =~= old(out)@ + escape_char(c));
    }
}

/// Appends the JSON escaping of a whole character sequence.
#[verifier::loop_isolation(false)]
pub fn push_escaped(s: &Vec<char>, out: &mut Vec<char>)
    ensures
        final(out)@ == old(out)@ + escape_seq(s@),
{
    let n: usize = s.len();
    let mut i: usize = 0;
    proof {
        assert(escape_seq(s@.take(0)) =~= Seq::<char>::empty());
        assert(out@ =~= old(out)@ + escape_seq(s@.take(0)));
    }
    while i < n
        invariant
            0 <= i <= n,
            out@ == old(out)@ + escape_seq(s@.take(i as int)),
        decreases n - i,
    {
        proof {
            assert(s@.take(i as int + 1) =~= s@.take(i as int) + seq![s@[i as int]]);
            lemma_escape_concat(s@.take(i as int), seq![s@[i as int]]);
            assert(seq![s@[i as int]].drop_first() =~= Seq::<char>::empty());
            assert(escape_seq(seq![s@[i as int]].drop_first()) =~= Seq::<char>::empty());
            assert(escape_seq(seq![s@[i as int]]) =~= escape_char(s@[i as int]));
        }
        push_escaped_char(s[i], out);
        i = i + 1;
    }
    proof {
        assert(s@.take(n as int) =~= s@);
    }
}

/// Appends the compact JSON text of a value.
#[verifier::loop_isolation(false)]
#[verifier::rlimit(60)]
pub fn write_json(v: &Value, out: &mut Vec<char>)
    ensures
        final(out)@ == old(out)@ + json_text(v@),
    decreases *v,
{
    match v {
        Value::Null => {
            out.push('n');
            out.push('u');
            out.push('l');
            out.push('l');
            proof {
                assert(out@ =~= old(out)@ + json_text(v@));
            }
        },
        Value::Bool(b) => {
            if *b {
                out.push('t');
                out.push('r');
                out.push('u');
                out.push('e');
            } else {
                out.push('f');
                out.push('a');
                out.push('l');
                out.push('s');
                out.push('e');
            }
            proof {
                assert(out@ =~= old(out)@ + json_text(v@));
            }
        },
        Value::Number(n) => {
            push_number_text(*n, out);
        },
        Value::String(s) => {
            out.push('"');
            let cs = crate::text::chars_of(s.as_str());
            push_escaped(&cs, out);
            out.push('"');
            proof {
                assert(out@ =~= old(out)@ + json_text(v@));
            }
        },
        Value::Array(a) => {
            let ghost av = crate::value::arr_elems_view(a@);
            let ghost base = out@;
            out.push('[');
            let n: usize = a.len();
            let mut i: usize = 0;
            while i < n
                invariant
                    n == a@.len(),
                    av.len() == n,
                    0 <= i <= n,
                    i == 0 ==> out@ == base + seq!['['],
                    i > 0 ==> out@ == base + seq!['['] + arr_text(av.take(i as int)),
                decreases n - i,
            {
                proof {
                    assert(av[i as int] == a@[i as int]@);
                }
                if i > 0 {
                    out.push(',');
                }
                let ghost mid = out@;
                write_json(&a[i], out);
                proof {
                    let single = seq![av[i as int]];
                    assert(single.len() == 1);
                    assert(arr_text(single) == json_text(single[0]));
                    assert(av.take(i as int + 1) =~= av.take(i as int) + single);
                    if i > 0 {
                        lemma_arr_text_concat(av.take(i as int), single);
                        assert(out@ =~= base + seq!['['] + arr_text(av.take(i as int + 1)));
                    } else {
                        assert(av.take(1) =~= single);
                        assert(out@ =~= base + seq!['['] + arr_text(av.take(1)));
                    }
                }
                i = i + 1;
            }
            out.push(']');
            proof {
                if n == 0 {
                    assert(av.len() == 0);
                    assert(arr_text(av) =~= Seq::<char>::empty());
                    assert(out@ =~= base + json_text(v@));
                } else {
                    assert(av.take(n as int) =~= av);
                    assert(out@ =~= base + json_text(v@));
                }
            }
        },
        Value::Object(o) => {
            let ghost ov = crate::value::obj_entries_view(o@);
            let ghost base = out@;
            out.push('{');
            let n: usize = o.len();
            let mut i: usize = 0;
            while i < n
                invariant
                    n == o@.len(),
                    ov.len() == n,
                    0 <= i <= n,
                    i == 0 ==> out@ == base + seq!['{'],
                    i > 0 ==> out@ == base + seq!['{'] + obj_text(ov.take(i as int)),
                decreases n - i,
            {
                proof {
                    assert(ov[i as int] == (o@[i as int].0@, o@[i as int].1@));
                }
                if i > 0 {
                    out.push(',');
                }
                let ghost mid = out@;
                out.push('"');
                let kcs = crate::text::chars_of(o[i].0.as_str());
                push_escaped(&kcs, out);
                out.push('"');
                out.push(':');
                write_json(&o[i].1, out);
                proof {
                    assert(out@ =~= mid + entry_text(ov[i as int]));
                    let single = seq![ov[i as int]];
                    assert(single.len() == 1);
                    assert(obj_text(single) == entry_text(single[0]));
                    assert(ov.take(i as int + 1) =~= ov.take(i as int) + single);
                    if i > 0 {
                        lemma_obj_text_concat(ov.take(i as int), single);
                        assert(out@ =~= base + seq!['{'] + obj_text(ov.take(i as int + 1)));
                    } else {
                        assert(ov.take(1) =~= single);
                        assert(out@ =~= base + seq!['{'] + obj_text(ov.take(1)));
                    }
                }
                i = i + 1;
            }
            out.push('}');
            proof {
                if n == 0 {
                    assert(ov.len() == 0);
                    assert(obj_text(ov) =~= Seq::<char>::empty());
                    assert(out@ =~= base + json_text(v@));
                } else {
                    assert(ov.take(n as int) =~= ov);
                    assert(out@ =~= base + json_text(v@));
                }
            }
        },
    }
}

/// The compact JSON text of a value, as characters.
pub fn to_json_chars(v: &Value) -> (r: Vec<char>)
    ensures
        r@ == json_text(v@),
{
    let mut out: Vec<char> = Vec::new();
    write_json(v, &mut out);
    proof {
        assert(out@ =~= json_text(v@));
    }
    out
}

/// The compact JSON text of a value, as a string.
pub fn to_json_string(v: &Value) -> (r: String)
    ensures
        r@ == json_text(v@),
{
    let cs = to_json_chars(v);
    crate::text::chars_to_string(&cs)
}

/// Natural rendering of a value: strings verbatim, everything else as its
/// compact JSON text.
pub fn value_to_string(v: &Value) -> (r: String)
    ensures
        r@ == value_text(v@),
{
    match v {
        Value::String(s) => s.clone(),
        _ => to_json_string(v),
    }
}

} // verus!
