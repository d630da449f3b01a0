use vstd::prelude::*;
use crate::condition_parser::{resolve, resolve_value};
use crate::value::{string_from_chars, SCALE, Scalar, ScalarView, Value, ValueView, chars_of, scalars_view};
use crate::variables::Variables;

verus! {

pub open spec fn digit_char(d: int) -> char {
    if d == 0 { '0' } else if d == 1 { '1' } else if d == 2 { '2' } else if d == 3 { '3' } else if d == 4 { '4' }
    else if d == 5 { '5' } else if d == 6 { '6' } else if d == 7 { '7' } else if d == 8 { '8' } else { '9' }
}

fn digit_char_exec(d: u64) -> (r: char)
    requires
        d < 10,
    ensures
        r == digit_char(d as int),
{
    if d == 0 { '0' } else if d == 1 { '1' } else if d == 2 { '2' } else if d == 3 { '3' } else if d == 4 { '4' }
    else if d == 5 { '5' } else if d == 6 { '6' } else if d == 7 { '7' } else if d == 8 { '8' } else { '9' }
}

/// The decimal digits of `n`, without leading zeros.
pub open spec fn digits_of(n: nat) -> Seq<char>
    decreases n,
{
    if n < 10 {
        seq![digit_char(n as int)]
    } else {
        digits_of(n / 10).push(digit_char((n % 10) as int))
    }
}

/// The last `k` decimal digits of `n`, with leading zeros.
pub open spec fn fixed_digits(n: nat, k: nat) -> Seq<char>
    decreases k,
{
    if k == 0 {
        Seq::empty()
    } else {
        fixed_digits(n / 10, (k - 1) as nat).push(digit_char((n % 10) as int))
    }
}

/// `s` without its trailing zeros.
pub open spec fn trim_zeros(s: Seq<char>) -> Seq<char>
    decreases s.len(),
{
    if s.len() > 0 && s.last() == '0' {
        trim_zeros(s.drop_last())
    } else {
        s
    }
}

pub open spec fn abs(x: int) -> nat {
    if x < 0 { (-x) as nat } else { x as nat }
}

/// An integer in decimal, with a `-` when negative.
pub open spec fn int_text(x: int) -> Seq<char> {
    if x < 0 { seq!['-'] + digits_of(abs(x)) } else { digits_of(abs(x)) }
}

/// A fixed-point number in decimal: the integer part, then, unless it is
/// whole, a point and the fraction without trailing zeros.
pub open spec fn number_text(x: i64) -> Seq<char> {
    let a = abs(x as int);
    let whole = digits_of(a / (SCALE as nat));
    let frac = a % (SCALE as nat);
    let body = if frac == 0 { whole } else { whole + seq!['.'] + trim_zeros(fixed_digits(frac, 6)) };
    if x < 0 { seq!['-'] + body } else { body }
}

fn push_digits(n: u64, out: &mut Vec<char>)
    ensures
        final(out)@ == old(out)@ + digits_of(n as nat),
    decreases n,
{
    if n < 10 {
        out.push(digit_char_exec(n));
    } else {
        push_digits(n / 10, out);
        out.push(digit_char_exec(n % 10));
    }
}

fn push_fixed(n: u64, k: u64, out: &mut Vec<char>)
    ensures
        final(out)@ == old(out)@ + fixed_digits(n as nat, k as nat),
    decreases k,
{
    if k > 0 {
        push_fixed(n / 10, k - 1, out);
        out.push(digit_char_exec(n % 10));
    }
}

fn trim_zeros_exec(v: &mut Vec<char>)
    ensures
        final(v)@ == trim_zeros(old(v)@),
{
    while v.len() > 0 && v[v.len() - 1] == '0'
        invariant
            trim_zeros(v@) == trim_zeros(old(v)@),
        decreases v@.len(),
    {
        let ghost before = v@;
        v.pop();
        assert(v@ =~= before.drop_last());
    }
}

fn magnitude(x: i64) -> (r: u64)
    ensures
        r as nat == abs(x as int),
{
    if x < 0 {
        (-(x as i128)) as u64
    } else {
        x as u64
    }
}

/// Writes an integer (see `int_text`).
pub fn int_to_text(x: i64) -> (r: Vec<char>)
    ensures
        r@ == int_text(x as int),
{
    let mut out: Vec<char> = Vec::new();
    if x < 0 {
        out.push('-');
    }
    push_digits(magnitude(x), &mut out);
    proof {
        if x >= 0 {
            assert(out@ =~= digits_of(abs(x as int)));
        }
    }
    out
}

/// Writes a fixed-point number (see `number_text`).
pub fn number_to_text(x: i64) -> (r: Vec<char>)
    ensures
        r@ == number_text(x),
{
    let a = magnitude(x);
    let s = SCALE as u64;
    let mut body: Vec<char> = Vec::new();
    push_digits(a / s, &mut body);
    let frac = a % s;
    if frac != 0 {
        body.push('.');
        let mut f: Vec<char> = Vec::new();
        push_fixed(frac, 6, &mut f);
        assert(f@ =~= fixed_digits(frac as nat, 6));
        trim_zeros_exec(&mut f);
        let ghost b0 = body@;
        let mut j: usize = 0;
        while j < f.len()
            invariant
                j <= f@.len(),
                body@ == b0 + f@.subrange(0, j as int),
            decreases f@.len() - j,
        {
            body.push(f[j]);
            j += 1;
            assert(body@ =~= b0 + f@.subrange(0, j as int));
        }
        assert(f@.subrange(0, f@.len() as int) =~= f@);
    }
    if x < 0 {
        let mut out: Vec<char> = Vec::new();
        out.push('-');
        let ghost o0 = out@;
        let mut j: usize = 0;
        while j < body.len()
            invariant
                j <= body@.len(),
                out@ == o0 + body@.subrange(0, j as int),
            decreases body@.len() - j,
        {
            out.push(body[j]);
            j += 1;
            assert(out@ =~= o0 + body@.subrange(0, j as int));
        }
        assert(body@.subrange(0, body@.len() as int) =~= body@);
        proof {
            assert(o0 =~= seq!['-']);
            let digits = digits_of((a / s) as nat);
            assert((digits + seq!['.']) + trim_zeros(fixed_digits(frac as nat, 6)) =~= digits + seq!['.'] + trim_zeros(fixed_digits(frac as nat, 6)));
        }
        out
    } else {
        body
    }
}


pub open spec fn scalar_text(x: ScalarView) -> Seq<char> {
    match x {
        ScalarView::Text(t) => t,
        ScalarView::Boolean(b) => if b { "true"@ } else { "false"@ },
        ScalarView::Number(n) => number_text(n),
    }
}

/// The elements of an array, separated by `", "`.
pub open spec fn join_scalars(xs: Seq<ScalarView>) -> Seq<char>
    decreases xs.len(),
{
    if xs.len() == 0 {
        Seq::empty()
    } else if xs.len() == 1 {
        scalar_text(xs[0])
    } else {
        join_scalars(xs.drop_last()) + ", "@ + scalar_text(xs.last())
    }
}

/// How a value reads in a message.
pub open spec fn value_text(v: ValueView) -> Seq<char> {
    match v {
        ValueView::Unset => Seq::empty(),
        ValueView::Variable(n) => n,
        ValueView::Text(t) => t,
        ValueView::Boolean(b) => if b { "true"@ } else { "false"@ },
        ValueView::Number(n) => number_text(n),
        ValueView::Array(xs) => "["@ + join_scalars(xs) + "]"@,
    }
}

fn append(out: &mut Vec<char>, s: &Vec<char>)
    ensures
        final(out)@ == old(out)@ + s@,
{
    let ghost o0 = out@;
    let mut j: usize = 0;
    while j < s.len()
        invariant
            j <= s@.len(),
            out@ == o0 + s@.subrange(0, j as int),
        decreases s@.len() - j,
    {
        out.push(s[j]);
        j += 1;
        assert(out@ =~= o0 + s@.subrange(0, j as int));
    }
    assert(s@.subrange(0, s@.len() as int) =~= s@);
}

fn scalar_to_text(x: &Scalar) -> (r: Vec<char>)
    ensures
        r@ == scalar_text(x@),
{
    match x {
        Scalar::Text(t) => chars_of(t.as_str()),
        Scalar::Boolean(b) => if *b { chars_of("true") } else { chars_of("false") },
        Scalar::Number(n) => number_to_text(*n),
    }
}

/// Writes a value (see `value_text`).
pub fn value_to_text(v: &Value) -> (r: Vec<char>)
    ensures
        r@ == value_text(v@),
{
    match v {
        Value::Unset => Vec::new(),
        Value::Variable(n) => chars_of(n.as_str()),
        Value::Text(t) => chars_of(t.as_str()),
        Value::Boolean(b) => if *b { chars_of("true") } else { chars_of("false") },
        Value::Number(n) => number_to_text(*n),
        Value::Array(xs) => {
            let ghost sv = scalars_view(xs@);
            let mut out = chars_of("[");
            let ghost o0 = out@;
            let mut i: usize = 0;
            while i < xs.len()
                invariant
                    i <= xs@.len(),
                    sv == scalars_view(xs@),
                    out@ == o0 + join_scalars(sv.subrange(0, i as int)),
                decreases xs@.len() - i,
            {
                let ghost before = out@;
                if i > 0 {
                    append(&mut out, &chars_of(", "));
                }
                append(&mut out, &scalar_to_text(&xs[i]));
                i += 1;
                proof {
                    let p = sv.subrange(0, i as int);
                    assert(p.drop_last() =~= sv.subrange(0, i - 1));
                    assert(p.last() == sv[i - 1]);
                    if i == 1 {
                        assert(sv.subrange(0, 0) =~= Seq::<ScalarView>::empty());
                        assert(out@ =~= o0 + join_scalars(p));
                    } else {
                        assert(out@ =~= o0 + join_scalars(p));
                    }
                }
            }
            assert(sv.subrange(0, xs@.len() as int) =~= sv);
            append(&mut out, &chars_of("]"));
            out
        },
    }
}

pub open spec fn is_name_char(c: char) -> bool {
    ('a' <= c && c <= 'z') || ('A' <= c && c <= 'Z') || ('0' <= c && c <= '9') || c == '_'
}

/// The end of the run of name characters that starts at `i`.
pub open spec fn name_end(s: Seq<char>, i: int) -> int
    decreases s.len() - i,
{
    if i < 0 || i >= s.len() || !is_name_char(s[i]) {
        i
    } else {
        name_end(s, i + 1)
    }
}

proof fn lemma_name_end(s: Seq<char>, i: int)
    requires
        0 <= i <= s.len(),
    ensures
        i <= name_end(s, i) <= s.len(),
    decreases s.len() - i,
{
    if i < s.len() && is_name_char(s[i]) {
        lemma_name_end(s, i + 1);
    }
}

/// `s` from index `i` on, each `$name` (a `$` and one or more letters,
/// digits or underscores) replaced by the text of the value that the
/// variable of that name reads as (see `resolve`), where one is bound.
pub open spec fn substitute_from(s: Seq<char>, i: int, vars: Map<Seq<char>, ValueView>) -> Seq<char>
    decreases s.len() - i,
{
    if i < 0 || i >= s.len() {
        Seq::empty()
    } else if s[i] == '$' && i + 1 < s.len() && is_name_char(s[i + 1]) && i < name_end(s, i + 1) <= s.len() {
        let e = name_end(s, i + 1);
        let name = s.subrange(i, e);
        (if vars.contains_key(name) { value_text(resolve(ValueView::Variable(name), vars)) } else { name }) + substitute_from(s, e, vars)
    } else {
        seq![s[i]] + substitute_from(s, i + 1, vars)
    }
}

pub open spec fn substitute(s: Seq<char>, vars: Map<Seq<char>, ValueView>) -> Seq<char> {
    substitute_from(s, 0, vars)
}

/// Replaces the variable references of a message (see `substitute`).
pub fn compute_message_with_variables(message: &Vec<char>, vars: &Variables) -> (r: Vec<char>)
    requires
        vars.wf(),
    ensures
        r@ == substitute(message@, vars.map()),
{
    let s = message;
    let n = s.len();
    let mut out: Vec<char> = Vec::new();
    let mut i: usize = 0;
    while i < n
        invariant
            n == s@.len(),
            i <= n,
            vars.wf(),
            out@ + substitute_from(s@, i as int, vars.map()) == substitute(s@, vars.map()),
        decreases n - i,
    {
        let ghost o0 = out@;
        if s[i] == '$' && i + 1 < n && (('a' <= s[i + 1] && s[i + 1] <= 'z') || ('A' <= s[i + 1] && s[i + 1] <= 'Z')
            || ('0' <= s[i + 1] && s[i + 1] <= '9') || s[i + 1] == '_') {
            let mut e: usize = i + 1;
            while e < n && (('a' <= s[e] && s[e] <= 'z') || ('A' <= s[e] && s[e] <= 'Z') || ('0' <= s[e] && s[e] <= '9') || s[e] == '_')
                invariant
                    n == s@.len(),
                    i + 1 <= e <= n,
                    name_end(s@, e as int) == name_end(s@, i + 1),
                decreases n - e,
            {
                e += 1;
            }
            proof {
                lemma_name_end(s@, i + 1);
            }
            let name = crate::value::sub_chars(s, i, e);
            match vars.get(&name) {
                Some(_) => {
                    let v = resolve_value(&Value::Variable(string_from_chars(&name)), vars);
                    append(&mut out, &value_to_text(&v));
                },
                None => append(&mut out, &name),
            }
            proof {
                assert(o0 + substitute_from(s@, i as int, vars.map()) =~= out@ + substitute_from(s@, e as int, vars.map()));
            }
            i = e;
        } else {
            out.push(s[i]);
            proof {
                assert(o0 + substitute_from(s@, i as int, vars.map()) =~= out@ + substitute_from(s@, i + 1, vars.map()));
            }
            i += 1;
        }
    }
    assert(out@ + Seq::<char>::empty() =~= out@);
    out
}


impl Value {
    /// How the value reads in a message, a variable reference standing for
    /// the value of the variable.
    pub fn to_string(&self, vars: &Variables) -> (r: String)
        requires
            vars.wf(),
        ensures
            r@ == value_text(crate::condition_parser::resolve(self@, vars.map())),
    {
        let v = crate::condition_parser::resolve_value(self, vars);
        crate::value::string_from_chars(&value_to_text(&v))
    }
}

} // verus!
