use vstd::prelude::*;

verus! {

/// Numbers in scripts are fixed-point: a `Number(n)` stands for `n / SCALE`.
pub const SCALE: i64 = 1000000;

/// The longest integer part that a numeric literal may have.
pub const MAX_INT_DIGITS: usize = 12;

/// A literal that can stand inside an array.
#[derive(Debug)]
pub enum Scalar {
    Text(String),
    Boolean(bool),
    Number(i64),
}

/// An argument of a script command, or the value of a script variable.
#[derive(Debug)]
pub enum Value {
    Unset,
    Variable(String),
    Array(Vec<Scalar>),
    Text(String),
    Boolean(bool),
    Number(i64),
}

pub enum ScalarView {
    Text(Seq<char>),
    Boolean(bool),
    Number(i64),
}

pub enum ValueView {
    Unset,
    Variable(Seq<char>),
    Array(Seq<ScalarView>),
    Text(Seq<char>),
    Boolean(bool),
    Number(i64),
}

impl View for Scalar {
    type V = ScalarView;

    open spec fn view(&self) -> ScalarView {
        match self {
            Scalar::Text(s) => ScalarView::Text(s@),
            Scalar::Boolean(b) => ScalarView::Boolean(*b),
            Scalar::Number(n) => ScalarView::Number(*n),
        }
    }
}

pub open spec fn scalars_view(v: Seq<Scalar>) -> Seq<ScalarView> {
    v.map_values(|s: Scalar| s@)
}

impl View for Value {
    type V = ValueView;

    open spec fn view(&self) -> ValueView {
        match self {
            Value::Unset => ValueView::Unset,
            Value::Variable(s) => ValueView::Variable(s@),
            Value::Array(v) => ValueView::Array(scalars_view(v@)),
            Value::Text(s) => ValueView::Text(s@),
            Value::Boolean(b) => ValueView::Boolean(*b),
            Value::Number(n) => ValueView::Number(*n),
        }
    }
}

impl ScalarView {
    pub open spec fn to_value(self) -> ValueView {
        match self {
            ScalarView::Text(s) => ValueView::Text(s),
            ScalarView::Boolean(b) => ValueView::Boolean(b),
            ScalarView::Number(n) => ValueView::Number(n),
        }
    }
}

pub fn copy_scalar(s: &Scalar) -> (r: Scalar)
    ensures
        r@ == s@,
{
    match s {
        Scalar::Text(t) => Scalar::Text(t.clone()),
        Scalar::Boolean(b) => Scalar::Boolean(*b),
        Scalar::Number(n) => Scalar::Number(*n),
    }
}

pub fn copy_value(v: &Value) -> (r: Value)
    ensures
        r@ == v@,
{
    match v {
        Value::Unset => Value::Unset,
        Value::Variable(s) => Value::Variable(s.clone()),
        Value::Array(items) => {
            let mut out: Vec<Scalar> = Vec::new();
            let mut i: usize = 0;
            while i < items.len()
                invariant
                    i <= items@.len(),
                    out@.len() == i,
                    forall|k: int| 0 <= k < i ==> (#[trigger] out@[k])@ == items@[k]@,
                decreases items@.len() - i,
            {
                out.push(copy_scalar(&items[i]));
                i += 1;
            }
            assert(scalars_view(out@) =~= scalars_view(items@));
            Value::Array(out)
        },
        Value::Text(s) => Value::Text(s.clone()),
        Value::Boolean(b) => Value::Boolean(*b),
        Value::Number(n) => Value::Number(*n),
    }
}

/// Relies on std's `FromIterator<&char>` for `String`: the characters in order.
#[verifier::external_body]
pub(crate) fn string_from_chars(v: &Vec<char>) -> (r: String)
    ensures
        r@ == v@,
{
    v.iter().collect()
}

/// The characters of a text.
pub fn chars_of(s: &str) -> (r: Vec<char>)
    ensures
        r@ == s@,
{
    let n = s.unicode_len();
    let mut r: Vec<char> = Vec::new();
    let mut i: usize = 0;
    while i < n
        invariant
            n == s@.len(),
            i <= n,
            r@ == s@.subrange(0, i as int),
        decreases n - i,
    {
        r.push(s.get_char(i));
        i += 1;
        assert(r@ =~= s@.subrange(0, i as int));
    }
    assert(s@.subrange(0, n as int) =~= s@);
    r
}

pub fn chars_eq(a: &Vec<char>, b: &Vec<char>) -> (r: bool)
    ensures
        r == (a@ == b@),
{
    if a.len() != b.len() {
        return false;
    }
    let mut i: usize = 0;
    while i < a.len()
        invariant
            a@.len() == b@.len(),
            i <= a@.len(),
            forall|k: int| 0 <= k < i ==> a@[k] == b@[k],
        decreases a@.len() - i,
    {
        if a[i] != b[i] {
            return false;
        }
        i += 1;
    }
    assert(a@ =~= b@);
    true
}

pub fn chars_eq_str(a: &Vec<char>, b: &str) -> (r: bool)
    ensures
        r == (a@ == b@),
{
    let bv = chars_of(b);
    chars_eq(a, &bv)
}

pub open spec fn is_digit(c: char) -> bool {
    '0' <= c && c <= '9'
}

pub open spec fn digit_val(c: char) -> int {
    c as int - '0' as int
}

pub open spec fn all_digits(s: Seq<char>) -> bool {
    forall|i: int| 0 <= i < s.len() ==> is_digit(#[trigger] s[i])
}

/// The number that a run of decimal digits writes.
pub open spec fn digits_value(s: Seq<char>) -> int
    decreases s.len(),
{
    if s.len() == 0 {
        0
    } else {
        digits_value(s.drop_last()) * 10 + digit_val(s.last())
    }
}

pub open spec fn pow10(n: nat) -> int
    decreases n,
{
    if n == 0 {
        1
    } else {
        10 * pow10((n - 1) as nat)
    }
}

/// The index of the first `c` in `s`, or its length.
pub open spec fn index_of(s: Seq<char>, c: char) -> int {
    index_from(s, c, 0)
}

/// The value, in units of `1 / SCALE`, of an unsigned literal `ddd` or
/// `ddd.fff`: at least one and at most twelve integer digits, and where there
/// is a point, one to six fractional digits.
pub open spec fn unsigned_value(s: Seq<char>) -> Option<int> {
    let k = index_of(s, '.');
    let ip = s.subrange(0, k);
    if k == 0 || k > MAX_INT_DIGITS || !all_digits(ip) {
        None
    } else if k == s.len() {
        Some(digits_value(ip) * SCALE)
    } else {
        let fp = s.subrange(k + 1, s.len() as int);
        if fp.len() == 0 || fp.len() > 6 || !all_digits(fp) {
            None
        } else {
            Some(digits_value(ip) * SCALE + digits_value(fp) * pow10((6 - fp.len()) as nat))
        }
    }
}

/// The value of a numeric literal, with an optional leading `-`.
pub open spec fn number_value(s: Seq<char>) -> Option<int> {
    if s.len() > 0 && s[0] == '-' {
        match unsigned_value(s.subrange(1, s.len() as int)) {
            Some(v) => Some(-v),
            None => None,
        }
    } else {
        unsigned_value(s)
    }
}

proof fn lemma_digits_bound(s: Seq<char>)
    requires
        all_digits(s),
    ensures
        0 <= digits_value(s) < pow10(s.len()),
    decreases s.len(),
{
    if s.len() > 0 {
        assert(all_digits(s.drop_last())) by {
            assert forall|i: int| 0 <= i < s.drop_last().len() implies is_digit(#[trigger] s.drop_last()[i]) by {
                assert(s.drop_last()[i] == s[i]);
            }
        }
        lemma_digits_bound(s.drop_last());
        assert(is_digit(s[s.len() - 1]));
    }
}

proof fn lemma_pow10_mono(a: nat, b: nat)
    requires
        a <= b,
    ensures
        1 <= pow10(a) <= pow10(b),
    decreases b,
{
    if b > 0 {
        if a < b {
            lemma_pow10_mono(a, (b - 1) as nat);
        } else {
            lemma_pow10_mono((b - 1) as nat, (b - 1) as nat);
        }
    }
}

proof fn lemma_pow10_add(a: nat, b: nat)
    ensures
        pow10(a + b) == pow10(a) * pow10(b),
    decreases a,
{
    if a > 0 {
        lemma_pow10_add((a - 1) as nat, b);
        assert(pow10(a + b) == 10 * pow10((a + b - 1) as nat));
        assert(10 * (pow10((a - 1) as nat) * pow10(b)) == (10 * pow10((a - 1) as nat)) * pow10(b)) by (nonlinear_arith);
    }
}

proof fn lemma_pow10_17()
    ensures
        pow10(17) == 100000000000000000,
{
    reveal_with_fuel(pow10, 18);
}

/// The value of a run of at most eighteen digits.
fn digits_exec(s: &Vec<char>, lo: usize, hi: usize) -> (r: i64)
    requires
        lo <= hi <= s@.len(),
        hi - lo <= 18,
        all_digits(s@.subrange(lo as int, hi as int)),
    ensures
        r == digits_value(s@.subrange(lo as int, hi as int)),
{
    let mut acc: i64 = 0;
    let mut i: usize = lo;
    while i < hi
        invariant
            lo <= i <= hi,
            hi <= s@.len(),
            hi - lo <= 18,
            all_digits(s@.subrange(lo as int, hi as int)),
            acc == digits_value(s@.subrange(lo as int, i as int)),
        decreases hi - i,
    {
        proof {
            let p = s@.subrange(lo as int, i as int + 1);
            assert(p.drop_last() =~= s@.subrange(lo as int, i as int));
            assert(s@.subrange(lo as int, hi as int)[i - lo] == s@[i as int]);
            assert(all_digits(s@.subrange(lo as int, i as int))) by {
                assert forall|j: int| 0 <= j < i - lo implies is_digit(#[trigger] s@.subrange(lo as int, i as int)[j]) by {
                    assert(s@.subrange(lo as int, hi as int)[j] == s@.subrange(lo as int, i as int)[j]);
                }
            }
            lemma_digits_bound(s@.subrange(lo as int, i as int));
            lemma_pow10_mono((i - lo) as nat, 17);
            lemma_pow10_17();
        }
        let d = (s[i] as u32 - '0' as u32) as i64;
        acc = acc * 10 + d;
        i += 1;
    }
    acc
}


/// The index of the first `c` at or after `i`, or the length of `s`.
pub open spec fn index_from(s: Seq<char>, c: char, i: int) -> int
    decreases s.len() - i,
{
    if i >= s.len() {
        s.len() as int
    } else if s[i] == c {
        i
    } else {
        index_from(s, c, i + 1)
    }
}

proof fn lemma_index_from_range(s: Seq<char>, c: char, i: int)
    requires
        0 <= i <= s.len(),
    ensures
        i <= index_from(s, c, i) <= s.len(),
        index_from(s, c, i) < s.len() ==> s[index_from(s, c, i)] == c,
        forall|j: int| i <= j < index_from(s, c, i) ==> s[j] != c,
    decreases s.len() - i,
{
    if i < s.len() && s[i] != c {
        lemma_index_from_range(s, c, i + 1);
    }
}

fn find_char(v: &Vec<char>, c: char) -> (r: usize)
    ensures
        r == index_from(v@, c, 0),
        r <= v@.len(),
{
    let mut i: usize = 0;
    while i < v.len()
        invariant
            i <= v@.len(),
            index_from(v@, c, i as int) == index_from(v@, c, 0),
        decreases v@.len() - i,
    {
        if v[i] == c {
            return i;
        }
        i += 1;
    }
    i
}

/// The characters of `v` from `lo` up to `hi`.
pub fn sub_chars(v: &Vec<char>, lo: usize, hi: usize) -> (r: Vec<char>)
    requires
        lo <= hi <= v@.len(),
    ensures
        r@ == v@.subrange(lo as int, hi as int),
{
    let mut r: Vec<char> = Vec::new();
    let mut i: usize = lo;
    while i < hi
        invariant
            lo <= i <= hi,
            hi <= v@.len(),
            r@ == v@.subrange(lo as int, i as int),
        decreases hi - i,
    {
        r.push(v[i]);
        i += 1;
        assert(r@ =~= v@.subrange(lo as int, i as int));
    }
    r
}

fn all_digits_exec(v: &Vec<char>, lo: usize, hi: usize) -> (r: bool)
    requires
        lo <= hi <= v@.len(),
    ensures
        r == all_digits(v@.subrange(lo as int, hi as int)),
{
    let mut i: usize = lo;
    while i < hi
        invariant
            lo <= i <= hi,
            hi <= v@.len(),
            forall|j: int| lo <= j < i ==> is_digit(#[trigger] v@[j]),
        decreases hi - i,
    {
        if !('0' <= v[i] && v[i] <= '9') {
            assert(!is_digit(v@.subrange(lo as int, hi as int)[i - lo]));
            return false;
        }
        i += 1;
    }
    assert forall|j: int| 0 <= j < hi - lo implies is_digit(#[trigger] v@.subrange(lo as int, hi as int)[j]) by {
        assert(v@.subrange(lo as int, hi as int)[j] == v@[lo + j]);
    }
    true
}

fn pow10_exec(n: usize) -> (r: i64)
    requires
        n <= 6,
    ensures
        r == pow10(n as nat),
        1 <= r <= 1000000,
{
    let mut r: i64 = 1;
    let mut i: usize = 0;
    while i < n
        invariant
            i <= n <= 6,
            r == pow10(i as nat),
        decreases n - i,
    {
        proof {
            reveal_with_fuel(pow10, 7);
            lemma_pow10_mono(i as nat, 5);
        }
        r = r * 10;
        i += 1;
    }
    proof {
        reveal_with_fuel(pow10, 7);
        lemma_pow10_mono(n as nat, 6);
    }
    r
}

/// Reads an unsigned literal (see `unsigned_value`).
fn parse_unsigned(v: &Vec<char>) -> (r: Option<i64>)
    ensures
        match unsigned_value(v@) {
            Some(x) => r == Some(x as i64) && 0 <= x < 1000000000000000000,
            None => r is None,
        },
{
    let k = find_char(v, '.');
    proof {
        lemma_index_from_range(v@, '.', 0);
    }
    if k == 0 || k > MAX_INT_DIGITS || !all_digits_exec(v, 0, k) {
        return None;
    }
    let ip = digits_exec(v, 0, k);
    proof {
        lemma_digits_bound(v@.subrange(0, k as int));
        lemma_pow10_mono(k as nat, 12);
        reveal_with_fuel(pow10, 13);
        assert(0 <= ip < 1000000000000);
    }
    if k == v.len() {
        return Some(ip * SCALE);
    }
    let flen = v.len() - k - 1;
    if flen == 0 || flen > 6 || !all_digits_exec(v, k + 1, v.len()) {
        return None;
    }
    let fp = digits_exec(v, k + 1, v.len());
    let m = pow10_exec(6 - flen);
    proof {
        let fs = v@.subrange(k + 1, v@.len() as int);
        lemma_digits_bound(fs);
        reveal_with_fuel(pow10, 7);
        lemma_pow10_add(flen as nat, (6 - flen) as nat);
        assert(fp * m < 1000000) by (nonlinear_arith)
            requires
                0 <= fp < pow10(flen as nat),
                m == pow10((6 - flen) as nat),
                1 <= flen <= 6,
                pow10(flen as nat) * pow10((6 - flen) as nat) == 1000000;
        assert(0 <= fp * m) by (nonlinear_arith)
            requires
                0 <= fp,
                1 <= m;
    }
    Some(ip * SCALE + fp * m)
}


/// Reads a numeric literal (see `number_value`) in units of `1 / SCALE`.
pub fn parse_number(v: &Vec<char>) -> (r: Option<i64>)
    ensures
        match number_value(v@) {
            Some(x) => r == Some(x as i64) && -1000000000000000000 < x < 1000000000000000000,
            None => r is None,
        },
{
    if v.len() > 0 && v[0] == '-' {
        let rest = sub_chars(v, 1, v.len());
        match parse_unsigned(&rest) {
            Some(x) => Some(-x),
            None => None,
        }
    } else {
        parse_unsigned(v)
    }
}

/// The scalar that a literal inside an array writes: `true`, `false`, a quoted
/// text (without its quotes) or a number.
pub open spec fn scalar_of(t: Seq<char>) -> Option<ScalarView> {
    if t == "true"@ {
        Some(ScalarView::Boolean(true))
    } else if t == "false"@ {
        Some(ScalarView::Boolean(false))
    } else if t.len() >= 2 && t[0] == '"' && t.last() == '"' {
        Some(ScalarView::Text(t.subrange(1, t.len() - 1)))
    } else {
        match number_value(t) {
            Some(x) => Some(ScalarView::Number(x as i64)),
            None => None,
        }
    }
}

/// The pieces of `s` between commas, from index `i` on, the current piece
/// holding `cur` so far.
pub open spec fn split_commas_from(s: Seq<char>, i: int, cur: Seq<char>) -> Seq<Seq<char>>
    decreases s.len() - i,
{
    if i >= s.len() {
        seq![cur]
    } else if s[i] == ',' {
        seq![cur] + split_commas_from(s, i + 1, Seq::empty())
    } else {
        split_commas_from(s, i + 1, cur.push(s[i]))
    }
}

/// The pieces of `s` between commas; none for an empty `s`.
pub open spec fn split_commas(s: Seq<char>) -> Seq<Seq<char>> {
    if s.len() == 0 {
        Seq::empty()
    } else {
        split_commas_from(s, 0, Seq::empty())
    }
}

/// The elements of an array literal, if each of them is a scalar literal.
pub open spec fn array_of(inner: Seq<char>) -> Option<Seq<ScalarView>> {
    let pieces = split_commas(inner);
    if forall|i: int| 0 <= i < pieces.len() ==> (#[trigger] scalar_of(pieces[i])) is Some {
        Some(pieces.map_values(|p: Seq<char>| scalar_of(p)->0))
    } else {
        None
    }
}

pub open spec fn is_array_literal(t: Seq<char>) -> bool {
    t.len() >= 2 && ((t[0] == '[' && t.last() == ']') || (t[0] == '{' && t.last() == '}'))
}

/// What an argument token writes: `true` or `false`; a text in double quotes,
/// which loses them; a `$name` variable reference; an array `[a,b]` or
/// `{a,b}` of scalars; or a number.
pub open spec fn argument_of(t: Seq<char>) -> Option<ValueView> {
    if t == "true"@ {
        Some(ValueView::Boolean(true))
    } else if t == "false"@ {
        Some(ValueView::Boolean(false))
    } else if t.len() >= 2 && t[0] == '"' && t.last() == '"' {
        Some(ValueView::Text(t.subrange(1, t.len() - 1)))
    } else if t.len() >= 1 && t[0] == '$' {
        Some(ValueView::Variable(t))
    } else if is_array_literal(t) {
        match array_of(t.subrange(1, t.len() - 1)) {
            Some(xs) => Some(ValueView::Array(xs)),
            None => None,
        }
    } else {
        match number_value(t) {
            Some(x) => Some(ValueView::Number(x as i64)),
            None => None,
        }
    }
}

pub fn parse_scalar(t: &Vec<char>) -> (r: Option<Scalar>)
    ensures
        match scalar_of(t@) {
            Some(x) => r matches Some(y) && y@ == x,
            None => r is None,
        },
{
    if chars_eq_str(t, "true") {
        Some(Scalar::Boolean(true))
    } else if chars_eq_str(t, "false") {
        Some(Scalar::Boolean(false))
    } else if t.len() >= 2 && t[0] == '"' && t[t.len() - 1] == '"' {
        let inner = sub_chars(t, 1, t.len() - 1);
        Some(Scalar::Text(string_from_chars(&inner)))
    } else {
        match parse_number(t) {
            Some(x) => Some(Scalar::Number(x)),
            None => None,
        }
    }
}

pub fn split_on_commas(s: &Vec<char>) -> (r: Vec<Vec<char>>)
    ensures
        r@.map_values(|p: Vec<char>| p@) == split_commas(s@),
{
    let mut pieces: Vec<Vec<char>> = Vec::new();
    if s.len() == 0 {
        assert(pieces@.map_values(|p: Vec<char>| p@) =~= split_commas(s@));
        return pieces;
    }
    let mut cur: Vec<char> = Vec::new();
    let mut i: usize = 0;
    while i < s.len()
        invariant
            i <= s@.len(),
            s@.len() > 0,
            pieces@.map_values(|p: Vec<char>| p@) + split_commas_from(s@, i as int, cur@) == split_commas(s@),
        decreases s@.len() - i,
    {
        let ghost before = pieces@.map_values(|p: Vec<char>| p@);
        if s[i] == ',' {
            let done = cur;
            proof {
                assert(split_commas_from(s@, i as int, done@) == seq![done@] + split_commas_from(s@, i + 1, Seq::empty()));
            }
            pieces.push(done);
            cur = Vec::new();
            proof {
                assert(pieces@.map_values(|p: Vec<char>| p@) =~= before.push(done@));
                assert(before + (seq![done@] + split_commas_from(s@, i + 1, Seq::empty()))
                    =~= before.push(done@) + split_commas_from(s@, i + 1, cur@));
            }
        } else {
            cur.push(s[i]);
        }
        i += 1;
    }
    assert(split_commas_from(s@, i as int, cur@) == seq![cur@]);
    let ghost before = pieces@.map_values(|p: Vec<char>| p@);
    let last = cur;
    pieces.push(last);
    assert(pieces@.map_values(|p: Vec<char>| p@) =~= before + seq![last@]);
    pieces
}

/// Reads the inside of an array literal (see `array_of`).
pub fn parse_array(inner: &Vec<char>) -> (r: Option<Vec<Scalar>>)
    ensures
        match array_of(inner@) {
            Some(xs) => r matches Some(ys) && scalars_view(ys@) == xs,
            None => r is None,
        },
{
    let pieces = split_on_commas(inner);
    let ghost pv = pieces@.map_values(|p: Vec<char>| p@);
    let mut items: Vec<Scalar> = Vec::new();
    let mut i: usize = 0;
    while i < pieces.len()
        invariant
            i <= pieces@.len(),
            pv == pieces@.map_values(|p: Vec<char>| p@),
            pv == split_commas(inner@),
            items@.len() == i,
            forall|k: int| 0 <= k < i ==> scalar_of(#[trigger] pv[k]) == Some((#[trigger] items@[k])@),
        decreases pieces@.len() - i,
    {
        match parse_scalar(&pieces[i]) {
            Some(x) => {
                items.push(x);
            },
            None => {
                assert(scalar_of(pv[i as int]) is None);
                return None;
            },
        }
        i += 1;
    }
    proof {
        assert forall|k: int| 0 <= k < pv.len() implies (#[trigger] scalar_of(pv[k])) is Some by {
            assert(scalar_of(pv[k]) == Some(items@[k]@));
        }
        assert(scalars_view(items@) =~= pv.map_values(|p: Seq<char>| scalar_of(p)->0));
    }
    Some(items)
}

/// Reads one argument token (see `argument_of`).
pub fn parse_argument(t: &Vec<char>) -> (r: Option<Value>)
    ensures
        match argument_of(t@) {
            Some(x) => r matches Some(y) && y@ == x,
            None => r is None,
        },
{
    if chars_eq_str(t, "true") {
        Some(Value::Boolean(true))
    } else if chars_eq_str(t, "false") {
        Some(Value::Boolean(false))
    } else if t.len() >= 2 && t[0] == '"' && t[t.len() - 1] == '"' {
        let inner = sub_chars(t, 1, t.len() - 1);
        Some(Value::Text(string_from_chars(&inner)))
    } else if t.len() >= 1 && t[0] == '$' {
        Some(Value::Variable(string_from_chars(t)))
    } else if t.len() >= 2 && ((t[0] == '[' && t[t.len() - 1] == ']') || (t[0] == '{' && t[t.len() - 1] == '}')) {
        let inner = sub_chars(t, 1, t.len() - 1);
        match parse_array(&inner) {
            Some(items) => Some(Value::Array(items)),
            None => None,
        }
    } else {
        match parse_number(t) {
            Some(x) => Some(Value::Number(x)),
            None => None,
        }
    }
}

} // verus!
