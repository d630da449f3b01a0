use vstd::prelude::*;
use crate::value::{Scalar, ScalarView, Value, ValueView, argument_of, chars_eq_str, copy_value, parse_argument, scalars_view};
use crate::variables::Variables;

verus! {

/// A comparison between two operands.
#[derive(Clone, Copy, Debug, PartialEq, Eq, Structural)]
pub enum Operator {
    Equal,
    NotEqual,
    Less,
    LessOrEqual,
    Greater,
    GreaterOrEqual,
    In,
    NotIn,
}

/// `left operator right`.
pub struct Expression {
    pub left: Value,
    pub operator: Operator,
    pub right: Value,
}

/// A parsed condition of an `IF` or a `WHILE`.
pub enum Condition {
    Expression(Expression),
    And(Box<Condition>, Box<Condition>),
    Or(Box<Condition>, Box<Condition>),
}

pub enum ConditionView {
    Expression(ValueView, Operator, ValueView),
    And(Box<ConditionView>, Box<ConditionView>),
    Or(Box<ConditionView>, Box<ConditionView>),
}

impl Condition {
    pub open spec fn view(&self) -> ConditionView
        decreases self,
    {
        match self {
            Condition::Expression(e) => ConditionView::Expression(e.left@, e.operator, e.right@),
            Condition::And(a, b) => ConditionView::And(Box::new(a.view()), Box::new(b.view())),
            Condition::Or(a, b) => ConditionView::Or(Box::new(a.view()), Box::new(b.view())),
        }
    }
}

/// A token that cannot stand as an operand.
pub open spec fn is_reserved(t: Seq<char>) -> bool {
    t == "("@ || t == ")"@ || t == "&&"@ || t == "||"@ || t == "=="@ || t == "!="@ || t == "<"@
        || t == "<="@ || t == ">"@ || t == ">="@ || t == "in"@ || t == "not"@
}

/// The operator written at `p`, and where what follows it starts.
pub open spec fn operator_at(toks: Seq<Seq<char>>, p: int) -> Option<(Operator, int)> {
    if p < 0 || p >= toks.len() {
        None
    } else if toks[p] == "=="@ {
        Some((Operator::Equal, p + 1))
    } else if toks[p] == "!="@ {
        Some((Operator::NotEqual, p + 1))
    } else if toks[p] == "<"@ {
        Some((Operator::Less, p + 1))
    } else if toks[p] == "<="@ {
        Some((Operator::LessOrEqual, p + 1))
    } else if toks[p] == ">"@ {
        Some((Operator::Greater, p + 1))
    } else if toks[p] == ">="@ {
        Some((Operator::GreaterOrEqual, p + 1))
    } else if toks[p] == "in"@ {
        Some((Operator::In, p + 1))
    } else if toks[p] == "not"@ && p + 1 < toks.len() && toks[p + 1] == "in"@ {
        Some((Operator::NotIn, p + 2))
    } else {
        None
    }
}

/// The operand at `p`, if the token there is one.
pub open spec fn operand_at(toks: Seq<Seq<char>>, p: int) -> Option<ValueView> {
    if p < 0 || p >= toks.len() || is_reserved(toks[p]) {
        None
    } else {
        argument_of(toks[p])
    }
}

/// A term at `pos`: a parenthesised condition, a comparison, or a lone
/// operand, which holds when it is `true`.
pub open spec fn parse_term(toks: Seq<Seq<char>>, pos: int) -> Option<(ConditionView, int)>
    decreases toks.len() - pos, 0int,
{
    if pos < 0 || pos >= toks.len() {
        None
    } else if toks[pos] == "("@ {
        match parse_cond(toks, pos + 1) {
            Some((c, p)) => if pos < p < toks.len() && toks[p] == ")"@ {
                Some((c, p + 1))
            } else {
                None
            },
            None => None,
        }
    } else {
        match operand_at(toks, pos) {
            None => None,
            Some(l) => match operator_at(toks, pos + 1) {
                Some((op, p)) => match operand_at(toks, p) {
                    Some(r) => Some((ConditionView::Expression(l, op, r), p + 1)),
                    None => None,
                },
                None => Some((ConditionView::Expression(l, Operator::Equal, ValueView::Boolean(true)), pos + 1)),
            },
        }
    }
}

/// Terms joined by `&&` and `||`, grouped from the left.
pub open spec fn parse_cond(toks: Seq<Seq<char>>, pos: int) -> Option<(ConditionView, int)>
    decreases toks.len() - pos, 2int,
{
    if pos < 0 || pos >= toks.len() {
        None
    } else {
        match parse_term(toks, pos) {
            Some((c, p)) => if pos < p <= toks.len() {
                parse_rest(toks, p, c)
            } else {
                None
            },
            None => None,
        }
    }
}

pub open spec fn parse_rest(toks: Seq<Seq<char>>, pos: int, acc: ConditionView) -> Option<(ConditionView, int)>
    decreases toks.len() - pos, 1int,
{
    if 0 <= pos < toks.len() && (toks[pos] == "&&"@ || toks[pos] == "||"@) {
        match parse_term(toks, pos + 1) {
            Some((c, p)) => if pos < p <= toks.len() {
                let joined = if toks[pos] == "&&"@ {
                    ConditionView::And(Box::new(acc), Box::new(c))
                } else {
                    ConditionView::Or(Box::new(acc), Box::new(c))
                };
                parse_rest(toks, p, joined)
            } else {
                None
            },
            None => None,
        }
    } else if 0 <= pos <= toks.len() {
        Some((acc, pos))
    } else {
        None
    }
}

/// The condition that the whole token list writes.
pub open spec fn condition_of(toks: Seq<Seq<char>>) -> Option<ConditionView> {
    match parse_cond(toks, 0) {
        Some((c, p)) => if p == toks.len() {
            Some(c)
        } else {
            None
        },
        None => None,
    }
}

pub open spec fn tokens_view(toks: Seq<Vec<char>>) -> Seq<Seq<char>> {
    toks.map_values(|t: Vec<char>| t@)
}

fn is_reserved_exec(t: &Vec<char>) -> (r: bool)
    ensures
        r == is_reserved(t@),
{
    chars_eq_str(t, "(") || chars_eq_str(t, ")") || chars_eq_str(t, "&&") || chars_eq_str(t, "||")
        || chars_eq_str(t, "==") || chars_eq_str(t, "!=") || chars_eq_str(t, "<") || chars_eq_str(t, "<=")
        || chars_eq_str(t, ">") || chars_eq_str(t, ">=") || chars_eq_str(t, "in") || chars_eq_str(t, "not")
}

fn operator_at_exec(toks: &Vec<Vec<char>>, p: usize) -> (r: Option<(Operator, usize)>)
    ensures
        match operator_at(tokens_view(toks@), p as int) {
            Some((op, q)) => r == Some((op, q as usize)),
            None => r is None,
        },
{
    let ghost tv = tokens_view(toks@);
    if p >= toks.len() {
        return None;
    }
    assert(tv[p as int] == toks@[p as int]@);
    let t = &toks[p];
    if chars_eq_str(t, "==") {
        Some((Operator::Equal, p + 1))
    } else if chars_eq_str(t, "!=") {
        Some((Operator::NotEqual, p + 1))
    } else if chars_eq_str(t, "<") {
        Some((Operator::Less, p + 1))
    } else if chars_eq_str(t, "<=") {
        Some((Operator::LessOrEqual, p + 1))
    } else if chars_eq_str(t, ">") {
        Some((Operator::Greater, p + 1))
    } else if chars_eq_str(t, ">=") {
        Some((Operator::GreaterOrEqual, p + 1))
    } else if chars_eq_str(t, "in") {
        Some((Operator::In, p + 1))
    } else if chars_eq_str(t, "not") && p + 1 < toks.len() && chars_eq_str(&toks[p + 1], "in") {
        assert(tv[p + 1] == toks@[p + 1]@);
        Some((Operator::NotIn, p + 2))
    } else {
        if p + 1 < toks.len() {
            assert(tv[p + 1] == toks@[p + 1]@);
        }
        None
    }
}

fn operand_at_exec(toks: &Vec<Vec<char>>, p: usize) -> (r: Option<Value>)
    ensures
        match operand_at(tokens_view(toks@), p as int) {
            Some(v) => r matches Some(w) && w@ == v,
            None => r is None,
        },
{
    let ghost tv = tokens_view(toks@);
    if p >= toks.len() {
        return None;
    }
    assert(tv[p as int] == toks@[p as int]@);
    if is_reserved_exec(&toks[p]) {
        return None;
    }
    parse_argument(&toks[p])
}

fn parse_term_exec(toks: &Vec<Vec<char>>, pos: usize) -> (r: Option<(Condition, usize)>)
    ensures
        match parse_term(tokens_view(toks@), pos as int) {
            Some((c, p)) => r matches Some((d, q)) && d.view() == c && q == p,
            None => r is None,
        },
    decreases toks@.len() - pos, 0int,
{
    let ghost tv = tokens_view(toks@);
    if pos >= toks.len() {
        return None;
    }
    assert(tv[pos as int] == toks@[pos as int]@);
    if chars_eq_str(&toks[pos], "(") {
        match parse_cond_exec(toks, pos + 1) {
            Some((c, p)) => {
                if pos < p && p < toks.len() && chars_eq_str(&toks[p], ")") {
                    assert(tv[p as int] == toks@[p as int]@);
                    Some((c, p + 1))
                } else {
                    if pos < p && p < toks.len() {
                        assert(tv[p as int] == toks@[p as int]@);
                    }
                    None
                }
            },
            None => None,
        }
    } else {
        match operand_at_exec(toks, pos) {
            None => None,
            Some(l) => match operator_at_exec(toks, pos + 1) {
                Some((op, p)) => match operand_at_exec(toks, p) {
                    Some(r) => Some((Condition::Expression(Expression { left: l, operator: op, right: r }), p + 1)),
                    None => None,
                },
                None => Some((Condition::Expression(Expression { left: l, operator: Operator::Equal, right: Value::Boolean(true) }), pos + 1)),
            },
        }
    }
}

fn parse_cond_exec(toks: &Vec<Vec<char>>, pos: usize) -> (r: Option<(Condition, usize)>)
    ensures
        match parse_cond(tokens_view(toks@), pos as int) {
            Some((c, p)) => r matches Some((d, q)) && d.view() == c && q == p,
            None => r is None,
        },
    decreases toks@.len() - pos, 2int,
{
    if pos >= toks.len() {
        return None;
    }
    match parse_term_exec(toks, pos) {
        Some((c, p)) => if pos < p && p <= toks.len() {
            parse_rest_exec(toks, p, c)
        } else {
            None
        },
        None => None,
    }
}

fn parse_rest_exec(toks: &Vec<Vec<char>>, pos: usize, acc: Condition) -> (r: Option<(Condition, usize)>)
    requires
        pos <= toks@.len(),
    ensures
        match parse_rest(tokens_view(toks@), pos as int, acc.view()) {
            Some((c, p)) => r matches Some((d, q)) && d.view() == c && q == p,
            None => r is None,
        },
    decreases toks@.len() - pos, 1int,
{
    let ghost tv = tokens_view(toks@);
    if pos < toks.len() {
        assert(tv[pos as int] == toks@[pos as int]@);
        let is_and = chars_eq_str(&toks[pos], "&&");
        if is_and || chars_eq_str(&toks[pos], "||") {
            match parse_term_exec(toks, pos + 1) {
                Some((c, p)) => {
                    if pos < p && p <= toks.len() {
                        let joined = if is_and {
                            Condition::And(Box::new(acc), Box::new(c))
                        } else {
                            Condition::Or(Box::new(acc), Box::new(c))
                        };
                        return parse_rest_exec(toks, p, joined);
                    } else {
                        return None;
                    }
                },
                None => return None,
            }
        }
    }
    Some((acc, pos))
}

/// Parses the tokens between `IF` or `WHILE` and `THEN`.
pub fn parse_condition(toks: &Vec<Vec<char>>) -> (r: Option<Condition>)
    ensures
        match condition_of(tokens_view(toks@)) {
            Some(c) => r matches Some(d) && d.view() == c,
            None => r is None,
        },
{
    match parse_cond_exec(toks, 0) {
        Some((c, p)) => if p == toks.len() {
            Some(c)
        } else {
            None
        },
        None => None,
    }
}


/// How many variable references a read follows before it gives up.
pub const REFERENCE_LIMIT: usize = 64;

/// An operand with variable references followed, at most `fuel` of them: a
/// variable may hold a reference to another. An unbound variable, or a chain
/// longer than `fuel`, reads as `Unset`.
pub open spec fn resolve_within(v: ValueView, vars: Map<Seq<char>, ValueView>, fuel: nat) -> ValueView
    decreases fuel,
{
    match v {
        ValueView::Variable(n) => if fuel > 0 && vars.contains_key(n) {
            resolve_within(vars[n], vars, (fuel - 1) as nat)
        } else {
            ValueView::Unset
        },
        _ => v,
    }
}

/// The value an operand stands for when it is read (see `resolve_within`).
pub open spec fn resolve(v: ValueView, vars: Map<Seq<char>, ValueView>) -> ValueView {
    resolve_within(v, vars, REFERENCE_LIMIT as nat)
}

/// `l` is one of the elements of the array `xs`.
pub open spec fn is_element(l: ValueView, xs: Seq<ScalarView>) -> bool {
    exists|i: int| 0 <= i < xs.len() && (#[trigger] xs[i]).to_value() == l
}

/// What a comparison yields. Orderings hold between numbers only; membership
/// asks for an array on the right and is false otherwise.
pub open spec fn compare(l: ValueView, op: Operator, r: ValueView) -> bool {
    match op {
        Operator::Equal => l == r,
        Operator::NotEqual => l != r,
        Operator::Less => l matches ValueView::Number(a) && r matches ValueView::Number(b) && a < b,
        Operator::LessOrEqual => l matches ValueView::Number(a) && r matches ValueView::Number(b) && a <= b,
        Operator::Greater => l matches ValueView::Number(a) && r matches ValueView::Number(b) && a > b,
        Operator::GreaterOrEqual => l matches ValueView::Number(a) && r matches ValueView::Number(b) && a >= b,
        Operator::In => r matches ValueView::Array(xs) && is_element(l, xs),
        Operator::NotIn => r matches ValueView::Array(xs) && !is_element(l, xs),
    }
}

/// Whether a condition holds over the variables `vars`.
pub open spec fn holds(c: ConditionView, vars: Map<Seq<char>, ValueView>) -> bool
    decreases c,
{
    match c {
        ConditionView::Expression(l, op, r) => compare(resolve(l, vars), op, resolve(r, vars)),
        ConditionView::And(a, b) => holds(*a, vars) && holds(*b, vars),
        ConditionView::Or(a, b) => holds(*a, vars) || holds(*b, vars),
    }
}

pub fn scalar_eq(a: &Scalar, b: &Scalar) -> (r: bool)
    ensures
        r == (a@ == b@),
{
    match (a, b) {
        (Scalar::Text(x), Scalar::Text(y)) => *x == *y,
        (Scalar::Boolean(x), Scalar::Boolean(y)) => *x == *y,
        (Scalar::Number(x), Scalar::Number(y)) => *x == *y,
        _ => false,
    }
}

pub fn value_eq(a: &Value, b: &Value) -> (r: bool)
    ensures
        r == (a@ == b@),
{
    match (a, b) {
        (Value::Unset, Value::Unset) => true,
        (Value::Variable(x), Value::Variable(y)) => *x == *y,
        (Value::Text(x), Value::Text(y)) => *x == *y,
        (Value::Boolean(x), Value::Boolean(y)) => *x == *y,
        (Value::Number(x), Value::Number(y)) => *x == *y,
        (Value::Array(xs), Value::Array(ys)) => {
            if xs.len() != ys.len() {
                assert(scalars_view(xs@).len() != scalars_view(ys@).len());
                return false;
            }
            let mut i: usize = 0;
            while i < xs.len()
                invariant
                    xs@.len() == ys@.len(),
                    a@ == ValueView::Array(scalars_view(xs@)),
                    b@ == ValueView::Array(scalars_view(ys@)),
                    i <= xs@.len(),
                    forall|k: int| 0 <= k < i ==> (#[trigger] xs@[k])@ == ys@[k]@,
                decreases xs@.len() - i,
            {
                if !scalar_eq(&xs[i], &ys[i]) {
                    assert(scalars_view(xs@)[i as int] != scalars_view(ys@)[i as int]);
                    assert(scalars_view(xs@) != scalars_view(ys@));
                    return false;
                }
                i += 1;
            }
            assert(scalars_view(xs@) =~= scalars_view(ys@));
            true
        },
        _ => false,
    }
}

fn scalar_as_value(s: &Scalar) -> (r: Value)
    ensures
        r@ == s@.to_value(),
{
    match s {
        Scalar::Text(t) => Value::Text(t.clone()),
        Scalar::Boolean(b) => Value::Boolean(*b),
        Scalar::Number(n) => Value::Number(*n),
    }
}

fn element_of(l: &Value, xs: &Vec<Scalar>) -> (r: bool)
    ensures
        r == is_element(l@, scalars_view(xs@)),
{
    let mut i: usize = 0;
    while i < xs.len()
        invariant
            i <= xs@.len(),
            forall|k: int| 0 <= k < i ==> (#[trigger] scalars_view(xs@)[k]).to_value() != l@,
        decreases xs@.len() - i,
    {
        let x = scalar_as_value(&xs[i]);
        if value_eq(&x, l) {
            assert(scalars_view(xs@)[i as int].to_value() == l@);
            return true;
        }
        i += 1;
    }
    false
}

/// The value an operand stands for (see `resolve`).
pub fn resolve_value(v: &Value, vars: &Variables) -> (r: Value)
    requires
        vars.wf(),
    ensures
        r@ == resolve(v@, vars.map()),
{
    let mut cur = copy_value(v);
    let mut fuel: usize = REFERENCE_LIMIT;
    loop
        invariant
            vars.wf(),
            fuel <= REFERENCE_LIMIT,
            resolve_within(cur@, vars.map(), fuel as nat) == resolve(v@, vars.map()),
        decreases fuel,
    {
        let name = match &cur {
            Value::Variable(n) => crate::value::chars_of(n.as_str()),
            _ => return cur,
        };
        if fuel == 0 {
            return Value::Unset;
        }
        match vars.get(&name) {
            Some(x) => {
                cur = x;
                fuel -= 1;
            },
            None => return Value::Unset,
        }
    }
}

impl Expression {
    pub fn evaluate(&self, vars: &Variables) -> (r: bool)
        requires
            vars.wf(),
        ensures
            r == compare(resolve(self.left@, vars.map()), self.operator, resolve(self.right@, vars.map())),
    {
        let l = resolve_value(&self.left, vars);
        let r = resolve_value(&self.right, vars);
        match self.operator {
            Operator::Equal => value_eq(&l, &r),
            Operator::NotEqual => !value_eq(&l, &r),
            Operator::Less => match (&l, &r) {
                (Value::Number(a), Value::Number(b)) => *a < *b,
                _ => false,
            },
            Operator::LessOrEqual => match (&l, &r) {
                (Value::Number(a), Value::Number(b)) => *a <= *b,
                _ => false,
            },
            Operator::Greater => match (&l, &r) {
                (Value::Number(a), Value::Number(b)) => *a > *b,
                _ => false,
            },
            Operator::GreaterOrEqual => match (&l, &r) {
                (Value::Number(a), Value::Number(b)) => *a >= *b,
                _ => false,
            },
            Operator::In => match &r {
                Value::Array(xs) => element_of(&l, xs),
                _ => false,
            },
            Operator::NotIn => match &r {
                Value::Array(xs) => !element_of(&l, xs),
                _ => false,
            },
        }
    }
}

impl Condition {
    pub fn evaluate(&self, vars: &Variables) -> (r: bool)
        requires
            vars.wf(),
        ensures
            r == holds(self.view(), vars.map()),
        decreases self,
    {
        match self {
            Condition::Expression(e) => e.evaluate(vars),
            Condition::And(a, b) => a.evaluate(vars) && b.evaluate(vars),
            Condition::Or(a, b) => a.evaluate(vars) || b.evaluate(vars),
        }
    }
}

} // verus!
