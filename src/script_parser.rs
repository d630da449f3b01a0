use vstd::prelude::*;
use crate::condition_parser::{Condition, ConditionView, condition_of, parse_condition, tokens_view};
use crate::value::{Value, ValueView, argument_of, chars_eq_str, chars_of, parse_argument};

verus! {

/// A token of script text: a word, or the end of a line.
pub enum Token {
    Word(Vec<char>),
    Newline,
}

pub enum TokenView {
    Word(Seq<char>),
    Newline,
}

impl View for Token {
    type V = TokenView;

    open spec fn view(&self) -> TokenView {
        match self {
            Token::Word(w) => TokenView::Word(w@),
            Token::Newline => TokenView::Newline,
        }
    }
}

pub open spec fn tokens_seq_view(t: Seq<Token>) -> Seq<TokenView> {
    t.map_values(|x: Token| x@)
}

pub open spec fn is_blank(c: char) -> bool {
    c == ' ' || c == '\t' || c == '\r'
}

/// `acc` with the word `cur` added, if there is one.
pub open spec fn flush(acc: Seq<TokenView>, cur: Seq<char>) -> Seq<TokenView> {
    if cur.len() == 0 {
        acc
    } else {
        acc.push(TokenView::Word(cur))
    }
}

/// Splits `s` from index `i` on: runs of blanks separate words, a line break
/// and each parenthesis are tokens of their own, and a double-quoted stretch, blanks included, stays
/// inside its word. `cur` is the word read so far, `quoted` whether a quote is
/// open, `acc` the tokens before. An unclosed quote is an error.
pub open spec fn tokenize_from(s: Seq<char>, i: int, cur: Seq<char>, quoted: bool, acc: Seq<TokenView>) -> Option<Seq<TokenView>>
    decreases s.len() - i,
{
    if i >= s.len() {
        if quoted {
            None
        } else {
            Some(flush(acc, cur))
        }
    } else {
        let c = s[i];
        if quoted {
            tokenize_from(s, i + 1, cur.push(c), c != '"', acc)
        } else if c == '"' {
            tokenize_from(s, i + 1, cur.push(c), true, acc)
        } else if c == '\n' {
            tokenize_from(s, i + 1, Seq::empty(), false, flush(acc, cur).push(TokenView::Newline))
        } else if c == '(' || c == ')' {
            tokenize_from(s, i + 1, Seq::empty(), false, flush(acc, cur).push(TokenView::Word(seq![c])))
        } else if is_blank(c) {
            tokenize_from(s, i + 1, Seq::empty(), false, flush(acc, cur))
        } else {
            tokenize_from(s, i + 1, cur.push(c), false, acc)
        }
    }
}

pub open spec fn tokens_of(s: Seq<char>) -> Option<Seq<TokenView>> {
    tokenize_from(s, 0, Seq::empty(), false, Seq::empty())
}

fn flush_exec(acc: &mut Vec<Token>, cur: Vec<char>)
    ensures
        tokens_seq_view(final(acc)@) == flush(tokens_seq_view(old(acc)@), cur@),
{
    let ghost before = tokens_seq_view(acc@);
    if cur.len() > 0 {
        let ghost w = cur@;
        acc.push(Token::Word(cur));
        assert(tokens_seq_view(acc@) =~= before.push(TokenView::Word(w)));
    }
}

/// Splits script text into tokens (see `tokens_of`).
pub fn tokenize(s: &Vec<char>) -> (r: Option<Vec<Token>>)
    ensures
        match tokens_of(s@) {
            Some(t) => r matches Some(u) && tokens_seq_view(u@) == t,
            None => r is None,
        },
{
    let mut acc: Vec<Token> = Vec::new();
    let mut cur: Vec<char> = Vec::new();
    let mut quoted = false;
    let mut i: usize = 0;
    assert(tokens_seq_view(acc@) =~= Seq::<TokenView>::empty());
    while i < s.len()
        invariant
            i <= s@.len(),
            tokenize_from(s@, i as int, cur@, quoted, tokens_seq_view(acc@)) == tokens_of(s@),
        decreases s@.len() - i,
    {
        let c = s[i];
        if quoted {
            cur.push(c);
            quoted = c != '"';
        } else if c == '"' {
            cur.push(c);
            quoted = true;
        } else if c == '\n' {
            let w = cur;
            flush_exec(&mut acc, w);
            let ghost before = tokens_seq_view(acc@);
            acc.push(Token::Newline);
            assert(tokens_seq_view(acc@) =~= before.push(TokenView::Newline));
            cur = Vec::new();
        } else if c == '(' || c == ')' {
            let w = cur;
            flush_exec(&mut acc, w);
            let ghost before = tokens_seq_view(acc@);
            let mut p: Vec<char> = Vec::new();
            p.push(c);
            let ghost pv = p@;
            acc.push(Token::Word(p));
            assert(pv =~= seq![c]);
            assert(tokens_seq_view(acc@) =~= before.push(TokenView::Word(seq![c])));
            cur = Vec::new();
        } else if c == ' ' || c == '\t' || c == '\r' {
            let w = cur;
            flush_exec(&mut acc, w);
            cur = Vec::new();
        } else {
            cur.push(c);
        }
        i += 1;
    }
    if quoted {
        return None;
    }
    flush_exec(&mut acc, cur);
    Some(acc)
}


/// The commands of the script language.
#[derive(Clone, Copy, Debug, PartialEq, Eq, Structural)]
pub enum CommandKind {
    Activate,
    Deactivate,
    Pulse,
    Read,
    Dashboard,
    SetVariable,
    UnsetVariable,
    Add,
    Subtract,
    Multiply,
    Divide,
    Modulo,
    Delay,
}

/// One step of a parsed script. Blocks are flat: an opener (`If`, `While`,
/// `Loop`), the statements of the body, then `End`.
pub enum Instr {
    Command(CommandKind, Vec<Value>),
    If(Condition),
    While(Condition),
    Loop,
    End,
    Break,
    Continue,
}

pub enum InstrView {
    Command(CommandKind, Seq<ValueView>),
    If(ConditionView),
    While(ConditionView),
    Loop,
    End,
    Break,
    Continue,
}

pub open spec fn values_view(v: Seq<Value>) -> Seq<ValueView> {
    v.map_values(|x: Value| x@)
}

impl Instr {
    pub open spec fn view(&self) -> InstrView {
        match self {
            Instr::Command(k, a) => InstrView::Command(*k, values_view(a@)),
            Instr::If(c) => InstrView::If(c.view()),
            Instr::While(c) => InstrView::While(c.view()),
            Instr::Loop => InstrView::Loop,
            Instr::End => InstrView::End,
            Instr::Break => InstrView::Break,
            Instr::Continue => InstrView::Continue,
        }
    }
}

pub open spec fn program_view(p: Seq<Instr>) -> Seq<InstrView> {
    p.map_values(|x: Instr| x.view())
}

pub open spec fn command_kind_of(w: Seq<char>) -> Option<CommandKind> {
    if w == "ACTIVATE"@ {
        Some(CommandKind::Activate)
    } else if w == "DEACTIVATE"@ {
        Some(CommandKind::Deactivate)
    } else if w == "PULSE"@ {
        Some(CommandKind::Pulse)
    } else if w == "READ"@ {
        Some(CommandKind::Read)
    } else if w == "DASHBOARD"@ {
        Some(CommandKind::Dashboard)
    } else if w == "SET"@ {
        Some(CommandKind::SetVariable)
    } else if w == "UNSET"@ {
        Some(CommandKind::UnsetVariable)
    } else if w == "ADD"@ {
        Some(CommandKind::Add)
    } else if w == "SUBTRACT"@ {
        Some(CommandKind::Subtract)
    } else if w == "MULTIPLY"@ {
        Some(CommandKind::Multiply)
    } else if w == "DIVIDE"@ {
        Some(CommandKind::Divide)
    } else if w == "MODULO"@ {
        Some(CommandKind::Modulo)
    } else if w == "DELAY"@ {
        Some(CommandKind::Delay)
    } else {
        None
    }
}

/// A statement ends at a line break, at `END`, at `STOP`, or with the text.
pub open spec fn ends_statement(t: Seq<TokenView>, i: int) -> bool {
    i >= t.len() || t[i] matches TokenView::Newline || t[i] == TokenView::Word("END"@)
        || t[i] == TokenView::Word("STOP"@)
}

/// The arguments of a command from `i` up to the end of the statement.
pub open spec fn args_from(t: Seq<TokenView>, i: int, acc: Seq<ValueView>) -> Option<(Seq<ValueView>, int)>
    decreases t.len() - i,
{
    if i < 0 {
        None
    } else if ends_statement(t, i) {
        Some((acc, i))
    } else {
        match t[i] {
            TokenView::Word(w) => match argument_of(w) {
                Some(v) => args_from(t, i + 1, acc.push(v)),
                None => None,
            },
            TokenView::Newline => None,
        }
    }
}

/// The words of a condition from `i` up to the `THEN` on the same line, and
/// the index of that `THEN`.
pub open spec fn condition_words(t: Seq<TokenView>, i: int, acc: Seq<Seq<char>>) -> Option<(Seq<Seq<char>>, int)>
    decreases t.len() - i,
{
    if i < 0 || i >= t.len() {
        None
    } else {
        match t[i] {
            TokenView::Newline => None,
            TokenView::Word(w) => if w == "THEN"@ {
                Some((acc, i))
            } else if w == "END"@ || w == "STOP"@ {
                None
            } else {
                condition_words(t, i + 1, acc.push(w))
            },
        }
    }
}

/// The statement that starts with the word at `i`, and where the next starts.
pub open spec fn statement_at(t: Seq<TokenView>, i: int) -> Option<(InstrView, int)> {
    if i < 0 || i >= t.len() {
        None
    } else {
        match t[i] {
            TokenView::Newline => None,
            TokenView::Word(w) => if w == "IF"@ || w == "WHILE"@ {
                match condition_words(t, i + 1, Seq::empty()) {
                    Some((cw, k)) => match condition_of(cw) {
                        Some(c) => Some((if w == "IF"@ { InstrView::If(c) } else { InstrView::While(c) }, k + 1)),
                        None => None,
                    },
                    None => None,
                }
            } else if w == "LOOP"@ {
                if i + 1 < t.len() && t[i + 1] == TokenView::Word("THEN"@) {
                    Some((InstrView::Loop, i + 2))
                } else {
                    None
                }
            } else if w == "END"@ {
                Some((InstrView::End, i + 1))
            } else if w == "BREAK"@ {
                if ends_statement(t, i + 1) { Some((InstrView::Break, i + 1)) } else { None }
            } else if w == "CONTINUE"@ {
                if ends_statement(t, i + 1) { Some((InstrView::Continue, i + 1)) } else { None }
            } else {
                match command_kind_of(w) {
                    Some(k) => match args_from(t, i + 1, Seq::empty()) {
                        Some((a, j)) => Some((InstrView::Command(k, a), j)),
                        None => None,
                    },
                    None => None,
                }
            },
        }
    }
}

pub open spec fn is_opener(x: InstrView) -> bool {
    x matches InstrView::If(_) || x matches InstrView::While(_) || x matches InstrView::Loop
}

/// Only line breaks from `i` on.
pub open spec fn only_newlines(t: Seq<TokenView>, i: int) -> bool {
    forall|k: int| i <= k < t.len() ==> (#[trigger] t[k]) matches TokenView::Newline
}

/// The statements from `i` up to `STOP`, after `acc`, with `depth` blocks
/// open. `STOP` must close every block and be followed by line breaks only.
pub open spec fn body_from(t: Seq<TokenView>, i: int, acc: Seq<InstrView>, depth: nat) -> Option<Seq<InstrView>>
    decreases t.len() - i,
{
    if i < 0 || i >= t.len() {
        None
    } else {
        match t[i] {
            TokenView::Newline => body_from(t, i + 1, acc, depth),
            TokenView::Word(w) => if w == "STOP"@ {
                if depth == 0 && only_newlines(t, i + 1) { Some(acc) } else { None }
            } else {
                match statement_at(t, i) {
                    Some((x, j)) => if j <= i || j > t.len() {
                        None
                    } else if (x matches InstrView::End) {
                        if depth == 0 { None } else { body_from(t, j, acc.push(x), (depth - 1) as nat) }
                    } else if is_opener(x) {
                        body_from(t, j, acc.push(x), depth + 1)
                    } else {
                        body_from(t, j, acc.push(x), depth)
                    },
                    None => None,
                }
            },
        }
    }
}

/// The index of the first word, or the length.
pub open spec fn first_word(t: Seq<TokenView>, i: int) -> int
    decreases t.len() - i,
{
    if i < 0 || i >= t.len() {
        t.len() as int
    } else if (t[i] matches TokenView::Newline) {
        first_word(t, i + 1)
    } else {
        i
    }
}

/// The program of a token list: `RUN` first, then the body up to `STOP`.
pub open spec fn program_of_tokens(t: Seq<TokenView>) -> Option<Seq<InstrView>> {
    let k = first_word(t, 0);
    if k < t.len() && t[k] == TokenView::Word("RUN"@) {
        body_from(t, k + 1, Seq::empty(), 0)
    } else {
        None
    }
}

/// The program that a script text writes, if it is well formed.
pub open spec fn program_of(s: Seq<char>) -> Option<Seq<InstrView>> {
    match tokens_of(s) {
        Some(t) => program_of_tokens(t),
        None => None,
    }
}


fn command_kind_exec(w: &Vec<char>) -> (r: Option<CommandKind>)
    ensures
        r == command_kind_of(w@),
{
    if chars_eq_str(w, "ACTIVATE") {
        Some(CommandKind::Activate)
    } else if chars_eq_str(w, "DEACTIVATE") {
        Some(CommandKind::Deactivate)
    } else if chars_eq_str(w, "PULSE") {
        Some(CommandKind::Pulse)
    } else if chars_eq_str(w, "READ") {
        Some(CommandKind::Read)
    } else if chars_eq_str(w, "DASHBOARD") {
        Some(CommandKind::Dashboard)
    } else if chars_eq_str(w, "SET") {
        Some(CommandKind::SetVariable)
    } else if chars_eq_str(w, "UNSET") {
        Some(CommandKind::UnsetVariable)
    } else if chars_eq_str(w, "ADD") {
        Some(CommandKind::Add)
    } else if chars_eq_str(w, "SUBTRACT") {
        Some(CommandKind::Subtract)
    } else if chars_eq_str(w, "MULTIPLY") {
        Some(CommandKind::Multiply)
    } else if chars_eq_str(w, "DIVIDE") {
        Some(CommandKind::Divide)
    } else if chars_eq_str(w, "MODULO") {
        Some(CommandKind::Modulo)
    } else if chars_eq_str(w, "DELAY") {
        Some(CommandKind::Delay)
    } else {
        None
    }
}

fn word_is(t: &Vec<Token>, i: usize, w: &str) -> (r: bool)
    requires
        i < t@.len(),
    ensures
        r == (tokens_seq_view(t@)[i as int] == TokenView::Word(w@)),
{
    match &t[i] {
        Token::Word(x) => chars_eq_str(x, w),
        Token::Newline => false,
    }
}

fn ends_statement_exec(t: &Vec<Token>, i: usize) -> (r: bool)
    ensures
        r == ends_statement(tokens_seq_view(t@), i as int),
{
    if i >= t.len() {
        return true;
    }
    match &t[i] {
        Token::Newline => true,
        Token::Word(_) => word_is(t, i, "END") || word_is(t, i, "STOP"),
    }
}

fn args_from_exec(t: &Vec<Token>, start: usize) -> (r: Option<(Vec<Value>, usize)>)
    requires
        start <= t@.len(),
    ensures
        match args_from(tokens_seq_view(t@), start as int, Seq::empty()) {
            Some((a, j)) => r matches Some((b, k)) && values_view(b@) == a && k == j,
            None => r is None,
        },
{
    let ghost tv = tokens_seq_view(t@);
    let mut acc: Vec<Value> = Vec::new();
    let mut i: usize = start;
    assert(values_view(acc@) =~= Seq::<ValueView>::empty());
    while i < t.len() && !ends_statement_exec(t, i)
        invariant
            tv == tokens_seq_view(t@),
            tv.len() == t@.len(),
            start <= i <= t@.len(),
            args_from(tv, i as int, values_view(acc@)) == args_from(tv, start as int, Seq::empty()),
        decreases t@.len() - i,
    {
        match &t[i] {
            Token::Word(w) => match parse_argument(w) {
                Some(v) => {
                    let ghost before = values_view(acc@);
                    acc.push(v);
                    assert(values_view(acc@) =~= before.push(acc@.last()@));
                },
                None => return None,
            },
            Token::Newline => return None,
        }
        i += 1;
    }
    Some((acc, i))
}

fn copy_chars(w: &Vec<char>) -> (r: Vec<char>)
    ensures
        r@ == w@,
{
    crate::value::sub_chars(w, 0, w.len())
}

fn condition_words_exec(t: &Vec<Token>, start: usize) -> (r: Option<(Vec<Vec<char>>, usize)>)
    requires
        start <= t@.len(),
    ensures
        r matches Some((_, j)) ==> j < t@.len(),
        match condition_words(tokens_seq_view(t@), start as int, Seq::empty()) {
            Some((ws, k)) => r matches Some((vs, j)) && tokens_view(vs@) == ws && j == k,
            None => r is None,
        },
{
    let ghost tv = tokens_seq_view(t@);
    let mut acc: Vec<Vec<char>> = Vec::new();
    let mut i: usize = start;
    assert(tokens_view(acc@) =~= Seq::<Seq<char>>::empty());
    while i < t.len()
        invariant
            tv == tokens_seq_view(t@),
            start <= i <= t@.len(),
            condition_words(tv, i as int, tokens_view(acc@)) == condition_words(tv, start as int, Seq::empty()),
        decreases t@.len() - i,
    {
        match &t[i] {
            Token::Newline => return None,
            Token::Word(w) => {
                if chars_eq_str(w, "THEN") {
                    return Some((acc, i));
                } else if chars_eq_str(w, "END") || chars_eq_str(w, "STOP") {
                    return None;
                }
                let ghost before = tokens_view(acc@);
                acc.push(copy_chars(w));
                assert(tokens_view(acc@) =~= before.push(w@));
            },
        }
        i += 1;
    }
    None
}

fn statement_at_exec(t: &Vec<Token>, i: usize) -> (r: Option<(Instr, usize)>)
    ensures
        match statement_at(tokens_seq_view(t@), i as int) {
            Some((x, j)) => r matches Some((y, k)) && y.view() == x && k == j,
            None => r is None,
        },
{
    let ghost tv = tokens_seq_view(t@);
    if i >= t.len() {
        return None;
    }
    let w = match &t[i] {
        Token::Newline => return None,
        Token::Word(w) => w,
    };
    let is_if = chars_eq_str(w, "IF");
    if is_if || chars_eq_str(w, "WHILE") {
        match condition_words_exec(t, i + 1) {
            Some((cw, k)) => match parse_condition(&cw) {
                Some(c) => Some((if is_if { Instr::If(c) } else { Instr::While(c) }, k + 1)),
                None => None,
            },
            None => None,
        }
    } else if chars_eq_str(w, "LOOP") {
        if i + 1 < t.len() && word_is(t, i + 1, "THEN") {
            Some((Instr::Loop, i + 2))
        } else {
            None
        }
    } else if chars_eq_str(w, "END") {
        Some((Instr::End, i + 1))
    } else if chars_eq_str(w, "BREAK") {
        if ends_statement_exec(t, i + 1) { Some((Instr::Break, i + 1)) } else { None }
    } else if chars_eq_str(w, "CONTINUE") {
        if ends_statement_exec(t, i + 1) { Some((Instr::Continue, i + 1)) } else { None }
    } else {
        match command_kind_exec(w) {
            Some(k) => match args_from_exec(t, i + 1) {
                Some((a, j)) => Some((Instr::Command(k, a), j)),
                None => None,
            },
            None => None,
        }
    }
}

fn only_newlines_exec(t: &Vec<Token>, start: usize) -> (r: bool)
    ensures
        r == only_newlines(tokens_seq_view(t@), start as int),
{
    let mut i: usize = start;
    while i < t.len()
        invariant
            start <= i,
            forall|k: int| start <= k < i && k < t@.len() ==> (#[trigger] tokens_seq_view(t@)[k]) matches TokenView::Newline,
        decreases t@.len() - i,
    {
        match &t[i] {
            Token::Newline => {},
            Token::Word(_) => {
                assert(!(tokens_seq_view(t@)[i as int] matches TokenView::Newline));
                return false;
            },
        }
        i += 1;
    }
    true
}

fn first_word_exec(t: &Vec<Token>) -> (r: usize)
    ensures
        r == first_word(tokens_seq_view(t@), 0),
        r <= t@.len(),
{
    let ghost tv = tokens_seq_view(t@);
    let mut k: usize = 0;
    while k < t.len()
        invariant
            tv == tokens_seq_view(t@),
            k <= t@.len(),
            first_word(tv, k as int) == first_word(tv, 0),
        decreases t@.len() - k,
    {
        match &t[k] {
            Token::Newline => {},
            Token::Word(_) => {
                assert(!(tv[k as int] matches TokenView::Newline));
                return k;
            },
        }
        k += 1;
    }
    k
}

/// Parses a token list into a program (see `program_of_tokens`).
pub fn parse_tokens(t: &Vec<Token>) -> (r: Option<Vec<Instr>>)
    ensures
        match program_of_tokens(tokens_seq_view(t@)) {
            Some(p) => r matches Some(q) && program_view(q@) == p,
            None => r is None,
        },
{
    let ghost tv = tokens_seq_view(t@);
    let k = first_word_exec(t);
    if k >= t.len() || !word_is(t, k, "RUN") {
        return None;
    }
    let mut acc: Vec<Instr> = Vec::new();
    let mut depth: usize = 0;
    let mut i: usize = k + 1;
    assert(program_view(acc@) =~= Seq::<InstrView>::empty());
    while i < t.len()
        invariant
            tv == tokens_seq_view(t@),
            k < i <= t@.len(),
            depth <= i,
            program_of_tokens(tv) == body_from(tv, i as int, program_view(acc@), depth as nat),
        decreases t@.len() - i,
    {
        match &t[i] {
            Token::Newline => {
                i += 1;
            },
            Token::Word(w) => {
                if chars_eq_str(w, "STOP") {
                    if depth == 0 && only_newlines_exec(t, i + 1) {
                        return Some(acc);
                    }
                    return None;
                }
                match statement_at_exec(t, i) {
                    Some((x, j)) => {
                        if j <= i || j > t.len() {
                            return None;
                        }
                        let ghost before = program_view(acc@);
                        let ghost xv = x.view();
                        match x {
                            Instr::End => {
                                if depth == 0 {
                                    return None;
                                }
                                depth -= 1;
                            },
                            Instr::If(_) | Instr::While(_) | Instr::Loop => {
                                depth += 1;
                            },
                            _ => {},
                        }
                        acc.push(x);
                        assert(program_view(acc@) =~= before.push(xv));
                        i = j;
                    },
                    None => return None,
                }
            },
        }
    }
    None
}

/// Parses a script text into a program (see `program_of`).
pub fn parse_program(code: &str) -> (r: Option<Vec<Instr>>)
    ensures
        match program_of(code@) {
            Some(p) => r matches Some(q) && program_view(q@) == p,
            None => r is None,
        },
{
    let chars = chars_of(code);
    match tokenize(&chars) {
        Some(t) => parse_tokens(&t),
        None => None,
    }
}

} // verus!
