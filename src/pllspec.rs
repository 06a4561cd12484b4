//! The PLL notation: arrows between the numbered cells of a face.
//!
//! ```text
//! program   := statement*
//! statement := cubie operator cubie
//! cubie     := a digit from 1 to 9
//! operator  := '<>' | '<' | '>'
//! ```
//!
//! Whitespace may stand between any two tokens.
use crate::error::{prepend, ParseError};
use crate::text::{digit_char, digit_str, is_ws, skip_whitespace, skip_ws};
use vstd::prelude::*;

verus! {

/// A cell of the face, numbered from 0 to 8 row by row.
#[derive(Clone, Copy, Debug, PartialEq, Eq, Structural)]
pub struct Cubie {
    pub idx: u8,
}

/// Which ends of an arrow carry a head.
#[derive(Clone, Copy, Debug, PartialEq, Eq, Structural)]
pub enum Operator {
    StartHead,
    EndHead,
    BothHead,
}

/// An arrow from one cell to another.
#[derive(Clone, Copy, Debug, PartialEq, Eq, Structural)]
pub struct Statement {
    pub start: Cubie,
    pub end: Cubie,
    pub op: Operator,
}

/// Statements in the order they were written.
#[derive(Clone, Debug, Default, PartialEq, Eq)]
pub struct Statements {
    pub statements: Vec<Statement>,
}

/// A PLL diagram: its arrows, drawn in order.
#[derive(Clone, Debug, Default, PartialEq, Eq)]
pub struct Program {
    pub statements: Statements,
}

impl View for Program {
    type V = Seq<Statement>;

    open spec fn view(&self) -> Seq<Statement> {
        self.statements.statements@
    }
}

/// A cell index from 0 to 8.
pub open spec fn valid_cubie(c: Cubie) -> bool {
    c.idx < 9
}

/// Every arrow joins two cells of the face.
pub open spec fn valid_program(p: Seq<Statement>) -> bool {
    forall|k: int| 0 <= k < p.len() ==> valid_cubie(#[trigger] p[k].start) && valid_cubie(p[k].end)
}

pub open spec fn is_digit(c: char) -> bool {
    '0' <= c <= '9'
}

/// A read value and the index after it, with the index as a mathematical integer.
pub open spec fn lift<T>(r: Result<(T, usize), ParseError>) -> Result<(T, int), ParseError> {
    match r {
        Ok((v, k)) => Ok((v, k as int)),
        Err(e) => Err(e),
    }
}

/// The cubie at index `i` of `s`, whitespace skipped, and the index after its digit.
pub open spec fn cubie_at(s: Seq<char>, i: int) -> Result<(Cubie, int), ParseError> {
    let j = skip_ws(s, i);
    if 0 <= j < s.len() && is_digit(s[j]) {
        let v = (s[j] as u32 - '0' as u32) as u8;
        if v == 0 {
            Err(ParseError::OutOfRangeCubie(v))
        } else {
            Ok((Cubie { idx: (v - 1) as u8 }, j + 1))
        }
    } else {
        Err(ParseError::ExpectedDigit)
    }
}

/// The operator at index `i` of `s`, whitespace skipped, and the index after it. `<>` is
/// tried before `<`.
pub open spec fn op_at(s: Seq<char>, i: int) -> Result<(Operator, int), ParseError> {
    let j = skip_ws(s, i);
    if 0 <= j && j + 1 < s.len() && s[j] == '<' && s[j + 1] == '>' {
        Ok((Operator::BothHead, j + 2))
    } else if 0 <= j < s.len() && s[j] == '<' {
        Ok((Operator::StartHead, j + 1))
    } else if 0 <= j < s.len() && s[j] == '>' {
        Ok((Operator::EndHead, j + 1))
    } else if 0 <= j < s.len() {
        Err(ParseError::UnexpectedOperatorToken(s[j]))
    } else {
        Err(ParseError::ExpectedOperator)
    }
}

/// The statement at index `i` of `s` and the index after it.
pub open spec fn stmt_at(s: Seq<char>, i: int) -> Result<(Statement, int), ParseError> {
    match cubie_at(s, i) {
        Err(e) => Err(e),
        Ok((start, a)) => match op_at(s, a) {
            Err(e) => Err(e),
            Ok((op, b)) => match cubie_at(s, b) {
                Err(e) => Err(e),
                Ok((end, c)) => Ok((Statement { start, end, op }, c)),
            },
        },
    }
}

/// The statements from index `i` of `s` to its end.
pub open spec fn stmts_from(s: Seq<char>, i: int) -> Result<Seq<Statement>, ParseError>
    decreases s.len() - i,
{
    let j = skip_ws(s, i);
    if j >= s.len() {
        Ok(Seq::empty())
    } else {
        match stmt_at(s, j) {
            Err(e) => Err(e),
            // A statement ends after it starts (`lemma_stmt_at_advances`); the test
            // only shows that the recursion ends.
            Ok((st, k)) => if i < k {
                match stmts_from(s, k) {
                    Ok(rest) => Ok(seq![st] + rest),
                    Err(e) => Err(e),
                }
            } else {
                Ok(Seq::empty())
            },
        }
    }
}

/// The program that `s` spells, or why it spells none.
pub open spec fn parse_program_spec(s: Seq<char>) -> Result<Seq<Statement>, ParseError> {
    stmts_from(s, 0)
}

proof fn lemma_skip_ws_bounds(s: Seq<char>, i: int)
    requires
        0 <= i <= s.len(),
    ensures
        i <= skip_ws(s, i) <= s.len(),
        skip_ws(s, i) < s.len() ==> !is_ws(s[skip_ws(s, i)]),
    decreases s.len() - i,
{
    if i < s.len() && is_ws(s[i]) {
        lemma_skip_ws_bounds(s, i + 1);
    }
}

/// A statement that is read ends after where reading started.
pub proof fn lemma_stmt_at_advances(s: Seq<char>, i: int)
    requires
        0 <= i <= s.len(),
        stmt_at(s, i) is Ok,
    ensures
        i < stmt_at(s, i)->Ok_0.1 <= s.len(),
{
    lemma_skip_ws_bounds(s, i);
    let a = cubie_at(s, i)->Ok_0.1;
    lemma_skip_ws_bounds(s, a);
    let b = op_at(s, a)->Ok_0.1;
    lemma_skip_ws_bounds(s, b);
}

fn parse_cubie(input: &str, i: usize) -> (r: Result<(Cubie, usize), ParseError>)
    requires
        i <= input@.len(),
    ensures
        lift(r) == cubie_at(input@, i as int),
        r is Ok ==> r->Ok_0.1 <= input@.len(),
        r is Ok ==> valid_cubie(r->Ok_0.0),
{
    let j = skip_whitespace(input, i);
    if j < input.unicode_len() {
        let c = input.get_char(j);
        if '0' <= c && c <= '9' {
            let v = (c as u32 - '0' as u32) as u8;
            if v == 0 {
                return Err(ParseError::OutOfRangeCubie(v));
            }
            return Ok((Cubie { idx: v - 1 }, j + 1));
        }
    }
    Err(ParseError::ExpectedDigit)
}

fn parse_operator(input: &str, i: usize) -> (r: Result<(Operator, usize), ParseError>)
    requires
        i <= input@.len(),
    ensures
        lift(r) == op_at(input@, i as int),
        r is Ok ==> r->Ok_0.1 <= input@.len(),
{
    let n = input.unicode_len();
    let j = skip_whitespace(input, i);
    if j < n {
        let c = input.get_char(j);
        if c == '<' {
            if j + 1 < n && input.get_char(j + 1) == '>' {
                return Ok((Operator::BothHead, j + 2));
            }
            return Ok((Operator::StartHead, j + 1));
        } else if c == '>' {
            return Ok((Operator::EndHead, j + 1));
        }
        return Err(ParseError::UnexpectedOperatorToken(c));
    }
    Err(ParseError::ExpectedOperator)
}

fn parse_statement(input: &str, i: usize) -> (r: Result<(Statement, usize), ParseError>)
    requires
        i <= input@.len(),
    ensures
        lift(r) == stmt_at(input@, i as int),
        r is Ok ==> r->Ok_0.1 <= input@.len(),
        r is Ok ==> valid_cubie(r->Ok_0.0.start) && valid_cubie(r->Ok_0.0.end),
{
    let (start, a) = parse_cubie(input, i)?;
    let (op, b) = parse_operator(input, a)?;
    let (end, c) = parse_cubie(input, b)?;
    Ok((Statement { start, end, op }, c))
}

fn parse_statements(input: &str) -> (r: Result<Statements, ParseError>)
    ensures
        match r {
            Ok(st) => parse_program_spec(input@) == Ok::<Seq<Statement>, ParseError>(
                st.statements@,
            ),
            Err(e) => parse_program_spec(input@) == Err::<Seq<Statement>, ParseError>(e),
        },
        r is Ok ==> valid_program(r->Ok_0.statements@),
{
    let n = input.unicode_len();
    let mut statements: Vec<Statement> = Vec::new();
    let mut i: usize = 0;
    loop
        invariant
            n == input@.len(),
            i <= n,
            valid_program(statements@),
            parse_program_spec(input@) == prepend(
                statements@,
                stmts_from(input@, i as int),
            ),
        decreases n - i,
    {
        let j = skip_whitespace(input, i);
        if j >= n {
            assert(statements@ + Seq::<Statement>::empty() =~= statements@);
            return Ok(Statements { statements });
        }
        let (statement, k) = parse_statement(input, j)?;
        proof {
            lemma_skip_ws_bounds(input@, i as int);
            lemma_stmt_at_advances(input@, j as int);
            match stmts_from(input@, k as int) {
                Ok(t) => assert(statements@ + (seq![statement] + t) =~= statements@.push(statement)
                    + t),
                Err(_) => {},
            }
        }
        let ghost before = statements@;
        statements.push(statement);
        proof {
            assert forall|m: int| 0 <= m < statements@.len() implies valid_cubie(
                #[trigger] statements@[m].start,
            ) && valid_cubie(statements@[m].end) by {
                if m < before.len() {
                    assert(statements@[m] == before[m]);
                }
            }
        }
        i = k;
    }
}

/// Reads a PLL program: statements one after another, whitespace between tokens ignored.
pub fn parse_program(input: &str) -> (r: Result<Program, ParseError>)
    ensures
        match r {
            Ok(p) => parse_program_spec(input@) == Ok::<Seq<Statement>, ParseError>(p@),
            Err(e) => parse_program_spec(input@) == Err::<Seq<Statement>, ParseError>(e),
        },
        r is Ok ==> valid_program(r->Ok_0@),
{
    let statements = parse_statements(input)?;
    Ok(Program { statements })
}

/// The text of an operator.
pub open spec fn op_text(op: Operator) -> Seq<char> {
    match op {
        Operator::StartHead => seq!['<'],
        Operator::EndHead => seq!['>'],
        Operator::BothHead => seq!['<', '>'],
    }
}

/// The text of a statement, cells numbered from 1: `1<2`, `3>4`, `5<>6`.
pub open spec fn stmt_text(st: Statement) -> Seq<char> {
    seq![digit_char((st.start.idx + 1) as nat)] + op_text(st.op) + seq![digit_char(
        (st.end.idx + 1) as nat,
    )]
}

/// Canonical text of the statements from the `k`-th on, separated by single spaces.
pub open spec fn program_text_from(p: Seq<Statement>, k: int) -> Seq<char>
    decreases p.len() - k,
{
    if k < 0 || k >= p.len() {
        Seq::empty()
    } else if k + 1 < p.len() {
        stmt_text(p[k]) + seq![' '] + program_text_from(p, k + 1)
    } else {
        stmt_text(p[k])
    }
}

/// Canonical text of a program.
pub open spec fn program_text(p: Seq<Statement>) -> Seq<char> {
    program_text_from(p, 0)
}

proof fn lemma_digit_char(d: nat)
    requires
        d < 10,
    ensures
        is_digit(digit_char(d)),
        !is_ws(digit_char(d)),
        digit_char(d) != '<',
        digit_char(d) != '>',
        (digit_char(d) as u32 - '0' as u32) as u8 == d,
{
}

proof fn lemma_stmt_at_text(s: Seq<char>, i: int, st: Statement)
    requires
        valid_cubie(st.start),
        valid_cubie(st.end),
        0 <= i,
        i + stmt_text(st).len() <= s.len(),
        forall|m: int| 0 <= m < stmt_text(st).len() ==> s[i + m] == #[trigger] stmt_text(st)[m],
    ensures
        stmt_at(s, i) == Ok::<(Statement, int), ParseError>((st, i + stmt_text(st).len())),
{
    let t = stmt_text(st);
    let l = t.len() as int;
    lemma_digit_char((st.start.idx + 1) as nat);
    lemma_digit_char((st.end.idx + 1) as nat);
    assert(s[i + 0] == t[0]);
    assert(s[i + 1] == t[1]);
    assert(s[i + 2] == t[2]);
    assert(s[i + l - 1] == t[l - 1]);
    assert(skip_ws(s, i) == i);
    assert(skip_ws(s, i + 1) == i + 1);
    assert(skip_ws(s, i + l - 1) == i + l - 1);
    assert(cubie_at(s, i) == Ok::<(Cubie, int), ParseError>((st.start, i + 1)));
    assert(op_at(s, i + 1) == Ok::<(Operator, int), ParseError>((st.op, i + l - 1)));
    assert(cubie_at(s, i + l - 1) == Ok::<(Cubie, int), ParseError>((st.end, i + l)));
}

proof fn lemma_program_text_reads(s: Seq<char>, i: int, p: Seq<Statement>, k: int)
    requires
        valid_program(p),
        0 <= k <= p.len(),
        0 <= i <= s.len(),
        s.subrange(i, s.len() as int) == program_text_from(p, k),
    ensures
        stmts_from(s, i) == Ok::<Seq<Statement>, ParseError>(p.subrange(k, p.len() as int)),
    decreases p.len() - k,
{
    let t = program_text_from(p, k);
    if k == p.len() {
        assert(s.len() == i);
        assert(p.subrange(k, p.len() as int) =~= Seq::<Statement>::empty());
    } else {
        let st = p[k];
        let l = stmt_text(st).len() as int;
        assert(valid_cubie(st.start) && valid_cubie(st.end));
        if k + 1 < p.len() {
            assert(t == stmt_text(st) + seq![' '] + program_text_from(p, k + 1));
        } else {
            assert(t == stmt_text(st));
        }
        assert(t.len() >= l);
        assert(s.subrange(i, s.len() as int).len() == s.len() - i);
        assert forall|m: int| 0 <= m < l implies s[i + m] == #[trigger] stmt_text(st)[m] by {
            assert(s.subrange(i, s.len() as int)[m] == s[i + m]);
            assert(t[m] == stmt_text(st)[m]);
        }
        lemma_digit_char((st.start.idx + 1) as nat);
        assert(s[i + 0] == t[0]);
        assert(skip_ws(s, i) == i);
        lemma_stmt_at_text(s, i, st);
        if k + 1 < p.len() {
            let rest = program_text_from(p, k + 1);
            assert(t == stmt_text(st) + seq![' '] + rest);
            assert(s[i + l] == t[l]);
            assert forall|m: int| 0 <= m < rest.len() implies s[i + l + 1 + m] == rest[m] by {
                assert(s.subrange(i, s.len() as int)[l + 1 + m] == s[i + l + 1 + m]);
                assert(t[l + 1 + m] == rest[m]);
            }
            assert(s.subrange(i + l + 1, s.len() as int) =~= rest);
            lemma_program_text_reads(s, i + l + 1, p, k + 1);
            let nx = p[k + 1];
            lemma_digit_char((nx.start.idx + 1) as nat);
            assert(rest[0] == stmt_text(nx)[0]);
            assert(s[i + l + 1] == rest[0]) by {
                assert(s.subrange(i + l + 1, s.len() as int)[0] == s[i + l + 1]);
            }
            assert(skip_ws(s, i + l + 1) == i + l + 1);
            assert(skip_ws(s, i + l) == i + l + 1);
            assert(stmt_at(s, i + l + 1) is Ok);
            lemma_stmt_at_advances(s, i + l + 1);
            assert(stmts_from(s, i + l) == stmts_from(s, i + l + 1));
            assert(seq![st] + p.subrange(k + 1, p.len() as int) =~= p.subrange(
                k,
                p.len() as int,
            ));
        } else {
            assert(t == stmt_text(st));
            assert(i + l == s.len());
            assert(skip_ws(s, i + l) == i + l);
            assert(stmts_from(s, i + l) == Ok::<Seq<Statement>, ParseError>(Seq::empty()));
            assert(seq![st] + Seq::<Statement>::empty() =~= p.subrange(k, p.len() as int));
        }
    }
}

/// Canonical text of a program whose arrows join cells of the face reads back as that
/// program.
pub proof fn lemma_program_text_round_trip(p: Seq<Statement>)
    requires
        valid_program(p),
    ensures
        parse_program_spec(program_text(p)) == Ok::<Seq<Statement>, ParseError>(p),
{
    let t = program_text(p);
    assert(t.subrange(0, t.len() as int) =~= t);
    lemma_program_text_reads(t, 0, p, 0);
    assert(p.subrange(0, p.len() as int) =~= p);
}

/// What a successful read gives joins cells of the face.
pub proof fn lemma_stmts_from_valid(s: Seq<char>, i: int)
    requires
        stmts_from(s, i) is Ok,
    ensures
        valid_program(stmts_from(s, i)->Ok_0),
    decreases s.len() - i,
{
    let j = skip_ws(s, i);
    if j < s.len() {
        let (st, k) = stmt_at(s, j)->Ok_0;
        if i < k {
            lemma_stmts_from_valid(s, k);
            let r = stmts_from(s, i)->Ok_0;
            let rest = stmts_from(s, k)->Ok_0;
            assert forall|m: int| 0 <= m < r.len() implies valid_cubie(#[trigger] r[m].start)
                && valid_cubie(r[m].end) by {
                if m > 0 {
                    assert(r[m] == rest[m - 1]);
                }
            }
        }
    }
}

/// Reading a program, writing it in canonical text and reading that again gives the same
/// program.
pub proof fn program_parse_print_parse(s: Seq<char>)
    requires
        parse_program_spec(s) is Ok,
    ensures
        parse_program_spec(program_text(parse_program_spec(s)->Ok_0)) == parse_program_spec(s),
{
    lemma_stmts_from_valid(s, 0);
    lemma_program_text_round_trip(parse_program_spec(s)->Ok_0);
}

fn op_str(op: Operator) -> (r: &'static str)
    ensures
        r@ == op_text(op),
{
    match op {
        Operator::StartHead => {
            proof { reveal_strlit("<"); }
            "<"
        },
        Operator::EndHead => {
            proof { reveal_strlit(">"); }
            ">"
        },
        Operator::BothHead => {
            proof { reveal_strlit("<>"); }
            "<>"
        },
    }
}

/// Writes a program in canonical text, which `parse_program` reads back.
pub fn program_to_text(program: &Program) -> (r: String)
    requires
        valid_program(program@),
    ensures
        r@ == program_text(program@),
{
    let stmts = &program.statements.statements;
    let n = stmts.len();
    let mut s = String::new();
    let mut k: usize = n;
    while k > 0
        invariant
            n == program@.len(),
            stmts@ == program@,
            k <= n,
            valid_program(program@),
            s@ == program_text_from(program@, k as int),
        decreases k,
    {
        k = k - 1;
        let st = stmts[k];
        assert(valid_cubie(program@[k as int].start) && valid_cubie(program@[k as int].end));
        let mut t = String::from_str(digit_str((st.start.idx + 1) as u64));
        t.append(op_str(st.op));
        t.append(digit_str((st.end.idx + 1) as u64));
        if k + 1 < n {
            t.append(" ");
            proof { reveal_strlit(" "); }
        }
        t.append(s.as_str());
        s = t;
        assert(s@ =~= program_text_from(program@, k as int));
    }
    s
}

} // verus!
