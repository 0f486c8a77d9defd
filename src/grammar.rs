//! Tokens, concrete nodes, and the grammar as a function from a token
//! sequence and a position to the concrete tree matched there.
use crate::text::text_is;
use crate::tree::{atom, kids, make, node_view, Node, Tree};
use vstd::prelude::*;

verus! {

/// A classified lexical unit and its source snippet.
#[derive(Clone, Copy, Debug)]
pub enum Token<'a> {
    Arithmetic(&'a str),
    Assignment(&'a str),
    Boolean(&'a str),
    Comparison(&'a str),
    Control(&'a str),
    End(&'a str),
    Grouping(&'a str),
    IO(&'a str),
    Name(&'a str),
    Number(&'a str),
    Procedure(&'a str),
    Special(&'a str),
    String(&'a str),
    Truth(&'a str),
    Type(&'a str),
}

/// The grammar rules that label interior nodes of a concrete tree.
#[derive(Clone, Copy, Debug)]
pub enum NonTerminal {
    Assign,
    Bool,
    Calc,
    Call,
    Code,
    CondBranch,
    CondLoop,
    Decl,
    Instr,
    IO,
    Name,
    NumExpr,
    Proc,
    ProcDefs,
    Prog,
    Type,
    Var,
}

/// The label of a concrete node: a matched token or a grammar rule.
#[derive(Clone, Copy, Debug)]
pub enum ConcreteNode<'a> {
    Term(Token<'a>),
    NonTerm(NonTerminal),
}

/// The snippet a token carries.
pub open spec fn text(t: Token) -> Seq<char> {
    match t {
        Token::Arithmetic(s) => s@,
        Token::Assignment(s) => s@,
        Token::Boolean(s) => s@,
        Token::Comparison(s) => s@,
        Token::Control(s) => s@,
        Token::End(s) => s@,
        Token::Grouping(s) => s@,
        Token::IO(s) => s@,
        Token::Name(s) => s@,
        Token::Number(s) => s@,
        Token::Procedure(s) => s@,
        Token::Special(s) => s@,
        Token::String(s) => s@,
        Token::Truth(s) => s@,
        Token::Type(s) => s@,
    }
}

/// The text of a concrete node: its token's snippet, or empty for a rule.
pub open spec fn info_text(i: ConcreteNode) -> Seq<char> {
    match i {
        ConcreteNode::Term(t) => text(t),
        ConcreteNode::NonTerm(_) => Seq::empty(),
    }
}

/// The token at position `p`; past the end of the input, the `End` sentinel.
pub open spec fn tk<'a>(toks: Seq<Token<'a>>, p: int) -> Token<'a> {
    if 0 <= p < toks.len() {
        toks[p]
    } else {
        Token::End("")
    }
}

/// Whether `t` is the punctuation `s`.
pub open spec fn is_g(t: Token, s: &str) -> bool {
    t is Grouping && text(t) == s@
}

/// Whether `t` is the control keyword `s`.
pub open spec fn is_control(t: Token, s: &str) -> bool {
    t is Control && text(t) == s@
}

/// The number of tokens left from position `p` on.
pub open spec fn left(toks: Seq<Token>, p: int) -> nat {
    if p < toks.len() {
        (toks.len() - p) as nat
    } else {
        0
    }
}

pub type CTree<'a> = Tree<ConcreteNode<'a>>;

/// What a rule does at a position: the tree it matched and the position after
/// it, or the position of the first token it could not match.
pub ghost enum Step<'a> {
    Done(CTree<'a>, int),
    Fail(int),
}

/// A terminal node for the token at `p`.
pub open spec fn lf<'a>(toks: Seq<Token<'a>>, p: int) -> CTree<'a> {
    atom(ConcreteNode::Term(tk(toks, p)))
}

pub open spec fn inner<'a>(nt: NonTerminal, cs: Seq<CTree<'a>>) -> CTree<'a> {
    Tree { info: ConcreteNode::NonTerm(nt), children: cs }
}

/// A `Var` node over the name at `p`.
pub open spec fn var_at<'a>(toks: Seq<Token<'a>>, p: int) -> CTree<'a> {
    inner(NonTerminal::Var, seq![lf(toks, p)])
}

// Each `g_<rule>` states what the rule matches from position `p`: it checks
// the tokens in production order and fails at the first one that does not
// fit. A `q <= p` test after a nested rule never holds (every rule consumes a
// token); it lets the definitions show that they terminate.

pub open spec fn g_var<'a>(toks: Seq<Token<'a>>, p: int) -> Step<'a> {
    if tk(toks, p) is Name {
        Step::Done(var_at(toks, p), p + 1)
    } else {
        Step::Fail(p)
    }
}

pub open spec fn g_call<'a>(toks: Seq<Token<'a>>, p: int) -> Step<'a> {
    if tk(toks, p) is Name {
        Step::Done(inner(NonTerminal::Call, seq![lf(toks, p)]), p + 1)
    } else {
        Step::Fail(p)
    }
}

pub open spec fn g_decl<'a>(toks: Seq<Token<'a>>, p: int) -> Step<'a> {
    if !(tk(toks, p) is Type) {
        Step::Fail(p)
    } else if !(tk(toks, p + 1) is Name) {
        Step::Fail(p + 1)
    } else {
        Step::Done(
            inner(
                NonTerminal::Decl,
                seq![
                    inner(NonTerminal::Type, seq![lf(toks, p)]),
                    inner(NonTerminal::Name, seq![lf(toks, p + 1)]),
                ],
            ),
            p + 2,
        )
    }
}

pub open spec fn g_io<'a>(toks: Seq<Token<'a>>, p: int) -> Step<'a> {
    if !(tk(toks, p) is IO) {
        Step::Fail(p)
    } else if !is_g(tk(toks, p + 1), "(") {
        Step::Fail(p + 1)
    } else if !(tk(toks, p + 2) is Name) {
        Step::Fail(p + 2)
    } else if !is_g(tk(toks, p + 3), ")") {
        Step::Fail(p + 3)
    } else {
        Step::Done(
            inner(
                NonTerminal::IO,
                seq![lf(toks, p), lf(toks, p + 1), var_at(toks, p + 2), lf(toks, p + 3)],
            ),
            p + 4,
        )
    }
}

pub open spec fn g_calc<'a>(toks: Seq<Token<'a>>, p: int) -> Step<'a>
    decreases left(toks, p), 1int,
{
    if !(tk(toks, p) is Arithmetic) {
        Step::Fail(p)
    } else if !is_g(tk(toks, p + 1), "(") {
        Step::Fail(p + 1)
    } else {
        match g_num_expr(toks, p + 2) {
            Step::Fail(e) => Step::Fail(e),
            Step::Done(a, q) => if q <= p {
                Step::Fail(q)
            } else if !is_g(tk(toks, q), ",") {
                Step::Fail(q)
            } else {
                match g_num_expr(toks, q + 1) {
                    Step::Fail(e) => Step::Fail(e),
                    Step::Done(b, q2) => if !is_g(tk(toks, q2), ")") {
                        Step::Fail(q2)
                    } else {
                        Step::Done(
                            inner(
                                NonTerminal::Calc,
                                seq![
                                    lf(toks, p),
                                    lf(toks, p + 1),
                                    a,
                                    lf(toks, q),
                                    b,
                                    lf(toks, q2),
                                ],
                            ),
                            q2 + 1,
                        )
                    },
                }
            },
        }
    }
}

pub open spec fn g_num_expr<'a>(toks: Seq<Token<'a>>, p: int) -> Step<'a>
    decreases left(toks, p), 2int,
{
    let c = tk(toks, p);
    if c is Name {
        Step::Done(inner(NonTerminal::NumExpr, seq![var_at(toks, p)]), p + 1)
    } else if c is Number {
        Step::Done(inner(NonTerminal::NumExpr, seq![lf(toks, p)]), p + 1)
    } else if c is Arithmetic {
        match g_calc(toks, p) {
            Step::Fail(e) => Step::Fail(e),
            Step::Done(x, q) => Step::Done(inner(NonTerminal::NumExpr, seq![x]), q),
        }
    } else {
        Step::Fail(p)
    }
}

pub open spec fn g_assign<'a>(toks: Seq<Token<'a>>, p: int) -> Step<'a>
    decreases left(toks, p), 1int,
{
    if !(tk(toks, p) is Name) {
        Step::Fail(p)
    } else if !(tk(toks, p + 1) is Assignment) {
        Step::Fail(p + 1)
    } else {
        let c = tk(toks, p + 2);
        let rhs = if c is String {
            Step::Done(lf(toks, p + 2), p + 3)
        } else if c is Name {
            Step::Done(var_at(toks, p + 2), p + 3)
        } else if c is Number || c is Arithmetic {
            g_num_expr(toks, p + 2)
        } else {
            g_bool(toks, p + 2)
        };
        match rhs {
            Step::Fail(e) => Step::Fail(e),
            Step::Done(x, q) => Step::Done(
                inner(NonTerminal::Assign, seq![var_at(toks, p), lf(toks, p + 1), x]),
                q,
            ),
        }
    }
}

pub open spec fn g_bool<'a>(toks: Seq<Token<'a>>, p: int) -> Step<'a>
    decreases left(toks, p), 1int,
{
    let c = tk(toks, p);
    if c is Comparison && text(c) == "eq"@ {
        if !is_g(tk(toks, p + 1), "(") {
            Step::Fail(p + 1)
        } else if !(tk(toks, p + 2) is Name) {
            Step::Fail(p + 2)
        } else if !is_g(tk(toks, p + 3), ",") {
            Step::Fail(p + 3)
        } else if !(tk(toks, p + 4) is Name) {
            Step::Fail(p + 4)
        } else if !is_g(tk(toks, p + 5), ")") {
            Step::Fail(p + 5)
        } else {
            Step::Done(
                inner(
                    NonTerminal::Bool,
                    seq![
                        lf(toks, p),
                        lf(toks, p + 1),
                        var_at(toks, p + 2),
                        lf(toks, p + 3),
                        var_at(toks, p + 4),
                        lf(toks, p + 5),
                    ],
                ),
                p + 6,
            )
        }
    } else if is_g(c, "(") {
        let op = tk(toks, p + 2);
        if !(tk(toks, p + 1) is Name) {
            Step::Fail(p + 1)
        } else if !(op is Comparison && (text(op) == "<"@ || text(op) == ">"@)) {
            Step::Fail(p + 2)
        } else if !(tk(toks, p + 3) is Name) {
            Step::Fail(p + 3)
        } else if !is_g(tk(toks, p + 4), ")") {
            Step::Fail(p + 4)
        } else {
            Step::Done(
                inner(
                    NonTerminal::Bool,
                    seq![
                        lf(toks, p),
                        var_at(toks, p + 1),
                        lf(toks, p + 2),
                        var_at(toks, p + 3),
                        lf(toks, p + 4),
                    ],
                ),
                p + 5,
            )
        }
    } else if c is Boolean && text(c) == "not"@ {
        match g_bool(toks, p + 1) {
            Step::Fail(e) => Step::Fail(e),
            Step::Done(x, q) => Step::Done(inner(NonTerminal::Bool, seq![lf(toks, p), x]), q),
        }
    } else if c is Boolean {
        if !is_g(tk(toks, p + 1), "(") {
            Step::Fail(p + 1)
        } else {
            match g_bool(toks, p + 2) {
                Step::Fail(e) => Step::Fail(e),
                Step::Done(a, q) => if q <= p {
                    Step::Fail(q)
                } else if !is_g(tk(toks, q), ",") {
                    Step::Fail(q)
                } else {
                    match g_bool(toks, q + 1) {
                        Step::Fail(e) => Step::Fail(e),
                        Step::Done(b, q2) => if !is_g(tk(toks, q2), ")") {
                            Step::Fail(q2)
                        } else {
                            Step::Done(
                                inner(
                                    NonTerminal::Bool,
                                    seq![
                                        lf(toks, p),
                                        lf(toks, p + 1),
                                        a,
                                        lf(toks, q),
                                        b,
                                        lf(toks, q2),
                                    ],
                                ),
                                q2 + 1,
                            )
                        },
                    }
                },
            }
        }
    } else if c is Truth {
        Step::Done(inner(NonTerminal::Bool, seq![lf(toks, p)]), p + 1)
    } else if c is Name {
        Step::Done(inner(NonTerminal::Bool, seq![var_at(toks, p)]), p + 1)
    } else {
        Step::Fail(p)
    }
}


pub open spec fn g_cond_branch<'a>(toks: Seq<Token<'a>>, p: int) -> Step<'a>
    decreases left(toks, p), 1int,
{
    if !is_control(tk(toks, p), "if") {
        Step::Fail(p)
    } else if !is_g(tk(toks, p + 1), "(") {
        Step::Fail(p + 1)
    } else {
        match g_bool(toks, p + 2) {
            Step::Fail(e) => Step::Fail(e),
            Step::Done(c, q) => if q <= p {
                Step::Fail(q)
            } else if !is_g(tk(toks, q), ")") {
                Step::Fail(q)
            } else if !is_control(tk(toks, q + 1), "then") {
                Step::Fail(q + 1)
            } else if !is_g(tk(toks, q + 2), "{") {
                Step::Fail(q + 2)
            } else {
                match g_code(toks, q + 3) {
                    Step::Fail(e) => Step::Fail(e),
                    Step::Done(body, q2) => if q2 <= p {
                        Step::Fail(q2)
                    } else if !is_g(tk(toks, q2), "}") {
                        Step::Fail(q2)
                    } else {
                        let base = seq![
                            lf(toks, p),
                            lf(toks, p + 1),
                            c,
                            lf(toks, q),
                            lf(toks, q + 1),
                            lf(toks, q + 2),
                            body,
                            lf(toks, q2),
                        ];
                        if !is_control(tk(toks, q2 + 1), "else") {
                            Step::Done(inner(NonTerminal::CondBranch, base), q2 + 1)
                        } else if !is_g(tk(toks, q2 + 2), "{") {
                            Step::Fail(q2 + 2)
                        } else {
                            match g_code(toks, q2 + 3) {
                                Step::Fail(e) => Step::Fail(e),
                                Step::Done(other, q3) => if !is_g(tk(toks, q3), "}") {
                                    Step::Fail(q3)
                                } else {
                                    Step::Done(
                                        inner(
                                            NonTerminal::CondBranch,
                                            base.push(lf(toks, q2 + 1)).push(
                                                lf(toks, q2 + 2),
                                            ).push(other).push(lf(toks, q3)),
                                        ),
                                        q3 + 1,
                                    )
                                },
                            }
                        }
                    },
                }
            },
        }
    }
}

/// Whether `t` fits slot `k` of a `for` header (`k` in 1..20; the `Var`
/// slots 2, 6, 8, 10 and 14 take a name).
pub open spec fn slot_fits(t: Token, k: int) -> bool {
    if k == 1 || k == 13 {
        is_g(t, "(")
    } else if is_var_slot(k) {
        t is Name
    } else if k == 3 || k == 11 {
        t is Assignment
    } else if k == 4 {
        t is Number && text(t) == "0"@
    } else if k == 5 || k == 9 {
        is_g(t, ";")
    } else if k == 7 {
        t is Comparison && text(t) == "<"@
    } else if k == 12 {
        t is Arithmetic && text(t) == "add"@
    } else if k == 15 {
        is_g(t, ",")
    } else if k == 16 {
        t is Number && text(t) == "1"@
    } else if k == 17 || k == 18 {
        is_g(t, ")")
    } else {
        is_g(t, "{")
    }
}

pub open spec fn is_var_slot(k: int) -> bool {
    k == 2 || k == 6 || k == 8 || k == 10 || k == 14
}

/// The first slot of a `for` header, from 1 on, whose token does not fit;
/// 20 when all of them fit.
pub open spec fn for_first_bad(toks: Seq<Token>, p: int, k: int) -> int
    decreases 20 - k,
{
    if k >= 20 {
        20
    } else if !slot_fits(tk(toks, p + k), k) {
        k
    } else {
        for_first_bad(toks, p, k + 1)
    }
}

/// The children of a `for` header from slot 0 up to, not including, slot `k`.
pub open spec fn for_header<'a>(toks: Seq<Token<'a>>, p: int, k: int) -> Seq<CTree<'a>>
    decreases k,
{
    if k <= 0 {
        Seq::empty()
    } else if is_var_slot(k - 1) {
        for_header(toks, p, k - 1).push(var_at(toks, p + k - 1))
    } else {
        for_header(toks, p, k - 1).push(lf(toks, p + k - 1))
    }
}

pub open spec fn g_cond_loop<'a>(toks: Seq<Token<'a>>, p: int) -> Step<'a>
    decreases left(toks, p), 1int,
{
    if is_control(tk(toks, p), "while") {
        if !is_g(tk(toks, p + 1), "(") {
            Step::Fail(p + 1)
        } else {
            match g_bool(toks, p + 2) {
                Step::Fail(e) => Step::Fail(e),
                Step::Done(c, q) => if q <= p {
                    Step::Fail(q)
                } else if !is_g(tk(toks, q), ")") {
                    Step::Fail(q)
                } else if !is_g(tk(toks, q + 1), "{") {
                    Step::Fail(q + 1)
                } else {
                    match g_code(toks, q + 2) {
                        Step::Fail(e) => Step::Fail(e),
                        Step::Done(body, q2) => if !is_g(tk(toks, q2), "}") {
                            Step::Fail(q2)
                        } else {
                            Step::Done(
                                inner(
                                    NonTerminal::CondLoop,
                                    seq![
                                        lf(toks, p),
                                        lf(toks, p + 1),
                                        c,
                                        lf(toks, q),
                                        lf(toks, q + 1),
                                        body,
                                        lf(toks, q2),
                                    ],
                                ),
                                q2 + 1,
                            )
                        },
                    }
                },
            }
        }
    } else if is_control(tk(toks, p), "for") {
        if for_first_bad(toks, p, 1) < 20 {
            Step::Fail(p + for_first_bad(toks, p, 1))
        } else {
            match g_code(toks, p + 20) {
                Step::Fail(e) => Step::Fail(e),
                Step::Done(body, q) => if !is_g(tk(toks, q), "}") {
                    Step::Fail(q)
                } else {
                    Step::Done(
                        inner(
                            NonTerminal::CondLoop,
                            for_header(toks, p, 20).push(body).push(lf(toks, q)),
                        ),
                        q + 1,
                    )
                },
            }
        }
    } else {
        Step::Fail(p)
    }
}

pub open spec fn g_instr<'a>(toks: Seq<Token<'a>>, p: int) -> Step<'a>
    decreases left(toks, p), 2int,
{
    let c = tk(toks, p);
    let r = if c is Special {
        Step::Done(lf(toks, p), p + 1)
    } else if c is Type {
        g_decl(toks, p)
    } else if c is IO {
        g_io(toks, p)
    } else if c is Name {
        if tk(toks, p + 1) is Assignment {
            g_assign(toks, p)
        } else {
            g_call(toks, p)
        }
    } else if is_control(c, "if") {
        g_cond_branch(toks, p)
    } else if c is Control {
        g_cond_loop(toks, p)
    } else {
        Step::Fail(p)
    };
    match r {
        Step::Fail(e) => Step::Fail(e),
        Step::Done(x, q) => Step::Done(inner(NonTerminal::Instr, seq![x]), q),
    }
}

pub open spec fn g_code<'a>(toks: Seq<Token<'a>>, p: int) -> Step<'a>
    decreases left(toks, p), 3int,
{
    match g_instr(toks, p) {
        Step::Fail(e) => Step::Fail(e),
        Step::Done(i, q) => if q <= p || p >= toks.len() {
            Step::Fail(q)
        } else if is_g(tk(toks, q), ";") && !(tk(toks, q + 1) is Procedure) {
            match g_code(toks, q + 1) {
                Step::Fail(e) => Step::Fail(e),
                Step::Done(rest, q2) => Step::Done(
                    inner(NonTerminal::Code, seq![i, lf(toks, q), rest]),
                    q2,
                ),
            }
        } else {
            Step::Done(inner(NonTerminal::Code, seq![i]), q)
        },
    }
}

pub open spec fn g_proc<'a>(toks: Seq<Token<'a>>, p: int) -> Step<'a>
    decreases left(toks, p), 1int,
{
    if !(tk(toks, p) is Procedure) {
        Step::Fail(p)
    } else if !(tk(toks, p + 1) is Name) {
        Step::Fail(p + 1)
    } else if !is_g(tk(toks, p + 2), "{") {
        Step::Fail(p + 2)
    } else {
        match g_prog(toks, p + 3) {
            Step::Fail(e) => Step::Fail(e),
            Step::Done(body, q) => if !is_g(tk(toks, q), "}") {
                Step::Fail(q)
            } else {
                Step::Done(
                    inner(
                        NonTerminal::Proc,
                        seq![lf(toks, p), lf(toks, p + 1), lf(toks, p + 2), body, lf(toks, q)],
                    ),
                    q + 1,
                )
            },
        }
    }
}

pub open spec fn g_proc_defs<'a>(toks: Seq<Token<'a>>, p: int) -> Step<'a>
    decreases left(toks, p), 2int,
{
    match g_proc(toks, p) {
        Step::Fail(e) => Step::Fail(e),
        Step::Done(x, q) => if q <= p || p >= toks.len() {
            Step::Fail(q)
        } else if tk(toks, q) is Procedure {
            match g_proc_defs(toks, q) {
                Step::Fail(e) => Step::Fail(e),
                Step::Done(rest, q2) => Step::Done(
                    inner(NonTerminal::ProcDefs, seq![x, rest]),
                    q2,
                ),
            }
        } else {
            Step::Done(inner(NonTerminal::ProcDefs, seq![x]), q)
        },
    }
}

pub open spec fn g_prog<'a>(toks: Seq<Token<'a>>, p: int) -> Step<'a>
    decreases left(toks, p), 4int,
{
    match g_code(toks, p) {
        Step::Fail(e) => Step::Fail(e),
        Step::Done(c, q) => if q <= p || p >= toks.len() {
            Step::Fail(q)
        } else if is_g(tk(toks, q), ";") {
            match g_proc_defs(toks, q + 1) {
                Step::Fail(e) => Step::Fail(e),
                Step::Done(d, q2) => Step::Done(
                    inner(NonTerminal::Prog, seq![c, lf(toks, q), d]),
                    q2,
                ),
            }
        } else {
            Step::Done(inner(NonTerminal::Prog, seq![c]), q)
        },
    }
}

/// The whole program: a `Prog` matched from the start, followed by the end
/// of the input. `Ok` holds the tree; `Err` the position of the first token
/// that does not fit.
pub open spec fn parse_spec<'a>(toks: Seq<Token<'a>>) -> Result<CTree<'a>, int> {
    match g_prog(toks, 0) {
        Step::Fail(e) => Err(e),
        Step::Done(t, q) => if tk(toks, q) is End {
            Ok(t)
        } else {
            Err(q)
        },
    }
}


impl<'a> Token<'a> {
    /// The snippet this token carries.
    pub fn snippet(&self) -> (r: &'a str)
        ensures
            r@ == text(*self),
    {
        match *self {
            Token::Arithmetic(s) => s,
            Token::Assignment(s) => s,
            Token::Boolean(s) => s,
            Token::Comparison(s) => s,
            Token::Control(s) => s,
            Token::End(s) => s,
            Token::Grouping(s) => s,
            Token::IO(s) => s,
            Token::Name(s) => s,
            Token::Number(s) => s,
            Token::Procedure(s) => s,
            Token::Special(s) => s,
            Token::String(s) => s,
            Token::Truth(s) => s,
            Token::Type(s) => s,
        }
    }
}

impl<'a> Node<ConcreteNode<'a>> {
    /// The snippet of a terminal node; empty for a rule node.
    pub fn token(&self) -> (r: &'a str)
        ensures
            r@ == info_text(self.info),
    {
        match self.info {
            ConcreteNode::Term(t) => t.snippet(),
            ConcreteNode::NonTerm(_) => {
                proof {
                    reveal_strlit("");
                }
                ""
            },
        }
    }

    /// A rule node with the given children.
    pub fn new(class: NonTerminal, children: Vec<Box<Self>>) -> (r: Box<Self>)
        ensures
            node_view(*r) == inner(class, kids(children@)),
    {
        make(ConcreteNode::NonTerm(class), children)
    }
}

/// Whether `t` is the punctuation `s`.
pub fn grouping(t: Token, s: &str) -> (r: bool)
    ensures
        r == is_g(t, s),
{
    matches!(t, Token::Grouping(_)) && text_is(t.snippet(), s)
}

/// Whether `t` is the control keyword `s`.
pub fn control(t: Token, s: &str) -> (r: bool)
    ensures
        r == is_control(t, s),
{
    matches!(t, Token::Control(_)) && text_is(t.snippet(), s)
}

/// Whether `t` reads `s`, whatever its class.
pub fn reads(t: Token, s: &str) -> (r: bool)
    ensures
        r == (text(t) == s@),
{
    text_is(t.snippet(), s)
}

/// Whether `t` fits slot `k` of a `for` header.
pub fn fits_slot(t: Token, k: usize) -> (r: bool)
    ensures
        r == slot_fits(t, k as int),
{
    if k == 1 || k == 13 {
        grouping(t, "(")
    } else if k == 2 || k == 6 || k == 8 || k == 10 || k == 14 {
        matches!(t, Token::Name(_))
    } else if k == 3 || k == 11 {
        matches!(t, Token::Assignment(_))
    } else if k == 4 {
        matches!(t, Token::Number(_)) && reads(t, "0")
    } else if k == 5 || k == 9 {
        grouping(t, ";")
    } else if k == 7 {
        matches!(t, Token::Comparison(_)) && reads(t, "<")
    } else if k == 12 {
        matches!(t, Token::Arithmetic(_)) && reads(t, "add")
    } else if k == 15 {
        grouping(t, ",")
    } else if k == 16 {
        matches!(t, Token::Number(_)) && reads(t, "1")
    } else if k == 17 || k == 18 {
        grouping(t, ")")
    } else {
        grouping(t, "{")
    }
}

} // verus!
