//! The recursive-descent parser: one routine per grammar rule, each proved to
//! match what the rule's spec function gives at the cursor's position.
use crate::grammar::{
    control, fits_slot, for_first_bad, for_header, g_assign, g_bool, g_calc, g_call, g_code,
    g_cond_branch, g_cond_loop, g_decl, g_instr, g_io, g_num_expr, g_proc, g_proc_defs, g_prog,
    g_var, grouping, inner, is_control, lf, parse_spec, reads, tk, var_at, CTree, ConcreteNode,
    NonTerminal, Step, Token,
};
use crate::tree::{kids, no_children, node_view, push_child, Node};
use vstd::prelude::*;

verus! {

/// The first token that did not fit, and its position in the input.
#[derive(Debug)]
pub struct Error<'a> {
    pub token: Token<'a>,
    pub index: usize,
}

pub type ParseResult<'a> = Result<Box<Node<ConcreteNode<'a>>>, Error<'a>>;

/// Whether `r`, returned by a rule started at `p` that left the cursor at
/// `end`, is what the rule's spec gives there. On a failure the cursor stands
/// on the token that did not fit.
pub open spec fn agrees<'a>(
    toks: Seq<Token<'a>>,
    r: ParseResult<'a>,
    p: int,
    end: int,
    s: Step<'a>,
) -> bool {
    match r {
        Ok(n) => s == Step::Done(node_view(*n), end) && p < end && p < toks.len(),
        Err(e) => s == Step::Fail(e.index as int) && e.token == tk(toks, e.index as int)
            && e.index <= toks.len() && end == e.index,
    }
}

/// A cursor over the tokens: `current` is the token at `index`.
struct Parser<'a> {
    tokens: Vec<Token<'a>>,
    index: usize,
}

/// The cursor moved from `a` to `b` and `r` is what `s` gives.
spec fn ran<'a>(a: Parser<'a>, b: Parser<'a>, r: ParseResult<'a>, s: Step<'a>) -> bool {
    &&& b.tokens@ == a.tokens@
    &&& b.index <= b.tokens.len()
    &&& agrees(a.tokens@, r, a.index as int, b.index as int, s)
}

impl<'a> Parser<'a> {
    fn current(&self) -> (r: Token<'a>)
        ensures
            r == tk(self.tokens@, self.index as int),
    {
        if self.index < self.tokens.len() {
            self.tokens[self.index]
        } else {
            Token::End("")
        }
    }

    fn next(&self) -> (r: Token<'a>)
        ensures
            r == tk(self.tokens@, self.index + 1),
    {
        if self.index < self.tokens.len() && self.index + 1 < self.tokens.len() {
            self.tokens[self.index + 1]
        } else {
            Token::End("")
        }
    }

    fn advance(&mut self) -> (r: Box<Node<ConcreteNode<'a>>>)
        requires
            old(self).index < old(self).tokens.len(),
        ensures
            final(self).tokens@ == old(self).tokens@,
            final(self).index == old(self).index + 1,
            node_view(*r) == lf(old(self).tokens@, old(self).index as int),
    {
        let t = self.current();
        self.index = self.index + 1;
        let n = crate::tree::make(ConcreteNode::Term(t), no_children());
        n
    }

    fn error(&self) -> (r: ParseResult<'a>)
        requires
            self.index <= self.tokens.len(),
        ensures
            ran(*self, *self, r, Step::Fail(self.index as int)),
    {
        Err(Error { token: self.current(), index: self.index })
    }

    /// Takes the current token as a terminal node when `ok`, else fails there.
    fn expect(&mut self, ok: bool) -> (r: ParseResult<'a>)
        requires
            old(self).index <= old(self).tokens.len(),
            ok ==> old(self).index < old(self).tokens.len(),
        ensures
            ran(
                *old(self),
                *final(self),
                r,
                if ok {
                    Step::Done(
                        lf(old(self).tokens@, old(self).index as int),
                        old(self).index + 1,
                    )
                } else {
                    Step::Fail(old(self).index as int)
                },
            ),
    {
        if ok {
            Ok(self.advance())
        } else {
            self.error()
        }
    }

    fn parse_var(&mut self) -> (r: ParseResult<'a>)
        requires
            old(self).index <= old(self).tokens.len(),
        ensures
            ran(*old(self), *final(self), r, g_var(old(self).tokens@, old(self).index as int)),
    {
        self.single(NonTerminal::Var)
    }

    fn parse_name(&mut self) -> (r: ParseResult<'a>)
        requires
            old(self).index <= old(self).tokens.len(),
        ensures
            ran(
                *old(self),
                *final(self),
                r,
                if tk(old(self).tokens@, old(self).index as int) is Name {
                    Step::Done(
                        inner(NonTerminal::Name, seq![lf(old(self).tokens@, old(self).index as int)]),
                        old(self).index + 1,
                    )
                } else {
                    Step::Fail(old(self).index as int)
                },
            ),
    {
        self.single(NonTerminal::Name)
    }

    fn parse_call(&mut self) -> (r: ParseResult<'a>)
        requires
            old(self).index <= old(self).tokens.len(),
        ensures
            ran(*old(self), *final(self), r, g_call(old(self).tokens@, old(self).index as int)),
    {
        self.single(NonTerminal::Call)
    }

    /// A rule node over one name token.
    fn single(&mut self, class: NonTerminal) -> (r: ParseResult<'a>)
        requires
            old(self).index <= old(self).tokens.len(),
        ensures
            ran(
                *old(self),
                *final(self),
                r,
                if tk(old(self).tokens@, old(self).index as int) is Name {
                    Step::Done(
                        inner(class, seq![lf(old(self).tokens@, old(self).index as int)]),
                        old(self).index + 1,
                    )
                } else {
                    Step::Fail(old(self).index as int)
                },
            ),
    {
        let ok = matches!(self.current(), Token::Name(_));
        let t = match self.expect(ok) {
            Ok(t) => t,
            Err(e) => return Err(e),
        };
        let mut cs = no_children();
        push_child(&mut cs, t);
        Ok(Node::new(class, cs))
    }

    fn parse_decl(&mut self) -> (r: ParseResult<'a>)
        requires
            old(self).index <= old(self).tokens.len(),
        ensures
            ran(*old(self), *final(self), r, g_decl(old(self).tokens@, old(self).index as int)),
    {
        let ok = matches!(self.current(), Token::Type(_));
        let t = match self.expect(ok) {
            Ok(t) => t,
            Err(e) => return Err(e),
        };
        let mut ts = no_children();
        push_child(&mut ts, t);
        let ty = Node::new(NonTerminal::Type, ts);
        let name = match self.parse_name() {
            Ok(n) => n,
            Err(e) => return Err(e),
        };
        let mut cs = no_children();
        push_child(&mut cs, ty);
        push_child(&mut cs, name);
        let ghost toks = old(self).tokens@;
        let ghost p = old(self).index as int;
        assert(kids(cs@) == seq![
            inner(NonTerminal::Type, seq![lf(toks, p)]),
            inner(NonTerminal::Name, seq![lf(toks, p + 1)]),
        ]);
        Ok(Node::new(NonTerminal::Decl, cs))
    }

    fn parse_io(&mut self) -> (r: ParseResult<'a>)
        requires
            old(self).index <= old(self).tokens.len(),
        ensures
            ran(*old(self), *final(self), r, g_io(old(self).tokens@, old(self).index as int)),
    {
        let mut cs = no_children();
        let ok = matches!(self.current(), Token::IO(_));
        match self.expect(ok) {
            Ok(t) => push_child(&mut cs, t),
            Err(e) => return Err(e),
        }
        let ok = grouping(self.current(), "(");
        match self.expect(ok) {
            Ok(t) => push_child(&mut cs, t),
            Err(e) => return Err(e),
        }
        match self.parse_var() {
            Ok(t) => push_child(&mut cs, t),
            Err(e) => return Err(e),
        }
        let ok = grouping(self.current(), ")");
        match self.expect(ok) {
            Ok(t) => push_child(&mut cs, t),
            Err(e) => return Err(e),
        }
        let ghost toks = old(self).tokens@;
        let ghost p = old(self).index as int;
        assert(kids(cs@) == seq![lf(toks, p), lf(toks, p + 1), var_at(toks, p + 2), lf(toks, p + 3)]);
        Ok(Node::new(NonTerminal::IO, cs))
    }

    fn parse_num_expr(&mut self) -> (r: ParseResult<'a>)
        requires
            old(self).index <= old(self).tokens.len(),
        ensures
            ran(*old(self), *final(self), r, g_num_expr(old(self).tokens@, old(self).index as int)),
        decreases old(self).tokens.len() - old(self).index, 2nat,
    {
        let c = self.current();
        let x = match c {
            Token::Name(_) => self.parse_var(),
            Token::Number(_) => self.expect(true),
            Token::Arithmetic(_) => self.parse_calc(),
            _ => return self.error(),
        };
        match x {
            Ok(x) => {
                let mut cs = no_children();
                push_child(&mut cs, x);
                Ok(Node::new(NonTerminal::NumExpr, cs))
            },
            Err(e) => Err(e),
        }
    }

    fn parse_calc(&mut self) -> (r: ParseResult<'a>)
        requires
            old(self).index <= old(self).tokens.len(),
        ensures
            ran(*old(self), *final(self), r, g_calc(old(self).tokens@, old(self).index as int)),
        decreases old(self).tokens.len() - old(self).index, 1nat,
    {
        let ghost toks = old(self).tokens@;
        let ghost p = old(self).index as int;
        let mut cs = no_children();
        let ok = matches!(self.current(), Token::Arithmetic(_));
        match self.expect(ok) {
            Ok(t) => push_child(&mut cs, t),
            Err(e) => return Err(e),
        }
        let ok = grouping(self.current(), "(");
        match self.expect(ok) {
            Ok(t) => push_child(&mut cs, t),
            Err(e) => return Err(e),
        }
        let a = match self.parse_num_expr() {
            Ok(t) => t,
            Err(e) => return Err(e),
        };
        let ghost av = node_view(*a);
        push_child(&mut cs, a);
        let ghost q = self.index as int;
        assert(g_num_expr(toks, p + 2) == Step::Done(av, q));
        let ok = grouping(self.current(), ",");
        match self.expect(ok) {
            Ok(t) => push_child(&mut cs, t),
            Err(e) => return Err(e),
        }
        let b = match self.parse_num_expr() {
            Ok(t) => t,
            Err(e) => return Err(e),
        };
        let ghost bv = node_view(*b);
        push_child(&mut cs, b);
        let ghost q2 = self.index as int;
        assert(g_num_expr(toks, q + 1) == Step::Done(bv, q2));
        let ok = grouping(self.current(), ")");
        match self.expect(ok) {
            Ok(t) => push_child(&mut cs, t),
            Err(e) => return Err(e),
        }
        assert(kids(cs@) == seq![lf(toks, p), lf(toks, p + 1), av, lf(toks, q), bv, lf(toks, q2)]);
        Ok(Node::new(NonTerminal::Calc, cs))
    }

    fn parse_assign(&mut self) -> (r: ParseResult<'a>)
        requires
            old(self).index <= old(self).tokens.len(),
        ensures
            ran(*old(self), *final(self), r, g_assign(old(self).tokens@, old(self).index as int)),
        decreases old(self).tokens.len() - old(self).index, 1nat,
    {
        let ghost toks = old(self).tokens@;
        let ghost p = old(self).index as int;
        let mut cs = no_children();
        match self.parse_var() {
            Ok(t) => push_child(&mut cs, t),
            Err(e) => return Err(e),
        }
        let ok = matches!(self.current(), Token::Assignment(_));
        match self.expect(ok) {
            Ok(t) => push_child(&mut cs, t),
            Err(e) => return Err(e),
        }
        let x = match self.current() {
            Token::String(_) => self.expect(true),
            Token::Name(_) => self.parse_var(),
            Token::Number(_) | Token::Arithmetic(_) => self.parse_num_expr(),
            _ => self.parse_bool(),
        };
        let x = match x {
            Ok(t) => t,
            Err(e) => return Err(e),
        };
        let ghost xv = node_view(*x);
        push_child(&mut cs, x);
        assert(kids(cs@) == seq![var_at(toks, p), lf(toks, p + 1), xv]);
        Ok(Node::new(NonTerminal::Assign, cs))
    }

    #[verifier::rlimit(50)]
    fn parse_bool(&mut self) -> (r: ParseResult<'a>)
        requires
            old(self).index <= old(self).tokens.len(),
        ensures
            ran(*old(self), *final(self), r, g_bool(old(self).tokens@, old(self).index as int)),
        decreases old(self).tokens.len() - old(self).index, 1nat,
    {
        let ghost toks = old(self).tokens@;
        let ghost p = old(self).index as int;
        let c = self.current();
        let mut cs = no_children();
        if matches!(c, Token::Comparison(_)) && reads(c, "eq") {
            push_child(&mut cs, self.advance());
            let ok = grouping(self.current(), "(");
            match self.expect(ok) {
                Ok(t) => push_child(&mut cs, t),
                Err(e) => return Err(e),
            }
            match self.parse_var() {
                Ok(t) => push_child(&mut cs, t),
                Err(e) => return Err(e),
            }
            let ok = grouping(self.current(), ",");
            match self.expect(ok) {
                Ok(t) => push_child(&mut cs, t),
                Err(e) => return Err(e),
            }
            match self.parse_var() {
                Ok(t) => push_child(&mut cs, t),
                Err(e) => return Err(e),
            }
            let ok = grouping(self.current(), ")");
            match self.expect(ok) {
                Ok(t) => push_child(&mut cs, t),
                Err(e) => return Err(e),
            }
            assert(kids(cs@) == seq![
                lf(toks, p),
                lf(toks, p + 1),
                var_at(toks, p + 2),
                lf(toks, p + 3),
                var_at(toks, p + 4),
                lf(toks, p + 5),
            ]);
        } else if grouping(c, "(") {
            push_child(&mut cs, self.advance());
            match self.parse_var() {
                Ok(t) => push_child(&mut cs, t),
                Err(e) => return Err(e),
            }
            let op = self.current();
            let ok = matches!(op, Token::Comparison(_)) && (reads(op, "<") || reads(op, ">"));
            match self.expect(ok) {
                Ok(t) => push_child(&mut cs, t),
                Err(e) => return Err(e),
            }
            match self.parse_var() {
                Ok(t) => push_child(&mut cs, t),
                Err(e) => return Err(e),
            }
            let ok = grouping(self.current(), ")");
            match self.expect(ok) {
                Ok(t) => push_child(&mut cs, t),
                Err(e) => return Err(e),
            }
            assert(kids(cs@) == seq![
                lf(toks, p),
                var_at(toks, p + 1),
                lf(toks, p + 2),
                var_at(toks, p + 3),
                lf(toks, p + 4),
            ]);
        } else if matches!(c, Token::Boolean(_)) && reads(c, "not") {
            push_child(&mut cs, self.advance());
            let x = match self.parse_bool() {
                Ok(t) => t,
                Err(e) => return Err(e),
            };
            let ghost xv = node_view(*x);
            push_child(&mut cs, x);
            assert(g_bool(toks, p + 1) == Step::Done(xv, self.index as int));
            assert(kids(cs@) == seq![lf(toks, p), xv]);
        } else if matches!(c, Token::Boolean(_)) {
            push_child(&mut cs, self.advance());
            let ok = grouping(self.current(), "(");
            match self.expect(ok) {
                Ok(t) => push_child(&mut cs, t),
                Err(e) => return Err(e),
            }
            let a = match self.parse_bool() {
                Ok(t) => t,
                Err(e) => return Err(e),
            };
            let ghost av = node_view(*a);
            push_child(&mut cs, a);
            let ghost q = self.index as int;
            assert(g_bool(toks, p + 2) == Step::Done(av, q));
            let ok = grouping(self.current(), ",");
            match self.expect(ok) {
                Ok(t) => push_child(&mut cs, t),
                Err(e) => return Err(e),
            }
            let b = match self.parse_bool() {
                Ok(t) => t,
                Err(e) => return Err(e),
            };
            let ghost bv = node_view(*b);
            push_child(&mut cs, b);
            let ghost q2 = self.index as int;
            assert(g_bool(toks, q + 1) == Step::Done(bv, q2));
            let ok = grouping(self.current(), ")");
            match self.expect(ok) {
                Ok(t) => push_child(&mut cs, t),
                Err(e) => return Err(e),
            }
            assert(kids(cs@) == seq![lf(toks, p), lf(toks, p + 1), av, lf(toks, q), bv, lf(toks, q2)]);
        } else if matches!(c, Token::Truth(_)) {
            push_child(&mut cs, self.advance());
            assert(kids(cs@) == seq![lf(toks, p)]);
        } else if matches!(c, Token::Name(_)) {
            match self.parse_var() {
                Ok(t) => push_child(&mut cs, t),
                Err(e) => return Err(e),
            }
            assert(kids(cs@) == seq![var_at(toks, p)]);
        } else {
            return self.error();
        }
        Ok(Node::new(NonTerminal::Bool, cs))
    }

    fn parse_cond_branch(&mut self) -> (r: ParseResult<'a>)
        requires
            old(self).index <= old(self).tokens.len(),
        ensures
            ran(*old(self), *final(self), r, g_cond_branch(old(self).tokens@, old(self).index as int)),
        decreases old(self).tokens.len() - old(self).index, 1nat,
    {
        let ghost toks = old(self).tokens@;
        let ghost p = old(self).index as int;
        let mut cs = no_children();
        let ok = control(self.current(), "if");
        match self.expect(ok) {
            Ok(t) => push_child(&mut cs, t),
            Err(e) => return Err(e),
        }
        let ok = grouping(self.current(), "(");
        match self.expect(ok) {
            Ok(t) => push_child(&mut cs, t),
            Err(e) => return Err(e),
        }
        let c = match self.parse_bool() {
            Ok(t) => t,
            Err(e) => return Err(e),
        };
        let ghost cv = node_view(*c);
        push_child(&mut cs, c);
        let ghost q = self.index as int;
        assert(g_bool(toks, p + 2) == Step::Done(cv, q));
        let ok = grouping(self.current(), ")");
        match self.expect(ok) {
            Ok(t) => push_child(&mut cs, t),
            Err(e) => return Err(e),
        }
        let ok = control(self.current(), "then");
        match self.expect(ok) {
            Ok(t) => push_child(&mut cs, t),
            Err(e) => return Err(e),
        }
        let ok = grouping(self.current(), "{");
        match self.expect(ok) {
            Ok(t) => push_child(&mut cs, t),
            Err(e) => return Err(e),
        }
        let body = match self.parse_code() {
            Ok(t) => t,
            Err(e) => return Err(e),
        };
        let ghost bv = node_view(*body);
        push_child(&mut cs, body);
        let ghost q2 = self.index as int;
        assert(g_code(toks, q + 3) == Step::Done(bv, q2));
        let ok = grouping(self.current(), "}");
        match self.expect(ok) {
            Ok(t) => push_child(&mut cs, t),
            Err(e) => return Err(e),
        }
        let ghost base = seq![
            lf(toks, p),
            lf(toks, p + 1),
            cv,
            lf(toks, q),
            lf(toks, q + 1),
            lf(toks, q + 2),
            bv,
            lf(toks, q2),
        ];
        assert(kids(cs@) == base);
        if control(self.current(), "else") {
            push_child(&mut cs, self.advance());
            let ok = grouping(self.current(), "{");
            match self.expect(ok) {
                Ok(t) => push_child(&mut cs, t),
                Err(e) => return Err(e),
            }
            let other = match self.parse_code() {
                Ok(t) => t,
                Err(e) => return Err(e),
            };
            let ghost ov = node_view(*other);
            push_child(&mut cs, other);
            let ghost q3 = self.index as int;
            assert(g_code(toks, q2 + 3) == Step::Done(ov, q3));
            let ok = grouping(self.current(), "}");
            match self.expect(ok) {
                Ok(t) => push_child(&mut cs, t),
                Err(e) => return Err(e),
            }
            assert(kids(cs@) == base.push(lf(toks, q2 + 1)).push(lf(toks, q2 + 2)).push(ov).push(
                lf(toks, q3),
            ));
        }
        Ok(Node::new(NonTerminal::CondBranch, cs))
    }

    fn parse_cond_loop(&mut self) -> (r: ParseResult<'a>)
        requires
            old(self).index <= old(self).tokens.len(),
        ensures
            ran(*old(self), *final(self), r, g_cond_loop(old(self).tokens@, old(self).index as int)),
        decreases old(self).tokens.len() - old(self).index, 1nat,
    {
        let ghost toks = old(self).tokens@;
        let ghost p = old(self).index as int;
        let mut cs = no_children();
        let c = self.current();
        if control(c, "while") {
            push_child(&mut cs, self.advance());
            let ok = grouping(self.current(), "(");
            match self.expect(ok) {
                Ok(t) => push_child(&mut cs, t),
                Err(e) => return Err(e),
            }
            let cond = match self.parse_bool() {
                Ok(t) => t,
                Err(e) => return Err(e),
            };
            let ghost cv = node_view(*cond);
            push_child(&mut cs, cond);
            let ghost q = self.index as int;
            assert(g_bool(toks, p + 2) == Step::Done(cv, q));
            let ok = grouping(self.current(), ")");
            match self.expect(ok) {
                Ok(t) => push_child(&mut cs, t),
                Err(e) => return Err(e),
            }
            let ok = grouping(self.current(), "{");
            match self.expect(ok) {
                Ok(t) => push_child(&mut cs, t),
                Err(e) => return Err(e),
            }
            let body = match self.parse_code() {
                Ok(t) => t,
                Err(e) => return Err(e),
            };
            let ghost bv = node_view(*body);
            push_child(&mut cs, body);
            let ghost q2 = self.index as int;
            assert(g_code(toks, q + 2) == Step::Done(bv, q2));
            let ok = grouping(self.current(), "}");
            match self.expect(ok) {
                Ok(t) => push_child(&mut cs, t),
                Err(e) => return Err(e),
            }
            assert(kids(cs@) == seq![
                lf(toks, p),
                lf(toks, p + 1),
                cv,
                lf(toks, q),
                lf(toks, q + 1),
                bv,
                lf(toks, q2),
            ]);
        } else if control(c, "for") {
            push_child(&mut cs, self.advance());
            assert(for_header(toks, p, 0) == Seq::<CTree<'a>>::empty());
            assert(kids(cs@) == for_header(toks, p, 1));
            let mut k: usize = 1;
            while k < 20
                invariant
                    self.tokens@ == toks,
                    toks == old(self).tokens@,
                    p == old(self).index,
                    p < toks.len(),
                    is_control(tk(toks, p), "for"),
                    !is_control(tk(toks, p), "while"),
                    1 <= k <= 20,
                    self.index == p + k,
                    self.index <= self.tokens.len(),
                    kids(cs@) == for_header(toks, p, k as int),
                    for_first_bad(toks, p, 1) == for_first_bad(toks, p, k as int),
                decreases 20 - k,
            {
                let t = self.current();
                if !fits_slot(t, k) {
                    assert(for_first_bad(toks, p, k as int) == k);
                    assert(g_cond_loop(toks, p) == Step::Fail(self.index as int));
                    let r = self.error();
                    return r;
                }
                if k == 2 || k == 6 || k == 8 || k == 10 || k == 14 {
                    match self.parse_var() {
                        Ok(t) => push_child(&mut cs, t),
                        Err(e) => return Err(e),
                    }
                } else {
                    push_child(&mut cs, self.advance());
                }
                k = k + 1;
            }
            let body = match self.parse_code() {
                Ok(t) => t,
                Err(e) => return Err(e),
            };
            let ghost bv = node_view(*body);
            push_child(&mut cs, body);
            let ghost q = self.index as int;
            assert(g_code(toks, p + 20) == Step::Done(bv, q));
            let ok = grouping(self.current(), "}");
            match self.expect(ok) {
                Ok(t) => push_child(&mut cs, t),
                Err(e) => return Err(e),
            }
            assert(kids(cs@) == for_header(toks, p, 20).push(bv).push(lf(toks, q)));
        } else {
            return self.error();
        }
        Ok(Node::new(NonTerminal::CondLoop, cs))
    }

    fn parse_instr(&mut self) -> (r: ParseResult<'a>)
        requires
            old(self).index <= old(self).tokens.len(),
        ensures
            ran(*old(self), *final(self), r, g_instr(old(self).tokens@, old(self).index as int)),
        decreases old(self).tokens.len() - old(self).index, 2nat,
    {
        let c = self.current();
        let x = if matches!(c, Token::Special(_)) {
            self.expect(true)
        } else if matches!(c, Token::Type(_)) {
            self.parse_decl()
        } else if matches!(c, Token::IO(_)) {
            self.parse_io()
        } else if matches!(c, Token::Name(_)) {
            if matches!(self.next(), Token::Assignment(_)) {
                self.parse_assign()
            } else {
                self.parse_call()
            }
        } else if control(c, "if") {
            self.parse_cond_branch()
        } else if matches!(c, Token::Control(_)) {
            self.parse_cond_loop()
        } else {
            return self.error();
        };
        match x {
            Ok(x) => {
                let mut cs = no_children();
                push_child(&mut cs, x);
                Ok(Node::new(NonTerminal::Instr, cs))
            },
            Err(e) => Err(e),
        }
    }

    fn parse_code(&mut self) -> (r: ParseResult<'a>)
        requires
            old(self).index <= old(self).tokens.len(),
        ensures
            ran(*old(self), *final(self), r, g_code(old(self).tokens@, old(self).index as int)),
        decreases old(self).tokens.len() - old(self).index, 3nat,
    {
        let ghost toks = old(self).tokens@;
        let ghost p = old(self).index as int;
        let mut cs = no_children();
        let i = match self.parse_instr() {
            Ok(t) => t,
            Err(e) => return Err(e),
        };
        let ghost iv = node_view(*i);
        push_child(&mut cs, i);
        let ghost q = self.index as int;
        assert(g_instr(toks, p) == Step::Done(iv, q));
        if grouping(self.current(), ";") && !matches!(self.next(), Token::Procedure(_)) {
            push_child(&mut cs, self.advance());
            let rest = match self.parse_code() {
                Ok(t) => t,
                Err(e) => return Err(e),
            };
            let ghost rv = node_view(*rest);
            push_child(&mut cs, rest);
            assert(g_code(toks, q + 1) == Step::Done(rv, self.index as int));
            assert(kids(cs@) == seq![iv, lf(toks, q), rv]);
        } else {
            assert(kids(cs@) == seq![iv]);
        }
        Ok(Node::new(NonTerminal::Code, cs))
    }

    fn parse_proc(&mut self) -> (r: ParseResult<'a>)
        requires
            old(self).index <= old(self).tokens.len(),
        ensures
            ran(*old(self), *final(self), r, g_proc(old(self).tokens@, old(self).index as int)),
        decreases old(self).tokens.len() - old(self).index, 1nat,
    {
        let ghost toks = old(self).tokens@;
        let ghost p = old(self).index as int;
        let mut cs = no_children();
        let ok = matches!(self.current(), Token::Procedure(_));
        match self.expect(ok) {
            Ok(t) => push_child(&mut cs, t),
            Err(e) => return Err(e),
        }
        let ok = matches!(self.current(), Token::Name(_));
        match self.expect(ok) {
            Ok(t) => push_child(&mut cs, t),
            Err(e) => return Err(e),
        }
        let ok = grouping(self.current(), "{");
        match self.expect(ok) {
            Ok(t) => push_child(&mut cs, t),
            Err(e) => return Err(e),
        }
        let body = match self.parse_prog() {
            Ok(t) => t,
            Err(e) => return Err(e),
        };
        let ghost bv = node_view(*body);
        push_child(&mut cs, body);
        let ghost q = self.index as int;
        assert(g_prog(toks, p + 3) == Step::Done(bv, q));
        let ok = grouping(self.current(), "}");
        match self.expect(ok) {
            Ok(t) => push_child(&mut cs, t),
            Err(e) => return Err(e),
        }
        assert(kids(cs@) == seq![lf(toks, p), lf(toks, p + 1), lf(toks, p + 2), bv, lf(toks, q)]);
        Ok(Node::new(NonTerminal::Proc, cs))
    }

    fn parse_proc_defs(&mut self) -> (r: ParseResult<'a>)
        requires
            old(self).index <= old(self).tokens.len(),
        ensures
            ran(*old(self), *final(self), r, g_proc_defs(old(self).tokens@, old(self).index as int)),
        decreases old(self).tokens.len() - old(self).index, 2nat,
    {
        let ghost toks = old(self).tokens@;
        let ghost p = old(self).index as int;
        let mut cs = no_children();
        let x = match self.parse_proc() {
            Ok(t) => t,
            Err(e) => return Err(e),
        };
        let ghost xv = node_view(*x);
        push_child(&mut cs, x);
        let ghost q = self.index as int;
        assert(g_proc(toks, p) == Step::Done(xv, q));
        if matches!(self.current(), Token::Procedure(_)) {
            let rest = match self.parse_proc_defs() {
                Ok(t) => t,
                Err(e) => return Err(e),
            };
            let ghost rv = node_view(*rest);
            push_child(&mut cs, rest);
            assert(g_proc_defs(toks, q) == Step::Done(rv, self.index as int));
            assert(kids(cs@) == seq![xv, rv]);
        } else {
            assert(kids(cs@) == seq![xv]);
        }
        Ok(Node::new(NonTerminal::ProcDefs, cs))
    }

    fn parse_prog(&mut self) -> (r: ParseResult<'a>)
        requires
            old(self).index <= old(self).tokens.len(),
        ensures
            ran(*old(self), *final(self), r, g_prog(old(self).tokens@, old(self).index as int)),
        decreases old(self).tokens.len() - old(self).index, 4nat,
    {
        let ghost toks = old(self).tokens@;
        let ghost p = old(self).index as int;
        let mut cs = no_children();
        let c = match self.parse_code() {
            Ok(t) => t,
            Err(e) => return Err(e),
        };
        let ghost cv = node_view(*c);
        push_child(&mut cs, c);
        let ghost q = self.index as int;
        assert(g_code(toks, p) == Step::Done(cv, q));
        if grouping(self.current(), ";") {
            push_child(&mut cs, self.advance());
            let d = match self.parse_proc_defs() {
                Ok(t) => t,
                Err(e) => return Err(e),
            };
            let ghost dv = node_view(*d);
            push_child(&mut cs, d);
            assert(g_proc_defs(toks, q + 1) == Step::Done(dv, self.index as int));
            assert(kids(cs@) == seq![cv, lf(toks, q), dv]);
        } else {
            assert(kids(cs@) == seq![cv]);
        }
        Ok(Node::new(NonTerminal::Prog, cs))
    }

    /// A whole program, then the end of the input.
    fn parse(&mut self) -> (r: ParseResult<'a>)
        requires
            old(self).index == 0,
        ensures
            match r {
                Ok(n) => parse_spec(old(self).tokens@) == Ok::<CTree<'a>, int>(node_view(*n)),
                Err(e) => parse_spec(old(self).tokens@) == Err::<CTree<'a>, int>(e.index as int)
                    && e.token == tk(old(self).tokens@, e.index as int) && e.index
                    <= old(self).tokens.len(),
            },
    {
        let n = match self.parse_prog() {
            Ok(n) => n,
            Err(e) => return Err(e),
        };
        if matches!(self.current(), Token::End(_)) {
            Ok(n)
        } else {
            self.error()
        }
    }
}

/// Parses a token sequence into the concrete tree of a whole program, or
/// reports the first token that does not fit and its position. The reported
/// token is the one at the reported position, or the `End` sentinel when
/// that position is the end of the input.
pub fn parse<'a>(tokens: Vec<Token<'a>>) -> (r: ParseResult<'a>)
    ensures
        match r {
            Ok(n) => parse_spec(tokens@) == Ok::<CTree<'a>, int>(node_view(*n)),
            Err(e) => parse_spec(tokens@) == Err::<CTree<'a>, int>(e.index as int) && e.token
                == tk(tokens@, e.index as int) && e.index <= tokens@.len(),
        },
{
    let mut p = Parser { tokens, index: 0 };
    p.parse()
}

} // verus!
