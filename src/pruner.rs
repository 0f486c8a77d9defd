//! The rewrite of a concrete tree into an abstract one: punctuation and
//! wrapper rules are dropped, operators and declarations are named, and a
//! `for` loop is spelled out as its initialisation, test, step and body.
use crate::grammar::{info_text, CTree, ConcreteNode, NonTerminal, Token};
use crate::text::text_is;
use crate::tree::{atom, lemma_node_view, node_view, Node, Tree};
use vstd::prelude::*;

verus! {

/// The label of an abstract node; `S` is the type of the text it carries.
#[derive(Debug, Clone, Copy, PartialEq, Eq)]
pub enum AbstractNode<S> {
    AddExpr,
    AndExpr,
    Assign,
    BoolDecl(S),
    Call(S),
    Code,
    CondBranch,
    EqExpr,
    False,
    ForLoop,
    GreaterExpr,
    Halt,
    Input,
    LessExpr,
    MultExpr,
    NotExpr,
    Number(S),
    NumDecl(S),
    OrExpr,
    Output,
    Proc(S),
    ProcDefs,
    Prog,
    StrDecl(S),
    String(S),
    SubExpr,
    True,
    Var(S),
    WhileLoop,
}

pub type AstNode<'a> = Node<AbstractNode<&'a str>>;

/// An abstract tree whose text is given as character sequences.
pub type ATree = Tree<AbstractNode<Seq<char>>>;

/// A label with its text read as characters.
pub open spec fn info_view(a: AbstractNode<&str>) -> AbstractNode<Seq<char>> {
    match a {
        AbstractNode::AddExpr => AbstractNode::AddExpr,
        AbstractNode::AndExpr => AbstractNode::AndExpr,
        AbstractNode::Assign => AbstractNode::Assign,
        AbstractNode::BoolDecl(s) => AbstractNode::BoolDecl(s@),
        AbstractNode::Call(s) => AbstractNode::Call(s@),
        AbstractNode::Code => AbstractNode::Code,
        AbstractNode::CondBranch => AbstractNode::CondBranch,
        AbstractNode::EqExpr => AbstractNode::EqExpr,
        AbstractNode::False => AbstractNode::False,
        AbstractNode::ForLoop => AbstractNode::ForLoop,
        AbstractNode::GreaterExpr => AbstractNode::GreaterExpr,
        AbstractNode::Halt => AbstractNode::Halt,
        AbstractNode::Input => AbstractNode::Input,
        AbstractNode::LessExpr => AbstractNode::LessExpr,
        AbstractNode::MultExpr => AbstractNode::MultExpr,
        AbstractNode::NotExpr => AbstractNode::NotExpr,
        AbstractNode::Number(s) => AbstractNode::Number(s@),
        AbstractNode::NumDecl(s) => AbstractNode::NumDecl(s@),
        AbstractNode::OrExpr => AbstractNode::OrExpr,
        AbstractNode::Output => AbstractNode::Output,
        AbstractNode::Proc(s) => AbstractNode::Proc(s@),
        AbstractNode::ProcDefs => AbstractNode::ProcDefs,
        AbstractNode::Prog => AbstractNode::Prog,
        AbstractNode::StrDecl(s) => AbstractNode::StrDecl(s@),
        AbstractNode::String(s) => AbstractNode::String(s@),
        AbstractNode::SubExpr => AbstractNode::SubExpr,
        AbstractNode::True => AbstractNode::True,
        AbstractNode::Var(s) => AbstractNode::Var(s@),
        AbstractNode::WhileLoop => AbstractNode::WhileLoop,
    }
}

/// The value of an abstract tree, its text read as characters.
pub open spec fn amap(t: Tree<AbstractNode<&str>>) -> ATree
    decreases t,
{
    Tree {
        info: info_view(t.info),
        children: Seq::new(
            t.children.len(),
            |i: int|
                if 0 <= i < t.children.len() {
                    amap(t.children[i])
                } else {
                    arbitrary()
                },
        ),
    }
}

pub open spec fn av(n: AstNode) -> ATree {
    amap(node_view(n))
}

pub open spec fn avs(cs: Seq<Box<AstNode>>) -> Seq<ATree> {
    Seq::new(cs.len(), |i: int| av(*cs[i]))
}

/// The text of a concrete node.
pub open spec fn txt(t: CTree) -> Seq<char> {
    info_text(t.info)
}

pub open spec fn one(info: AbstractNode<Seq<char>>, a: Option<ATree>) -> Option<ATree> {
    match a {
        Some(x) => Some(Tree { info, children: seq![x] }),
        None => None,
    }
}

pub open spec fn two(info: AbstractNode<Seq<char>>, a: Option<ATree>, b: Option<ATree>) -> Option<
    ATree,
> {
    match (a, b) {
        (Some(x), Some(y)) => Some(Tree { info, children: seq![x, y] }),
        _ => None,
    }
}

pub open spec fn three(
    info: AbstractNode<Seq<char>>,
    a: Option<ATree>,
    b: Option<ATree>,
    c: Option<ATree>,
) -> Option<ATree> {
    match (a, b, c) {
        (Some(x), Some(y), Some(z)) => Some(Tree { info, children: seq![x, y, z] }),
        _ => None,
    }
}

pub open spec fn listed(info: AbstractNode<Seq<char>>, s: Option<Seq<ATree>>) -> Option<ATree> {
    match s {
        Some(cs) => Some(Tree { info, children: cs }),
        None => None,
    }
}

/// `ForLoop[Assign[v, zero], LessExpr[i, n], Assign[w, AddExpr[x, inc]], body]`.
pub open spec fn for_loop(
    v: Option<ATree>,
    zero: Option<ATree>,
    i: Option<ATree>,
    n: Option<ATree>,
    w: Option<ATree>,
    x: Option<ATree>,
    inc: Option<ATree>,
    body: Option<ATree>,
) -> Option<ATree> {
    match (two(AbstractNode::Assign, v, zero), two(AbstractNode::LessExpr, i, n), two(
        AbstractNode::Assign,
        w,
        two(AbstractNode::AddExpr, x, inc),
    ), body) {
        (Some(a), Some(b), Some(c), Some(d)) => Some(
            Tree { info: AbstractNode::ForLoop, children: seq![a, b, c, d] },
        ),
        _ => None,
    }
}

/// The pruned first children along a right-recursive chain whose tail sits
/// at child `at` (a `ProcDefs` or `Code` chain).
pub open spec fn spine<'a>(t: CTree<'a>, at: int) -> Option<Seq<ATree>>
    decreases t, 0int,
{
    if t.children.len() == 0 {
        None
    } else {
        match pruned(t.children[0]) {
            None => None,
            Some(x) => if 0 <= at < t.children.len() {
                match spine(t.children[at], at) {
                    None => None,
                    Some(rest) => Some(seq![x] + rest),
                }
            } else {
                Some(seq![x])
            },
        }
    }
}

/// The abstract tree of a concrete one; `None` for a shape that the parser
/// never builds.
pub open spec fn pruned<'a>(t: CTree<'a>) -> Option<ATree>
    decreases t, 1int,
{
    let cs = t.children;
    let n = cs.len();
    match t.info {
        ConcreteNode::Term(tok) => match tok {
            Token::Number(s) => Some(atom(AbstractNode::Number(s@))),
            Token::Special(_) => Some(atom(AbstractNode::Halt)),
            Token::String(s) => if s@.len() >= 2 {
                Some(atom(AbstractNode::String(s@.subrange(1, s@.len() - 1))))
            } else {
                None
            },
            _ => None,
        },
        ConcreteNode::NonTerm(nt) => match nt {
            NonTerminal::Prog => if n >= 3 {
                two(AbstractNode::Prog, pruned(cs[0]), pruned(cs[2]))
            } else if n >= 1 {
                one(AbstractNode::Prog, pruned(cs[0]))
            } else {
                None
            },
            NonTerminal::ProcDefs => listed(AbstractNode::ProcDefs, spine(t, 1)),
            NonTerminal::Proc => if n >= 4 {
                one(AbstractNode::Proc(txt(cs[1])), pruned(cs[3]))
            } else {
                None
            },
            NonTerminal::Code => listed(AbstractNode::Code, spine(t, 2)),
            NonTerminal::Instr => if n >= 1 {
                pruned(cs[0])
            } else {
                None
            },
            NonTerminal::IO => if n >= 3 && txt(cs[0]) == "input"@ {
                one(AbstractNode::Input, pruned(cs[2]))
            } else if n >= 3 && txt(cs[0]) == "output"@ {
                one(AbstractNode::Output, pruned(cs[2]))
            } else {
                None
            },
            NonTerminal::Call => if n >= 1 {
                Some(atom(AbstractNode::Call(txt(cs[0]))))
            } else {
                None
            },
            NonTerminal::Decl => if n >= 2 && cs[0].children.len() >= 1 && cs[1].children.len()
                >= 1 {
                let ty = txt(cs[0].children[0]);
                let name = txt(cs[1].children[0]);
                if ty == "num"@ {
                    Some(atom(AbstractNode::NumDecl(name)))
                } else if ty == "string"@ {
                    Some(atom(AbstractNode::StrDecl(name)))
                } else if ty == "bool"@ {
                    Some(atom(AbstractNode::BoolDecl(name)))
                } else {
                    None
                }
            } else {
                None
            },
            NonTerminal::Var => if n >= 1 {
                Some(atom(AbstractNode::Var(txt(cs[0]))))
            } else {
                None
            },
            NonTerminal::Assign => if n >= 3 {
                two(AbstractNode::Assign, pruned(cs[0]), pruned(cs[2]))
            } else {
                None
            },
            NonTerminal::NumExpr => if n >= 1 {
                pruned(cs[0])
            } else {
                None
            },
            NonTerminal::Calc => if n >= 5 {
                let op = txt(cs[0]);
                if op == "add"@ {
                    two(AbstractNode::AddExpr, pruned(cs[2]), pruned(cs[4]))
                } else if op == "sub"@ {
                    two(AbstractNode::SubExpr, pruned(cs[2]), pruned(cs[4]))
                } else if op == "mult"@ {
                    two(AbstractNode::MultExpr, pruned(cs[2]), pruned(cs[4]))
                } else {
                    None
                }
            } else {
                None
            },
            NonTerminal::CondBranch => if n >= 11 {
                three(AbstractNode::CondBranch, pruned(cs[2]), pruned(cs[6]), pruned(cs[10]))
            } else if n >= 7 {
                two(AbstractNode::CondBranch, pruned(cs[2]), pruned(cs[6]))
            } else {
                None
            },
            NonTerminal::Bool => if n == 0 {
                None
            } else {
                let k = txt(cs[0]);
                if k == "eq"@ {
                    if n >= 5 {
                        two(AbstractNode::EqExpr, pruned(cs[2]), pruned(cs[4]))
                    } else {
                        None
                    }
                } else if k == "("@ {
                    if n >= 4 && txt(cs[2]) == "<"@ {
                        two(AbstractNode::LessExpr, pruned(cs[1]), pruned(cs[3]))
                    } else if n >= 4 && txt(cs[2]) == ">"@ {
                        two(AbstractNode::GreaterExpr, pruned(cs[1]), pruned(cs[3]))
                    } else {
                        None
                    }
                } else if k == "not"@ {
                    if n >= 2 {
                        one(AbstractNode::NotExpr, pruned(cs[1]))
                    } else {
                        None
                    }
                } else if k == "and"@ {
                    if n >= 5 {
                        two(AbstractNode::AndExpr, pruned(cs[2]), pruned(cs[4]))
                    } else {
                        None
                    }
                } else if k == "or"@ {
                    if n >= 5 {
                        two(AbstractNode::OrExpr, pruned(cs[2]), pruned(cs[4]))
                    } else {
                        None
                    }
                } else if k == "T"@ {
                    Some(atom(AbstractNode::True))
                } else if k == "F"@ {
                    Some(atom(AbstractNode::False))
                } else {
                    pruned(cs[0])
                }
            },
            NonTerminal::CondLoop => if n == 0 {
                None
            } else {
                let k = txt(cs[0]);
                if k == "while"@ {
                    if n >= 6 {
                        two(AbstractNode::WhileLoop, pruned(cs[2]), pruned(cs[5]))
                    } else {
                        None
                    }
                } else if k == "for"@ {
                    if n >= 21 {
                        for_loop(
                            pruned(cs[2]),
                            pruned(cs[4]),
                            pruned(cs[6]),
                            pruned(cs[8]),
                            pruned(cs[10]),
                            pruned(cs[14]),
                            pruned(cs[16]),
                            pruned(cs[20]),
                        )
                    } else {
                        None
                    }
                } else {
                    None
                }
            },
            _ => None,
        },
    }
}

/// Builds an abstract node from its label and children.
pub fn make_node<'a>(info: AbstractNode<&'a str>, children: Vec<Box<AstNode<'a>>>) -> (r: Box<
    AstNode<'a>,
>)
    ensures
        av(*r) == (Tree { info: info_view(info), children: avs(children@) }),
{
    let n = Node { info, children };
    proof {
        lemma_node_view(n);
        assert(av(n).children =~= avs(n.children@));
    }
    Box::new(n)
}

fn push_abs<'a>(cs: &mut Vec<Box<AstNode<'a>>>, c: Box<AstNode<'a>>)
    ensures
        avs(final(cs)@) == avs(old(cs)@).push(av(*c)),
{
    let ghost c0 = *c;
    cs.push(c);
    assert(avs(cs@) =~= avs(old(cs)@).push(av(c0)));
}

fn no_nodes<'a>() -> (r: Vec<Box<AstNode<'a>>>)
    ensures
        avs(r@) == Seq::<ATree>::empty(),
{
    let r: Vec<Box<AstNode<'a>>> = Vec::new();
    assert(avs(r@) =~= Seq::<ATree>::empty());
    r
}

fn node0<'a>(info: AbstractNode<&'a str>) -> (r: Box<AstNode<'a>>)
    ensures
        av(*r) == atom(info_view(info)),
{
    make_node(info, no_nodes())
}

fn node1<'a>(info: AbstractNode<&'a str>, a: Box<AstNode<'a>>) -> (r: Box<AstNode<'a>>)
    ensures
        av(*r) == (Tree { info: info_view(info), children: seq![av(*a)] }),
{
    let mut cs = no_nodes();
    push_abs(&mut cs, a);
    make_node(info, cs)
}

fn node2<'a>(info: AbstractNode<&'a str>, a: Box<AstNode<'a>>, b: Box<AstNode<'a>>) -> (r: Box<
    AstNode<'a>,
>)
    ensures
        av(*r) == (Tree { info: info_view(info), children: seq![av(*a), av(*b)] }),
{
    let ghost (x, y) = (av(*a), av(*b));
    let mut cs = no_nodes();
    push_abs(&mut cs, a);
    push_abs(&mut cs, b);
    assert(avs(cs@) == seq![x, y]);
    make_node(info, cs)
}

/// Prunes the first child of each link of a right-recursive chain whose
/// tail sits at child `at`, appending the results to `out`.
fn prune_spine<'a>(t: &Node<ConcreteNode<'a>>, at: usize, out: &mut Vec<Box<AstNode<'a>>>)
    requires
        spine(node_view(*t), at as int) is Some,
    ensures
        avs(final(out)@) == avs(old(out)@) + spine(node_view(*t), at as int)->Some_0,
    decreases node_view(*t), 0int,
{
    proof {
        lemma_node_view(*t);
    }
    let x = prune(&t.children[0]);
    let ghost xv = av(*x);
    push_abs(out, x);
    if at < t.children.len() {
        prune_spine(&t.children[at], at, out);
        let ghost rest = spine(node_view(*t.children@[at as int]), at as int)->Some_0;
        assert(avs(out@) =~= avs(old(out)@) + (seq![xv] + rest));
    } else {
        assert(avs(out@) =~= avs(old(out)@) + seq![xv]);
    }
}

/// Rewrites a concrete tree into its abstract tree.
pub fn prune<'a>(tree: &Node<ConcreteNode<'a>>) -> (r: Box<AstNode<'a>>)
    requires
        pruned(node_view(*tree)) is Some,
    ensures
        pruned(node_view(*tree)) == Some(av(*r)),
    decreases node_view(*tree), 2int,
{
    proof {
        lemma_node_view(*tree);
    }
    match tree.info {
        ConcreteNode::Term(tok) => match tok {
            Token::Number(s) => node0(AbstractNode::Number(s)),
            Token::Special(_) => node0(AbstractNode::Halt),
            Token::String(s) => {
                let len = s.unicode_len();
                node0(AbstractNode::String(s.substring_char(1, len - 1)))
            },
            _ => vstd::pervasive::unreached(),
        },
        ConcreteNode::NonTerm(nt) => prune_rule(tree, nt),
    }
}

/// Rewrites a rule node: the mapping from each rule to its abstract form.
fn prune_rule<'a>(tree: &Node<ConcreteNode<'a>>, nt: NonTerminal) -> (r: Box<AstNode<'a>>)
    requires
        tree.info == ConcreteNode::<'a>::NonTerm(nt),
        pruned(node_view(*tree)) is Some,
    ensures
        pruned(node_view(*tree)) == Some(av(*r)),
    decreases node_view(*tree), 1int,
{
    proof {
        lemma_node_view(*tree);
    }
    let n = tree.children.len();
    match nt {
        NonTerminal::Prog => {
            if n >= 3 {
                node2(AbstractNode::Prog, prune(&tree.children[0]), prune(&tree.children[2]))
            } else {
                node1(AbstractNode::Prog, prune(&tree.children[0]))
            }
        },
        NonTerminal::ProcDefs => {
            let mut cs = no_nodes();
            prune_spine(tree, 1, &mut cs);
            assert(avs(cs@) =~= spine(node_view(*tree), 1)->Some_0);
            make_node(AbstractNode::ProcDefs, cs)
        },
        NonTerminal::Proc => node1(
            AbstractNode::Proc(tree.children[1].token()),
            prune(&tree.children[3]),
        ),
        NonTerminal::Code => {
            let mut cs = no_nodes();
            prune_spine(tree, 2, &mut cs);
            assert(avs(cs@) =~= spine(node_view(*tree), 2)->Some_0);
            make_node(AbstractNode::Code, cs)
        },
        NonTerminal::Instr => prune(&tree.children[0]),
        NonTerminal::IO => {
            let kw = tree.children[0].token();
            if text_is(kw, "input") {
                node1(AbstractNode::Input, prune(&tree.children[2]))
            } else {
                node1(AbstractNode::Output, prune(&tree.children[2]))
            }
        },
        NonTerminal::Call => node0(AbstractNode::Call(tree.children[0].token())),
        NonTerminal::Decl => {
            proof {
                lemma_node_view(*tree.children@[0]);
                lemma_node_view(*tree.children@[1]);
            }
            let ty = tree.children[0].children[0].token();
            let name = tree.children[1].children[0].token();
            if text_is(ty, "num") {
                node0(AbstractNode::NumDecl(name))
            } else if text_is(ty, "string") {
                node0(AbstractNode::StrDecl(name))
            } else {
                node0(AbstractNode::BoolDecl(name))
            }
        },
        NonTerminal::Var => node0(AbstractNode::Var(tree.children[0].token())),
        NonTerminal::Assign => node2(
            AbstractNode::Assign,
            prune(&tree.children[0]),
            prune(&tree.children[2]),
        ),
        NonTerminal::NumExpr => prune(&tree.children[0]),
        NonTerminal::Calc => {
            let op = tree.children[0].token();
            let info = if text_is(op, "add") {
                AbstractNode::AddExpr
            } else if text_is(op, "sub") {
                AbstractNode::SubExpr
            } else {
                AbstractNode::MultExpr
            };
            node2(info, prune(&tree.children[2]), prune(&tree.children[4]))
        },
        NonTerminal::CondBranch => {
            let c = prune(&tree.children[2]);
            let body = prune(&tree.children[6]);
            if n >= 11 {
                let ghost (cv, bv) = (av(*c), av(*body));
                let mut cs = no_nodes();
                push_abs(&mut cs, c);
                push_abs(&mut cs, body);
                let other = prune(&tree.children[10]);
                let ghost ov = av(*other);
                push_abs(&mut cs, other);
                assert(avs(cs@) == seq![cv, bv, ov]);
                make_node(AbstractNode::CondBranch, cs)
            } else {
                node2(AbstractNode::CondBranch, c, body)
            }
        },
        NonTerminal::Bool => prune_bool(tree),
        NonTerminal::CondLoop => prune_cond_loop(tree),
        _ => vstd::pervasive::unreached(),
    }
}

/// Rewrites a `Bool` node by its first token.
fn prune_bool<'a>(tree: &Node<ConcreteNode<'a>>) -> (r: Box<AstNode<'a>>)
    requires
        tree.info == ConcreteNode::<'a>::NonTerm(NonTerminal::Bool),
        pruned(node_view(*tree)) is Some,
    ensures
        pruned(node_view(*tree)) == Some(av(*r)),
    decreases node_view(*tree), 0int,
{
    proof {
        lemma_node_view(*tree);
    }
    let k = tree.children[0].token();
    if text_is(k, "eq") {
        node2(AbstractNode::EqExpr, prune(&tree.children[2]), prune(&tree.children[4]))
    } else if text_is(k, "(") {
        let info = if text_is(tree.children[2].token(), "<") {
            AbstractNode::LessExpr
        } else {
            AbstractNode::GreaterExpr
        };
        node2(info, prune(&tree.children[1]), prune(&tree.children[3]))
    } else if text_is(k, "not") {
        node1(AbstractNode::NotExpr, prune(&tree.children[1]))
    } else if text_is(k, "and") {
        node2(AbstractNode::AndExpr, prune(&tree.children[2]), prune(&tree.children[4]))
    } else if text_is(k, "or") {
        node2(AbstractNode::OrExpr, prune(&tree.children[2]), prune(&tree.children[4]))
    } else if text_is(k, "T") {
        node0(AbstractNode::True)
    } else if text_is(k, "F") {
        node0(AbstractNode::False)
    } else {
        prune(&tree.children[0])
    }
}

/// Rewrites a `while` loop, or spells out a `for` loop.
fn prune_cond_loop<'a>(tree: &Node<ConcreteNode<'a>>) -> (r: Box<AstNode<'a>>)
    requires
        tree.info == ConcreteNode::<'a>::NonTerm(NonTerminal::CondLoop),
        pruned(node_view(*tree)) is Some,
    ensures
        pruned(node_view(*tree)) == Some(av(*r)),
    decreases node_view(*tree), 0int,
{
    proof {
        lemma_node_view(*tree);
    }
    let k = tree.children[0].token();
    if text_is(k, "while") {
        node2(
            AbstractNode::WhileLoop,
            prune(&tree.children[2]),
            prune(&tree.children[5]),
        )
    } else {
        let init = node2(
            AbstractNode::Assign,
            prune(&tree.children[2]),
            prune(&tree.children[4]),
        );
        let test = node2(
            AbstractNode::LessExpr,
            prune(&tree.children[6]),
            prune(&tree.children[8]),
        );
        let sum = node2(
            AbstractNode::AddExpr,
            prune(&tree.children[14]),
            prune(&tree.children[16]),
        );
        let step = node2(AbstractNode::Assign, prune(&tree.children[10]), sum);
        let body = prune(&tree.children[20]);
        let ghost parts = seq![av(*init), av(*test), av(*step), av(*body)];
        let mut cs = no_nodes();
        push_abs(&mut cs, init);
        push_abs(&mut cs, test);
        push_abs(&mut cs, step);
        push_abs(&mut cs, body);
        assert(avs(cs@) == parts);
        make_node(AbstractNode::ForLoop, cs)
    }
}

/// Whether every link of a right-recursive chain, with its tail at child
/// `at`, can be pruned.
fn spine_prunable<'a>(t: &Node<ConcreteNode<'a>>, at: usize) -> (r: bool)
    ensures
        r == spine(node_view(*t), at as int) is Some,
    decreases node_view(*t), 0int,
{
    proof {
        lemma_node_view(*t);
    }
    if t.children.len() == 0 || !prunable(&t.children[0]) {
        false
    } else if at < t.children.len() {
        spine_prunable(&t.children[at], at)
    } else {
        true
    }
}

/// Whether the pruner has a rule for `tree` and every node it rewrites
/// below it: exactly the trees that `prune` accepts.
pub fn prunable<'a>(tree: &Node<ConcreteNode<'a>>) -> (r: bool)
    ensures
        r == pruned(node_view(*tree)) is Some,
    decreases node_view(*tree), 3int,
{
    proof {
        lemma_node_view(*tree);
    }
    match tree.info {
        ConcreteNode::Term(tok) => match tok {
            Token::Number(_) => true,
            Token::Special(_) => true,
            Token::String(s) => s.unicode_len() >= 2,
            _ => false,
        },
        ConcreteNode::NonTerm(nt) => rule_prunable(tree, nt),
    }
}

/// Whether a rule node can be pruned.
fn rule_prunable<'a>(tree: &Node<ConcreteNode<'a>>, nt: NonTerminal) -> (r: bool)
    requires
        tree.info == ConcreteNode::<'a>::NonTerm(nt),
    ensures
        r == pruned(node_view(*tree)) is Some,
    decreases node_view(*tree), 2int,
{
    proof {
        lemma_node_view(*tree);
    }
    let n = tree.children.len();
    match nt {
        NonTerminal::Prog => if n >= 3 {
            prunable(&tree.children[0]) && prunable(&tree.children[2])
        } else {
            n >= 1 && prunable(&tree.children[0])
        },
        NonTerminal::ProcDefs => spine_prunable(tree, 1),
        NonTerminal::Proc => n >= 4 && prunable(&tree.children[3]),
        NonTerminal::Code => spine_prunable(tree, 2),
        NonTerminal::Instr | NonTerminal::NumExpr => n >= 1 && prunable(&tree.children[0]),
        NonTerminal::IO => n >= 3 && (text_is(tree.children[0].token(), "input") || text_is(
            tree.children[0].token(),
            "output",
        )) && prunable(&tree.children[2]),
        NonTerminal::Call | NonTerminal::Var => n >= 1,
        NonTerminal::Decl => {
            if n >= 2 && tree.children[0].children.len() >= 1 && tree.children[1].children.len()
                >= 1 {
                proof {
                    lemma_node_view(*tree.children@[0]);
                }
                let ty = tree.children[0].children[0].token();
                text_is(ty, "num") || text_is(ty, "string") || text_is(ty, "bool")
            } else {
                false
            }
        },
        NonTerminal::Assign => n >= 3 && prunable(&tree.children[0]) && prunable(
            &tree.children[2],
        ),
        NonTerminal::Calc => {
            if n >= 5 {
                let op = tree.children[0].token();
                (text_is(op, "add") || text_is(op, "sub") || text_is(op, "mult")) && prunable(
                    &tree.children[2],
                ) && prunable(&tree.children[4])
            } else {
                false
            }
        },
        NonTerminal::CondBranch => if n >= 11 {
            prunable(&tree.children[2]) && prunable(&tree.children[6]) && prunable(
                &tree.children[10],
            )
        } else {
            n >= 7 && prunable(&tree.children[2]) && prunable(&tree.children[6])
        },
        NonTerminal::Bool => n >= 1 && bool_prunable(tree),
        NonTerminal::CondLoop => n >= 1 && loop_prunable(tree),
        _ => false,
    }
}

/// Whether a `Bool` node can be pruned.
fn bool_prunable<'a>(tree: &Node<ConcreteNode<'a>>) -> (r: bool)
    requires
        tree.info == ConcreteNode::<'a>::NonTerm(NonTerminal::Bool),
        tree.children.len() >= 1,
    ensures
        r == pruned(node_view(*tree)) is Some,
    decreases node_view(*tree), 1int,
{
    proof {
        lemma_node_view(*tree);
    }
    let n = tree.children.len();
    let k = tree.children[0].token();
    if text_is(k, "eq") {
        n >= 5 && prunable(&tree.children[2]) && prunable(&tree.children[4])
    } else if text_is(k, "(") {
        n >= 4 && (text_is(tree.children[2].token(), "<") || text_is(
            tree.children[2].token(),
            ">",
        )) && prunable(&tree.children[1]) && prunable(&tree.children[3])
    } else if text_is(k, "not") {
        n >= 2 && prunable(&tree.children[1])
    } else if text_is(k, "and") || text_is(k, "or") {
        n >= 5 && prunable(&tree.children[2]) && prunable(&tree.children[4])
    } else if text_is(k, "T") || text_is(k, "F") {
        true
    } else {
        prunable(&tree.children[0])
    }
}

/// Whether a `while` or `for` node can be pruned.
fn loop_prunable<'a>(tree: &Node<ConcreteNode<'a>>) -> (r: bool)
    requires
        tree.info == ConcreteNode::<'a>::NonTerm(NonTerminal::CondLoop),
        tree.children.len() >= 1,
    ensures
        r == pruned(node_view(*tree)) is Some,
    decreases node_view(*tree), 1int,
{
    proof {
        lemma_node_view(*tree);
    }
    let n = tree.children.len();
    let k = tree.children[0].token();
    if text_is(k, "while") {
        n >= 6 && prunable(&tree.children[2]) && prunable(&tree.children[5])
    } else if text_is(k, "for") {
        n >= 21 && prunable(&tree.children[2]) && prunable(&tree.children[4]) && prunable(
            &tree.children[6],
        ) && prunable(&tree.children[8]) && prunable(&tree.children[10]) && prunable(
            &tree.children[14],
        ) && prunable(&tree.children[16]) && prunable(&tree.children[20])
    } else {
        false
    }
}

} // verus!
