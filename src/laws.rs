//! Facts that tie the parser and the pruner together.
use crate::grammar::{
    for_first_bad, for_header, g_assign, g_bool, g_calc, g_code, g_cond_branch, g_cond_loop,
    g_instr, g_num_expr, g_proc, g_proc_defs, g_prog, is_control, is_g, is_var_slot, left, lf,
    parse_spec, text, tk, var_at, CTree, ConcreteNode, NonTerminal, Step, Token,
};
use crate::pruner::{listed, pruned, spine, txt, ATree, AbstractNode};
use crate::tree::{size, sizes, Tree};
use vstd::prelude::*;

verus! {

/// The total size of the trees of `cs` at the positions `picks`.
pub open spec fn picked<I>(cs: Seq<Tree<I>>, picks: Seq<int>) -> nat
    decreases picks.len(),
{
    if picks.len() == 0 {
        0
    } else {
        picked(cs, picks.drop_last()) + size(cs[picks.last()])
    }
}

pub proof fn lemma_size_pos<I>(t: Tree<I>)
    ensures
        size(t) >= 1,
{
}

/// Trees picked at increasing positions weigh no more than all of them,
/// and every tree left out weighs at least one.
pub proof fn lemma_picked<I>(cs: Seq<Tree<I>>, picks: Seq<int>)
    requires
        forall|j: int| 0 <= j < picks.len() ==> 0 <= #[trigger] picks[j] < cs.len(),
        forall|j: int, k: int| 0 <= j < k < picks.len() ==> picks[j] < picks[k],
    ensures
        picked(cs, picks) + cs.len() - picks.len() <= sizes(cs),
    decreases cs.len(),
{
    if cs.len() == 0 {
        if picks.len() > 0 {
            assert(0 <= picks[0] < cs.len());
        }
    } else {
        let last = cs.last();
        lemma_size_pos(last);
        assert(sizes(cs) == sizes(cs.drop_last()) + size(last));
        if picks.len() > 0 && picks.last() == cs.len() - 1 {
            let rest = picks.drop_last();
            assert forall|j: int| 0 <= j < rest.len() implies 0 <= #[trigger] rest[j] < cs.len()
                - 1 by {
                assert(picks[j] < picks[picks.len() - 1]);
            }
            assert(picked(cs.drop_last(), rest) == picked(cs, rest)) by {
                lemma_picked_prefix(cs, rest);
            }
            lemma_picked(cs.drop_last(), rest);
        } else {
            assert forall|j: int| 0 <= j < picks.len() implies 0 <= #[trigger] picks[j] < cs.len()
                - 1 by {
                if picks[j] == cs.len() - 1 {
                    if j < picks.len() - 1 {
                        assert(picks[j] < picks[picks.len() - 1]);
                    }
                }
            }
            assert(picked(cs.drop_last(), picks) == picked(cs, picks)) by {
                lemma_picked_prefix(cs, picks);
            }
            lemma_picked(cs.drop_last(), picks);
        }
    }
}

/// Picks below the last position see the same trees without it.
pub proof fn lemma_picked_prefix<I>(cs: Seq<Tree<I>>, picks: Seq<int>)
    requires
        cs.len() > 0,
        forall|j: int| 0 <= j < picks.len() ==> 0 <= #[trigger] picks[j] < cs.len() - 1,
    ensures
        picked(cs.drop_last(), picks) == picked(cs, picks),
    decreases picks.len(),
{
    if picks.len() > 0 {
        let rest = picks.drop_last();
        assert forall|j: int| 0 <= j < rest.len() implies 0 <= #[trigger] rest[j] < cs.len()
            - 1 by {
            assert(rest[j] == picks[j]);
        }
        lemma_picked_prefix(cs, rest);
        assert(picks[picks.len() - 1] < cs.len() - 1);
    }
}

pub proof fn lemma_sizes_concat<I>(a: Seq<Tree<I>>, b: Seq<Tree<I>>)
    ensures
        sizes(a + b) == sizes(a) + sizes(b),
    decreases b.len(),
{
    if b.len() == 0 {
        assert(a + b =~= a);
    } else {
        assert((a + b).drop_last() =~= a + b.drop_last());
        lemma_sizes_concat(a, b.drop_last());
    }
}

pub proof fn lemma_sizes_small<I>(x: Tree<I>, y: Tree<I>, z: Tree<I>, w: Tree<I>)
    ensures
        sizes(seq![x]) == size(x),
        sizes(seq![x, y]) == size(x) + size(y),
        sizes(seq![x, y, z]) == size(x) + size(y) + size(z),
        sizes(seq![x, y, z, w]) == size(x) + size(y) + size(z) + size(w),
{
    assert(seq![x].drop_last() =~= Seq::<Tree<I>>::empty());
    assert(seq![x, y].drop_last() =~= seq![x]);
    assert(seq![x, y, z].drop_last() =~= seq![x, y]);
    assert(seq![x, y, z, w].drop_last() =~= seq![x, y, z]);
    assert(sizes(Seq::<Tree<I>>::empty()) == 0);
    assert(sizes(seq![x]) == size(x));
    assert(sizes(seq![x, y]) == sizes(seq![x]) + size(y));
    assert(sizes(seq![x, y, z]) == sizes(seq![x, y]) + size(z));
    assert(sizes(seq![x, y, z, w]) == sizes(seq![x, y, z]) + size(w));
}

pub proof fn lemma_pick1<I>(cs: Seq<Tree<I>>, i: int)
    requires
        0 <= i < cs.len(),
    ensures
        size(cs[i]) + cs.len() - 1 <= sizes(cs),
{
    let ps = seq![i];
    assert(ps.drop_last() =~= Seq::<int>::empty());
    lemma_picked(cs, ps);
}

pub proof fn lemma_pick2<I>(cs: Seq<Tree<I>>, i: int, j: int)
    requires
        0 <= i < j < cs.len(),
    ensures
        size(cs[i]) + size(cs[j]) + cs.len() - 2 <= sizes(cs),
{
    let ps = seq![i, j];
    assert(ps.drop_last() =~= seq![i]);
    assert(seq![i].drop_last() =~= Seq::<int>::empty());
    assert(picked(cs, Seq::<int>::empty()) == 0);
    assert(picked(cs, seq![i]) == size(cs[i]));
    assert(picked(cs, ps) == size(cs[i]) + size(cs[j]));
    lemma_picked(cs, ps);
}

pub proof fn lemma_pick3<I>(cs: Seq<Tree<I>>, i: int, j: int, k: int)
    requires
        0 <= i < j < k < cs.len(),
    ensures
        size(cs[i]) + size(cs[j]) + size(cs[k]) + cs.len() - 3 <= sizes(cs),
{
    let ps = seq![i, j, k];
    assert(ps.drop_last() =~= seq![i, j]);
    assert(seq![i, j].drop_last() =~= seq![i]);
    assert(seq![i].drop_last() =~= Seq::<int>::empty());
    assert(picked(cs, Seq::<int>::empty()) == 0);
    assert(picked(cs, seq![i]) == size(cs[i]));
    assert(picked(cs, seq![i, j]) == size(cs[i]) + size(cs[j]));
    assert(picked(cs, ps) == size(cs[i]) + size(cs[j]) + size(cs[k]));
    lemma_picked(cs, ps);
}

/// The slots of a `for` loop that the pruner keeps.
pub open spec fn for_picks() -> Seq<int> {
    seq![2, 4, 6, 8, 10, 14, 16, 20]
}

pub proof fn lemma_pick_for<I>(cs: Seq<Tree<I>>)
    requires
        cs.len() >= 21,
    ensures
        size(cs[2]) + size(cs[4]) + size(cs[6]) + size(cs[8]) + size(cs[10]) + size(cs[14])
            + size(cs[16]) + size(cs[20]) + cs.len() - 8 <= sizes(cs),
{
    let p8 = for_picks();
    let p7 = seq![2, 4, 6, 8, 10, 14, 16];
    let p6 = seq![2, 4, 6, 8, 10, 14];
    let p5 = seq![2, 4, 6, 8, 10];
    let p4 = seq![2, 4, 6, 8];
    let p3 = seq![2, 4, 6];
    let p2 = seq![2, 4];
    let p1 = seq![2];
    assert(p8.drop_last() =~= p7);
    assert(p7.drop_last() =~= p6);
    assert(p6.drop_last() =~= p5);
    assert(p5.drop_last() =~= p4);
    assert(p4.drop_last() =~= p3);
    assert(p3.drop_last() =~= p2);
    assert(p2.drop_last() =~= p1);
    assert(p1.drop_last() =~= Seq::<int>::empty());
    assert(picked(cs, Seq::<int>::empty()) == 0);
    assert(picked(cs, p1) == size(cs[2]));
    assert(picked(cs, p2) == picked(cs, p1) + size(cs[4]));
    assert(picked(cs, p3) == picked(cs, p2) + size(cs[6]));
    assert(picked(cs, p4) == picked(cs, p3) + size(cs[8]));
    assert(picked(cs, p5) == picked(cs, p4) + size(cs[10]));
    assert(picked(cs, p6) == picked(cs, p5) + size(cs[14]));
    assert(picked(cs, p7) == picked(cs, p6) + size(cs[16]));
    assert(picked(cs, p8) == picked(cs, p7) + size(cs[20]));
    assert forall|j: int, k: int| 0 <= j < k < p8.len() implies p8[j] < p8[k] by {
        assert(p8[0] == 2 && p8[1] == 4 && p8[2] == 6 && p8[3] == 8);
        assert(p8[4] == 10 && p8[5] == 14 && p8[6] == 16 && p8[7] == 20);
    }
    assert forall|j: int| 0 <= j < p8.len() implies 0 <= #[trigger] p8[j] < cs.len() by {
        assert(p8[0] == 2 && p8[1] == 4 && p8[2] == 6 && p8[3] == 8);
        assert(p8[4] == 10 && p8[5] == 14 && p8[6] == 16 && p8[7] == 20);
    }
    lemma_picked(cs, p8);
}

pub proof fn lemma_atom_size<I>(info: I)
    ensures
        size(crate::tree::atom(info)) == 1,
{
    assert(sizes(Seq::<Tree<I>>::empty()) == 0);
}

/// A chain's pruned links weigh less than the chain.
pub proof fn lemma_spine_size<'a>(t: CTree<'a>, at: int)
    requires
        at >= 1,
        spine(t, at) is Some,
    ensures
        sizes(spine(t, at)->Some_0) + 1 <= size(t),
    decreases t, 0int,
{
    let cs = t.children;
    let x = pruned(cs[0])->Some_0;
    lemma_pruned_size(cs[0]);
    lemma_sizes_small(x, x, x, x);
    if at < cs.len() {
        let rest = spine(cs[at], at)->Some_0;
        lemma_spine_size(cs[at], at);
        lemma_sizes_concat(seq![x], rest);
        lemma_pick2(cs, 0, at);
    } else {
        lemma_pick1(cs, 0);
    }
}

/// Pruning a tree never gives a larger tree.
pub proof fn lemma_pruned_size<'a>(t: CTree<'a>)
    requires
        pruned(t) is Some,
    ensures
        size(pruned(t)->Some_0) <= size(t),
    decreases t, 2int,
{
    let cs = t.children;
    let n = cs.len();
    let a = pruned(t)->Some_0;
    assert forall|i: int| 0 <= i < n && #[trigger] pruned(cs[i]) is Some implies size(
        pruned(cs[i])->Some_0,
    ) <= size(cs[i]) by {
        lemma_pruned_size(cs[i]);
    }
    if a.children.len() == 0 {
        lemma_atom_size(a.info);
        assert(a.children =~= Seq::<ATree>::empty());
        lemma_size_pos(t);
    } else {
        match t.info {
            ConcreteNode::Term(_) => {},
            ConcreteNode::NonTerm(nt) => {
                lemma_nonterm_size(t, nt);
            },
        }
    }
}

/// The rule cases of `lemma_pruned_size`, for a result with children.
pub proof fn lemma_nonterm_size<'a>(t: CTree<'a>, nt: NonTerminal)
    requires
        t.info == ConcreteNode::<'a>::NonTerm(nt),
        pruned(t) is Some,
        pruned(t)->Some_0.children.len() > 0,
        forall|i: int|
            0 <= i < t.children.len() && #[trigger] pruned(t.children[i]) is Some ==> size(
                pruned(t.children[i])->Some_0,
            ) <= size(t.children[i]),
    ensures
        size(pruned(t)->Some_0) <= size(t),
    decreases t, 1int,
{
    let cs = t.children;
    let n = cs.len();
    let a = pruned(t)->Some_0;
    let p = |i: int| pruned(cs[i])->Some_0;
    match nt {
        NonTerminal::ProcDefs => {
            lemma_spine_size(t, 1);
        },
        NonTerminal::Code => {
            lemma_spine_size(t, 2);
        },
        NonTerminal::Instr | NonTerminal::NumExpr => {
            lemma_pick1(cs, 0);
        },
        NonTerminal::Prog => {
            if n >= 3 {
                lemma_sizes_small(p(0), p(2), p(0), p(0));
                lemma_pick2(cs, 0, 2);
            } else {
                lemma_sizes_small(p(0), p(0), p(0), p(0));
                lemma_pick1(cs, 0);
            }
        },
        NonTerminal::Proc => {
            lemma_sizes_small(p(3), p(3), p(3), p(3));
            lemma_pick1(cs, 3);
        },
        NonTerminal::IO => {
            lemma_sizes_small(p(2), p(2), p(2), p(2));
            lemma_pick1(cs, 2);
        },
        NonTerminal::Assign => {
            lemma_sizes_small(p(0), p(2), p(0), p(0));
            lemma_pick2(cs, 0, 2);
        },
        NonTerminal::Calc => {
            lemma_sizes_small(p(2), p(4), p(0), p(0));
            lemma_pick2(cs, 2, 4);
        },
        NonTerminal::CondBranch => {
            if n >= 11 {
                lemma_sizes_small(p(2), p(6), p(10), p(0));
                lemma_pick3(cs, 2, 6, 10);
            } else {
                lemma_sizes_small(p(2), p(6), p(0), p(0));
                lemma_pick2(cs, 2, 6);
            }
        },
        NonTerminal::Bool => {
            let k = txt(cs[0]);
            if k == "eq"@ {
                lemma_sizes_small(p(2), p(4), p(0), p(0));
                lemma_pick2(cs, 2, 4);
            } else if k == "("@ {
                lemma_sizes_small(p(1), p(3), p(0), p(0));
                lemma_pick2(cs, 1, 3);
            } else if k == "not"@ {
                lemma_sizes_small(p(1), p(1), p(1), p(1));
                lemma_pick1(cs, 1);
            } else if k == "and"@ || k == "or"@ {
                lemma_sizes_small(p(2), p(4), p(0), p(0));
                lemma_pick2(cs, 2, 4);
            } else {
                lemma_pick1(cs, 0);
            }
        },
        NonTerminal::CondLoop => {
            let k = txt(cs[0]);
            if k == "while"@ {
                lemma_sizes_small(p(2), p(5), p(0), p(0));
                lemma_pick2(cs, 2, 5);
            } else {
                let init = Tree { info: AbstractNode::Assign, children: seq![p(2), p(4)] };
                let test = Tree { info: AbstractNode::LessExpr, children: seq![p(6), p(8)] };
                let sum = Tree { info: AbstractNode::AddExpr, children: seq![p(14), p(16)] };
                let step = Tree { info: AbstractNode::Assign, children: seq![p(10), sum] };
                lemma_sizes_small(p(2), p(4), p(0), p(0));
                lemma_sizes_small(p(6), p(8), p(0), p(0));
                lemma_sizes_small(p(14), p(16), p(0), p(0));
                lemma_sizes_small(p(10), sum, p(0), p(0));
                lemma_sizes_small(init, test, step, p(20));
                lemma_pick_for(cs);
            }
        },
        _ => {},
    }
}

/// Pruning a parsed program never gives a tree with more nodes than the
/// concrete tree it came from.
pub proof fn pruning_never_grows<'a>(toks: Seq<Token<'a>>)
    requires
        parse_spec(toks) is Ok,
        pruned(parse_spec(toks)->Ok_0) is Some,
    ensures
        size(pruned(parse_spec(toks)->Ok_0)->Some_0) <= size(parse_spec(toks)->Ok_0),
{
    lemma_pruned_size(parse_spec(toks)->Ok_0);
}

/// Parsing is a function of the tokens alone: two parses of one token
/// sequence give the same outcome, tree for tree and position for position.
pub proof fn parsing_is_deterministic<'a>(a: Seq<Token<'a>>, b: Seq<Token<'a>>)
    requires
        a == b,
    ensures
        parse_spec(a) == parse_spec(b),
        parse_spec(a) is Ok ==> pruned(parse_spec(a)->Ok_0) == pruned(parse_spec(b)->Ok_0),
{
}

/// A token whose keyword the pruner knows: types `num`, `string`, `bool`;
/// `input` and `output`; `add`, `sub`, `mult`; `not`, `and`, `or`; `T`, `F`;
/// and string literals of at least two characters (their quotes).
pub open spec fn known_token(t: Token) -> bool {
    let s = text(t);
    match t {
        Token::Type(_) => s == "num"@ || s == "string"@ || s == "bool"@,
        Token::IO(_) => s == "input"@ || s == "output"@,
        Token::Arithmetic(_) => s == "add"@ || s == "sub"@ || s == "mult"@,
        Token::Boolean(_) => s == "not"@ || s == "and"@ || s == "or"@,
        Token::Truth(_) => s == "T"@ || s == "F"@,
        Token::String(_) => s.len() >= 2,
        _ => true,
    }
}

pub open spec fn known(toks: Seq<Token>) -> bool {
    forall|i: int| 0 <= i < toks.len() ==> known_token(#[trigger] toks[i])
}

pub proof fn lemma_words()
    ensures
        "("@ != "eq"@,
        "not"@ != "eq"@ && "not"@ != "("@,
        "and"@ != "eq"@ && "and"@ != "("@ && "and"@ != "not"@,
        "or"@ != "eq"@ && "or"@ != "("@ && "or"@ != "not"@,
        "T"@ != "eq"@ && "T"@ != "("@ && "T"@ != "not"@ && "T"@ != "and"@ && "T"@ != "or"@,
        "F"@ != "eq"@ && "F"@ != "("@ && "F"@ != "not"@ && "F"@ != "and"@ && "F"@ != "or"@,
        "eq"@.len() > 0 && "("@.len() > 0 && "not"@.len() > 0 && "and"@.len() > 0,
        "or"@.len() > 0 && "T"@.len() > 0 && "F"@.len() > 0,
        "for"@ != "while"@,
{
    reveal_strlit("(");
    reveal_strlit("eq");
    reveal_strlit("not");
    reveal_strlit("and");
    reveal_strlit("or");
    reveal_strlit("T");
    reveal_strlit("F");
    reveal_strlit("for");
    reveal_strlit("while");
    assert("("@[0] != "eq"@[0]);
    assert("not"@[0] != "eq"@[0]);
    assert("not"@[0] != "("@[0]);
    assert("and"@[0] != "eq"@[0]);
    assert("and"@[0] != "("@[0]);
    assert("and"@[0] != "not"@[0]);
    assert("or"@[0] != "eq"@[0]);
    assert("or"@[0] != "("@[0]);
    assert("or"@[0] != "not"@[0]);
    assert("T"@[0] != "eq"@[0] && "T"@[0] != "("@[0] && "T"@[0] != "not"@[0]);
    assert("T"@[0] != "and"@[0] && "T"@[0] != "or"@[0]);
    assert("F"@[0] != "eq"@[0] && "F"@[0] != "("@[0] && "F"@[0] != "not"@[0]);
    assert("F"@[0] != "and"@[0] && "F"@[0] != "or"@[0]);
    assert("for"@[0] != "while"@[0]);
}

pub proof fn lemma_for_header<'a>(toks: Seq<Token<'a>>, p: int, k: int)
    requires
        0 <= k,
    ensures
        for_header(toks, p, k).len() == k,
        forall|i: int|
            0 <= i < k ==> #[trigger] for_header(toks, p, k)[i] == if is_var_slot(i) {
                var_at(toks, p + i)
            } else {
                lf(toks, p + i)
            },
    decreases k,
{
    if k > 0 {
        lemma_for_header(toks, p, k - 1);
    }
}

/// Name, number, `halt` and (known) string leaves prune.
pub proof fn lemma_leaf<'a>(toks: Seq<Token<'a>>, i: int)
    requires
        known(toks),
    ensures
        pruned(var_at(toks, i)) is Some,
        tk(toks, i) is Number || tk(toks, i) is Special || tk(toks, i) is String
            ==> pruned(lf(toks, i)) is Some,
        known_token(tk(toks, i)),
{
    if 0 <= i < toks.len() {
        assert(known_token(toks[i]));
    }
    reveal_strlit("");
}

pub proof fn lemma_prog_prunes<'a>(toks: Seq<Token<'a>>, p: int)
    requires
        known(toks),
        0 <= p,
        g_prog(toks, p) is Done,
    ensures
        pruned(g_prog(toks, p)->Done_0) is Some,
    decreases left(toks, p), 10int,
{
    lemma_words();
    if p < toks.len() {
        assert(known_token(toks[p]));
    }
    if p + 1 < toks.len() {
        assert(known_token(toks[p + 1]));
    }
    lemma_code_prunes(toks, p);
    if let Step::Done(c, q) = g_code(toks, p) {
        if q > p && p < toks.len() && is_g(tk(toks, q), ";") {
            lemma_proc_defs_prunes(toks, q + 1);
        }
    }
}

pub proof fn lemma_code_prunes<'a>(toks: Seq<Token<'a>>, p: int)
    requires
        known(toks),
        0 <= p,
        g_code(toks, p) is Done,
    ensures
        pruned(g_code(toks, p)->Done_0) is Some,
    decreases left(toks, p), 9int,
{
    lemma_words();
    if p < toks.len() {
        assert(known_token(toks[p]));
    }
    if p + 1 < toks.len() {
        assert(known_token(toks[p + 1]));
    }
    lemma_instr_prunes(toks, p);
    if let Step::Done(i, q) = g_instr(toks, p) {
        if q > p && p < toks.len() && is_g(tk(toks, q), ";") && !(tk(toks, q + 1) is Procedure) {
            lemma_code_prunes(toks, q + 1);
            if let Step::Done(rest, q2) = g_code(toks, q + 1) {
                assert(pruned(rest) == listed(AbstractNode::Code, spine(rest, 2)));
                let t = crate::grammar::inner(NonTerminal::Code, seq![i, lf(toks, q), rest]);
                assert(t.children[0] == i && t.children[2] == rest);
                assert(spine(t, 2) is Some);
            }
        } else {
            let t = crate::grammar::inner(NonTerminal::Code, seq![i]);
            assert(t.children[0] == i);
            assert(spine(t, 2) is Some);
        }
    }
}

pub proof fn lemma_instr_prunes<'a>(toks: Seq<Token<'a>>, p: int)
    requires
        known(toks),
        0 <= p,
        g_instr(toks, p) is Done,
    ensures
        pruned(g_instr(toks, p)->Done_0) is Some,
    decreases left(toks, p), 8int,
{
    lemma_leaf(toks, p);
    lemma_leaf(toks, p + 1);
    lemma_leaf(toks, p + 2);
    lemma_words();
    if p < toks.len() {
        assert(known_token(toks[p]));
    }
    if p + 1 < toks.len() {
        assert(known_token(toks[p + 1]));
    }
    let c = tk(toks, p);
    if c is Special {
        assert(pruned(lf(toks, p)) is Some);
    } else if c is Type {
        assert(pruned(crate::grammar::g_decl(toks, p)->Done_0) is Some);
    } else if c is IO {
        assert(pruned(crate::grammar::g_io(toks, p)->Done_0) is Some);
    } else if c is Name && tk(toks, p + 1) is Assignment {
        lemma_assign_prunes(toks, p);
    } else if c is Name {
        assert(pruned(crate::grammar::g_call(toks, p)->Done_0) is Some);
    } else if is_control(c, "if") {
        lemma_cond_branch_prunes(toks, p);
    } else if c is Control {
        lemma_cond_loop_prunes(toks, p);
    }
}

pub proof fn lemma_proc_defs_prunes<'a>(toks: Seq<Token<'a>>, p: int)
    requires
        known(toks),
        0 <= p,
        g_proc_defs(toks, p) is Done,
    ensures
        pruned(g_proc_defs(toks, p)->Done_0) is Some,
    decreases left(toks, p), 7int,
{
    lemma_words();
    if p < toks.len() {
        assert(known_token(toks[p]));
    }
    if p + 1 < toks.len() {
        assert(known_token(toks[p + 1]));
    }
    lemma_proc_prunes(toks, p);
    if let Step::Done(x, q) = g_proc(toks, p) {
        if q > p && p < toks.len() && tk(toks, q) is Procedure {
            lemma_proc_defs_prunes(toks, q);
            if let Step::Done(rest, q2) = g_proc_defs(toks, q) {
                assert(pruned(rest) == listed(AbstractNode::ProcDefs, spine(rest, 1)));
                let t = crate::grammar::inner(NonTerminal::ProcDefs, seq![x, rest]);
                assert(t.children[0] == x && t.children[1] == rest);
                assert(spine(t, 1) is Some);
            }
        } else {
            let t = crate::grammar::inner(NonTerminal::ProcDefs, seq![x]);
            assert(t.children[0] == x);
            assert(spine(t, 1) is Some);
        }
    }
}

pub proof fn lemma_proc_prunes<'a>(toks: Seq<Token<'a>>, p: int)
    requires
        known(toks),
        0 <= p,
        g_proc(toks, p) is Done,
    ensures
        pruned(g_proc(toks, p)->Done_0) is Some,
    decreases left(toks, p), 6int,
{
    lemma_words();
    if p < toks.len() {
        assert(known_token(toks[p]));
    }
    if p + 1 < toks.len() {
        assert(known_token(toks[p + 1]));
    }
    lemma_prog_prunes(toks, p + 3);
}

pub proof fn lemma_assign_prunes<'a>(toks: Seq<Token<'a>>, p: int)
    requires
        known(toks),
        0 <= p,
        g_assign(toks, p) is Done,
    ensures
        pruned(g_assign(toks, p)->Done_0) is Some,
    decreases left(toks, p), 5int,
{
    lemma_leaf(toks, p);
    lemma_leaf(toks, p + 2);
    lemma_words();
    if p < toks.len() {
        assert(known_token(toks[p]));
    }
    if p + 1 < toks.len() {
        assert(known_token(toks[p + 1]));
    }
    let c = tk(toks, p + 2);
    if p + 2 < toks.len() {
        assert(known_token(toks[p + 2]));
    }
    if c is String || c is Name {
    } else if c is Number || c is Arithmetic {
        lemma_num_expr_prunes(toks, p + 2);
    } else {
        lemma_bool_prunes(toks, p + 2);
    }
}

pub proof fn lemma_cond_branch_prunes<'a>(toks: Seq<Token<'a>>, p: int)
    requires
        known(toks),
        0 <= p,
        g_cond_branch(toks, p) is Done,
    ensures
        pruned(g_cond_branch(toks, p)->Done_0) is Some,
    decreases left(toks, p), 5int,
{
    lemma_words();
    if p < toks.len() {
        assert(known_token(toks[p]));
    }
    if p + 1 < toks.len() {
        assert(known_token(toks[p + 1]));
    }
    lemma_bool_prunes(toks, p + 2);
    if let Step::Done(c, q) = g_bool(toks, p + 2) {
        if q > p {
            lemma_code_prunes(toks, q + 3);
            if let Step::Done(body, q2) = g_code(toks, q + 3) {
                if q2 > p && is_g(tk(toks, q2), "}") && is_control(tk(toks, q2 + 1), "else")
                    && is_g(tk(toks, q2 + 2), "{") {
                    lemma_code_prunes(toks, q2 + 3);
                }
            }
        }
    }
}

pub proof fn lemma_cond_loop_prunes<'a>(toks: Seq<Token<'a>>, p: int)
    requires
        known(toks),
        0 <= p,
        g_cond_loop(toks, p) is Done,
    ensures
        pruned(g_cond_loop(toks, p)->Done_0) is Some,
    decreases left(toks, p), 5int,
{
    lemma_leaf(toks, p + 2);
    lemma_leaf(toks, p + 4);
    lemma_leaf(toks, p + 6);
    lemma_leaf(toks, p + 8);
    lemma_leaf(toks, p + 10);
    lemma_leaf(toks, p + 14);
    lemma_leaf(toks, p + 16);
    lemma_words();
    if p < toks.len() {
        assert(known_token(toks[p]));
    }
    if p + 1 < toks.len() {
        assert(known_token(toks[p + 1]));
    }
    if is_control(tk(toks, p), "while") {
        lemma_bool_prunes(toks, p + 2);
        if let Step::Done(c, q) = g_bool(toks, p + 2) {
            if q > p {
                lemma_code_prunes(toks, q + 2);
            }
        }
    } else if is_control(tk(toks, p), "for") && for_first_bad(toks, p, 1) >= 20 {
        lemma_code_prunes(toks, p + 20);
        lemma_for_header(toks, p, 20);
        lemma_for_slots(toks, p, 1);
    }
}

pub proof fn lemma_num_expr_prunes<'a>(toks: Seq<Token<'a>>, p: int)
    requires
        known(toks),
        0 <= p,
        g_num_expr(toks, p) is Done,
    ensures
        pruned(g_num_expr(toks, p)->Done_0) is Some,
    decreases left(toks, p), 4int,
{
    lemma_leaf(toks, p);
    lemma_words();
    if p < toks.len() {
        assert(known_token(toks[p]));
    }
    if p + 1 < toks.len() {
        assert(known_token(toks[p + 1]));
    }
    if tk(toks, p) is Arithmetic {
        lemma_calc_prunes(toks, p);
    }
}

pub proof fn lemma_calc_prunes<'a>(toks: Seq<Token<'a>>, p: int)
    requires
        known(toks),
        0 <= p,
        g_calc(toks, p) is Done,
    ensures
        pruned(g_calc(toks, p)->Done_0) is Some,
    decreases left(toks, p), 3int,
{
    lemma_words();
    if p < toks.len() {
        assert(known_token(toks[p]));
    }
    if p + 1 < toks.len() {
        assert(known_token(toks[p + 1]));
    }
    lemma_num_expr_prunes(toks, p + 2);
    if let Step::Done(a, q) = g_num_expr(toks, p + 2) {
        if q > p {
            lemma_num_expr_prunes(toks, q + 1);
        }
    }
}

pub proof fn lemma_bool_prunes<'a>(toks: Seq<Token<'a>>, p: int)
    requires
        known(toks),
        0 <= p,
        g_bool(toks, p) is Done,
    ensures
        pruned(g_bool(toks, p)->Done_0) is Some,
    decreases left(toks, p), 2int,
{
    lemma_leaf(toks, p);
    lemma_leaf(toks, p + 1);
    lemma_leaf(toks, p + 2);
    lemma_leaf(toks, p + 3);
    lemma_leaf(toks, p + 4);
    lemma_words();
    if p < toks.len() {
        assert(known_token(toks[p]));
    }
    if p + 1 < toks.len() {
        assert(known_token(toks[p + 1]));
    }
    let c = tk(toks, p);
    if c is Boolean && text(c) == "not"@ {
        lemma_bool_prunes(toks, p + 1);
    } else if c is Boolean {
        lemma_bool_prunes(toks, p + 2);
        if let Step::Done(a, q) = g_bool(toks, p + 2) {
            if q > p {
                lemma_bool_prunes(toks, q + 1);
            }
        }
    }
}

/// A program parsed from known tokens is a tree the pruner accepts, so
/// pruning it succeeds.
pub proof fn parsed_programs_prune<'a>(toks: Seq<Token<'a>>)
    requires
        known(toks),
        parse_spec(toks) is Ok,
    ensures
        pruned(parse_spec(toks)->Ok_0) is Some,
{
    lemma_prog_prunes(toks, 0);
}

pub proof fn lemma_for_slots<'a>(toks: Seq<Token<'a>>, p: int, k: int)
    requires
        1 <= k <= 20,
        for_first_bad(toks, p, k) >= 20,
    ensures
        forall|i: int| k <= i < 20 ==> crate::grammar::slot_fits(#[trigger] tk(toks, p + i), i),
    decreases 20 - k,
{
    if k < 20 {
        lemma_for_slots(toks, p, k + 1);
        assert forall|i: int| k <= i < 20 implies crate::grammar::slot_fits(
            #[trigger] tk(toks, p + i),
            i,
        ) by {
            if i == k {
            }
        }
    }
}

/// A program parsed from known tokens prunes, and its abstract tree has no
/// more nodes than its concrete tree.
pub proof fn known_programs_never_grow<'a>(toks: Seq<Token<'a>>)
    requires
        known(toks),
        parse_spec(toks) is Ok,
    ensures
        pruned(parse_spec(toks)->Ok_0) is Some,
        size(pruned(parse_spec(toks)->Ok_0)->Some_0) <= size(parse_spec(toks)->Ok_0),
{
    parsed_programs_prune(toks);
    pruning_never_grows(toks);
}

} // verus!
