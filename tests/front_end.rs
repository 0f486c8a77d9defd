use parser::grammar::{ConcreteNode, NonTerminal, Token};
use parser::parser::parse;
use parser::pruner::{prunable, prune, AbstractNode, AstNode};
use parser::tree::Node;

fn lex(src: &str) -> Vec<Token<'_>> {
    src.split_whitespace()
        .map(|w| match w {
            "(" | ")" | "{" | "}" | ";" | "," => Token::Grouping(w),
            ":=" => Token::Assignment(w),
            "if" | "then" | "else" | "while" | "for" => Token::Control(w),
            "add" | "sub" | "mult" => Token::Arithmetic(w),
            "eq" | "<" | ">" => Token::Comparison(w),
            "not" | "and" | "or" => Token::Boolean(w),
            "T" | "F" => Token::Truth(w),
            "input" | "output" => Token::IO(w),
            "num" | "string" | "bool" => Token::Type(w),
            "halt" => Token::Special(w),
            "proc" => Token::Procedure(w),
            _ if w.starts_with('"') => Token::String(w),
            _ if w.chars().all(|c| c.is_ascii_digit()) => Token::Number(w),
            _ => Token::Name(w),
        })
        .collect()
}

fn render<N: std::fmt::Debug>(n: &Node<N>) -> String {
    let mut s = format!("{:?}", n.info);
    if !n.children.is_empty() {
        let parts: Vec<String> = n.children.iter().map(|c| render(c)).collect();
        s.push('[');
        s.push_str(&parts.join(", "));
        s.push(']');
    }
    s
}

fn count<N>(n: &Node<N>) -> usize {
    1 + n.children.iter().map(|c| count(c)).sum::<usize>()
}

fn front(src: &str) -> String {
    let cst = match parse(lex(src)) {
        Ok(t) => t,
        Err(e) => panic!("unexpected error at {}", e.index),
    };
    render(&prune(&cst))
}

fn leaf<'a>(t: Token<'a>) -> Node<ConcreteNode<'a>> {
    Node { info: ConcreteNode::Term(t), children: Vec::new() }
}

#[test]
fn string_literal_loses_its_quotes() {
    let ast: Box<AstNode> = prune(&leaf(Token::String("\"abc\"")));
    assert!(matches!(ast.info, AbstractNode::String("abc")));
    assert!(ast.children.is_empty());
}

#[test]
fn empty_string_literal() {
    let ast = prune(&leaf(Token::String("\"\"")));
    assert!(matches!(ast.info, AbstractNode::String("")));
}

#[test]
fn string_assignment() {
    assert_eq!(
        front("s := \"hi\""),
        "Prog[Code[Assign[Var(\"s\"), String(\"hi\")]]]"
    );
}

#[test]
fn for_loop_is_spelled_out() {
    let out = front("for ( i := 0 ; i < n ; i := add ( i , 1 ) ) { output ( i ) }");
    assert_eq!(
        out,
        "Prog[Code[ForLoop[Assign[Var(\"i\"), Number(\"0\")], LessExpr[Var(\"i\"), Var(\"n\")], \
         Assign[Var(\"i\"), AddExpr[Var(\"i\"), Number(\"1\")]], Code[Output[Var(\"i\")]]]]]"
    );
}

#[test]
fn for_loop_needs_a_zero_start() {
    let toks = lex("for ( i := 2 ; i < n ; i := add ( i , 1 ) ) { halt }");
    match parse(toks) {
        Ok(_) => panic!("accepted"),
        Err(e) => {
            assert_eq!(e.index, 4);
            assert!(matches!(e.token, Token::Number("2")));
        }
    }
}

#[test]
fn procedure_chain_in_order() {
    let cst = parse(lex("x := 1 ; proc p1 { y := 2 } proc p2 { z := 3 }")).ok().unwrap();
    assert_eq!(cst.children.len(), 3);
    let defs = &cst.children[2];
    assert!(matches!(defs.info, ConcreteNode::NonTerm(NonTerminal::ProcDefs)));
    assert_eq!(defs.children.len(), 2);
    assert_eq!(defs.children[0].children[1].token(), "p1");
    let tail = &defs.children[1];
    assert!(matches!(tail.info, ConcreteNode::NonTerm(NonTerminal::ProcDefs)));
    assert_eq!(tail.children.len(), 1);
    assert_eq!(tail.children[0].children[1].token(), "p2");
    assert_eq!(
        render(&prune(&cst)),
        "Prog[Code[Assign[Var(\"x\"), Number(\"1\")]], ProcDefs[Proc(\"p1\")[Prog[Code[Assign[Var(\"y\"), Number(\"2\")]]]], \
         Proc(\"p2\")[Prog[Code[Assign[Var(\"z\"), Number(\"3\")]]]]]]"
    );
}

#[test]
fn if_without_else() {
    let cst = parse(lex("if ( T ) then { halt }")).ok().unwrap();
    let ast = prune(&cst);
    let branch = &ast.children[0].children[0];
    assert!(matches!(branch.info, AbstractNode::CondBranch));
    assert_eq!(branch.children.len(), 2);
}

#[test]
fn if_with_else() {
    let out = front("if ( T ) then { halt } else { halt }");
    assert_eq!(out, "Prog[Code[CondBranch[True, Code[Halt], Code[Halt]]]]");
}

#[test]
fn dangling_if_fails_at_end() {
    match parse(lex("if ( T ) then {")) {
        Ok(_) => panic!("accepted"),
        Err(e) => {
            assert_eq!(e.index, 6);
            assert!(matches!(e.token, Token::End(_)));
        }
    }
}

#[test]
fn dangling_if_fails_at_stray_token() {
    match parse(lex("if ( T ) then { )")) {
        Ok(_) => panic!("accepted"),
        Err(e) => {
            assert_eq!(e.index, 6);
            assert!(matches!(e.token, Token::Grouping(")")));
        }
    }
}

#[test]
fn error_index_counts_valid_prefix() {
    match parse(lex("x := 1 ; )")) {
        Ok(_) => panic!("accepted"),
        Err(e) => {
            assert_eq!(e.index, 4);
            assert!(matches!(e.token, Token::Grouping(")")));
        }
    }
}

#[test]
fn trailing_tokens_are_rejected() {
    match parse(lex("halt halt")) {
        Ok(_) => panic!("accepted"),
        Err(e) => assert_eq!(e.index, 1),
    }
}

#[test]
fn empty_input_is_rejected() {
    match parse(Vec::new()) {
        Ok(_) => panic!("accepted"),
        Err(e) => {
            assert_eq!(e.index, 0);
            assert!(matches!(e.token, Token::End("")));
        }
    }
}

#[test]
fn parsing_twice_gives_the_same_trees() {
    let src = "num a ; a := mult ( a , sub ( 3 , b ) ) ; while ( not ( a < b ) ) { input ( a ) ; f }";
    let a = parse(lex(src)).ok().unwrap();
    let b = parse(lex(src)).ok().unwrap();
    assert_eq!(render(&a), render(&b));
    assert_eq!(render(&prune(&a)), render(&prune(&b)));
}

#[test]
fn pruning_does_not_grow_the_tree() {
    for src in [
        "for ( i := 0 ; i < n ; i := add ( i , 1 ) ) { output ( i ) }",
        "x := 1 ; proc p1 { y := 2 } proc p2 { z := 3 }",
        "b := and ( eq ( x , y ) , or ( T , F ) ) ; string s ; bool c",
        "halt",
    ] {
        let cst = parse(lex(src)).ok().unwrap();
        let ast = prune(&cst);
        assert!(count(&ast) <= count(&cst), "{}", src);
    }
}

#[test]
fn concrete_shape_of_assignment() {
    let cst = parse(lex("x := y")).ok().unwrap();
    assert_eq!(
        render(&cst),
        "NonTerm(Prog)[NonTerm(Code)[NonTerm(Instr)[NonTerm(Assign)[NonTerm(Var)[Term(Name(\"x\"))], \
         Term(Assignment(\":=\")), NonTerm(Var)[Term(Name(\"y\"))]]]]]"
    );
}

#[test]
fn boolean_operators() {
    assert_eq!(
        front("b := and ( eq ( x , y ) , or ( ( x > y ) , not F ) )"),
        "Prog[Code[Assign[Var(\"b\"), AndExpr[EqExpr[Var(\"x\"), Var(\"y\")], \
         OrExpr[GreaterExpr[Var(\"x\"), Var(\"y\")], NotExpr[False]]]]]]"
    );
}

#[test]
fn declarations_and_calls() {
    assert_eq!(
        front("num a ; string s ; bool c ; f ; input ( a )"),
        "Prog[Code[NumDecl(\"a\"), StrDecl(\"s\"), BoolDecl(\"c\"), Call(\"f\"), Input[Var(\"a\")]]]"
    );
}

#[test]
fn arithmetic_nesting() {
    assert_eq!(
        front("a := sub ( mult ( 2 , b ) , 7 )"),
        "Prog[Code[Assign[Var(\"a\"), SubExpr[MultExpr[Number(\"2\"), Var(\"b\")], Number(\"7\")]]]]"
    );
}

#[test]
fn while_loop_and_bare_condition() {
    assert_eq!(
        front("while ( c ) { halt ; halt }"),
        "Prog[Code[WhileLoop[Var(\"c\"), Code[Halt, Halt]]]]"
    );
}

#[test]
fn token_of_rule_node_is_empty() {
    let cst = parse(lex("halt")).ok().unwrap();
    assert_eq!(cst.token(), "");
    assert_eq!(cst.children[0].children[0].children[0].token(), "halt");
}

#[test]
fn known_keywords_are_prunable() {
    let cst = parse(lex("num a ; a := add ( a , 1 ) ; s := \"x\" ; if ( eq ( a , b ) ) then { output ( a ) }")).ok().unwrap();
    assert!(prunable(&cst));
}

#[test]
fn unknown_type_keyword_is_not_prunable() {
    let cst = parse(vec![Token::Type("int"), Token::Name("x")]).ok().unwrap();
    assert!(!prunable(&cst));
}

#[test]
fn unknown_operator_is_not_prunable() {
    let toks = vec![
        Token::Name("a"),
        Token::Assignment(":="),
        Token::Arithmetic("div"),
        Token::Grouping("("),
        Token::Number("1"),
        Token::Grouping(","),
        Token::Number("2"),
        Token::Grouping(")"),
    ];
    let cst = parse(toks).ok().unwrap();
    assert!(!prunable(&cst));
}

#[test]
fn unquoted_string_is_not_prunable() {
    assert!(!prunable(&leaf(Token::String("x"))));
    assert!(prunable(&leaf(Token::String("\"\""))));
}
