use std::collections::VecDeque;

use toplevel::ast::{Constant, Fixity, ParserError, Term, FX, XFX, XFY, YFX};
use toplevel::batch::consume_term;
use toplevel::code::{ClauseType, CodeCells, CodeIndex, CompositeIndices, IndexStore};
use toplevel::predicates::{
    append_preds, deque_to_packet, is_bodiless_hook, is_consistent, is_term_expansion,
    merge_clauses, setup_fact,
};
use toplevel::program::{
    CompileTimeHook, Declaration, Predicate, PredicateClause, QueryTerm, TopLevel, TopLevelPacket,
};
use toplevel::reader::{are_operators, parse_term, DoubleQuotes, MachineFlags, OpEntry};
use toplevel::relation::RelationWorker;

fn store() -> IndexStore {
    let mut indices = IndexStore::new();
    let ops = [
        (":-", Fixity::In, XFX, 1200),
        (":-", Fixity::Pre, FX, 1200),
        ("?-", Fixity::Pre, FX, 1200),
        (";", Fixity::In, XFY, 1100),
        ("->", Fixity::In, XFY, 1050),
        ("=", Fixity::In, XFX, 700),
        ("/", Fixity::In, YFX, 400),
        (":", Fixity::In, XFY, 200),
    ];
    for (name, fixity, specifier, precedence) in ops.iter() {
        indices.op_dir.push(OpEntry {
            name: name.to_string(),
            fixity: *fixity,
            specifier: *specifier,
            precedence: *precedence,
        });
    }
    indices
}

fn read(text: &str) -> Term {
    let flags = MachineFlags { double_quotes: DoubleQuotes::Chars };
    match parse_term(&store(), flags, text.as_bytes()) {
        Ok(term) => term,
        Err(e) => panic!("{}: {:?}", text, e),
    }
}

fn consume(text: &str) -> Result<TopLevelPacket, ParserError> {
    consume_term(read(text), &mut store(), &mut CodeCells::new())
}

fn var_names(terms: &[Term]) -> Vec<String> {
    terms
        .iter()
        .map(|term| match term {
            Term::Var(name) => name.clone(),
            other => panic!("{:?}", other),
        })
        .collect()
}

fn goal_name(goal: &QueryTerm) -> String {
    match goal {
        QueryTerm::Clause(ClauseType::Named(name, _), _, _) => name.clone(),
        QueryTerm::Clause(ClauseType::Op(name, _, _), _, _) => name.clone(),
        QueryTerm::Clause(_, _, _) => String::from("call"),
        QueryTerm::BlockedCut => String::from("blocked"),
        QueryTerm::UnblockedCut => String::from("unblocked"),
        QueryTerm::GetLevelAndUnify(_) => String::from("level"),
        QueryTerm::Jump(vars) => format!("jump({})", var_names(vars).join(",")),
    }
}

/// A clause as its name, its arguments and its goals.
fn clause_text(clause: &PredicateClause) -> String {
    match clause {
        PredicateClause::Fact(term) => format!("fact {:?}/{}", term.name(), term.arity()),
        PredicateClause::Rule(rule) => {
            let mut goals = vec![goal_name(&rule.head.2)];
            goals.extend(rule.clauses.iter().map(goal_name));
            format!("{}/{} :- {}", rule.head.0, rule.head.1.len(), goals.join(" "))
        }
    }
}

fn predicate_texts(tl: &TopLevel) -> Vec<String> {
    match tl {
        TopLevel::Predicate(Predicate(clauses)) => clauses.iter().map(clause_text).collect(),
        other => panic!("{:?}", other),
    }
}

fn rule_of(text: &str) -> (String, Vec<Vec<String>>) {
    match consume(text) {
        Ok(TopLevelPacket::Decl(TopLevel::Rule(rule), queue)) => (
            clause_text(&PredicateClause::Rule(rule)),
            queue.iter().map(predicate_texts).collect(),
        ),
        other => panic!("{:?}", other),
    }
}

#[test]
fn a_fact_is_a_compound_term_or_an_atom() {
    assert!(setup_fact(read("p(X).")).is_ok());
    assert!(setup_fact(read("p.")).is_ok());
    for text in ["X.", "1.", "[].", "[a].", "'c'."].iter() {
        assert_eq!(setup_fact(read(text)).err(), Some(ParserError::InadmissibleFact));
        assert_eq!(consume(text).err(), Some(ParserError::InadmissibleFact));
    }
    match consume("p(a).") {
        Ok(TopLevelPacket::Decl(TopLevel::Fact(term), queue)) => {
            assert_eq!(term.name().map(|name| name.as_str()), Some("p"));
            assert_eq!(term.arity(), 1);
            assert!(queue.is_empty());
        }
        other => panic!("{:?}", other),
    }
}

#[test]
fn a_plain_rule_has_its_goals_in_order() {
    let (rule, queue) = rule_of("p(X, Y) :- q(X), r, !, s(Y).");
    assert_eq!(rule, "p/2 :- q r blocked s");
    assert!(queue.is_empty());
}

#[test]
fn a_rule_head_is_a_compound_term_or_an_atom() {
    assert_eq!(rule_of("p :- q.").0, "p/0 :- q");
    for text in ["X :- a.", "1 :- a.", "[a] :- a."].iter() {
        assert_eq!(consume(text).err(), Some(ParserError::InvalidRuleHead));
    }
    assert_eq!(consume("p :- 1.").err(), Some(ParserError::InadmissibleQueryTerm));
    assert_eq!(consume("X :- 1.").err(), Some(ParserError::InadmissibleQueryTerm));
}

#[test]
fn a_disjunction_is_split_off() {
    let (rule, queue) = rule_of("p(X) :- (q(X), ! ; r(Y), s).");
    assert_eq!(rule, "p/1 :- jump(X,Y,!)");
    assert_eq!(queue, vec![vec!["/3 :- q unblocked", "/3 :- r s"]]);
}

#[test]
fn a_disjunction_that_ends_in_a_cut_hands_the_cut_variable_over_twice() {
    let (rule, queue) = rule_of("p :- (q(X) ; !).");
    assert_eq!(rule, "p/0 :- jump(X,!,!)");
    assert_eq!(queue, vec![vec!["/3 :- q", "/3 :- unblocked"]]);
}

#[test]
fn an_if_then_that_is_the_whole_body_stays_in_it() {
    let (rule, queue) = rule_of("p :- q, r -> s, !, t.");
    assert_eq!(rule, "p/0 :- q r blocked s blocked t");
    assert!(queue.is_empty());
}

#[test]
fn an_if_then_among_goals_is_split_off() {
    let (rule, queue) = rule_of("p :- a, (q(X), ! -> s(Y), !), b.");
    assert_eq!(rule, "p/0 :- a jump(X,Y,!) b");
    assert_eq!(queue, vec![vec!["/3 :- q blocked blocked s unblocked"]]);
}

#[test]
fn an_if_then_in_an_alternative_stays_in_its_clause() {
    let (rule, queue) = rule_of("p :- (a -> b, ! ; c).");
    assert_eq!(rule, "p/0 :- jump(!)");
    assert_eq!(queue, vec![vec!["/1 :- a blocked b unblocked", "/1 :- c"]]);
}

#[test]
fn jumps_and_predicates_come_in_the_same_order() {
    let (rule, queue) = rule_of("p :- (a(A) ; (b(B) ; c), x), (d(D) ; (e(E) ; f), y).");
    assert_eq!(rule, "p/0 :- jump(A,B,!) jump(D,E,!)");
    assert_eq!(
        queue,
        vec![
            vec!["/3 :- a", "/3 :- jump(B,!) x"],
            vec!["/3 :- d", "/3 :- jump(E,!) y"],
            vec!["/2 :- b", "/2 :- c"],
            vec!["/2 :- e", "/2 :- f"],
        ],
    );
}

#[test]
fn a_query_keeps_its_cuts_blocked() {
    match consume("?- a, !, (b ; c).") {
        Ok(TopLevelPacket::Query(goals, queue)) => {
            let names: Vec<String> = goals.iter().map(goal_name).collect();
            assert_eq!(names, vec!["a", "blocked", "jump(!)"]);
            assert_eq!(queue.len(), 1);
            assert_eq!(predicate_texts(&queue[0]), vec!["/1 :- b", "/1 :- c"]);
        }
        other => panic!("{:?}", other),
    }
    assert_eq!(consume("?- [a].").err(), Some(ParserError::InadmissibleQueryTerm));
    assert_eq!(consume("?- (a ; 1).").err(), Some(ParserError::InadmissibleQueryTerm));
}

#[test]
fn a_directive_is_a_declaration() {
    match consume(":- op(700, xfx, is).") {
        Ok(TopLevelPacket::Decl(TopLevel::Declaration(Declaration::Op(decl)), queue)) => {
            assert_eq!((decl.0, decl.1, decl.2.as_str()), (700, XFX, "is"));
            assert!(queue.is_empty());
        }
        other => panic!("{:?}", other),
    }
    assert_eq!(consume(":- foo.").err(), Some(ParserError::InconsistentEntry));
}

#[test]
fn an_operator_that_was_declared_can_be_read() {
    let flags = MachineFlags { double_quotes: DoubleQuotes::Chars };
    let mut indices = store();
    assert!(parse_term(&indices, flags, b"p :- X is Y.").is_err());
    match consume(":- op(700, xfx, is).") {
        Ok(TopLevelPacket::Decl(TopLevel::Declaration(Declaration::Op(decl)), _)) => {
            indices.op_dir.push(OpEntry {
                name: decl.2,
                fixity: Fixity::In,
                specifier: decl.1,
                precedence: decl.0,
            });
        }
        other => panic!("{:?}", other),
    }
    assert!(are_operators(&indices.op_dir));
    assert!(parse_term(&indices, flags, b"p :- X is Y.").is_ok());
}

#[test]
fn a_fact_changes_nothing() {
    let mut indices = store();
    let mut cells = CodeCells::new();
    assert!(consume_term(read("p(q, r)."), &mut indices, &mut cells).is_ok());
    assert_eq!(indices.code_dir.get(&String::from("p"), 2), None);
    assert!(cells.get(CodeIndex(0)).is_none());
}

#[test]
fn a_hook_takes_its_predicates_along() {
    match consume("term_expansion(A, B) :- (p(A) ; q(B)).") {
        Ok(TopLevelPacket::Decl(
            TopLevel::Declaration(Declaration::Hook(hook, clause, own)),
            queue,
        )) => {
            assert_eq!(hook, CompileTimeHook::TermExpansion);
            assert_eq!(clause_text(&clause), "term_expansion/2 :- jump(A,B,!)");
            assert_eq!(own.len(), 1);
            assert_eq!(predicate_texts(&own[0]), vec!["/3 :- p", "/3 :- q"]);
            assert!(queue.is_empty());
        }
        other => panic!("{:?}", other),
    }
    match consume("term_expansion(a, b).") {
        Ok(TopLevelPacket::Decl(TopLevel::Declaration(Declaration::Hook(_, clause, own)), _)) => {
            assert!(matches!(clause, PredicateClause::Fact(_)));
            assert!(own.is_empty());
        }
        other => panic!("{:?}", other),
    }
}

#[test]
fn a_hook_that_is_none_is_refused() {
    let mut local = store();
    let mut cells = CodeCells::new();
    let mut indices =
        CompositeIndices { local: &mut local, static_code_dir: None, cells: &mut cells };
    let mut worker = RelationWorker::new();
    for text in ["p(a).", "p.", "X."].iter() {
        assert_eq!(
            worker.setup_hook(&mut indices, read(text)).err(),
            Some(ParserError::InvalidHook),
        );
    }
}

#[test]
fn clauses_of_the_hook_are_recognised() {
    let test = |text: &str| match read(text) {
        Term::Clause(name, terms, _) => is_term_expansion(&name, &terms),
        _ => false,
    };
    assert!(test("term_expansion(a, b)."));
    assert!(test("term_expansion(a, b) :- c."));
    assert!(!test("term_expansion(a)."));
    assert!(!test("term_expansion(a) :- c."));
    assert!(!test("p(term_expansion(a, b))."));
    assert!(is_bodiless_hook(&read(":- term_expansion(a, b).")));
    assert!(!is_bodiless_hook(&read("term_expansion(a, b) :- c.")));
    assert!(!is_bodiless_hook(&read("term_expansion(a, b).")));
    assert!(!is_bodiless_hook(&read(":- p(a, b).")));
    assert!(!is_bodiless_hook(&read("p.")));
}

fn fact(text: &str) -> TopLevel {
    TopLevel::Fact(read(text))
}

fn declaration() -> TopLevel {
    TopLevel::Declaration(Declaration::UseModule(String::from("lists")))
}

#[test]
fn clauses_belong_together_by_name_and_arity() {
    let clauses = vec![PredicateClause::Fact(read("p(a)."))];
    assert!(is_consistent(&fact("p(b)."), &clauses));
    assert!(!is_consistent(&fact("p(b, c)."), &clauses));
    assert!(!is_consistent(&fact("q(b)."), &clauses));
    assert!(!is_consistent(&declaration(), &clauses));
    assert!(is_consistent(&declaration(), &vec![]));
}

#[test]
fn clauses_of_one_predicate_are_merged() {
    let more = TopLevel::Predicate(Predicate(vec![
        PredicateClause::Fact(read("p(c).")),
        PredicateClause::Fact(read("p(d).")),
    ]));
    let mut tls =
        VecDeque::from(vec![fact("p(a)."), fact("p(b)."), more, fact("q."), fact("p(e).")]);
    match merge_clauses(&mut tls) {
        Ok(TopLevel::Predicate(Predicate(clauses))) => assert_eq!(clauses.len(), 4),
        other => panic!("{:?}", other),
    }
    assert_eq!(tls.len(), 2);
    assert_eq!(tls[0].name().map(|name| name.as_str()), Some("q"));
    assert_eq!(tls[1].arity(), 1);
}

#[test]
fn declarations_and_queries_are_not_merged() {
    let mut tls = VecDeque::from(vec![declaration(), fact("p.")]);
    assert!(matches!(merge_clauses(&mut tls), Ok(TopLevel::Declaration(_))));
    assert_eq!(tls.len(), 1);

    let mut tls = VecDeque::from(vec![fact("p."), declaration()]);
    assert!(matches!(merge_clauses(&mut tls), Ok(TopLevel::Predicate(_))));
    assert_eq!(tls.len(), 1);

    let mut tls = VecDeque::from(vec![TopLevel::Query(vec![])]);
    assert!(matches!(merge_clauses(&mut tls), Ok(TopLevel::Query(_))));

    let mut tls = VecDeque::from(vec![TopLevel::Query(vec![]), fact("p.")]);
    assert_eq!(merge_clauses(&mut tls).err(), Some(ParserError::InconsistentEntry));
    assert_eq!(tls.len(), 1);

    let mut tls = VecDeque::from(vec![fact("p."), TopLevel::Query(vec![])]);
    assert_eq!(merge_clauses(&mut tls).err(), Some(ParserError::InconsistentEntry));

    assert_eq!(merge_clauses(&mut VecDeque::new()).err(), Some(ParserError::InconsistentEntry));
}

#[test]
fn clauses_are_taken_whole() {
    let mut preds = vec![PredicateClause::Fact(read("p.")), PredicateClause::Fact(read("p."))];
    assert_eq!(append_preds(&mut preds).0.len(), 2);
    assert!(preds.is_empty());
}

#[test]
fn a_packet_tells_a_query_from_the_rest() {
    assert!(matches!(
        deque_to_packet(TopLevel::Query(vec![QueryTerm::BlockedCut]), VecDeque::new()),
        TopLevelPacket::Query(goals, queue) if goals.len() == 1 && queue.is_empty()
    ));
    let queue = VecDeque::from(vec![fact("q.")]);
    assert!(matches!(
        deque_to_packet(fact("p."), queue),
        TopLevelPacket::Decl(TopLevel::Fact(_), queue) if queue.len() == 1
    ));
}

#[test]
fn what_was_split_off_waits_until_it_is_translated() {
    let mut local = store();
    let mut cells = CodeCells::new();
    let mut indices =
        CompositeIndices { local: &mut local, static_code_dir: None, cells: &mut cells };
    let mut worker = RelationWorker::new();
    let mut other = RelationWorker::new();
    let terms = VecDeque::from(vec![read("p :- (a ; b)."), read("q.")]);
    match worker.try_terms_to_tls(&mut indices, terms, true) {
        Ok(tls) => assert_eq!(tls.len(), 2),
        Err(e) => panic!("{:?}", e),
    }
    assert!(other.try_term_to_tl(&mut indices, read("r :- (c ; d ; e)."), true).is_ok());
    worker.absorb(other);

    let queue = worker.parse_queue(&mut indices).unwrap();
    assert_eq!(queue.len(), 2);
    assert_eq!(predicate_texts(&queue[0]), vec!["/1 :- a", "/1 :- b"]);
    assert_eq!(predicate_texts(&queue[1]), vec!["/1 :- c", "/1 :- d", "/1 :- e"]);
    assert!(worker.parse_queue(&mut indices).unwrap().is_empty());
}

#[test]
fn goals_of_one_predicate_share_their_cell() {
    let mut indices = store();
    let mut cells = CodeCells::new();
    match consume_term(read("p :- q, r, q, lists:q(X)."), &mut indices, &mut cells) {
        Ok(TopLevelPacket::Decl(TopLevel::Rule(rule), _)) => {
            let mut found = Vec::new();
            for goal in std::iter::once(&rule.head.2).chain(rule.clauses.iter()) {
                match goal {
                    QueryTerm::Clause(ClauseType::Named(_, index), _, _) => found.push(*index),
                    other => panic!("{:?}", other),
                }
            }
            assert_eq!(found, vec![CodeIndex(0), CodeIndex(1), CodeIndex(0), CodeIndex(2)]);
        }
        other => panic!("{:?}", other),
    }
    assert_eq!(indices.code_dir.get(&String::from("q"), 0), Some(CodeIndex(0)));
    assert_eq!(indices.code_dir.get(&String::from("q"), 1), None);
    assert_eq!(indices.op_dir.len(), 8);
    let atom = Term::Constant(Constant::Atom(String::from("r"), None));
    assert!(consume_term(atom, &mut indices, &mut cells).is_ok());
    assert_eq!(indices.code_dir.get(&String::from("r"), 0), Some(CodeIndex(1)));
}
