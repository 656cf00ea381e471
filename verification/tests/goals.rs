use toplevel::ast::{Constant, Fixity, ParserError, Term};
use toplevel::code::{
    BuiltInClauseType, ClauseForm, ClauseType, CodeCells, CodeDir, CodeIndex, CompositeIndices,
    IndexPtr, IndexStore,
};
use toplevel::goals::{
    fold_by_str, head_variables, mark_cut_variable, mark_cut_variables, mark_cut_variables_as,
    unfold_by_str, unfold_by_str_once,
};
use toplevel::program::QueryTerm;
use toplevel::relation::{module_resolution_call, RelationWorker};

fn atom(name: &str) -> Term {
    Term::Constant(Constant::Atom(name.to_string(), None))
}

fn var(name: &str) -> Term {
    Term::Var(name.to_string())
}

fn clause(name: &str, args: Vec<Term>) -> Term {
    Term::Clause(name.to_string(), args, None)
}

fn infix(name: &str, left: Term, right: Term) -> Term {
    Term::Clause(name.to_string(), vec![left, right], Some(Fixity::In))
}

fn shown(terms: &[Term]) -> Vec<String> {
    terms.iter().map(|term| format!("{:?}", term)).collect()
}

fn names(terms: &[Term]) -> Vec<String> {
    terms
        .iter()
        .map(|term| match term {
            Term::Var(name) => name.clone(),
            other => panic!("{:?}", other),
        })
        .collect()
}

#[test]
fn a_conjunction_unfolds_to_the_right() {
    let term = infix(",", infix(",", atom("a"), atom("b")), infix(",", atom("c"), atom("d")));
    let goals = unfold_by_str(term, ",");
    assert_eq!(
        shown(&goals),
        shown(&[infix(",", atom("a"), atom("b")), atom("c"), atom("d")]),
    );
}

#[test]
fn other_terms_unfold_to_themselves() {
    assert_eq!(shown(&unfold_by_str(atom("a"), ",")), shown(&[atom("a")]));
    let unary = clause(",", vec![atom("a")]);
    assert_eq!(shown(&unfold_by_str(unary.clone(), ",")), shown(&[unary]));
    let or = infix(";", atom("a"), atom("b"));
    assert_eq!(shown(&unfold_by_str(or.clone(), ",")), shown(&[or]));
}

#[test]
fn one_operator_is_taken_off() {
    let mut term = infix("->", atom("a"), atom("b"));
    match unfold_by_str_once(&mut term, "->") {
        Some((fst, snd)) => assert_eq!(shown(&[fst, snd]), shown(&[atom("a"), atom("b")])),
        None => panic!("nothing came off"),
    }
    let mut other = infix(";", atom("a"), atom("b"));
    assert!(unfold_by_str_once(&mut other, "->").is_none());
    assert_eq!(shown(&[other]), shown(&[infix(";", atom("a"), atom("b"))]));
}

#[test]
fn what_was_folded_unfolds_again() {
    let folded = fold_by_str(vec![atom("a"), atom("b")], infix(",", atom("c"), atom("d")), ",");
    assert_eq!(
        shown(&unfold_by_str(folded, ",")),
        shown(&[atom("a"), atom("b"), atom("c"), atom("d")]),
    );
    assert_eq!(shown(&[fold_by_str(vec![], atom("a"), ",")]), shown(&[atom("a")]));
}

#[test]
fn cuts_are_marked_once() {
    let mut goals = vec![atom("!"), atom("a"), atom("!")];
    assert!(mark_cut_variables(&mut goals));
    assert_eq!(shown(&goals), shown(&[var("!"), atom("a"), var("!")]));
    assert!(!mark_cut_variables(&mut goals));
    assert_eq!(shown(&goals), shown(&[var("!"), atom("a"), var("!")]));
}

#[test]
fn the_last_goal_decides_whether_a_cut_was_found() {
    let mut goals = vec![atom("!"), atom("a")];
    assert!(!mark_cut_variables(&mut goals));
    assert_eq!(shown(&goals), shown(&[var("!"), atom("a")]));
    let mut goal = atom("b");
    assert!(!mark_cut_variable(&mut goal));
    let mut cut = Term::Constant(Constant::Atom(String::from("!"), Some(Fixity::Pre)));
    assert!(mark_cut_variable(&mut cut));
    assert_eq!(shown(&[cut]), shown(&[var("!")]));
}

#[test]
fn cuts_are_renamed() {
    let mut goals = vec![atom("!"), atom("a"), var("!")];
    mark_cut_variables_as(&mut goals, "blocked_!");
    assert_eq!(shown(&goals), shown(&[atom("blocked_!"), atom("a"), var("!")]));
}

#[test]
fn a_head_has_each_variable_once_and_the_cut_variable() {
    let body = infix(
        ",",
        clause("p", vec![var("X"), Term::AnonVar, var("Y")]),
        clause("q", vec![Term::Cons(Box::new(var("Y")), Box::new(var("Z"))), var("X")]),
    );
    assert_eq!(names(&head_variables(&body)), vec!["X", "Y", "Z", "!"]);
    assert_eq!(names(&head_variables(&atom("a"))), vec!["!"]);
    assert_eq!(names(&head_variables(&infix(",", var("!"), var("A")))), vec!["!", "A"]);
}

fn goal(term: Term) -> Result<QueryTerm, ParserError> {
    let mut local = IndexStore::new();
    let mut cells = CodeCells::new();
    let mut indices =
        CompositeIndices { local: &mut local, static_code_dir: None, cells: &mut cells };
    RelationWorker::new().pre_query_term(&mut indices, term)
}

#[test]
fn cuts_are_blocked_or_not() {
    assert!(matches!(goal(atom("!")), Ok(QueryTerm::BlockedCut)));
    assert!(matches!(goal(atom("blocked_!")), Ok(QueryTerm::BlockedCut)));
    assert!(matches!(goal(var("!")), Ok(QueryTerm::UnblockedCut)));
}

#[test]
fn a_variable_is_called() {
    match goal(var("G")) {
        Ok(QueryTerm::Clause(ClauseType::CallN, args, false)) => {
            assert_eq!(shown(&args), shown(&[var("G")]));
        }
        other => panic!("{:?}", other),
    }
}

#[test]
fn a_goal_is_named_or_an_operator() {
    match goal(clause("p", vec![atom("a")])) {
        Ok(QueryTerm::Clause(ClauseType::Named(name, CodeIndex(0)), args, false)) => {
            assert_eq!(name, "p");
            assert_eq!(shown(&args), shown(&[atom("a")]));
        }
        other => panic!("{:?}", other),
    }
    assert!(matches!(
        goal(infix("=", var("X"), var("Y"))),
        Ok(QueryTerm::Clause(ClauseType::Op(name, Fixity::In, CodeIndex(0)), _, false))
            if name == "="
    ));
}

#[test]
fn the_default_policy_is_asked_for() {
    assert!(matches!(
        goal(clause("$call_with_default_policy", vec![atom("p")])),
        Ok(QueryTerm::Clause(ClauseType::Named(name, _), _, true)) if name == "p"
    ));
    assert!(matches!(
        goal(clause("$call_with_default_policy", vec![atom("!")])),
        Ok(QueryTerm::BlockedCut)
    ));
    assert_eq!(
        goal(clause("$call_with_default_policy", vec![Term::AnonVar])).err(),
        Some(ParserError::InadmissibleQueryTerm),
    );
}

#[test]
fn a_level_goes_into_a_variable() {
    assert!(matches!(
        goal(clause("$get_level", vec![var("B")])),
        Ok(QueryTerm::GetLevelAndUnify(name)) if name == "B"
    ));
    assert_eq!(
        goal(clause("$get_level", vec![atom("b")])).err(),
        Some(ParserError::InadmissibleQueryTerm),
    );
}

#[test]
fn a_partial_string_takes_a_string_and_a_variable() {
    let string = || Term::Constant(Constant::String(String::from("ab")));
    assert!(matches!(
        goal(clause("partial_string", vec![string(), var("X")])),
        Ok(QueryTerm::Clause(
            ClauseType::BuiltIn(BuiltInClauseType::PartialString),
            args,
            false,
        )) if args.len() == 2
    ));
    for args in vec![vec![string(), string()], vec![var("X"), var("Y")]] {
        assert_eq!(
            goal(clause("partial_string", args)).err(),
            Some(ParserError::InadmissibleQueryTerm),
        );
    }
}

#[test]
fn what_is_no_goal_is_inadmissible() {
    let bad = vec![
        Term::AnonVar,
        Term::Constant(Constant::EmptyList),
        Term::Constant(Constant::Char('a')),
        Term::Cons(Box::new(atom("a")), Box::new(atom("b"))),
    ];
    for term in bad {
        assert_eq!(goal(term).err(), Some(ParserError::InadmissibleQueryTerm));
    }
}

#[test]
fn a_module_resolves_its_goal() {
    let mut cells = CodeCells::new();
    match module_resolution_call(atom("lists"), clause("p", vec![var("X")]), &mut cells) {
        Ok(QueryTerm::Clause(ClauseType::Named(name, index), args, false)) => {
            assert_eq!(name, "p");
            assert_eq!(args.len(), 1);
            let (ptr, module) = cells.get(index).unwrap();
            assert_eq!((ptr, module.as_str()), (IndexPtr::Module, "lists"));
        }
        other => panic!("{:?}", other),
    }
    for (module, body) in vec![(var("M"), clause("p", vec![])), (atom("m"), atom("p"))] {
        assert_eq!(
            goal(infix(":", module, body)).err(),
            Some(ParserError::InvalidModuleResolution),
        );
    }
}

#[test]
fn a_predicate_keeps_its_index() {
    let mut local = IndexStore::new();
    let mut behind = CodeDir::new();
    let mut cells = CodeCells::new();
    let shared = cells.allocate(IndexPtr::Index(7), String::from("lists"));
    behind.insert(String::from("append"), 3, shared);
    local.forms.insert(String::from("call"), 1, ClauseForm::CallN);

    let mut indices = CompositeIndices {
        local: &mut local,
        static_code_dir: Some(&behind),
        cells: &mut cells,
    };
    let p = indices.get_code_index(String::from("p"), 1);
    assert_eq!(indices.get_code_index(String::from("p"), 1), p);
    assert_ne!(indices.get_code_index(String::from("p"), 2), p);
    assert_eq!(indices.get_code_index(String::from("append"), 3), shared);
    assert!(matches!(
        indices.get_clause_type(String::from("call"), 1, None),
        ClauseType::CallN
    ));

    assert_eq!(local.code_dir.get(&String::from("append"), 3), Some(shared));
    assert_eq!(local.code_dir.get(&String::from("call"), 1), None);
    assert!(matches!(cells.get(p), Some((IndexPtr::Undefined, module)) if module.is_empty()));
    assert!(matches!(cells.get(shared), Some((IndexPtr::Index(7), _))));
    assert!(cells.get(CodeIndex(3)).is_none());
}

#[test]
fn the_own_directory_comes_first() {
    let mut local = IndexStore::new();
    let mut behind = CodeDir::new();
    let mut cells = CodeCells::new();
    let own = cells.allocate(IndexPtr::Undefined, String::new());
    let other = cells.allocate(IndexPtr::Undefined, String::new());
    local.code_dir.insert(String::from("p"), 0, own);
    behind.insert(String::from("p"), 0, other);
    let mut indices = CompositeIndices {
        local: &mut local,
        static_code_dir: Some(&behind),
        cells: &mut cells,
    };
    assert_eq!(indices.get_code_index(String::from("p"), 0), own);
}
