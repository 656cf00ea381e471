use toplevel::ast::{Fixity, ParserError, Term, FX, XFX, XFY};
use toplevel::batch::{Progress, SessionError, TopLevelBatchWorker};
use toplevel::code::{ClauseType, CodeCells, CodeDir, CodeIndex, IndexPtr, IndexStore};
use toplevel::program::{Declaration, PredicateClause, QueryTerm, TopLevel};
use toplevel::reader::{parse_term, DoubleQuotes, MachineFlags, OpEntry};

fn store() -> IndexStore {
    let mut indices = IndexStore::new();
    let ops = [
        (":-", Fixity::In, XFX, 1200),
        (":-", Fixity::Pre, FX, 1200),
        ("?-", Fixity::Pre, FX, 1200),
        (";", Fixity::In, XFY, 1100),
    ];
    for (name, fixity, specifier, precedence) in ops.iter() {
        indices.op_dir.push(OpEntry {
            name: name.to_string(),
            fixity: *fixity,
            specifier: *specifier,
            precedence: *precedence,
        });
    }
    indices
}

fn read(text: &str) -> Term {
    let flags = MachineFlags { double_quotes: DoubleQuotes::Chars };
    match parse_term(&store(), flags, text.as_bytes()) {
        Ok(term) => term,
        Err(e) => panic!("{}: {:?}", text, e),
    }
}

struct Session {
    worker: TopLevelBatchWorker,
    indices: IndexStore,
    behind: CodeDir,
    cells: CodeCells,
}

impl Session {
    fn new() -> Self {
        Session {
            worker: TopLevelBatchWorker::new(),
            indices: store(),
            behind: CodeDir::new(),
            cells: CodeCells::new(),
        }
    }

    fn step(&mut self, item: Result<Option<Term>, ParserError>) -> Result<Progress, SessionError> {
        self.worker.consume(item, &mut self.indices, &self.behind, &mut self.cells)
    }

    fn term(&mut self, text: &str) -> Result<Progress, SessionError> {
        self.step(Ok(Some(read(text))))
    }

    fn eof(&mut self) -> Result<Progress, SessionError> {
        self.step(Ok(None))
    }

    /// The complete predicates: name, number of clauses, number of predicates split off.
    fn results(&self) -> Vec<(String, usize, usize)> {
        self.worker
            .results
            .iter()
            .map(|(pred, queue)| {
                let name = pred.0[0].name().cloned().unwrap_or_default();
                (name, pred.0.len(), queue.len())
            })
            .collect()
    }
}

fn result(name: &str, clauses: usize, split: usize) -> (String, usize, usize) {
    (name.to_string(), clauses, split)
}

#[test]
fn nothing_was_read_at_first() {
    let worker = TopLevelBatchWorker::new();
    assert!(worker.results.is_empty());
    assert!(worker.preds.is_empty());
    assert!(!worker.in_module);
}

#[test]
fn clauses_in_a_row_make_up_a_predicate() {
    let mut session = Session::new();
    for text in ["p(a).", "p(X) :- q(X).", "p(c).", "p(a, b).", "q(a).", "p(d)."].iter() {
        assert!(matches!(session.term(text), Ok(Progress::More)));
    }
    assert_eq!(session.results(), vec![result("p", 3, 0), result("p", 1, 0), result("q", 1, 0)]);
    assert!(matches!(session.eof(), Ok(Progress::Finished)));
    assert_eq!(session.results()[3], result("p", 1, 0));
    assert!(session.worker.preds.is_empty());
}

#[test]
fn no_clause_is_lost() {
    let mut session = Session::new();
    let texts = ["a.", "a.", "b.", ":- use_module(library(lists)).", "a.", "c(1).", "c(2)."];
    for text in texts.iter() {
        assert!(session.term(text).is_ok());
    }
    assert!(session.eof().is_ok());
    let total: usize = session.results().iter().map(|result| result.1).sum();
    assert_eq!(total, 6);
    assert_eq!(session.results().len(), 4);
}

#[test]
fn an_empty_file_is_finished() {
    let mut session = Session::new();
    assert!(matches!(session.eof(), Ok(Progress::Finished)));
    assert!(session.results().is_empty());
}

#[test]
fn a_declaration_completes_what_came_before() {
    let mut session = Session::new();
    assert!(session.term("p(a).").is_ok());
    match session.term(":- use_module(library(lists)).") {
        Ok(Progress::Declaration(Declaration::UseModule(name))) => assert_eq!(name, "lists"),
        other => panic!("{:?}", other),
    }
    assert_eq!(session.results(), vec![result("p", 1, 0)]);
    assert!(session.term("p(b).").is_ok());
    assert!(session.eof().is_ok());
    assert_eq!(session.results(), vec![result("p", 1, 0), result("p", 1, 0)]);
}

#[test]
fn a_query_defines_nothing() {
    let mut session = Session::new();
    assert!(session.term("p(a).").is_ok());
    assert_eq!(session.term("?- p(X).").err(), Some(SessionError::NamelessEntry));
    assert_eq!(session.results(), vec![result("p", 1, 0)]);
}

#[test]
fn what_is_split_off_stands_with_its_predicate() {
    let mut session = Session::new();
    for text in ["p :- (a ; b).", "p :- (c ; (d ; e), f).", "q :- (g ; h).", "r."].iter() {
        assert!(session.term(text).is_ok());
    }
    assert!(session.eof().is_ok());
    assert_eq!(session.results(), vec![result("p", 2, 3), result("q", 1, 1), result("r", 1, 0)]);
    match &session.worker.results[0].1[2] {
        TopLevel::Predicate(pred) => assert_eq!(pred.0.len(), 2),
        other => panic!("{:?}", other),
    }
}

#[test]
fn a_term_that_is_nothing_ends_it() {
    let mut session = Session::new();
    assert!(session.term("p(a).").is_ok());
    assert_eq!(
        session.term("X.").err(),
        Some(SessionError::ParserError(ParserError::InadmissibleFact)),
    );
    assert!(session.worker.preds.is_empty());
    assert!(session.results().is_empty());
}

#[test]
fn a_goal_that_is_none_is_found_when_the_predicate_is_complete() {
    let mut session = Session::new();
    assert!(session.term("p :- (a ; 1).").is_ok());
    assert_eq!(
        session.eof().err(),
        Some(SessionError::ParserError(ParserError::InadmissibleQueryTerm)),
    );
    assert!(session.results().is_empty());

    let mut session = Session::new();
    assert!(session.term("p :- (a ; 1).").is_ok());
    assert_eq!(
        session.term("q.").err(),
        Some(SessionError::ParserError(ParserError::InadmissibleQueryTerm)),
    );
    assert!(session.results().is_empty());
}

#[test]
fn a_read_error_ends_it() {
    let mut session = Session::new();
    assert!(session.term("p(a).").is_ok());
    assert_eq!(
        session.step(Err(ParserError::MissingQuote)).err(),
        Some(SessionError::ParserError(ParserError::MissingQuote)),
    );
    assert!(session.worker.preds.is_empty());
}

#[test]
fn a_module_has_no_directory_behind_it() {
    for in_module in [false, true].iter() {
        let mut session = Session::new();
        let shared = session.cells.allocate(IndexPtr::Index(3), String::from("lists"));
        session.behind.insert(String::from("q"), 0, shared);
        session.worker.in_module = *in_module;
        assert!(session.term("p :- q.").is_ok());
        assert!(session.eof().is_ok());
        let expected = if *in_module { CodeIndex(1) } else { shared };
        match &session.worker.results[0].0 .0[0] {
            PredicateClause::Rule(rule) => match &rule.head.2 {
                QueryTerm::Clause(ClauseType::Named(_, index), _, _) => {
                    assert_eq!(*index, expected);
                }
                other => panic!("{:?}", other),
            },
            other => panic!("{:?}", other),
        }
        assert_eq!(session.indices.code_dir.get(&String::from("q"), 0), Some(expected));
    }
}

#[test]
fn neighbours_differ() {
    let mut session = Session::new();
    for text in ["p(a).", "p(b).", "q(a).", "q(a, b).", "p(c).", "p(d)."].iter() {
        assert!(session.term(text).is_ok());
    }
    assert!(session.eof().is_ok());
    let keys: Vec<(String, usize)> = session
        .worker
        .results
        .iter()
        .map(|(pred, _)| (pred.0[0].name().cloned().unwrap_or_default(), pred.0[0].arity()))
        .collect();
    assert_eq!(keys.len(), 4);
    for pair in keys.windows(2) {
        assert_ne!(pair[0], pair[1]);
    }
}
