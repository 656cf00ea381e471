use toplevel::ast::{
    Constant, Fixity, Integer, Number, ParserError, Term, FX, FY, XF, XFX, XFY, YF, YFX,
};
use toplevel::declarations::{
    read_specifier, setup_declaration, setup_export_list, setup_module_decl, setup_op_decl,
    setup_predicate_export, setup_qualified_import, setup_use_module_decl,
};
use toplevel::program::{Declaration, OpDecl};

fn atom(name: &str) -> Term {
    Term::Constant(Constant::Atom(name.to_string(), None))
}

fn integer(n: i64) -> Term {
    let bytes = n.to_le_bytes().to_vec();
    Term::Constant(Constant::Number(Number::Integer(Integer { bytes })))
}

fn clause(name: &str, args: Vec<Term>) -> Term {
    Term::Clause(name.to_string(), args, None)
}

fn indicator(name: Term, arity: Term) -> Term {
    Term::Clause("/".to_string(), vec![name, arity], Some(Fixity::In))
}

fn list(items: Vec<Term>) -> Term {
    let mut list = Term::Constant(Constant::EmptyList);
    for item in items.into_iter().rev() {
        list = Term::Cons(Box::new(item), Box::new(list));
    }
    list
}

fn key(name: &str, arity: usize) -> (String, usize) {
    (name.to_string(), arity)
}

#[test]
fn specifiers_have_names() {
    let kinds = [
        ("xfx", XFX),
        ("xfy", XFY),
        ("yfx", YFX),
        ("fx", FX),
        ("fy", FY),
        ("xf", XF),
        ("yf", YF),
    ];
    for (name, kind) in kinds.iter() {
        assert_eq!(read_specifier(&name.to_string()), Some(*kind));
    }
    assert_eq!(read_specifier(&String::from("fyf")), None);
}

#[test]
fn an_operator_is_declared() {
    match setup_op_decl(vec![integer(700), atom("xfx"), atom("is")]) {
        Ok(OpDecl(precedence, kind, name)) => {
            assert_eq!((precedence, kind, name.as_str()), (700, XFX, "is"));
        }
        Err(e) => panic!("{:?}", e),
    }
    assert!(setup_op_decl(vec![integer(1200), atom("fy"), atom("n")]).is_ok());
    assert!(setup_op_decl(vec![integer(0), atom("fy"), atom("n")]).is_ok());
}

#[test]
fn an_operator_needs_a_precedence_a_kind_and_a_name() {
    let bad = vec![
        vec![integer(1201), atom("xfx"), atom("is")],
        vec![integer(-1), atom("xfx"), atom("is")],
        vec![integer(256), atom("xf"), integer(1)],
        vec![integer(700), atom("xyx"), atom("is")],
        vec![integer(700), Term::AnonVar, atom("is")],
        vec![atom("seven"), atom("xfx"), atom("is")],
    ];
    for terms in bad {
        assert_eq!(setup_op_decl(terms).err(), Some(ParserError::InconsistentEntry));
    }
    let huge = Term::Constant(Constant::Number(Number::Integer(Integer { bytes: vec![1; 20] })));
    let terms = vec![huge, atom("xfx"), atom("is")];
    assert_eq!(setup_op_decl(terms).err(), Some(ParserError::InconsistentEntry));
}

#[test]
fn a_predicate_is_exported() {
    assert_eq!(
        setup_predicate_export(indicator(atom("append"), integer(3))).ok(),
        Some(key("append", 3)),
    );
    assert_eq!(
        setup_predicate_export(indicator(atom("(;)"), integer(300))).ok(),
        Some(key(";", 300)),
    );
}

#[test]
fn an_export_is_name_slash_arity() {
    let huge = Term::Constant(Constant::Number(Number::Integer(Integer { bytes: vec![1; 20] })));
    let bad = vec![
        indicator(atom("a"), integer(-1)),
        indicator(atom("a"), huge),
        indicator(atom("a"), atom("b")),
        indicator(integer(1), integer(1)),
        clause("/", vec![atom("a"), integer(1)]),
        atom("a"),
    ];
    for term in bad {
        assert_eq!(setup_predicate_export(term).err(), Some(ParserError::InvalidModuleExport));
    }
}

#[test]
fn exports_keep_their_order() {
    let exports = list(vec![
        indicator(atom("b"), integer(2)),
        indicator(atom("a"), integer(1)),
        indicator(atom("b"), integer(2)),
    ]);
    assert_eq!(
        setup_export_list(exports).ok(),
        Some(vec![key("b", 2), key("a", 1), key("b", 2)]),
    );
    assert_eq!(setup_export_list(list(vec![])).ok(), Some(vec![]));
}

#[test]
fn exports_are_a_list() {
    assert_eq!(setup_export_list(atom("a")).err(), Some(ParserError::InvalidModuleDecl));
    let open = Term::Cons(
        Box::new(indicator(atom("a"), integer(1))),
        Box::new(Term::Var(String::from("T"))),
    );
    assert_eq!(setup_export_list(open).err(), Some(ParserError::InvalidModuleDecl));
    let bad = Term::Cons(Box::new(atom("a")), Box::new(atom("b")));
    assert_eq!(setup_export_list(bad).err(), Some(ParserError::InvalidModuleExport));
}

#[test]
fn a_module_is_declared() {
    let exports = list(vec![indicator(atom("a"), integer(1))]);
    match setup_module_decl(vec![atom("lists"), exports]) {
        Ok(decl) => {
            assert_eq!(decl.name, "lists");
            assert_eq!(decl.exports, vec![key("a", 1)]);
        }
        Err(e) => panic!("{:?}", e),
    }
    assert_eq!(
        setup_module_decl(vec![Term::AnonVar, list(vec![atom("x")])]).err(),
        Some(ParserError::InvalidModuleDecl),
    );
    assert_eq!(
        setup_module_decl(vec![atom("m"), list(vec![atom("x")])]).err(),
        Some(ParserError::InvalidModuleExport),
    );
}

#[test]
fn a_library_is_used() {
    let library = clause("library", vec![atom("lists")]);
    assert_eq!(setup_use_module_decl(vec![library]).ok(), Some(String::from("lists")));
    let bad = vec![
        atom("lists"),
        clause("library", vec![integer(1)]),
        clause("library", vec![atom("a"), atom("b")]),
        Term::Clause("library".to_string(), vec![atom("a")], Some(Fixity::Pre)),
    ];
    for term in bad {
        assert_eq!(
            setup_use_module_decl(vec![term]).err(),
            Some(ParserError::InvalidUseModuleDecl),
        );
    }
}

#[test]
fn a_library_is_used_in_part() {
    let library = clause("library", vec![atom("lists")]);
    let imports = list(vec![indicator(atom("a"), integer(1))]);
    assert_eq!(
        setup_qualified_import(vec![library, imports]).ok(),
        Some((String::from("lists"), vec![key("a", 1)])),
    );
    assert_eq!(
        setup_qualified_import(vec![atom("lists"), atom("x")]).err(),
        Some(ParserError::InvalidUseModuleDecl),
    );
    let library = clause("library", vec![atom("lists")]);
    assert_eq!(
        setup_qualified_import(vec![library, atom("x")]).err(),
        Some(ParserError::InvalidModuleDecl),
    );
}

#[test]
fn directives_are_told_apart() {
    let library = || clause("library", vec![atom("lists")]);
    let op = clause("op", vec![integer(700), atom("xfx"), atom("is")]);
    assert!(matches!(setup_declaration(op), Ok(Declaration::Op(_))));
    let module = clause("module", vec![atom("m"), list(vec![])]);
    assert!(matches!(setup_declaration(module), Ok(Declaration::Module(_))));
    let whole = clause("use_module", vec![library()]);
    assert!(matches!(
        setup_declaration(whole),
        Ok(Declaration::UseModule(name)) if name == "lists"
    ));
    let part = clause("use_module", vec![library(), list(vec![])]);
    assert!(matches!(
        setup_declaration(part),
        Ok(Declaration::UseQualifiedModule(name, exports))
            if name == "lists" && exports.is_empty()
    ));
    let counted = clause("non_counted_backtracking", vec![indicator(atom("a"), integer(2))]);
    assert!(matches!(
        setup_declaration(counted),
        Ok(Declaration::NonCountedBacktracking(name, 2)) if name == "a"
    ));
}

#[test]
fn other_directives_are_inconsistent() {
    let bad = vec![
        clause("op", vec![integer(700), atom("xfx")]),
        clause("module", vec![atom("m")]),
        clause("use_module", vec![]),
        clause("initialization", vec![atom("main")]),
        atom("op"),
        Term::AnonVar,
    ];
    for term in bad {
        assert_eq!(setup_declaration(term).err(), Some(ParserError::InconsistentEntry));
    }
}
