//! Conjunctions, disjunctions, cuts and variables inside a clause body.
use vstd::prelude::*;

use crate::ast::{
    lemma_term_view, lemma_terms_view, name_is, terms_view, Constant, ConstantV, Term, TermV,
};

verus! {

broadcast use {lemma_terms_view, lemma_term_view};

/// The operands of an infix term that is nested to the right, from left to right.
pub open spec fn unfold(term: TermV, op: Seq<char>) -> Seq<TermV>
    decreases term,
{
    match term {
        TermV::Clause(name, args, _) => if name == op && args.len() == 2 {
            seq![args[0]] + unfold(args[1], op)
        } else {
            seq![term]
        },
        _ => seq![term],
    }
}

/// `terms` and, last, `term`, as operands of an infix term that is nested to the right.
pub open spec fn fold(terms: Seq<TermV>, term: TermV, op: Seq<char>) -> TermV
    decreases terms.len(),
{
    if terms.len() == 0 {
        term
    } else {
        TermV::Clause(op, seq![terms[0], fold(terms.skip(1), term, op)], None)
    }
}

/// The atom `!`.
pub open spec fn is_cut(term: TermV) -> bool {
    term matches TermV::Constant(ConstantV::Atom(name, _)) && name == "!"@
}

/// The variable that holds the level a cut goes back to.
pub open spec fn cut_var() -> TermV {
    TermV::Var("!"@)
}

/// A goal whose cut, if it is one, goes through the cut variable.
pub open spec fn mark_cut(term: TermV) -> TermV {
    if is_cut(term) {
        cut_var()
    } else {
        term
    }
}

/// A goal whose cut, if it is one, is called `name`.
pub open spec fn rename_cut(term: TermV, name: Seq<char>) -> TermV {
    match term {
        TermV::Constant(ConstantV::Atom(atom, fixity)) => if atom == "!"@ {
            TermV::Constant(ConstantV::Atom(name, fixity))
        } else {
            term
        },
        _ => term,
    }
}

/// Goals with their cuts marked.
pub open spec fn mark_cuts(terms: Seq<TermV>) -> Seq<TermV> {
    terms.map_values(|term: TermV| mark_cut(term))
}

/// Goals with their cuts renamed.
pub open spec fn rename_cuts(terms: Seq<TermV>, name: Seq<char>) -> Seq<TermV> {
    terms.map_values(|term: TermV| rename_cut(term, name))
}

/// The variables of a term, one for each occurrence, from left to right.
pub open spec fn occurrences(term: TermV) -> Seq<Seq<char>>
    decreases term,
{
    match term {
        TermV::Clause(_, args, _) => all_occurrences(args),
        TermV::Cons(head, tail) => occurrences(*head) + occurrences(*tail),
        TermV::Var(name) => seq![name],
        _ => Seq::empty(),
    }
}

/// The variables of several terms, one for each occurrence, from left to right.
pub open spec fn all_occurrences(terms: Seq<TermV>) -> Seq<Seq<char>>
    decreases terms,
{
    if terms.len() == 0 {
        Seq::empty()
    } else {
        all_occurrences(terms.drop_last()) + occurrences(terms.last())
    }
}

/// `names` with `name` in it.
pub open spec fn with_name(names: Seq<Seq<char>>, name: Seq<char>) -> Seq<Seq<char>> {
    if names.contains(name) {
        names
    } else {
        names.push(name)
    }
}

/// `names` with all of `more` in it: what came first stays first, and nothing comes twice.
pub open spec fn with_names(names: Seq<Seq<char>>, more: Seq<Seq<char>>) -> Seq<Seq<char>>
    decreases more.len(),
{
    if more.len() == 0 {
        names
    } else {
        with_name(with_names(names, more.drop_last()), more.last())
    }
}

/// The variables that a predicate split off a body shares with it: those of the body and the cut
/// variable, each once.
pub open spec fn head_names(term: TermV) -> Seq<Seq<char>> {
    with_name(with_names(Seq::empty(), occurrences(term)), "!"@)
}

/// Variables as terms.
pub open spec fn as_vars(names: Seq<Seq<char>>) -> Seq<TermV> {
    names.map_values(|name: Seq<char>| TermV::Var(name))
}

/// The head arguments of a predicate split off a body.
pub open spec fn head_vars(term: TermV) -> Seq<TermV> {
    as_vars(head_names(term))
}

/// To add one list of names and then another is to add both in a row.
pub proof fn lemma_with_names_add(
    names: Seq<Seq<char>>,
    first: Seq<Seq<char>>,
    second: Seq<Seq<char>>,
)
    ensures
        with_names(names, first + second) == with_names(with_names(names, first), second),
    decreases second.len(),
{
    if second.len() == 0 {
        assert(first + second =~= first);
    } else {
        lemma_with_names_add(names, first, second.drop_last());
        assert((first + second).drop_last() =~= first + second.drop_last());
        assert((first + second).last() == second.last());
    }
}

/// `fold`, taken apart at its last operand but one.
pub proof fn lemma_fold_push(terms: Seq<TermV>, before: TermV, term: TermV, op: Seq<char>)
    ensures
        fold(terms.push(before), term, op) == fold(
            terms,
            TermV::Clause(op, seq![before, term], None),
            op,
        ),
    decreases terms.len(),
{
    if terms.len() == 0 {
        assert(terms.push(before).skip(1) =~= Seq::<TermV>::empty());
        assert(fold(terms.push(before), term, op) == TermV::Clause(
            op,
            seq![before, fold(Seq::<TermV>::empty(), term, op)],
            None,
        ));
    } else {
        assert(terms.push(before).skip(1) =~= terms.skip(1).push(before));
        lemma_fold_push(terms.skip(1), before, term, op);
    }
}

/// `unfold` gives at least one operand.
pub proof fn lemma_unfold_nonempty(term: TermV, op: Seq<char>)
    ensures
        unfold(term, op).len() > 0,
    decreases term,
{
    if term.is_compound(op, 2) {
        lemma_unfold_nonempty(term.args()[1], op);
    }
}

/// Takes the operands out of an infix term, if it is one.
pub fn unfold_by_str_once(term: &mut Term, s: &str) -> (r: Option<(Term, Term)>)
    ensures
        match r {
            Some((fst, snd)) => {
                &&& old(term)@ matches TermV::Clause(name, args, fixity)
                &&& name == s@
                &&& args =~= seq![fst@, snd@]
                &&& final(term)@ == TermV::Clause(name, Seq::empty(), fixity)
            },
            None => !old(term)@.is_compound(s@, 2) && *final(term) == *old(term),
        },
{
    if let Term::Clause(name, subterms, _) = term {
        if name_is(name, s) && subterms.len() == 2 {
            let snd = subterms.pop().unwrap();
            let fst = subterms.pop().unwrap();
            assert(terms_view(subterms@) =~= Seq::empty());
            return Some((fst, snd));
        }
    }
    None
}

/// The operands of an infix term that is nested to the right.
pub fn unfold_by_str(term: Term, s: &str) -> (r: Vec<Term>)
    ensures
        terms_view(r@) == unfold(term@, s@),
{
    let mut term = term;
    let mut terms: Vec<Term> = Vec::new();
    let ghost whole = unfold(term@, s@);
    assert(terms_view(terms@) + whole =~= whole);

    loop
        invariant
            terms_view(terms@) + unfold(term@, s@) == whole,
        ensures
            terms_view(terms@).push(term@) == whole,
        decreases term@,
    {
        let ghost before = terms_view(terms@);
        let ghost operand = term@;
        match unfold_by_str_once(&mut term, s) {
            Some((fst, snd)) => {
                assert(operand == TermV::Clause(
                    operand->Clause_0,
                    seq![fst@, snd@],
                    operand->Clause_2,
                ));
                terms.push(fst);
                term = snd;
                assert(terms_view(terms@) =~= before.push(fst@));
                assert(before + (seq![fst@] + unfold(snd@, s@)) =~= before.push(fst@) + unfold(
                    snd@,
                    s@,
                ));
            },
            None => {
                assert(before + seq![operand] =~= before.push(operand));
                break;
            },
        }
    }

    let ghost before = terms_view(terms@);
    terms.push(term);
    assert(terms_view(terms@) =~= before.push(term@));
    terms
}

/// Puts operands together into an infix term that is nested to the right.
pub fn fold_by_str(terms: Vec<Term>, term: Term, sym: &str) -> (r: Term)
    ensures
        r@ == fold(terms_view(terms@), term@, sym@),
{
    let mut left = terms;
    let mut folded = term;

    loop
        invariant
            fold(terms_view(left@), folded@, sym@) == fold(terms_view(terms@), term@, sym@),
        decreases left@.len(),
    {
        let ghost before = left@;
        let ghost inner = folded@;
        match left.pop() {
            Some(prec) => {
                let mut args: Vec<Term> = Vec::new();
                args.push(prec);
                args.push(folded);
                folded = Term::Clause(sym.to_owned(), args, None);
                proof {
                    assert(terms_view(args@) =~= seq![prec@, inner]);
                    assert(terms_view(before) =~= terms_view(left@).push(prec@));
                    lemma_fold_push(terms_view(left@), prec@, inner, sym@);
                }
            },
            None => {
                return folded;
            },
        }
    }
}

/// Whether a goal is the atom `!`.
fn goal_is_cut(term: &Term) -> (r: bool)
    ensures
        r == is_cut(term@),
{
    match term {
        Term::Constant(Constant::Atom(name, _)) => name_is(name, "!"),
        _ => false,
    }
}

/// Renames the cuts among goals.
pub fn mark_cut_variables_as(terms: &mut Vec<Term>, name: &str)
    ensures
        terms_view(final(terms)@) == rename_cuts(terms_view(old(terms)@), name@),
{
    let mut i: usize = 0;
    let ghost before = terms@;
    while i < terms.len()
        invariant
            i <= terms@.len() == before.len(),
            forall|j: int| 0 <= j < i ==> terms@[j]@ == rename_cut(before[j]@, name@),
            forall|j: int| i <= j < before.len() ==> terms@[j] == before[j],
        decreases terms@.len() - i,
    {
        if let Term::Constant(Constant::Atom(var, _)) = &mut terms[i] {
            if name_is(var, "!") {
                *var = name.to_owned();
            }
        }
        i += 1;
    }
    assert(terms_view(terms@) =~= rename_cuts(terms_view(before), name@));
}

/// Turns a cut into the cut variable; tells whether it was one.
pub fn mark_cut_variable(term: &mut Term) -> (r: bool)
    ensures
        r == is_cut(old(term)@),
        final(term)@ == mark_cut(old(term)@),
{
    if goal_is_cut(term) {
        *term = Term::Var("!".to_owned());
        true
    } else {
        false
    }
}

/// Turns the cuts among goals into the cut variable; tells whether the last goal was one.
pub fn mark_cut_variables(terms: &mut Vec<Term>) -> (r: bool)
    ensures
        terms_view(final(terms)@) == mark_cuts(terms_view(old(terms)@)),
        r == (old(terms)@.len() > 0 && is_cut(old(terms)@.last()@)),
{
    let mut found_cut_var = false;
    let mut i: usize = 0;
    let ghost before = terms@;
    while i < terms.len()
        invariant
            i <= terms@.len() == before.len(),
            forall|j: int| 0 <= j < i ==> terms@[j]@ == mark_cut(before[j]@),
            forall|j: int| i <= j < before.len() ==> terms@[j] == before[j],
            found_cut_var == (i > 0 && is_cut(before[i - 1]@)),
        decreases terms@.len() - i,
    {
        found_cut_var = mark_cut_variable(&mut terms[i]);
        i += 1;
    }
    assert(terms_view(terms@) =~= mark_cuts(terms_view(before)));
    found_cut_var
}

/// The views of names, one for one.
pub open spec fn names_view(names: Seq<String>) -> Seq<Seq<char>> {
    names.map_values(|name: String| name@)
}

/// Adds a name, unless it is there.
fn add_name(names: &mut Vec<String>, name: String)
    ensures
        names_view(final(names)@) == with_name(names_view(old(names)@), name@),
{
    let ghost before = names_view(names@);
    let mut i: usize = 0;
    while i < names.len()
        invariant
            i <= names@.len(),
            names@ == old(names)@,
            before == names_view(names@),
            forall|j: int| 0 <= j < i ==> before[j] != name@,
        decreases names@.len() - i,
    {
        if names[i] == name {
            assert(before[i as int] == name@);
            return;
        }
        i += 1;
    }
    assert(!before.contains(name@));
    names.push(name);
    assert(names_view(names@) =~= before.push(name@));
}

/// Adds the variables of a term.
fn add_variables(term: &Term, names: &mut Vec<String>)
    ensures
        names_view(final(names)@) == with_names(names_view(old(names)@), occurrences(term@)),
    decreases term,
{
    match term {
        Term::Clause(_, args, _) => {
            let ghost before = names_view(names@);
            let ghost terms = terms_view(args@);
            let mut i: usize = 0;
            while i < args.len()
                invariant
                    i <= args@.len() == terms.len(),
                    terms == terms_view(args@),
                    decreases_to!(term => args@),
                    names_view(names@) == with_names(
                        before,
                        all_occurrences(terms.take(i as int)),
                    ),
                decreases args@.len() - i,
            {
                add_variables(&args[i], names);
                proof {
                    let taken = terms.take(i + 1);
                    assert(taken.drop_last() =~= terms.take(i as int));
                    assert(taken.last() == terms[i as int]);
                    lemma_with_names_add(
                        before,
                        all_occurrences(terms.take(i as int)),
                        occurrences(terms[i as int]),
                    );
                }
                i += 1;
            }
            assert(terms.take(i as int) =~= terms);
        },
        Term::Cons(head, tail) => {
            let ghost before = names_view(names@);
            add_variables(head, names);
            add_variables(tail, names);
            proof {
                lemma_with_names_add(before, occurrences(head@), occurrences(tail@));
            }
        },
        Term::Var(name) => {
            let ghost before = names_view(names@);
            add_name(names, name.clone());
            assert(seq![name@].drop_last() =~= Seq::<Seq<char>>::empty());
            assert(with_names(before, Seq::<Seq<char>>::empty()) == before);
        },
        _ => {},
    }
}

/// The head arguments of a predicate split off a body.
pub fn head_variables(term: &Term) -> (r: Vec<Term>)
    ensures
        terms_view(r@) == head_vars(term@),
{
    let mut names: Vec<String> = Vec::new();
    assert(names_view(names@) =~= Seq::empty());
    add_variables(term, &mut names);
    add_name(&mut names, "!".to_owned());

    let mut vars: Vec<Term> = Vec::new();
    let mut i: usize = 0;
    while i < names.len()
        invariant
            i <= names@.len(),
            vars@.len() == i,
            forall|j: int| 0 <= j < i ==> vars@[j]@ == TermV::Var(names@[j]@),
        decreases names@.len() - i,
    {
        vars.push(Term::Var(names[i].clone()));
        i += 1;
    }
    assert(terms_view(vars@) =~= as_vars(names_view(names@)));
    vars
}

} // verus!
