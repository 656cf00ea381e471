//! What holds of terms: their parts, conjunctions and disjunctions, cuts and variables.
use vstd::prelude::*;

use crate::ast::{ConstantV, Fixity, TermV};
use crate::closure::{law_head_names, lemma_contains_add};
use crate::goals::{
    all_occurrences, cut_var, fold, head_names, head_vars, is_cut, mark_cut, mark_cuts, occurrences,
    rename_cut, rename_cuts, unfold,
};
use crate::reader::defrocked;

verus! {

/// The name and the arguments of a compound term are those it is written with; an atom has a name
/// and no arguments; no other term has either. An atom in an argument place loses the brackets
/// around it.
pub proof fn law_parts(term: TermV, name: Seq<char>, arity: nat)
    ensures
        match term {
            TermV::Clause(n, args, _) => {
                &&& term.name() == Some(n)
                &&& term.args() == args
                &&& term.to_atom() is None
                &&& term.is_compound(name, arity) <==> name == n && arity == args.len()
            },
            TermV::Constant(ConstantV::Atom(n, _)) => {
                &&& term.name() == Some(n)
                &&& term.args().len() == 0
                &&& term.to_atom() == Some(defrocked(n))
                &&& !term.is_compound(name, arity)
            },
            _ => {
                &&& term.name() is None
                &&& term.args().len() == 0
                &&& term.to_atom() is None
                &&& !term.is_compound(name, arity)
            },
        },
{
}

/// Two round brackets that enclose a name come off, and nothing else does.
pub proof fn law_defrocked(name: Seq<char>)
    ensures
        defrocked(seq!['('] + name + seq![')']) == name,
        name.len() < 2 || name[0] != '(' || name.last() != ')' ==> defrocked(name) == name,
{
    let enclosed = seq!['('] + name + seq![')'];
    assert(enclosed.subrange(1, enclosed.len() - 1) =~= name);
}

/// An infix term comes apart at its first operand; any other term is its own only operand.
pub proof fn law_unfold(op: Seq<char>, fst: TermV, snd: TermV, fixity: Option<Fixity>, other: TermV)
    ensures
        unfold(TermV::Clause(op, seq![fst, snd], fixity), op) == seq![fst] + unfold(snd, op),
        !(other matches TermV::Clause(name, args, _) && name == op && args.len() == 2) ==> unfold(
            other,
            op,
        ) == seq![other],
{
    assert(seq![fst, snd][0] == fst && seq![fst, snd][1] == snd);
}

/// Operands are put together from the right, by infix terms without a fixity.
pub proof fn law_fold(op: Seq<char>, fst: TermV, terms: Seq<TermV>, last: TermV)
    ensures
        fold(Seq::empty(), last, op) == last,
        fold(seq![fst] + terms, last, op) == TermV::Clause(
            op,
            seq![fst, fold(terms, last, op)],
            None,
        ),
{
    assert((seq![fst] + terms).skip(1) =~= terms);
}

/// A cut is the atom `!`, with a fixity or without one, and nothing else is one.
pub proof fn law_is_cut(term: TermV)
    ensures
        is_cut(term) <==> exists|fixity: Option<Fixity>|
            term == TermV::Constant(ConstantV::Atom("!"@, fixity)),
        is_cut(term) <==> (term matches TermV::Constant(ConstantV::Atom(name, _)) && name == "!"@),
{
    if is_cut(term) {
        let fixity = term->Constant_0->Atom_1;
        assert(term == TermV::Constant(ConstantV::Atom("!"@, fixity)));
    }
}

/// Marked goals are as many as before and in the same places: a cut became the variable `!`, and
/// any other goal is as it was.
pub proof fn law_marked(terms: Seq<TermV>, i: int)
    requires
        0 <= i < terms.len(),
    ensures
        mark_cuts(terms).len() == terms.len(),
        mark_cuts(terms)[i] == mark_cut(terms[i]),
        mark_cut(terms[i]) == match terms[i] {
            TermV::Constant(ConstantV::Atom(name, _)) => if name == "!"@ {
                TermV::Var("!"@)
            } else {
                terms[i]
            },
            _ => terms[i],
        },
        cut_var() == TermV::Var("!"@),
{
}

/// Renamed goals are as many as before and in the same places: a cut has the new name and its
/// fixity, and any other goal is as it was.
pub proof fn law_renamed(terms: Seq<TermV>, name: Seq<char>, i: int)
    requires
        0 <= i < terms.len(),
    ensures
        rename_cuts(terms, name).len() == terms.len(),
        rename_cuts(terms, name)[i] == rename_cut(terms[i], name),
        rename_cut(terms[i], name) == match terms[i] {
            TermV::Constant(ConstantV::Atom(atom, fixity)) => if atom == "!"@ {
                TermV::Constant(ConstantV::Atom(name, fixity))
            } else {
                terms[i]
            },
            _ => terms[i],
        },
{
}

/// Whether a variable stands in a term, at any depth.
pub open spec fn occurs(name: Seq<char>, term: TermV) -> bool
    decreases term,
{
    match term {
        TermV::Var(var) => var == name,
        TermV::Clause(_, args, _) => exists|i: int|
            0 <= i < args.len() && occurs(name, #[trigger] args[i]),
        TermV::Cons(head, tail) => occurs(name, *head) || occurs(name, *tail),
        _ => false,
    }
}

proof fn lemma_all_occurrences(terms: Seq<TermV>, name: Seq<char>)
    ensures
        all_occurrences(terms).contains(name) <==> exists|i: int|
            0 <= i < terms.len() && occurs(name, #[trigger] terms[i]),
    decreases terms,
{
    if terms.len() > 0 {
        let front = terms.drop_last();
        lemma_all_occurrences(front, name);
        law_occurrences(terms.last(), name);
        lemma_contains_add(all_occurrences(front), occurrences(terms.last()), name);
        if exists|i: int| 0 <= i < front.len() && occurs(name, #[trigger] front[i]) {
            let i = choose|i: int| 0 <= i < front.len() && occurs(name, #[trigger] front[i]);
            assert(terms[i] == front[i]);
        }
        if exists|i: int| 0 <= i < terms.len() && occurs(name, #[trigger] terms[i]) {
            let i = choose|i: int| 0 <= i < terms.len() && occurs(name, #[trigger] terms[i]);
            if i < front.len() {
                assert(front[i] == terms[i]);
            }
        }
        if occurs(name, terms.last()) {
            assert(occurs(name, terms[terms.len() - 1]));
        }
    }
}

/// The variables of a term are those that stand in it.
pub proof fn law_occurrences(term: TermV, name: Seq<char>)
    ensures
        occurrences(term).contains(name) <==> occurs(name, term),
    decreases term,
{
    match term {
        TermV::Clause(_, args, _) => {
            lemma_all_occurrences(args, name);
        },
        TermV::Cons(head, tail) => {
            law_occurrences(*head, name);
            law_occurrences(*tail, name);
            lemma_contains_add(occurrences(*head), occurrences(*tail), name);
        },
        TermV::Var(var) => {
            assert(seq![var][0] == var);
        },
        _ => {},
    }
}

/// The arguments of a predicate split off a body: every variable that stands in the body and the
/// variable `!`, each once, and nothing else.
pub proof fn law_head_vars(term: TermV, name: Seq<char>)
    ensures
        head_vars(term).no_duplicates(),
        forall|i: int| 0 <= i < head_vars(term).len() ==> (#[trigger] head_vars(term)[i]) is Var,
        head_vars(term).contains(TermV::Var(name)) <==> occurs(name, term) || name == "!"@,
{
    law_head_names(term);
    law_occurrences(term, name);
    let names = head_names(term);
    let vars = head_vars(term);
    if names.contains(name) {
        let i = choose|i: int| 0 <= i < names.len() && names[i] == name;
        assert(vars[i] == TermV::Var(name));
    }
    if vars.contains(TermV::Var(name)) {
        let i = choose|i: int| 0 <= i < vars.len() && vars[i] == TermV::Var(name);
        assert(names[i] == name);
    }
    assert forall|i: int, j: int|
        0 <= i < vars.len() && 0 <= j < vars.len() && i != j implies vars[i] != vars[j] by {
        assert(names[i] != names[j]);
    }
}

} // verus!
