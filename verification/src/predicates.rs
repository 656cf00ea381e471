//! The clauses of one predicate, gathered.
use vstd::prelude::*;

use std::collections::VecDeque;

use crate::ast::{
    lemma_term_view, lemma_terms_view, name_is, outcome, terms_view, Constant, Fixity, ParserError,
    Term, TermV,
};
use crate::program::{
    clauses_view, lemma_top_level_view, top_levels_view, Predicate, PredicateClause, TopLevel,
    TopLevelPacket,
};
use crate::translation::{clauses_of, consistent, fact, merge, packet, predicate};

verus! {

broadcast use {lemma_terms_view, lemma_term_view, lemma_top_level_view};

/// Whether a compound term is a clause of `term_expansion/2`.
pub fn is_term_expansion(name: &String, terms: &Vec<Term>) -> (r: bool)
    ensures
        forall|fixity: Option<Fixity>|
            r == #[trigger] crate::translation::is_term_expansion(
                TermV::Clause(name@, terms_view(terms@), fixity),
            ),
{
    if name_is(name, ":-") {
        if terms.len() > 0 {
            if let Term::Clause(name, terms, None) = &terms[0] {
                return name_is(name, "term_expansion") && terms.len() == 2;
            }
        }
        false
    } else if name_is(name, "term_expansion") {
        terms.len() == 2
    } else {
        false
    }
}

/// Whether a term is a directive whose goal is `term_expansion/2`. The look of a hook, and no body:
/// it cannot be translated.
pub fn is_bodiless_hook(term: &Term) -> (r: bool)
    ensures
        r == crate::translation::is_bodiless_hook(term@),
{
    match term {
        Term::Clause(name, terms, _) => {
            let hook = is_term_expansion(name, terms);
            hook && name_is(name, ":-") && terms.len() == 1
        },
        _ => false,
    }
}

/// A term as a fact.
pub fn setup_fact(term: Term) -> (r: Result<Term, ParserError>)
    ensures
        outcome(r) == fact(term@),
{
    match term {
        Term::Clause(..) => Ok(term),
        Term::Constant(Constant::Atom(..)) => Ok(term),
        _ => Err(ParserError::InadmissibleFact),
    }
}

/// Whether what a term is goes on with the clauses that came before.
pub fn is_consistent(tl: &TopLevel, clauses: &Vec<PredicateClause>) -> (r: bool)
    ensures
        r == consistent(tl@, clauses_view(clauses@)),
{
    if clauses.len() == 0 {
        return true;
    }
    let same_name = match (tl.name(), clauses[0].name()) {
        (Some(name), Some(other)) => *name == *other,
        (None, None) => true,
        _ => false,
    };
    same_name && tl.arity() == clauses[0].arity()
}

/// What was read, with the predicates that were split off it.
pub fn deque_to_packet(head: TopLevel, deque: VecDeque<TopLevel>) -> (r: TopLevelPacket)
    ensures
        r@ == packet(head@, top_levels_view(deque@)),
{
    match head {
        TopLevel::Query(query) => TopLevelPacket::Query(query, deque),
        _ => TopLevelPacket::Decl(head, deque),
    }
}

/// Takes one predicate, one declaration or one query off the front.
pub fn merge_clauses(tls: &mut VecDeque<TopLevel>) -> (r: Result<TopLevel, ParserError>)
    ensures
        (top_levels_view(final(tls)@), outcome(r)) == merge(
            Seq::empty(),
            top_levels_view(old(tls)@),
        ),
{
    let mut clauses: Vec<PredicateClause> = Vec::new();
    assert(clauses_view(clauses@) =~= Seq::empty());

    loop
        invariant_except_break
            merge(clauses_view(clauses@), top_levels_view(tls@)) == merge(
                Seq::empty(),
                top_levels_view(old(tls)@),
            ),
        ensures
            (top_levels_view(tls@), predicate(clauses_view(clauses@))) == merge(
                Seq::empty(),
                top_levels_view(old(tls)@),
            ),
        decreases tls@.len(),
    {
        let ghost waiting = top_levels_view(tls@);
        let ghost done = clauses_view(clauses@);
        match tls.pop_front() {
            Some(tl) => {
                assert(top_levels_view(tls@) =~= waiting.drop_first());
                assert(waiting[0] == tl@);
                match tl {
                    TopLevel::Query(query) => if clauses.len() == 0 && tls.len() == 0 {
                        return Ok(TopLevel::Query(query));
                    } else {
                        return Err(ParserError::InconsistentEntry);
                    },
                    TopLevel::Declaration(decl) => if clauses.len() == 0 {
                        return Ok(TopLevel::Declaration(decl));
                    } else {
                        tls.push_front(TopLevel::Declaration(decl));
                        assert(top_levels_view(tls@) =~= waiting);
                        break;
                    },
                    _ => if is_consistent(&tl, &clauses) {
                        match tl {
                            TopLevel::Fact(fact) => clauses.push(PredicateClause::Fact(fact)),
                            TopLevel::Rule(rule) => clauses.push(PredicateClause::Rule(rule)),
                            TopLevel::Predicate(pred) => {
                                let mut pred = pred;
                                clauses.append(&mut pred.0);
                            },
                            _ => {},
                        }
                        assert(clauses_view(clauses@) =~= done + clauses_of(waiting[0]));
                    } else {
                        tls.push_front(tl);
                        assert(top_levels_view(tls@) =~= waiting);
                        break;
                    },
                }
            },
            None => {
                break;
            },
        }
    }

    if clauses.len() == 0 {
        Err(ParserError::InconsistentEntry)
    } else {
        Ok(TopLevel::Predicate(Predicate(clauses)))
    }
}

/// The clauses as a predicate; none are left.
pub fn append_preds(preds: &mut Vec<PredicateClause>) -> (r: Predicate)
    ensures
        r@ == clauses_view(old(preds)@),
        final(preds)@.len() == 0,
{
    let mut taken: Vec<PredicateClause> = Vec::new();
    std::mem::swap(preds, &mut taken);
    Predicate(taken)
}

} // verus!
