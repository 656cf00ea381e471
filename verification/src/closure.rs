//! Which variables a clause has: a predicate that is split off a body gets every variable that its
//! clauses use.
use vstd::prelude::*;

use crate::ast::TermV;
use crate::goals::{
    all_occurrences, cut_var, fold, head_names, head_vars, lemma_unfold_nonempty, mark_cut,
    mark_cuts, occurrences, unfold, with_name, with_names,
};
use crate::program::QueryTermV;
use crate::translation::{
    alternative, disjunct_clauses, disjunct_vars, goal, if_then_body, split_rule, WorkV,
};

verus! {

/// A rule whose head has every variable of its body.
pub open spec fn is_closed_rule(rule: TermV) -> bool {
    forall|name: Seq<char>| #[trigger]
        occurrences(rule.args()[1]).contains(name) ==> rule.args()[0].args().contains(
            TermV::Var(name),
        )
}

proof fn lemma_with_name(names: Seq<Seq<char>>, name: Seq<char>)
    requires
        names.no_duplicates(),
    ensures
        with_name(names, name).no_duplicates(),
        forall|n: Seq<char>| #[trigger]
            with_name(names, name).contains(n) <==> names.contains(n) || n == name,
{
    let r = with_name(names, name);
    if !names.contains(name) {
        assert forall|n: Seq<char>| #[trigger]
            r.contains(n) <==> names.contains(n) || n == name by {
            if names.contains(n) {
                let i = choose|i: int| 0 <= i < names.len() && names[i] == n;
                assert(r[i] == n);
            }
            if n == name {
                assert(r[names.len() as int] == n);
            }
        }
    }
}

proof fn lemma_with_names(names: Seq<Seq<char>>, more: Seq<Seq<char>>)
    requires
        names.no_duplicates(),
    ensures
        with_names(names, more).no_duplicates(),
        forall|n: Seq<char>| #[trigger]
            with_names(names, more).contains(n) <==> names.contains(n) || more.contains(n),
    decreases more.len(),
{
    if more.len() > 0 {
        let front = more.drop_last();
        lemma_with_names(names, front);
        lemma_with_name(with_names(names, front), more.last());
        assert forall|n: Seq<char>| #[trigger]
            with_names(names, more).contains(n) <==> names.contains(n) || more.contains(n) by {
            assert(more =~= front.push(more.last()));
            if front.contains(n) {
                let i = choose|i: int| 0 <= i < front.len() && front[i] == n;
                assert(more[i] == n);
            }
            if n == more.last() {
                assert(more[more.len() - 1] == n);
            }
            if more.contains(n) && n != more.last() {
                let i = choose|i: int| 0 <= i < more.len() && more[i] == n;
                assert(front[i] == n);
            }
            assert(with_names(names, front).contains(n) <==> names.contains(n) || front.contains(
                n,
            ));
        }
    }
}

/// The head of a predicate split off a body has the variables of the body and the cut variable,
/// all of them, each once, and nothing else.
pub proof fn law_head_names(term: TermV)
    ensures
        head_names(term).no_duplicates(),
        forall|name: Seq<char>| #[trigger]
            head_names(term).contains(name) <==> occurrences(term).contains(name) || name == "!"@,
        head_vars(term).len() == head_names(term).len(),
        forall|i: int|
            0 <= i < head_vars(term).len() ==> #[trigger] head_vars(term)[i] == TermV::Var(
                head_names(term)[i],
            ),
{
    let none: Seq<Seq<char>> = Seq::empty();
    lemma_with_names(none, occurrences(term));
    lemma_with_name(with_names(none, occurrences(term)), "!"@);
    assert forall|name: Seq<char>| #[trigger] head_names(term).contains(name) <==> occurrences(
        term,
    ).contains(name) || name == "!"@ by {
        assert(with_names(none, occurrences(term)).contains(name) <==> none.contains(name)
            || occurrences(term).contains(name));
    }
}

/// A name among the variables of two lists.
pub proof fn lemma_contains_add(fst: Seq<Seq<char>>, snd: Seq<Seq<char>>, name: Seq<char>)
    ensures
        (fst + snd).contains(name) <==> fst.contains(name) || snd.contains(name),
{
    if fst.contains(name) {
        let i = choose|i: int| 0 <= i < fst.len() && fst[i] == name;
        assert((fst + snd)[i] == name);
    }
    if snd.contains(name) {
        let i = choose|i: int| 0 <= i < snd.len() && snd[i] == name;
        assert((fst + snd)[fst.len() + i] == name);
    }
    if (fst + snd).contains(name) {
        let i = choose|i: int| 0 <= i < (fst + snd).len() && (fst + snd)[i] == name;
        if i < fst.len() {
            assert(fst[i] == name);
        } else {
            assert(snd[i - fst.len()] == name);
        }
    }
}

proof fn lemma_pair_occurrences(fst: TermV, snd: TermV, name: Seq<char>)
    ensures
        all_occurrences(seq![fst, snd]).contains(name) <==> occurrences(fst).contains(name)
            || occurrences(snd).contains(name),
{
    assert(seq![fst, snd].drop_last() =~= seq![fst]);
    assert(seq![fst].drop_last() =~= Seq::empty());
    assert(all_occurrences(Seq::empty()) =~= Seq::empty());
    assert(all_occurrences(seq![fst]) =~= occurrences(fst));
    lemma_contains_add(occurrences(fst), occurrences(snd), name);
}

/// Operands have no variables but those of the term.
proof fn lemma_unfold_occurrences(term: TermV, op: Seq<char>, i: int, name: Seq<char>)
    requires
        0 <= i < unfold(term, op).len(),
        occurrences(unfold(term, op)[i]).contains(name),
    ensures
        occurrences(term).contains(name),
    decreases term,
{
    if term.is_compound(op, 2) {
        let args = term.args();
        assert(args =~= seq![args[0], args[1]]);
        lemma_pair_occurrences(args[0], args[1], name);
        if i > 0 {
            lemma_unfold_occurrences(args[1], op, i - 1, name);
        }
    }
}

/// A folded term has no variables but those of the operands.
proof fn lemma_fold_occurrences(
    terms: Seq<TermV>,
    term: TermV,
    op: Seq<char>,
    name: Seq<char>,
)
    requires
        occurrences(fold(terms, term, op)).contains(name),
    ensures
        occurrences(term).contains(name) || exists|i: int|
            0 <= i < terms.len() && occurrences(#[trigger] terms[i]).contains(name),
    decreases terms.len(),
{
    if terms.len() > 0 {
        let rest = fold(terms.skip(1), term, op);
        lemma_pair_occurrences(terms[0], rest, name);
        if occurrences(rest).contains(name) {
            lemma_fold_occurrences(terms.skip(1), term, op, name);
            if !occurrences(term).contains(name) {
                let i = choose|i: int|
                    0 <= i < terms.skip(1).len() && occurrences(
                        #[trigger] terms.skip(1)[i],
                    ).contains(name);
                assert(terms[i + 1] == terms.skip(1)[i]);
            }
        }
    }
}

/// An alternative has no variables but those that were written, and the cut variable.
proof fn lemma_alternative_occurrences(alt: TermV, name: Seq<char>)
    requires
        occurrences(alternative(alt)).contains(name),
    ensures
        occurrences(alt).contains(name) || name == "!"@,
{
    let goals = unfold(alt, ","@);
    let marked = mark_cuts(goals);
    lemma_unfold_nonempty(alt, ","@);
    lemma_fold_occurrences(marked.drop_last(), marked.last(), ","@, name);
    let i = if occurrences(marked.last()).contains(name) {
        marked.len() - 1
    } else {
        choose|i: int|
            0 <= i < marked.drop_last().len() && occurrences(
                #[trigger] marked.drop_last()[i],
            ).contains(name)
    };
    assert(occurrences(marked[i]).contains(name));
    assert(marked[i] == mark_cut(goals[i]));
    if marked[i] == goals[i] {
        lemma_unfold_occurrences(alt, ","@, i, name);
    } else {
        assert(occurrences(cut_var()) =~= seq!["!"@]);
    }
}

proof fn lemma_head_has(term: TermV, name: Seq<char>)
    requires
        occurrences(term).contains(name) || name == "!"@,
    ensures
        head_vars(term).contains(TermV::Var(name)),
{
    law_head_names(term);
    assert(head_names(term).contains(name));
    let i = choose|i: int| 0 <= i < head_names(term).len() && head_names(term)[i] == name;
    assert(head_vars(term)[i] == TermV::Var(name));
}

/// Every jump hands the cut variable over, so that a cut in the predicate it goes to finds the
/// level to cut back to.
pub proof fn law_jump_hands_cut_over(state: WorkV, term: TermV)
    ensures
        goal(state, term).1 matches Ok(QueryTermV::Jump(vars)) ==> vars.contains(cut_var()),
{
    let inner = if term.is_compound("$call_with_default_policy"@, 1) {
        term.args()[0]
    } else {
        term
    };
    lemma_head_has(inner, "!"@);
    let head = head_vars(inner);
    let i = choose|i: int| 0 <= i < head.len() && head[i] == cut_var();
    assert(disjunct_vars(inner)[i] == cut_var());
    if inner.is_compound("->"@, 2) {
        lemma_head_has(if_then_body(inner.args()[0], inner.args()[1]), "!"@);
    }
}

/// The clause split off an if-then is closed.
pub proof fn lemma_split_rule_closed(body: TermV)
    ensures
        is_closed_rule(split_rule(head_vars(body), body)),
{
    let rule = split_rule(head_vars(body), body);
    assert forall|name: Seq<char>| #[trigger] occurrences(rule.args()[1]).contains(name) implies
        rule.args()[0].args().contains(TermV::Var(name)) by {
        lemma_head_has(body, name);
    }
}

/// The clauses split off a disjunction are closed.
pub proof fn lemma_disjunct_closed(term: TermV)
    ensures
        forall|i: int|
            0 <= i < disjunct_clauses(term).len() ==> is_closed_rule(
                #[trigger] disjunct_clauses(term)[i],
            ),
{
    let vars = disjunct_vars(term);
    assert forall|i: int| 0 <= i < disjunct_clauses(term).len() implies is_closed_rule(
        #[trigger] disjunct_clauses(term)[i],
    ) by {
        let alt = unfold(term, ";"@)[i];
        let rule = split_rule(vars, alternative(alt));
        assert(disjunct_clauses(term)[i] == rule);
        assert forall|name: Seq<char>| #[trigger]
            occurrences(rule.args()[1]).contains(name) implies rule.args()[0].args().contains(
            TermV::Var(name),
        ) by {
            lemma_alternative_occurrences(alt, name);
            if occurrences(alt).contains(name) {
                lemma_unfold_occurrences(term, ";"@, i, name);
            }
            lemma_head_has(term, name);
            let head = head_vars(term);
            let j = choose|j: int| 0 <= j < head.len() && head[j] == TermV::Var(name);
            assert(vars[j] == TermV::Var(name));
        }
    }
}

} // verus!
