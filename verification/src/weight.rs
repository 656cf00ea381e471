//! Why a translation ends: each predicate that is split off a body has fewer control constructs
//! left in it than the goal that it replaces.
use vstd::prelude::*;

use crate::ast::{ConstantV, TermV};
use crate::goals::{
    as_vars, cut_var, fold, head_names, head_vars, lemma_unfold_nonempty, mark_cut, mark_cuts,
    rename_cut, rename_cuts, unfold,
};
use crate::translation::{
    all_conjuncts, alternative, body_goals, body_parts, conjunction, conjuncts, disjunct_clauses,
    disjunct_vars, goal, goals, if_then_body, inlined_if_then, query_term, rule, split_clauses,
    split_rule, WorkV,
};

verus! {

/// A disjunction or an if-then.
pub open spec fn is_control(term: TermV) -> bool {
    term.is_compound(";"@, 2) || term.is_compound("->"@, 2)
}

/// The number of control constructs in a term.
pub open spec fn weight(term: TermV) -> nat
    decreases term,
{
    match term {
        TermV::Clause(_, args, _) => weights(args) + if is_control(term) {
            1nat
        } else {
            0nat
        },
        _ => 0,
    }
}

/// The number of control constructs in several terms.
pub open spec fn weights(terms: Seq<TermV>) -> nat
    decreases terms,
{
    if terms.len() == 0 {
        0
    } else {
        weights(terms.drop_last()) + weight(terms.last())
    }
}

/// The number of groups in a queue and of control constructs in them.
pub open spec fn queue_weight(queue: Seq<Seq<TermV>>) -> nat
    decreases queue.len(),
{
    if queue.len() == 0 {
        0
    } else {
        queue_weight(queue.drop_last()) + weights(queue.last()) + 1
    }
}

proof fn lemma_weights_one(term: TermV)
    ensures
        weights(seq![term]) == weight(term),
{
    assert(seq![term].drop_last() =~= Seq::empty());
    assert(weights(Seq::<TermV>::empty()) == 0);
}

proof fn lemma_weights_two(fst: TermV, snd: TermV)
    ensures
        weights(seq![fst, snd]) == weight(fst) + weight(snd),
{
    assert(seq![fst, snd].drop_last() =~= seq![fst]);
    lemma_weights_one(fst);
}

proof fn lemma_weights_add(fst: Seq<TermV>, snd: Seq<TermV>)
    ensures
        weights(fst + snd) == weights(fst) + weights(snd),
    decreases snd.len(),
{
    if snd.len() == 0 {
        assert(fst + snd =~= fst);
    } else {
        assert((fst + snd).drop_last() =~= fst + snd.drop_last());
        lemma_weights_add(fst, snd.drop_last());
    }
}

/// The weight of a clause, over its arguments.
proof fn lemma_weight_clause(name: Seq<char>, args: Seq<TermV>, fixity: Option<crate::ast::Fixity>)
    ensures
        weight(TermV::Clause(name, args, fixity)) == weights(args) + if args.len() == 2 && (name
            == ";"@ || name == "->"@) {
            1nat
        } else {
            0nat
        },
{
}

/// The names of the control constructs and of the conjunction are different.
proof fn lemma_comma()
    ensures
        ","@ != ";"@,
        ","@ != "->"@,
        ":-"@ != ";"@,
        ":-"@ != "->"@,
{
    reveal_strlit(",");
    reveal_strlit(";");
    reveal_strlit("->");
    reveal_strlit(":-");
    assert(","@[0] == ',');
    assert(";"@[0] == ';');
    assert(":-"@[0] == ':');
    assert("->"@[0] == '-');
}

proof fn lemma_weights_unfold(term: TermV)
    ensures
        weights(unfold(term, ","@)) == weight(term),
    decreases term,
{
    lemma_comma();
    if term.is_compound(","@, 2) {
        let args = term.args();
        assert(args =~= seq![args[0], args[1]]);
        lemma_weights_two(args[0], args[1]);
        lemma_weights_unfold(args[1]);
        lemma_weights_one(args[0]);
        lemma_weights_add(seq![args[0]], unfold(args[1], ","@));
        lemma_weight_clause(term->Clause_0, args, term->Clause_2);
    } else {
        assert(unfold(term, ","@) == seq![term]);
        lemma_weights_one(term);
    }
}

proof fn lemma_weights_unfold_disjunction(term: TermV)
    ensures
        unfold(term, ";"@).len() > 0,
        weights(unfold(term, ";"@)) + unfold(term, ";"@).len() == weight(term) + 1,
    decreases term,
{
    if term.is_compound(";"@, 2) {
        let args = term.args();
        assert(args =~= seq![args[0], args[1]]);
        lemma_weights_two(args[0], args[1]);
        lemma_weights_unfold_disjunction(args[1]);
        lemma_weights_one(args[0]);
        lemma_weights_add(seq![args[0]], unfold(args[1], ";"@));
        lemma_weight_clause(term->Clause_0, args, term->Clause_2);
    } else {
        assert(unfold(term, ";"@) == seq![term]);
        lemma_weights_one(term);
    }
}

proof fn lemma_weights_mark(terms: Seq<TermV>)
    ensures
        weights(mark_cuts(terms)) == weights(terms),
    decreases terms.len(),
{
    if terms.len() > 0 {
        lemma_weights_mark(terms.drop_last());
        assert(mark_cuts(terms).drop_last() =~= mark_cuts(terms.drop_last()));
        assert(weight(mark_cut(terms.last())) == weight(terms.last()));
    }
}

proof fn lemma_weights_rename(terms: Seq<TermV>, name: Seq<char>)
    ensures
        weights(rename_cuts(terms, name)) == weights(terms),
    decreases terms.len(),
{
    if terms.len() > 0 {
        lemma_weights_rename(terms.drop_last(), name);
        assert(rename_cuts(terms, name).drop_last() =~= rename_cuts(terms.drop_last(), name));
        assert(weight(rename_cut(terms.last(), name)) == weight(terms.last()));
    }
}

proof fn lemma_weight_fold(terms: Seq<TermV>, term: TermV)
    ensures
        weight(fold(terms, term, ","@)) == weights(terms) + weight(term),
    decreases terms.len(),
{
    lemma_comma();
    if terms.len() > 0 {
        let inner = fold(terms.skip(1), term, ","@);
        lemma_weight_fold(terms.skip(1), term);
        lemma_weights_two(terms[0], inner);
        lemma_weight_clause(","@, seq![terms[0], inner], None);
        lemma_weights_add(seq![terms[0]], terms.skip(1));
        lemma_weights_one(terms[0]);
        assert(seq![terms[0]] + terms.skip(1) =~= terms);
    }
}

proof fn lemma_weight_conjunction(terms: Seq<TermV>)
    requires
        terms.len() > 0,
    ensures
        weight(conjunction(terms)) == weights(terms),
{
    lemma_weight_fold(terms.drop_last(), terms.last());
}

proof fn lemma_weights_vars(names: Seq<Seq<char>>)
    ensures
        weights(as_vars(names)) == 0,
    decreases names.len(),
{
    if names.len() > 0 {
        lemma_weights_vars(names.drop_last());
        assert(as_vars(names).drop_last() =~= as_vars(names.drop_last()));
        assert(weight(as_vars(names).last()) == 0);
    }
}

proof fn lemma_weight_split_rule(vars: Seq<TermV>, body: TermV)
    requires
        weights(vars) == 0,
    ensures
        weight(split_rule(vars, body)) == weight(body),
{
    lemma_comma();
    let head = TermV::Clause(""@, vars, None);
    assert(weight(head) == 0) by {
        reveal_strlit("");
        reveal_strlit(";");
        reveal_strlit("->");
        assert(""@.len() == 0);
        assert(";"@.len() == 1);
        assert("->"@.len() == 2);
        lemma_weight_clause(""@, vars, None);
    }
    lemma_weights_two(head, body);
    lemma_weight_clause(":-"@, seq![head, body], None);
}

proof fn lemma_weights_disjunct_vars(term: TermV)
    ensures
        weights(disjunct_vars(term)) == 0,
{
    lemma_weights_vars(head_names(term));
    assert(head_vars(term).push(cut_var()).drop_last() =~= head_vars(term));
    assert(weight(cut_var()) == 0);
}

proof fn lemma_weights_alternatives(alts: Seq<TermV>, vars: Seq<TermV>)
    requires
        weights(vars) == 0,
    ensures
        weights(alts.map_values(|alt: TermV| split_rule(vars, alternative(alt)))) == weights(alts),
    decreases alts.len(),
{
    let clause = |alt: TermV| split_rule(vars, alternative(alt));
    if alts.len() > 0 {
        let last = alts.last();
        lemma_weights_alternatives(alts.drop_last(), vars);
        assert(alts.map_values(clause).drop_last() =~= alts.drop_last().map_values(clause));
        lemma_weights_unfold(last);
        lemma_unfold_nonempty(last, ","@);
        lemma_weights_mark(unfold(last, ","@));
        lemma_weight_conjunction(mark_cuts(unfold(last, ","@)));
        lemma_weight_split_rule(vars, alternative(last));
    }
}

/// The predicate split off a disjunction is lighter than it.
proof fn lemma_disjunct_weight(term: TermV)
    requires
        term.is_compound(";"@, 2),
    ensures
        weights(disjunct_clauses(term)) < weight(term),
{
    lemma_weights_disjunct_vars(term);
    lemma_weights_alternatives(unfold(term, ";"@), disjunct_vars(term));
    lemma_weights_unfold_disjunction(term);
    lemma_weights_unfold_disjunction(term.args()[1]);
}

/// The clause split off an if-then is lighter than it.
proof fn lemma_if_then_weight(term: TermV)
    requires
        term.is_compound("->"@, 2),
    ensures
        ({
            let body = if_then_body(term.args()[0], term.args()[1]);
            weights(seq![split_rule(head_vars(body), body)]) < weight(term)
        }),
{
    let prec = term.args()[0];
    let conq = term.args()[1];
    let cut = TermV::Constant(ConstantV::Atom("!"@, None));
    let condition = unfold(prec, ","@).push(cut);
    let renamed = rename_cuts(condition, "blocked_!"@);
    let marked = mark_cuts(unfold(conq, ","@));
    let body = if_then_body(prec, conq);

    lemma_weights_unfold(prec);
    lemma_weights_unfold(conq);
    assert(condition.drop_last() =~= unfold(prec, ","@));
    assert(weight(cut) == 0);
    lemma_weights_rename(condition, "blocked_!"@);
    lemma_weights_mark(unfold(conq, ","@));
    lemma_weights_add(renamed, marked);
    lemma_weight_conjunction(renamed + marked);

    assert(term.args() =~= seq![prec, conq]);
    lemma_weights_two(prec, conq);
    lemma_weight_clause(term->Clause_0, term.args(), term->Clause_2);

    lemma_weights_vars(head_names(body));
    lemma_weight_split_rule(head_vars(body), body);
    lemma_weights_one(split_rule(head_vars(body), body));
}

proof fn lemma_queue_weight_push(queue: Seq<Seq<TermV>>, group: Seq<TermV>)
    ensures
        queue_weight(queue.push(group)) == queue_weight(queue) + weights(group) + 1,
{
    assert(queue.push(group).drop_last() =~= queue);
}

/// The weight of a queue, taken apart at its first group.
pub proof fn lemma_queue_weight_first(queue: Seq<Seq<TermV>>)
    requires
        queue.len() > 0,
    ensures
        queue_weight(queue) == queue_weight(queue.drop_first()) + weights(queue[0]) + 1,
    decreases queue.len(),
{
    if queue.len() == 1 {
        assert(queue.drop_last() =~= Seq::empty());
        assert(queue.drop_first() =~= Seq::empty());
    } else {
        lemma_queue_weight_first(queue.drop_last());
        assert(queue.drop_last().drop_first() =~= queue.drop_first().drop_last());
    }
}

/// A goal adds no more to the queue than it holds.
proof fn lemma_query_term_weight(state: WorkV, term: TermV)
    ensures
        queue_weight(query_term(state, term).0.queue) <= queue_weight(state.queue) + weight(term),
{
    if term.is_compound(";"@, 2) {
        lemma_disjunct_weight(term);
        lemma_queue_weight_push(state.queue, disjunct_clauses(term));
    } else if term.is_compound("->"@, 2) {
        reveal_strlit("->");
        reveal_strlit(":");
        let body = if_then_body(term.args()[0], term.args()[1]);
        lemma_if_then_weight(term);
        lemma_queue_weight_push(state.queue, seq![split_rule(head_vars(body), body)]);
    }
}

proof fn lemma_goal_weight(state: WorkV, term: TermV)
    ensures
        queue_weight(goal(state, term).0.queue) <= queue_weight(state.queue) + weight(term),
{
    if term.is_compound("$call_with_default_policy"@, 1) {
        let inner = term.args()[0];
        lemma_query_term_weight(state, inner);
        assert(term.args() =~= seq![inner]);
        lemma_weights_one(inner);
        lemma_weight_clause(term->Clause_0, term.args(), term->Clause_2);
    } else {
        lemma_query_term_weight(state, term);
    }
}

proof fn lemma_goals_weight(state: WorkV, terms: Seq<TermV>)
    ensures
        queue_weight(goals(state, terms).0.queue) <= queue_weight(state.queue) + weights(terms),
    decreases terms.len(),
{
    if terms.len() > 0 {
        lemma_goals_weight(state, terms.drop_last());
        lemma_goal_weight(goals(state, terms.drop_last()).0, terms.last());
    }
}

proof fn lemma_conjuncts_weight(term: TermV, blocks_cuts: bool)
    ensures
        weights(conjuncts(term, blocks_cuts)) == weight(term),
{
    lemma_weights_unfold(term);
    lemma_weights_mark(unfold(term, ","@));
}

proof fn lemma_all_conjuncts_weight(terms: Seq<TermV>, blocks_cuts: bool)
    ensures
        weights(all_conjuncts(terms, blocks_cuts)) == weights(terms),
    decreases terms.len(),
{
    if terms.len() > 0 {
        lemma_all_conjuncts_weight(terms.drop_last(), blocks_cuts);
        lemma_conjuncts_weight(terms.last(), blocks_cuts);
        lemma_weights_add(
            all_conjuncts(terms.drop_last(), blocks_cuts),
            conjuncts(terms.last(), blocks_cuts),
        );
    }
}

proof fn lemma_body_goals_weight(terms: Seq<TermV>, blocks_cuts: bool)
    ensures
        weights(body_goals(terms, blocks_cuts)) <= weights(terms),
{
    if terms.len() == 1 && terms[0].is_compound("->"@, 2) {
        let prec = terms[0].args()[0];
        let conq = terms[0].args()[1];
        let cut = TermV::Constant(ConstantV::Atom("blocked_!"@, None));
        let condition = unfold(prec, ","@).push(cut);
        lemma_all_conjuncts_weight(inlined_if_then(prec, conq, blocks_cuts), blocks_cuts);
        lemma_weights_unfold(prec);
        lemma_conjuncts_weight(conq, blocks_cuts);
        assert(condition.drop_last() =~= unfold(prec, ","@));
        assert(weight(cut) == 0);
        lemma_weights_add(condition, conjuncts(conq, blocks_cuts));
        assert(terms[0].args() =~= seq![prec, conq]);
        lemma_weights_two(prec, conq);
        assert(terms =~= seq![terms[0]]);
        lemma_weights_one(terms[0]);
    } else {
        lemma_all_conjuncts_weight(terms, blocks_cuts);
    }
}

proof fn lemma_rule_weight(state: WorkV, terms: Seq<TermV>, blocks_cuts: bool)
    ensures
        queue_weight(rule(state, terms, blocks_cuts).0.queue) <= queue_weight(state.queue)
            + weights(terms),
{
    let parts = body_parts(terms);
    lemma_goals_weight(state, body_goals(parts, blocks_cuts));
    lemma_body_goals_weight(parts, blocks_cuts);
    if terms.len() > 0 {
        lemma_weights_add(terms.take(1), parts);
        assert(terms.take(1) + parts =~= terms);
    }
}

/// Clauses that were split off add no more to the queue than they hold.
pub proof fn lemma_split_clauses_weight(state: WorkV, group: Seq<TermV>)
    ensures
        queue_weight(split_clauses(state, group).0.queue) <= queue_weight(state.queue) + weights(
            group,
        ),
    decreases group.len(),
{
    if group.len() > 0 {
        lemma_split_clauses_weight(state, group.drop_last());
        let before = split_clauses(state, group.drop_last()).0;
        lemma_rule_weight(before, group.last().args(), false);
        assert(weights(group.last().args()) <= weight(group.last()));
    }
}

} // verus!
