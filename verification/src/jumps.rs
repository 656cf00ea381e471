//! How a jump finds the predicate it goes to: the jumps in a translation and the predicates that
//! were split off come in the same order, one for one.
use vstd::prelude::*;

use crate::ast::{ParserError, TermV};
use crate::batch::{flush, take, term_packet, BatchV};
use crate::closure::lemma_split_rule_closed;
use crate::code::IndicesV;
use crate::program::{DeclarationV, PredicateClauseV, QueryTermV, TopLevelPacketV, TopLevelV};
use crate::relation::{group_vars, is_split_group, is_split_queue, lemma_disjunct_group};
use crate::translation::{
    body_goals, body_parts, clauses_of, consistent, disjunct_clauses, disjunct_vars, goal, goals,
    if_then_body, query_term, rule, split_clauses, split_predicates, split_rule, top_level, work,
    WorkV,
};
use crate::weight::{lemma_queue_weight_first, lemma_split_clauses_weight, queue_weight};

verus! {

/// The variables that a goal jumps with, if it jumps.
pub open spec fn goal_jumps(goal: QueryTermV) -> Seq<Seq<TermV>> {
    match goal {
        QueryTermV::Jump(vars) => seq![vars],
        _ => Seq::empty(),
    }
}

/// The jumps of several goals, in order.
pub open spec fn jumps(goals: Seq<QueryTermV>) -> Seq<Seq<TermV>>
    decreases goals.len(),
{
    if goals.len() == 0 {
        Seq::empty()
    } else {
        jumps(goals.drop_last()) + goal_jumps(goals.last())
    }
}

/// The jumps of a clause.
pub open spec fn clause_jumps(clause: PredicateClauseV) -> Seq<Seq<TermV>> {
    match clause {
        PredicateClauseV::Fact(_) => Seq::empty(),
        PredicateClauseV::Rule(rule) => jumps(rule.body),
    }
}

/// The jumps of several clauses, in order.
pub open spec fn all_clause_jumps(clauses: Seq<PredicateClauseV>) -> Seq<Seq<TermV>>
    decreases clauses.len(),
{
    if clauses.len() == 0 {
        Seq::empty()
    } else {
        all_clause_jumps(clauses.drop_last()) + clause_jumps(clauses.last())
    }
}

/// The jumps of what a term is.
pub open spec fn tl_jumps(tl: TopLevelV) -> Seq<Seq<TermV>> {
    match tl {
        TopLevelV::Query(goals) => jumps(goals),
        TopLevelV::Rule(rule) => jumps(rule.body),
        TopLevelV::Predicate(clauses) => all_clause_jumps(clauses),
        _ => Seq::empty(),
    }
}

/// The jumps of several predicates, in order.
pub open spec fn all_jumps(tls: Seq<TopLevelV>) -> Seq<Seq<TermV>>
    decreases tls.len(),
{
    if tls.len() == 0 {
        Seq::empty()
    } else {
        tl_jumps(tls[0]) + all_jumps(tls.drop_first())
    }
}

/// The variables that the groups in a queue share with the bodies they came from.
pub open spec fn queue_vars(queue: Seq<Seq<TermV>>) -> Seq<Seq<TermV>> {
    queue.map_values(|group: Seq<TermV>| group_vars(group))
}

/// The clauses of a predicate that was split off: rules without a name, which have the same
/// arguments.
pub open spec fn is_split_predicate(tl: TopLevelV, vars: Seq<TermV>) -> bool {
    tl matches TopLevelV::Predicate(clauses) && are_split_rules(clauses, vars)
}

/// Rules without a name, which have the same arguments.
pub open spec fn are_split_rules(clauses: Seq<PredicateClauseV>, vars: Seq<TermV>) -> bool {
    forall|i: int|
        0 <= i < clauses.len() ==> (#[trigger] clauses[i] matches PredicateClauseV::Rule(rule)
            && rule.name == ""@ && rule.args == vars)
}

/// Predicates that were split off, with the arguments `vars` in order.
pub open spec fn are_split_predicates(tls: Seq<TopLevelV>, vars: Seq<Seq<TermV>>) -> bool {
    &&& tls.len() == vars.len()
    &&& forall|i: int| 0 <= i < tls.len() ==> is_split_predicate(#[trigger] tls[i], vars[i])
}

/// A group joins the queue with each jump, and with nothing else.
proof fn lemma_query_term_jumps(state: WorkV, term: TermV)
    ensures
        query_term(state, term).1 matches Ok(goal) ==> queue_vars(
            query_term(state, term).0.queue,
        ) == queue_vars(state.queue) + goal_jumps(goal),
        is_split_queue(state.queue) ==> is_split_queue(query_term(state, term).0.queue),
{
    let after = query_term(state, term).0;
    if term.is_compound(";"@, 2) {
        lemma_disjunct_group(term);
        let group = disjunct_clauses(term);
        assert(after.queue == state.queue.push(group));
        assert(group[0] == split_rule(disjunct_vars(term), group[0].args()[1]));
        assert(group_vars(group) == disjunct_vars(term));
        assert(queue_vars(after.queue) =~= queue_vars(state.queue) + seq![disjunct_vars(term)]);
    } else if term.is_compound("->"@, 2) {
        reveal_strlit("->");
        reveal_strlit(":");
        assert("->"@.len() == 2 && ":"@.len() == 1);
        let body = if_then_body(term.args()[0], term.args()[1]);
        let vars = crate::goals::head_vars(body);
        let group = seq![split_rule(vars, body)];
        assert(after.queue == state.queue.push(group));
        assert(group_vars(group) == vars);
        lemma_split_rule_closed(body);
        assert(is_split_group(group));
        assert(queue_vars(after.queue) =~= queue_vars(state.queue) + seq![vars]);
    } else {
        assert(queue_vars(state.queue) + Seq::empty() =~= queue_vars(state.queue));
    }
}

proof fn lemma_goal_jumps(state: WorkV, term: TermV)
    ensures
        goal(state, term).1 matches Ok(g) ==> queue_vars(goal(state, term).0.queue) == queue_vars(
            state.queue,
        ) + goal_jumps(g),
        is_split_queue(state.queue) ==> is_split_queue(goal(state, term).0.queue),
{
    if term.is_compound("$call_with_default_policy"@, 1) {
        lemma_query_term_jumps(state, term.args()[0]);
    } else {
        lemma_query_term_jumps(state, term);
    }
}

/// The groups that goals add to the queue and their jumps, in order, are the same.
pub proof fn law_goals_jump(state: WorkV, terms: Seq<TermV>)
    ensures
        goals(state, terms).1 matches Ok(done) ==> queue_vars(goals(state, terms).0.queue)
            == queue_vars(state.queue) + jumps(done),
        is_split_queue(state.queue) ==> is_split_queue(goals(state, terms).0.queue),
    decreases terms.len(),
{
    if terms.len() == 0 {
        assert(queue_vars(state.queue) + Seq::empty() =~= queue_vars(state.queue));
    } else {
        law_goals_jump(state, terms.drop_last());
        let (before, done) = goals(state, terms.drop_last());
        lemma_goal_jumps(before, terms.last());
        if let (Ok(done), Ok(last)) = (done, goal(before, terms.last()).1) {
            assert(done.push(last).drop_last() =~= done);
            assert(queue_vars(state.queue) + jumps(done) + goal_jumps(last) =~= queue_vars(
                state.queue,
            ) + (jumps(done) + goal_jumps(last)));
        }
    }
}

proof fn lemma_rule_jumps(state: WorkV, terms: Seq<TermV>, blocks_cuts: bool)
    ensures
        rule(state, terms, blocks_cuts).1 matches Ok(r) ==> queue_vars(
            rule(state, terms, blocks_cuts).0.queue,
        ) == queue_vars(state.queue) + jumps(r.body),
        is_split_queue(state.queue) ==> is_split_queue(rule(state, terms, blocks_cuts).0.queue),
{
    law_goals_jump(state, body_goals(body_parts(terms), blocks_cuts));
}

proof fn lemma_split_clauses_jump(state: WorkV, group: Seq<TermV>, vars: Seq<TermV>)
    requires
        forall|i: int|
            0 <= i < group.len() ==> #[trigger] group[i] == split_rule(vars, group[i].args()[1]),
    ensures
        split_clauses(state, group).1 matches Ok(clauses) ==> {
            &&& clauses.len() == group.len()
            &&& are_split_rules(clauses, vars)
            &&& queue_vars(split_clauses(state, group).0.queue) == queue_vars(state.queue)
                + all_clause_jumps(clauses)
        },
        is_split_queue(state.queue) ==> is_split_queue(split_clauses(state, group).0.queue),
    decreases group.len(),
{
    if group.len() == 0 {
        assert(queue_vars(state.queue) + Seq::empty() =~= queue_vars(state.queue));
    } else {
        let front = group.drop_last();
        assert forall|i: int| 0 <= i < front.len() implies #[trigger] front[i] == split_rule(
            vars,
            front[i].args()[1],
        ) by {
            assert(group[i] == split_rule(vars, group[i].args()[1]));
        }
        lemma_split_clauses_jump(state, front, vars);
        let (before, done) = split_clauses(state, front);
        lemma_rule_jumps(before, group.last().args(), false);
        if let (Ok(done), Ok(last)) = (done, rule(before, group.last().args(), false).1) {
            let clause = PredicateClauseV::Rule(last);
            let clauses = done.push(clause);
            assert(clauses.drop_last() =~= done);
            assert(last.name == ""@ && last.args == vars);
            assert(are_split_rules(clauses, vars));
            assert(queue_vars(state.queue) + all_clause_jumps(done) + clause_jumps(clause)
                =~= queue_vars(state.queue) + (all_clause_jumps(done) + clause_jumps(clause)));
        }
    }
}

/// The predicates that were split off come in the order of the groups in the queue and, after
/// them, of the jumps in the predicates themselves; each has the arguments that the jump to it
/// hands over, and as many clauses as its group. None waits any more.
pub proof fn law_split_predicates_jump(state: WorkV)
    requires
        is_split_queue(state.queue),
    ensures
        split_predicates(state).1 matches Ok(tls) ==> {
            &&& split_predicates(state).0.queue.len() == 0
            &&& are_split_predicates(tls, queue_vars(state.queue) + all_jumps(tls))
            &&& forall|i: int|
                0 <= i < state.queue.len() ==> (#[trigger] tls[i])->Predicate_0.len()
                    == state.queue[i].len()
        },
    decreases queue_weight(state.queue),
{
    if state.queue.len() == 0 {
        assert(queue_vars(state.queue) =~= Seq::empty());
        assert(queue_vars(state.queue) + all_jumps(Seq::empty()) =~= Seq::empty());
    } else {
        let group = state.queue[0];
        let vars = group_vars(group);
        let rest = WorkV { queue: state.queue.drop_first(), ..state };
        assert(is_split_group(group));
        assert forall|i: int| 0 <= i < rest.queue.len() implies is_split_group(
            #[trigger] rest.queue[i],
        ) by {
            assert(is_split_group(state.queue[i + 1]));
        }
        lemma_split_clauses_jump(rest, group, vars);
        lemma_split_clauses_weight(rest, group);
        lemma_queue_weight_first(state.queue);
        let (after, clauses) = split_clauses(rest, group);
        if let Ok(clauses) = clauses {
            law_split_predicates_jump(after);
            if let Ok(others) = split_predicates(after).1 {
                let tls = seq![TopLevelV::Predicate(clauses)] + others;
                assert(tls.drop_first() =~= others);
                let all = queue_vars(state.queue) + all_jumps(tls);
                let tail = queue_vars(after.queue) + all_jumps(others);
                assert(all_jumps(tls) == all_clause_jumps(clauses) + all_jumps(others));
                assert(queue_vars(state.queue) =~= seq![vars] + queue_vars(rest.queue));
                assert(all =~= seq![vars] + tail);
                assert forall|i: int| 0 <= i < tls.len() implies is_split_predicate(
                    #[trigger] tls[i],
                    all[i],
                ) by {
                    if i > 0 {
                        assert(is_split_predicate(others[i - 1], tail[i - 1]));
                    }
                }
                assert forall|i: int| 0 <= i < state.queue.len() implies (
                #[trigger] tls[i])->Predicate_0.len() == state.queue[i].len() by {
                    if i > 0 {
                        lemma_goals_extend_clauses(rest, group);
                        assert(after.queue[i - 1] == rest.queue[i - 1]);
                        assert(others[i - 1]->Predicate_0.len() == after.queue[i - 1].len());
                    }
                }
            }
        }
    }
}

proof fn lemma_goals_extend(state: WorkV, terms: Seq<TermV>)
    ensures
        state.queue.len() <= goals(state, terms).0.queue.len(),
        forall|i: int|
            0 <= i < state.queue.len() ==> #[trigger] goals(state, terms).0.queue[i]
                == state.queue[i],
    decreases terms.len(),
{
    if terms.len() > 0 {
        lemma_goals_extend(state, terms.drop_last());
    }
}

proof fn lemma_goals_extend_clauses(state: WorkV, group: Seq<TermV>)
    ensures
        state.queue.len() <= split_clauses(state, group).0.queue.len(),
        forall|i: int|
            0 <= i < state.queue.len() ==> #[trigger] split_clauses(state, group).0.queue[i]
                == state.queue[i],
    decreases group.len(),
{
    if group.len() > 0 {
        lemma_goals_extend_clauses(state, group.drop_last());
        let before = split_clauses(state, group.drop_last()).0;
        lemma_goals_extend(before, body_goals(body_parts(group.last().args()), false));
    }
}

/// What a term is adds a group to the queue for each of its jumps. A hook takes those that were
/// split off it along.
pub proof fn law_term_jumps(state: WorkV, term: TermV, blocks_cuts: bool)
    requires
        is_split_queue(state.queue),
    ensures
        is_split_queue(top_level(state, term, blocks_cuts).0.queue),
        top_level(state, term, blocks_cuts).1 matches Ok(tl) ==> ({
            let after = top_level(state, term, blocks_cuts).0;
            match tl {
                TopLevelV::Declaration(DeclarationV::Hook(_, clause, queue)) => {
                    state.queue.len() == 0 ==> after.queue.len() == 0 && are_split_predicates(
                        queue,
                        clause_jumps(clause) + all_jumps(queue),
                    )
                },
                TopLevelV::Declaration(_) => after == state,
                _ => queue_vars(after.queue) == queue_vars(state.queue) + tl_jumps(tl),
            }
        }),
{
    reveal(top_level);
    law_goals_jump(state, body_goals(term.args(), blocks_cuts));
    lemma_rule_jumps(state, term.args(), blocks_cuts);
    lemma_rule_jumps(state, term.args(), true);
    assert(queue_vars(state.queue) + Seq::empty() =~= queue_vars(state.queue));
    let translated = rule(state, term.args(), true).0;
    law_split_predicates_jump(translated);
    lemma_split_predicates_split(translated);
    let none: Seq<Seq<TermV>> = Seq::empty();
    assert(none + all_jumps(Seq::empty()) =~= none);
    if state.queue.len() == 0 {
        assert(queue_vars(state.queue) =~= none);
        if let Ok(r) = rule(state, term.args(), true).1 {
            assert(none + jumps(r.body) =~= jumps(r.body));
        }
    }
}

proof fn lemma_split_predicates_split(state: WorkV)
    requires
        is_split_queue(state.queue),
    ensures
        is_split_queue(split_predicates(state).0.queue),
    decreases queue_weight(state.queue),
{
    if state.queue.len() > 0 {
        let group = state.queue[0];
        let rest = WorkV { queue: state.queue.drop_first(), ..state };
        assert(is_split_group(group));
        assert forall|i: int| 0 <= i < rest.queue.len() implies is_split_group(
            #[trigger] rest.queue[i],
        ) by {
            assert(is_split_group(state.queue[i + 1]));
        }
        lemma_split_clauses_jump(rest, group, group_vars(group));
        lemma_split_clauses_weight(rest, group);
        lemma_queue_weight_first(state.queue);
        let (after, clauses) = split_clauses(rest, group);
        if clauses is Ok {
            lemma_split_predicates_split(after);
        }
    }
}

/// What a packet holds in front.
pub open spec fn packet_head(p: TopLevelPacketV) -> TopLevelV {
    match p {
        TopLevelPacketV::Query(goals, _) => TopLevelV::Query(goals),
        TopLevelPacketV::Decl(tl, _) => tl,
    }
}

/// The predicates that were split off what a packet holds in front.
pub open spec fn packet_queue(p: TopLevelPacketV) -> Seq<TopLevelV> {
    match p {
        TopLevelPacketV::Query(_, queue) => queue,
        TopLevelPacketV::Decl(_, queue) => queue,
    }
}

/// In a packet there is one predicate for each jump, of what stands in front and then of the
/// predicates themselves, in that order and with the arguments that the jump hands over.
pub proof fn law_packet_jumps(indices: IndicesV, term: TermV)
    ensures
        term_packet(indices, term).1 matches Ok(p) ==> are_split_predicates(
            packet_queue(p),
            tl_jumps(packet_head(p)) + all_jumps(packet_queue(p)),
        ),
{
    let start = work(Seq::empty(), indices);
    let translated = top_level(start, term, true).0;
    law_term_jumps(start, term, true);
    law_split_predicates_jump(translated);
    let none: Seq<Seq<TermV>> = Seq::empty();
    assert(queue_vars(start.queue) =~= none);
    if let Ok(tl) = top_level(start, term, true).1 {
        assert(none + tl_jumps(tl) =~= tl_jumps(tl));
        if tl is Declaration {
            assert(translated.queue.len() == 0);
            assert(queue_vars(translated.queue) =~= none);
        }
    }
}

/// The groups that wait are those of the jumps in the clauses that are being read, and each
/// complete predicate stands with one predicate for each jump, in it and in those themselves.
pub open spec fn is_linked(state: BatchV) -> bool {
    &&& is_split_queue(state.queue)
    &&& queue_vars(state.queue) == all_clause_jumps(state.preds)
    &&& forall|i: int|
        0 <= i < state.results.len() ==> are_split_predicates(
            (#[trigger] state.results[i]).1,
            all_clause_jumps(state.results[i].0) + all_jumps(state.results[i].1),
        )
}

proof fn lemma_flush_links(state: BatchV, indices: IndicesV)
    requires
        is_linked(state),
        flush(state, indices).2 is Ok,
    ensures
        is_linked(flush(state, indices).0),
        flush(state, indices).0.queue.len() == 0,
{
    let start = work(state.queue, indices);
    law_split_predicates_jump(start);
    let after = flush(state, indices).0;
    assert(queue_vars(after.queue) =~= Seq::empty());
    assert forall|i: int| 0 <= i < after.results.len() implies are_split_predicates(
        (#[trigger] after.results[i]).1,
        all_clause_jumps(after.results[i].0) + all_jumps(after.results[i].1),
    ) by {
        if i < state.results.len() {
            assert(after.results[i] == state.results[i]);
        }
    }
}

/// Every term that is taken in, and the end of the file, keeps the jumps linked.
pub proof fn law_take_links(
    state: BatchV,
    indices: IndicesV,
    item: Result<Option<TermV>, ParserError>,
)
    requires
        state.wf(),
        is_linked(state),
        take(state, indices, item).2 is Ok,
    ensures
        is_linked(take(state, indices, item).0),
{
    match item {
        Ok(Some(term)) => {
            let start = work(Seq::empty(), indices);
            law_term_jumps(start, term, true);
            let (translated, tl) = top_level(start, term, true);
            let tl = tl->Ok_0;
            let (ready, ix, flushed) = if consistent(tl, state.preds) {
                (state, translated.indices, Ok::<(), ParserError>(()))
            } else {
                flush(state, translated.indices)
            };
            if !consistent(tl, state.preds) {
                lemma_flush_links(state, translated.indices);
            }
            let none: Seq<Seq<TermV>> = Seq::empty();
            assert(queue_vars(start.queue) =~= none);
            assert(none + tl_jumps(tl) =~= tl_jumps(tl));
            let queue = ready.queue + translated.queue;
            assert(queue_vars(queue) =~= queue_vars(ready.queue) + queue_vars(translated.queue));
            assert forall|i: int| 0 <= i < queue.len() implies is_split_group(
                #[trigger] queue[i],
            ) by {
                if i < ready.queue.len() {
                    assert(is_split_group(ready.queue[i]));
                } else {
                    assert(is_split_group(translated.queue[i - ready.queue.len()]));
                }
            }
            if tl is Declaration {
                assert(state.preds.len() > 0 ==> state.preds[0].name() is Some);
                assert(ready.preds =~= Seq::empty());
                assert(translated.queue.len() == 0);
                assert(queue_vars(ready.queue).len() == 0);
                assert(queue =~= Seq::empty());
            } else {
                lemma_not_predicate(start, term, true);
                let more = clauses_of(tl);
                assert(more.len() == 1);
                assert((ready.preds + more).drop_last() =~= ready.preds);
            }
        },
        Ok(None) => {
            if state.preds.len() > 0 {
                lemma_flush_links(state, indices);
            }
        },
        Err(_) => {},
    }
}

/// No term is several clauses at once.
proof fn lemma_not_predicate(state: WorkV, term: TermV, blocks_cuts: bool)
    ensures
        top_level(state, term, blocks_cuts).1 matches Ok(tl) ==> !(tl is Predicate),
{
    reveal(top_level);
}

} // verus!
