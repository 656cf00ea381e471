//! What a translation leaves alone: directories and cells only ever gain entries.
use vstd::prelude::*;

use crate::ast::TermV;
use crate::code::{IndexPtr, IndicesV};
use crate::translation::{
    body_goals, body_parts, goal, goals, query_term, rule, split_clauses, split_predicates,
    top_level, WorkV,
};
use crate::weight::{lemma_queue_weight_first, lemma_split_clauses_weight, queue_weight};

verus! {

/// `after` has every cell and every entry that `before` has; the directory behind and the forms
/// are the same.
pub open spec fn grows(before: IndicesV, after: IndicesV) -> bool {
    &&& after.static_code_dir == before.static_code_dir
    &&& after.forms == before.forms
    &&& before.cells.is_prefix_of(after.cells)
    &&& before.code_dir.submap_of(after.code_dir)
}

/// Every index refers to a cell.
pub open spec fn is_resolved(indices: IndicesV) -> bool {
    &&& forall|key: (Seq<char>, nat)| #[trigger]
        indices.code_dir.contains_key(key) ==> indices.code_dir[key].0 < indices.cells.len()
    &&& forall|key: (Seq<char>, nat)| #[trigger]
        indices.static_code_dir.contains_key(key) ==> indices.static_code_dir[key].0
            < indices.cells.len()
}

/// A step that only adds, and leaves no index without a cell as long as cells can be counted.
pub open spec fn keeps(before: IndicesV, after: IndicesV) -> bool {
    &&& grows(before, after)
    &&& is_resolved(before) && after.cells.len() <= usize::MAX ==> is_resolved(after)
}

/// One step after another.
pub proof fn lemma_keeps_trans(a: IndicesV, b: IndicesV, c: IndicesV)
    requires
        keeps(a, b),
        keeps(b, c),
    ensures
        keeps(a, c),
{
    assert forall|i: int| 0 <= i < a.cells.len() implies a.cells[i] == c.cells[i] by {
        assert(a.cells[i] == b.cells.subrange(0, a.cells.len() as int)[i]);
        assert(b.cells[i] == c.cells.subrange(0, b.cells.len() as int)[i]);
    }
    assert(a.cells =~= c.cells.subrange(0, a.cells.len() as int));
    assert forall|key: (Seq<char>, nat)| #[trigger] a.code_dir.dom().contains(key) implies
        c.code_dir.dom().contains(key) && a.code_dir[key] == c.code_dir[key] by {
        assert(b.code_dir.dom().contains(key));
    }
}

/// No step.
pub proof fn lemma_keeps_refl(a: IndicesV)
    ensures
        keeps(a, a),
{
    assert(a.cells =~= a.cells.subrange(0, a.cells.len() as int));
}

proof fn lemma_with_cell_keeps(a: IndicesV, ptr: IndexPtr, module: Seq<char>)
    ensures
        keeps(a, a.with_cell(ptr, module)),
{
    let b = a.with_cell(ptr, module);
    assert(a.cells =~= b.cells.subrange(0, a.cells.len() as int));
}

/// To ask for an index takes nothing away.
pub proof fn lemma_code_index_keeps(a: IndicesV, key: (Seq<char>, nat))
    ensures
        keeps(a, a.with_code_index(key)),
{
    let b = a.with_code_index(key);
    assert(a.cells =~= b.cells.subrange(0, a.cells.len() as int));
}

proof fn lemma_query_term_keeps(state: WorkV, term: TermV)
    ensures
        keeps(state.indices, query_term(state, term).0.indices),
{
    lemma_keeps_refl(state.indices);
    match term {
        TermV::Constant(_) => {
            lemma_code_index_keeps(state.indices, (term.name()->0, 0));
        },
        TermV::Clause(name, args, _) => {
            lemma_code_index_keeps(state.indices, (name, args.len()));
            if args.len() == 2 {
                lemma_with_cell_keeps(state.indices, IndexPtr::Module, args[0].name()->0);
            }
        },
        _ => {},
    }
}

proof fn lemma_goal_keeps(state: WorkV, term: TermV)
    ensures
        keeps(state.indices, goal(state, term).0.indices),
{
    if term.is_compound("$call_with_default_policy"@, 1) {
        lemma_query_term_keeps(state, term.args()[0]);
    } else {
        lemma_query_term_keeps(state, term);
    }
}

/// Goals take nothing away.
pub proof fn lemma_goals_keep(state: WorkV, terms: Seq<TermV>)
    ensures
        keeps(state.indices, goals(state, terms).0.indices),
    decreases terms.len(),
{
    if terms.len() == 0 {
        lemma_keeps_refl(state.indices);
    } else {
        let (before, done) = goals(state, terms.drop_last());
        lemma_goals_keep(state, terms.drop_last());
        lemma_goal_keeps(before, terms.last());
        if done is Ok {
            let (after, last) = goal(before, terms.last());
            lemma_keeps_trans(state.indices, before.indices, after.indices);
        }
    }
}

proof fn lemma_split_clauses_keep(state: WorkV, group: Seq<TermV>)
    ensures
        keeps(state.indices, split_clauses(state, group).0.indices),
    decreases group.len(),
{
    if group.len() == 0 {
        lemma_keeps_refl(state.indices);
    } else {
        let (before, done) = split_clauses(state, group.drop_last());
        lemma_split_clauses_keep(state, group.drop_last());
        let parts = body_parts(group.last().args());
        lemma_goals_keep(before, body_goals(parts, false));
        if done is Ok {
            let (after, last) = rule(before, group.last().args(), false);
            lemma_keeps_trans(state.indices, before.indices, after.indices);
        }
    }
}

/// The predicates that were split off take nothing away.
pub proof fn lemma_split_predicates_keep(state: WorkV)
    ensures
        keeps(state.indices, split_predicates(state).0.indices),
    decreases queue_weight(state.queue),
{
    if state.queue.len() == 0 {
        lemma_keeps_refl(state.indices);
    } else {
        let rest = WorkV { queue: state.queue.drop_first(), ..state };
        let (after, clauses) = split_clauses(rest, state.queue[0]);
        lemma_split_clauses_keep(rest, state.queue[0]);
        lemma_split_clauses_weight(rest, state.queue[0]);
        lemma_queue_weight_first(state.queue);
        if clauses is Ok {
            lemma_split_predicates_keep(after);
            lemma_keeps_trans(
                state.indices,
                after.indices,
                split_predicates(after).0.indices,
            );
        }
    }
}

proof fn lemma_rule_keeps(state: WorkV, terms: Seq<TermV>, blocks_cuts: bool)
    ensures
        keeps(state.indices, rule(state, terms, blocks_cuts).0.indices),
{
    lemma_goals_keep(state, body_goals(body_parts(terms), blocks_cuts));
}

/// Translating a term keeps every cell, every entry of the directory, the directory behind it and
/// the forms; every index still refers to a cell.
pub proof fn law_translation_keeps(state: WorkV, term: TermV, blocks_cuts: bool)
    ensures
        keeps(state.indices, top_level(state, term, blocks_cuts).0.indices),
{
    reveal(top_level);
    lemma_keeps_refl(state.indices);
    lemma_goals_keep(state, body_goals(term.args(), blocks_cuts));
    lemma_rule_keeps(state, term.args(), blocks_cuts);
    lemma_rule_keeps(state, term.args(), true);
    let translated = rule(state, term.args(), true).0;
    lemma_split_predicates_keep(translated);
    lemma_keeps_trans(
        state.indices,
        translated.indices,
        split_predicates(translated).0.indices,
    );
}

} // verus!
