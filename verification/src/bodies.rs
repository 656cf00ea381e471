//! What holds of goals and bodies: what each goal becomes, and what is split off.
use vstd::prelude::*;

use crate::ast::{ConstantV, Fixity, ParserError, TermV};
use crate::code::{BuiltInClauseType, ClauseForm, ClauseTypeV, CodeIndex, IndexPtr, IndicesV};
use crate::goals::{
    cut_var, head_vars, is_cut, lemma_unfold_nonempty, mark_cut, mark_cuts, rename_cuts, unfold,
};
use crate::laws::{law_unfold_fold, law_unfold_last};
use crate::program::{QueryTermV, RuleV};
use crate::shapes::{law_head_vars, law_marked, law_renamed, occurs};
use crate::translation::{
    all_conjuncts, alternative, body_goals, conjunction, conjuncts, disjunct_clauses, disjunct_vars,
    goal, goals, if_then_body, inlined_if_then, module_goal, query, query_term, rule, WorkV,
};

verus! {

/// A clause of a predicate without a name.
pub open spec fn nameless_rule(vars: Seq<TermV>, body: TermV) -> TermV {
    TermV::Clause(":-"@, seq![TermV::Clause(""@, vars, None), body], None)
}

/// The atom that commits to a condition.
pub open spec fn commit() -> TermV {
    TermV::Constant(ConstantV::Atom("blocked_!"@, None))
}

/// Goals that were put together with `,` are the same goals in the same order.
proof fn lemma_conjunction_goals(goals: Seq<TermV>)
    requires
        goals.len() > 0,
        !goals.last().is_compound(","@, 2),
    ensures
        unfold(conjunction(goals), ","@) == goals,
{
    law_unfold_fold(goals.drop_last(), goals.last(), ","@);
    assert(unfold(goals.last(), ","@) =~= seq![goals.last()]);
    assert(goals.drop_last() + seq![goals.last()] =~= goals);
}

/// An alternative of a disjunction keeps its goals: as many, in the same places, with the cuts
/// among them marked.
pub proof fn law_alternative_goals(term: TermV)
    ensures
        unfold(alternative(term), ","@) == mark_cuts(unfold(term, ","@)),
{
    law_unfold_last(term, ","@);
    let goals = unfold(term, ","@);
    lemma_conjunction_goals(mark_cuts(goals));
}

/// A disjunction is split into one clause for each alternative, in order. The clauses have one
/// head, and each has the goals of its alternative, in order: a cut goes through the variable `!`,
/// and any other goal is as it was.
pub proof fn law_disjunction_split(term: TermV, i: int, k: int)
    requires
        0 <= i < unfold(term, ";"@).len(),
        0 <= k < unfold(unfold(term, ";"@)[i], ","@).len(),
    ensures
        disjunct_clauses(term).len() == unfold(term, ";"@).len(),
        ({
            let written = unfold(unfold(term, ";"@)[i], ","@);
            let body = disjunct_clauses(term)[i].args()[1];
            let split = unfold(body, ","@);
            &&& disjunct_clauses(term)[i] == nameless_rule(disjunct_vars(term), body)
            &&& split.len() == written.len()
            &&& is_cut(written[k]) ==> split[k] == TermV::Var("!"@)
            &&& !is_cut(written[k]) ==> split[k] == written[k]
        }),
{
    let alt = unfold(term, ";"@)[i];
    law_alternative_goals(alt);
    law_marked(unfold(alt, ","@), k);
}

/// A disjunction hands over the variables that stand in it and the variable `!`. It hands `!` over
/// once more, last, if and only if its last alternative ends in a cut.
pub proof fn law_disjunction_vars(term: TermV, name: Seq<char>)
    ensures
        disjunct_vars(term).contains(TermV::Var(name)) <==> occurs(name, term) || name == "!"@,
        forall|i: int|
            0 <= i < disjunct_vars(term).len() ==> (#[trigger] disjunct_vars(term)[i]) is Var,
        disjunct_vars(term) == if is_cut(unfold(unfold(term, ";"@).last(), ","@).last()) {
            head_vars(term) + seq![TermV::Var("!"@)]
        } else {
            head_vars(term)
        },
{
    law_head_vars(term, name);
    let head = head_vars(term);
    let vars = disjunct_vars(term);
    assert(head.push(cut_var()) =~= head + seq![TermV::Var("!"@)]);
    if head.contains(TermV::Var(name)) {
        let i = choose|i: int| 0 <= i < head.len() && head[i] == TermV::Var(name);
        assert(vars[i] == TermV::Var(name));
    }
    if vars.contains(TermV::Var(name)) {
        let i = choose|i: int| 0 <= i < vars.len() && vars[i] == TermV::Var(name);
        if i < head.len() {
            assert(head[i] == TermV::Var(name));
        } else {
            assert(name == "!"@);
        }
    }
}

/// The body split off an if-then: the goals of the condition, in order, whose cuts are blocked;
/// then the atom that commits to it; then the goals of the consequent, in order, whose cuts go
/// through the variable `!`.
pub proof fn law_if_then_split(prec: TermV, conq: TermV, i: int, k: int)
    requires
        0 <= i < unfold(prec, ","@).len(),
        0 <= k < unfold(conq, ","@).len(),
    ensures
        ({
            let condition = unfold(prec, ","@);
            let consequent = unfold(conq, ","@);
            let split = unfold(if_then_body(prec, conq), ","@);
            let commits = condition.len() as int;
            &&& split.len() == condition.len() + 1 + consequent.len()
            &&& match condition[i] {
                TermV::Constant(ConstantV::Atom(name, fixity)) => if name == "!"@ {
                    split[i] == TermV::Constant(ConstantV::Atom("blocked_!"@, fixity))
                } else {
                    split[i] == condition[i]
                },
                _ => split[i] == condition[i],
            }
            &&& split[commits] == commit()
            &&& is_cut(consequent[k]) ==> split[commits + 1 + k] == TermV::Var("!"@)
            &&& !is_cut(consequent[k]) ==> split[commits + 1 + k] == consequent[k]
        }),
{
    let condition = unfold(prec, ","@);
    let consequent = unfold(conq, ","@);
    let cut = TermV::Constant(ConstantV::Atom("!"@, None));
    let renamed = rename_cuts(condition.push(cut), "blocked_!"@);
    let marked = mark_cuts(consequent);
    law_unfold_last(conq, ","@);
    lemma_conjunction_goals(renamed + marked);
    law_renamed(condition.push(cut), "blocked_!"@, i);
    law_renamed(condition.push(cut), "blocked_!"@, condition.len() as int);
    law_marked(consequent, k);
}

/// The goals of terms in a row are those of the first, then those of the others. A term has the
/// goals that `,` joins in it; where cuts do not stay inside the clause, they are marked.
pub proof fn law_conjuncts(term: TermV, terms: Seq<TermV>)
    ensures
        all_conjuncts(Seq::empty(), true) == Seq::<TermV>::empty(),
        all_conjuncts(Seq::empty(), false) == Seq::<TermV>::empty(),
        all_conjuncts(terms.push(term), true) == all_conjuncts(terms, true) + unfold(term, ","@),
        all_conjuncts(terms.push(term), false) == all_conjuncts(terms, false) + mark_cuts(
            unfold(term, ","@),
        ),
{
    assert(terms.push(term).drop_last() =~= terms);
}

/// The goals of a body that is no if-then are those of its parts.
pub proof fn law_body(parts: Seq<TermV>, blocks_cuts: bool)
    requires
        !(parts.len() == 1 && (parts[0] matches TermV::Clause(name, args, _) && name == "->"@
            && args.len() == 2)),
    ensures
        body_goals(parts, blocks_cuts) == all_conjuncts(parts, blocks_cuts),
{
}

proof fn lemma_all_conjuncts_add(fst: Seq<TermV>, snd: Seq<TermV>, blocks_cuts: bool)
    ensures
        all_conjuncts(fst + snd, blocks_cuts) == all_conjuncts(fst, blocks_cuts) + all_conjuncts(
            snd,
            blocks_cuts,
        ),
    decreases snd.len(),
{
    if snd.len() == 0 {
        assert(fst + snd =~= fst);
        assert(all_conjuncts(fst, blocks_cuts) + all_conjuncts(snd, blocks_cuts) =~= all_conjuncts(
            fst,
            blocks_cuts,
        ));
    } else {
        lemma_all_conjuncts_add(fst, snd.drop_last(), blocks_cuts);
        assert((fst + snd).drop_last() =~= fst + snd.drop_last());
        assert(all_conjuncts(fst + snd, blocks_cuts) =~= all_conjuncts(fst, blocks_cuts)
            + all_conjuncts(snd, blocks_cuts));
    }
}

proof fn lemma_all_conjuncts_marked_twice(terms: Seq<TermV>)
    ensures
        all_conjuncts(mark_cuts(terms), false) == all_conjuncts(terms, false),
    decreases terms.len(),
{
    if terms.len() > 0 {
        lemma_all_conjuncts_marked_twice(terms.drop_last());
        assert(mark_cuts(terms).drop_last() =~= mark_cuts(terms.drop_last()));
        let last = terms.last();
        assert(mark_cuts(terms).last() == mark_cut(last));
        if is_cut(last) {
            assert(mark_cuts(unfold(cut_var(), ","@)) =~= mark_cuts(unfold(last, ","@)));
        }
    } else {
        assert(mark_cuts(terms) =~= terms);
    }
}

/// An if-then that makes up a whole body: the goals of the condition, the atom that commits to it,
/// the goals of the consequent.
pub proof fn law_if_then_body(
    prec: TermV,
    conq: TermV,
    fixity: Option<Fixity>,
    blocks_cuts: bool,
)
    ensures
        body_goals(seq![TermV::Clause("->"@, seq![prec, conq], fixity)], blocks_cuts)
            == all_conjuncts(unfold(prec, ","@), blocks_cuts).push(commit()) + all_conjuncts(
            unfold(conq, ","@),
            blocks_cuts,
        ),
{
    let terms = seq![TermV::Clause("->"@, seq![prec, conq], fixity)];
    let condition = unfold(prec, ","@);
    let consequent = conjuncts(conq, blocks_cuts);
    let front = condition.push(commit());
    assert(terms[0].args()[0] == prec && terms[0].args()[1] == conq);
    assert(inlined_if_then(prec, conq, blocks_cuts) =~= front + consequent);
    lemma_all_conjuncts_add(front, consequent, blocks_cuts);
    lemma_all_conjuncts_marked_twice(unfold(conq, ","@));
    assert(front.drop_last() =~= condition);
    reveal_strlit("!");
    reveal_strlit("blocked_!");
    assert("!"@.len() == 1 && "blocked_!"@.len() == 9);
    assert(conjuncts(commit(), blocks_cuts) =~= seq![commit()]);
    assert(all_conjuncts(front, blocks_cuts) =~= all_conjuncts(condition, blocks_cuts).push(
        commit(),
    ));
}

/// What an atom becomes as a goal: a cut, blocked or not, stays inside the clause; any other atom
/// is a call without arguments. Nothing waits on its account.
pub proof fn law_atom_goal(state: WorkV, name: Seq<char>, fixity: Option<Fixity>)
    ensures
        ({
            let term = TermV::Constant(ConstantV::Atom(name, fixity));
            let (after, r) = query_term(state, term);
            if name == "!"@ || name == "blocked_!"@ {
                &&& after == state
                &&& r == Ok::<QueryTermV, ParserError>(QueryTermV::BlockedCut)
            } else {
                &&& after.queue == state.queue
                &&& is_call(state.indices, after.indices, (name, 0), fixity, r->Ok_0)
                &&& r matches Ok(QueryTermV::Clause(_, args, false)) && args.len() == 0
            }
        }),
{
    law_resolved(state.indices, (name, 0), fixity);
}

/// What a variable becomes as a goal: `!` cuts through its level, any other is called.
pub proof fn law_variable_goal(state: WorkV, name: Seq<char>)
    ensures
        query_term(state, TermV::Var(name)) == (
            state,
            Ok::<QueryTermV, ParserError>(
                if name == "!"@ {
                    QueryTermV::UnblockedCut
                } else {
                    QueryTermV::Clause(ClauseTypeV::CallN, seq![TermV::Var(name)], false)
                },
            ),
        ),
{
}

/// What is neither an atom nor a variable nor a compound term is no goal.
pub proof fn law_no_goal(state: WorkV, term: TermV)
    requires
        !(term is Clause),
        !(term is Var),
        !(term matches TermV::Constant(ConstantV::Atom(_, _))),
    ensures
        goal(state, term) == (
            state,
            Err::<QueryTermV, ParserError>(ParserError::InadmissibleQueryTerm),
        ),
{
}

/// What a call refers to, and what becomes of the directories: a predicate with a form of its own
/// is called by it, and nothing changes. Any other is called by name, or as an operator, through
/// the index that the module's own directory has for it from then on.
pub open spec fn is_call(
    before: IndicesV,
    after: IndicesV,
    key: (Seq<char>, nat),
    fixity: Option<Fixity>,
    goal: QueryTermV,
) -> bool {
    &&& goal is Clause
    &&& if before.forms.contains_key(key) {
        &&& after == before
        &&& goal->Clause_0 == match before.forms[key] {
            ClauseForm::BuiltIn(b) => ClauseTypeV::BuiltIn(b),
            ClauseForm::CallN => ClauseTypeV::CallN,
        }
    } else {
        &&& after.code_dir == before.code_dir.insert(key, after.code_dir[key])
        &&& after.static_code_dir == before.static_code_dir
        &&& after.forms == before.forms
        &&& goal->Clause_0 == match fixity {
            Some(fixity) => ClauseTypeV::Op(key.0, fixity, after.code_dir[key]),
            None => ClauseTypeV::Named(key.0, after.code_dir[key]),
        }
        &&& if before.code_dir.contains_key(key) {
            after.code_dir[key] == before.code_dir[key] && after.cells == before.cells
        } else if before.static_code_dir.contains_key(key) {
            after.code_dir[key] == before.static_code_dir[key] && after.cells == before.cells
        } else {
            &&& after.code_dir[key] == CodeIndex(before.cells.len() as usize)
            &&& after.cells == before.cells.push((IndexPtr::Undefined, Seq::<char>::empty()))
        }
    }
}

/// A call is resolved through the directories.
pub proof fn law_resolved(indices: IndicesV, key: (Seq<char>, nat), fixity: Option<Fixity>)
    ensures
        is_call(
            indices,
            indices.with_clause_type(key),
            key,
            fixity,
            QueryTermV::Clause(indices.clause_type(key, fixity), Seq::empty(), false),
        ),
{
}

/// A compound term that has no meaning of its own.
pub open spec fn is_plain(name: Seq<char>, arity: nat) -> bool {
    &&& !(name == ";"@ && arity == 2)
    &&& !(name == ":"@ && arity == 2)
    &&& !(name == "->"@ && arity == 2)
    &&& !(name == "$get_level"@ && arity == 1)
    &&& !(name == "partial_string"@ && arity == 2)
}

/// A compound term without a meaning of its own becomes a call of the predicate that it names, with
/// its arguments, each in its place. Nothing waits on its account.
pub proof fn law_call(
    state: WorkV,
    name: Seq<char>,
    args: Seq<TermV>,
    fixity: Option<Fixity>,
)
    requires
        is_plain(name, args.len()),
    ensures
        ({
            let (after, r) = query_term(state, TermV::Clause(name, args, fixity));
            &&& after.queue == state.queue
            &&& r matches Ok(QueryTermV::Clause(_, given, false)) && given == args
            &&& is_call(state.indices, after.indices, (name, args.len()), fixity, r->Ok_0)
        }),
{
    law_resolved(state.indices, (name, args.len()), fixity);
}

/// A disjunction becomes a jump, with the variables that it hands over. The clauses split off it
/// wait behind those that wait already.
pub proof fn law_disjunction_goal(
    state: WorkV,
    fst: TermV,
    snd: TermV,
    fixity: Option<Fixity>,
)
    ensures
        ({
            let term = TermV::Clause(";"@, seq![fst, snd], fixity);
            &&& query_term(state, term).1 == Ok::<QueryTermV, ParserError>(
                QueryTermV::Jump(disjunct_vars(term)),
            )
            &&& query_term(state, term).0.queue == state.queue.push(disjunct_clauses(term))
            &&& query_term(state, term).0.indices == state.indices
        }),
{
}

/// An if-then among other goals becomes a jump, with the variables of what is split off it. One
/// clause waits behind those that wait already, with the same variables.
pub proof fn law_if_then_goal(
    state: WorkV,
    prec: TermV,
    conq: TermV,
    fixity: Option<Fixity>,
)
    ensures
        ({
            let (after, r) = query_term(state, TermV::Clause("->"@, seq![prec, conq], fixity));
            let body = if_then_body(prec, conq);
            &&& r == Ok::<QueryTermV, ParserError>(QueryTermV::Jump(head_vars(body)))
            &&& after.queue == state.queue.push(seq![nameless_rule(head_vars(body), body)])
            &&& after.indices == state.indices
        }),
{
    reveal_strlit("->");
    reveal_strlit(":");
    reveal_strlit(";");
    assert("->"@.len() == 2 && ":"@.len() == 1 && ";"@.len() == 1);
}

/// `Module:Goal` becomes a call of the goal, with its arguments, through a new cell that names the
/// module. A module that is no atom, or a goal that is no compound term, is none.
pub proof fn law_module_goal(
    state: WorkV,
    module: TermV,
    callee: TermV,
    fixity: Option<Fixity>,
)
    ensures
        query_term(state, TermV::Clause(":"@, seq![module, callee], fixity)) == match (
            module,
            callee,
        ) {
            (TermV::Constant(ConstantV::Atom(name, _)), TermV::Clause(called, args, _)) => (
                WorkV {
                    queue: state.queue,
                    indices: IndicesV {
                        cells: state.indices.cells.push((IndexPtr::Module, name)),
                        ..state.indices
                    },
                },
                Ok::<QueryTermV, ParserError>(
                    QueryTermV::Clause(
                        ClauseTypeV::Named(called, CodeIndex(state.indices.cells.len() as usize)),
                        args,
                        false,
                    ),
                ),
            ),
            _ => (
                state,
                Err::<QueryTermV, ParserError>(ParserError::InvalidModuleResolution),
            ),
        },
{
    reveal_strlit(":");
    reveal_strlit(";");
    assert(":"@[0] == ':' && ";"@[0] == ';');
    assert(seq![module, callee][0] == module && seq![module, callee][1] == callee);
}

/// `$get_level(Var)` stores a level in the variable; `partial_string(String, Var)` is built in.
/// With other arguments they are no goals.
pub proof fn law_special_goals(
    state: WorkV,
    fst: TermV,
    snd: TermV,
    fixity: Option<Fixity>,
)
    ensures
        query_term(state, TermV::Clause("$get_level"@, seq![fst], fixity)) == (
            state,
            match fst {
                TermV::Var(name) => Ok::<QueryTermV, ParserError>(
                    QueryTermV::GetLevelAndUnify(name),
                ),
                _ => Err(ParserError::InadmissibleQueryTerm),
            },
        ),
        query_term(state, TermV::Clause("partial_string"@, seq![fst, snd], fixity)) == (
            state,
            if fst matches TermV::Constant(ConstantV::String(_)) && snd is Var {
                Ok::<QueryTermV, ParserError>(
                    QueryTermV::Clause(
                        ClauseTypeV::BuiltIn(BuiltInClauseType::PartialString),
                        seq![fst, snd],
                        false,
                    ),
                )
            } else {
                Err(ParserError::InadmissibleQueryTerm)
            },
        ),
{
    reveal_strlit(":");
    reveal_strlit(";");
    reveal_strlit("->");
    reveal_strlit("partial_string");
    assert(":"@.len() == 1 && ";"@.len() == 1 && "->"@.len() == 2 && "partial_string"@.len() == 14);
    assert(seq![fst, snd][0] == fst && seq![fst, snd][1] == snd);
}

/// A goal that asks for the default call policy is the goal that it holds; only a call heeds the
/// policy. Any other goal does not ask for it.
pub proof fn law_call_policy(
    state: WorkV,
    inner: TermV,
    fixity: Option<Fixity>,
    term: TermV,
)
    ensures
        ({
            let asking = TermV::Clause("$call_with_default_policy"@, seq![inner], fixity);
            &&& goal(state, asking).0 == query_term(state, inner).0
            &&& goal(state, asking).1 == match query_term(state, inner).1 {
                Ok(QueryTermV::Clause(ct, args, _)) => Ok::<QueryTermV, ParserError>(
                    QueryTermV::Clause(ct, args, true),
                ),
                other => other,
            }
        }),
        !(term matches TermV::Clause(name, args, _) && name == "$call_with_default_policy"@
            && args.len() == 1) ==> goal(state, term) == query_term(state, term),
{
    assert(seq![inner][0] == inner);
}

/// Only a call heeds the default policy, and nothing else of it changes.
pub proof fn law_default_caller(goal: QueryTermV)
    ensures
        goal.with_default_caller() == match goal {
            QueryTermV::Clause(ct, args, _) => QueryTermV::Clause(ct, args, true),
            other => other,
        },
{
}

/// A goal of another module is called through the index that is given for it.
pub proof fn law_module_resolution(module: TermV, callee: TermV, index: CodeIndex)
    ensures
        module_goal(module, callee, index) == match (module, callee) {
            (TermV::Constant(ConstantV::Atom(_, _)), TermV::Clause(name, args, _)) => Ok::<
                QueryTermV,
                ParserError,
            >(QueryTermV::Clause(ClauseTypeV::Named(name, index), args, false)),
            _ => Err(ParserError::InvalidModuleResolution),
        },
{
}

/// Goals are translated in order, each after those in front of it, and come out in order; the first
/// that is none ends it.
pub proof fn law_goals(state: WorkV, terms: Seq<TermV>, term: TermV)
    ensures
        goals(state, Seq::empty()) == (state, Ok::<Seq<QueryTermV>, ParserError>(Seq::empty())),
        goals(state, terms.push(term)) == match goals(state, terms).1 {
            Err(_) => goals(state, terms),
            Ok(done) => {
                let (after, last) = goal(goals(state, terms).0, term);
                match last {
                    Ok(last) => (
                        after,
                        Ok::<Seq<QueryTermV>, ParserError>(done + seq![last]),
                    ),
                    Err(e) => (after, Err(e)),
                }
            },
        },
{
    assert(terms.push(term).drop_last() =~= terms);
    if let Ok(done) = goals(state, terms).1 {
        if let Ok(last) = goal(goals(state, terms).0, term).1 {
            assert(done.push(last) =~= done + seq![last]);
        }
    }
}

/// In a list of goals that was translated, each comes from the term in its place.
pub proof fn law_goal_in_place(state: WorkV, terms: Seq<TermV>, i: int) -> (before: WorkV)
    requires
        0 <= i < terms.len(),
        goals(state, terms).1 is Ok,
    ensures
        goals(state, terms).1->Ok_0.len() == terms.len(),
        goal(before, terms[i]).1 == Ok::<QueryTermV, ParserError>(goals(state, terms).1->Ok_0[i]),
    decreases terms.len(),
{
    let front = terms.drop_last();
    let (at, done) = goals(state, front);
    if front.len() > 0 {
        let first = law_goal_in_place(state, front, 0);
    }
    if i == terms.len() - 1 {
        at
    } else {
        law_goal_in_place(state, front, i)
    }
}

/// Every call in a translated body carries the arguments of the goal in its place, each in its own
/// place.
pub proof fn law_calls_keep_arguments(state: WorkV, terms: Seq<TermV>, i: int)
    requires
        0 <= i < terms.len(),
        goals(state, terms).1 is Ok,
        terms[i] matches TermV::Clause(name, args, _) && is_plain(name, args.len()) && !(name
            == "$call_with_default_policy"@ && args.len() == 1),
    ensures
        goals(state, terms).1->Ok_0[i] matches QueryTermV::Clause(_, args, false) && args
            == terms[i]->Clause_1,
{
    let before = law_goal_in_place(state, terms, i);
    law_call(before, terms[i]->Clause_0, terms[i]->Clause_1, terms[i]->Clause_2);
}

/// The clause split off an if-then commits to its condition: between the goals of the condition and
/// those of the consequent stands a cut that stays inside the clause.
pub proof fn law_if_then_commits(state: WorkV, prec: TermV, conq: TermV)
    ensures
        ({
            let body = seq![if_then_body(prec, conq)];
            let condition = unfold(prec, ","@);
            let consequent = unfold(conq, ","@);
            &&& body_goals(body, false).len() == condition.len() + 1 + consequent.len()
            &&& query(state, body, false).1 matches Ok(done) ==> {
                &&& done.len() == condition.len() + 1 + consequent.len()
                &&& done[condition.len() as int] == QueryTermV::BlockedCut
            }
        }),
{
    let body = if_then_body(prec, conq);
    let condition = unfold(prec, ","@);
    let consequent = unfold(conq, ","@);
    lemma_unfold_nonempty(prec, ","@);
    lemma_unfold_nonempty(conq, ","@);
    law_if_then_split(prec, conq, 0, 0);
    let terms = body_goals(seq![body], false);
    lemma_split_body(body);
    let at = condition.len() as int;
    law_marked(unfold(body, ","@), at);
    reveal_strlit("!");
    reveal_strlit("blocked_!");
    assert("!"@.len() == 1 && "blocked_!"@.len() == 9);
    assert(terms[at] == commit());
    if goals(state, terms).1 is Ok {
        let before = law_goal_in_place(state, terms, at);
        law_atom_goal(before, "blocked_!"@, None);
    }
}

/// The goals of a body that `,` joins.
proof fn lemma_split_body(body: TermV)
    requires
        unfold(body, ","@).len() > 1,
    ensures
        body_goals(seq![body], false) == mark_cuts(unfold(body, ","@)),
{
    reveal_strlit(",");
    reveal_strlit("->");
    assert(","@.len() == 1 && "->"@.len() == 2);
    assert(seq![body].drop_last() =~= Seq::empty());
    assert(all_conjuncts(Seq::empty(), false) =~= Seq::empty());
    assert(all_conjuncts(seq![body], false) =~= mark_cuts(unfold(body, ","@)));
}

/// An if-then that makes up a whole body commits to its condition too.
pub proof fn law_whole_if_then_commits(
    state: WorkV,
    prec: TermV,
    conq: TermV,
    fixity: Option<Fixity>,
    blocks_cuts: bool,
)
    ensures
        query(
            state,
            seq![TermV::Clause("->"@, seq![prec, conq], fixity)],
            blocks_cuts,
        ).1 matches Ok(done) ==> {
            let at = all_conjuncts(unfold(prec, ","@), blocks_cuts).len();
            at < done.len() && done[at as int] == QueryTermV::BlockedCut
        },
{
    let terms = body_goals(seq![TermV::Clause("->"@, seq![prec, conq], fixity)], blocks_cuts);
    law_if_then_body(prec, conq, fixity, blocks_cuts);
    let at = all_conjuncts(unfold(prec, ","@), blocks_cuts).len() as int;
    assert(terms[at] == commit());
    if goals(state, terms).1 is Ok {
        let before = law_goal_in_place(state, terms, at);
        law_atom_goal(before, "blocked_!"@, None);
        reveal_strlit("blocked_!");
        reveal_strlit("$call_with_default_policy");
    }
}

/// A rule has the name and the arguments of its head, and the goals of its body in order. What is
/// wrong with the body comes before what is wrong with the head, which must be a compound term or
/// an atom.
pub proof fn law_rule(state: WorkV, head: TermV, parts: Seq<TermV>, blocks_cuts: bool)
    ensures
        rule(state, seq![head] + parts, blocks_cuts) == ({
            let (after, body) = goals(state, body_goals(parts, blocks_cuts));
            (
                after,
                match body {
                    Err(e) => Err::<RuleV, ParserError>(e),
                    Ok(body) => match head {
                        TermV::Clause(name, args, _) => Ok(RuleV { name, args, body }),
                        TermV::Constant(ConstantV::Atom(name, _)) => Ok(
                            RuleV { name, args: Seq::empty(), body },
                        ),
                        _ => Err(ParserError::InvalidRuleHead),
                    },
                },
            )
        }),
        query(state, parts, blocks_cuts) == goals(state, body_goals(parts, blocks_cuts)),
{
    assert((seq![head] + parts).skip(1) =~= parts);
    assert((seq![head] + parts)[0] == head);
}

} // verus!
