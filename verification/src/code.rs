//! The directory of predicates, and what a goal refers to.
use vstd::prelude::*;

use crate::ast::Fixity;
use crate::reader::OpEntry;

verus! {

/// A predicate: its name and its arity.
pub type PredicateKey = (String, usize);

/// What a code index points at.
#[derive(Clone, Copy, Debug, PartialEq, Eq, Structural)]
pub enum IndexPtr {
    /// The code at this address.
    Index(usize),
    /// A predicate of the module that the cell names, not looked up yet.
    Module,
    Undefined,
}

/// A reference to a cell. All the goals that call one predicate share its cell, so that to define
/// the predicate is to write to the cell once.
#[derive(Clone, Copy, Debug, PartialEq, Eq, Structural)]
pub struct CodeIndex(pub usize);

/// The cells that code indices refer to. A cell, once made, stays where it is.
#[derive(Debug)]
pub struct CodeCells {
    cells: Vec<(IndexPtr, String)>,
}

impl View for CodeCells {
    type V = Seq<(IndexPtr, Seq<char>)>;

    closed spec fn view(&self) -> Seq<(IndexPtr, Seq<char>)> {
        Seq::new(self.cells@.len(), |i: int| (self.cells@[i].0, self.cells@[i].1@))
    }
}

impl CodeCells {
    /// No cells.
    pub fn new() -> (r: Self)
        ensures
            r@ == Seq::<(IndexPtr, Seq<char>)>::empty(),
    {
        let r = CodeCells { cells: Vec::new() };
        assert(r@ =~= Seq::empty());
        r
    }

    /// Makes a cell that holds `ptr` and `module`.
    pub fn allocate(&mut self, ptr: IndexPtr, module: String) -> (r: CodeIndex)
        ensures
            r.0 == old(self)@.len(),
            final(self)@ == old(self)@.push((ptr, module@)),
    {
        let at: usize = self.cells.len();
        let ghost before = self@;
        self.cells.push((ptr, module));
        assert(self@ =~= before.push((ptr, module@)));
        CodeIndex(at)
    }

    /// What a cell holds.
    pub fn get(&self, index: CodeIndex) -> (r: Option<(IndexPtr, &String)>)
        ensures
            match r {
                Some((ptr, module)) => index.0 < self@.len() && self@[index.0 as int] == (
                    ptr,
                    module@,
                ),
                None => index.0 >= self@.len(),
            },
    {
        if index.0 < self.cells.len() {
            let cell = &self.cells[index.0];
            Some((cell.0, &cell.1))
        } else {
            None
        }
    }
}

/// What `entries` hold for a predicate: the last entry made for it.
pub open spec fn lookup<V>(entries: Seq<(String, usize, V)>, key: (Seq<char>, nat)) -> Option<V>
    decreases entries.len(),
{
    if entries.len() == 0 {
        None
    } else if entries.last().0@ == key.0 && entries.last().1 == key.1 {
        Some(entries.last().2)
    } else {
        lookup(entries.drop_last(), key)
    }
}

/// A finite map whose keys are predicates.
#[derive(Debug)]
pub struct PredicateTable<V> {
    entries: Vec<(String, usize, V)>,
}

impl<V> View for PredicateTable<V> {
    type V = Map<(Seq<char>, nat), V>;

    closed spec fn view(&self) -> Map<(Seq<char>, nat), V> {
        Map::new(
            |key: (Seq<char>, nat)| lookup(self.entries@, key) is Some,
            |key: (Seq<char>, nat)| lookup(self.entries@, key)->0,
        )
    }
}

/// What is looked up after the last entry of one predicate was given another value.
proof fn lemma_lookup_update<V>(
    entries: Seq<(String, usize, V)>,
    at: int,
    value: V,
    key: (Seq<char>, nat),
)
    requires
        0 <= at < entries.len(),
        forall|j: int|
            at < j < entries.len() ==> !(entries[j].0@ == entries[at].0@ && entries[j].1
                == entries[at].1),
    ensures
        lookup(entries.update(at, (entries[at].0, entries[at].1, value)), key) == if key == (
            entries[at].0@,
            entries[at].1 as nat,
        ) {
            Some(value)
        } else {
            lookup(entries, key)
        },
    decreases entries.len(),
{
    let updated = entries.update(at, (entries[at].0, entries[at].1, value));
    if at == entries.len() - 1 {
        assert(updated.drop_last() =~= entries.drop_last());
    } else {
        let front = entries.drop_last();
        assert(updated.drop_last() =~= front.update(at, (front[at].0, front[at].1, value)));
        lemma_lookup_update(front, at, value, key);
    }
}

/// What is looked up in the entries up to one of them, where none after it is for `key`.
proof fn lemma_lookup_prefix<V>(entries: Seq<(String, usize, V)>, len: int, key: (Seq<char>, nat))
    requires
        0 <= len <= entries.len(),
        forall|j: int|
            len <= j < entries.len() ==> !(entries[j].0@ == key.0 && entries[j].1 == key.1),
    ensures
        lookup(entries, key) == lookup(entries.take(len), key),
    decreases entries.len(),
{
    if len == entries.len() {
        assert(entries.take(len) =~= entries);
    } else {
        lemma_lookup_prefix(entries.drop_last(), len, key);
        assert(entries.drop_last().take(len) =~= entries.take(len));
    }
}

impl<V: Copy> PredicateTable<V> {
    /// The empty table.
    pub fn new() -> (r: Self)
        ensures
            r@ == Map::<(Seq<char>, nat), V>::empty(),
    {
        let r = PredicateTable { entries: Vec::new() };
        assert(r@ =~= Map::empty());
        r
    }

    /// Where the last entry for a predicate stands.
    fn position(&self, name: &String, arity: usize) -> (r: Option<usize>)
        ensures
            match r {
                Some(i) => {
                    &&& i < self.entries@.len()
                    &&& self.entries@[i as int].0@ == name@
                    &&& self.entries@[i as int].1 == arity
                    &&& forall|j: int|
                        i < j < self.entries@.len() ==> !(self.entries@[j].0@ == name@
                            && self.entries@[j].1 == arity)
                },
                None => forall|j: int|
                    0 <= j < self.entries@.len() ==> !(self.entries@[j].0@ == name@
                        && self.entries@[j].1 == arity),
            },
    {
        let mut i: usize = self.entries.len();
        while i > 0
            invariant
                i <= self.entries@.len(),
                forall|j: int|
                    i <= j < self.entries@.len() ==> !(self.entries@[j].0@ == name@
                        && self.entries@[j].1 == arity),
            decreases i,
        {
            i -= 1;
            if self.entries[i].0 == *name && self.entries[i].1 == arity {
                return Some(i);
            }
        }
        None
    }

    /// The value for a predicate.
    pub fn get(&self, name: &String, arity: usize) -> (r: Option<V>)
        ensures
            r == if self@.contains_key((name@, arity as nat)) {
                Some(self@[(name@, arity as nat)])
            } else {
                None
            },
    {
        let ghost key = (name@, arity as nat);
        match self.position(name, arity) {
            Some(i) => {
                proof {
                    lemma_lookup_prefix(self.entries@, i + 1, key);
                    assert(self.entries@.take(i + 1).last() == self.entries@[i as int]);
                }
                Some(self.entries[i].2)
            },
            None => {
                proof {
                    lemma_lookup_prefix(self.entries@, 0, key);
                }
                None
            },
        }
    }

    /// Sets the value for a predicate.
    pub fn insert(&mut self, name: String, arity: usize, value: V)
        ensures
            final(self)@ == old(self)@.insert((name@, arity as nat), value),
    {
        let ghost before = self.entries@;
        let ghost key = (name@, arity as nat);
        match self.position(&name, arity) {
            Some(i) => {
                self.entries[i].2 = value;
                proof {
                    assert(self.entries@ =~= before.update(
                        i as int,
                        (before[i as int].0, before[i as int].1, value),
                    ));
                    assert forall|k: (Seq<char>, nat)|
                        lookup(self.entries@, k) == if k == key {
                            Some(value)
                        } else {
                            lookup(before, k)
                        } by {
                        lemma_lookup_update(before, i as int, value, k);
                    }
                }
            },
            None => {
                self.entries.push((name, arity, value));
                assert(self.entries@.drop_last() =~= before);
            },
        }
        assert(self@ =~= old(self)@.insert(key, value));
    }
}

/// The predicates of a module, each with its code index.
pub type CodeDir = PredicateTable<CodeIndex>;

/// A predicate that the machine implements itself.
#[derive(Clone, Copy, Debug, PartialEq, Eq, Structural)]
pub enum BuiltInClauseType {
    PartialString,
    /// Any other, by its number.
    Numbered(usize),
}

/// The form of a goal that is not looked up in a code directory.
#[derive(Clone, Copy, Debug, PartialEq, Eq, Structural)]
pub enum ClauseForm {
    BuiltIn(BuiltInClauseType),
    /// A call of its first argument with the others.
    CallN,
}

/// The directories of one module.
#[derive(Debug)]
pub struct IndexStore {
    pub code_dir: CodeDir,
    pub op_dir: Vec<OpEntry>,
    /// The predicates whose goals have a form of their own.
    pub forms: PredicateTable<ClauseForm>,
}

impl IndexStore {
    /// Empty directories.
    pub fn new() -> (r: Self)
        ensures
            r.code_dir@ == Map::<(Seq<char>, nat), CodeIndex>::empty(),
            r.op_dir@ == Seq::<OpEntry>::empty(),
            r.forms@ == Map::<(Seq<char>, nat), ClauseForm>::empty(),
    {
        IndexStore {
            code_dir: PredicateTable::new(),
            op_dir: Vec::new(),
            forms: PredicateTable::new(),
        }
    }
}

/// What a goal calls.
#[derive(Debug)]
pub enum ClauseType {
    BuiltIn(BuiltInClauseType),
    CallN,
    Named(String, CodeIndex),
    Op(String, Fixity, CodeIndex),
}

/// The view of a `ClauseType`.
pub enum ClauseTypeV {
    BuiltIn(BuiltInClauseType),
    CallN,
    Named(Seq<char>, CodeIndex),
    Op(Seq<char>, Fixity, CodeIndex),
}

impl View for ClauseType {
    type V = ClauseTypeV;

    open spec fn view(&self) -> ClauseTypeV {
        match *self {
            ClauseType::BuiltIn(b) => ClauseTypeV::BuiltIn(b),
            ClauseType::CallN => ClauseTypeV::CallN,
            ClauseType::Named(name, index) => ClauseTypeV::Named(name@, index),
            ClauseType::Op(name, fixity, index) => ClauseTypeV::Op(name@, fixity, index),
        }
    }
}

/// What goals are resolved against: the directory of the module that is being read, a directory
/// behind it, the forms and the cells.
pub struct IndicesV {
    pub code_dir: Map<(Seq<char>, nat), CodeIndex>,
    pub static_code_dir: Map<(Seq<char>, nat), CodeIndex>,
    pub forms: Map<(Seq<char>, nat), ClauseForm>,
    pub cells: Seq<(IndexPtr, Seq<char>)>,
}

impl IndicesV {
    /// The index that a predicate has already: in the module's own directory, or else in the one
    /// behind it.
    pub open spec fn known(self, key: (Seq<char>, nat)) -> Option<CodeIndex> {
        if self.code_dir.contains_key(key) {
            Some(self.code_dir[key])
        } else if self.static_code_dir.contains_key(key) {
            Some(self.static_code_dir[key])
        } else {
            None
        }
    }

    /// The index of a predicate: the one it has, or else a new cell that is undefined.
    pub open spec fn code_index(self, key: (Seq<char>, nat)) -> CodeIndex {
        match self.known(key) {
            Some(index) => index,
            None => CodeIndex(self.cells.len() as usize),
        }
    }

    /// A new cell at the end.
    pub open spec fn with_cell(self, ptr: IndexPtr, module: Seq<char>) -> IndicesV {
        IndicesV { cells: self.cells.push((ptr, module)), ..self }
    }

    /// After a predicate's index was asked for: the module's own directory holds it.
    pub open spec fn with_code_index(self, key: (Seq<char>, nat)) -> IndicesV {
        let grown = if self.known(key) is None {
            self.with_cell(IndexPtr::Undefined, Seq::empty())
        } else {
            self
        };
        IndicesV { code_dir: self.code_dir.insert(key, self.code_index(key)), ..grown }
    }

    /// What a goal calls.
    pub open spec fn clause_type(
        self,
        key: (Seq<char>, nat),
        fixity: Option<Fixity>,
    ) -> ClauseTypeV {
        if self.forms.contains_key(key) {
            match self.forms[key] {
                ClauseForm::BuiltIn(b) => ClauseTypeV::BuiltIn(b),
                ClauseForm::CallN => ClauseTypeV::CallN,
            }
        } else {
            match fixity {
                Some(fixity) => ClauseTypeV::Op(key.0, fixity, self.code_index(key)),
                None => ClauseTypeV::Named(key.0, self.code_index(key)),
            }
        }
    }

    /// After a goal was resolved: only a goal without a form of its own asks for an index.
    pub open spec fn with_clause_type(self, key: (Seq<char>, nat)) -> IndicesV {
        if self.forms.contains_key(key) {
            self
        } else {
            self.with_code_index(key)
        }
    }
}

/// The directories that the goals of one clause are resolved against. What changes them says last
/// that the module's own directories and the cells are still those that were borrowed.
pub struct CompositeIndices<'a, 'b> {
    pub local: &'a mut IndexStore,
    pub static_code_dir: Option<&'b CodeDir>,
    pub cells: &'a mut CodeCells,
}

impl<'a, 'b> View for CompositeIndices<'a, 'b> {
    type V = IndicesV;

    open spec fn view(&self) -> IndicesV {
        IndicesV {
            code_dir: self.local.code_dir@,
            static_code_dir: match self.static_code_dir {
                Some(dir) => dir@,
                None => Map::empty(),
            },
            forms: self.local.forms@,
            cells: self.cells@,
        }
    }
}

impl<'a, 'b> CompositeIndices<'a, 'b> {
    /// The index of a predicate, entered into the module's own directory.
    pub fn get_code_index(&mut self, name: String, arity: usize) -> (r: CodeIndex)
        ensures
            r == old(self)@.code_index((name@, arity as nat)),
            final(self)@ == old(self)@.with_code_index((name@, arity as nat)),
            final(self).local.op_dir == old(self).local.op_dir,
            *final(final(self).local) == *final(old(self).local),
            *final(final(self).cells) == *final(old(self).cells),
    {
        let known: Option<CodeIndex> = match self.local.code_dir.get(&name, arity) {
            Some(index) => Some(index),
            None => match &self.static_code_dir {
                Some(dir) => dir.get(&name, arity),
                None => None,
            },
        };

        let index: CodeIndex = match known {
            Some(index) => index,
            None => {
                proof {
                    reveal_strlit("");
                }
                let module = "".to_owned();
                assert(module@ =~= Seq::empty());
                self.cells.allocate(IndexPtr::Undefined, module)
            },
        };
        self.local.code_dir.insert(name, arity, index);
        index
    }

    /// What a goal calls.
    pub fn get_clause_type(&mut self, name: String, arity: usize, fixity: Option<Fixity>) -> (r:
        ClauseType)
        ensures
            r@ == old(self)@.clause_type((name@, arity as nat), fixity),
            final(self)@ == old(self)@.with_clause_type((name@, arity as nat)),
            final(self).local.op_dir == old(self).local.op_dir,
            *final(final(self).local) == *final(old(self).local),
            *final(final(self).cells) == *final(old(self).cells),
    {
        match self.local.forms.get(&name, arity) {
            Some(ClauseForm::BuiltIn(b)) => ClauseType::BuiltIn(b),
            Some(ClauseForm::CallN) => ClauseType::CallN,
            None => {
                let index = self.get_code_index(name.clone(), arity);
                match fixity {
                    Some(fixity) => ClauseType::Op(name, fixity, index),
                    None => ClauseType::Named(name, index),
                }
            },
        }
    }
}

} // verus!
