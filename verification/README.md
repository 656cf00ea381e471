# toplevel

The part of a Prolog compiler that decides what a read term is: a fact, a rule, a query, a
directive or a clause of a hook; and that takes rule bodies apart into goals. A disjunction or an
if-then inside a body becomes a predicate of its own, without a name, and the body jumps to it.
Clauses that follow one another and have the same name and arity are gathered into one predicate.

The library is verified with Verus. Each verified function has a contract over a mathematical view
of its data. What is trusted stands in `reader`: `read_term`, which calls the Prolog parser,
`defrock_brackets`, `integer_to_usize` and `integer_is_negative` have contracts that are not proved;
the functions that take the parser's values over one for one (`own_term`, `own_constant`,
`own_number`, `own_integer`, `own_fixity`, `own_error`, `own_arithmetic`, `parser_fixity`) have
none; `parsed` names what the parser reads; and the parser's types are declared and opaque.

| module | what it holds |
|---|---|
| `ast` | terms, constants, numbers and errors, with their views |
| `reader` | the Prolog parser and its big integers, as far as the library calls them |
| `scan` | in which texts the parser comes to a stop |
| `code` | cells, directories, and how a goal finds the code it calls |
| `program` | goals, rules, predicates, declarations |
| `declarations` | the directives `op`, `module`, `use_module` and `non_counted_backtracking` |
| `goals` | conjunctions, cuts and the variables of a body |
| `translation` | what clauses, goals and directives mean, as functions of terms |
| `relation` | the translation of goals and bodies |
| `clauses` | the translation of clauses, and of the predicates split off them |
| `predicates` | clauses gathered into predicates |
| `batch` | one term by itself, or a file of terms |
| `weight` | why a translation ends |
| `closure` | why the head of a split-off clause has all its variables |
| `growth`, `jumps`, `laws`, `files` | what holds of the translation as a whole |

`app/` drives the library: it reads from streams and hands the terms over one at a time.
