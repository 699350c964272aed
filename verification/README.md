# codd

The relational model of E. F. Codd's 1970 paper "A Relational Model of Data
for Large Shared Data Banks": relations as sets of tuples, the sample data of
the paper, and the operations of its section 2.1, with their behaviour stated
in contracts and proved by Verus.

- `src/value.rs`: values (integers and strings) and their mathematical content.
- `src/order.rs`: the order on values and tuples, proved a strict total order.
- `src/tuple_set.rs`: sets of tuples, kept without repeats in increasing order.
- `src/relation.rs`: relations, `relation`, projection, permutation, restriction.
- `src/join.rs`: natural join and composition.
- `src/comparison.rs`: comparing a relation with an expected set of tuples.
- `src/render.rs`: values and relations as text (a framed table).
- `src/data.rs`: the relations of the paper's figures.
- `src/laws.rs`, `src/join_laws.rs`: properties relating the operations.
- `src/facts.rs`: facts about the paper's employee data (keys, references).
- `src/figures.rs`: the results of the paper's figures, derived from the
  operations' contracts.
- `app/main.rs`: prints every figure and checks each operation's result.
- `tests/`: the figures of the paper and the laws on concrete relations.
