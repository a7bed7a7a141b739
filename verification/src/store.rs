//! The table of circuits, held in a concurrent map of the `dashmap` crate.

use vstd::prelude::*;

use dashmap::DashMap;

use crate::circuit::CircuitState;

verus! {

/// `dashmap::DashMap`, as an opaque type.
#[verifier::external_type_specification]
#[verifier::external_body]
#[verifier::reject_recursive_types(K)]
#[verifier::reject_recursive_types(V)]
#[verifier::reject_recursive_types(S)]
pub struct ExDashMap<K, V, S>(DashMap<K, V, S>);

/// The circuits that a table holds, by tool name. Every function here that changes a table takes
/// it by `&mut`, so a table that is only lent out keeps its circuits.
pub uninterp spec fn circuits_in(table: DashMap<String, CircuitState>) -> Map<
    Seq<char>,
    CircuitState,
>;

/// Calls `DashMap::new`: the new table holds nothing.
#[verifier::external_body]
pub(crate) fn new_table() -> (table: DashMap<String, CircuitState>)
    ensures
        (circuits_in(table) == Map::<Seq<char>, CircuitState>::empty()),
{
    DashMap::new()
}

/// Calls `DashMap::contains_key`: whether the table holds a circuit under this name.
#[verifier::external_body]
pub(crate) fn table_contains(table: &DashMap<String, CircuitState>, tool_name: &str) -> (found:
    bool)
    ensures
        found == circuits_in(*table).dom().contains(tool_name@),
{
    table.contains_key(tool_name)
}

/// Calls `DashMap::get` and copies the circuit out of the guard that it returns: the circuit
/// held under this name, or nothing.
#[verifier::external_body]
pub(crate) fn table_get(table: &DashMap<String, CircuitState>, tool_name: &str) -> (circuit: Option<
    CircuitState,
>)
    ensures
        circuit == (if circuits_in(*table).dom().contains(tool_name@) {
            Some(circuits_in(*table)[tool_name@])
        } else {
            None
        }),
{
    table.get(tool_name).map(|entry| *entry.value())
}

/// Calls `DashMap::entry` and `Entry::or_insert`: a circuit that the table already holds under
/// this name stays, otherwise the given one is held from now on.
#[verifier::external_body]
pub(crate) fn table_or_insert(
    table: &mut DashMap<String, CircuitState>,
    tool_name: String,
    circuit: CircuitState,
)
    ensures
        circuits_in(*final(table)) == (if circuits_in(*old(table)).dom().contains(tool_name@) {
            circuits_in(*old(table))
        } else {
            circuits_in(*old(table)).insert(tool_name@, circuit)
        }),
{
    table.entry(tool_name).or_insert(circuit);
}

/// Calls `DashMap::insert`: the given circuit is held under this name from now on, and all
/// others stay.
#[verifier::external_body]
pub(crate) fn table_insert(
    table: &mut DashMap<String, CircuitState>,
    tool_name: String,
    circuit: CircuitState,
)
    ensures
        circuits_in(*final(table)) == circuits_in(*old(table)).insert(tool_name@, circuit),
{
    table.insert(tool_name, circuit);
}

} // verus!
