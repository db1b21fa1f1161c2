//! The arithmetic dispatcher: a pure function from an operation name and two
//! unsigned 64-bit operands to either a result or a fault.
//!
//! The matching policy is exact and case-sensitive. The four recognized names
//! are "addition", "subtraction", "multiplication" and "division"; any other
//! name yields the sentinel value `u64::MAX` and never faults. Overflow,
//! underflow and division by zero are faults: the dispatcher reports them as
//! `MathOutcome::Fault`, and the surrounding process is expected to terminate
//! on a fault rather than answer the request.

use vstd::prelude::*;

verus! {

/// What one dispatch produces: a computed value, or an unrecoverable fault.
#[derive(Clone, Copy, Debug, PartialEq, Eq, Structural)]
pub enum MathOutcome {
    Value(u64),
    Fault,
}

/// The dispatch table of the service, over the view of the operation name.
pub open spec fn spec_math(a: u64, b: u64, op: Seq<char>) -> MathOutcome {
    if op == "addition"@ {
        if a + b <= u64::MAX {
            MathOutcome::Value((a + b) as u64)
        } else {
            MathOutcome::Fault
        }
    } else if op == "subtraction"@ {
        if a >= b {
            MathOutcome::Value((a - b) as u64)
        } else {
            MathOutcome::Fault
        }
    } else if op == "multiplication"@ {
        if a * b <= u64::MAX {
            MathOutcome::Value((a * b) as u64)
        } else {
            MathOutcome::Fault
        }
    } else if op == "division"@ {
        if b != 0 {
            MathOutcome::Value((a as int / b as int) as u64)
        } else {
            MathOutcome::Fault
        }
    } else {
        MathOutcome::Value(u64::MAX)
    }
}

/// Dispatch one arithmetic request. Total: every input gets an outcome, and
/// the outcome is exactly what the dispatch table says.
pub fn calculate(a: u64, b: u64, op: &String) -> (r: MathOutcome)
    ensures
        r == spec_math(a, b, op@),
{
    if *op == String::from_str("addition") {
        match a.checked_add(b) {
            Some(v) => MathOutcome::Value(v),
            None => MathOutcome::Fault,
        }
    } else if *op == String::from_str("subtraction") {
        match a.checked_sub(b) {
            Some(v) => MathOutcome::Value(v),
            None => MathOutcome::Fault,
        }
    } else if *op == String::from_str("multiplication") {
        match a.checked_mul(b) {
            Some(v) => MathOutcome::Value(v),
            None => MathOutcome::Fault,
        }
    } else if *op == String::from_str("division") {
        if b != 0 {
            MathOutcome::Value(a / b)
        } else {
            MathOutcome::Fault
        }
    } else {
        MathOutcome::Value(u64::MAX)
    }
}

/// For all operands with `b <= a` — no underflow — dispatching
/// "subtraction" returns exactly `a - b`.
pub proof fn lemma_subtraction_exact(a: u64, b: u64)
    requires
        b <= a,
    ensures
        spec_math(a, b, "subtraction"@) == MathOutcome::Value((a - b) as u64),
{
    reveal_strlit("addition");
    reveal_strlit("subtraction");
    assert("addition"@.len() != "subtraction"@.len());
}

/// For all operands with `b == 0`, dispatching "division" faults. A fault
/// is not answered: the process-wide fault policy terminates the whole
/// process, so the request gets no response at all.
pub proof fn lemma_division_by_zero_faults(a: u64)
    ensures
        spec_math(a, 0, "division"@) == MathOutcome::Fault,
{
    reveal_strlit("addition");
    reveal_strlit("subtraction");
    reveal_strlit("multiplication");
    reveal_strlit("division");
    assert("addition"@[0] != "division"@[0]);
}

/// For any operation name other than the four recognized ones, dispatch
/// returns the sentinel `u64::MAX` and never faults, whatever the operands.
pub proof fn lemma_unknown_operation_sentinel(a: u64, b: u64, op: Seq<char>)
    requires
        op != "addition"@,
        op != "subtraction"@,
        op != "multiplication"@,
        op != "division"@,
    ensures
        spec_math(a, b, op) == MathOutcome::Value(u64::MAX),
{
}

} // verus!
