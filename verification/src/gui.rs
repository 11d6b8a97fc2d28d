//! Rules of the desktop front end's commands.
use vstd::prelude::*;
use vstd::string::*;
use crate::decision::DecisionEngine;

verus! {

/// Problem notification.
#[derive(Debug, Clone, PartialEq, Eq)]
pub struct ProblemNotification {
    pub severity: String,
    pub title: String,
    pub message: String,
    pub timestamp: String,
}

/// Sets the engine's autonomy level where it is at most 100; a higher level
/// is refused and leaves the engine as it was.
pub fn set_autonomy_level<S, K>(engine: &mut DecisionEngine<S, K>, level: u8) -> (r: Result<(), String>)
    ensures
        r is Ok <==> level <= 100,
        r matches Err(e) ==> e@ == "Autonomy level must be 0-100"@,
        r is Ok ==> final(engine).autonomy() == level,
        r is Err ==> final(engine).autonomy() == old(engine).autonomy(),
        final(engine).state_handle() == old(engine).state_handle(),
        final(engine).knowledge_store() == old(engine).knowledge_store(),
{
    if level > 100 {
        return Err(String::from_str("Autonomy level must be 0-100"));
    }
    engine.set_autonomy(level);
    Ok(())
}

/// The recent problems shown to the user, stamped with `timestamp`.
pub fn get_recent_problems(timestamp: String) -> (r: Vec<ProblemNotification>)
    ensures
        r@.len() == 1,
        r@[0].severity@ == "warning"@,
        r@[0].title@ == "Memory Pressure"@,
        r@[0].message@ == "Memory usage reached 85%"@,
        r@[0].timestamp == timestamp,
{
    let mut out: Vec<ProblemNotification> = Vec::new();
    out.push(
        ProblemNotification {
            severity: String::from_str("warning"),
            title: String::from_str("Memory Pressure"),
            message: String::from_str("Memory usage reached 85%"),
            timestamp,
        },
    );
    out
}

} // verus!
