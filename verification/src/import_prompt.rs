//! The first-launch offer to import Tasks from the earlier macOS app's
//! database: shown only while there is no Task yet, that database exists,
//! and the offer has never been answered.
use vstd::prelude::*;

verus! {

/// Whether the import prompt is shown: no Task yet, the old database
/// exists, and the prompt has not been answered.
pub fn should_show_import_prompt(has_any_task: bool, swift_db_exists: bool, prompt_answered: bool) -> (r: bool)
    ensures
        r == (!has_any_task && swift_db_exists && !prompt_answered),
{
    !has_any_task && swift_db_exists && !prompt_answered
}

} // verus!
