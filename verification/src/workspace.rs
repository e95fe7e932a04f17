//! Two decisions of the workspace window: which Task is selected when the
//! window opens, and what a pane's terminal starts with.
use vstd::prelude::*;
use crate::text::{strings_view, str_is};

verus! {

/// The Task selected at start: the persisted selection while it still
/// names one of the Tasks, otherwise the first Task, otherwise none.
pub open spec fn initial_selection_of(saved: Option<Seq<char>>, task_ids: Seq<Seq<char>>) -> Option<Seq<char>> {
    match saved {
        Some(id) => if task_ids.contains(id) {
            Some(id)
        } else if task_ids.len() > 0 {
            Some(task_ids[0])
        } else {
            None
        },
        None => if task_ids.len() > 0 {
            Some(task_ids[0])
        } else {
            None
        },
    }
}

/// The Task selected at start, from the persisted selection and the Task
/// ids in sidebar order.
pub fn initial_selection(saved: Option<String>, task_ids: &Vec<String>) -> (r: Option<String>)
    ensures
        match r {
            Some(t) => initial_selection_of(
                match saved {
                    Some(s) => Some(s@),
                    None => None,
                },
                strings_view(task_ids@),
            ) == Some(t@),
            None => initial_selection_of(
                match saved {
                    Some(s) => Some(s@),
                    None => None,
                },
                strings_view(task_ids@),
            ) is None,
        },
{
    let ghost ids = strings_view(task_ids@);
    if let Some(id) = saved {
        let n = task_ids.len();
        let mut i: usize = 0;
        while i < n
            invariant
                n == task_ids@.len(),
                ids == strings_view(task_ids@),
                saved == Some(id),
                i <= n,
                forall|j: int| 0 <= j < i ==> ids[j] != id@,
            decreases n - i,
        {
            assert(ids[i as int] == task_ids@[i as int]@);
            if str_is(task_ids[i].as_str(), id.as_str()) {
                assert(ids[i as int] == id@);
                assert(ids.contains(id@));
                return Some(id);
            }
            i += 1;
        }
        assert(!ids.contains(id@));
    }
    if task_ids.len() > 0 {
        assert(ids[0] == task_ids@[0]@);
        Some(String::from_str(task_ids[0].as_str()))
    } else {
        None
    }
}

/// What a pane's terminal starts with: a command asked for explicitly
/// wins; otherwise, with auto-resume on, the agent's resume command when
/// the pane has a session to resume; otherwise the plain shell (`None`).
pub open spec fn startup_command_of(
    override_command: Option<Seq<char>>,
    auto_resume_enabled: bool,
    resume_command: Option<Seq<char>>,
) -> Option<Seq<char>> {
    match override_command {
        Some(c) => Some(c),
        None => if auto_resume_enabled {
            resume_command
        } else {
            None
        },
    }
}

/// The command a pane's terminal starts with. `resume_command` is the
/// agent's resume command when the pane has a resumable session, `None`
/// otherwise.
pub fn pane_startup_command(
    override_command: Option<String>,
    auto_resume_enabled: bool,
    resume_command: Option<String>,
) -> (r: Option<String>)
    ensures
        match r {
            Some(c) => startup_command_of(
                match override_command {
                    Some(o) => Some(o@),
                    None => None,
                },
                auto_resume_enabled,
                match resume_command {
                    Some(o) => Some(o@),
                    None => None,
                },
            ) == Some(c@),
            None => startup_command_of(
                match override_command {
                    Some(o) => Some(o@),
                    None => None,
                },
                auto_resume_enabled,
                match resume_command {
                    Some(o) => Some(o@),
                    None => None,
                },
            ) is None,
        },
{
    match override_command {
        Some(c) => Some(c),
        None => if auto_resume_enabled {
            resume_command
        } else {
            None
        },
    }
}

} // verus!
