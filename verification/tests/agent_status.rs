use labolabo_app::agent_status::{status_priority, task_status, AgentStatus};

#[test]
fn waiting_for_input_outranks_every_other_status() {
    assert_eq!(task_status(&[AgentStatus::Idle, AgentStatus::Running, AgentStatus::WaitingForInput, AgentStatus::Starting]), Some(AgentStatus::WaitingForInput));
    assert_eq!(task_status(&[AgentStatus::Idle, AgentStatus::Starting]), Some(AgentStatus::Starting));
    assert_eq!(task_status(&[AgentStatus::Ended, AgentStatus::Idle]), Some(AgentStatus::Idle));
    assert_eq!(task_status(&[]), None);
}

#[test]
fn among_equally_urgent_statuses_the_last_one_is_shown() {
    assert_eq!(task_status(&[AgentStatus::NoStatus, AgentStatus::Ended]), Some(AgentStatus::Ended));
    assert_eq!(task_status(&[AgentStatus::Ended, AgentStatus::NoStatus]), Some(AgentStatus::NoStatus));
}

#[test]
fn priorities_rank_statuses() {
    assert_eq!(status_priority(AgentStatus::WaitingForInput), 4);
    assert_eq!(status_priority(AgentStatus::Running), 3);
    assert_eq!(status_priority(AgentStatus::Starting), 2);
    assert_eq!(status_priority(AgentStatus::Idle), 1);
    assert_eq!(status_priority(AgentStatus::NoStatus), 0);
    assert_eq!(status_priority(AgentStatus::Ended), 0);
}
