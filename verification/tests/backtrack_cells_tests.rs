use codex_session::backtrack::cells::{
    agent_group_count, backtrack_code_summary, backtrack_transcript_prompts, has_backtrack_target,
    nth_user_position, user_count, HistoryCell, UserHistoryCell,
};
use codex_session::backtrack::state::NO_PREVIOUS_MESSAGE_TO_EDIT;

fn user(message: &str) -> HistoryCell {
    HistoryCell::User(UserHistoryCell {
        message: message.to_string(),
        text_elements: Vec::new(),
        local_image_paths: Vec::new(),
        remote_image_urls: Vec::new(),
    })
}

fn agent() -> HistoryCell {
    HistoryCell::Agent {
        is_stream_continuation: false,
    }
}

#[test]
fn agent_group_count_ignores_context_compacted_marker() {
    let cells = vec![agent(), HistoryCell::Other, agent()];
    assert_eq!(agent_group_count(&cells), 2);
}

#[test]
fn backtrack_target_requires_user_message() {
    let mut cells = vec![agent(), HistoryCell::Other];

    assert!(!has_backtrack_target(&cells));

    cells.push(user("hello"));

    assert!(has_backtrack_target(&cells));
}

#[test]
fn backtrack_unavailable_info_message_snapshot() {
    assert_eq!(NO_PREVIOUS_MESSAGE_TO_EDIT, "No previous message to edit.");
}

#[test]
fn only_prompts_since_the_last_session_start_count() {
    let cells = vec![
        user("before"),
        HistoryCell::SessionInfo,
        user("first"),
        agent(),
        HistoryCell::Agent {
            is_stream_continuation: true,
        },
        user("second"),
    ];
    assert_eq!(user_count(&cells), 2);
    assert_eq!(nth_user_position(&cells, 0), Some(2));
    assert_eq!(nth_user_position(&cells, 1), Some(5));
    assert_eq!(nth_user_position(&cells, 2), None);
    assert_eq!(agent_group_count(&cells), 1);
    let prompts = backtrack_transcript_prompts(&cells, &Vec::new());
    assert_eq!(
        prompts
            .iter()
            .map(|prompt| prompt.text.as_str())
            .collect::<Vec<_>>(),
        vec!["first", "second"]
    );
}

#[test]
fn code_summary_tells_of_changed_files() {
    let change = |heading: &str| HistoryCell::FileChange {
        heading: Some(heading.to_string()),
    };
    let cells = vec![
        user("a"),
        change("Edited a.rs (+1 -0)"),
        user("b"),
        agent(),
    ];
    assert!(backtrack_code_summary(&cells, 0, 2).contains("Edited a.rs (+1 -0)"));
    assert_eq!(backtrack_code_summary(&cells, 2, 4), "No code changes");
}
