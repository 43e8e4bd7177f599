use codex_session::scroll::{MouseScrollDirection, ScrollAcceleration};

fn millis(ms: u64) -> u64 {
    ms * 1_000_000
}

#[test]
fn continuous_scroll_accelerates_and_pause_or_reversal_resets_it() {
    let mut acceleration = ScrollAcceleration::default();
    let started_at = millis(1_000_000);
    let rows = (0..12)
        .map(|step| {
            acceleration.rows_at(MouseScrollDirection::Down, started_at + millis(step * 17))
        })
        .collect::<Vec<_>>();

    assert_eq!(rows, vec![3, 4, 5, 6, 7, 7, 8, 9, 9, 10, 10, 10]);
    assert_eq!(
        (
            acceleration.rows_at(MouseScrollDirection::Down, started_at + millis(500)),
            acceleration.rows_at(MouseScrollDirection::Up, started_at + millis(517)),
        ),
        (3, 3),
    );

    let mut rapid = ScrollAcceleration::default();
    let capped_rows = (0..100)
        .map(|step| rapid.rows_at(MouseScrollDirection::Down, started_at + millis(step)))
        .collect::<Vec<_>>();
    assert_eq!(capped_rows.last(), Some(&15));
    assert!(capped_rows.iter().all(|rows| *rows <= 15));
}
