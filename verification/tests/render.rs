use to_not_do::date::Date;
use to_not_do::render::render_uuid;
use to_not_do::task::Task;
use to_not_do::task::TaskState;

#[test]
fn test_render_uuid_zero() {
    assert_eq!(render_uuid(0), "00000000-0000-0000-0000-000000000000");
}

#[test]
fn test_render_uuid_known_value() {
    let id: u128 = 0x550e8400_e29b_41d4_a716_446655440000;
    assert_eq!(render_uuid(id), "550e8400-e29b-41d4-a716-446655440000");
}

#[test]
fn test_render_uuid_matches_uuid_crate() {
    let id = uuid::Uuid::new_v4();
    assert_eq!(render_uuid(id.as_u128()), id.to_string());
    assert_eq!(render_uuid(u128::MAX), uuid::Uuid::from_u128(u128::MAX).to_string());
    assert_eq!(render_uuid(1), uuid::Uuid::from_u128(1).to_string());
}

#[test]
fn test_render_task_block() {
    let task = Task {
        id: 0x550e8400_e29b_41d4_a716_446655440000,
        description: "buy milk".to_string(),
        state: TaskState::InProgress,
        created_at: Date::from_ymd(2026, 10, 11).unwrap(),
        updated_at: Date::from_ymd(2026, 10, 12).unwrap(),
    };
    assert_eq!(
        task.render(),
        "Task: buy milk\nState: InProgress\nCreated at: 2026-10-11\nUpdated at: 2026-10-12\nId: 550e8400-e29b-41d4-a716-446655440000"
    );
}
