use diagramide::workspace::{
    default_workspace_name, mix_workspace_id, next_workspace_id, promotion, Promotion,
};

#[test]
fn unnamed_workspaces_are_called_default() {
    assert_eq!(default_workspace_name(), "Default");
}

#[test]
fn workspace_ids_mix_time_and_rotated_entropy() {
    assert_eq!(mix_workspace_id(0, 1), 1 << 17);
    assert_eq!(mix_workspace_id(5, 1 << 47), 6);
    assert_eq!(mix_workspace_id(u64::MAX, 1), (1 << 17) - 1);
    assert_eq!(mix_workspace_id(7, 0), 7);
    assert_eq!(mix_workspace_id(0, 0x1234), 0x1234u64.rotate_left(17));
}

#[test]
fn fresh_workspace_ids_are_made_from_the_time() {
    let a = next_workspace_id(1_000);
    let b = next_workspace_id(1_000);
    let _ = (a, b);
}

#[test]
fn loading_promotes_the_saved_active_workspace() {
    assert_eq!(promotion(5, &vec![]), Promotion::Legacy);
    assert_eq!(promotion(5, &vec![3, 5, 9]), Promotion::Active(1));
    assert_eq!(promotion(4, &vec![3, 5, 9]), Promotion::Fallback(0));
}
