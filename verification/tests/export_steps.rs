use panicbase::gallery_afc::{export_after_copy, export_after_reconnect, CopyEvent, ExportAction, ExportTally};

fn fresh() -> ExportTally {
    ExportTally { exported: 0, failed: 0, skipped_cloud: 0, consecutive_errors: 0, completed_ids: Vec::new() }
}

fn is(a: &ExportAction, b: ExportAction) -> bool {
    matches!(
        (a, b),
        (ExportAction::Continue, ExportAction::Continue)
            | (ExportAction::Pause, ExportAction::Pause)
            | (ExportAction::Done, ExportAction::Done)
            | (ExportAction::Reconnect, ExportAction::Reconnect)
    )
}

#[test]
fn copies_and_cloud_files_complete() {
    let (t, a) = export_after_copy(fresh(), "id1", CopyEvent::Copied);
    assert!(is(&a, ExportAction::Continue));
    let (t, a) = export_after_copy(t, "id2", CopyEvent::ICloudOnly);
    assert!(is(&a, ExportAction::Continue));
    assert_eq!((t.exported, t.skipped_cloud, t.failed), (1, 1, 0));
    assert_eq!(t.completed_ids, vec!["id1".to_string(), "id2".to_string()]);
}

#[test]
fn third_failure_in_a_row_asks_for_a_new_session() {
    let (t, a) = export_after_copy(fresh(), "a", CopyEvent::Failed { device_alive: true });
    assert!(is(&a, ExportAction::Continue));
    let (t, a) = export_after_copy(t, "b", CopyEvent::Failed { device_alive: true });
    assert!(is(&a, ExportAction::Continue));
    let (t, a) = export_after_copy(t, "c", CopyEvent::Failed { device_alive: true });
    assert!(is(&a, ExportAction::Reconnect));
    assert_eq!((t.failed, t.consecutive_errors), (3, 3));
    let (t, a) = export_after_reconnect(t, true);
    assert!(is(&a, ExportAction::Continue));
    assert_eq!(t.consecutive_errors, 0);
    let (_, a) = export_after_reconnect(t, false);
    assert!(is(&a, ExportAction::Pause));
}

#[test]
fn lost_device_pauses_and_cancel_ends() {
    let (t, a) = export_after_copy(fresh(), "a", CopyEvent::Failed { device_alive: false });
    assert!(is(&a, ExportAction::Pause));
    assert_eq!((t.failed, t.consecutive_errors), (0, 1));
    let (_, a) = export_after_copy(fresh(), "a", CopyEvent::Disconnected);
    assert!(is(&a, ExportAction::Pause));
    let (t, a) = export_after_copy(fresh(), "a", CopyEvent::Cancelled);
    assert!(is(&a, ExportAction::Done));
    assert!(t.completed_ids.is_empty());
}
