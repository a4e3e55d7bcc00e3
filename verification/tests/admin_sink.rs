use passenger_resource_management::application::ports::AdminEventSink;
use passenger_resource_management::domain::admin_event::{AdminAction, AdminEvent, TargetKind};
use passenger_resource_management::domain::crew_lead::CrewLeadId;
use passenger_resource_management::domain::timestamp::Timestamp;
use passenger_resource_management::infrastructure::in_memory_admin_event_sink::InMemoryAdminEventSink;

fn sample_event() -> AdminEvent {
    AdminEvent {
        id: "test-event-1".into(),
        actor_id: CrewLeadId("cl-1".into()),
        action: AdminAction::CrewLeadBootstrapped,
        target_kind: TargetKind::CrewLead,
        target_id: "cl-1".into(),
        timestamp: Timestamp(0),
        details: None,
    }
}

#[test]
fn new_sink_is_empty_with_zero_len() {
    let sink = InMemoryAdminEventSink::new();
    assert!(sink.is_empty());
    assert_eq!(sink.len(), 0);
}

#[test]
fn append_increments_len_and_clears_is_empty() {
    let mut sink = InMemoryAdminEventSink::new();
    sink.append(sample_event());
    assert!(!sink.is_empty());
    assert_eq!(sink.len(), 1);
}
