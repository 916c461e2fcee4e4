use inference_gateway::session::{
    GpuSession, GpuSessionError, GpuSessionEvent, GpuSessionState, GpuType, GPU_TASK_QUEUE,
};
use uuid::Uuid;

#[test]
fn cloud_run_gpu_minimums_match_supported_types() {
    assert_eq!(GpuType::NvidiaL4.cloud_run_name(), "nvidia-l4");
    assert_eq!(GpuType::NvidiaL4.minimum_cpu(), 4);
    assert_eq!(GpuType::NvidiaL4.minimum_memory_gib(), 16);
    assert_eq!(GpuType::NvidiaRtxPro6000.cloud_run_name(), "nvidia-rtx-pro-6000");
    assert_eq!(GpuType::NvidiaRtxPro6000.minimum_cpu(), 20);
    assert_eq!(GpuType::NvidiaRtxPro6000.minimum_memory_gib(), 80);
}

#[test]
fn gpu_session_reaches_released_state_after_generation() {
    let mut session = GpuSession::new(Uuid::nil().as_u128());
    session.apply(GpuSessionEvent::Admit).unwrap();
    session.apply(GpuSessionEvent::EndpointReady).unwrap();
    session.apply(GpuSessionEvent::GenerationStarted).unwrap();
    session.apply(GpuSessionEvent::GenerationFinished { generated_tokens: 42 }).unwrap();
    session.apply(GpuSessionEvent::QuotaReconciled).unwrap();
    session.apply(GpuSessionEvent::IdleReleaseFinished).unwrap();
    assert_eq!(session.state, GpuSessionState::Released);
    assert_eq!(session.generated_tokens, 42);
}

#[test]
fn gpu_session_rejects_skipping_endpoint_readiness() {
    let mut session = GpuSession::new(Uuid::nil().as_u128());
    session.apply(GpuSessionEvent::Admit).unwrap();
    let err = session.apply(GpuSessionEvent::GenerationStarted).unwrap_err();
    assert_eq!(
        err,
        GpuSessionError::InvalidTransition {
            from: GpuSessionState::Admitted,
            event: GpuSessionEvent::GenerationStarted,
        }
    );
}

#[test]
fn refused_events_change_nothing() {
    let mut session = GpuSession::new(7);
    let event = GpuSessionEvent::GenerationFinished { generated_tokens: 42 };
    let error = session.apply(event).unwrap_err();
    assert_eq!(session, GpuSession::new(7));
    assert_eq!(
        error.message(),
        "invalid gpu session transition from Queued with GenerationFinished { generated_tokens: 42 }"
    );
    assert_eq!(
        error.message(),
        format!(
            "invalid gpu session transition from {:?} with {:?}",
            GpuSessionState::Queued,
            event
        )
    );
}

#[test]
fn failure_is_taken_in_every_state_and_is_final() {
    let mut session = GpuSession::new(1);
    session.apply(GpuSessionEvent::Admit).unwrap();
    session.apply(GpuSessionEvent::Fail).unwrap();
    assert_eq!(session.state, GpuSessionState::Failed);
    session.apply(GpuSessionEvent::Fail).unwrap();
    assert!(session.apply(GpuSessionEvent::EndpointReady).is_err());
    assert_eq!(session.state, GpuSessionState::Failed);
    assert_eq!(GPU_TASK_QUEUE, "inference-gpu");
}
