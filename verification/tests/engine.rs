use poor_downloader::engine::{is_rpc_ready_line, startup_step, EngineError, StartupEvent, StartupStep};

#[test]
fn ready_line_is_recognised() {
    assert!(is_rpc_ready_line("05/01 12:00:00 [NOTICE] IPv4 RPC: listening on TCP port 6800"));
    assert!(!is_rpc_ready_line("05/01 12:00:00 [NOTICE] IPv6 RPC: listening on TCP port 6800"));
    assert!(!is_rpc_ready_line(""));
}

#[test]
fn startup_steps() {
    assert_eq!(
        startup_step(&StartupEvent::Line("[NOTICE] IPv4 RPC: listening on TCP port 6800".to_string())),
        StartupStep::Ready
    );
    assert_eq!(
        startup_step(&StartupEvent::Line("starting".to_string())),
        StartupStep::KeepWaiting
    );
    assert_eq!(
        startup_step(&StartupEvent::EndOfOutput),
        StartupStep::Failed(EngineError::NotListening)
    );
    assert_eq!(
        startup_step(&StartupEvent::ReadFailed),
        StartupStep::Failed(EngineError::NotListening)
    );
    assert_eq!(startup_step(&StartupEvent::Elapsed), StartupStep::Failed(EngineError::Elapsed));
}
