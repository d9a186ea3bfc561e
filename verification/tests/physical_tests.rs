use radio_backend::physical::{
    IntegratedPhysicalSide, PhysicalLifecycle, PhysicalPlayerRegistry, PhysicalStorage,
    PhysicalTransport,
};
use radio_backend::queue::rules::QueueConfig;
use radio_backend::world::{
    AppConfig, AppState, AudioEngineConfig, DeviceConfig, ListenerSession, ServerConfig,
    StationConfig,
};
use std::sync::Arc;

fn assert_physical_traits<
    T: PhysicalStorage + PhysicalTransport + PhysicalPlayerRegistry + PhysicalLifecycle + Clone + Send + Sync,
>() {
}

#[test]
fn integrated_implements_physical_traits() {
    assert_physical_traits::<IntegratedPhysicalSide>();
}

#[test]
fn integrated_side_reads_shared_state() {
    let state = Arc::new(AppState {
        config: AppConfig {
            station: StationConfig { name: "S".into(), short_name: "s".into() },
            server: ServerConfig { port: 8080, base_path: "/radio".into() },
            audio_engine: AudioEngineConfig { media_path: "/media".into() },
            device: DeviceConfig { cookie_max_age_days: 1 },
            queue: QueueConfig { max_size: 1, max_user_submissions: 1, rate_limit_window_secs: 1, request_cooldown_secs: 0 },
        },
        world_id: "w-9".into(),
        listeners: vec![
            ListenerSession { display_name: "b".into() },
            ListenerSession { display_name: "a".into() },
            ListenerSession { display_name: "b".into() },
        ],
    });
    let side = IntegratedPhysicalSide::new(state.clone());
    assert_eq!(side.media_path(), "/media");
    assert_eq!(side.world_id(), "w-9");
    assert_eq!(side.server_port(), 8080);
    assert_eq!(side.base_path(), "/radio");
    assert_eq!(side.active_listener_count(), 3);
    assert_eq!(side.active_listener_names(), vec!["a".to_string(), "b".to_string()]);
    assert!(Arc::ptr_eq(side.state(), &state));
}
