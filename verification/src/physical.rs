//! The physical side a world runs on: storage, transport, player registry
//! and lifecycle, and the integrated single-process host implementing them.
use crate::text::copy_string;
use crate::world::{sorted_unique, sorted_unique_names, AppState, ListenerSession};
use std::sync::Arc;
use vstd::prelude::*;

verus! {

/// Storage the world persists into; the database handle and the metadata
/// table are reached through the host's store.
pub trait PhysicalStorage: Send + Sync {
    /// Root directory of the media files.
    fn media_path(&self) -> &str;
}

/// Audio stream and listener message delivery; both are I/O of the host and
/// carry no rule of the world.
pub trait PhysicalTransport: Send + Sync {
}

/// Who is connected.
pub trait PhysicalPlayerRegistry: Send + Sync {
    /// Number of active listener connections.
    fn active_listener_count(&self) -> usize;

    /// Names of the active listeners, sorted, each once.
    fn active_listener_names(&self) -> Vec<String>;
}

/// Identity and address of the running host.
pub trait PhysicalLifecycle: Send + Sync {
    /// The world's stable id.
    fn world_id(&self) -> &str;

    /// The public server port.
    fn server_port(&self) -> u16;

    /// The base path prefix.
    fn base_path(&self) -> &str;
}

/// The single-process host: everything runs against one shared state.
#[derive(Clone)]
pub struct IntegratedPhysicalSide {
    state: Arc<AppState>,
    media_path: String,
}

impl IntegratedPhysicalSide {
    /// The host's state.
    pub closed spec fn shared(self) -> Arc<AppState> {
        self.state
    }

    /// The host's media root.
    pub closed spec fn media_root(self) -> Seq<char> {
        self.media_path@
    }

    /// A host over the shared state; media live under the configured path.
    pub fn new(state: Arc<AppState>) -> (r: Self)
        ensures
            r.shared() == state,
            r.media_root() == state.config.audio_engine.media_path@,
    {
        let media_path = copy_string(&state.config.audio_engine.media_path);
        IntegratedPhysicalSide { state, media_path }
    }

    /// The shared state.
    pub fn state(&self) -> (r: &Arc<AppState>)
        ensures
            *r == self.shared(),
    {
        &self.state
    }
}

impl PhysicalStorage for IntegratedPhysicalSide {
    fn media_path(&self) -> (r: &str)
        ensures
            r@ == self.media_root(),
    {
        self.media_path.as_str()
    }
}

impl PhysicalTransport for IntegratedPhysicalSide {
}

impl PhysicalPlayerRegistry for IntegratedPhysicalSide {
    fn active_listener_count(&self) -> (n: usize)
        ensures
            n == self.shared().listeners.len(),
    {
        self.state.listeners.len()
    }

    fn active_listener_names(&self) -> (names: Vec<String>)
        ensures
            sorted_unique_names(self.shared().listeners@.map_values(|l: ListenerSession| l.display_name), names@),
    {
        let listeners = &self.state.listeners;
        let mut all: Vec<String> = Vec::new();
        let mut i: usize = 0;
        while i < listeners.len()
            invariant
                i <= listeners.len(),
                all@ =~= listeners@.take(i as int).map_values(|l: ListenerSession| l.display_name),
            decreases listeners.len() - i,
        {
            all.push(listeners[i].display_name.clone());
            proof {
                assert(listeners@.take(i + 1) =~= listeners@.take(i as int).push(listeners@[i as int]));
            }
            i += 1;
        }
        assert(listeners@.take(listeners.len() as int) =~= listeners@);
        sorted_unique(&all)
    }
}

impl PhysicalLifecycle for IntegratedPhysicalSide {
    fn world_id(&self) -> (r: &str)
        ensures
            r@ == self.shared().world_id@,
    {
        self.state.world_id.as_str()
    }

    fn server_port(&self) -> (p: u16)
        ensures
            p == self.shared().config.server.port,
    {
        self.state.config.server.port
    }

    fn base_path(&self) -> (r: &str)
        ensures
            r@ == self.shared().config.server.base_path@,
    {
        self.state.config.server.base_path.as_str()
    }
}

} // verus!
