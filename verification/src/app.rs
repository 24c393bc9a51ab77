//! The application configuration and the state bundle the services share.

use vstd::prelude::*;

use crate::db::PuzzleDatabase;
use crate::services::tactics_service::TacticsService;
use crate::services::user_service::UserService;
use crate::srs::SrsConfig;

verus! {

/// Opaque move-animation delays, in milliseconds, passed through to the
/// interface.
#[derive(Debug, PartialEq, Eq, Copy, Clone, Structural)]
pub struct UiConfig {
    pub initial_move_delay: u32,
    pub subsequent_move_delay: u32,
}

impl Default for UiConfig {
    /// Half a second before the first move, a quarter second between moves.
    fn default() -> (r: Self)
        ensures
            r == (UiConfig { initial_move_delay: 500u32, subsequent_move_delay: 250u32 }),
    {
        UiConfig { initial_move_delay: 500, subsequent_move_delay: 250 }
    }
}

/// The configuration the core works under.  Network, storage-location and
/// backup settings belong to the application shell, not to the core.
#[derive(Debug, PartialEq, Eq, Copy, Clone, Structural)]
pub struct AppConfig {
    pub srs: SrsConfig,
    pub ui: UiConfig,
}

impl AppConfig {
    pub open spec fn wf(self) -> bool {
        self.srs.wf()
    }
}

impl Default for AppConfig {
    fn default() -> (r: Self)
        ensures
            r.srs == (SrsConfig {
                default_ease: 250u32,
                minimum_ease: 130u32,
                easy_bonus: 130u32,
                day_end_seconds: 14_400u32,
                review_order: crate::srs::ReviewOrder::DueTime,
            }),
            r.ui == (UiConfig { initial_move_delay: 500u32, subsequent_move_delay: 250u32 }),
            r.wf(),
    {
        AppConfig { srs: SrsConfig::default(), ui: UiConfig::default() }
    }
}

/// Everything an entry point needs: the configuration, the services, and
/// the store they operate on.
pub struct AppState {
    pub app_config: AppConfig,
    pub user_service: UserService,
    pub tactics_service: TacticsService,
    pub db: PuzzleDatabase,
}

impl AppState {
    /// The state is consistent: the store is well formed and the services
    /// and the store agree on the scheduling configuration.
    pub open spec fn inv(self) -> bool {
        &&& self.db.inv()
        &&& self.app_config.wf()
        &&& self.app_config.srs == self.db@.srs_config
        &&& self.tactics_service.app_config == self.app_config
    }

    pub fn new(app_config: AppConfig, db: PuzzleDatabase) -> (r: AppState)
        requires
            db.inv(),
            app_config.wf(),
            app_config.srs == db@.srs_config,
        ensures
            r.inv(),
            r.app_config == app_config,
            r.db == db,
    {
        AppState {
            user_service: UserService::new(),
            tactics_service: TacticsService::new(app_config),
            app_config,
            db,
        }
    }
}

} // verus!
