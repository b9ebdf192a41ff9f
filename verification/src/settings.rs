use vstd::prelude::*;
use vstd::rwlock::RwLock;

verus! {

/// The operator-mutable settings of the watchdog, a singleton record.
#[derive(Debug)]
pub struct Settings {
    pub id: i32,
    pub success_retention_days: i32,
    pub failure_retention_days: i32,
    pub maintenance_mode: bool,
    pub default_channels: String,
    pub error_channels: String,
    pub max_stage_duration_hours: i32,
}

impl Clone for Settings {
    fn clone(&self) -> (r: Self)
        ensures
            r.id == self.id,
            r.success_retention_days == self.success_retention_days,
            r.failure_retention_days == self.failure_retention_days,
            r.maintenance_mode == self.maintenance_mode,
            r.default_channels == self.default_channels,
            r.error_channels == self.error_channels,
            r.max_stage_duration_hours == self.max_stage_duration_hours,
    {
        Settings {
            id: self.id,
            success_retention_days: self.success_retention_days,
            failure_retention_days: self.failure_retention_days,
            maintenance_mode: self.maintenance_mode,
            default_channels: self.default_channels.clone(),
            error_channels: self.error_channels.clone(),
            max_stage_duration_hours: self.max_stage_duration_hours,
        }
    }
}

/// What the settings endpoint returns: every field but the row id.
#[derive(Debug, Clone)]
pub struct SettingsResponseDto {
    pub success_retention_days: i32,
    pub failure_retention_days: i32,
    pub maintenance_mode: bool,
    pub default_channels: String,
    pub error_channels: String,
    pub max_stage_duration_hours: i32,
}

impl From<Settings> for SettingsResponseDto {
    fn from(settings: Settings) -> (r: Self) {
        SettingsResponseDto {
            success_retention_days: settings.success_retention_days,
            failure_retention_days: settings.failure_retention_days,
            maintenance_mode: settings.maintenance_mode,
            default_channels: settings.default_channels,
            error_channels: settings.error_channels,
            max_stage_duration_hours: settings.max_stage_duration_hours,
        }
    }
}

impl vstd::std_specs::convert::FromSpecImpl<Settings> for SettingsResponseDto {
    open spec fn obeys_from_spec() -> bool {
        true
    }

    open spec fn from_spec(settings: Settings) -> Self {
        SettingsResponseDto {
            success_retention_days: settings.success_retention_days,
            failure_retention_days: settings.failure_retention_days,
            maintenance_mode: settings.maintenance_mode,
            default_channels: settings.default_channels,
            error_channels: settings.error_channels,
            max_stage_duration_hours: settings.max_stage_duration_hours,
        }
    }
}

/// A settings update request: a full replacement, every field present.
#[derive(Debug, Clone)]
pub struct SettingsUpdateRequest {
    pub success_retention_days: Option<i32>,
    pub failure_retention_days: Option<i32>,
    pub maintenance_mode: Option<bool>,
    pub default_channels: Option<String>,
    pub error_channels: Option<String>,
    pub max_stage_duration_hours: Option<i32>,
}

impl SettingsUpdateRequest {
    /// Whether every field of the update is present.
    pub open spec fn complete(&self) -> bool {
        &&& self.success_retention_days is Some
        &&& self.failure_retention_days is Some
        &&& self.maintenance_mode is Some
        &&& self.default_channels is Some
        &&& self.error_channels is Some
        &&& self.max_stage_duration_hours is Some
    }

    /// Whether every field of the update is present, decided at run time.
    pub fn is_complete(&self) -> (r: bool)
        ensures
            r == self.complete(),
    {
        self.success_retention_days.is_some() && self.failure_retention_days.is_some()
            && self.maintenance_mode.is_some() && self.default_channels.is_some()
            && self.error_channels.is_some() && self.max_stage_duration_hours.is_some()
    }

    /// Applies the update over existing settings, keeping the row id.
    pub fn apply(self, settings: Settings) -> (r: Settings)
        requires
            self.complete(),
        ensures
            r.id == settings.id,
            Some(r.success_retention_days) == self.success_retention_days,
            Some(r.failure_retention_days) == self.failure_retention_days,
            Some(r.maintenance_mode) == self.maintenance_mode,
            Some(r.default_channels) == self.default_channels,
            Some(r.error_channels) == self.error_channels,
            Some(r.max_stage_duration_hours) == self.max_stage_duration_hours,
    {
        Settings {
            id: settings.id,
            success_retention_days: self.success_retention_days.unwrap(),
            failure_retention_days: self.failure_retention_days.unwrap(),
            maintenance_mode: self.maintenance_mode.unwrap(),
            default_channels: self.default_channels.unwrap(),
            error_channels: self.error_channels.unwrap(),
            max_stage_duration_hours: self.max_stage_duration_hours.unwrap(),
        }
    }
}

/// Process-wide snapshot of the settings: many readers, one writer for the
/// swap.  A reader copies the whole record out while holding the read
/// lock, so it observes one snapshot in full — never a mixture of two.
pub struct SettingsCache {
    lock: RwLock<Settings, spec_fn(Settings) -> bool>,
}

impl SettingsCache {
    /// The lock carries the trivial predicate: any settings value may be
    /// stored.
    #[verifier::type_invariant]
    spec fn wf(&self) -> bool {
        self.lock.pred() == (|v: Settings| true)
    }

    /// Builds the cache around the snapshot loaded at startup.
    pub fn new(initial: Settings) -> SettingsCache {
        let ghost pred = |v: Settings| true;
        SettingsCache { lock: RwLock::new(initial, Ghost(pred)) }
    }

    /// Copies the current snapshot out, whole, under the read lock.
    pub fn read(&self) -> Settings {
        let handle = self.lock.acquire_read();
        let snapshot = handle.borrow().clone();
        handle.release_read();
        snapshot
    }

    /// Atomically replaces the snapshot.
    pub fn update(&self, new_settings: Settings) {
        proof {
            use_type_invariant(self);
        }
        let (_old, write_handle) = self.lock.acquire_write();
        proof {
            assert(self.lock.inv(new_settings));
        }
        write_handle.release_write(new_settings);
    }
}

} // verus!
