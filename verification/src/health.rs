//! Failure counting and failover between the primary and the backup
//! engine.

use vstd::prelude::*;

verus! {

/// Result of a health probe.
#[derive(Debug, Clone, Copy, PartialEq, Eq, Structural)]
pub enum EngineHealth {
    /// The engine answers in time.
    Healthy,
    /// The engine answers, on reduced footing.
    Degraded,
    /// The engine does not answer in time.
    Unhealthy,
    /// Nothing is known of the engine.
    Unknown,
}

/// Settings of the health monitor.
#[derive(Debug, Clone, Copy, PartialEq, Eq, Structural)]
pub struct HealthConfig {
    /// Milliseconds between two probes.
    pub check_interval_ms: u64,
    /// Failures in a row after which the other engine takes over.
    pub max_failures_before_switch: u32,
    /// Milliseconds a probe may take.
    pub response_timeout_ms: u64,
    /// Whether the monitor may switch engines.
    pub failover_enabled: bool,
}

impl Default for HealthConfig {
    fn default() -> (c: Self)
        ensures
            c == (HealthConfig {
                check_interval_ms: 1000,
                max_failures_before_switch: 3,
                response_timeout_ms: 500,
                failover_enabled: true,
            }),
    {
        HealthConfig {
            check_interval_ms: 1000,
            max_failures_before_switch: 3,
            response_timeout_ms: 500,
            failover_enabled: true,
        }
    }
}

/// The engine that serves requests.
#[derive(Debug, Clone, Copy, PartialEq, Eq, Structural)]
pub enum ActiveEngine {
    /// The primary engine.
    Rust,
    /// The backup engine.
    Python,
}

impl Default for ActiveEngine {
    fn default() -> (e: Self)
        ensures
            e == ActiveEngine::Rust,
    {
        ActiveEngine::Rust
    }
}

impl ActiveEngine {
    /// The other engine.
    pub open spec fn other(self) -> ActiveEngine {
        match self {
            ActiveEngine::Rust => ActiveEngine::Python,
            ActiveEngine::Python => ActiveEngine::Rust,
        }
    }

    /// The other engine.
    pub fn backup(self) -> (e: ActiveEngine)
        ensures
            e == self.other(),
    {
        match self {
            ActiveEngine::Rust => ActiveEngine::Python,
            ActiveEngine::Python => ActiveEngine::Rust,
        }
    }

    /// The local port at which the engine is probed.
    pub fn port(self) -> (p: u16)
        ensures
            p == (match self {
                ActiveEngine::Rust => 50051u16,
                ActiveEngine::Python => 50052u16,
            }),
    {
        match self {
            ActiveEngine::Rust => 50051,
            ActiveEngine::Python => 50052,
        }
    }
}

/// A snapshot of the monitor.
#[derive(Debug, Clone, Copy, PartialEq, Eq, Structural)]
pub struct HealthStatus {
    /// The engine that serves requests.
    pub active_engine: ActiveEngine,
    /// Failures in a row of the primary engine.
    pub rust_failures: u32,
    /// Failures in a row of the backup engine.
    pub python_failures: u32,
    /// Whether the monitor may switch engines.
    pub failover_enabled: bool,
}

impl HealthStatus {
    /// Failures in a row of `engine`.
    pub open spec fn failures(self, engine: ActiveEngine) -> u32 {
        match engine {
            ActiveEngine::Rust => self.rust_failures,
            ActiveEngine::Python => self.python_failures,
        }
    }
}

/// What the monitor did with the result of a probe of the active engine.
#[derive(Debug, Clone, Copy, PartialEq, Eq, Structural)]
pub enum MonitorAction {
    /// The failure counter of the active engine was reset.
    Recovered,
    /// A failure was counted; the active engine stays.
    FailureCounted,
    /// A failure was counted and the other engine took over.
    FailedOver,
}

/// Counts failures of two engines and decides when the other one takes
/// over.
#[derive(Debug, Clone, Copy)]
pub struct HealthMonitor {
    config: HealthConfig,
    rust_failures: u32,
    python_failures: u32,
    active_engine: ActiveEngine,
}

impl HealthMonitor {
    /// The settings of the monitor.
    pub closed spec fn config(&self) -> HealthConfig {
        self.config
    }

    /// The engine that serves requests.
    pub closed spec fn active(&self) -> ActiveEngine {
        self.active_engine
    }

    /// Failures in a row that the monitor has counted of `engine`.
    pub closed spec fn counted(&self, engine: ActiveEngine) -> u32 {
        match engine {
            ActiveEngine::Rust => self.rust_failures,
            ActiveEngine::Python => self.python_failures,
        }
    }

    /// What `status` reports: the active engine, the two failure counters,
    /// and the failover switch of the settings.
    pub open spec fn state(&self) -> HealthStatus {
        HealthStatus {
            active_engine: self.active(),
            rust_failures: self.counted(ActiveEngine::Rust),
            python_failures: self.counted(ActiveEngine::Python),
            failover_enabled: self.config().failover_enabled,
        }
    }

    /// Whether the active engine has failed often enough for the other one
    /// to take over, and the monitor may switch.
    pub open spec fn failover_due(&self) -> bool {
        self.config().failover_enabled && self.state().failures(self.state().active_engine)
            >= self.config().max_failures_before_switch
    }

    /// A monitor with the primary engine active and no failure counted.
    pub fn new(config: HealthConfig) -> (m: Self)
        ensures
            m.config() == config,
            m.state() == (HealthStatus {
                active_engine: ActiveEngine::Rust,
                rust_failures: 0,
                python_failures: 0,
                failover_enabled: config.failover_enabled,
            }),
    {
        HealthMonitor { config, rust_failures: 0, python_failures: 0, active_engine: ActiveEngine::Rust }
    }

    /// A monitor that switches after three failures in a row.
    pub fn with_defaults() -> (m: Self)
        ensures
            m.config() == (HealthConfig {
                check_interval_ms: 1000,
                max_failures_before_switch: 3,
                response_timeout_ms: 500,
                failover_enabled: true,
            }),
            m.state() == (HealthStatus {
                active_engine: ActiveEngine::Rust,
                rust_failures: 0,
                python_failures: 0,
                failover_enabled: true,
            }),
    {
        HealthMonitor {
            config: HealthConfig {
                check_interval_ms: 1000,
                max_failures_before_switch: 3,
                response_timeout_ms: 500,
                failover_enabled: true,
            },
            rust_failures: 0,
            python_failures: 0,
            active_engine: ActiveEngine::Rust,
        }
    }

    /// The settings of the monitor.
    pub fn get_config(&self) -> (c: HealthConfig)
        ensures
            c == self.config(),
    {
        self.config
    }

    /// The engine that serves requests.
    pub fn active_engine(&self) -> (e: ActiveEngine)
        ensures
            e == self.state().active_engine,
    {
        self.active_engine
    }

    /// Counts a failure of `engine`.
    pub fn record_failure(&mut self, engine: ActiveEngine)
        requires
            old(self).state().failures(engine) < u32::MAX,
        ensures
            final(self).config() == old(self).config(),
            final(self).state().active_engine == old(self).state().active_engine,
            final(self).state().failures(engine) == old(self).state().failures(engine) + 1,
            final(self).state().failures(engine.other()) == old(self).state().failures(engine.other()),
            final(self).state().failover_enabled == old(self).state().failover_enabled,
    {
        match engine {
            ActiveEngine::Rust => {
                self.rust_failures = self.rust_failures + 1;
            },
            ActiveEngine::Python => {
                self.python_failures = self.python_failures + 1;
            },
        }
    }

    /// Resets the failure counter of `engine`.
    pub fn record_success(&mut self, engine: ActiveEngine)
        ensures
            final(self).config() == old(self).config(),
            final(self).state().active_engine == old(self).state().active_engine,
            final(self).state().failures(engine) == 0,
            final(self).state().failures(engine.other()) == old(self).state().failures(engine.other()),
            final(self).state().failover_enabled == old(self).state().failover_enabled,
    {
        match engine {
            ActiveEngine::Rust => {
                self.rust_failures = 0;
            },
            ActiveEngine::Python => {
                self.python_failures = 0;
            },
        }
    }

    /// Whether the other engine should take over.
    pub fn should_failover(&self) -> (b: bool)
        ensures
            b == self.failover_due(),
    {
        if !self.config.failover_enabled {
            return false;
        }
        match self.active_engine {
            ActiveEngine::Rust => self.rust_failures >= self.config.max_failures_before_switch,
            ActiveEngine::Python => self.python_failures >= self.config.max_failures_before_switch,
        }
    }

    /// Makes the other engine the active one and resets both failure
    /// counters. Returns the engine that is active from now on.
    pub fn perform_failover(&mut self) -> (e: ActiveEngine)
        ensures
            e == old(self).state().active_engine.other(),
            final(self).config() == old(self).config(),
            final(self).state() == (HealthStatus {
                active_engine: e,
                rust_failures: 0,
                python_failures: 0,
                failover_enabled: old(self).state().failover_enabled,
            }),
    {
        self.active_engine = match self.active_engine {
            ActiveEngine::Rust => ActiveEngine::Python,
            ActiveEngine::Python => ActiveEngine::Rust,
        };
        self.rust_failures = 0;
        self.python_failures = 0;
        self.active_engine
    }

    /// Takes the result of a probe of the active engine: a healthy engine
    /// has its counter reset; any other result counts as a failure, after
    /// which the other engine takes over where that is due. A counter that
    /// is full stays full.
    pub fn observe(&mut self, health: EngineHealth) -> (action: MonitorAction)
        ensures
            final(self).config() == old(self).config(),
            ({
                let before = old(self).state();
                let after = final(self).state();
                let active = before.active_engine;
                let counted = if before.failures(active) < u32::MAX {
                    before.failures(active) + 1
                } else {
                    u32::MAX as int
                };
                let limit = old(self).config().max_failures_before_switch;
                let due = old(self).config().failover_enabled && counted >= limit;
                &&& after.failover_enabled == before.failover_enabled
                &&& if health == EngineHealth::Healthy {
                    &&& action == MonitorAction::Recovered
                    &&& after.active_engine == active
                    &&& after.failures(active) == 0
                    &&& after.failures(active.other()) == before.failures(active.other())
                } else if due {
                    &&& action == MonitorAction::FailedOver
                    &&& after == (HealthStatus {
                        active_engine: active.other(),
                        rust_failures: 0,
                        python_failures: 0,
                        failover_enabled: before.failover_enabled,
                    })
                } else {
                    &&& action == MonitorAction::FailureCounted
                    &&& after.active_engine == active
                    &&& after.failures(active) == counted
                    &&& after.failures(active.other()) == before.failures(active.other())
                }
            }),
    {
        let active = self.active_engine;
        match health {
            EngineHealth::Healthy => {
                self.record_success(active);
                MonitorAction::Recovered
            },
            _ => {
                let count = match active {
                    ActiveEngine::Rust => self.rust_failures,
                    ActiveEngine::Python => self.python_failures,
                };
                if count < u32::MAX {
                    self.record_failure(active);
                }
                if self.should_failover() {
                    self.perform_failover();
                    MonitorAction::FailedOver
                } else {
                    MonitorAction::FailureCounted
                }
            },
        }
    }

    /// A snapshot of the monitor.
    pub fn status(&self) -> (s: HealthStatus)
        ensures
            s == self.state(),
            s.failover_enabled == self.config().failover_enabled,
    {
        HealthStatus {
            active_engine: self.active_engine,
            rust_failures: self.rust_failures,
            python_failures: self.python_failures,
            failover_enabled: self.config.failover_enabled,
        }
    }
}

} // verus!
