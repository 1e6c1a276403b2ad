//! The operations of the trading service, over plain values: what each
//! request is answered with.

use vstd::prelude::*;
use vstd::string::StringExecFns;
use crate::canonical::canonical_of;
use crate::canonical::canonicalize;
use crate::engine::InputError;
use crate::engine::batch_acceptable;
use crate::engine::describes_faults;
use crate::engine::error_text;
use crate::engine::validate_batch;
use crate::health::ActiveEngine;
use crate::health::EngineHealth;
use crate::health::HealthMonitor;
use crate::health::HealthStatus;
use crate::indicators::MACDCalculator;
use crate::indicators::MACDConfig;
use crate::indicators::MACDValue;
use crate::indicators::closes_of;
use crate::indicators::macd_values_of;
use crate::kline::Kline;
use crate::pen::Pen;
use crate::pen::PenCalculator;
use crate::pen::PenConfig;
use crate::pen::pens_of;
use crate::pipeline::confirmed_pens;
use crate::window::last_window;
use crate::window::tail_of;
use crate::window::tail_of_segments;
use crate::pipeline::lemma_confirmed_pens_in_order;
use crate::segment::Segment;
use crate::segment::SegmentCalculator;
use crate::segment::SegmentConfig;
use crate::segment::SegmentModel;
use crate::segment::segment_models;
use crate::segment::segments_of;

verus! {

/// Answer to a submission of candles.
#[derive(Debug, Clone)]
pub struct SubmitKlinesResponse {
    /// Whether the batch was taken.
    pub success: bool,
    /// Number of candles taken.
    pub processed_count: usize,
    /// Why the batch was refused; empty where it was taken.
    pub error_message: String,
}

/// Answer to a health probe.
#[derive(Debug, Clone)]
pub struct HealthCheckResponse {
    /// State of the service asked for.
    pub status: EngineHealth,
    /// The state in words.
    pub message: String,
}

/// Answer to a status request.
#[derive(Debug, Clone, Copy, PartialEq, Eq, Structural)]
pub struct StatusResponse {
    /// Always set.
    pub success: bool,
    /// The engine that serves requests.
    pub active_engine: ActiveEngine,
    /// Whether the monitor may switch engines.
    pub failover_enabled: bool,
    /// Healthy while the primary engine serves, degraded on the backup.
    pub health: EngineHealth,
    /// Failures in a row of the primary engine.
    pub rust_failures: u32,
    /// Failures in a row of the backup engine.
    pub python_failures: u32,
}

/// Answer to a MACD request.
#[derive(Debug, Clone)]
pub struct MacdResponse {
    /// The newest value, where there is one.
    pub current: Option<MACDValue>,
    /// The values asked for, oldest first.
    pub history: Vec<MACDValue>,
}

/// The state that a service name stands for.
pub open spec fn health_of_service(name: Seq<char>) -> EngineHealth {
    if name == "rust"@ {
        EngineHealth::Healthy
    } else if name == "python"@ {
        EngineHealth::Degraded
    } else {
        EngineHealth::Unhealthy
    }
}

/// Answers the requests of the trading service.
#[derive(Debug, Clone, Copy)]
pub struct TradingServiceImpl {
    health_monitor: HealthMonitor,
    pen_calculator: PenCalculator,
}

impl TradingServiceImpl {
    /// What the health monitor of the service reports.
    pub closed spec fn monitor_state(&self) -> HealthStatus {
        self.health_monitor.state()
    }

    /// The rules by which the service forms pens.
    pub closed spec fn pen_config(&self) -> PenConfig {
        self.pen_calculator.config
    }

    /// A service over the given health monitor that forms pens by the
    /// default rules.
    pub fn new(health_monitor: HealthMonitor) -> (s: Self)
        ensures
            s.monitor_state() == health_monitor.state(),
            s.pen_config() == (PenConfig {
                use_new_definition: true,
                strict_validation: true,
                min_klines_between_turns: 3,
            }),
    {
        TradingServiceImpl { health_monitor, pen_calculator: PenCalculator::with_defaults() }
    }

    /// Checks a batch of candles. A batch in which every candle satisfies
    /// the candle invariant and none is older than the one before it is
    /// taken, and its length reported. Any other batch is refused as a
    /// whole, with the counts of its faults and the index of the first.
    pub fn submit_klines(&self, klines: &[Kline]) -> (r: SubmitKlinesResponse)
        ensures
            r.success == batch_acceptable(None, klines@),
            r.success ==> r.processed_count == klines@.len() && r.error_message@.len() == 0,
            !r.success ==> r.processed_count == 0 && exists|e: InputError|
                describes_faults(e, None, klines@) && r.error_message@ == error_text(e),
    {
        match validate_batch(None, klines) {
            Ok(_) => SubmitKlinesResponse {
                success: true,
                processed_count: klines.len(),
                error_message: String::new(),
            },
            Err(e) => {
                assert(crate::engine::faulty_at(None, klines@, e.first_index as int));
                SubmitKlinesResponse {
                    success: false,
                    processed_count: 0,
                    error_message: e.message(),
                }
            },
        }
    }

    /// The last `last_n` pens of the candles, or all of them where `last_n`
    /// is zero.
    pub fn calculate_pens(&self, klines: &[Kline], last_n: usize) -> (out: Vec<Pen>)
        ensures
            out@ == last_window(pens_of(self.pen_config(), canonical_of(klines@)), last_n as int),
    {
        let candles = canonicalize(klines);
        let pens = self.pen_calculator.identify_pens_on(candles.as_slice());
        tail_of(&pens, last_n)
    }

    /// The last `last_n` segments over the confirmed pens of the candles,
    /// or all of them where `last_n` is zero, by the default rules of
    /// segment division.
    pub fn calculate_segments(&self, klines: &[Kline], last_n: usize) -> (out: Vec<Segment>)
        ensures
            segment_models(out@) == last_window(
                segments_of(
                    (SegmentConfig {
                        use_feature_sequence: true,
                        handle_inclusion: true,
                        min_features_per_segment: 3,
                        gap_threshold: 0,
                    }),
                    confirmed_pens(pens_of(self.pen_config(), canonical_of(klines@))),
                ),
                last_n as int,
            ),
    {
        let candles = canonicalize(klines);
        let pens = self.pen_calculator.identify_pens_on(candles.as_slice());
        let count = if pens.len() == 0 {
            0
        } else {
            pens.len() - 1
        };
        let confirmed = vstd::slice::slice_subrange(pens.as_slice(), 0, count);
        proof {
            assert(confirmed@ =~= confirmed_pens(pens@));
            lemma_confirmed_pens_in_order(
                pens@,
                self.pen_calculator.config.min_klines_between_turns as int,
            );
        }
        let segments = SegmentCalculator::with_defaults().divide_segments(confirmed);
        tail_of_segments(&segments, last_n)
    }

    /// MACD of the closes of the candles: the newest value, and the last
    /// `last_n` values or all of them where `last_n` is zero.
    pub fn get_macd(&self, klines: &[Kline], config: MACDConfig, last_n: usize) -> (r: MacdResponse)
        requires
            forall|i: int| 0 <= i < klines@.len() ==> Kline::price_in_range(#[trigger] klines@[i].close),
        ensures
            r.history@ == last_window(macd_values_of(closes_of(klines@), config), last_n as int),
            ({
                let values = macd_values_of(closes_of(klines@), config);
                if values.len() == 0 {
                    r.current is None
                } else {
                    r.current == Some(values[values.len() - 1])
                }
            }),
    {
        let values = MACDCalculator::new(config).calculate(klines);
        let current = if values.len() == 0 {
            None
        } else {
            Some(values[values.len() - 1])
        };
        MacdResponse { current, history: tail_of(&values, last_n) }
    }

    /// The state of the service called `service`: the primary engine is
    /// healthy, the backup engine degraded, anything else unhealthy.
    pub fn health_check(&self, service: &str) -> (r: HealthCheckResponse)
        ensures
            r.status == health_of_service(service@),
            r.message@ == service@ + " service healthy"@,
    {
        let name = String::from_str(service);
        let status = if name == String::from_str("rust") {
            EngineHealth::Healthy
        } else if name == String::from_str("python") {
            EngineHealth::Degraded
        } else {
            EngineHealth::Unhealthy
        };
        let mut message = String::from_str(service);
        message.append(" service healthy");
        HealthCheckResponse { status, message }
    }

    /// The engine that serves requests, whether failover is allowed, and
    /// the failure counters.
    pub fn get_status(&self) -> (r: StatusResponse)
        ensures
            r == (StatusResponse {
                success: true,
                active_engine: self.monitor_state().active_engine,
                failover_enabled: self.monitor_state().failover_enabled,
                health: if self.monitor_state().active_engine == ActiveEngine::Rust {
                    EngineHealth::Healthy
                } else {
                    EngineHealth::Degraded
                },
                rust_failures: self.monitor_state().rust_failures,
                python_failures: self.monitor_state().python_failures,
            }),
    {
        let health = self.health_monitor.status();
        StatusResponse {
            success: true,
            active_engine: health.active_engine,
            failover_enabled: health.failover_enabled,
            health: match health.active_engine {
                ActiveEngine::Rust => EngineHealth::Healthy,
                ActiveEngine::Python => EngineHealth::Degraded,
            },
            rust_failures: health.rust_failures,
            python_failures: health.python_failures,
        }
    }
}

} // verus!
