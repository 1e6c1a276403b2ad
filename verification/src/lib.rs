//! Structural decomposition of candle series.
//!
//! From the candles of one instrument at one timeframe the library derives,
//! in this order: canonical candles, in which inclusion between neighbours
//! is resolved; MACD values over their closes; pens between turning points;
//! segments of pens, divided by feature sequences; divergences between
//! price and MACD histogram; and buy and sell points of three classes.
//!
//! Prices, indicator values and fractions are fixed-point integers that
//! count millionths, so every result is an exact function of its input.
//! Each function carries a contract that pins its result to a mathematical
//! description, and the properties that hold across functions are stated
//! and proved beside them.

pub mod fixed;
pub mod text;
pub mod kline;
pub mod canonical;
pub mod indicators;
pub mod pen;
pub mod segment;
pub mod divergence;
pub mod bsp;
pub mod window;
pub mod pipeline;
pub mod engine;
pub mod health;
pub mod metrics;
pub mod service;

pub use kline::Kline;
pub use kline::KlineSeries;
pub use kline::TimeFrame;
pub use pen::Fractal;
pub use pen::FractalKind;
pub use pen::Pen;
pub use pen::PenCalculator;
pub use pen::PenConfig;
pub use pen::PenDirection;
pub use segment::FeatureElement;
pub use segment::Segment;
pub use segment::SegmentCalculator;
pub use segment::SegmentConfig;
pub use indicators::MACDCalculator;
pub use indicators::MACDConfig;
pub use indicators::MACDValue;
