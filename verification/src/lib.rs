//! Incremental sampling of a tick stream into fixed-interval OHLC bars.
//!
//! A [`sampler::Sampler`] is fed one `(timestamp, price)` tick at a time and
//! reports the bars that the tick closes: the finished period and one flat
//! bar for every period that passed without a tick. It keeps nothing but
//! the period that is being filled.
//!
//! - [`time`]: instants, counted in whole seconds.
//! - [`price`]: what the sampler asks of a price.
//! - [`timeframe`]: the timeframes, from one minute to one month, and the
//!   bounds of their periods.
//! - [`calendar`]: the bounds of calendar months, which come from `chrono`.
//! - [`bar`]: bars, and what a tick closes.
//! - [`sampler`]: the sampler, and `step`, which says what a tick does.
//! - [`laws`]: what holds of every tick, proved from `step`.
//!
//! Every function is verified with Verus against the contract it carries,
//! but for the two calls into `chrono`, of which nothing is assumed except
//! that they answer the same question in the same way every time.

pub mod bar;
pub mod calendar;
pub mod laws;
pub mod price;
pub mod sampler;
pub mod time;
pub mod timeframe;

pub use bar::{Bar, Bars};
pub use price::Price;
pub use sampler::{SampleError, Sampler, State};
pub use time::Timestamp;
pub use timeframe::Timeframe;
