//! A registry of cross-chain payment intents: records of pending payouts that
//! an off-chain solver picks up and settles.
//!
//! A single privileged owner creates intents and marks them fulfilled; anyone
//! may query. Amounts and timestamps cross the call boundary as decimal text
//! (so that 128-bit magnitudes survive number-based interchange formats) and
//! are decoded here under an explicit fallback-to-zero policy.

pub mod intent;
pub mod laws;
pub mod parse;
pub mod registry;

pub use intent::PaymentIntent;
pub use intent::PaymentIntentInput;
pub use registry::Contract;
pub use registry::IntentError;
