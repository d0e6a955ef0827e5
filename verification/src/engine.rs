//! Engine strategies, one module per supported language/engine pair.
pub mod libfuzzer_c;
