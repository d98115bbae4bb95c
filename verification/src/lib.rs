//! A verified Porter stemmer: a rule-based reduction of English words to
//! their approximate morphological stems by five ordered suffix-stripping
//! steps. The `model` module states the algorithm over sequences of
//! characters; the `stemmer` module holds the executable engine, proved to
//! compute exactly the modelled function.

pub mod model;
pub mod stemmer;

pub use crate::stemmer::PorterStemmer;
