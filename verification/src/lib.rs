pub mod amount;
pub mod bid;
pub mod chain;
pub mod compose;
pub mod event;
pub mod gather;
pub mod json;
pub mod laws;
pub mod links;
pub mod notification;
pub mod notifier;
pub mod number;
pub mod orchestrator;
pub mod reference;
pub mod resolver;
pub mod text;
pub mod valuation;
