//! The stages of the pipeline, each as the decisions it takes on a message.

pub mod data_holder;
pub mod fetcher;
pub mod http_server;
pub mod processor;
pub mod writer;
