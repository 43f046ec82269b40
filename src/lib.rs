//! Verified building blocks of a handwritten-digit embedding pipeline:
//! packaging raw image and label buffers as a labelled dataset, splitting it,
//! one-against-the-rest targets for a multi-class classifier, confusion
//! matrices with their accuracy, and the plain-text export of a
//! two-dimensional embedding.

pub mod classify;
pub mod config;
pub mod dataset;
pub mod export;
pub mod metrics;
