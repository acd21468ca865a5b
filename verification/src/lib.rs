//! A memory store for agents: connector documents, the tree they are filed
//! into, the remote brain they can be captured to, and a recording provider
//! that keeps a log of everything asked of it.

pub mod backfill;
pub mod cortex;
pub mod documents;
pub mod episodic;
pub mod json;
pub mod livingbrain;
pub mod outside;
pub mod provider;
pub mod rows;
pub mod sources;
pub mod summarise;
pub mod sync;
pub mod text;
