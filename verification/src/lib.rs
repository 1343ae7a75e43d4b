//! Sticky keys for keyboard firmware.
//!
//! A sticky key holds an action after its key has gone up: modifiers or a layer for the next key,
//! or the modifiers of a key that is tapped again and again. Every held action uses the same entry
//! lifecycle. Action-specific code is confined to applying and releasing the effect; modifier and
//! layer entries may coexist, while a modified tap key remains deliberately exclusive.
//!
//! - `entry`, `producers` and `state` hold the actions: one entry, who holds its modifiers, and the
//!   bounded collection of entries.
//! - `machine` says what sticky key handling asks of the rest of the keyboard and what it decides;
//!   `keyboard` decides, and `readiness` tells beforehand whether the clock has room for the
//!   deadlines that come of it.
//! - `observed` says what can be seen of held actions and of a conversation. In these terms
//!   `lifecycle_laws`, `report_laws`, `decision_laws` and `conversation_laws` state what each event
//!   brings about.
//! - `producer_laws`, `entry_laws`, `phase_laws`, `keyboard_laws` and `cycle_laws` state what holds
//!   of all this together.
//! - `time`, `modifier`, `action`, `event` and `config` are the vocabulary.

pub mod action;
pub mod config;
pub mod conversation_laws;
pub mod cycle_laws;
pub mod decision_laws;
pub mod entry;
pub mod entry_laws;
pub mod event;
pub mod keyboard;
pub mod keyboard_laws;
pub mod lifecycle_laws;
pub mod machine;
pub mod modifier;
pub mod observed;
pub mod phase_laws;
pub mod producer_laws;
pub mod producers;
pub mod readiness;
pub mod report_laws;
pub mod search;
pub mod state;
pub mod time;
