//! Verified core of the lkjagent command-line agent: argument grammars,
//! calendar rendering, record and report shapes, configuration rules and
//! the decisions that the daemon and console take.
pub mod text;
pub mod number;
pub mod calendar;
pub mod clock;
pub mod stamp;
pub mod args;
pub mod arg_helpers;
pub mod record_args;
pub mod memory_record;
pub mod report_shape;
pub mod memory_checks;
pub mod memory_context;
pub mod note_check;
pub mod note_round_trip;
pub mod continuity;
pub mod intent_tools;
pub mod artifact_effects;
pub mod artifact_laws;
pub mod daemon_lock;
pub mod lease_status;
pub mod config_registry;
pub mod config;
pub mod cli;
pub mod console;
pub mod record_identity;
pub mod digest;
pub mod journal_dispatch;
pub mod report_pending;
pub mod public_loop;
pub mod model_io;
pub mod diagnostics_support;
pub mod diagnostics;
pub mod endpoint_recovery;
pub mod observations;
pub mod history_context;
pub mod automatic_checks;
pub mod context_bridge;
pub mod effect_dispatch;
pub mod effect_files;
pub mod model_call;
pub mod record_validation;
pub mod log_view;
pub mod daemon_owner_routes;
pub mod recovery_bridge;
pub mod progress_bridge;
pub mod record_files;
pub mod absent_read;
pub mod report_record;
pub mod daemon;
pub mod explore;
pub mod observation_bridge;
pub mod record_state;
pub mod context_resolution_bridge;
pub mod effect_error;
pub mod exchange_bridge;
pub mod daemon_route_effects;
pub mod artifact_plan;
pub mod admission_bridge;
pub mod exchange_record;
pub mod report_current;
pub mod journal_apply;
