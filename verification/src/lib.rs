//! Verified core of the Glorfindel agent framework and its TTRPG campaign
//! dashboard.
//!
//! - `text`: character-level string operations with exact specifications.
//! - `schemas`, `messages`, `error`, `dto`, `transport`: the task, message
//!   and record types.
//! - `dice`, `dice_laws`, `rules`, `party`, `turn`, `session`, `index`,
//!   `pipeline`, `specialists`, `planner`: the scene-turn pipeline's
//!   deterministic steps (dice and the laws of their notation, rules lookups,
//!   party state, file naming, indexes, prompts and the reduction of model
//!   replies).
//! - `prompts`, `run_requests`: what each step of a campaign run asks the
//!   model, word for word, built from the run's inputs and earlier replies;
//!   the grand opener's hook material and the runs' meta-log texts.
//! - `runs`: the campaign runs themselves (scene, session and player turns,
//!   think-and-run, the openers, the eucatastrophe and the summarizers) as
//!   step machines: their early rejections, their outputs and the order of
//!   their steps.
//! - `orchestrator`, `board`, `worker`, `events`, `definitions`, `requests`:
//!   task and agent bookkeeping, routing, the admin server's task worker,
//!   its event bus, its registry of agent definitions and the tasks its
//!   endpoints hand out.
//! - `tools`, `campaign`, `graph`, `graph_tools`, `graph_api`, `rulebook`,
//!   `media`, `agent_tool`: the tools' permissions, paths, requests and
//!   formats, the knowledge graph, the rulebook chunker, the media-server
//!   tools and sub-agents offered as tools.
//! - `agent`, `assistant`: what the chat agents send their models and what
//!   they make of the replies.

pub mod text;
pub mod error;
pub mod dice;
pub mod dice_laws;
pub mod rules;
pub mod party;
pub mod pipeline;
pub mod turn;
pub mod index;
pub mod session;
pub mod schemas;
pub mod orchestrator;
pub mod tools;
pub mod dto;
pub mod transport;
pub mod graph;
pub mod rulebook;
pub mod agent;
pub mod campaign;
pub mod graph_tools;
pub mod assistant;
pub mod worker;
pub mod specialists;
pub mod planner;
pub mod graph_api;
pub mod board;
pub mod media;
pub mod agent_tool;
pub mod messages;
pub mod events;
pub mod definitions;
pub mod requests;
pub mod prompts;
pub mod runs;
pub mod run_requests;
