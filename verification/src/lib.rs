//! The logic of FrpDesk, a desktop application that keeps frpc configurations
//! and runs frpc processes.
//!
//! [`state::AppView`] is the state of the application. Its methods take what
//! the user does, or what came of an earlier action, change the state, and
//! return the [`types::Action`]s to perform next. Each method is specified by
//! a function on [`state::AppModel`], the mathematical model of the state;
//! [`steps`] states what each does in every state, [`meaning`] what the words of
//! the contracts mean, and [`laws`] and [`events`] what holds across the methods.

pub mod editing;
pub mod events;
pub mod guard;
pub mod laws;
pub mod meaning;
pub mod monitor;
pub mod preferences;
pub mod processes;
pub mod service;
pub mod startup;
pub mod state;
pub mod steps;
pub mod table;
pub mod text;
pub mod types;
pub mod update;
