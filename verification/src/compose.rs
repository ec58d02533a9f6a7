pub mod apple_outputs;
pub mod args;
pub mod backend;
pub mod capabilities;
pub mod cleanup;
pub mod cli;
pub mod config;
pub mod dependencies;
pub mod detect;
pub mod down;
pub mod engine;
pub mod error;
pub mod hash;
pub mod installer;
pub mod json;
pub mod likeness;
pub mod maps;
pub mod orchestrate;
pub mod order;
pub mod outputs;
pub mod protocol;
pub mod selection;
pub mod shutdown;
pub mod starting;
pub mod steps;
pub mod targets;
pub mod testing;
pub mod told;
pub mod types;
pub mod up;
pub mod yaml;
