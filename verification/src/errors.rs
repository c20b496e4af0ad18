//! What can go wrong around the renderer. Drawing itself never fails.

use vstd::prelude::*;

verus! {

/// An error of the engine, with what the failing part said of it.
#[derive(Debug)]
pub enum ApparatusError {
    Game(String),
    Initialisation(String),
    Logger(String),
    Window(String),
}

impl ApparatusError {
    /// The kind of the error in words.
    pub fn message(&self) -> (message: String)
        ensures
            message@ == match self {
                ApparatusError::Game(_) => "error running game"@,
                ApparatusError::Initialisation(_) => "error initialising engine"@,
                ApparatusError::Logger(_) => "logger error"@,
                ApparatusError::Window(_) => "window error"@,
            },
    {
        match self {
            ApparatusError::Game(_) => "error running game".to_owned(),
            ApparatusError::Initialisation(_) => "error initialising engine".to_owned(),
            ApparatusError::Logger(_) => "logger error".to_owned(),
            ApparatusError::Window(_) => "window error".to_owned(),
        }
    }

    /// What the failing part said.
    pub fn source(&self) -> (source: &String)
        ensures
            source@ == match self {
                ApparatusError::Game(s) => s@,
                ApparatusError::Initialisation(s) => s@,
                ApparatusError::Logger(s) => s@,
                ApparatusError::Window(s) => s@,
            },
    {
        match self {
            ApparatusError::Game(s) => s,
            ApparatusError::Initialisation(s) => s,
            ApparatusError::Logger(s) => s,
            ApparatusError::Window(s) => s,
        }
    }
}

} // verus!
