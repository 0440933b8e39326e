//! Markers by which the kinds of actors are told apart, and the elements
//! of the shop floor.

use vstd::prelude::*;

verus! {

/// Marks the client of the service bus.
#[derive(Debug, Clone, Copy, PartialEq, Eq, Structural, Default)]
pub struct AzureServer;

/// Marks the SQL poll actor.
#[derive(Debug, Clone, Copy, PartialEq, Eq, Structural, Default)]
pub struct DBListener;

/// Marks the HTTP server actor.
#[derive(Debug, Clone, Copy, PartialEq, Eq, Structural, Default)]
pub struct HttpServer;

/// Marks the OPC UA server actor.
#[derive(Debug, Clone, Copy, PartialEq, Eq, Structural, Default)]
pub struct OpcUaServer;

/// Marks the SSH server actor.
#[derive(Debug, Clone, Copy, PartialEq, Eq, Structural, Default)]
pub struct SshtServer;

/// Marks the child-process actor.
#[derive(Debug, Clone, Copy, PartialEq, Eq, Structural, Default)]
pub struct ProcessListener;

/// The id of an element of the shop floor.
#[derive(Debug)]
pub struct Id(pub String);

/// Marks a cell of the shop floor.
#[derive(Debug, Clone, Copy, PartialEq, Eq, Structural, Default)]
pub struct Cell;

/// A bay: a place of limited capacity that holds items, each with its
/// amount.
#[derive(Debug)]
pub struct Bay {
    pub id: Id,
    pub capacity: usize,
    pub items: Vec<(Id, usize)>,
}

} // verus!
