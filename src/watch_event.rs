//! Commands carried from the watch streams and the timers to the cache engine.
use crate::cluster::ClusterObject;
use vstd::prelude::*;

verus! {

/// What the cache engine is asked to do.
#[derive(Debug)]
pub enum WatchCommand {
    Add(ClusterObject),
    Delete(ClusterObject),
    Update(ClusterObject),
    /// Emit the cache contents for diagnostics.
    PrintAll,
    /// Check every cached object against the cluster and evict those that are gone.
    Purge,
    /// Do nothing.
    Noop,
}

/// A command together with the selector it came from.
#[derive(Debug)]
pub struct WatchEvent {
    /// The cluster version in effect when the event was watched.
    pub k8s_version: String,
    /// The REST path of the watched resource; it names the type of objects that lack one.
    pub resource_url: String,
    /// The event-type tag of the selector that produced the command.
    pub event_type: String,
    pub command: WatchCommand,
}

impl Default for WatchEvent {
    /// An event with empty texts that asks for the cache contents.
    fn default() -> (r: Self)
        ensures
            r.k8s_version@ == Seq::<char>::empty(),
            r.resource_url@ == Seq::<char>::empty(),
            r.event_type@ == Seq::<char>::empty(),
            r.command is PrintAll,
    {
        WatchEvent {
            k8s_version: String::new(),
            resource_url: String::new(),
            event_type: String::new(),
            command: WatchCommand::PrintAll,
        }
    }
}

impl WatchEvent {
    /// The event that a timer sends: `command` with empty texts.
    pub fn from_timer(command: WatchCommand) -> (r: Self)
        ensures
            r.k8s_version@ == Seq::<char>::empty(),
            r.resource_url@ == Seq::<char>::empty(),
            r.event_type@ == Seq::<char>::empty(),
            r.command == command,
    {
        WatchEvent {
            k8s_version: String::new(),
            resource_url: String::new(),
            event_type: String::new(),
            command,
        }
    }
}

} // verus!
