//! The watch multiplexer's decisions: how each selector's streams are parameterised, and
//! which command each raw event becomes.
use crate::cluster::ClusterObject;
use crate::resolver::ResourceSelector;
use crate::strings::texts;
use crate::watch_event::{WatchCommand, WatchEvent};
use vstd::prelude::*;

verus! {

/// The three sub-streams opened for every selector.
#[derive(Debug)]
pub enum SubStream {
    /// Objects created or updated.
    Applied,
    /// Objects deleted.
    Deleted,
    /// The replay of current state when the stream restarts.
    Restarted,
}

/// An event as the watch stream delivers it.
#[derive(Debug)]
pub enum RawEvent {
    Apply(ClusterObject),
    Delete(ClusterObject),
    /// A restart begins.
    Init,
    /// An object replayed during a restart.
    InitApply(ClusterObject),
    /// A restart is complete.
    InitDone,
}

/// The command for an event seen on a sub-stream; events of another phase are dropped.
pub open spec fn command_of(stream: SubStream, ev: RawEvent) -> Option<WatchCommand> {
    match (stream, ev) {
        (SubStream::Applied, RawEvent::Apply(o)) => Some(WatchCommand::Add(o)),
        (SubStream::Deleted, RawEvent::Delete(o)) => Some(WatchCommand::Delete(o)),
        (SubStream::Restarted, RawEvent::InitApply(o)) => Some(WatchCommand::Add(o)),
        _ => None,
    }
}

/// Translates one event: apply becomes `Add`, delete becomes `Delete`, a replayed object
/// becomes `Add`; anything else, or an event on the wrong sub-stream, becomes nothing.
pub fn command_for(stream: SubStream, ev: RawEvent) -> (r: Option<WatchCommand>)
    ensures
        r == command_of(stream, ev),
{
    match (stream, ev) {
        (SubStream::Applied, RawEvent::Apply(o)) => Some(WatchCommand::Add(o)),
        (SubStream::Deleted, RawEvent::Delete(o)) => Some(WatchCommand::Delete(o)),
        (SubStream::Restarted, RawEvent::InitApply(o)) => Some(WatchCommand::Add(o)),
        _ => None,
    }
}

/// The event sent to the cache engine for a raw event of `selector`'s streams: the command,
/// the selector's event-type tag and collection path, and the cluster version.
pub fn event_for(selector: &ResourceSelector, k8s_version: &String, stream: SubStream, ev: RawEvent) -> (r:
    Option<WatchEvent>)
    ensures
        match command_of(stream, ev) {
            Some(c) => r matches Some(we) && we.command == c && we.event_type@ == selector.event_type@
                && we.resource_url@ == selector.resource_url@ && we.k8s_version@ == k8s_version@,
            None => r is None,
        },
{
    match command_for(stream, ev) {
        Some(command) => Some(
            WatchEvent {
                k8s_version: k8s_version.clone(),
                resource_url: selector.resource_url.clone(),
                event_type: selector.event_type.clone(),
                command,
            },
        ),
        None => None,
    }
}

/// The texts of `parts` with `sep` between each two.
pub open spec fn joined(parts: Seq<Seq<char>>, sep: char) -> Seq<char>
    decreases parts.len(),
{
    if parts.len() == 0 {
        Seq::empty()
    } else if parts.len() == 1 {
        parts[0]
    } else {
        joined(parts.drop_last(), sep).push(sep) + parts.last()
    }
}

/// `parts` joined with `sep`.
pub fn join_texts(parts: &Vec<String>, sep: char) -> (r: String)
    ensures
        r@ == joined(texts(parts@), sep),
{
    let mut r = String::new();
    let mut i: usize = 0;
    while i < parts.len()
        invariant
            i <= parts@.len(),
            r@ == joined(texts(parts@.subrange(0, i as int)), sep),
        decreases parts@.len() - i,
    {
        assert(texts(parts@.subrange(0, i + 1)).drop_last() =~= texts(parts@.subrange(0, i as int)));
        assert(texts(parts@.subrange(0, i + 1)).last() == parts@[i as int]@);
        if i > 0 {
            r.push(sep);
        } else {
            assert(texts(parts@.subrange(0, i as int)) =~= Seq::<Seq<char>>::empty());
        }
        r.append(parts[i].as_str());
        i = i + 1;
    }
    assert(parts@.subrange(0, i as int) =~= parts@);
    r
}

/// A selector list as a stream parameter: the expressions joined by `,`, or none when the
/// list is empty.
pub open spec fn selector_param(exprs: Seq<String>) -> Option<Seq<char>> {
    if exprs.len() == 0 {
        None
    } else {
        Some(joined(texts(exprs), ','))
    }
}

pub fn selector_parameter(exprs: &Vec<String>) -> (r: Option<String>)
    ensures
        match r {
            Some(s) => selector_param(exprs@) == Some(s@),
            None => selector_param(exprs@) is None,
        },
{
    if exprs.len() == 0 {
        None
    } else {
        Some(join_texts(exprs, ','))
    }
}

} // verus!
