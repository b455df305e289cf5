//! The controller's registry: named event streams looked up by name, a
//! monotonic connection-id counter, and the special "system" stream that
//! carries cluster control traffic.

use vstd::prelude::*;
use crate::counter::AtomicCounterWriter;
use crate::event::str_eq;

verus! {

/// An identifier the controller hands each accepted connection.
pub type ConnectionId = usize;

/// The name of the stream reserved for cluster control traffic.
pub fn system_stream_name() -> (r: String)
    ensures
        r@ == "system"@,
{
    "system".to_owned()
}

/// A handle to one named event stream.
#[derive(Debug)]
pub struct EventStreamRef {
    pub name: String,
}

impl EventStreamRef {
    pub fn new(name: String) -> (r: EventStreamRef)
        ensures
            r.name@ == name@,
    {
        EventStreamRef { name }
    }

    pub fn name(&self) -> (r: &str)
        ensures
            r@ == self.name@,
    {
        self.name.as_str()
    }
}

impl Clone for EventStreamRef {
    fn clone(&self) -> (r: EventStreamRef)
        ensures
            r.name@ == self.name@,
    {
        EventStreamRef { name: self.name.clone() }
    }
}

/// A handle to the system stream.
#[derive(Debug)]
pub struct SystemStreamRef {
    pub name: String,
}

impl SystemStreamRef {
    pub fn new() -> (r: SystemStreamRef)
        ensures
            r.name@ == "system"@,
    {
        SystemStreamRef { name: system_stream_name() }
    }

    /// The system stream viewed as an ordinary event stream.
    pub fn to_event_stream(&self) -> (r: EventStreamRef)
        ensures
            r.name@ == self.name@,
    {
        EventStreamRef { name: self.name.clone() }
    }
}

impl Clone for SystemStreamRef {
    fn clone(&self) -> (r: SystemStreamRef)
        ensures
            r.name@ == self.name@,
    {
        SystemStreamRef { name: self.name.clone() }
    }
}

/// Why attaching to the engine failed.
#[derive(Debug)]
pub enum ConnectError {
    /// Starting the engine's machinery failed; the text says how.
    InitFailed(String),
    /// No stream is registered under the requested name.
    NoStream,
}

/// The names registered, in order.
pub open spec fn registry_names(s: Seq<(String, EventStreamRef)>) -> Seq<Seq<char>> {
    s.map_values(|p: (String, EventStreamRef)| p.0@)
}

/// The shared face of the engine: the stream registry, the system
/// stream, and the connection-id counter.
pub struct EngineRef {
    pub current_connection_id: AtomicCounterWriter,
    pub system_stream: SystemStreamRef,
    pub event_streams: Vec<(String, EventStreamRef)>,
}

impl EngineRef {
    pub open spec fn streams(&self) -> Seq<(String, EventStreamRef)> {
        self.event_streams@
    }

    /// The registry's invariant, as the map it stands for had it: every
    /// stream name is registered at most once.
    pub open spec fn registry_wf(&self) -> bool {
        forall|i: int, j: int|
            0 <= i < j < self.streams().len() ==> registry_names(self.streams())[i]
                != registry_names(self.streams())[j]
    }

    pub open spec fn connection_counter(&self) -> int {
        self.current_connection_id@ as int
    }

    pub fn new(system_stream: SystemStreamRef, event_streams: Vec<(String, EventStreamRef)>) -> (r:
        EngineRef)
        requires
            forall|i: int, j: int|
                0 <= i < j < event_streams@.len() ==> registry_names(event_streams@)[i]
                    != registry_names(event_streams@)[j],
        ensures
            r.streams() == event_streams@,
            r.registry_wf(),
            r.connection_counter() == 0,
            r.system_stream.name@ == system_stream.name@,
    {
        EngineRef {
            current_connection_id: AtomicCounterWriter::zero(),
            system_stream,
            event_streams,
        }
    }

    /// Allocates the next connection id: ids start at 1 and strictly
    /// increase.
    pub fn next_connection_id(&mut self) -> (r: ConnectionId)
        requires
            old(self).connection_counter() + 1 <= usize::MAX,
        ensures
            r == old(self).connection_counter() + 1,
            r >= 1,
            final(self).connection_counter() == old(self).connection_counter() + 1,
            final(self).streams() == old(self).streams(),
            old(self).registry_wf() ==> final(self).registry_wf(),
            final(self).system_stream.name@ == old(self).system_stream.name@,
    {
        self.current_connection_id.increment_and_get_relaxed(1)
    }

    /// The stream registered under `stream_name`: a handle to it, or
    /// `NoStream` exactly when no entry carries that name. Under the
    /// registry invariant the matching entry is the only one.
    pub fn get_stream(&self, stream_name: &str) -> (r: Result<EventStreamRef, ConnectError>)
        ensures
            match r {
                Ok(stream) => exists|i: int|
                    0 <= i < self.streams().len() && registry_names(self.streams())[i]
                        == stream_name@ && stream.name@ == self.streams()[i].1.name@,
                Err(e) => e is NoStream && forall|i: int|
                    0 <= i < self.streams().len() ==> registry_names(self.streams())[i]
                        != stream_name@,
            },
            self.registry_wf() ==> forall|i: int|
                0 <= i < self.streams().len() && registry_names(self.streams())[i] == stream_name@
                    ==> (r matches Ok(stream) && stream.name@ == self.streams()[i].1.name@),
    {
        let n = self.event_streams.len();
        let mut i: usize = 0;
        while i < n
            invariant
                n == self.event_streams@.len(),
                0 <= i <= n,
                forall|j: int|
                    0 <= j < i ==> registry_names(self.event_streams@)[j] != stream_name@,
            decreases n - i,
        {
            if str_eq(self.event_streams[i].0.as_str(), stream_name) {
                let found = self.event_streams[i].1.clone();
                proof {
                    assert(registry_names(self.event_streams@)[i as int] == self.event_streams@[
                        i as int].0@);
                    assert(found.name@ == self.streams()[i as int].1.name@);
                    assert(0 <= i < self.streams().len() && registry_names(self.streams())[
                        i as int] == stream_name@ && found.name@ == self.streams()[
                        i as int].1.name@);
                }
                return Ok(found);
            }
            proof {
                assert(registry_names(self.event_streams@)[i as int] == self.event_streams@[
                    i as int].0@);
            }
            i += 1;
        }
        Err(ConnectError::NoStream)
    }

    /// The first registered stream, or the system stream when none is
    /// registered.
    pub fn get_default_stream(&self) -> (r: EventStreamRef)
        ensures
            self.streams().len() > 0 ==> r.name@ == self.streams()[0].1.name@,
            self.streams().len() == 0 ==> r.name@ == self.system_stream.name@,
    {
        if self.event_streams.len() > 0 {
            self.event_streams[0].1.clone()
        } else {
            self.system_stream.to_event_stream()
        }
    }
}

/// A handle to an event-stream server running inside this process;
/// clients attach over in-memory channels carrying the same messages as
/// the wire, with no framing.
pub struct EmbeddedFloServer {
    pub engine_ref: EngineRef,
}

impl EmbeddedFloServer {
    pub fn new(engine_ref: EngineRef) -> (r: EmbeddedFloServer)
        ensures
            r.engine_ref.streams() == engine_ref.streams(),
            r.engine_ref.connection_counter() == engine_ref.connection_counter(),
    {
        EmbeddedFloServer { engine_ref }
    }
}

/// Builds the decision state for outgoing peer connections; the dialing
/// itself is I/O and lives with the caller.
pub struct OutgoingConnectionCreatorImpl {
    pub engine_ref: EngineRef,
}

impl OutgoingConnectionCreatorImpl {
    pub fn new(engine_ref: EngineRef) -> (r: OutgoingConnectionCreatorImpl)
        ensures
            r.engine_ref.streams() == engine_ref.streams(),
            r.engine_ref.connection_counter() == engine_ref.connection_counter(),
    {
        OutgoingConnectionCreatorImpl { engine_ref }
    }
}

} // verus!
