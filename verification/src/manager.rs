//! The manager facade and the background worker state machine.
//!
//! [`ShareManager`] holds the whole coordination state: the command queue
//! filled by the foreground caller, the event queue drained by it, the peer
//! directory, the worker's lifecycle state and the transfer in flight.  The
//! caller-facing methods (`send_file`, `get_peers`, `poll_events`,
//! `shutdown`) never block and never panic.  The worker-facing methods
//! (`init_succeeded`, `init_failed`, `sync_cycle`, `next_action`,
//! `finish_transfer`, `command_channel_closed`, `worker_exited`) are called
//! by the process that runs the background loop: it performs the network
//! work each returned action asks for and feeds the outcome back in, so
//! every decision is made here under contract.

use vstd::prelude::*;
use crate::directory::PeerDirectory;
use crate::directory::reconcile_events;
use crate::directory::reconciled_directory;
use crate::messages::ShareCommand;
use crate::messages::ShareEvent;
use crate::peer::PeerRecord;
use crate::peer::unique_fps;

verus! {

/// The lifecycle of the background worker.
///
/// `Initializing` until the network capability is up; `Running` while
/// discovery and command processing are live; `Draining` once a shutdown
/// was accepted and only an in-flight transfer may still finish; `Stopped`
/// when the worker has exited.  The directory stays readable in every
/// state.
#[derive(Debug, Clone, Copy, PartialEq, Eq, Structural)]
pub enum WorkerState {
    Initializing,
    Running,
    Draining,
    Stopped,
}

/// What the background loop must do next, as decided by
/// [`ShareManager::next_action`].
#[derive(Debug, Clone, PartialEq)]
pub enum WorkerAction {
    /// No command is pending: wait for one.
    Idle,
    /// Perform this one transfer, then report its outcome through
    /// [`ShareManager::finish_transfer`].
    Transfer { peer_fingerprint: String, file_path: String },
    /// Stop the worker loop, then confirm through
    /// [`ShareManager::worker_exited`].
    Exit,
}

/// The share subsystem's coordination state.
pub struct ShareManager {
    /// Operator intents, oldest first, consumed exactly once in order.
    pub commands: Vec<ShareCommand>,
    /// Notifications not yet drained by the caller, oldest first.
    pub events: Vec<ShareEvent>,
    /// The peer directory, written by reconciliation, read by `get_peers`.
    pub directory: PeerDirectory,
    /// Where the background worker stands in its lifecycle.
    pub state: WorkerState,
    /// The fingerprint of the peer a transfer is under way to, if any.
    pub in_flight: Option<String>,
}

impl ShareManager {
    /// The manager invariant: the directory holds no fingerprint twice.
    pub open spec fn wf(self) -> bool {
        self.directory.wf()
    }

    /// Creates the coordination state for a fresh share manager: nothing
    /// queued, no peers, the worker about to initialize.
    ///
    /// Construction of the state itself cannot fail; the `Result` mirrors
    /// the caller-facing contract, under which only the surrounding
    /// process's failure to create the background worker may surface here.
    pub fn new() -> (r: Result<ShareManager, String>)
        ensures
            r is Ok,
            (r->Ok_0).commands@ == Seq::<ShareCommand>::empty(),
            (r->Ok_0).events@ == Seq::<ShareEvent>::empty(),
            (r->Ok_0).directory.records@ == Seq::<PeerRecord>::empty(),
            (r->Ok_0).state is Initializing,
            (r->Ok_0).in_flight is None,
            (r->Ok_0).wf(),
    {
        Ok(
            ShareManager {
                commands: Vec::new(),
                events: Vec::new(),
                directory: PeerDirectory::new(),
                state: WorkerState::Initializing,
                in_flight: None,
            },
        )
    }

    /// Enqueues a request to send one file to one peer.
    ///
    /// Fails exactly when the worker has already stopped; it never waits
    /// for the transfer, whose outcome arrives later as events.
    pub fn send_file(&mut self, peer_fingerprint: String, file_path: String) -> (r: Result<
        (),
        String,
    >)
        ensures
            old(self).state is Stopped ==> (r is Err && *final(self) == *old(self)
                && r->Err_0@ == "command channel closed"@),
            !(old(self).state is Stopped) ==> (r is Ok && final(self).commands@ == old(self).commands@.push(ShareCommand::SendFile { peer_fingerprint, file_path })
                && final(self).events@ == old(self).events@ && final(self).directory == old(self).directory && final(self).state == old(self).state && final(self).in_flight == old(self).in_flight),
    {
        if self.state == WorkerState::Stopped {
            Err(String::from_str("command channel closed"))
        } else {
            self.commands.push(ShareCommand::SendFile { peer_fingerprint, file_path });
            Ok(())
        }
    }

    /// A consistent point-in-time copy of the peer directory.
    pub fn get_peers(&self) -> (r: Vec<PeerRecord>)
        ensures
            r@ == self.directory.records@,
    {
        self.directory.snapshot()
    }

    /// Drains every pending event, in the order the worker produced them;
    /// empty when none are pending.  Never blocks.
    pub fn poll_events(&mut self) -> (r: Vec<ShareEvent>)
        ensures
            r@ == old(self).events@,
            final(self).events@ == Seq::<ShareEvent>::empty(),
            final(self).commands@ == old(self).commands@,
            final(self).directory == old(self).directory,
            final(self).state == old(self).state,
            final(self).in_flight == old(self).in_flight,
    {
        let mut drained: Vec<ShareEvent> = Vec::new();
        core::mem::swap(&mut drained, &mut self.events);
        drained
    }

    /// Asks the worker to stop.  Idempotent: enqueues the shutdown intent
    /// while the worker lives, does nothing once it has stopped, and never
    /// errors.
    pub fn shutdown(&mut self)
        ensures
            old(self).state is Stopped ==> *final(self) == *old(self),
            !(old(self).state is Stopped) ==> (final(self).commands@ == old(self).commands@.push(ShareCommand::Shutdown) && final(self).events@ == old(self).events@
                && final(self).directory == old(self).directory && final(self).state == old(self).state && final(self).in_flight == old(self).in_flight),
    {
        if self.state != WorkerState::Stopped {
            self.commands.push(ShareCommand::Shutdown);
        }
    }

    /// Records that the network capability came up: the worker starts
    /// processing discovery cycles and commands.
    pub fn init_succeeded(&mut self)
        requires
            old(self).state is Initializing,
        ensures
            final(self).state is Running,
            final(self).commands@ == old(self).commands@,
            final(self).events@ == old(self).events@,
            final(self).directory == old(self).directory,
            final(self).in_flight == old(self).in_flight,
    {
        self.state = WorkerState::Running;
    }

    /// Records that the network capability could not be brought up: the
    /// failure is reported as an event and the worker stops without
    /// processing any command.
    pub fn init_failed(&mut self, message: String)
        requires
            old(self).state is Initializing,
        ensures
            final(self).state is Stopped,
            final(self).events@ == old(self).events@.push(ShareEvent::Error(message)),
            final(self).commands@ == old(self).commands@,
            final(self).directory == old(self).directory,
            final(self).in_flight == old(self).in_flight,
    {
        self.events.push(ShareEvent::Error(message));
        self.state = WorkerState::Stopped;
    }

    /// One discovery reconciliation cycle against the live snapshot
    /// `live`: the directory becomes the snapshot, and one discovery event
    /// per new fingerprint, then one loss event per vanished fingerprint,
    /// join the event queue.
    pub fn sync_cycle(&mut self, live: &Vec<PeerRecord>)
        requires
            old(self).state is Running,
            old(self).wf(),
            unique_fps(live@),
        ensures
            final(self).wf(),
            final(self).directory.records@ == reconciled_directory(
                old(self).directory.records@,
                live@,
            ),
            final(self).events@ == old(self).events@ + reconcile_events(
                old(self).directory.records@,
                live@,
            ),
            final(self).commands@ == old(self).commands@,
            final(self).state == old(self).state,
            final(self).in_flight == old(self).in_flight,
    {
        let mut evs = self.directory.reconcile(live);
        self.events.append(&mut evs);
    }

    /// Takes the worker's next step while no transfer is in flight: idle
    /// when no command is pending; on a send request, announce the
    /// transfer, mark it in flight and hand it out; on a shutdown request,
    /// begin draining.
    pub fn next_action(&mut self) -> (r: WorkerAction)
        requires
            old(self).state is Running,
            old(self).in_flight is None,
        ensures
            final(self).directory == old(self).directory,
            old(self).commands@.len() == 0 ==> (r is Idle && *final(self) == *old(self)),
            old(self).commands@.len() > 0 ==> final(self).commands@ == old(self).commands@.remove(
                0,
            ),
            old(self).commands@.len() > 0 && old(self).commands@[0] is Shutdown ==> (r is Exit
                && final(self).state is Draining && final(self).events@ == old(self).events@
                && final(self).in_flight is None),
            old(self).commands@.len() > 0 ==> (old(self).commands@[0] matches ShareCommand::SendFile {
                peer_fingerprint,
                file_path,
            } ==> ((r == WorkerAction::Transfer { peer_fingerprint, file_path })
                && final(self).events@ == old(self).events@.push(
                ShareEvent::TransferStarted { peer_fingerprint, file_path },
            ) && (final(self).in_flight == Some(peer_fingerprint)) && final(self).state == old(self).state)),
    {
        if self.commands.len() == 0 {
            return WorkerAction::Idle;
        }
        let cmd = self.commands.remove(0);
        match cmd {
            ShareCommand::SendFile { peer_fingerprint, file_path } => {
                self.events.push(
                    ShareEvent::TransferStarted {
                        peer_fingerprint: peer_fingerprint.clone(),
                        file_path: file_path.clone(),
                    },
                );
                self.in_flight = Some(peer_fingerprint.clone());
                WorkerAction::Transfer { peer_fingerprint, file_path }
            },
            ShareCommand::Shutdown => {
                self.state = WorkerState::Draining;
                WorkerAction::Exit
            },
        }
    }

    /// Records the terminal outcome of the transfer in flight: a
    /// completion or a failure event carrying the peer it was addressed
    /// to, and the worker is free for the next command.
    pub fn finish_transfer(&mut self, outcome: Result<(), String>)
        requires
            old(self).in_flight is Some,
        ensures
            final(self).in_flight is None,
            final(self).commands@ == old(self).commands@,
            final(self).directory == old(self).directory,
            final(self).state == old(self).state,
            outcome is Ok ==> final(self).events@ == old(self).events@.push(
                (ShareEvent::TransferComplete { peer_fingerprint: old(self).in_flight->0 }),
            ),
            outcome is Err ==> final(self).events@ == old(self).events@.push(
                (ShareEvent::TransferFailed {
                    peer_fingerprint: old(self).in_flight->0,
                    error: outcome->Err_0,
                }),
            ),
    {
        let peer_fingerprint = match &self.in_flight {
            Some(s) => s.clone(),
            None => unreached(),
        };
        self.in_flight = None;
        match outcome {
            Ok(()) => self.events.push(ShareEvent::TransferComplete { peer_fingerprint }),
            Err(error) => self.events.push(
                ShareEvent::TransferFailed { peer_fingerprint, error },
            ),
        }
    }

    /// Records that the command channel closed with the worker still
    /// running (the foreground side is gone): the worker begins draining,
    /// as on a shutdown request.
    pub fn command_channel_closed(&mut self)
        requires
            old(self).state is Running,
        ensures
            final(self).state is Draining,
            final(self).commands@ == old(self).commands@,
            final(self).events@ == old(self).events@,
            final(self).directory == old(self).directory,
            final(self).in_flight == old(self).in_flight,
    {
        self.state = WorkerState::Draining;
    }

    /// Records that the draining worker has exited, after any in-flight
    /// transfer reached its terminal outcome.  The directory remains
    /// readable with its last reconciled contents.
    pub fn worker_exited(&mut self)
        requires
            old(self).state is Draining,
            old(self).in_flight is None,
        ensures
            final(self).state is Stopped,
            final(self).commands@ == old(self).commands@,
            final(self).events@ == old(self).events@,
            final(self).directory == old(self).directory,
            final(self).in_flight is None,
    {
        self.state = WorkerState::Stopped;
    }
}

} // verus!
