use vstd::prelude::*;
use crate::config::Config;
use crate::message_id::{is_rewrite_of, locate_header, randomize_message_id, RewriteError};

verus! {

/// Where a transfer run stands. `index` is the position of the candidate file at hand.
#[derive(Debug, Clone, Copy, PartialEq, Eq, Structural)]
pub enum Stage {
    /// Waiting for the first connection and login.
    Connecting,
    /// Waiting for the content of a file.
    Reading { index: usize },
    /// Waiting for the outcome of the first append of a file.
    Appending { index: usize },
    /// An append failed: waiting for a fresh connection and login.
    Reconnecting { index: usize },
    /// Waiting for the outcome of the one retry of an append.
    Retrying { index: usize },
    /// Every file was appended.
    Finished,
    /// The run stopped on a fatal error.
    Aborted,
}

/// The outcome of the outside work that an action asked for.
#[derive(Debug)]
pub enum Event {
    /// A connection was made and the login accepted.
    Connected,
    /// Connecting or logging in failed, for the given reason.
    ConnectFailed(String),
    /// The content of the requested file.
    Read(Vec<u8>),
    /// The requested file could not be read.
    ReadFailed(String),
    /// The message was stored in the folder.
    Appended,
    /// Storing the message failed, for the given reason.
    AppendFailed(String),
}

/// A fatal error: the run stops.
#[derive(Debug, Clone)]
pub enum RunError {
    Connect { server: String, port: u16, reason: String },
    Read { path: String, reason: String },
    Append { path: String, reason: String },
}

/// The outside work to do next.
#[derive(Debug, Clone)]
pub enum Action {
    /// Connect to the server and log in.
    Connect,
    /// Read the candidate file at `index`.
    Read { index: usize },
    /// Append the current payload to the folder; `warning` tells why the identifier of
    /// the file at `index` was left as it was.
    Append { index: usize, warning: Option<RewriteError> },
    /// Close the current session, ignoring any error, then connect and log in again.
    Reconnect,
    /// Close the session: the run is complete.
    Finish,
    /// Stop the run.
    Abort(RunError),
}

/// The decisions of one transfer run over a fixed list of candidate files. Each call of
/// `step` takes the outcome of the last action and returns the next one; the session
/// itself is held by whoever performs the actions.
pub struct TransferRun {
    files: Vec<String>,
    server: String,
    port: u16,
    random_id: bool,
    stage: Stage,
    payload: Vec<u8>,
    appended: usize,
}

/// What a transfer run is: its files and settings, its stage, the message to append,
/// and how many files have been appended.
pub struct RunView {
    pub files: Seq<String>,
    pub server: String,
    pub port: u16,
    pub random_id: bool,
    pub stage: Stage,
    pub payload: Seq<u8>,
    pub appended: nat,
}

impl View for TransferRun {
    type V = RunView;

    closed spec fn view(&self) -> RunView {
        RunView {
            files: self.files@,
            server: self.server,
            port: self.port,
            random_id: self.random_id,
            stage: self.stage,
            payload: self.payload@,
            appended: self.appended as nat,
        }
    }
}

/// Files are taken in order: all before the one at hand have been appended.
pub open spec fn valid(v: RunView) -> bool {
    &&& v.files.len() <= usize::MAX
    &&& match v.stage {
        Stage::Connecting => v.appended == 0,
        Stage::Reading { index } => index < v.files.len() && v.appended == index,
        Stage::Appending { index } => index < v.files.len() && v.appended == index,
        Stage::Reconnecting { index } => index < v.files.len() && v.appended == index,
        Stage::Retrying { index } => index < v.files.len() && v.appended == index,
        Stage::Finished => v.appended == v.files.len(),
        Stage::Aborted => v.appended <= v.files.len(),
    }
}

/// The events that a stage waits for.
pub open spec fn stage_accepts(stage: Stage, e: Event) -> bool {
    match stage {
        Stage::Connecting => e is Connected || e is ConnectFailed,
        Stage::Reconnecting { .. } => e is Connected || e is ConnectFailed,
        Stage::Reading { .. } => e is Read || e is ReadFailed,
        Stage::Appending { .. } => e is Appended || e is AppendFailed,
        Stage::Retrying { .. } => e is Appended || e is AppendFailed,
        Stage::Finished => false,
        Stage::Aborted => false,
    }
}

/// Why the identifier of a message read for the run is left as it is, if it is.
pub open spec fn rewrite_warning(random_id: bool, bytes: Seq<u8>) -> Option<RewriteError> {
    if random_id {
        match locate_header(bytes) {
            Err(err) => Some(err),
            Ok(_) => None,
        }
    } else {
        None
    }
}

/// `payload` is what the run appends for a file with content `bytes`: the content with a
/// fresh identifier where the run randomizes identifiers and the header is found, else
/// the content unchanged.
pub open spec fn prepared_payload(random_id: bool, bytes: Seq<u8>, payload: Seq<u8>) -> bool {
    if random_id && locate_header(bytes) is Ok {
        is_rewrite_of(bytes, payload)
    } else {
        payload == bytes
    }
}

/// The stage after the file at `index` has been appended.
pub open spec fn after_file(v: RunView, index: usize) -> Stage {
    if index + 1 < v.files.len() {
        Stage::Reading { index: (index + 1) as usize }
    } else {
        Stage::Finished
    }
}

/// The action after the file at `index` has been appended.
pub open spec fn action_after_file(v: RunView, index: usize) -> Action {
    if index + 1 < v.files.len() {
        Action::Read { index: (index + 1) as usize }
    } else {
        Action::Finish
    }
}

/// The stage that an accepted event leads to.
pub open spec fn next_stage(v: RunView, e: Event) -> Stage {
    match v.stage {
        Stage::Connecting => match e {
            Event::Connected => if v.files.len() == 0 {
                Stage::Finished
            } else {
                Stage::Reading { index: 0 }
            },
            _ => Stage::Aborted,
        },
        Stage::Reading { index } => match e {
            Event::Read(_) => Stage::Appending { index },
            _ => Stage::Aborted,
        },
        Stage::Appending { index } => match e {
            Event::Appended => after_file(v, index),
            _ => Stage::Reconnecting { index },
        },
        Stage::Reconnecting { index } => match e {
            Event::Connected => Stage::Retrying { index },
            _ => Stage::Aborted,
        },
        Stage::Retrying { index } => match e {
            Event::Appended => after_file(v, index),
            _ => Stage::Aborted,
        },
        _ => v.stage,
    }
}

/// The action that an accepted event leads to.
pub open spec fn next_action(v: RunView, e: Event) -> Action {
    match v.stage {
        Stage::Connecting => match e {
            Event::Connected => if v.files.len() == 0 {
                Action::Finish
            } else {
                Action::Read { index: 0 }
            },
            Event::ConnectFailed(reason) => Action::Abort(
                RunError::Connect { server: v.server, port: v.port, reason },
            ),
            _ => Action::Finish,
        },
        Stage::Reading { index } => match e {
            Event::Read(bytes) => Action::Append {
                index,
                warning: rewrite_warning(v.random_id, bytes@),
            },
            Event::ReadFailed(reason) => Action::Abort(
                RunError::Read { path: v.files[index as int], reason },
            ),
            _ => Action::Finish,
        },
        Stage::Appending { index } => match e {
            Event::Appended => action_after_file(v, index),
            _ => Action::Reconnect,
        },
        Stage::Reconnecting { index } => match e {
            Event::Connected => Action::Append { index, warning: None },
            Event::ConnectFailed(reason) => Action::Abort(
                RunError::Connect { server: v.server, port: v.port, reason },
            ),
            _ => Action::Finish,
        },
        Stage::Retrying { index } => match e {
            Event::Appended => action_after_file(v, index),
            Event::AppendFailed(reason) => Action::Abort(
                RunError::Append { path: v.files[index as int], reason },
            ),
            _ => Action::Finish,
        },
        _ => Action::Finish,
    }
}

/// The run after an event that brings no message content.
pub open spec fn advance(v: RunView, e: Event) -> RunView {
    RunView {
        stage: next_stage(v, e),
        appended: if e is Appended {
            v.appended + 1
        } else {
            v.appended
        },
        ..v
    }
}

impl TransferRun {
    /// The run is in a state that `valid` allows.
    pub open spec fn wf(&self) -> bool {
        valid(self@)
    }

    /// A run over `files` with the settings of `config`; its first action is `Connect`.
    pub fn start(config: &Config, files: Vec<String>) -> (r: (TransferRun, Action))
        ensures
            r.0.wf(),
            r.0@ == (RunView {
                files: files@,
                server: config.server,
                port: config.port,
                random_id: config.random_id,
                stage: Stage::Connecting,
                payload: Seq::empty(),
                appended: 0,
            }),
            r.1 is Connect,
    {
        let n = files.len();
        let run = TransferRun {
            files,
            server: config.server.clone(),
            port: config.port,
            random_id: config.random_id,
            stage: Stage::Connecting,
            payload: Vec::new(),
            appended: 0,
        };
        (run, Action::Connect)
    }

    /// Where the run stands.
    pub fn stage(&self) -> (r: Stage)
        ensures
            r == self@.stage,
    {
        self.stage
    }

    /// How many files have been appended.
    pub fn appended(&self) -> (r: usize)
        ensures
            r == self@.appended,
    {
        self.appended
    }

    /// The message that an `Append` action stores.
    pub fn payload(&self) -> (r: &Vec<u8>)
        ensures
            r@ == self@.payload,
    {
        &self.payload
    }

    /// Whether the run waits for `event`.
    pub fn accepts(&self, event: &Event) -> (r: bool)
        ensures
            r == stage_accepts(self@.stage, *event),
    {
        match self.stage {
            Stage::Connecting | Stage::Reconnecting { .. } => match event {
                Event::Connected | Event::ConnectFailed(_) => true,
                _ => false,
            },
            Stage::Reading { .. } => match event {
                Event::Read(_) | Event::ReadFailed(_) => true,
                _ => false,
            },
            Stage::Appending { .. } | Stage::Retrying { .. } => match event {
                Event::Appended | Event::AppendFailed(_) => true,
                _ => false,
            },
            Stage::Finished | Stage::Aborted => false,
        }
    }

    /// The content read for a file, made ready for appending.
    fn prepare(&self, bytes: Vec<u8>) -> (r: (Vec<u8>, Option<RewriteError>))
        ensures
            prepared_payload(self@.random_id, bytes@, r.0@),
            r.1 == rewrite_warning(self@.random_id, bytes@),
    {
        if self.random_id {
            match randomize_message_id(bytes.as_slice()) {
                Ok(rewritten) => (rewritten, None),
                Err(err) => (bytes, Some(err)),
            }
        } else {
            (bytes, None)
        }
    }

    /// Takes the outcome of the last action and returns the next action.
    pub fn step(&mut self, event: Event) -> (a: Action)
        requires
            old(self).wf(),
            stage_accepts(old(self)@.stage, event),
        ensures
            final(self).wf(),
            a == next_action(old(self)@, event),
            final(self)@.stage == next_stage(old(self)@, event),
            event matches Event::Read(bytes) ==> (final(self)@ == (RunView {
                stage: next_stage(old(self)@, event),
                payload: final(self)@.payload,
                ..old(self)@
            }) && prepared_payload(old(self)@.random_id, bytes@, final(self)@.payload)),
            !(event is Read) ==> final(self)@ == advance(old(self)@, event),
    {
        let ghost before = self@;
        match self.stage {
            Stage::Connecting => match event {
                Event::Connected => {
                    if self.files.len() == 0 {
                        self.stage = Stage::Finished;
                        Action::Finish
                    } else {
                        self.stage = Stage::Reading { index: 0 };
                        Action::Read { index: 0 }
                    }
                },
                Event::ConnectFailed(reason) => self.abort_on_connect(reason),
                _ => Action::Finish,
            },
            Stage::Reading { index } => match event {
                Event::Read(bytes) => {
                    let (payload, warning) = self.prepare(bytes);
                    self.payload = payload;
                    self.stage = Stage::Appending { index };
                    Action::Append { index, warning }
                },
                Event::ReadFailed(reason) => {
                    self.stage = Stage::Aborted;
                    Action::Abort(RunError::Read { path: self.files[index].clone(), reason })
                },
                _ => Action::Finish,
            },
            Stage::Appending { index } => match event {
                Event::Appended => self.file_appended(index),
                _ => {
                    self.stage = Stage::Reconnecting { index };
                    Action::Reconnect
                },
            },
            Stage::Reconnecting { index } => match event {
                Event::Connected => {
                    self.stage = Stage::Retrying { index };
                    Action::Append { index, warning: None }
                },
                Event::ConnectFailed(reason) => self.abort_on_connect(reason),
                _ => Action::Finish,
            },
            Stage::Retrying { index } => match event {
                Event::Appended => self.file_appended(index),
                Event::AppendFailed(reason) => {
                    self.stage = Stage::Aborted;
                    Action::Abort(RunError::Append { path: self.files[index].clone(), reason })
                },
                _ => Action::Finish,
            },
            _ => Action::Finish,
        }
    }

    fn abort_on_connect(&mut self, reason: String) -> (a: Action)
        requires
            old(self).wf(),
        ensures
            final(self).wf(),
            final(self)@ == (RunView { stage: Stage::Aborted, ..old(self)@ }),
            a == Action::Abort(RunError::Connect { server: old(self)@.server, port: old(self)@.port, reason }),
    {
        self.stage = Stage::Aborted;
        Action::Abort(RunError::Connect { server: self.server.clone(), port: self.port, reason })
    }

    fn file_appended(&mut self, index: usize) -> (a: Action)
        requires
            old(self).wf(),
            old(self)@.stage == (Stage::Appending { index }) || old(self)@.stage == (Stage::Retrying { index }),
        ensures
            final(self).wf(),
            final(self)@ == (RunView {
                stage: after_file(old(self)@, index),
                appended: old(self)@.appended + 1,
                ..old(self)@
            }),
            a == action_after_file(old(self)@, index),
    {
        let n = self.files.len();
        self.appended = self.appended + 1;
        if index + 1 < n {
            self.stage = Stage::Reading { index: index + 1 };
            Action::Read { index: index + 1 }
        } else {
            self.stage = Stage::Finished;
            Action::Finish
        }
    }
}

/// An append that fails once and succeeds after the reconnect stores the message once:
/// the run reconnects, appends the same payload again with no new warning, counts the
/// file as appended one time, and goes on to the next file without a fatal error.
pub proof fn lemma_dropped_connection_recovers(v: RunView, reason: String)
    requires
        valid(v),
        v.stage is Appending,
    ensures
        ({
            let index = v.stage->Appending_index;
            let dropped = advance(v, Event::AppendFailed(reason));
            let reconnected = advance(dropped, Event::Connected);
            let stored = advance(reconnected, Event::Appended);
            &&& next_action(v, Event::AppendFailed(reason)) is Reconnect
            &&& next_action(dropped, Event::Connected) == (Action::Append { index, warning: None })
            &&& next_action(reconnected, Event::Appended) == action_after_file(v, index)
            &&& !(next_action(reconnected, Event::Appended) is Abort)
            &&& stored.stage == after_file(v, index)
            &&& stored.appended == v.appended + 1
            &&& stored.payload == v.payload
            &&& valid(stored)
        }),
{
}

/// An append that fails again after the reconnect ends the run: the error names the
/// file, and the run takes no further event, so no later file is processed.
pub proof fn lemma_second_failure_aborts(v: RunView, first: String, second: String)
    requires
        valid(v),
        v.stage is Appending,
    ensures
        ({
            let index = v.stage->Appending_index;
            let dropped = advance(v, Event::AppendFailed(first));
            let reconnected = advance(dropped, Event::Connected);
            let failed = advance(reconnected, Event::AppendFailed(second));
            &&& next_action(reconnected, Event::AppendFailed(second)) == Action::Abort(
                RunError::Append { path: v.files[index as int], reason: second },
            )
            &&& failed.stage is Aborted
            &&& failed.appended == v.appended
            &&& forall|e: Event| !stage_accepts(failed.stage, e)
        }),
{
}

/// A file whose identifier header cannot be found is appended as it was read, with a
/// warning that says why.
pub proof fn lemma_missing_header_keeps_message(v: RunView, bytes: Vec<u8>, payload: Seq<u8>)
    requires
        valid(v),
        v.stage is Reading,
        v.random_id,
        locate_header(bytes@) is Err,
        prepared_payload(v.random_id, bytes@, payload),
    ensures
        payload == bytes@,
        next_action(v, Event::Read(bytes)) == (Action::Append {
            index: v.stage->Reading_index,
            warning: Some(locate_header(bytes@)->Err_0),
        }),
{
}

} // verus!
