//! The per-connection session: which trace is bound and how many malformed
//! lines were seen.  Each decoded message maps to exactly one action for the
//! connection loop to carry out; every protocol error is recovered locally
//! and the loop goes on.

use vstd::prelude::*;

use crate::msg::Msg;
use crate::msg::MsgView;
use crate::registry::bump;

verus! {

/// What the connection loop must do for one decoded message.
#[derive(Clone, Debug, PartialEq, Eq)]
pub enum Action {
    /// Nothing to carry out; read the next line.
    Continue,
    /// Resolve this trace through the registry's get-or-create, then record
    /// the returned handle with `bind_done`.
    Bind { trace_id: Vec<u8> },
    /// Append this record, as one whole line, to the bound trace's buffer.
    Append { json: Vec<u8> },
    /// Snapshot the bound trace and export it to this path on a detached
    /// worker; the session never waits for it.
    Emit { path: Vec<u8> },
    /// Stop the whole daemon, then stop this session's loop.
    Kill,
    /// Set the registry's idle-shutdown flag and go on reading.
    SetIdleFlag,
    /// An append or export arrived with no trace bound: report that no trace
    /// file is open for this session, and go on reading.
    RejectNoTrace,
    /// A link command: accepted by the protocol surface, not implemented by
    /// the core; fail loudly, never silently succeed.
    Unimplemented,
}

/// Per-connection mutable context.
pub struct Session {
    /// The handle of the trace this session is bound to, if any.
    pub bound: Option<u64>,
    /// How many malformed lines this connection has sent.
    pub n_errors: u64,
}

impl Session {
    /// A fresh session: nothing bound, no errors seen.
    pub fn new() -> (s: Session)
        ensures
            s.bound matches Option::None,
            s.n_errors == 0,
    {
        Session { bound: Option::None, n_errors: 0 }
    }

    /// Decide the action for one decoded message.  Malformed lines bump the
    /// error counter and the loop continues; an append or export without a
    /// binding is rejected without ending the session; the binding itself
    /// only changes through `bind_done`.
    pub fn step(&mut self, msg: Msg) -> (a: Action)
        ensures
            final(self).bound == old(self).bound,
            (match msg@ {
                MsgView::Empty => a == Action::Continue && final(self).n_errors == old(
                    self,
                ).n_errors,
                MsgView::Open(id) => (a matches Action::Bind { trace_id } && trace_id@ == id)
                    && final(self).n_errors == old(self).n_errors,
                MsgView::Die => a == Action::Kill && final(self).n_errors == old(self).n_errors,
                MsgView::DieWhenIdle => a == Action::SetIdleFlag && final(self).n_errors == old(
                    self,
                ).n_errors,
                MsgView::Add(json) => (match old(self).bound {
                    Option::Some(_) => (a matches Action::Append { json: j } && j@ == json),
                    Option::None => a == Action::RejectNoTrace,
                }) && final(self).n_errors == old(self).n_errors,
                MsgView::EmitTef(p) => (match old(self).bound {
                    Option::Some(_) => (a matches Action::Emit { path } && path@ == p),
                    Option::None => a == Action::RejectNoTrace,
                }) && final(self).n_errors == old(self).n_errors,
                MsgView::Symlink(_) => a == Action::Unimplemented && final(self).n_errors == old(
                    self,
                ).n_errors,
                MsgView::Hardlink(_) => a == Action::Unimplemented && final(self).n_errors == old(
                    self,
                ).n_errors,
                MsgView::ParseError(_) => a == Action::Continue && final(self).n_errors == bump(
                    old(self).n_errors,
                ),
            }),
    {
        match msg {
            Msg::Empty => Action::Continue,
            Msg::Open { trace_id } => Action::Bind { trace_id },
            Msg::Die => Action::Kill,
            Msg::DieWhenIdle => Action::SetIdleFlag,
            Msg::Add { json } => {
                if self.bound.is_some() {
                    Action::Append { json }
                } else {
                    Action::RejectNoTrace
                }
            },
            Msg::EmitTef { path } => {
                if self.bound.is_some() {
                    Action::Emit { path }
                } else {
                    Action::RejectNoTrace
                }
            },
            Msg::Symlink { file: _ } => Action::Unimplemented,
            Msg::Hardlink { file: _ } => Action::Unimplemented,
            Msg::ParseError { kind: _ } => {
                let n = self.n_errors;
                self.n_errors = if n < u64::MAX {
                    n + 1
                } else {
                    n
                };
                Action::Continue
            },
        }
    }

    /// Record the handle the registry resolved for a bind.  Hands back the
    /// previously bound handle, whose hold the caller must release: a rebind
    /// does not close the old trace, sharing does.
    pub fn bind_done(&mut self, handle: u64) -> (prev: Option<u64>)
        ensures
            final(self).bound matches Option::Some(h) && h == handle,
            prev == old(self).bound,
            final(self).n_errors == old(self).n_errors,
    {
        let prev = self.bound;
        self.bound = Option::Some(handle);
        prev
    }
}

/// The bytes of `"default"`, the trace every session is implicitly bound to
/// when the daemon funnels all traces into a single file.
pub open spec fn default_trace_spec() -> Seq<u8> {
    seq![100u8, 101u8, 102u8, 97u8, 117u8, 108u8, 116u8]
}

/// The identifier of the implicit trace of single-file mode, as a value.
pub fn default_trace_id() -> (r: Vec<u8>)
    ensures
        r@ == default_trace_spec(),
{
    let mut v: Vec<u8> = Vec::new();
    v.push(100);
    v.push(101);
    v.push(102);
    v.push(97);
    v.push(117);
    v.push(108);
    v.push(116);
    proof {
        assert(v@ =~= default_trace_spec());
    }
    v
}

} // verus!
