//! The line-oriented control protocol: one received line decodes to exactly
//! one typed command.  Decoding is a pure function of the line text; a
//! malformed line yields a typed error value, never a failure.

use vstd::prelude::*;

use crate::bytes::trim_bytes;
use crate::bytes::trimmed;

verus! {

/// Why a line was rejected by the codec.
#[derive(Clone, Copy, Debug, PartialEq, Eq, Structural)]
pub enum ParseErrorKind {
    /// The line opened a JSON object brace but did not close it.
    UnclosedJson,
    /// The line matched no command and was not a JSON object line.
    Unrecognized,
}

impl ParseErrorKind {
    /// A human-readable reason for the operator's log.
    pub fn describe(&self) -> &'static str {
        match self {
            ParseErrorKind::UnclosedJson => "Non closed JSON object",
            ParseErrorKind::Unrecognized => "Expected a valid client message",
        }
    }
}

/// A message from a client, one per protocol line.
///
/// The link commands are accepted by the protocol surface but are not
/// implemented by the core: dispatching one must fail loudly, never no-op.
#[derive(Clone, Debug, PartialEq, Eq)]
pub enum Msg {
    /// A blank line; a no-op.
    Empty,
    /// Bind the session to the trace with this identifier.
    Open { trace_id: Vec<u8> },
    /// Export the bound trace as a TEF document at this path.
    EmitTef { path: Vec<u8> },
    /// Link the bound trace file to another path (accepted, unimplemented).
    Symlink { file: Vec<u8> },
    /// Hard-link the bound trace file to another path (accepted, unimplemented).
    Hardlink { file: Vec<u8> },
    /// A raw JSON object line to append to the bound trace.
    Add { json: Vec<u8> },
    /// Ask the whole daemon to shut down.
    Die,
    /// Ask the daemon to shut down once no trace is referenced.
    DieWhenIdle,
    /// The line was malformed; carries the reason.
    ParseError { kind: ParseErrorKind },
}

/// The mathematical shape of a decoded message: `Msg` with its byte payloads
/// seen as sequences.
pub enum MsgView {
    Empty,
    Open(Seq<u8>),
    EmitTef(Seq<u8>),
    Symlink(Seq<u8>),
    Hardlink(Seq<u8>),
    Add(Seq<u8>),
    Die,
    DieWhenIdle,
    ParseError(ParseErrorKind),
}

impl View for Msg {
    type V = MsgView;

    open spec fn view(&self) -> MsgView {
        match self {
            Msg::Empty => MsgView::Empty,
            Msg::Open { trace_id } => MsgView::Open(trace_id@),
            Msg::EmitTef { path } => MsgView::EmitTef(path@),
            Msg::Symlink { file } => MsgView::Symlink(file@),
            Msg::Hardlink { file } => MsgView::Hardlink(file@),
            Msg::Add { json } => MsgView::Add(json@),
            Msg::Die => MsgView::Die,
            Msg::DieWhenIdle => MsgView::DieWhenIdle,
            Msg::ParseError { kind } => MsgView::ParseError(*kind),
        }
    }
}

/// The bytes of `"OPEN "`.
pub open spec fn kw_open() -> Seq<u8> {
    seq![79u8, 80u8, 69u8, 78u8, 32u8]
}

/// The bytes of `"DIE"`.
pub open spec fn kw_die() -> Seq<u8> {
    seq![68u8, 73u8, 69u8]
}

/// The bytes of `"DIE_WHEN_IDLE"`.
pub open spec fn kw_die_when_idle() -> Seq<u8> {
    seq![68u8, 73u8, 69u8, 95u8, 87u8, 72u8, 69u8, 78u8, 95u8, 73u8, 68u8, 76u8, 69u8]
}

/// The bytes of `"EMIT_TEF "`.
pub open spec fn kw_emit_tef() -> Seq<u8> {
    seq![69u8, 77u8, 73u8, 84u8, 95u8, 84u8, 69u8, 70u8, 32u8]
}

/// The bytes of `"SYMLINK "`.
pub open spec fn kw_symlink() -> Seq<u8> {
    seq![83u8, 89u8, 77u8, 76u8, 73u8, 78u8, 75u8, 32u8]
}

/// The bytes of `"HARDLINK "`.
pub open spec fn kw_hardlink() -> Seq<u8> {
    seq![72u8, 65u8, 82u8, 68u8, 76u8, 73u8, 78u8, 75u8, 32u8]
}

/// `s` begins with `p`.
pub open spec fn has_prefix(s: Seq<u8>, p: Seq<u8>) -> bool {
    s.len() >= p.len() && s.take(p.len() as int) == p
}

/// The grammar: what one line of text decodes to, checked in priority order.
/// An `Add` line must open with `{` and, after trimming, close with `}`.
pub open spec fn decode_spec(line: Seq<u8>) -> MsgView {
    let t = trimmed(line);
    if t.len() == 0 {
        MsgView::Empty
    } else if has_prefix(t, kw_open()) {
        MsgView::Open(trimmed(t.skip(kw_open().len() as int)))
    } else if t == kw_die() {
        MsgView::Die
    } else if t == kw_die_when_idle() {
        MsgView::DieWhenIdle
    } else if has_prefix(t, kw_emit_tef()) {
        MsgView::EmitTef(trimmed(t.skip(kw_emit_tef().len() as int)))
    } else if has_prefix(t, kw_symlink()) {
        MsgView::Symlink(trimmed(t.skip(kw_symlink().len() as int)))
    } else if has_prefix(t, kw_hardlink()) {
        MsgView::Hardlink(trimmed(t.skip(kw_hardlink().len() as int)))
    } else if t[0] == 123 {
        if t.last() == 125 {
            MsgView::Add(t)
        } else {
            MsgView::ParseError(ParseErrorKind::UnclosedJson)
        }
    } else {
        MsgView::ParseError(ParseErrorKind::Unrecognized)
    }
}

/// Exec test of `has_prefix`.
fn starts_with(s: &[u8], p: &[u8]) -> (r: bool)
    ensures
        r == has_prefix(s@, p@),
{
    if s.len() < p.len() {
        return false;
    }
    let n: usize = p.len();
    let mut i: usize = 0;
    while i < n
        invariant
            0 <= i <= n == p@.len(),
            s@.len() >= n,
            forall|k: int| 0 <= k < i ==> s@[k] == p@[k],
        decreases n - i,
    {
        if s[i] != p[i] {
            proof {
                assert(s@.take(n as int)[i as int] == s@[i as int]);
            }
            return false;
        }
        i = i + 1;
    }
    proof {
        assert(s@.take(n as int) =~= p@);
    }
    true
}

/// The bytes of `"OPEN "`, as a value.
fn kw_open_vec() -> (v: Vec<u8>)
    ensures
        v@ == kw_open(),
{
    let mut v: Vec<u8> = Vec::new();
    v.push(79);
    v.push(80);
    v.push(69);
    v.push(78);
    v.push(32);
    proof {
        assert(v@ =~= kw_open());
    }
    v
}

/// The bytes of `"DIE"`, as a value.
fn kw_die_vec() -> (v: Vec<u8>)
    ensures
        v@ == kw_die(),
{
    let mut v: Vec<u8> = Vec::new();
    v.push(68);
    v.push(73);
    v.push(69);
    proof {
        assert(v@ =~= kw_die());
    }
    v
}

/// The bytes of `"DIE_WHEN_IDLE"`, as a value.
fn kw_die_when_idle_vec() -> (v: Vec<u8>)
    ensures
        v@ == kw_die_when_idle(),
{
    let mut v: Vec<u8> = kw_die_vec();
    v.push(95);
    v.push(87);
    v.push(72);
    v.push(69);
    v.push(78);
    v.push(95);
    v.push(73);
    v.push(68);
    v.push(76);
    v.push(69);
    proof {
        assert(v@ =~= kw_die_when_idle());
    }
    v
}

/// The bytes of `"EMIT_TEF "`, as a value.
fn kw_emit_tef_vec() -> (v: Vec<u8>)
    ensures
        v@ == kw_emit_tef(),
{
    let mut v: Vec<u8> = Vec::new();
    v.push(69);
    v.push(77);
    v.push(73);
    v.push(84);
    v.push(95);
    v.push(84);
    v.push(69);
    v.push(70);
    v.push(32);
    proof {
        assert(v@ =~= kw_emit_tef());
    }
    v
}

/// The bytes of `"SYMLINK "`, as a value.
fn kw_symlink_vec() -> (v: Vec<u8>)
    ensures
        v@ == kw_symlink(),
{
    let mut v: Vec<u8> = Vec::new();
    v.push(83);
    v.push(89);
    v.push(77);
    v.push(76);
    v.push(73);
    v.push(78);
    v.push(75);
    v.push(32);
    proof {
        assert(v@ =~= kw_symlink());
    }
    v
}

/// The bytes of `"HARDLINK "`, as a value.
fn kw_hardlink_vec() -> (v: Vec<u8>)
    ensures
        v@ == kw_hardlink(),
{
    let mut v: Vec<u8> = Vec::new();
    v.push(72);
    v.push(65);
    v.push(82);
    v.push(68);
    v.push(76);
    v.push(73);
    v.push(78);
    v.push(75);
    v.push(32);
    proof {
        assert(v@ =~= kw_hardlink());
    }
    v
}

/// The payload after a keyword prefix, trimmed: decoding `OPEN  x ` binds
/// the identifier `x`.
fn payload_after(t: &Vec<u8>, kw_len: usize) -> (r: Vec<u8>)
    requires
        kw_len <= t@.len(),
    ensures
        r@ == trimmed(t@.skip(kw_len as int)),
{
    let rest = vstd::slice::slice_subrange(t.as_slice(), kw_len, t.len());
    proof {
        assert(t@.subrange(kw_len as int, t@.len() as int) =~= t@.skip(kw_len as int));
    }
    trim_bytes(rest)
}

/// Decode one received line (the trailing newline may still be present; all
/// surrounding whitespace is ignored) into the command it denotes.
pub fn decode_line(line: &[u8]) -> (m: Msg)
    ensures
        m@ == decode_spec(line@),
{
    let t: Vec<u8> = trim_bytes(line);
    if t.len() == 0 {
        return Msg::Empty;
    }
    let open_kw = kw_open_vec();
    if starts_with(t.as_slice(), open_kw.as_slice()) {
        let trace_id = payload_after(&t, open_kw.len());
        return Msg::Open { trace_id };
    }
    let die_kw = kw_die_vec();
    if crate::bytes::bytes_eq(t.as_slice(), die_kw.as_slice()) {
        return Msg::Die;
    }
    let dwi_kw = kw_die_when_idle_vec();
    if crate::bytes::bytes_eq(t.as_slice(), dwi_kw.as_slice()) {
        return Msg::DieWhenIdle;
    }
    let emit_kw = kw_emit_tef_vec();
    if starts_with(t.as_slice(), emit_kw.as_slice()) {
        let path = payload_after(&t, emit_kw.len());
        return Msg::EmitTef { path };
    }
    let symlink_kw = kw_symlink_vec();
    if starts_with(t.as_slice(), symlink_kw.as_slice()) {
        let file = payload_after(&t, symlink_kw.len());
        return Msg::Symlink { file };
    }
    let hardlink_kw = kw_hardlink_vec();
    if starts_with(t.as_slice(), hardlink_kw.as_slice()) {
        let file = payload_after(&t, hardlink_kw.len());
        return Msg::Hardlink { file };
    }
    if t[0] == 123 {
        if t[t.len() - 1] == 125 {
            return Msg::Add { json: t };
        } else {
            return Msg::ParseError { kind: ParseErrorKind::UnclosedJson };
        }
    }
    Msg::ParseError { kind: ParseErrorKind::Unrecognized }
}

} // verus!
