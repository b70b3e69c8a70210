//! Bridge to an external editor: whether one is connected, and the JSON
//! replies that diagnostics and code-execution requests receive.
use std::sync::{Arc, Mutex};
use vstd::prelude::*;
use crate::json::{json_quoted, quote_json};
use crate::text::{decimal, push_decimal, push_str};

verus! {

/// The connection state of an IDE.
#[derive(Debug, Clone)]
pub enum IdeConnectionState {
    /// No IDE is connected.
    Disconnected,
    /// An IDE is connected; `editor` names it (e.g. "vscode").
    Connected { editor: String },
}

#[verifier::external_type_specification]
#[verifier::external_body]
#[verifier::reject_recursive_types(T)]
pub struct ExMutex<T: ?Sized>(Mutex<T>);

/// A new mutex holding `s` (`Mutex::new`).
#[verifier::external_body]
fn new_mutex(s: IdeConnectionState) -> (m: Mutex<IdeConnectionState>) {
    Mutex::new(s)
}

/// A copy of the state the mutex holds at the time of the call
/// (`Mutex::lock`, a poisoned lock being read all the same).  The state is
/// shared with every clone of the bridge, so nothing is claimed of it.
#[verifier::external_body]
fn read_state(m: &Mutex<IdeConnectionState>) -> (s: IdeConnectionState) {
    m.lock().unwrap_or_else(std::sync::PoisonError::into_inner).clone()
}

/// Replaces the state the mutex holds (`Mutex::lock`, a poisoned lock
/// being written all the same).
#[verifier::external_body]
fn write_state(m: &Mutex<IdeConnectionState>, s: IdeConnectionState) {
    *m.lock().unwrap_or_else(std::sync::PoisonError::into_inner) = s;
}

/// Another handle on the same shared state (`Arc::clone`).
#[verifier::external_body]
fn share_state(a: &Arc<Mutex<IdeConnectionState>>) -> (b: Arc<Mutex<IdeConnectionState>>) {
    Arc::clone(a)
}

/// The message of a reply sent while no IDE is connected.
pub open spec fn msg_no_ide() -> Seq<char> {
    "No IDE connected. Use --ide flag to enable IDE integration."@
}

/// The reply to a diagnostics request: `{"diagnostics":[],"message":...,
/// "status":"not_connected"}` without an IDE, `{"diagnostics":[],"path":...,
/// "status":"connected"}` with one, the path being `null` when none was
/// given.  Keys come sorted, as `serde_json` writes an object.
pub open spec fn diagnostics_text(connected: bool, path: Option<Seq<char>>) -> Seq<char> {
    if !connected {
        "{\"diagnostics\":[],\"message\":\"No IDE connected. Use --ide flag to enable IDE integration.\",\"status\":\"not_connected\"}"@
    } else {
        "{\"diagnostics\":[],\"path\":"@ + match path {
            Some(p) => json_quoted(p),
            None => "null"@,
        } + ",\"status\":\"connected\"}"@
    }
}

/// The reply to a code-execution request: `{"message":...,
/// "status":"not_connected"}` without an IDE; with one, the length of the
/// code in UTF-8 bytes, the language, the result placeholder and the status.
pub open spec fn execute_text(connected: bool, code_len: nat, language: Seq<char>) -> Seq<char> {
    if !connected {
        "{\"message\":\"No IDE connected. Use --ide flag to enable IDE integration.\",\"status\":\"not_connected\"}"@
    } else {
        "{\"code_length\":"@ + decimal(code_len) + ",\"language\":"@ + json_quoted(language)
            + ",\"result\":\"Code execution not yet implemented\",\"status\":\"connected\"}"@
    }
}

/// The `Option<&str>` path as characters.
pub open spec fn opt_chars(p: Option<&str>) -> Option<Seq<char>> {
    match p {
        Some(s) => Some(s@),
        None => None,
    }
}

/// The reply to a diagnostics request, for a bridge that is connected or
/// not.
pub fn diagnostics_response(connected: bool, path: Option<&str>) -> (r: String)
    ensures
        r@ == diagnostics_text(connected, opt_chars(path)),
{
    let mut out = String::new();
    if !connected {
        push_str(
            &mut out,
            "{\"diagnostics\":[],\"message\":\"No IDE connected. Use --ide flag to enable IDE integration.\",\"status\":\"not_connected\"}",
        );
        return out;
    }
    push_str(&mut out, "{\"diagnostics\":[],\"path\":");
    match path {
        Some(p) => {
            let q = quote_json(p);
            push_str(&mut out, q.as_str());
        },
        None => {
            push_str(&mut out, "null");
        },
    }
    push_str(&mut out, ",\"status\":\"connected\"}");
    out
}

/// The reply to a code-execution request, for a bridge that is connected
/// or not.
pub fn execute_response(connected: bool, code: &str, language: &str) -> (r: String)
    ensures
        r@ == execute_text(connected, code.len() as nat, language@),
{
    let mut out = String::new();
    if !connected {
        push_str(
            &mut out,
            "{\"message\":\"No IDE connected. Use --ide flag to enable IDE integration.\",\"status\":\"not_connected\"}",
        );
        return out;
    }
    push_str(&mut out, "{\"code_length\":");
    let n = code.len();
    push_decimal(&mut out, n as u64);
    push_str(&mut out, ",\"language\":");
    let q = quote_json(language);
    push_str(&mut out, q.as_str());
    push_str(&mut out, ",\"result\":\"Code execution not yet implemented\",\"status\":\"connected\"}");
    out
}

/// Thread-safe bridge between the CLI and a connected IDE.  Clones share
/// one connection state.
#[derive(Debug)]
pub struct IdeBridge {
    state: Arc<Mutex<IdeConnectionState>>,
}

impl Clone for IdeBridge {
    fn clone(&self) -> (b: IdeBridge) {
        IdeBridge { state: share_state(&self.state) }
    }
}

impl Default for IdeBridge {
    fn default() -> (b: IdeBridge) {
        IdeBridge::new()
    }
}

impl IdeBridge {
    /// A new bridge, not connected.
    pub fn new() -> (b: IdeBridge) {
        IdeBridge { state: Arc::new(new_mutex(IdeConnectionState::Disconnected)) }
    }

    /// Whether an IDE is connected now.
    pub fn is_connected(&self) -> (r: bool) {
        match read_state(&self.state) {
            IdeConnectionState::Connected { .. } => true,
            IdeConnectionState::Disconnected => false,
        }
    }

    /// Marks the bridge connected to `editor`.
    pub fn connect(&self, editor: String) {
        write_state(&self.state, IdeConnectionState::Connected { editor });
    }

    /// Diagnostics from the connected IDE; a `not_connected` reply when
    /// there is none.
    pub fn get_diagnostics(&self, path: Option<&str>) -> (r: Result<String, String>)
        ensures
            r matches Ok(s) && (s@ == diagnostics_text(false, opt_chars(path)) || s@
                == diagnostics_text(true, opt_chars(path))),
    {
        let connected = self.is_connected();
        Ok(diagnostics_response(connected, path))
    }

    /// Runs code in the connected IDE's runtime; a `not_connected` reply
    /// when there is none.
    pub fn execute_code(&self, code: &str, language: &str) -> (r: Result<String, String>)
        ensures
            r matches Ok(s) && (s@ == execute_text(false, code.len() as nat, language@)
                || s@ == execute_text(true, code.len() as nat, language@)),
    {
        let connected = self.is_connected();
        Ok(execute_response(connected, code, language))
    }
}

} // verus!
