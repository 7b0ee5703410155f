//! Managing the background service: quoting values for the files and scripts
//! that install it, and the status the user sees on each platform.
use vstd::prelude::*;

use crate::job_logs::append_str;
use crate::models::owned;
use crate::text::{chars_of, push_char};

pub mod linux;
pub mod macos;
pub mod unsupported;
pub mod windows;

verus! {

/// What the user is told about the background service.
#[derive(Clone, Debug, PartialEq, Eq)]
pub struct ServiceStatusResponse {
    pub supported: bool,
    pub installed: bool,
    pub running: bool,
    pub label: String,
    pub plist_path: String,
    pub executable_path: String,
    pub status_message: String,
}

pub open spec fn msg_installed_running() -> Seq<char> {
    "The background service is installed and running. It will persist app closure and user logout."@
}

pub open spec fn msg_installed_stopped() -> Seq<char> {
    "The background service is installed but not currently running. Restart it to resume background loading."@
}

/// The status line: nothing when the service is not installed.
pub open spec fn status_message(installed: bool, running: bool) -> Seq<char> {
    if !installed {
        Seq::empty()
    } else if running {
        msg_installed_running()
    } else {
        msg_installed_stopped()
    }
}

pub fn service_status_message(installed: bool, running: bool) -> (res: String)
    ensures
        res@ == status_message(installed, running),
{
    if !installed {
        String::new()
    } else if running {
        owned(
            "The background service is installed and running. It will persist app closure and user logout.",
        )
    } else {
        owned(
            "The background service is installed but not currently running. Restart it to resume background loading.",
        )
    }
}

/// The status of a platform without service management.
pub fn unsupported_service_status(message: &str) -> (res: ServiceStatusResponse)
    ensures
        !res.supported && !res.installed && !res.running,
        res.label@.len() == 0 && res.plist_path@.len() == 0 && res.executable_path@.len() == 0,
        res.status_message@ == message@,
{
    ServiceStatusResponse {
        supported: false,
        installed: false,
        running: false,
        label: String::new(),
        plist_path: String::new(),
        executable_path: String::new(),
        status_message: owned(message),
    }
}

// ---------------------------------------------------------------------------
// Quoting
// ---------------------------------------------------------------------------
/// Where a value is written.
#[derive(Clone, Copy, Debug, PartialEq, Eq, Structural)]
pub enum EscapeKind {
    /// A systemd unit file value.
    Systemd,
    /// An AppleScript string literal.
    AppleScript,
    /// XML text.
    Xml,
    /// Inside single quotes in a POSIX shell.
    Shell,
    /// Inside single quotes in PowerShell.
    PowerShell,
}

/// What one character becomes.
pub open spec fn escape_char(kind: EscapeKind, c: char) -> Seq<char> {
    match kind {
        EscapeKind::Systemd => if c == '\\' {
            seq!['\\', '\\']
        } else if c == '"' {
            seq!['\\', '"']
        } else if c == ' ' {
            seq!['\\', 'x', '2', '0']
        } else {
            seq![c]
        },
        EscapeKind::AppleScript => if c == '\\' {
            seq!['\\', '\\']
        } else if c == '"' {
            seq!['\\', '"']
        } else {
            seq![c]
        },
        EscapeKind::Xml => if c == '&' {
            seq!['&', 'a', 'm', 'p', ';']
        } else if c == '<' {
            seq!['&', 'l', 't', ';']
        } else if c == '>' {
            seq!['&', 'g', 't', ';']
        } else {
            seq![c]
        },
        EscapeKind::Shell => if c == '\'' {
            seq!['\'', '"', '\'', '"', '\'']
        } else {
            seq![c]
        },
        EscapeKind::PowerShell => if c == '\'' {
            seq!['\'', '\'']
        } else {
            seq![c]
        },
    }
}

/// Every character of `s` escaped, in order.
pub open spec fn escaped(kind: EscapeKind, s: Seq<char>) -> Seq<char>
    decreases s.len(),
{
    if s.len() == 0 {
        Seq::empty()
    } else {
        escaped(kind, s.drop_last()) + escape_char(kind, s.last())
    }
}

fn push_seq(out: &mut String, cs: &[char])
    ensures
        final(out)@ == old(out)@ + cs@,
{
    let ghost start = out@;
    for i in 0..cs.len()
        invariant
            out@ == start + cs@.take(i as int),
    {
        push_char(out, cs[i]);
        assert(cs@.take(i + 1) =~= cs@.take(i as int).push(cs@[i as int]));
    }
    assert(cs@.take(cs@.len() as int) =~= cs@);
}

fn push_escaped_char(kind: EscapeKind, c: char, out: &mut String)
    ensures
        final(out)@ == old(out)@ + escape_char(kind, c),
{
    let ghost start = out@;
    match kind {
        EscapeKind::Systemd => if c == '\\' {
            push_seq(out, &['\\', '\\']);
        } else if c == '"' {
            push_seq(out, &['\\', '"']);
        } else if c == ' ' {
            push_seq(out, &['\\', 'x', '2', '0']);
        } else {
            push_char(out, c);
        },
        EscapeKind::AppleScript => if c == '\\' {
            push_seq(out, &['\\', '\\']);
        } else if c == '"' {
            push_seq(out, &['\\', '"']);
        } else {
            push_char(out, c);
        },
        EscapeKind::Xml => if c == '&' {
            push_seq(out, &['&', 'a', 'm', 'p', ';']);
        } else if c == '<' {
            push_seq(out, &['&', 'l', 't', ';']);
        } else if c == '>' {
            push_seq(out, &['&', 'g', 't', ';']);
        } else {
            push_char(out, c);
        },
        EscapeKind::Shell => if c == '\'' {
            push_seq(out, &['\'', '"', '\'', '"', '\'']);
        } else {
            push_char(out, c);
        },
        EscapeKind::PowerShell => if c == '\'' {
            push_seq(out, &['\'', '\'']);
        } else {
            push_char(out, c);
        },
    }
    assert(out@ =~= start + escape_char(kind, c));
}

/// Appends `s` escaped for `kind`.
pub fn push_escaped(kind: EscapeKind, s: &str, out: &mut String)
    ensures
        final(out)@ == old(out)@ + escaped(kind, s@),
{
    let cs = chars_of(s);
    let ghost start = out@;
    for i in 0..cs.len()
        invariant
            cs@ == s@,
            out@ == start + escaped(kind, cs@.take(i as int)),
    {
        assert(cs@.take(i + 1).drop_last() =~= cs@.take(i as int));
        assert(cs@.take(i + 1).last() == cs@[i as int]);
        let ghost before = out@;
        push_escaped_char(kind, cs[i], out);
        assert(out@ =~= start + escaped(kind, cs@.take(i + 1)));
    }
    assert(cs@.take(cs@.len() as int) =~= cs@);
}

pub fn escape(kind: EscapeKind, value: &str) -> (res: String)
    ensures
        res@ == escaped(kind, value@),
{
    let mut out = String::new();
    push_escaped(kind, value, &mut out);
    assert(out@ =~= escaped(kind, value@));
    out
}

/// A value quoted for a POSIX shell: in single quotes, each inner single
/// quote closed, double-quoted and reopened.
pub fn shell_quote(value: &str) -> (res: String)
    ensures
        res@ == seq!['\''] + escaped(EscapeKind::Shell, value@) + seq!['\''],
{
    let mut out = String::new();
    push_char(&mut out, '\'');
    push_escaped(EscapeKind::Shell, value, &mut out);
    push_char(&mut out, '\'');
    assert(out@ =~= seq!['\''] + escaped(EscapeKind::Shell, value@) + seq!['\'']);
    out
}

pub fn systemd_escape(value: &str) -> (res: String)
    ensures
        res@ == escaped(EscapeKind::Systemd, value@),
{
    escape(EscapeKind::Systemd, value)
}

pub fn applescript_escape(value: &str) -> (res: String)
    ensures
        res@ == escaped(EscapeKind::AppleScript, value@),
{
    escape(EscapeKind::AppleScript, value)
}

pub fn xml_escape(value: &str) -> (res: String)
    ensures
        res@ == escaped(EscapeKind::Xml, value@),
{
    escape(EscapeKind::Xml, value)
}

pub fn powershell_quote(value: &str) -> (res: String)
    ensures
        res@ == escaped(EscapeKind::PowerShell, value@),
{
    escape(EscapeKind::PowerShell, value)
}

/// Escaping for XML leaves no `<` or `>` in the text, so a value can never
/// open or close an element.
pub proof fn lemma_xml_escape_has_no_angle_brackets(s: Seq<char>)
    ensures
        forall|k: int| 0 <= k < escaped(EscapeKind::Xml, s).len() ==> (#[trigger] escaped(EscapeKind::Xml, s)[k]) != '<'
            && escaped(EscapeKind::Xml, s)[k] != '>',
    decreases s.len(),
{
    if s.len() > 0 {
        lemma_xml_escape_has_no_angle_brackets(s.drop_last());
        let p = escaped(EscapeKind::Xml, s.drop_last());
        let e = escaped(EscapeKind::Xml, s);
        assert forall|k: int| 0 <= k < e.len() implies (#[trigger] e[k]) != '<' && e[k] != '>' by {
            if k < p.len() {
                assert(e[k] == p[k]);
            } else {
                assert(e[k] == escape_char(EscapeKind::Xml, s.last())[k - p.len()]);
            }
        }
    }
}

/// A value escaped for a systemd unit holds no space and no unescaped
/// double quote, so it stays one token of its line.
pub proof fn lemma_systemd_escape_has_no_spaces(s: Seq<char>)
    ensures
        forall|k: int| 0 <= k < escaped(EscapeKind::Systemd, s).len() ==> (#[trigger] escaped(EscapeKind::Systemd, s)[k]) != ' ',
        forall|k: int| 0 <= k < escaped(EscapeKind::Systemd, s).len() && #[trigger] escaped(EscapeKind::Systemd, s)[k] == '"' ==> k > 0 && escaped(EscapeKind::Systemd, s)[k - 1] == '\\',
    decreases s.len(),
{
    if s.len() > 0 {
        lemma_systemd_escape_has_no_spaces(s.drop_last());
        let p = escaped(EscapeKind::Systemd, s.drop_last());
        let e = escaped(EscapeKind::Systemd, s);
        assert forall|k: int| 0 <= k < e.len() implies (#[trigger] e[k]) != ' ' by {
            if k < p.len() {
                assert(e[k] == p[k]);
            } else {
                assert(e[k] == escape_char(EscapeKind::Systemd, s.last())[k - p.len()]);
            }
        }
        assert forall|k: int| 0 <= k < e.len() && #[trigger] e[k] == '"' implies k > 0 && e[k - 1] == '\\' by {
            if k < p.len() {
                assert(e[k] == p[k]);
                assert(e[k - 1] == p[k - 1]);
            } else {
                assert(e[k] == escape_char(EscapeKind::Systemd, s.last())[k - p.len()]);
                assert(e[k - 1] == escape_char(EscapeKind::Systemd, s.last())[k - 1 - p.len()]);
            }
        }
    }
}

} // verus!
