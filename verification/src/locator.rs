//! Reading the credential artifact's path out of a process-table probe.
//! The probe itself (running a process-listing command) is I/O and stays
//! with the caller; these functions turn its exit code and captured output
//! into the artifact path, or say why they cannot. A failed probe is never
//! fatal: the caller retries on its next poll tick.
use vstd::prelude::*;

use crate::text::find_sub;
use crate::text::first_match;
use crate::text::first_where;
use crate::text::is_ascii_ws;
use crate::text::last_where;
use crate::text::lemma_first_match;
use crate::text::lemma_first_where;
use crate::text::nonws_pred;
use crate::text::split_on;
use crate::text::split_str;
use crate::text::trim_ws;

verus! {

/// Why a probe's output yielded no path.
#[derive(Debug, Clone, Copy, PartialEq, Eq)]
pub enum LocateError {
    /// The process-listing command exited with this status code, or was
    /// killed before it could report one.
    Command(Option<i32>),
    /// The command's output held no usable executable path.
    ParseCommand,
}

/// The client executable's name as it appears in a process table.
pub fn client_exe_name() -> (r: &'static str)
    ensures
        r@ == "LeagueClientUx.exe"@,
{
    "LeagueClientUx.exe"
}

/// The key under which a confirmed artifact path is persisted for the next
/// run.
pub fn hint_key() -> (r: &'static str)
    ensures
        r@ == "lockfile_path"@,
{
    "lockfile_path"
}

/// A double quote.
pub open spec fn quote_pred() -> spec_fn(char) -> bool {
    |c: char| c == '"'
}

/// A path separator of either convention.
pub open spec fn sep_pred() -> spec_fn(char) -> bool {
    |c: char| c == '/' || c == '\\'
}

/// The first double-quoted argument of a command line, if the line has an
/// opening and a closing quote.
pub open spec fn quoted_exe(s: Seq<char>) -> Option<Seq<char>> {
    match first_where(s, quote_pred()) {
        None => None,
        Some(q1) => match first_where(s.skip(q1 + 1), quote_pred()) {
            None => None,
            Some(d) => Some(s.subrange(q1 + 1, q1 + 1 + d)),
        },
    }
}

/// The artifact path derived from a Windows process listing: the first
/// quoted argument is the executable's path, and the artifact sits beside
/// the executable in its directory.
pub open spec fn windows_probe_path(s: Seq<char>) -> Option<Seq<char>> {
    match quoted_exe(s) {
        None => None,
        Some(exe) => match last_where(exe, sep_pred()) {
            None => None,
            Some(k) => Some(exe.take(k + 1) + "lockfile"@),
        },
    }
}

/// The process name looked for in a listing.
pub open spec fn needle_spec() -> Seq<char> {
    "LeagueClientUx"@
}

/// A listing line mentioning the client process.
pub open spec fn line_has_needle() -> spec_fn(Seq<char>) -> bool {
    |l: Seq<char>| first_match(l, needle_spec()) is Some
}

/// The artifact path derived from a Unix process listing: on the first
/// line mentioning the client process, everything before the process name
/// (after trimming) is the installation directory, and the artifact sits
/// inside it.
pub open spec fn unix_probe_path(s: Seq<char>) -> Option<Seq<char>> {
    let lines = split_on(s, '\n');
    match first_where(lines, line_has_needle()) {
        None => None,
        Some(li) => {
            let t = trim_ws(lines[li]);
            match first_match(t, needle_spec()) {
                None => None,
                Some(pos) => {
                    let prefix = t.take(pos);
                    if prefix.len() == 0 || prefix.last() == '/' {
                        Some(prefix + "lockfile"@)
                    } else {
                        Some(prefix + "/"@ + "lockfile"@)
                    }
                },
            }
        },
    }
}

/// Finds the first double quote at or after `from`.
fn find_quote(s: &str, from: usize) -> (r: Option<usize>)
    requires
        from <= s@.len(),
    ensures
        r matches Some(i) ==> from <= i < s@.len() && first_where(s@.skip(from as int), quote_pred())
            == Some(i - from),
        r is None ==> first_where(s@.skip(from as int), quote_pred()) is None,
{
    let n = s.unicode_len();
    let mut i: usize = from;
    while i < n
        invariant
            from <= i <= n == s@.len(),
            forall|j: int| from <= j < i ==> s@[j] != '"',
        decreases n - i,
    {
        let c = s.get_char(i);
        if c == '"' {
            proof {
                lemma_first_where(s@.skip(from as int), quote_pred());
                assert(quote_pred()(s@.skip(from as int)[i - from]));
            }
            return Some(i);
        }
        i += 1;
    }
    proof {
        lemma_first_where(s@.skip(from as int), quote_pred());
        match first_where(s@.skip(from as int), quote_pred()) {
            Some(t) => {
                assert(s@[t + from] == '"');
            },
            None => {},
        }
    }
    None
}

/// Derives the artifact path from a Windows process probe (a command-line
/// listing for the client executable). The command must have exited with
/// code zero; its output must hold a quoted executable path with a
/// directory part. Anything else is a soft, retryable error.
pub fn windows_lockfile_path(exit_code: Option<i32>, output: &str) -> (r: Result<
    String,
    LocateError,
>)
    ensures
        !(exit_code matches Some(0)) ==> r == Err::<String, LocateError>(
            LocateError::Command(exit_code),
        ),
        exit_code matches Some(0) ==> match windows_probe_path(output@) {
            Some(p) => r matches Ok(path) && path@ == p,
            None => r == Err::<String, LocateError>(LocateError::ParseCommand),
        },
{
    match exit_code {
        Some(0) => {},
        _ => {
            return Err(LocateError::Command(exit_code));
        },
    }
    let n = output.unicode_len();
    let q1 = match find_quote(output, 0) {
        Some(i) => i,
        None => {
            proof {
                assert(output@.skip(0) =~= output@);
            }
            return Err(LocateError::ParseCommand);
        },
    };
    proof {
        assert(q1 < n);
    }
    proof {
        assert(output@.skip(0) =~= output@);
    }
    let q2 = match find_quote(output, q1 + 1) {
        Some(i) => i,
        None => {
            return Err(LocateError::ParseCommand);
        },
    };
    let exe = output.substring_char(q1 + 1, q2);
    proof {
        assert(exe@ =~= output@.subrange(q1 + 1, q1 + 1 + (q2 - q1 - 1)));
    }
    let exe_len = exe.unicode_len();
    let mut idx: usize = 0;
    let mut sep_at: Option<usize> = None;
    proof {
        assert(exe@.take(0) =~= Seq::<char>::empty());
    }
    while idx < exe_len
        invariant
            0 <= idx <= exe_len == exe@.len(),
            match sep_at {
                Some(t) => last_where(exe@.take(idx as int), sep_pred()) == Some(t as int) && t
                    < idx,
                None => last_where(exe@.take(idx as int), sep_pred()) is None,
            },
        decreases exe_len - idx,
    {
        let c = exe.get_char(idx);
        proof {
            assert(exe@.take(idx + 1).drop_last() =~= exe@.take(idx as int));
            assert(exe@.take(idx + 1).last() == exe@[idx as int]);
        }
        if c == '/' || c == '\\' {
            sep_at = Some(idx);
        }
        idx += 1;
    }
    proof {
        assert(exe@.take(exe_len as int) =~= exe@);
    }
    match sep_at {
        Some(k) => {
            let mut path = String::from_str(exe.substring_char(0, k + 1));
            path.append("lockfile");
            proof {
                assert(path@ =~= exe@.take(k + 1) + "lockfile"@);
            }
            Ok(path)
        },
        None => Err(LocateError::ParseCommand),
    }
}

/// Derives the artifact path from a Unix process probe (an argument
/// listing of all processes). The command must have exited with code zero
/// and some line must mention the client process. Anything else is a soft,
/// retryable error.
pub fn unix_lockfile_path(exit_code: Option<i32>, output: &str) -> (r: Result<String, LocateError>)
    ensures
        !(exit_code matches Some(0)) ==> r == Err::<String, LocateError>(
            LocateError::Command(exit_code),
        ),
        exit_code matches Some(0) ==> match unix_probe_path(output@) {
            Some(p) => r matches Ok(path) && path@ == p,
            None => r == Err::<String, LocateError>(LocateError::ParseCommand),
        },
{
    match exit_code {
        Some(0) => {},
        _ => {
            return Err(LocateError::Command(exit_code));
        },
    }
    let lines = split_str(output, '\n');
    let ghost line_views = lines@.map_values(|l: String| l@);
    let mut li: usize = 0;
    let n = lines.len();
    let mut found = false;
    while li < n && !found
        invariant
            0 <= li <= n == lines@.len(),
            line_views == lines@.map_values(|l: String| l@),
            forall|j: int| 0 <= j < li ==> !(line_has_needle()(#[trigger] line_views[j])),
            found ==> li < n && line_has_needle()(line_views[li as int]),
        decreases n - li + (if found { 0int } else { 1int }),
    {
        if find_sub(lines[li].as_str(), "LeagueClientUx").is_some() {
            found = true;
        } else {
            li += 1;
        }
    }
    proof {
        lemma_first_where(line_views, line_has_needle());
    }
    if !found {
        return Err(LocateError::ParseCommand);
    }
    let line = lines[li].as_str();
    let line_len = line.unicode_len();
    let mut a_at: Option<usize> = None;
    let mut b_at: Option<usize> = None;
    let mut idx: usize = 0;
    proof {
        assert(line@.take(0) =~= Seq::<char>::empty());
    }
    while idx < line_len
        invariant
            0 <= idx <= line_len == line@.len(),
            match b_at {
                Some(t) => last_where(line@.take(idx as int), nonws_pred()) == Some(t as int) && t
                    < idx,
                None => last_where(line@.take(idx as int), nonws_pred()) is None,
            },
            match a_at {
                Some(t) => t < idx && !is_ascii_ws(line@[t as int]) && forall|j: int|
                    0 <= j < t ==> is_ascii_ws(#[trigger] line@[j]),
                None => forall|j: int| 0 <= j < idx ==> is_ascii_ws(#[trigger] line@[j]),
            },
            a_at is Some <==> b_at is Some,
            (match (a_at, b_at) {
                (Some(x), Some(y)) => x <= y,
                _ => true,
            }),
        decreases line_len - idx,
    {
        let c = line.get_char(idx);
        proof {
            assert(line@.take(idx + 1).drop_last() =~= line@.take(idx as int));
            assert(line@.take(idx + 1).last() == line@[idx as int]);
        }
        if !(c == ' ' || c == '\t' || c == '\n' || c == '\r' || c == '\u{c}') {
            if a_at.is_none() {
                a_at = Some(idx);
            }
            b_at = Some(idx);
        }
        idx += 1;
    }
    proof {
        assert(line@.take(line_len as int) =~= line@);
        lemma_first_where(line@, nonws_pred());
    }
    let (a, b) = match (a_at, b_at) {
        (Some(a), Some(b)) => (a, b),
        _ => {
            proof {
                assert(first_match(trim_ws(line@), needle_spec()) is None) by {
                    reveal_strlit("LeagueClientUx");
                    lemma_first_match(trim_ws(line@), needle_spec());
                }
            }
            return Err(LocateError::ParseCommand);
        },
    };
    let trimmed = line.substring_char(a, b + 1);
    proof {
        assert(trimmed@ == trim_ws(line@));
    }
    let pos = match find_sub(trimmed, "LeagueClientUx") {
        Some(p) => p,
        None => {
            return Err(LocateError::ParseCommand);
        },
    };
    proof {
        lemma_first_match(trimmed@, needle_spec());
    }
    let prefix = trimmed.substring_char(0, pos);
    let mut path = String::from_str(prefix);
    if pos == 0 {
        path.append("lockfile");
        proof {
            assert(path@ =~= trim_ws(line@).take(pos as int) + "lockfile"@);
        }
    } else if prefix.get_char(pos - 1) == '/' {
        path.append("lockfile");
        proof {
            assert(path@ =~= trim_ws(line@).take(pos as int) + "lockfile"@);
        }
    } else {
        path.append("/");
        path.append("lockfile");
        proof {
            assert(path@ =~= trim_ws(line@).take(pos as int) + "/"@ + "lockfile"@);
        }
    }
    Ok(path)
}

} // verus!
