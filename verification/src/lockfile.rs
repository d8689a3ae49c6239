//! The credential artifact: a single line of colon-separated fields,
//! `name:pid:port:token:protocol`, written by the client process while it
//! runs. Parsing is total and soft-failing: any malformed input yields
//! nothing, because the file may be read mid-write.
use vstd::prelude::*;

use crate::auth::MAX_TOKEN_LEN;
use crate::auth::auth_header;
use crate::auth::auth_header_spec;
use crate::text::all_digits;
use crate::text::dec_str;
use crate::text::digits_val;
use crate::text::parse_u16_dec;
use crate::text::parse_u32_dec;
use crate::text::push_dec_u16;
use crate::text::split_on;
use crate::text::split_str;

verus! {

/// Connection parameters read from the credential artifact, together with
/// the derived authorization header.
#[derive(Debug)]
pub struct LockFile {
    /// Filesystem location the artifact was read from.
    pub path: String,
    /// Client process id.
    pub pid: u32,
    /// Control API port.
    pub port: u16,
    /// Secret token.
    pub token: String,
    /// Protocol field (observed `https`).
    pub protocol: String,
    /// Derived HTTP Basic-auth header value.
    pub auth_header: String,
}

/// The mathematical content of a `LockFile`.
#[verifier::ext_equal]
pub struct LockFileView {
    pub path: Seq<char>,
    pub pid: u32,
    pub port: u16,
    pub token: Seq<char>,
    pub protocol: Seq<char>,
    pub auth_header: Seq<char>,
}

impl View for LockFile {
    type V = LockFileView;

    open spec fn view(&self) -> LockFileView {
        LockFileView {
            path: self.path@,
            pid: self.pid,
            port: self.port,
            token: self.token@,
            protocol: self.protocol@,
            auth_header: self.auth_header@,
        }
    }
}

impl LockFile {
    /// Whether two artifacts hold the same values; credential rotation is
    /// detected with this comparison, not with file timestamps.
    pub fn same_artifact(&self, other: &LockFile) -> (r: bool)
        ensures
            r <==> self@ == other@,
    {
        let r = self.path.eq(&other.path) && self.pid == other.pid && self.port == other.port
            && self.token.eq(&other.token) && self.protocol.eq(&other.protocol)
            && self.auth_header.eq(&other.auth_header);
        proof {
            if r {
                assert(self@ =~= other@);
            }
        }
        r
    }

    /// A copy of the artifact holding the same values.
    pub fn duplicate(&self) -> (r: LockFile)
        ensures
            r@ == self@,
    {
        let r = LockFile {
            path: self.path.clone(),
            pid: self.pid,
            port: self.port,
            token: self.token.clone(),
            protocol: self.protocol.clone(),
            auth_header: self.auth_header.clone(),
        };
        proof {
            assert(r@ =~= self@);
        }
        r
    }
}

/// The artifact line without its optional trailing newline (`\n` or `\r\n`).
pub open spec fn strip_eol(s: Seq<char>) -> Seq<char> {
    if s.len() > 0 && s.last() == '\n' {
        let t = s.drop_last();
        if t.len() > 0 && t.last() == '\r' {
            t.drop_last()
        } else {
            t
        }
    } else {
        s
    }
}

/// A well-formed artifact: five colon-separated fields, of which the second
/// is a decimal process id fitting `u32` and the third a decimal port
/// fitting `u16`. The token-length cap keeps header derivation within
/// machine limits.
pub open spec fn artifact_wf(content: Seq<char>) -> bool {
    let f = split_on(strip_eol(content), ':');
    &&& f.len() == 5
    &&& f[1].len() > 0
    &&& all_digits(f[1])
    &&& digits_val(f[1]) <= u32::MAX
    &&& f[2].len() > 0
    &&& all_digits(f[2])
    &&& digits_val(f[2]) <= u16::MAX
    &&& f[3].len() <= MAX_TOKEN_LEN
}

/// What a successful parse of `content`, read from `path`, returns.
pub open spec fn parsed_artifact(path: Seq<char>, content: Seq<char>) -> LockFileView {
    let f = split_on(strip_eol(content), ':');
    LockFileView {
        path: path,
        pid: digits_val(f[1]) as u32,
        port: digits_val(f[2]) as u16,
        token: f[3],
        protocol: f[4],
        auth_header: auth_header_spec(f[3]),
    }
}

/// Parses the raw artifact text read from `path`. Returns the artifact
/// exactly when the text is well formed, and nothing otherwise; it never
/// fails any other way, so it is safe to call on every raw filesystem
/// event, including reads that race a partial write.
pub fn parse(path: &str, content: &str) -> (r: Option<LockFile>)
    ensures
        r is Some <==> artifact_wf(content@),
        r matches Some(lf) ==> lf@ == parsed_artifact(path@, content@),
{
    let n = content.unicode_len();
    let mut end = n;
    if end > 0 && content.get_char(end - 1) == '\n' {
        end -= 1;
        if end > 0 && content.get_char(end - 1) == '\r' {
            end -= 1;
        }
    }
    let line = content.substring_char(0, end);
    proof {
        assert(line@ =~= strip_eol(content@));
    }
    let fields = split_str(line, ':');
    if fields.len() != 5 {
        return None;
    }
    proof {
        let fv = split_on(strip_eol(content@), ':');
        assert(fields@[1]@ == fv[1]);
        assert(fields@[2]@ == fv[2]);
        assert(fields@[3]@ == fv[3]);
        assert(fields@[4]@ == fv[4]);
    }
    let pid = match parse_u32_dec(fields[1].as_str()) {
        Some(v) => v,
        None => {
            return None;
        },
    };
    let port = match parse_u16_dec(fields[2].as_str()) {
        Some(v) => v,
        None => {
            return None;
        },
    };
    let token = &fields[3];
    if token.as_str().unicode_len() > MAX_TOKEN_LEN {
        return None;
    }
    let header = auth_header(token.as_str());
    Some(
        LockFile {
            path: String::from_str(path),
            pid,
            port,
            token: token.clone(),
            protocol: fields[4].clone(),
            auth_header: header,
        },
    )
}

/// The control API endpoint owed for a port: loopback, always HTTPS.
pub open spec fn base_url_spec(port: u16) -> Seq<char> {
    "https://127.0.0.1:"@ + dec_str(port as int) + "/"@
}

/// Renders the base URL `https://127.0.0.1:<port>/` for the artifact's port.
pub fn base_url_of(port: u16) -> (r: String)
    ensures
        r@ == base_url_spec(port),
{
    let mut r = String::from_str("https://127.0.0.1:");
    push_dec_u16(&mut r, port);
    r.append("/");
    r
}

} // verus!
