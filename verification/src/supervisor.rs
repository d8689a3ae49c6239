//! The connection state supervisor: owns the canonical triple of current
//! artifact, derived base URL and authenticated client, reconciles each
//! coalesced watcher notification against it, and emits connectivity
//! signals on real changes only.
use vstd::prelude::*;

use crate::client::ClientBuildError;
use crate::client::build_client;
use crate::lockfile::LockFile;
use crate::lockfile::LockFileView;
use crate::lockfile::base_url_of;
use crate::lockfile::base_url_spec;

verus! {

/// One coalesced observation of the artifact, delivered by the watcher.
#[derive(Debug)]
pub enum Notification {
    /// The artifact was re-read and parsed successfully.
    Parsed(LockFile),
    /// The artifact was re-read but did not parse; indistinguishable from a
    /// write still in progress, so the supervisor leaves its state alone.
    Unparsed,
    /// The artifact was removed.
    Gone,
}

/// The mathematical content of a `Notification`.
pub enum NotificationView {
    Parsed(LockFileView),
    Unparsed,
    Gone,
}

impl View for Notification {
    type V = NotificationView;

    open spec fn view(&self) -> NotificationView {
        match self {
            Notification::Parsed(lf) => NotificationView::Parsed(lf@),
            Notification::Unparsed => NotificationView::Unparsed,
            Notification::Gone => NotificationView::Gone,
        }
    }
}

/// A connectivity signal emitted towards consumers.
#[derive(Debug)]
pub enum Signal {
    /// A first client was installed after a disconnected period.
    Connected,
    /// The triple was cleared.
    Disconnected,
    /// The installed credentials changed; carries the new artifact, or
    /// nothing when client construction failed and no client is installed.
    CredentialsChanged(Option<LockFile>),
}

/// The mathematical content of a `Signal`.
pub enum SignalView {
    Connected,
    Disconnected,
    CredentialsChanged(Option<LockFileView>),
}

impl View for Signal {
    type V = SignalView;

    open spec fn view(&self) -> SignalView {
        match self {
            Signal::Connected => SignalView::Connected,
            Signal::Disconnected => SignalView::Disconnected,
            Signal::CredentialsChanged(a) => SignalView::CredentialsChanged(
                match a {
                    Some(lf) => Some(lf@),
                    None => None,
                },
            ),
        }
    }
}

/// The views of a sequence of signals.
pub open spec fn sig_views(sigs: Seq<Signal>) -> Seq<SignalView> {
    sigs.map_values(|g: Signal| g@)
}

/// How many credentials-changed signals a sequence holds.
pub open spec fn count_credentials_changed(sigs: Seq<SignalView>) -> int
    decreases sigs.len(),
{
    if sigs.len() == 0 {
        0
    } else {
        count_credentials_changed(sigs.drop_last()) + (if sigs.last() is CredentialsChanged {
            1int
        } else {
            0int
        })
    }
}

/// How many disconnected signals a sequence holds.
pub open spec fn count_disconnected(sigs: Seq<SignalView>) -> int
    decreases sigs.len(),
{
    if sigs.len() == 0 {
        0
    } else {
        count_disconnected(sigs.drop_last()) + (if sigs.last() is Disconnected {
            1int
        } else {
            0int
        })
    }
}

/// The mathematical content of the supervisor's shared triple. The client
/// handle is opaque, so only its presence is modelled.
#[verifier::ext_equal]
pub struct SupervisorView {
    pub lockfile: Option<LockFileView>,
    pub base_url: Option<Seq<char>>,
    pub connected: bool,
}

/// The empty (disconnected) triple.
pub open spec fn disconnected_view() -> SupervisorView {
    SupervisorView { lockfile: None, base_url: None, connected: false }
}

/// The triple is consistent: all three parts are present together, and the
/// base URL is the one derived from the installed artifact's port.
pub open spec fn view_wf(v: SupervisorView) -> bool {
    &&& v.lockfile is Some <==> v.connected
    &&& v.lockfile is Some <==> v.base_url is Some
    &&& (v.lockfile matches Some(lf) ==> v.base_url == Some(base_url_spec(lf.port)))
}

/// The supervisor's transition function: from a state, a notification and
/// the outcome of client construction (consulted only when a differing
/// artifact arrives) to the next state and the emitted signals.
///
/// - An unparsed observation is a no-op: a racing write, not a change.
/// - An artifact equal to the installed one is a no-op: redundant events
///   must not re-emit signals.
/// - A differing artifact installs a fresh triple when the client builds,
///   emitting `Connected` first if the supervisor was disconnected and a
///   `CredentialsChanged` carrying the artifact either way; when the build
///   fails, the triple is cleared and the failure is reported as a
///   `CredentialsChanged` carrying nothing, followed by `Disconnected` if a
///   connection is lost thereby.
/// - A gone observation clears a present triple and emits exactly one
///   `Disconnected`; it is a no-op when already disconnected.
pub open spec fn step(s: SupervisorView, n: NotificationView, build_ok: bool) -> (
    SupervisorView,
    Seq<SignalView>,
) {
    match n {
        NotificationView::Unparsed => (s, Seq::<SignalView>::empty()),
        NotificationView::Gone => {
            if s.lockfile is Some {
                (disconnected_view(), seq![SignalView::Disconnected])
            } else {
                (s, Seq::<SignalView>::empty())
            }
        },
        NotificationView::Parsed(a) => {
            if s.lockfile == Some(a) {
                (s, Seq::<SignalView>::empty())
            } else if build_ok {
                let next = SupervisorView {
                    lockfile: Some(a),
                    base_url: Some(base_url_spec(a.port)),
                    connected: true,
                };
                if s.connected {
                    (next, seq![SignalView::CredentialsChanged(Some(a))])
                } else {
                    (next, seq![SignalView::Connected, SignalView::CredentialsChanged(Some(a))])
                }
            } else {
                if s.connected {
                    (
                        disconnected_view(),
                        seq![
                            SignalView::CredentialsChanged(None),
                            SignalView::Disconnected,
                        ],
                    )
                } else {
                    (disconnected_view(), seq![SignalView::CredentialsChanged(None)])
                }
            }
        },
    }
}

/// The canonical shared connection state: the current artifact, the derived
/// base URL, the authenticated client handle, and the pinned root
/// certificate used to build clients. The three current-state parts
/// transition together; readers never observe them mixed across updates.
pub struct Supervisor {
    lockfile: Option<LockFile>,
    base_url: Option<String>,
    client: Option<reqwest::Client>,
    root_cert_pem: Vec<u8>,
}

impl View for Supervisor {
    type V = SupervisorView;

    closed spec fn view(&self) -> SupervisorView {
        SupervisorView {
            lockfile: match self.lockfile {
                Some(lf) => Some(lf@),
                None => None,
            },
            base_url: match self.base_url {
                Some(u) => Some(u@),
                None => None,
            },
            connected: self.client is Some,
        }
    }
}

impl Supervisor {
    /// The triple is consistent (see `view_wf`).
    pub open spec fn wf(&self) -> bool {
        view_wf(self@)
    }

    /// A fresh, disconnected supervisor that will pin `root_cert_pem` into
    /// every client it builds.
    pub fn new(root_cert_pem: Vec<u8>) -> (s: Supervisor)
        ensures
            s@ == disconnected_view(),
            s.wf(),
    {
        let s = Supervisor { lockfile: None, base_url: None, client: None, root_cert_pem };
        proof {
            assert(s@ =~= disconnected_view());
        }
        s
    }

    /// Installs (or refuses) a differing artifact given the outcome of
    /// client construction; exactly the `Parsed` case of `step`, decided by
    /// which outcome the caller passes in.
    pub fn install(&mut self, artifact: LockFile, built: Result<
        reqwest::Client,
        ClientBuildError,
    >) -> (sigs: Vec<Signal>)
        requires
            old(self).wf(),
        ensures
            final(self).wf(),
            (final(self)@, sig_views(sigs@)) == step(
                old(self)@,
                NotificationView::Parsed(artifact@),
                built is Ok,
            ),
    {
        let ghost ok = built is Ok;
        if let Some(current) = &self.lockfile {
            if current.same_artifact(&artifact) {
                let sigs: Vec<Signal> = Vec::new();
                proof {
                    assert(sig_views(sigs@) =~= Seq::<SignalView>::empty());
                }
                return sigs;
            }
        }
        let was_connected = self.client.is_some();
        match built {
            Ok(client) => {
                let url = base_url_of(artifact.port);
                let carried = artifact.duplicate();
                self.client = Some(client);
                self.base_url = Some(url);
                self.lockfile = Some(artifact);
                let mut sigs: Vec<Signal> = Vec::new();
                if !was_connected {
                    sigs.push(Signal::Connected);
                }
                sigs.push(Signal::CredentialsChanged(Some(carried)));
                proof {
                    assert(self@ =~= step(old(self)@, NotificationView::Parsed(artifact@), ok).0);
                    assert(sig_views(sigs@) =~= step(
                        old(self)@,
                        NotificationView::Parsed(artifact@),
                        ok,
                    ).1);
                }
                sigs
            },
            Err(_) => {
                self.client = None;
                self.base_url = None;
                self.lockfile = None;
                let mut sigs: Vec<Signal> = Vec::new();
                sigs.push(Signal::CredentialsChanged(None));
                if was_connected {
                    sigs.push(Signal::Disconnected);
                }
                proof {
                    assert(self@ =~= disconnected_view());
                    assert(sig_views(sigs@) =~= step(
                        old(self)@,
                        NotificationView::Parsed(artifact@),
                        ok,
                    ).1);
                }
                sigs
            },
        }
    }

    /// Reconciles one coalesced notification against the current state.
    /// Client construction is attempted only when a differing artifact
    /// arrived; in every other case the outcome is independent of it.
    pub fn reconcile(&mut self, note: Notification) -> (sigs: Vec<Signal>)
        requires
            old(self).wf(),
        ensures
            final(self).wf(),
            exists|ok: bool|
                (final(self)@, sig_views(sigs@)) == #[trigger] step(old(self)@, note@, ok),
            !(note@ matches NotificationView::Parsed(a) && old(self)@.lockfile != Some(a)) ==> (
            final(self)@,
            sig_views(sigs@),
            ) == step(old(self)@, note@, true),
    {
        match note {
            Notification::Unparsed => {
                let sigs: Vec<Signal> = Vec::new();
                proof {
                    assert(sig_views(sigs@) =~= Seq::<SignalView>::empty());
                    assert((self@, sig_views(sigs@)) == step(old(self)@, note@, true));
                }
                sigs
            },
            Notification::Gone => {
                let mut sigs: Vec<Signal> = Vec::new();
                if self.client.is_some() || self.lockfile.is_some() {
                    self.client = None;
                    self.base_url = None;
                    self.lockfile = None;
                    sigs.push(Signal::Disconnected);
                    proof {
                        assert(self@ =~= disconnected_view());
                        assert(sig_views(sigs@) =~= seq![SignalView::Disconnected]);
                    }
                } else {
                    proof {
                        assert(sig_views(sigs@) =~= Seq::<SignalView>::empty());
                    }
                }
                proof {
                    assert((self@, sig_views(sigs@)) == step(old(self)@, note@, true));
                }
                sigs
            },
            Notification::Parsed(artifact) => {
                let differs = match &self.lockfile {
                    Some(current) => !current.same_artifact(&artifact),
                    None => true,
                };
                if differs {
                    let built = build_client(artifact.auth_header.as_str(), self.root_cert_pem.as_slice());
                    let ghost ok = built is Ok;
                    let sigs = self.install(artifact, built);
                    proof {
                        assert((self@, sig_views(sigs@)) == step(
                            old(self)@,
                            NotificationView::Parsed(artifact@),
                            ok,
                        ));
                    }
                    sigs
                } else {
                    let sigs: Vec<Signal> = Vec::new();
                    proof {
                        assert(sig_views(sigs@) =~= Seq::<SignalView>::empty());
                        assert((self@, sig_views(sigs@)) == step(old(self)@, note@, true));
                    }
                    sigs
                }
            },
        }
    }

    /// The current authenticated client, or nothing while disconnected.
    pub fn client(&self) -> (r: Option<&reqwest::Client>)
        ensures
            r is Some <==> self@.connected,
    {
        self.client.as_ref()
    }

    /// The current base URL, or nothing while disconnected.
    pub fn base_url(&self) -> (r: Option<&String>)
        ensures
            r matches Some(u) ==> self@.base_url == Some(u@),
            r is Some <==> self@.base_url is Some,
    {
        self.base_url.as_ref()
    }

    /// The currently installed artifact, or nothing while disconnected.
    pub fn artifact(&self) -> (r: Option<&LockFile>)
        ensures
            r matches Some(lf) ==> self@.lockfile == Some(lf@),
            r is Some <==> self@.lockfile is Some,
    {
        self.lockfile.as_ref()
    }

    /// Whether a client is currently installed.
    pub fn is_connected(&self) -> (r: bool)
        ensures
            r == self@.connected,
    {
        self.client.is_some()
    }
}

proof fn lemma_count_singleton(x: SignalView)
    ensures
        count_credentials_changed(seq![x]) == (if x is CredentialsChanged {
            1int
        } else {
            0int
        }),
        count_disconnected(seq![x]) == (if x is Disconnected {
            1int
        } else {
            0int
        }),
{
    assert(seq![x].drop_last() =~= Seq::<SignalView>::empty());
    assert(seq![x].last() == x);
    assert(count_credentials_changed(Seq::<SignalView>::empty()) == 0);
    assert(count_disconnected(Seq::<SignalView>::empty()) == 0);
    assert(count_credentials_changed(seq![x]) == count_credentials_changed(
        seq![x].drop_last(),
    ) + (if seq![x].last() is CredentialsChanged {
        1int
    } else {
        0int
    }));
    assert(count_disconnected(seq![x]) == count_disconnected(seq![x].drop_last()) + (
    if seq![x].last() is Disconnected {
        1int
    } else {
        0int
    }));
}

proof fn lemma_count_pair(x: SignalView, y: SignalView)
    ensures
        count_credentials_changed(seq![x, y]) == count_credentials_changed(seq![x])
            + count_credentials_changed(seq![y]),
        count_disconnected(seq![x, y]) == count_disconnected(seq![x]) + count_disconnected(
            seq![y],
        ),
{
    assert(seq![x, y].drop_last() =~= seq![x]);
    lemma_count_singleton(x);
    lemma_count_singleton(y);
}

/// Law: every transition keeps the triple consistent — artifact, base URL
/// and client are present together, with the URL derived from the
/// installed artifact's port; readers can never observe them mixed across
/// an update.
pub proof fn lemma_step_preserves_wf(s: SupervisorView, n: NotificationView, build_ok: bool)
    requires
        view_wf(s),
    ensures
        view_wf(step(s, n, build_ok).0),
{
}

/// Law: delivering the same artifact twice in a row produces exactly one
/// credentials-changed signal in total — the second delivery changes
/// nothing and emits nothing, whatever its client build would have done.
pub proof fn lemma_same_artifact_once(s: SupervisorView, a: LockFileView, second_ok: bool)
    requires
        view_wf(s),
        s.lockfile != Some(a),
    ensures
        ({
            let first = step(s, NotificationView::Parsed(a), true);
            let second = step(first.0, NotificationView::Parsed(a), second_ok);
            &&& count_credentials_changed(first.1 + second.1) == 1
            &&& second.1 == Seq::<SignalView>::empty()
            &&& second.0 == first.0
        }),
{
    let first = step(s, NotificationView::Parsed(a), true);
    if s.connected {
        lemma_count_singleton(SignalView::CredentialsChanged(Some(a)));
    } else {
        lemma_count_pair(SignalView::Connected, SignalView::CredentialsChanged(Some(a)));
        lemma_count_singleton(SignalView::Connected);
        lemma_count_singleton(SignalView::CredentialsChanged(Some(a)));
    }
    assert(first.1 + step(first.0, NotificationView::Parsed(a), second_ok).1 =~= first.1);
}

/// Law: rotating from artifact `a` to a different artifact `b` (both
/// installing successfully) produces two distinct credentials-changed
/// signals, and the final installed parameters are `b`'s.
pub proof fn lemma_rotation(s: SupervisorView, a: LockFileView, b: LockFileView)
    requires
        view_wf(s),
        s.lockfile != Some(a),
        a != b,
    ensures
        ({
            let first = step(s, NotificationView::Parsed(a), true);
            let second = step(first.0, NotificationView::Parsed(b), true);
            &&& count_credentials_changed(first.1) == 1
            &&& count_credentials_changed(second.1) == 1
            &&& first.1.last() == SignalView::CredentialsChanged(Some(a))
            &&& second.1.last() == SignalView::CredentialsChanged(Some(b))
            &&& first.1.last() != second.1.last()
            &&& second.0.lockfile == Some(b)
            &&& second.0.base_url == Some(base_url_spec(b.port))
            &&& second.0.connected
        }),
{
    if s.connected {
        lemma_count_singleton(SignalView::CredentialsChanged(Some(a)));
    } else {
        lemma_count_pair(SignalView::Connected, SignalView::CredentialsChanged(Some(a)));
        lemma_count_singleton(SignalView::Connected);
        lemma_count_singleton(SignalView::CredentialsChanged(Some(a)));
    }
    lemma_count_singleton(SignalView::CredentialsChanged(Some(b)));
}

/// Law: a gone notification in a connected state clears the triple,
/// transitions to disconnected, and emits exactly one disconnected signal
/// — whatever a client build would have done.
pub proof fn lemma_disconnection(s: SupervisorView, build_ok: bool)
    requires
        view_wf(s),
        s.connected,
    ensures
        ({
            let next = step(s, NotificationView::Gone, build_ok);
            &&& next.0 == disconnected_view()
            &&& !next.0.connected
            &&& next.0.lockfile is None
            &&& next.1 == seq![SignalView::Disconnected]
            &&& count_disconnected(next.1) == 1
        }),
{
    lemma_count_singleton(SignalView::Disconnected);
}

} // verus!
