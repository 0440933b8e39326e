//! The HTTP server actor: where it binds, which routes it serves and how
//! it answers the service messages.
//!
//! The socket is not here. The actor says what to do (bind, shut down) and
//! is told how it went; a request is answered from the table of routes.

use crate::error::{ActorError, ActorResultVoid, KernelError};
use crate::clock::{is_reading, stamp_text, Timestamp};
use crate::runtime::{after_stop, ActorServiceMessage, Teardown};
use crate::text::{concat3, copy_pairs, decimal, decimal_digits, pair, pairs_view, same_text};
use vstd::prelude::*;

verus! {

/// Number of worker threads of a server.
pub const WORKERS: usize = 4;

/// Seconds for which an idle connection is kept.
pub const KEEP_ALIVE_SECS: u64 = 75;

/// Seconds that a server is given to shut down.
pub const SHUTDOWN_TIMEOUT_SECS: u64 = 30;

/// What can be set on a server.
#[derive(Debug, Clone, Copy, PartialEq, Eq, Structural)]
pub struct HttpSettings {
    /// Number of worker threads.
    pub workers: usize,
    /// Seconds for which an idle connection is kept.
    pub keep_alive_secs: u64,
    /// Seconds that the server is given to shut down.
    pub shutdown_timeout_secs: u64,
    /// Whether answers are compressed.
    pub compression: bool,
}

/// The settings of a server that was given none: four workers, 75
/// seconds of keep-alive, 30 seconds to shut down, and compression.
pub open spec fn default_settings() -> HttpSettings {
    HttpSettings { workers: 4, keep_alive_secs: 75, shutdown_timeout_secs: 30, compression: true }
}

impl Default for HttpSettings {
    fn default() -> (settings: Self)
        ensures
            settings == default_settings(),
    {
        HttpSettings {
            workers: WORKERS,
            keep_alive_secs: KEEP_ALIVE_SECS,
            shutdown_timeout_secs: SHUTDOWN_TIMEOUT_SECS,
            compression: true,
        }
    }
}

/// The messages of the HTTP server of the kernel.
#[derive(Debug)]
pub enum HttpMessage {
    Start,
    Stop,
    Error(KernelError),
}

impl HttpMessage {
    /// The message that carries `error`.
    pub fn error(error: KernelError) -> (message: Self)
        ensures
            message == HttpMessage::Error(error),
    {
        HttpMessage::Error(error)
    }
}

/// The method of a request.
#[derive(Debug, Clone, Copy, PartialEq, Eq, Structural)]
pub enum Method {
    Get,
    Post,
    Put,
    Delete,
}

/// A route: requests of `method` for `path` are answered with status 200
/// and a JSON object of the fields, with the time of the answer behind
/// them under `timestamp` where the route is stamped.
#[derive(Debug)]
pub struct Route {
    pub method: Method,
    pub path: String,
    pub fields: Vec<(String, String)>,
    pub stamped: bool,
}

/// A route as plain values.
pub struct RouteView {
    pub method: Method,
    pub path: Seq<char>,
    pub fields: Seq<(Seq<char>, Seq<char>)>,
    pub stamped: bool,
}

impl View for Route {
    type V = RouteView;

    open spec fn view(&self) -> RouteView {
        RouteView {
            method: self.method,
            path: self.path@,
            fields: pairs_view(self.fields@),
            stamped: self.stamped,
        }
    }
}

/// The views of a table of routes.
pub open spec fn routes_view(routes: Seq<Route>) -> Seq<RouteView> {
    routes.map_values(|r: Route| r@)
}

/// An answer: a status and the fields of a JSON object, all of them texts.
#[derive(Debug)]
pub struct HttpResponse {
    pub status: u16,
    pub fields: Vec<(String, String)>,
}

/// The routes of a server that was given none: `GET /ping` answers with
/// `status: pong`, `GET /health` with `status: up` and the name of the
/// service; both are stamped.
pub open spec fn default_routes() -> Seq<RouteView> {
    seq![
        RouteView {
            method: Method::Get,
            path: "/ping"@,
            fields: seq![("status"@, "pong"@)],
            stamped: true,
        },
        RouteView {
            method: Method::Get,
            path: "/health"@,
            fields: seq![("status"@, "up"@), ("service"@, "http-actor"@)],
            stamped: true,
        },
    ]
}

/// The routes of a server that was given none.
pub fn default_router() -> (routes: Vec<Route>)
    ensures
        routes_view(routes@) == default_routes(),
{
    let mut ping: Vec<(String, String)> = Vec::new();
    ping.push(pair("status", "pong"));
    let mut health: Vec<(String, String)> = Vec::new();
    health.push(pair("status", "up"));
    health.push(pair("service", "http-actor"));
    let mut routes: Vec<Route> = Vec::new();
    routes.push(Route { method: Method::Get, path: String::from_str("/ping"), fields: ping, stamped: true });
    routes.push(
        Route { method: Method::Get, path: String::from_str("/health"), fields: health, stamped: true },
    );
    proof {
        assert(pairs_view(ping@) =~= seq![("status"@, "pong"@)]);
        assert(pairs_view(health@) =~= seq![("status"@, "up"@), ("service"@, "http-actor"@)]);
        assert(routes_view(routes@) =~= default_routes());
    }
    routes
}

/// The status and the fields of the answer to a request at the time
/// `timestamp`: those of the first route for the method and the path, or
/// status 404 without fields where there is none.
pub open spec fn answer_of(
    routes: Seq<RouteView>,
    method: Method,
    path: Seq<char>,
    timestamp: Seq<char>,
) -> (u16, Seq<(Seq<char>, Seq<char>)>)
    decreases routes.len(),
{
    if routes.len() == 0 {
        (404u16, Seq::empty())
    } else if routes[0].method == method && routes[0].path == path {
        if routes[0].stamped {
            (200u16, routes[0].fields.push(("timestamp"@, timestamp)))
        } else {
            (200u16, routes[0].fields)
        }
    } else {
        answer_of(routes.drop_first(), method, path, timestamp)
    }
}

/// What an HTTP server does.
#[derive(Debug, Clone, Copy, PartialEq, Eq, Structural)]
pub enum HttpPhase {
    /// Not bound.
    Idle,
    /// Asked to bind, and not yet told how it went.
    Binding,
    /// Bound and serving.
    Serving,
}

/// What the driver of an HTTP server is to do.
#[derive(Debug, Clone, Copy, PartialEq, Eq, Structural)]
pub enum HttpAction {
    /// Nothing: the message did not apply.
    Nothing,
    /// Bind the address of the server and serve its routes.
    Bind,
    /// Signal the shutdown and wait for the serving task.
    Shutdown,
}

/// The HTTP server actor.
pub struct BaseHttpServer {
    key: String,
    host: String,
    port: u16,
    routes: Vec<Route>,
    settings: HttpSettings,
    phase: HttpPhase,
}

/// An HTTP server as plain values.
pub struct HttpView {
    pub key: Seq<char>,
    pub host: Seq<char>,
    pub port: u16,
    pub routes: Seq<RouteView>,
    pub settings: HttpSettings,
    pub phase: HttpPhase,
}

impl View for BaseHttpServer {
    type V = HttpView;

    closed spec fn view(&self) -> HttpView {
        HttpView {
            key: self.key@,
            host: self.host@,
            port: self.port,
            routes: routes_view(self.routes@),
            settings: self.settings,
            phase: self.phase,
        }
    }
}

/// The address `host:port` as text.
pub open spec fn bind_text(host: Seq<char>, port: u16) -> Seq<char> {
    host + ":"@ + decimal_digits(port as nat)
}

/// The message of a failed bind.
pub open spec fn bind_fault(address: Seq<char>, detail: Seq<char>) -> Seq<char> {
    "Failed to bind to "@ + address + ": "@ + detail
}

/// The phase and the action that follow a service message. A start
/// applies to an idle server only and a stop to one that is not idle, so
/// that either can be sent again without harm.
pub open spec fn service_step(phase: HttpPhase, message: ActorServiceMessage) -> (
    HttpPhase,
    HttpAction,
) {
    match message {
        ActorServiceMessage::Start => if phase == HttpPhase::Idle {
            (HttpPhase::Binding, HttpAction::Bind)
        } else {
            (phase, HttpAction::Nothing)
        },
        ActorServiceMessage::Stop => if phase == HttpPhase::Idle {
            (phase, HttpAction::Nothing)
        } else {
            (HttpPhase::Idle, HttpAction::Shutdown)
        },
    }
}

/// The phases and actions that follow a run of service messages, oldest
/// first, from `phase` on.
pub open spec fn service_run(phase: HttpPhase, messages: Seq<ActorServiceMessage>) -> (
    HttpPhase,
    Seq<HttpAction>,
)
    decreases messages.len(),
{
    if messages.len() == 0 {
        (phase, Seq::empty())
    } else {
        let before = service_run(phase, messages.drop_last());
        let step = service_step(before.0, messages.last());
        (step.0, before.1.push(step.1))
    }
}

/// A stop that follows a stop does nothing: the server is idle after the
/// first, and the second asks for no shutdown and changes no phase.
pub proof fn lemma_second_stop_does_nothing(phase: HttpPhase)
    ensures
        service_step(phase, ActorServiceMessage::Stop).0 == HttpPhase::Idle,
        service_step(
            service_step(phase, ActorServiceMessage::Stop).0,
            ActorServiceMessage::Stop,
        ) == (HttpPhase::Idle, HttpAction::Nothing),
{
}

/// A start that follows a start does nothing.
pub proof fn lemma_second_start_does_nothing(phase: HttpPhase)
    ensures
        service_step(
            service_step(phase, ActorServiceMessage::Start).0,
            ActorServiceMessage::Start,
        ) == (service_step(phase, ActorServiceMessage::Start).0, HttpAction::Nothing),
{
}

/// Between two shutdowns that a run of service messages asks for, the
/// run asks for a bind: no serving task is shut down twice.
pub proof fn lemma_one_shutdown_for_each_bind(
    phase: HttpPhase,
    messages: Seq<ActorServiceMessage>,
    i: int,
    j: int,
)
    requires
        0 <= i < j < messages.len(),
        service_run(phase, messages).1[i] == HttpAction::Shutdown,
        service_run(phase, messages).1[j] == HttpAction::Shutdown,
    ensures
        exists|k: int| i < k < j && service_run(phase, messages).1[k] == HttpAction::Bind,
    decreases messages.len(),
{
    lemma_service_run_len(phase, messages);
    let actions = service_run(phase, messages).1;
    if j < messages.len() - 1 {
        lemma_service_run_len(phase, messages.drop_last());
        lemma_one_shutdown_for_each_bind(phase, messages.drop_last(), i, j);
        let k = choose|k: int|
            i < k < j && service_run(phase, messages.drop_last()).1[k] == HttpAction::Bind;
        assert(actions[k] == HttpAction::Bind);
    } else {
        lemma_idle_since_shutdown(phase, messages.drop_last(), i);
        lemma_service_run_len(phase, messages.drop_last());
        let before = service_run(phase, messages.drop_last());
        assert(before.0 != HttpPhase::Idle);
        let k = choose|k: int| i < k < j && before.1[k] == HttpAction::Bind;
        assert(actions[k] == HttpAction::Bind);
    }
}

/// A run asks for one action for each message.
proof fn lemma_service_run_len(phase: HttpPhase, messages: Seq<ActorServiceMessage>)
    ensures
        service_run(phase, messages).1.len() == messages.len(),
    decreases messages.len(),
{
    if messages.len() > 0 {
        lemma_service_run_len(phase, messages.drop_last());
    }
}

/// After a shutdown the server is idle until the run asks for a bind.
proof fn lemma_idle_since_shutdown(phase: HttpPhase, messages: Seq<ActorServiceMessage>, i: int)
    requires
        0 <= i < messages.len(),
        service_run(phase, messages).1[i] == HttpAction::Shutdown,
    ensures
        service_run(phase, messages).0 == HttpPhase::Idle || exists|k: int|
            i < k < messages.len() && service_run(phase, messages).1[k] == HttpAction::Bind,
    decreases messages.len(),
{
    lemma_service_run_len(phase, messages);
    lemma_service_run_len(phase, messages.drop_last());
    let before = service_run(phase, messages.drop_last());
    let actions = service_run(phase, messages).1;
    if i < messages.len() - 1 {
        lemma_idle_since_shutdown(phase, messages.drop_last(), i);
        if before.0 == HttpPhase::Idle {
            if service_run(phase, messages).0 != HttpPhase::Idle {
                assert(actions[messages.len() - 1] == HttpAction::Bind);
            }
        } else {
            let k = choose|k: int| i < k < messages.len() - 1 && before.1[k] == HttpAction::Bind;
            assert(actions[k] == HttpAction::Bind);
        }
    }
}

impl BaseHttpServer {
    /// A server that is not bound, with the given routes or the default
    /// ones, and with the default settings.
    pub fn new(key: &str, host: &str, port: u16, router: Option<Vec<Route>>) -> (server: Self)
        ensures
            server@ == (HttpView {
                key: key@,
                host: host@,
                port,
                routes: match router {
                    Some(routes) => routes_view(routes@),
                    None => default_routes(),
                },
                settings: default_settings(),
                phase: HttpPhase::Idle,
            }),
    {
        let routes = match router {
            Some(routes) => routes,
            None => default_router(),
        };
        BaseHttpServer {
            key: String::from_str(key),
            host: String::from_str(host),
            port,
            routes,
            settings: HttpSettings::default(),
            phase: HttpPhase::Idle,
        }
    }

    /// The same server with other settings.
    pub fn with_settings(self, settings: HttpSettings) -> (server: Self)
        ensures
            server@ == (HttpView { settings, ..self@ }),
    {
        BaseHttpServer {
            key: self.key,
            host: self.host,
            port: self.port,
            routes: self.routes,
            settings,
            phase: self.phase,
        }
    }

    /// The settings of the server.
    pub fn settings(&self) -> (settings: HttpSettings)
        ensures
            settings == self@.settings,
    {
        self.settings
    }

    /// The key of the actor.
    pub fn id(&self) -> (key: String)
        ensures
            key@ == self@.key,
    {
        self.key.clone()
    }

    /// The host to bind.
    pub fn host(&self) -> (host: &String)
        ensures
            host@ == self@.host,
    {
        &self.host
    }

    /// The port to bind.
    pub fn port(&self) -> (port: u16)
        ensures
            port == self@.port,
    {
        self.port
    }

    /// What the server does.
    pub fn phase(&self) -> (phase: HttpPhase)
        ensures
            phase == self@.phase,
    {
        self.phase
    }

    /// The address to bind: host, a colon and the port in decimal.
    pub fn bind_address(&self) -> (address: String)
        ensures
            address@ == bind_text(self@.host, self@.port),
    {
        let port = decimal(self.port as u64);
        concat3(self.host.as_str(), ":", port.as_str())
    }

    /// Takes a service message and says what the driver is to do; see
    /// [`service_step`]. Neither message fails.
    pub fn handle(&mut self, message: ActorServiceMessage) -> (action: HttpAction)
        ensures
            final(self)@ == (HttpView {
                phase: service_step(old(self)@.phase, message).0,
                ..old(self)@
            }),
            action == service_step(old(self)@.phase, message).1,
    {
        match message {
            ActorServiceMessage::Start => {
                match self.phase {
                    HttpPhase::Idle => {
                        self.phase = HttpPhase::Binding;
                        HttpAction::Bind
                    },
                    _ => HttpAction::Nothing,
                }
            },
            ActorServiceMessage::Stop => {
                match self.phase {
                    HttpPhase::Idle => HttpAction::Nothing,
                    _ => {
                        self.phase = HttpPhase::Idle;
                        HttpAction::Shutdown
                    },
                }
            },
        }
    }

    /// Starts the server: an idle one is to bind, any other stays as it
    /// is.
    pub fn start(&mut self) -> (action: HttpAction)
        ensures
            final(self)@ == (HttpView {
                phase: service_step(old(self)@.phase, ActorServiceMessage::Start).0,
                ..old(self)@
            }),
            action == service_step(old(self)@.phase, ActorServiceMessage::Start).1,
    {
        self.handle(ActorServiceMessage::Start)
    }

    /// Stops the server: one that binds or serves is to shut down and is
    /// idle from now on, an idle one stays as it is. A shutdown is thus
    /// asked for at most once however often the server is stopped.
    pub fn stop(&mut self) -> (action: HttpAction)
        ensures
            final(self)@ == (HttpView { phase: HttpPhase::Idle, ..old(self)@ }),
            action == if old(self)@.phase == HttpPhase::Idle {
                HttpAction::Nothing
            } else {
                HttpAction::Shutdown
            },
    {
        self.handle(ActorServiceMessage::Stop)
    }

    /// Decides on the serving task `waited` seconds after the shutdown
    /// was signalled: it is waited for until it has ended, and no longer
    /// than the seconds that the settings give it to shut down.
    pub fn stop_wait(&self, exited: bool, waited: u64) -> (decision: Teardown)
        ensures
            decision == if exited {
                Teardown::Done
            } else if waited < self@.settings.shutdown_timeout_secs {
                Teardown::Wait
            } else {
                Teardown::Abort
            },
    {
        after_stop(exited, waited, self.settings.shutdown_timeout_secs)
    }

    /// Takes the outcome of a bind. A server that was asked to bind
    /// serves after a success and is idle again after a failure, which is
    /// a startup error; a server that was not asked to bind stays as it is.
    pub fn bound(&mut self, outcome: Result<(), String>) -> (done: ActorResultVoid)
        ensures
            final(self)@ == (HttpView {
                phase: if old(self)@.phase == HttpPhase::Binding {
                    if outcome is Ok {
                        HttpPhase::Serving
                    } else {
                        HttpPhase::Idle
                    }
                } else {
                    old(self)@.phase
                },
                ..old(self)@
            }),
            match done {
                Ok(()) => old(self)@.phase != HttpPhase::Binding || outcome is Ok,
                Err(error) => {
                    &&& old(self)@.phase == HttpPhase::Binding
                    &&& outcome matches Err(detail)
                    &&& error matches ActorError::StartupError(m)
                    &&& m@ == bind_fault(bind_text(old(self)@.host, old(self)@.port), detail@)
                },
            },
    {
        match self.phase {
            HttpPhase::Binding => {
                match outcome {
                    Ok(()) => {
                        self.phase = HttpPhase::Serving;
                        Ok(())
                    },
                    Err(detail) => {
                        self.phase = HttpPhase::Idle;
                        let address = self.bind_address();
                        let mut text = concat3("Failed to bind to ", address.as_str(), ": ");
                        text.append(detail.as_str());
                        Err(ActorError::StartupError(text))
                    },
                }
            },
            _ => Ok(()),
        }
    }

    /// The answer to a request at the time `timestamp`.
    pub fn respond_at(&self, method: Method, path: &str, timestamp: &str) -> (response: HttpResponse)
        ensures
            (response.status, pairs_view(response.fields@)) == answer_of(
                self@.routes,
                method,
                path@,
                timestamp@,
            ),
    {
        let mut i: usize = 0;
        assert(self@.routes.skip(0) =~= self@.routes);
        while i < self.routes.len()
            invariant
                i <= self.routes@.len(),
                answer_of(self@.routes, method, path@, timestamp@) == answer_of(
                    self@.routes.skip(i as int),
                    method,
                    path@,
                    timestamp@,
                ),
            decreases self.routes@.len() - i,
        {
            let ghost rest = self@.routes.skip(i as int);
            assert(rest[0] == self.routes@[i as int]@);
            assert(rest.drop_first() =~= self@.routes.skip(i + 1));
            if self.routes[i].method == method && same_text(self.routes[i].path.as_str(), path) {
                let mut fields = copy_pairs(&self.routes[i].fields);
                if self.routes[i].stamped {
                    let ghost held = fields@;
                    fields.push(pair("timestamp", timestamp));
                    assert(pairs_view(fields@) =~= pairs_view(held).push(
                        ("timestamp"@, timestamp@),
                    ));
                }
                return HttpResponse { status: 200, fields };
            }
            i += 1;
        }
        let fields: Vec<(String, String)> = Vec::new();
        assert(pairs_view(fields@) =~= Seq::empty());
        HttpResponse { status: 404, fields }
    }

    /// The answer to a request, stamped with the time that the clock shows.
    pub fn respond(&self, method: Method, path: &str) -> (response: HttpResponse)
        ensures
            exists|now: Timestamp|
                is_reading(now) && (response.status, pairs_view(response.fields@))
                    == #[trigger] answer_of(self@.routes, method, path@, stamp_text(now)),
    {
        let now = Timestamp::now();
        let response = self.respond_at(method, path, now.rfc3339().as_str());
        assert(is_reading(now) && (response.status, pairs_view(response.fields@)) == answer_of(
            self@.routes,
            method,
            path@,
            stamp_text(now),
        ));
        response
    }
}

impl Default for BaseHttpServer {
    fn default() -> (server: Self)
        ensures
            server@ == (HttpView {
                key: "http_server"@,
                host: "127.0.0.1"@,
                port: 8080,
                routes: default_routes(),
                settings: default_settings(),
                phase: HttpPhase::Idle,
            }),
    {
        BaseHttpServer::new("http_server", "127.0.0.1", 8080, None)
    }
}

} // verus!
