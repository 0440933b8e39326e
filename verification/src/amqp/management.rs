//! The management plane of the broker emulator: what it advertises to its
//! clients over HTTP.

use crate::http::{Method, Route, RouteView};
use crate::text::{decimal, decimal_digits, pair, pairs_view};
use vstd::prelude::*;

verus! {

/// The connection string that the emulator advertises for the data plane
/// at `host:amqp_port` with the key `key`.
pub open spec fn connection_text(host: Seq<char>, amqp_port: u16, key: Seq<char>) -> Seq<char> {
    "Endpoint=sb://"@ + host + ":"@ + decimal_digits(amqp_port as nat)
        + "/;SharedAccessKeyName=RootManageSharedAccessKey;SharedAccessKey="@ + key
        + ";UseDevelopmentEmulator=true"@
}

/// The connection string that the emulator advertises.
pub fn connection_string(host: &str, amqp_port: u16, key: &str) -> (text: String)
    ensures
        text@ == connection_text(host@, amqp_port, key@),
{
    let mut text = String::from_str("Endpoint=sb://");
    text.append(host);
    text.append(":");
    text.append(decimal(amqp_port as u64).as_str());
    text.append("/;SharedAccessKeyName=RootManageSharedAccessKey;SharedAccessKey=");
    text.append(key);
    text.append(";UseDevelopmentEmulator=true");
    text
}

/// The routes of the management plane: the health of the emulator, a
/// synthetic token, the description of the token endpoint, and the
/// connection string of the data plane.
pub open spec fn management_routes(host: Seq<char>, amqp_port: u16, key: Seq<char>) -> Seq<
    RouteView,
> {
    seq![
        RouteView {
            method: Method::Get,
            path: "/health"@,
            fields: seq![("status"@, "up"@)],
            stamped: true,
        },
        RouteView {
            method: Method::Post,
            path: "/token"@,
            fields: seq![
                ("access_token"@, key),
                ("token_type"@, "Bearer"@),
                ("expires_in"@, "3600"@),
            ],
            stamped: false,
        },
        RouteView {
            method: Method::Get,
            path: "/.well-known/oauth-authorization-server"@,
            fields: seq![("issuer"@, host), ("token_endpoint"@, "/token"@)],
            stamped: false,
        },
        RouteView {
            method: Method::Get,
            path: "/connection-string"@,
            fields: seq![("connectionString"@, connection_text(host, amqp_port, key))],
            stamped: false,
        },
    ]
}

/// The routes of the management plane.
pub fn management_router(host: &str, amqp_port: u16, key: &str) -> (routes: Vec<Route>)
    ensures
        crate::http::routes_view(routes@) == management_routes(host@, amqp_port, key@),
{
    let mut health: Vec<(String, String)> = Vec::new();
    health.push(pair("status", "up"));
    let mut token: Vec<(String, String)> = Vec::new();
    token.push(pair("access_token", key));
    token.push(pair("token_type", "Bearer"));
    token.push(pair("expires_in", "3600"));
    let mut discovery: Vec<(String, String)> = Vec::new();
    discovery.push(pair("issuer", host));
    discovery.push(pair("token_endpoint", "/token"));
    let mut connection: Vec<(String, String)> = Vec::new();
    connection.push(pair("connectionString", connection_string(host, amqp_port, key).as_str()));
    proof {
        assert(pairs_view(health@) =~= seq![("status"@, "up"@)]);
        assert(pairs_view(token@) =~= seq![
            ("access_token"@, key@),
            ("token_type"@, "Bearer"@),
            ("expires_in"@, "3600"@),
        ]);
        assert(pairs_view(discovery@) =~= seq![("issuer"@, host@), ("token_endpoint"@, "/token"@)]);
        assert(pairs_view(connection@) =~= seq![
            ("connectionString"@, connection_text(host@, amqp_port, key@)),
        ]);
    }
    let mut routes: Vec<Route> = Vec::new();
    routes.push(
        Route { method: Method::Get, path: String::from_str("/health"), fields: health, stamped: true },
    );
    routes.push(
        Route { method: Method::Post, path: String::from_str("/token"), fields: token, stamped: false },
    );
    routes.push(
        Route {
            method: Method::Get,
            path: String::from_str("/.well-known/oauth-authorization-server"),
            fields: discovery,
            stamped: false,
        },
    );
    routes.push(
        Route {
            method: Method::Get,
            path: String::from_str("/connection-string"),
            fields: connection,
            stamped: false,
        },
    );
    assert(crate::http::routes_view(routes@) =~= management_routes(host@, amqp_port, key@));
    routes
}

} // verus!
