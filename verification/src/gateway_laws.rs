//! How the gateway is found and its replies are read, whatever is configured.

use vstd::prelude::*;

use crate::client::{ClientErrorView, WS_BACKOFF_MAX_MS};
use crate::gateway::{PortErrorView, Route};
use crate::json::JsonView;
use crate::wire::RpcErrorView;

verus! {

/// A port that is written out is the port; zero and numbers that are no port are refused.
pub proof fn law_port_read_back(n: nat, source: Seq<char>)
    ensures
        ({
            let read = crate::gateway::port_of(crate::text::decimal(n), source);
            &&& 1 <= n <= 65535 ==> read == Ok::<u16, PortErrorView>(n as u16)
            &&& n == 0 || n > 65535 ==> read is Err
        }),
{
    crate::text_laws::law_number_read_back(n, 65535);
}

/// The port stands on the command line in either form, behind its option or joined to it.
pub proof fn law_port_on_command_line(
    n: nat,
    env: Option<Seq<char>>,
    config: Option<u16>,
)
    requires
        1 <= n <= 65535,
    ensures
        crate::gateway::resolved(seq!["--port"@, crate::text::decimal(n)], env, config) == Ok::<
            u16,
            PortErrorView,
        >(n as u16),
        crate::gateway::resolved(seq!["--port="@ + crate::text::decimal(n)], env, config) == Ok::<
            u16,
            PortErrorView,
        >(n as u16),
{
    reveal_strlit("--port");
    reveal_strlit("--port=");
    assert("--port"@.len() == 6 && "--port="@.len() == 7);
    let joined = "--port="@ + crate::text::decimal(n);
    crate::text_laws::law_decimal(n);
    assert(joined.len() > 6);
    assert("--port="@.is_prefix_of(joined)) by {
        assert(joined.subrange(0, 7) =~= "--port="@);
    }
    assert(joined.skip(7) =~= crate::text::decimal(n));
    law_port_read_back(n, "--port"@);
}

/// Without a port on the command line the environment decides, then the configuration, and else
/// the port is the default one.
pub proof fn law_port_order(n: nat, config: u16)
    requires
        1 <= n <= 65535,
        config > 0,
    ensures
        crate::gateway::resolved(Seq::empty(), Some(crate::text::decimal(n)), Some(config)) == Ok::<
            u16,
            PortErrorView,
        >(n as u16),
        crate::gateway::resolved(Seq::empty(), None, Some(config)) == Ok::<u16, PortErrorView>(
            config,
        ),
        crate::gateway::resolved(Seq::empty(), None, None) == Ok::<u16, PortErrorView>(
            crate::gateway::DEFAULT_PORT,
        ),
{
    law_port_read_back(n, "DSH_PORT"@);
}

/// The process of a gateway is read back from what was written of it, with white space around it
/// or not.
pub proof fn law_pid_read_back(n: nat)
    requires
        n <= 2147483647,
    ensures
        crate::gateway::pid_in(crate::text::decimal(n)) == Some(n as int),
        crate::gateway::pid_in(crate::text::decimal(n) + seq!['\n']) == Some(n as int),
{
    let d = crate::text::decimal(n);
    crate::text_laws::law_decimal(n);
    crate::text_laws::law_number_read_back(n, 2147483647);
    let last = d.len() - 1;
    assert(!crate::text::white(d[0]) && !crate::text::white(d[last]));
    crate::text_laws::law_trim(d, 0, last);
    assert(d.subrange(0, last + 1) =~= d);
    let line = d + seq!['\n'];
    assert(line[0] == d[0] && line[last] == d[last]);
    assert forall|i: int| last < i < line.len() implies crate::text::white(#[trigger] line[i]) by {
        assert(line[i] == '\n');
    }
    crate::text_laws::law_trim(line, 0, last);
    assert(line.subrange(0, last + 1) =~= d);
    assert(d[0] != '-');
}

/// The client runs without a screen where it is told so, stops the server where it is told so
/// first, and else has a screen.
pub proof fn law_route(args: Seq<Seq<char>>)
    ensures
        args.len() >= 2 && args[0] == "server"@ && args[1] == "stop"@ ==> crate::gateway::route_of(
            args,
        ) == Route::ServerStop,
        !(args.len() >= 2 && args[0] == "server"@ && args[1] == "stop"@) && args.contains(
            "--light"@,
        ) ==> crate::gateway::route_of(args) == Route::Light,
        args.len() == 0 ==> crate::gateway::route_of(args) == Route::Interactive,
{
}

/// A reply that succeeded gives its value, nothing where it has none; one that failed gives its
/// error.
pub proof fn law_reply(value: JsonView, error: RpcErrorView, method: Seq<char>)
    ensures
        crate::client::reply_outcome(true, Some(value), None, method) == Ok::<
            JsonView,
            ClientErrorView,
        >(value),
        crate::client::reply_outcome(true, None, None, method) == Ok::<JsonView, ClientErrorView>(
            JsonView::Null,
        ),
        crate::client::reply_outcome(false, None, Some(error), method) == Err::<
            JsonView,
            ClientErrorView,
        >(ClientErrorView::Rpc(error)),
        crate::client::reply_outcome(false, Some(value), None, method) is Err,
{
}

/// A status is an error where and only where it is not one of success.
pub proof fn law_http_status(status: u16)
    ensures
        crate::client::status_error(status) is None <==> 200 <= status <= 299,
        crate::client::status_error(status) matches Some(e) ==> e == ClientErrorView::HttpStatus(
            status,
        ),
{
}

/// From failure to failure the wait doubles until it has reached its longest, and stays there.
pub proof fn law_wait_grows(wait: u64)
    requires
        0 < wait <= WS_BACKOFF_MAX_MS,
    ensures
        wait <= crate::client::longer(wait) <= WS_BACKOFF_MAX_MS,
        2 * wait <= WS_BACKOFF_MAX_MS ==> crate::client::longer(wait) == 2 * wait,
        2 * wait > WS_BACKOFF_MAX_MS ==> crate::client::longer(wait) == WS_BACKOFF_MAX_MS,
{
}

/// The gateway is on this machine, at its port.
pub proof fn law_http_base(port: u16)
    ensures
        ({
            let text = crate::client::http_base(port);
            let host = seq![
                'h', 't', 't', 'p', ':', '/', '/', '1', '2', '7', '.', '0', '.', '0', '.', '1', ':',
            ];
            &&& text.len() > 17
            &&& text.take(17) == host
            &&& crate::text_laws::reads_as(text.skip(17)) == port
        }),
{
    reveal_strlit("http://127.0.0.1:");
    let text = crate::client::http_base(port);
    crate::text_laws::law_decimal(port as nat);
    assert(text.skip(17) =~= crate::text::decimal(port as nat));
    assert(text.take(17) =~= "http://127.0.0.1:"@);
    assert("http://127.0.0.1:"@ =~= seq![
        'h', 't', 't', 'p', ':', '/', '/', '1', '2', '7', '.', '0', '.', '0', '.', '1', ':',
    ]);
}

/// The application's state lies below the directory that the environment names, and where it
/// names none or an empty one, below the home directory.
pub proof fn law_state_directory(dir: Seq<char>, home: Seq<char>)
    ensures
        dir.len() > 0 ==> crate::gateway::state_directory(Some(dir), Some(home))
            == crate::text::path_join(dir, "dsh-tui"@),
        dir.len() > 0 ==> crate::gateway::state_directory(Some(dir), None)
            == crate::text::path_join(dir, "dsh-tui"@),
        dir.len() == 0 ==> crate::gateway::state_directory(Some(dir), Some(home))
            == crate::gateway::state_directory(None, Some(home)),
        crate::gateway::state_directory(None, Some(home)) == crate::text::path_join(
            crate::text::path_join(home, ".local/state"@),
            "dsh-tui"@,
        ),
        crate::theme::config_directory(Some(dir)) == Some(crate::text::path_join(dir, "dsh-tui"@)),
        crate::theme::config_directory(None) is None,
{
}

/// What is to be copied can be read off the sequence that asks the terminal to copy it.
pub proof fn law_copy_read_back(encoded: Seq<char>)
    ensures
        ({
            let asked = crate::clipboard::copy_sequence(encoded);
            &&& asked.len() == encoded.len() + 9
            &&& asked.subrange(7, 7 + encoded.len() as int) == encoded
            &&& asked[0] == '\u{1b}' && asked[1] == ']' && asked[2] == '5' && asked[3] == '2'
            &&& asked[asked.len() - 2] == '\u{1b}' && asked.last() == '\\'
        }),
{
    reveal_strlit("\x1b]52;c;");
    reveal_strlit("\x1b\\");
    let asked = crate::clipboard::copy_sequence(encoded);
    assert(asked.subrange(7, 7 + encoded.len() as int) =~= encoded);
}

} // verus!
