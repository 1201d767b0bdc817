//! Connecting to Docker: what a host specification asks for.
use crate::text;
use crate::text::{replace_all, same_text, starts_with};
use vstd::prelude::*;
use vstd::string::*;

verus! {

/// How long connecting to a daemon may take, in seconds.
pub const CONNECT_TIMEOUT_SECS: u64 = 120;

/// What a host specification asks for.
#[derive(Debug)]
pub enum Endpoint {
    /// The daemon that the Docker CLI would use
    Local,
    /// A Unix socket
    Unix,
    /// A daemon behind SSH
    Ssh,
    /// A daemon behind TLS, with the address as a TCP one
    Tls(String),
    /// A daemon behind plain TCP
    Tcp,
    /// None of these, with a message for the user
    Invalid(String),
}

/// The message for a host specification that is none.
pub open spec fn invalid_host_text(host: Seq<char>) -> Seq<char> {
    "Invalid host format: '"@ + host
        + "'. Use 'local', 'unix:///path/to/docker.sock', 'ssh://user@host[:port]', 'tcp://host:port', or 'tls://host:port'"@
}

/// Whether an endpoint is what a host specification asks for.
pub open spec fn asks_for(host: Seq<char>, endpoint: Endpoint) -> bool {
    if host == "local"@ {
        endpoint is Local
    } else if text::begins_with(host, "unix://"@) {
        endpoint is Unix
    } else if text::begins_with(host, "ssh://"@) {
        endpoint is Ssh
    } else if text::begins_with(host, "tls://"@) {
        endpoint matches Endpoint::Tls(address) && address@ == text::replaced(
            host,
            "tls://"@,
            "tcp://"@,
        )
    } else if text::begins_with(host, "tcp://"@) {
        endpoint is Tcp
    } else {
        endpoint matches Endpoint::Invalid(message) && message@ == invalid_host_text(host)
    }
}

/// What a host specification asks for.
///
/// # Arguments
/// * `host` - Host specification string (e.g., "local", "unix:///path/to/docker.sock", "ssh://user@host", "tcp://host:port", "tls://host:port")
pub fn endpoint_of(host: &str) -> (r: Endpoint)
    ensures
        asks_for(host@, r),
{
    if same_text(host, "local") {
        Endpoint::Local
    } else if starts_with(host, "unix://") {
        Endpoint::Unix
    } else if starts_with(host, "ssh://") {
        Endpoint::Ssh
    } else if starts_with(host, "tls://") {
        proof {
            reveal_strlit("tls://");
        }
        Endpoint::Tls(replace_all(host, "tls://", "tcp://"))
    } else if starts_with(host, "tcp://") {
        Endpoint::Tcp
    } else {
        let mut message = "Invalid host format: '".to_owned();
        message.append(host);
        message.append(
            "'. Use 'local', 'unix:///path/to/docker.sock', 'ssh://user@host[:port]', 'tcp://host:port', or 'tls://host:port'",
        );
        Endpoint::Invalid(message)
    }
}

/// Where "local" leads: to the endpoint that the Docker CLI's resolution gave,
/// unless that is "local" again, or else to the default socket.
pub open spec fn local_target(resolved: Option<Seq<char>>) -> Option<Seq<char>> {
    match resolved {
        Some(endpoint) => if endpoint == "local"@ {
            None
        } else {
            resolved
        },
        None => None,
    }
}

/// Where "local" leads, if not to the default socket.
pub fn local_redirect(resolved: Option<String>) -> (r: Option<String>)
    ensures
        text::text_of(r) == local_target(text::text_of(resolved)),
{
    match resolved {
        Some(endpoint) => {
            if same_text(endpoint.as_str(), "local") {
                None
            } else {
                Some(endpoint)
            }
        },
        None => None,
    }
}

/// Where "local" leads is never "local" again, so following it ends.
pub proof fn law_local_redirects_once(
    resolved: Option<Seq<char>>,
    target: Seq<char>,
    endpoint: Endpoint,
)
    requires
        local_target(resolved) == Some(target),
        asks_for(target, endpoint),
    ensures
        endpoint !is Local,
{
}

/// The directory of the certificates for TLS: as the environment has it, or else
/// under the home directory.
pub fn certificate_dir(cert_path: Option<String>, home: Option<String>) -> (r: String)
    ensures
        r@ == match cert_path {
            Some(path) => path@,
            None => match home {
                Some(home) => home@ + "/.docker"@,
                None => "/.docker"@,
            },
        },
{
    match cert_path {
        Some(path) => path,
        None => {
            let mut dir = match home {
                Some(home) => home,
                None => String::new(),
            };
            dir.append("/.docker");
            assert(Seq::<char>::empty() + "/.docker"@ =~= "/.docker"@);
            dir
        },
    }
}

/// What a host specification asks for goes by what it begins with, whatever
/// follows; only "local" has to stand alone. A daemon behind TLS is connected to by
/// the same address as a TCP one.
pub proof fn law_schemes_tell_endpoints(host: Seq<char>, tail: Seq<char>, endpoint: Endpoint)
    requires
        asks_for(host, endpoint),
    ensures
        host == "local"@ <==> endpoint is Local,
        host == "unix://"@.add(tail) ==> endpoint is Unix,
        host == "ssh://"@.add(tail) ==> endpoint is Ssh,
        host == "tcp://"@.add(tail) ==> endpoint is Tcp,
        host == "tls://"@.add(tail) ==> endpoint is Tls,
        host == "tls://"@.add(tail) ==> endpoint->Tls_0@ == "tcp://"@ + text::replaced(
            tail,
            "tls://"@,
            "tcp://"@,
        ),
        host == "tls://"@.add(tail) && !text::occurs(tail, "tls://"@) ==> endpoint->Tls_0@
            == "tcp://"@ + tail,
{
    reveal_strlit("local");
    reveal_strlit("unix://");
    reveal_strlit("ssh://");
    reveal_strlit("tcp://");
    reveal_strlit("tls://");
    text::law_begins_with_is_a_prefix(host, "unix://"@);
    text::law_begins_with_is_a_prefix(host, "ssh://"@);
    text::law_begins_with_is_a_prefix(host, "tls://"@);
    text::law_begins_with_is_a_prefix(host, "tcp://"@);
    assert("local"@[0] == 'l' && "local"@.len() == 5);
    assert("unix://"@.add(tail)[0] == 'u');
    assert("ssh://"@.add(tail)[0] == 's');
    assert("tcp://"@.add(tail)[0] == 't' && "tcp://"@.add(tail)[1] == 'c');
    assert("tls://"@.add(tail)[0] == 't' && "tls://"@.add(tail)[1] == 'l');
    if host.len() > 1 {
        assert(text::begins_with(host, "unix://"@) ==> host.subrange(0, 7)[0] == host[0]);
        assert(text::begins_with(host, "ssh://"@) ==> host.subrange(0, 6)[0] == host[0]);
        assert(text::begins_with(host, "tls://"@) ==> host.subrange(0, 6)[1] == host[1]);
        assert(text::begins_with(host, "tls://"@) ==> host.subrange(0, 6)[0] == host[0]);
        assert(text::begins_with(host, "tcp://"@) ==> host.subrange(0, 6)[0] == host[0]);
    }
    if host == "tls://"@.add(tail) {
        text::law_replacing_goes_by_first_occurrences(host, "tls://"@, "tcp://"@, 0);
        text::law_replacing_goes_by_first_occurrences(tail, "tls://"@, "tcp://"@, 0);
        assert(text::occurs_at(host, "tls://"@, 0));
        assert(host.skip(6) =~= tail);
        assert(host.take(0) + "tcp://"@ =~= "tcp://"@);
    }
}

/// What begins with none of the schemes, and is not "local", is no host
/// specification, and the message says what it was.
pub proof fn law_other_hosts_are_refused(host: Seq<char>, endpoint: Endpoint)
    requires
        asks_for(host, endpoint),
        host != "local"@,
        forall|tail: Seq<char>| host != #[trigger] "unix://"@.add(tail),
        forall|tail: Seq<char>| host != #[trigger] "ssh://"@.add(tail),
        forall|tail: Seq<char>| host != #[trigger] "tcp://"@.add(tail),
        forall|tail: Seq<char>| host != #[trigger] "tls://"@.add(tail),
    ensures
        endpoint matches Endpoint::Invalid(message) && {
            &&& text::occurs(message@, host)
            &&& text::begins_with(message@, "Invalid host format: '"@)
            &&& text::occurs(message@, "Use 'local', 'unix:///path/to/docker.sock', 'ssh://user@host[:port]', 'tcp://host:port', or 'tls://host:port'"@)
        },
{
    text::law_begins_with_is_a_prefix(host, "unix://"@);
    text::law_begins_with_is_a_prefix(host, "ssh://"@);
    text::law_begins_with_is_a_prefix(host, "tls://"@);
    text::law_begins_with_is_a_prefix(host, "tcp://"@);
    let front = "Invalid host format: '"@;
    let back =
        "'. Use 'local', 'unix:///path/to/docker.sock', 'ssh://user@host[:port]', 'tcp://host:port', or 'tls://host:port'"@;
    let message = invalid_host_text(host);
    assert(message == front.add(host).add(back));
    text::law_occurs_is_containment(message, host);
    text::law_begins_with_is_a_prefix(message, front);
    assert(message =~= front.add(host + back));
    let hint =
        "Use 'local', 'unix:///path/to/docker.sock', 'ssh://user@host[:port]', 'tcp://host:port', or 'tls://host:port'"@;
    reveal_strlit(
        "'. Use 'local', 'unix:///path/to/docker.sock', 'ssh://user@host[:port]', 'tcp://host:port', or 'tls://host:port'",
    );
    reveal_strlit(
        "Use 'local', 'unix:///path/to/docker.sock', 'ssh://user@host[:port]', 'tcp://host:port', or 'tls://host:port'",
    );
    assert(back.skip(3) =~= hint);
    let upto = front + host + back.take(3);
    assert(message =~= upto.add(hint).add(Seq::empty()));
    text::law_occurs_is_containment(message, hint);
}

/// "local" leads to the endpoint that it was resolved to, and to the default socket
/// where there is none or where that is "local" itself.
pub proof fn law_local_leads_to_what_it_is_resolved_to(endpoint: Seq<char>)
    ensures
        endpoint != "local"@ ==> local_target(Some(endpoint)) == Some(endpoint),
        local_target(Some("local"@)) is None,
        local_target(None) is None,
{
}

} // verus!
