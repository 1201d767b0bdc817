//! Reconnecting, connecting and acting on containers.
use dtop::actions::{action_request, ActionRequest};
use dtop::connect::{certificate_dir, endpoint_of, local_redirect, Endpoint};
use dtop::containers::ContainerAction;
use dtop::events::AppEvent;
use dtop::reconnect::{next_reconnect_delay, next_wait, Delay, Phase};
use std::time::Duration;

#[test]
fn reconnect_delay_backs_off_and_caps() {
    let mut delay = Delay::initial();
    assert_eq!(delay, Delay::from_secs(1));

    delay = next_reconnect_delay(delay);
    assert_eq!(delay, Delay::from_secs(2));

    delay = next_reconnect_delay(delay);
    assert_eq!(delay, Delay::from_secs(4));

    // Caps rather than growing without bound, so a long outage is still
    // noticed promptly once the daemon returns.
    delay = next_reconnect_delay(delay);
    assert_eq!(delay, Delay::longest());

    delay = next_reconnect_delay(delay);
    assert_eq!(delay, Delay::longest());
    assert_eq!(delay, Delay::from_secs(5));
}

#[test]
fn delays_double_to_the_nanosecond() {
    assert_eq!(
        next_reconnect_delay(Delay {
            nanos: 2_499_999_999
        }),
        Delay {
            nanos: 4_999_999_998
        }
    );
    assert_eq!(
        next_reconnect_delay(Delay {
            nanos: 2_500_000_000
        }),
        Delay::longest()
    );
    assert_eq!(next_reconnect_delay(Delay { nanos: 0 }), Delay { nanos: 0 });
}

#[test]
fn the_longest_delays_saturate_too() {
    let longest = Delay {
        nanos: Duration::MAX.as_nanos(),
    };
    assert_eq!(next_reconnect_delay(longest), Delay::from_secs(5));
    assert_eq!(
        next_reconnect_delay(Delay { nanos: u128::MAX }),
        Delay::longest()
    );
}

#[test]
fn a_daemon_is_waited_for_until_it_answers() {
    let mut wait = Delay::initial();
    for secs in [2, 4, 5, 5] {
        wait = next_wait(wait, false).unwrap();
        assert_eq!(wait, Delay::from_secs(secs));
    }
    assert_eq!(next_wait(wait, true), None);
    assert_eq!(next_wait(Delay::initial(), true), None);
}

#[test]
fn the_manager_goes_round_until_it_is_not_heard() {
    let mut phase = Phase::Listing;
    let mut seen = Vec::new();
    for _ in 0..6 {
        phase = phase.next(true, false);
        seen.push(phase);
    }
    assert_eq!(
        seen,
        vec![
            Phase::Following,
            Phase::Dropping,
            Phase::Lost,
            Phase::Back,
            Phase::Listing,
            Phase::Following,
        ]
    );
    assert_eq!(Phase::Listing.next(false, false), Phase::Dropping);
    assert_eq!(Phase::Listing.next(true, true), Phase::Following);
    assert_eq!(Phase::Dropping.next(true, true), Phase::Finished);
    assert_eq!(Phase::Lost.next(true, true), Phase::Finished);
    assert_eq!(Phase::Finished.next(true, false), Phase::Finished);
}

#[test]
fn losing_and_regaining_a_host_is_announced() {
    let host = "local".to_string();
    assert!(matches!(
        Phase::Lost.announcement(&host),
        Some(AppEvent::HostDisconnected(id)) if id == "local"
    ));
    assert!(matches!(
        Phase::Back.announcement(&host),
        Some(AppEvent::HostReconnected(id)) if id == "local"
    ));
    for phase in [
        Phase::Listing,
        Phase::Following,
        Phase::Dropping,
        Phase::Finished,
    ] {
        assert!(phase.announcement(&host).is_none());
    }
}

#[test]
fn hosts_are_told_apart_by_their_scheme() {
    assert!(matches!(endpoint_of("local"), Endpoint::Local));
    assert!(matches!(
        endpoint_of("unix:///var/run/docker.sock"),
        Endpoint::Unix
    ));
    assert!(matches!(endpoint_of("ssh://user@host"), Endpoint::Ssh));
    assert!(matches!(endpoint_of("tcp://host:2375"), Endpoint::Tcp));
    match endpoint_of("tls://host:2376/tls://x") {
        Endpoint::Tls(address) => assert_eq!(address, "tcp://host:2376/tcp://x"),
        other => panic!("{other:?}"),
    }
}

#[test]
fn an_invalid_host_is_explained() {
    for host in ["", "Local", "localhost", "http://host", "tcp:/host"] {
        match endpoint_of(host) {
            Endpoint::Invalid(message) => assert_eq!(
                message,
                format!(
                    "Invalid host format: '{host}'. Use 'local', 'unix:///path/to/docker.sock', 'ssh://user@host[:port]', 'tcp://host:port', or 'tls://host:port'"
                )
            ),
            other => panic!("{other:?}"),
        }
    }
}

#[test]
fn local_leads_elsewhere_at_most_once() {
    assert_eq!(local_redirect(None), None);
    assert_eq!(local_redirect(Some("local".to_string())), None);
    let resolved = local_redirect(Some("unix:///x.sock".to_string())).unwrap();
    assert_eq!(resolved, "unix:///x.sock");
    assert!(!matches!(endpoint_of(&resolved), Endpoint::Local));
}

#[test]
fn certificates_are_under_the_home_directory_by_default() {
    let some = |s: &str| Some(s.to_string());
    assert_eq!(certificate_dir(some("/certs"), some("/home/me")), "/certs");
    assert_eq!(certificate_dir(None, some("/home/me")), "/home/me/.docker");
    assert_eq!(certificate_dir(None, None), "/.docker");
}

#[test]
fn actions_become_requests() {
    assert_eq!(
        action_request(ContainerAction::Start),
        Some(ActionRequest::Start)
    );
    assert_eq!(
        action_request(ContainerAction::Stop),
        Some(ActionRequest::Stop(10))
    );
    assert_eq!(
        action_request(ContainerAction::Restart),
        Some(ActionRequest::Restart(10))
    );
    assert_eq!(
        action_request(ContainerAction::Remove),
        Some(ActionRequest::Remove {
            force: true,
            volumes: false,
            link: false
        })
    );
    assert_eq!(action_request(ContainerAction::Shell), None);
}

#[test]
fn failed_requests_are_explained() {
    let told = |action| action_request(action).unwrap().failure_message("boom");
    assert_eq!(
        told(ContainerAction::Start),
        "Failed to start container: boom"
    );
    assert_eq!(told(ContainerAction::Stop), "Failed to stop container: boom");
    assert_eq!(
        told(ContainerAction::Restart),
        "Failed to restart container: boom"
    );
    assert_eq!(
        told(ContainerAction::Remove),
        "Failed to remove container: boom"
    );
}
