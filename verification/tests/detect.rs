use nas_notifier::detect::{
    classify, is_known, LoginEvent, ACCEPTED_MARKER, CLOSED_MARKER, SSH_MARKER,
};
use nas_notifier::ipv4::Ipv4;

const ACCEPTED: &str =
    "Mar  3 10:15:02 nas sshd[4242]: Accepted publickey for admin from 203.0.113.7 port 51234 ssh2: ED25519 SHA256:abc";
const ACCEPTED_PRIVATE: &str =
    "Mar  3 10:15:02 nas sshd[4242]: Accepted publickey for admin from 192.168.1.5 port 51234 ssh2: ED25519 SHA256:abc";
const CLOSED: &str =
    "Mar  3 10:16:40 nas sshd[4250]: Connection closed by authenticating user root 198.51.100.23 port 40022 [preauth]";

fn none() -> Vec<String> {
    Vec::new()
}

fn new_login(a: u8, b: u8, c: u8, d: u8, line: &str) -> LoginEvent {
    LoginEvent::NewLogin { ip: Ipv4 { a, b, c, d }, line: line.to_string() }
}

fn failed(line: &str) -> LoginEvent {
    LoginEvent::FailedLogin { line: line.to_string() }
}

#[test]
fn markers_are_the_expected_phrases() {
    assert_eq!(SSH_MARKER, "sshd");
    assert_eq!(ACCEPTED_MARKER, "Accepted publickey for");
    assert_eq!(CLOSED_MARKER, "Connection closed by authenticating user");
}

#[test]
fn public_address_gives_one_new_login() {
    assert_eq!(classify(ACCEPTED, &none()), vec![new_login(203, 0, 113, 7, ACCEPTED)]);
}

#[test]
fn private_address_gives_no_event() {
    assert_eq!(classify(ACCEPTED_PRIVATE, &none()), Vec::<LoginEvent>::new());
    for address in ["10.1.2.3", "172.16.0.1", "172.31.255.254", "192.168.0.1"] {
        let line = format!("sshd[1]: Accepted publickey for admin from {} port 1 ssh2", address);
        assert_eq!(classify(&line, &none()), Vec::<LoginEvent>::new(), "{}", address);
    }
}

#[test]
fn known_address_gives_no_event() {
    let known = vec!["203.0.113.7".to_string()];
    assert_eq!(classify(ACCEPTED, &known), Vec::<LoginEvent>::new());
}

#[test]
fn other_public_address_gives_one_event_despite_allowlist() {
    let known = vec!["203.0.113.7".to_string()];
    let line = "sshd[9]: Accepted publickey for admin from 198.51.100.23 port 22 ssh2";
    assert_eq!(classify(line, &known), vec![new_login(198, 51, 100, 23, line)]);
}

#[test]
fn allowlist_is_searched_to_its_end() {
    let known = vec!["192.0.2.1".to_string(), "not an address".to_string(), "203.0.113.7".to_string()];
    assert_eq!(classify(ACCEPTED, &known), Vec::<LoginEvent>::new());
    let known = vec!["192.0.2.1".to_string(), "203.0.113.70".to_string()];
    assert_eq!(classify(ACCEPTED, &known), vec![new_login(203, 0, 113, 7, ACCEPTED)]);
}

#[test]
fn is_known_compares_whole_strings() {
    let known = vec!["203.0.113.7".to_string(), "198.51.100.23".to_string()];
    assert!(is_known(&"203.0.113.7".to_string(), &known));
    assert!(is_known(&"198.51.100.23".to_string(), &known));
    assert!(!is_known(&"203.0.113.70".to_string(), &known));
    assert!(!is_known(&"03.0.113.7".to_string(), &known));
    assert!(!is_known(&"".to_string(), &known));
    assert!(!is_known(&"203.0.113.7".to_string(), &Vec::new()));
}

#[test]
fn closed_connection_gives_one_failed_login() {
    assert_eq!(classify(CLOSED, &none()), vec![failed(CLOSED)]);
}

#[test]
fn failed_login_does_not_depend_on_addresses() {
    let without = "sshd[1]: Connection closed by authenticating user root [preauth]";
    assert_eq!(classify(without, &none()), vec![failed(without)]);
    let private = "sshd[1]: Connection closed by authenticating user root 10.0.0.8 port 4 [preauth]";
    assert_eq!(classify(private, &none()), vec![failed(private)]);
    let known = vec!["198.51.100.23".to_string()];
    assert_eq!(classify(CLOSED, &known), vec![failed(CLOSED)]);
}

#[test]
fn line_without_ssh_marker_gives_nothing() {
    let accepted = "login[1]: Accepted publickey for admin from 203.0.113.7 port 22";
    assert_eq!(classify(accepted, &none()), Vec::<LoginEvent>::new());
    let closed = "ftpd[1]: Connection closed by authenticating user root 203.0.113.7";
    assert_eq!(classify(closed, &none()), Vec::<LoginEvent>::new());
    assert_eq!(classify("", &none()), Vec::<LoginEvent>::new());
    assert_eq!(classify("sshd[1]: Server listening on 0.0.0.0 port 22.", &none()), Vec::<LoginEvent>::new());
}

#[test]
fn password_login_is_not_reported() {
    let line = "sshd[1]: Accepted password for admin from 203.0.113.7 port 22 ssh2";
    assert_eq!(classify(line, &none()), Vec::<LoginEvent>::new());
}

#[test]
fn every_address_in_the_line_is_a_candidate() {
    let line = "sshd[1]: Accepted publickey for admin from 203.0.113.7 via 10.0.0.1 and 198.51.100.23";
    assert_eq!(
        classify(line, &none()),
        vec![new_login(203, 0, 113, 7, line), new_login(198, 51, 100, 23, line)]
    );
    let known = vec!["203.0.113.7".to_string()];
    assert_eq!(classify(line, &known), vec![new_login(198, 51, 100, 23, line)]);
}

#[test]
fn address_must_be_a_word_of_its_own() {
    let line = "sshd[1]: Accepted publickey for admin from 203.0.113.7:51234";
    assert_eq!(classify(line, &none()), Vec::<LoginEvent>::new());
    let line = "sshd[1]: Accepted publickey for admin from [203.0.113.7]";
    assert_eq!(classify(line, &none()), Vec::<LoginEvent>::new());
}

#[test]
fn line_with_both_marks_gives_both_events() {
    let line = "sshd[1]: Accepted publickey for admin from 203.0.113.7 port 22, then Connection closed by authenticating user x";
    assert_eq!(classify(line, &none()), vec![new_login(203, 0, 113, 7, line), failed(line)]);
}

#[test]
fn event_carries_the_line_as_it_was() {
    let line = "sshd[1]: Accepted publickey for admin from 203.0.113.7 port 22   \r";
    assert_eq!(classify(line, &none()), vec![new_login(203, 0, 113, 7, line)]);
}
