use nas_notifier::health::Health;
use nas_notifier::message::{
    failed_login_message, new_login_message, pool_health_message, AUTH_LOG_FILE_PATH,
};

#[test]
fn log_path_is_the_usual_one() {
    assert_eq!(AUTH_LOG_FILE_PATH, "/var/log/auth.log");
}

#[test]
fn new_login_message_quotes_host_and_line() {
    let line = "sshd[1]: Accepted publickey for admin from 203.0.113.7 port 22 ssh2";
    assert_eq!(
        new_login_message("nas", line),
        "There was a successful login on `nas` from an unknown IP address. Here's the relevant line from `/var/log/auth.log`:\n\n`sshd[1]: Accepted publickey for admin from 203.0.113.7 port 22 ssh2`"
    );
}

#[test]
fn failed_login_message_quotes_host_and_line() {
    let line = "sshd[1]: Connection closed by authenticating user root 198.51.100.23 port 4 [preauth]";
    assert_eq!(
        failed_login_message("nas", line),
        "There was a failed login attempt on `nas`. Here's the relevant line from `/var/log/auth.log`:\n\n`sshd[1]: Connection closed by authenticating user root 198.51.100.23 port 4 [preauth]`"
    );
}

#[test]
fn messages_quote_the_line_without_trailing_white_space() {
    assert_eq!(
        new_login_message("h", "  line \t\r"),
        "There was a successful login on `h` from an unknown IP address. Here's the relevant line from `/var/log/auth.log`:\n\n`  line`"
    );
    assert_eq!(
        failed_login_message("h", "line   "),
        "There was a failed login attempt on `h`. Here's the relevant line from `/var/log/auth.log`:\n\n`line`"
    );
}

#[test]
fn messages_agree_with_formatting() {
    for (host, line) in [("", ""), ("nas", "x"), ("my host", " a b  "), ("h\u{e9}", "l\u{4e16} ")] {
        assert_eq!(
            new_login_message(host, line),
            format!(
                "There was a successful login on `{}` from an unknown IP address. Here's the relevant line from `{}`:\n\n`{}`",
                host,
                AUTH_LOG_FILE_PATH,
                line.trim_end()
            )
        );
        assert_eq!(
            failed_login_message(host, line),
            format!(
                "There was a failed login attempt on `{}`. Here's the relevant line from `{}`:\n\n`{}`",
                host,
                AUTH_LOG_FILE_PATH,
                line.trim_end()
            )
        );
    }
}

#[test]
fn pool_health_message_names_pool_and_state() {
    assert_eq!(pool_health_message("tank", Health::Faulted), "Zpool `tank` entered the `FAULTED` state.");
    assert_eq!(pool_health_message("tank", Health::Online), "Zpool `tank` entered the `ONLINE` state.");
    assert_eq!(pool_health_message("", Health::Unavailable), "Zpool `` entered the `UNAVAILABLE` state.");
}
