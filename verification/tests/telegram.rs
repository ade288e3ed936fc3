use nas_notifier::config::TelegramConfig;
use nas_notifier::decimal::decimal_string;
use nas_notifier::telegram::SendMessage;

#[test]
fn decimal_string_writes_base_ten() {
    assert_eq!(decimal_string(0), "0");
    assert_eq!(decimal_string(7), "7");
    assert_eq!(decimal_string(10), "10");
    assert_eq!(decimal_string(-1), "-1");
    assert_eq!(decimal_string(-10), "-10");
    assert_eq!(decimal_string(1234567890), "1234567890");
    assert_eq!(decimal_string(i64::MAX), "9223372036854775807");
    assert_eq!(decimal_string(i64::MIN), "-9223372036854775808");
    assert_eq!(decimal_string(i64::MIN + 1), "-9223372036854775807");
}

#[test]
fn decimal_string_agrees_with_std() {
    let mut n: i64 = 1;
    for _ in 0..62 {
        for m in [n, -n, n - 1, n + 1, -n - 1, -n + 1] {
            assert_eq!(decimal_string(m), m.to_string());
        }
        n *= 2;
    }
    for m in -1200..1200i64 {
        assert_eq!(decimal_string(m), m.to_string());
    }
}

#[test]
fn send_message_fills_the_request() {
    let telegram = TelegramConfig {
        user_id: 123456789,
        hostname: "nas".to_string(),
        api_key: "SECRET-REDACTED".to_string(),
    };
    assert_eq!(
        telegram.send_message("Zpool `tank` entered the `FAULTED` state."),
        SendMessage {
            url: "https://api.telegram.org/botSECRET-REDACTED/sendMessage".to_string(),
            chat_id: "123456789".to_string(),
            text: "Zpool `tank` entered the `FAULTED` state.".to_string(),
            parse_mode: "Markdown".to_string(),
        }
    );
}

#[test]
fn send_message_writes_a_negative_chat() {
    let telegram = TelegramConfig { user_id: -1001234, hostname: String::new(), api_key: String::new() };
    let request = telegram.send_message("");
    assert_eq!(request.url, "https://api.telegram.org/bot/sendMessage");
    assert_eq!(request.chat_id, "-1001234");
    assert_eq!(request.text, "");
    assert_eq!(request.parse_mode, "Markdown");
}
