//! Detection of logins in lines of the authentication log.

use crate::ipv4::{address, lemma_address_spelling, parse, Ipv4};
use crate::text::{contains, has_phrase, words, words_of};
use vstd::prelude::*;

verus! {

/// Every line that the SSH service writes holds this.
pub const SSH_MARKER: &'static str = "sshd";

/// A line that reports a login by public key holds this.
pub const ACCEPTED_MARKER: &'static str = "Accepted publickey for";

/// A line that reports a connection closed during authentication holds this.
pub const CLOSED_MARKER: &'static str = "Connection closed by authenticating user";

/// What a line of the log may report.
#[derive(Clone, Debug, PartialEq, Eq)]
pub enum LoginEvent {
    /// A login from `ip`, an address that is neither private nor known.
    NewLogin { ip: Ipv4, line: String },
    /// A failed attempt to log in.
    FailedLogin { line: String },
}

/// A `LoginEvent` with its line as a sequence of characters.
pub enum LoginEventView {
    NewLogin { ip: Ipv4, line: Seq<char> },
    FailedLogin { line: Seq<char> },
}

impl View for LoginEvent {
    type V = LoginEventView;

    open spec fn view(&self) -> LoginEventView {
        match *self {
            LoginEvent::NewLogin { ip, line } => LoginEventView::NewLogin { ip, line: line@ },
            LoginEvent::FailedLogin { line } => LoginEventView::FailedLogin { line: line@ },
        }
    }
}

impl DeepView for LoginEvent {
    type V = LoginEventView;

    open spec fn deep_view(&self) -> LoginEventView {
        self@
    }
}

/// Whether `line` reports a login by public key over SSH.
pub open spec fn is_accepted_login(line: Seq<char>) -> bool {
    has_phrase(line, SSH_MARKER@) && has_phrase(line, ACCEPTED_MARKER@)
}

/// Whether `line` reports a failed attempt to log in over SSH.
pub open spec fn is_failed_login(line: Seq<char>) -> bool {
    has_phrase(line, SSH_MARKER@) && has_phrase(line, CLOSED_MARKER@)
}

/// The address that `word` spells, if it spells one that is not private and
/// whose text is not among `known`.
pub open spec fn unknown_address(word: Seq<char>, known: Seq<Seq<char>>) -> Option<Ipv4> {
    match address(word) {
        Some(ip) => if !ip.private() && !known.contains(ip.text()) {
            Some(ip)
        } else {
            None
        },
        None => None,
    }
}

/// One `NewLogin` for each of `words` that spells an unknown address, in the
/// order of the words.
pub open spec fn new_logins(
    words: Seq<Seq<char>>,
    known: Seq<Seq<char>>,
    line: Seq<char>,
) -> Seq<LoginEventView>
    decreases words.len(),
{
    if words.len() == 0 {
        Seq::empty()
    } else {
        let before = new_logins(words.drop_last(), known, line);
        match unknown_address(words.last(), known) {
            Some(ip) => before.push(LoginEventView::NewLogin { ip, line }),
            None => before,
        }
    }
}

/// The events that `line` reports: if it reports a login, one `NewLogin` for
/// each unknown address among its words; then, if it reports a failed
/// attempt, one `FailedLogin`.
pub open spec fn events_of(line: Seq<char>, known: Seq<Seq<char>>) -> Seq<LoginEventView> {
    let logins = if is_accepted_login(line) {
        new_logins(words_of(line), known, line)
    } else {
        Seq::empty()
    };
    let failures = if is_failed_login(line) {
        seq![LoginEventView::FailedLogin { line }]
    } else {
        Seq::empty()
    };
    logins + failures
}

/// Tests whether `word` is one of `known`.
pub fn is_known(word: &String, known: &Vec<String>) -> (found: bool)
    ensures
        found == known.deep_view().contains(word@),
{
    let mut i: usize = 0;
    while i < known.len()
        invariant
            i <= known.len(),
            forall|k: int| 0 <= k < i ==> known.deep_view()[k] != word@,
        decreases known.len() - i,
    {
        if known[i] == *word {
            assert(known.deep_view()[i as int] == word@);
            return true;
        }
        i += 1;
    }
    false
}

/// Classifies one line of the log: the events that it reports, given the
/// addresses in `known_ips`, which never count as new.
pub fn classify(line: &str, known_ips: &Vec<String>) -> (events: Vec<LoginEvent>)
    ensures
        events.deep_view() == events_of(line@, known_ips.deep_view()),
{
    let ssh = contains(line, SSH_MARKER);
    let mut events: Vec<LoginEvent> = Vec::new();
    if ssh && contains(line, ACCEPTED_MARKER) {
        let tokens = words(line);
        let mut i: usize = 0;
        while i < tokens.len()
            invariant
                i <= tokens.len(),
                tokens.deep_view() == words_of(line@),
                events.deep_view() == new_logins(
                    tokens.deep_view().take(i as int),
                    known_ips.deep_view(),
                    line@,
                ),
            decreases tokens.len() - i,
        {
            assert(tokens.deep_view().take(i + 1).drop_last() =~= tokens.deep_view().take(
                i as int,
            ));
            match parse(tokens[i].as_str()) {
                Some(ip) => {
                    proof {
                        lemma_address_spelling(tokens[i as int]@);
                    }
                    if !ip.is_private() && !is_known(&tokens[i], known_ips) {
                        events.push(LoginEvent::NewLogin { ip, line: line.to_owned() });
                    }
                },
                None => {},
            }
            i += 1;
        }
        assert(tokens.deep_view().take(tokens.len() as int) =~= tokens.deep_view());
    }
    if ssh && contains(line, CLOSED_MARKER) {
        events.push(LoginEvent::FailedLogin { line: line.to_owned() });
    }
    events
}

/// Every login reported for `words` is a `NewLogin` that carries `line` and
/// the address that one of the words spells: an address that is not private
/// and whose text is not among `known`.
pub proof fn lemma_new_logins_are_unknown(
    words: Seq<Seq<char>>,
    known: Seq<Seq<char>>,
    line: Seq<char>,
    k: int,
)
    requires
        0 <= k < new_logins(words, known, line).len(),
    ensures
        exists|i: int|
            0 <= i < words.len() && unknown_address(#[trigger] words[i], known) is Some
                && new_logins(words, known, line)[k] == (LoginEventView::NewLogin {
                ip: unknown_address(words[i], known)->0,
                line,
            }),
    decreases words.len(),
{
    let rest = words.drop_last();
    let before = new_logins(rest, known, line);
    if k < before.len() {
        lemma_new_logins_are_unknown(rest, known, line, k);
        let i = choose|i: int|
            0 <= i < rest.len() && unknown_address(#[trigger] rest[i], known) is Some && before[k]
                == (LoginEventView::NewLogin { ip: unknown_address(rest[i], known)->0, line });
        assert(words[i] == rest[i]);
    } else {
        assert(words[words.len() - 1] == words.last());
    }
}

/// Words of which none spells an unknown address give no login: an address
/// that is private, or whose text is among `known`, is never reported.
pub proof fn lemma_private_and_known_are_silent(
    words: Seq<Seq<char>>,
    known: Seq<Seq<char>>,
    line: Seq<char>,
)
    requires
        forall|i: int|
            0 <= i < words.len() ==> unknown_address(#[trigger] words[i], known) is None,
    ensures
        new_logins(words, known, line) == Seq::<LoginEventView>::empty(),
    decreases words.len(),
{
    if words.len() > 0 {
        let rest = words.drop_last();
        assert forall|i: int| 0 <= i < rest.len() implies unknown_address(
            #[trigger] rest[i],
            known,
        ) is None by {
            assert(rest[i] == words[i]);
        }
        lemma_private_and_known_are_silent(rest, known, line);
    }
}

/// One word that spells an unknown address, among words that spell none,
/// gives exactly one login, which carries that address.
pub proof fn lemma_one_unknown_address_is_one_login(
    words: Seq<Seq<char>>,
    known: Seq<Seq<char>>,
    line: Seq<char>,
    at: int,
)
    requires
        0 <= at < words.len(),
        unknown_address(words[at], known) is Some,
        forall|i: int|
            0 <= i < words.len() && i != at ==> unknown_address(#[trigger] words[i], known)
                is None,
    ensures
        new_logins(words, known, line) == seq![
            LoginEventView::NewLogin { ip: unknown_address(words[at], known)->0, line },
        ],
    decreases words.len(),
{
    let rest = words.drop_last();
    if at == words.len() - 1 {
        assert forall|i: int| 0 <= i < rest.len() implies unknown_address(
            #[trigger] rest[i],
            known,
        ) is None by {
            assert(rest[i] == words[i]);
        }
        lemma_private_and_known_are_silent(rest, known, line);
    } else {
        assert forall|i: int| 0 <= i < rest.len() && i != at implies unknown_address(
            #[trigger] rest[i],
            known,
        ) is None by {
            assert(rest[i] == words[i]);
        }
        lemma_one_unknown_address_is_one_login(rest, known, line, at);
    }
}

/// A line that holds the mark of the SSH service and the mark of a
/// connection closed during authentication reports exactly one failed
/// login, whatever addresses it holds: the last of its events is the
/// `FailedLogin`, and all before it are `NewLogin`s.
pub proof fn lemma_failed_login_is_reported_once(line: Seq<char>, known: Seq<Seq<char>>)
    requires
        has_phrase(line, SSH_MARKER@),
        has_phrase(line, CLOSED_MARKER@),
    ensures
        events_of(line, known).len() >= 1,
        events_of(line, known).last() == (LoginEventView::FailedLogin { line }),
        forall|k: int|
            0 <= k < events_of(line, known).len() - 1 ==> (#[trigger] events_of(line, known)[k])
                is NewLogin,
{
    let words = words_of(line);
    assert forall|k: int| 0 <= k < events_of(line, known).len() - 1 implies (#[trigger] events_of(
        line,
        known,
    )[k]) is NewLogin by {
        lemma_new_logins_are_unknown(words, known, line, k);
    }
}

/// A line without the mark of the SSH service reports nothing.
pub proof fn lemma_other_services_are_silent(line: Seq<char>, known: Seq<Seq<char>>)
    requires
        !has_phrase(line, SSH_MARKER@),
    ensures
        events_of(line, known) == Seq::<LoginEventView>::empty(),
{
}

} // verus!
