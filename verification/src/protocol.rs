//! The packet model shared by both ends, and the rules a handshake must meet.

pub mod client;
pub mod server;

use regex::Regex;
use vstd::prelude::*;
use vstd::utf8::{encode_utf8, is_ascii_chars_encode_utf8};

verus! {

/// Anything that travels over a connection, tagged with the side that sent it.
#[derive(Clone, Debug, PartialEq, Eq)]
pub enum Packet {
    Client(client::Packet),
    Server(server::Packet),
}

/// The mathematical content of a [`Packet`].
pub enum PacketView {
    Client(client::PacketView),
    Server(server::PacketView),
}

impl View for Packet {
    type V = PacketView;

    open spec fn view(&self) -> PacketView {
        match self {
            Packet::Client(packet) => PacketView::Client(packet@),
            Packet::Server(packet) => PacketView::Server(packet@),
        }
    }
}

/// A character that a username may hold: an ASCII letter, an ASCII digit or
/// an underscore.
pub open spec fn is_username_char(c: char) -> bool {
    ||| 'a' <= c <= 'z'
    ||| 'A' <= c <= 'Z'
    ||| '0' <= c <= '9'
    ||| c == '_'
}

/// A username is 1 to 16 characters long and holds username characters only.
pub open spec fn valid_username(name: Seq<char>) -> bool {
    &&& 1 <= name.len() <= 16
    &&& forall|i: int| 0 <= i < name.len() ==> is_username_char(#[trigger] name[i])
}

/// Some character of `text` is not a username character.
pub open spec fn has_foreign_char(text: Seq<char>) -> bool {
    exists|i: int| 0 <= i < text.len() && !is_username_char(#[trigger] text[i])
}

/// The expression that finds a character no username may hold.
pub open spec fn foreign_char_pattern() -> Seq<char> {
    "[^a-zA-Z0-9_]"@
}

/// What the server answers to a packet of a client that has yet to be
/// admitted, when the server speaks `version`.
pub open spec fn client_verdict(version: Seq<char>, packet: client::PacketView) -> Result<
    (),
    server::PacketError,
> {
    match packet {
        client::PacketView::Handshake { version: theirs, username } => {
            if theirs != version {
                Err(server::PacketError::Version)
            } else if !valid_username(username) {
                Err(server::PacketError::Username)
            } else {
                Ok(())
            }
        },
        _ => Ok(()),
    }
}

/// What a client answers to a packet of the server, when the client speaks
/// `version`.
pub open spec fn server_verdict(version: Seq<char>, packet: server::PacketView) -> Result<
    (),
    client::PacketError,
> {
    match packet {
        server::PacketView::Handshake { version: theirs } => {
            if theirs != version {
                Err(client::PacketError::Version)
            } else {
                Ok(())
            }
        },
        _ => Ok(()),
    }
}

/// A text of username characters takes one byte for each of them.
proof fn lemma_username_is_ascii(name: Seq<char>)
    ensures
        (forall|i: int| 0 <= i < name.len() ==> is_username_char(#[trigger] name[i]))
            ==> encode_utf8(name).len() == name.len(),
{
    if forall|i: int| 0 <= i < name.len() ==> is_username_char(#[trigger] name[i]) {
        assert forall|i: int| 0 <= i < name.len() implies '\0' <= #[trigger] name[i]
            <= '\u{7f}' by {
            assert(is_username_char(name[i]));
        }
        is_ascii_chars_encode_utf8(name);
    }
}

/// A space or an ASCII punctuation mark other than the underscore.
pub open spec fn is_space_or_punctuation(c: char) -> bool {
    ||| c == ' '
    ||| '!' <= c <= '/'
    ||| ':' <= c <= '@'
    ||| '[' <= c <= '^'
    ||| c == '`'
    ||| '{' <= c <= '~'
}

/// The rule for usernames, spelled out: a name is valid exactly when it is
/// 1 to 16 characters long and holds no character from outside the letters,
/// digits and underscore. So the empty name, every name of 17 characters or
/// more, and every name that holds a space or a punctuation mark is invalid.
pub proof fn username_rule(name: Seq<char>)
    ensures
        valid_username(name) <==> 1 <= name.len() <= 16 && !has_foreign_char(name),
        name.len() == 0 ==> !valid_username(name),
        name.len() >= 17 ==> !valid_username(name),
        (exists|i: int| 0 <= i < name.len() && is_space_or_punctuation(#[trigger] name[i]))
            ==> !valid_username(name),
{
    if exists|i: int| 0 <= i < name.len() && is_space_or_punctuation(#[trigger] name[i]) {
        let i = choose|i: int| 0 <= i < name.len() && is_space_or_punctuation(#[trigger] name[i]);
        assert(!is_username_char(name[i]));
    }
}

/// A regular expression compiled by `regex::Regex::new`, that is, with the
/// crate's default flags. Only `compile` makes one, so that what is claimed
/// of matching is claimed of such expressions alone; nothing inside it is
/// visible here.
#[verifier::external_body]
pub struct Expression {
    compiled: Regex,
}

/// `regex::Error`: why a pattern did not compile. It is only passed on.
#[verifier::external_type_specification]
#[verifier::external_body]
pub struct ExRegexError(regex::Error);

/// The pattern that an expression was compiled from: what
/// `regex::Regex::as_str` returns for it.
pub uninterp spec fn regex_pattern(expression: Expression) -> Seq<char>;

/// Whether `regex::Regex::new` compiles `pattern`.
pub uninterp spec fn pattern_compiles(pattern: Seq<char>) -> bool;

/// `regex::Regex::new`: compiles `pattern` with the default flags. Whether
/// it succeeds depends on the pattern alone and is given a name, not a
/// value. The crate keeps the pattern it was given with the compiled
/// expression; this is what is claimed of a success.
#[verifier::external_body]
fn compile(pattern: &str) -> (compiled: Result<Expression, regex::Error>)
    ensures
        compiled is Ok <==> pattern_compiles(pattern@),
        compiled matches Ok(expression) ==> regex_pattern(expression) == pattern@,
{
    match Regex::new(pattern) {
        Ok(compiled) => Ok(Expression { compiled }),
        Err(error) => Err(error),
    }
}

/// `regex::Regex::is_match`: whether the expression matches anywhere in
/// `haystack`. The claim is made for one pattern only, a negated class of
/// three ranges and one character, compiled with the default flags: by the
/// crate's syntax such a class matches any one character outside them, so
/// the expression matches somewhere exactly when the haystack holds such a
/// character.
#[verifier::external_body]
fn is_match(expression: &Expression, haystack: &str) -> (found: bool)
    ensures
        regex_pattern(*expression) == foreign_char_pattern() ==> found == has_foreign_char(
            haystack@,
        ),
{
    expression.compiled.is_match(haystack)
}

/// Checks the handshake of either side against the version this build speaks.
pub struct PacketValidator {
    crate_version: String,
    username_regex: Expression,
}

impl PacketValidator {
    #[verifier::type_invariant]
    spec fn well_formed(self) -> bool {
        regex_pattern(self.username_regex) == foreign_char_pattern()
    }

    /// The protocol version that this validator accepts.
    pub closed spec fn version(self) -> Seq<char> {
        self.crate_version@
    }

    /// The protocol version that this validator accepts, as text to send.
    pub fn version_string(&self) -> (text: String)
        ensures
            text@ == self.version(),
    {
        self.crate_version.clone()
    }

    /// A validator for the protocol version `crate_version`.
    ///
    /// The expression for usernames is compiled on the way. A validator is
    /// returned exactly when that expression compiles, which does not depend
    /// on `crate_version`; otherwise the error of the compilation is.
    pub fn new(crate_version: &str) -> (made: Result<Self, regex::Error>)
        ensures
            made is Ok <==> pattern_compiles(foreign_char_pattern()),
            made matches Ok(validator) ==> validator.version() == crate_version@,
    {
        Self::with_expression(crate_version, compile("[^a-zA-Z0-9_]"))
    }

    /// A validator for `crate_version` around the outcome of compiling the
    /// expression for usernames: the validator if it compiled, else the
    /// error it gave.
    pub fn with_expression(crate_version: &str, compiled: Result<Expression, regex::Error>) -> (made:
        Result<Self, regex::Error>)
        requires
            compiled matches Ok(expression) ==> regex_pattern(expression) == foreign_char_pattern(),
        ensures
            match compiled {
                Ok(_) => made matches Ok(validator) && validator.version() == crate_version@,
                Err(error) => made matches Err(same) && same == error,
            },
    {
        match compiled {
            Ok(expression) => Ok(
                Self { crate_version: crate_version.to_owned(), username_regex: expression },
            ),
            Err(error) => Err(error),
        }
    }

    /// Whether `name` may be played under.
    pub fn check_username(&self, name: &str) -> (ok: bool)
        ensures
            ok == valid_username(name@),
    {
        proof {
            use_type_invariant(self);
            lemma_username_is_ascii(name@);
        }
        let length = name.as_bytes().len();
        if length < 1 || length > 16 {
            return false;
        }
        let found = is_match(&self.username_regex, name);
        proof {
            if !found {
                assert forall|i: int| 0 <= i < name@.len() implies is_username_char(
                    #[trigger] name@[i],
                ) by {
                    if !is_username_char(name@[i]) {
                        assert(has_foreign_char(name@));
                    }
                }
            }
        }
        !found
    }

    /// Judges a packet that a client sent before it was admitted.
    ///
    /// A handshake must carry this validator's version, else `Version`, and
    /// a valid username, else `Username`. Any other packet passes.
    pub fn check_client(&self, packet: &client::Packet) -> (verdict: Result<
        (),
        server::PacketError,
    >)
        ensures
            verdict == client_verdict(self.version(), packet@),
    {
        match packet {
            client::Packet::Handshake { version, username } => {
                if self.crate_version != *version {
                    Err(server::PacketError::Version)
                } else if !self.check_username(username.as_str()) {
                    Err(server::PacketError::Username)
                } else {
                    Ok(())
                }
            },
            _ => Ok(()),
        }
    }

    /// Judges a packet that the server sent before it admitted this client.
    ///
    /// A handshake must carry this validator's version, else `Version`. Any
    /// other packet passes.
    pub fn check_server(&self, packet: &server::Packet) -> (verdict: Result<
        (),
        client::PacketError,
    >)
        ensures
            verdict == server_verdict(self.version(), packet@),
    {
        match packet {
            server::Packet::Handshake { version } => {
                if self.crate_version != *version {
                    Err(client::PacketError::Version)
                } else {
                    Ok(())
                }
            },
            _ => Ok(()),
        }
    }
}

} // verus!
