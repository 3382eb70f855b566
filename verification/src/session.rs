//! Session identity: the token of the session cookie, the payload it seals,
//! and its validation.
//!
//! A token is the user's id, written in decimal and sealed under the server
//! secret: encrypted and authenticated, so that it tells its holder nothing
//! and cannot be made or altered without the secret. A token that does not
//! open, or whose payload is no user id, identifies nobody; that is no
//! failure.

use vstd::prelude::*;
use vstd::slice::slice_to_vec;
use vstd::std_specs::iter::IteratorSpec;
use vstd::string::StringExecFns;

verus! {

/// The value of a decimal digit, if `c` is one.
pub open spec fn digit_value(c: char) -> Option<nat> {
    if '0' <= c && c <= '9' {
        Some((c as nat - '0' as nat) as nat)
    } else {
        None
    }
}

/// The number that a run of decimal digits stands for, most significant
/// digit first; `None` where a character is no digit. The empty run stands
/// for 0.
pub open spec fn decimal_value(s: Seq<char>) -> Option<nat>
    decreases s.len(),
{
    if s.len() == 0 {
        Some(0)
    } else {
        match (decimal_value(s.drop_last()), digit_value(s.last())) {
            (Some(v), Some(d)) => Some(10 * v + d),
            _ => None,
        }
    }
}

/// The digits of a payload: what follows an optional leading `+`.
pub open spec fn payload_digits(s: Seq<char>) -> Seq<char> {
    if s.len() > 0 && s[0] == '+' {
        s.drop_first()
    } else {
        s
    }
}

/// The user id that a payload names: an optional `+`, then one or more
/// decimal digits whose value fits in 32 bits. Anything else names no user.
pub open spec fn payload_user_id(s: Seq<char>) -> Option<u32> {
    let digits = payload_digits(s);
    if digits.len() == 0 {
        None
    } else {
        match decimal_value(digits) {
            Some(v) => if v <= u32::MAX {
                Some(v as u32)
            } else {
                None
            },
            None => None,
        }
    }
}

/// A number only grows as digits are appended to it.
proof fn decimal_value_grows(s: Seq<char>, k: int)
    requires
        0 <= k <= s.len(),
        decimal_value(s) is Some,
    ensures
        decimal_value(s.take(k)) is Some,
        decimal_value(s.take(k))->Some_0 <= decimal_value(s)->Some_0,
    decreases s.len(),
{
    if k == s.len() {
        assert(s.take(k) =~= s);
    } else {
        assert(s.drop_last().take(k) =~= s.take(k));
        decimal_value_grows(s.drop_last(), k);
    }
}

/// Reads the user id that a payload names.
pub fn parse_user_id(payload: &str) -> (r: Option<u32>)
    ensures
        r == payload_user_id(payload@),
{
    let mut acc: u64 = 0;
    let mut at_start: bool = true;
    let mut any_digit: bool = false;
    let ghost mut start: int = 0;
    proof {
        assert(payload@.subrange(0, 0) =~= Seq::<char>::empty());
    }
    for c in it: payload.chars()
        invariant
            it.seq() == payload@,
            at_start == (it.index() == 0),
            0 <= start <= it.index(),
            start == 0 || start == 1,
            start == 1 ==> payload@[0] == '+',
            start == 0 && it.index() > 0 ==> payload@[0] != '+',
            any_digit == (it.index() > start),
            acc <= u32::MAX,
            decimal_value(payload@.subrange(start, it.index() as int)) == Some(acc as nat),
    {
        let ghost i = it.index() as int;
        let ghost digits = payload@.subrange(start, payload@.len() as int);
        proof {
            assert(c == payload@[i]);
            assert(payload_digits(payload@) =~= if i == 0 && c == '+' {
                payload@.subrange(1, payload@.len() as int)
            } else {
                digits
            });
            assert(digits.take(i + 1 - start) =~= payload@.subrange(start, i + 1));
            assert(payload@.subrange(start, i + 1).drop_last() =~= payload@.subrange(start, i));
        }
        if at_start && c == '+' {
            proof {
                start = 1;
                assert(payload@.subrange(1, 1) =~= Seq::<char>::empty());
            }
        } else if '0' <= c && c <= '9' {
            let d: u64 = (c as u32 - '0' as u32) as u64;
            let next: u64 = acc * 10 + d;
            if next > u32::MAX as u64 {
                proof {
                    if decimal_value(digits) is Some {
                        decimal_value_grows(digits, i + 1 - start);
                    }
                }
                return None;
            }
            acc = next;
            any_digit = true;
        } else {
            proof {
                if decimal_value(digits) is Some {
                    decimal_value_grows(digits, i + 1 - start);
                }
            }
            return None;
        }
        at_start = false;
    }
    proof {
        assert(payload_digits(payload@) =~= payload@.subrange(start, payload@.len() as int));
    }
    if any_digit {
        Some(acc as u32)
    } else {
        None
    }
}

/// The character of a decimal digit.
pub open spec fn digit_char(d: nat) -> char {
    if d == 0 {
        '0'
    } else if d == 1 {
        '1'
    } else if d == 2 {
        '2'
    } else if d == 3 {
        '3'
    } else if d == 4 {
        '4'
    } else if d == 5 {
        '5'
    } else if d == 6 {
        '6'
    } else if d == 7 {
        '7'
    } else if d == 8 {
        '8'
    } else {
        '9'
    }
}

/// The decimal digits of a number, most significant first, without leading zeros.
pub open spec fn decimal_digits(n: nat) -> Seq<char>
    decreases n,
{
    if n < 10 {
        seq![digit_char(n)]
    } else {
        decimal_digits(n / 10).push(digit_char(n % 10))
    }
}

/// The text of one decimal digit.
fn digit_text(d: u32) -> (r: &'static str)
    requires
        d < 10,
    ensures
        r@ == seq![digit_char(d as nat)],
{
    proof {
        reveal_strlit("0");
        reveal_strlit("1");
        reveal_strlit("2");
        reveal_strlit("3");
        reveal_strlit("4");
        reveal_strlit("5");
        reveal_strlit("6");
        reveal_strlit("7");
        reveal_strlit("8");
        reveal_strlit("9");
    }
    let r = if d == 0 {
        "0"
    } else if d == 1 {
        "1"
    } else if d == 2 {
        "2"
    } else if d == 3 {
        "3"
    } else if d == 4 {
        "4"
    } else if d == 5 {
        "5"
    } else if d == 6 {
        "6"
    } else if d == 7 {
        "7"
    } else if d == 8 {
        "8"
    } else {
        "9"
    };
    assert(r@ =~= seq![digit_char(d as nat)]);
    r
}

/// Writes a user id as a payload: its decimal digits.
pub fn render_user_id(user_id: u32) -> (r: String)
    ensures
        r@ == decimal_digits(user_id as nat),
    decreases user_id,
{
    if user_id < 10 {
        String::from_str(digit_text(user_id))
    } else {
        let r = render_user_id(user_id / 10).concat(digit_text(user_id % 10));
        assert(r@ =~= decimal_digits(user_id as nat));
        r
    }
}

/// The digits of a number stand for that number.
pub proof fn decimal_digits_value(n: nat)
    ensures
        decimal_digits(n).len() > 0,
        decimal_digits(n)[0] != '+',
        decimal_value(decimal_digits(n)) == Some(n),
    decreases n,
{
    if n < 10 {
        let s = seq![digit_char(n)];
        assert(s.drop_last() =~= Seq::<char>::empty());
        assert(decimal_value(s.drop_last()) == Some(0nat));
        assert(digit_value(s.last()) == Some(n));
    } else {
        decimal_digits_value(n / 10);
        let s = decimal_digits(n);
        assert(s.drop_last() =~= decimal_digits(n / 10));
        assert(digit_value(s.last()) == Some(n % 10));
    }
}

/// Reading the payload written for a user id gives that id back.
pub proof fn payload_round_trip(user_id: u32)
    ensures
        payload_user_id(decimal_digits(user_id as nat)) == Some(user_id),
{
    decimal_digits_value(user_id as nat);
}

/// The name of the session cookie. A token is sealed for this name and opens
/// under no other.
pub const COOKIE_NAME: &'static str = "user_id";

/// The least number of bytes in a server secret.
pub const SECRET_LEN: usize = 64;

/// What `cookie`'s private jar makes of the sealed value of a cookie with
/// this name under a key: the text that was sealed, or `None` where the
/// value does not authenticate under the key and the name.
pub uninterp spec fn unsealed(key: Seq<u8>, name: Seq<char>, sealed: Seq<char>) -> Option<Seq<char>>;

/// The view of an optional text.
pub open spec fn text_view(t: Option<String>) -> Option<Seq<char>> {
    match t {
        Some(s) => Some(s@),
        None => None,
    }
}

/// Calls `cookie::PrivateJar::add` on a fresh jar and reads the sealed value back.
///
/// The jar encrypts and authenticates the text under the key with a nonce
/// drawn at random, so two calls give different values; the crate documents
/// that a value sealed by a private jar always opens under the same key, to
/// the text that was sealed. `cookie::Key::from` panics on fewer than 64 bytes.
#[verifier::external_body]
fn seal(key: &[u8], name: &str, payload: &str) -> (sealed: String)
    requires
        key@.len() >= 64,
    ensures
        unsealed(key@, name@, sealed@) == Some(payload@),
{
    let mut jar = cookie::CookieJar::new();
    let plain = cookie::Cookie::new(name.to_owned(), payload.to_owned());
    jar.private_mut(&cookie::Key::from(key)).add(plain);
    jar.get(name).map_or(String::new(), |c| c.value().to_owned())
}

/// Calls `cookie::PrivateJar::decrypt`.
///
/// The jar decodes the value, authenticates and decrypts it under the key
/// and the cookie's name, and yields the text or nothing: a function of the
/// key, the name and the value alone. `cookie::Key::from` panics on fewer than 64 bytes.
#[verifier::external_body]
fn unseal(key: &[u8], name: &str, sealed: &str) -> (r: Option<String>)
    requires
        key@.len() >= 64,
    ensures
        text_view(r) == unsealed(key@, name@, sealed@),
{
    let jar = cookie::CookieJar::new();
    let sealed_cookie = cookie::Cookie::new(name.to_owned(), sealed.to_owned());
    jar.private(&cookie::Key::from(key)).decrypt(sealed_cookie).map(|c| c.value().to_owned())
}

/// The user that a token identifies under a key: the token must open under
/// the key, and what it holds must name a user id.
pub open spec fn token_user_id(key: Seq<u8>, token: Seq<char>) -> Option<u32> {
    match unsealed(key, COOKIE_NAME@, token) {
        Some(payload) => payload_user_id(payload),
        None => None,
    }
}

/// The identity that a request carries: none without a token, else what the token identifies.
pub open spec fn identity(key: Seq<u8>, token: Option<&str>) -> Option<u32> {
    match token {
        Some(t) => token_user_id(key, t@),
        None => None,
    }
}

/// What the holder of a token has to do with it.
#[derive(Debug, Clone, Copy, PartialEq, Eq, Structural)]
pub enum TokenOrder {
    /// Drop the token.
    Discard,
}

/// Issues and checks session tokens under the server secret. It keeps no
/// table of sessions: a token is valid by what it holds.
pub struct SessionGate {
    key: Vec<u8>,
}

impl SessionGate {
    #[verifier::type_invariant]
    spec fn inv(self) -> bool {
        self.key@.len() >= SECRET_LEN
    }

    /// The server secret of this gate.
    pub closed spec fn secret(&self) -> Seq<u8> {
        self.key@
    }

    /// A gate for this server secret, which must hold at least [`SECRET_LEN`] bytes.
    pub fn new(secret: &[u8]) -> (r: Option<SessionGate>)
        ensures
            r is Some <==> secret@.len() >= SECRET_LEN,
            r is Some ==> r->Some_0.secret() == secret@,
    {
        if secret.len() >= SECRET_LEN {
            Some(SessionGate { key: slice_to_vec(secret) })
        } else {
            None
        }
    }

    /// Issues a token for a user. Tokens for one user differ from call to
    /// call; each identifies the user under this gate's secret.
    pub fn issue(&self, user_id: u32) -> (token: String)
        ensures
            token_user_id(self.secret(), token@) == Some(user_id),
    {
        proof {
            use_type_invariant(self);
            payload_round_trip(user_id);
        }
        let payload = render_user_id(user_id);
        seal(self.key.as_slice(), COOKIE_NAME, payload.as_str())
    }

    /// The user that a request's token identifies. A request without a token,
    /// or with one that does not open under the secret or holds no user id,
    /// is anonymous: `None`.
    pub fn resolve(&self, token: Option<&str>) -> (r: Option<u32>)
        ensures
            r == identity(self.secret(), token),
    {
        proof {
            use_type_invariant(self);
        }
        match token {
            Some(t) => match unseal(self.key.as_slice(), COOKIE_NAME, t) {
                Some(payload) => parse_user_id(payload.as_str()),
                None => None,
            },
            None => None,
        }
    }

    /// Revokes a token. No table of tokens exists that one could be struck
    /// from: the holder has to drop it.
    pub fn revoke(&self) -> (r: TokenOrder)
        ensures
            r == TokenOrder::Discard,
    {
        TokenOrder::Discard
    }
}

} // verus!
