//! Bearer tokens: what a token is, when it verifies, and which token files are refused.
//!
//! - A token is configured text of at least [`MIN_TOKEN_LEN`] printable ASCII characters, or 256
//!   random bits in hexadecimal ([`Token::from_random`]).
//! - [`Token::verify`] walks the whole token whatever the candidate; an expired token never
//!   verifies.
//! - Only read-only requests may carry the token in the query.

use std::time::SystemTime;
use vstd::prelude::*;
use vstd::utf8::encode_utf8;

use crate::text::{decimal, first_chars, number, push_char, take_chars, trim, trimmed};

verus! {

/// Shortest configured token accepted.
pub const MIN_TOKEN_LEN: usize = 16;

/// Longest configured token accepted.
pub const MAX_TOKEN_LEN: usize = 256;

/// A point on the system clock.
#[verifier::external_type_specification]
#[verifier::external_body]
pub struct ExSystemTime(SystemTime);

/// `SystemTime::now`. Nothing is stated of the result: it is the clock's.
#[verifier::external_body]
pub(crate) fn clock() -> (r: SystemTime) {
    SystemTime::now()
}

/// The instant `now` is `t` or a later one.
pub uninterp spec fn at_or_past(now: SystemTime, t: SystemTime) -> bool;

/// `SystemTime`'s `>=`, the order of instants: an instant is at or past itself. That the order is
/// total is not stated.
#[verifier::external_body]
fn is_at_or_past(now: SystemTime, t: SystemTime) -> (r: bool)
    ensures
        r == at_or_past(now, t),
        now == t ==> r,
{
    now >= t
}

/// A token has expired at `now`: it has an expiry, and that instant has come. One without an expiry
/// never expires.
pub open spec fn expired_of(expiry: Option<SystemTime>, now: SystemTime) -> bool {
    expiry matches Some(t) && at_or_past(now, t)
}

/// An API token.
pub struct Token {
    value: String,
    expires: Option<SystemTime>,
}

/// The refusal of a configured token.
pub open spec fn token_refusal() -> Seq<char> {
    "token must be 16..=256 printable ASCII characters without spaces"@
}

/// Printable ASCII, no space.
pub open spec fn is_graphic(b: u8) -> bool {
    33 <= b <= 126
}

/// What a configured token may be: 16 to 256 bytes of printable ASCII without spaces.
pub open spec fn acceptable(value: Seq<char>) -> bool {
    let b = encode_utf8(value);
    MIN_TOKEN_LEN <= b.len() <= MAX_TOKEN_LEN && forall|i: int|
        0 <= i < b.len() ==> is_graphic(#[trigger] b[i])
}

/// The lower-case hexadecimal digit of a value below sixteen.
pub open spec fn hex_digit(n: int) -> char {
    if n < 10 {
        (48 + n) as char
    } else {
        (87 + n) as char
    }
}

/// Two hexadecimal digits for each byte.
pub open spec fn hex(bytes: Seq<u8>) -> Seq<char>
    decreases bytes.len(),
{
    if bytes.len() == 0 {
        Seq::empty()
    } else {
        hex(bytes.drop_last()).push(hex_digit(bytes.last() as int / 16)).push(
            hex_digit(bytes.last() as int % 16),
        )
    }
}

fn push_nibble(out: &mut String, n: u8)
    requires
        n < 16,
    ensures
        final(out)@ == old(out)@.push(hex_digit(n as int)),
{
    if n < 10 {
        push_char(out, (48 + n) as char);
    } else {
        push_char(out, (87 + n) as char);
    }
}

/// [`hex`].
pub fn to_hex(raw: &[u8]) -> (r: String)
    ensures
        r@ == hex(raw@),
        r@.len() == 2 * raw@.len(),
{
    let mut out = String::new();
    let mut i: usize = 0;
    assert(raw@.take(0) =~= Seq::empty());
    while i < raw.len()
        invariant
            i <= raw@.len(),
            out@ == hex(raw@.take(i as int)),
            out@.len() == 2 * i,
        decreases raw@.len() - i,
    {
        let b = raw[i];
        push_nibble(&mut out, b / 16);
        push_nibble(&mut out, b % 16);
        proof {
            assert(raw@.take(i + 1).drop_last() =~= raw@.take(i as int));
        }
        i += 1;
    }
    assert(raw@.take(raw@.len() as int) =~= raw@);
    out
}

impl Token {
    /// The token text.
    pub closed spec fn text(self) -> Seq<char> {
        self.value@
    }

    /// When the token stops being valid.
    pub closed spec fn expiry(self) -> Option<SystemTime> {
        self.expires
    }

    /// The token of 256 random bits, hex encoded.
    pub fn from_random(raw: &[u8; 32]) -> (r: Token)
        ensures
            r.text() == hex(raw@),
            r.text().len() == 64,
            r.expiry() is None,
    {
        Token { value: to_hex(raw.as_slice()), expires: None }
    }

    /// A configured token: [`MIN_TOKEN_LEN`] to [`MAX_TOKEN_LEN`] printable ASCII characters, no
    /// spaces.
    pub fn from_config(value: &str) -> (r: Result<Token, String>)
        ensures
            match r {
                Ok(t) => acceptable(value@) && t.text() == value@ && t.expiry() is None,
                Err(e) => !acceptable(value@) && e@ == token_refusal(),
            },
    {
        let b = value.as_bytes();
        let mut ok_chars = true;
        let mut i: usize = 0;
        while i < b.len()
            invariant
                b@ == encode_utf8(value@),
                i <= b@.len(),
                ok_chars == forall|k: int| 0 <= k < i ==> is_graphic(#[trigger] b@[k]),
            decreases b@.len() - i,
        {
            if !(33 <= b[i] && b[i] <= 126) {
                assert(!is_graphic(b@[i as int]));
                ok_chars = false;
            }
            i += 1;
        }
        if b.len() < MIN_TOKEN_LEN || b.len() > MAX_TOKEN_LEN || !ok_chars {
            return Err("token must be 16..=256 printable ASCII characters without spaces".to_owned());
        }
        Ok(Token { value: value.to_owned(), expires: None })
    }

    /// This token, no longer valid from `at` on.
    pub fn with_expiry(self, at: SystemTime) -> (r: Token)
        ensures
            r.text() == self.text(),
            r.expiry() == Some(at),
    {
        Token { value: self.value, expires: Some(at) }
    }

    /// When the token stops being valid, if ever.
    pub fn expires_at(&self) -> (r: Option<SystemTime>)
        ensures
            r == self.expiry(),
    {
        self.expires
    }

    /// [`expired_of`]: at its very expiry a token has expired.
    pub fn expired_at(&self, now: SystemTime) -> (r: bool)
        ensures
            r == expired_of(self.expiry(), now),
            self.expiry() == Some(now) ==> r,
    {
        match self.expires {
            Some(t) => is_at_or_past(now, t),
            None => false,
        }
    }

    /// The token has expired, at the clock's reading.
    pub fn is_expired(&self) -> (r: bool)
        ensures
            exists|now: SystemTime| r == #[trigger] expired_of(self.expiry(), now),
    {
        self.expired_at(clock())
    }

    /// The token text (to print the connect URL once at start).
    pub fn expose(&self) -> (r: &str)
        ensures
            r@ == self.text(),
    {
        self.value.as_str()
    }

    /// A copy of the token.
    pub fn copy(&self) -> (r: Token)
        ensures
            r.text() == self.text(),
            r.expiry() == self.expiry(),
    {
        Token { value: self.value.clone(), expires: self.expires }
    }

    /// What a log may show of a token: nothing.
    pub fn redacted(&self) -> (r: String)
        ensures
            r@ == "Token(<redacted>)"@,
    {
        "Token(<redacted>)".to_owned()
    }

    /// A non-secret fingerprint for audit logs: `tok-` and the first twelve digits of the
    /// hexadecimal SHA-256 of the token text, which is `digest`.
    pub fn id(&self, digest: &str) -> (r: String)
        ensures
            r@ == "tok-"@ + first_chars(digest@, 12),
    {
        let head = take_chars(digest, 12);
        String::from_str("tok-").concat(head.as_str())
    }

    /// Whether `candidate` is the token text and the token is not `expired`. Every byte of the
    /// token is compared, whatever the candidate's length.
    pub fn accepts(&self, candidate: &str, expired: bool) -> (r: bool)
        ensures
            r == accepted(self.text(), candidate@, expired),
    {
        let a = self.value.as_str().as_bytes();
        let b = candidate.as_bytes();
        let mut diff: usize = a.len() ^ b.len();
        let (la, lb): (usize, usize) = (a.len(), b.len());
        assert((la ^ lb == 0) <==> la == lb) by (bit_vector);
        let mut i: usize = 0;
        while i < a.len()
            invariant
                la == a@.len(),
                lb == b@.len(),
                i <= a@.len(),
                diff == 0 <==> (la == lb && forall|k: int| 0 <= k < i ==> a@[k] == b@[k]),
            decreases a@.len() - i,
        {
            let x: u8 = a[i];
            let y: u8 = if i < b.len() {
                b[i]
            } else {
                0
            };
            let d: u8 = x ^ y;
            assert((x ^ y == 0) <==> x == y) by (bit_vector);
            let e: usize = d as usize;
            let was: usize = diff;
            assert((was | e == 0) <==> (was == 0 && e == 0)) by (bit_vector);
            diff = diff | e;
            i += 1;
        }
        proof {
            if diff == 0 {
                assert(a@ =~= b@);
                vstd::utf8::encode_utf8_decode_utf8(self.value@);
                vstd::utf8::encode_utf8_decode_utf8(candidate@);
            }
        }
        diff == 0 && !expired
    }

    /// Whether `candidate` equals the token and the token has not expired at `now`.
    pub fn verify_at(&self, candidate: &str, now: SystemTime) -> (r: bool)
        ensures
            r == accepted(self.text(), candidate@, expired_of(self.expiry(), now)),
            self.expiry() == Some(now) ==> !r,
    {
        let expired = self.expired_at(now);
        self.accepts(candidate, expired)
    }

    /// Whether `candidate` equals the token and the token has not expired, at the clock's reading.
    pub fn verify(&self, candidate: &str) -> (r: bool)
        ensures
            exists|now: SystemTime|
                r == accepted(
                    self.text(),
                    candidate@,
                    #[trigger] expired_of(self.expiry(), now),
                ),
    {
        self.verify_at(candidate, clock())
    }
}

/// A candidate is accepted: it is the token text, and the token has not expired.
pub open spec fn accepted(token: Seq<char>, candidate: Seq<char>, expired: bool) -> bool {
    candidate == token && !expired
}

/// A token verifies against its own text and nothing else, neither a prefix nor an extension of
/// it; once expired, against nothing.
pub proof fn tokens_verify_their_text_only(token: Seq<char>, candidate: Seq<char>)
    ensures
        accepted(token, token, false),
        accepted(token, candidate, false) ==> candidate == token,
        candidate.len() != token.len() ==> !accepted(token, candidate, false),
        !accepted(token, candidate, true),
{
}

// ---------------------------------------------------------------------------------------------
// The token file
// ---------------------------------------------------------------------------------------------

/// The kinds of refusal of a token file.
#[derive(Clone, Copy, Debug, PartialEq, Eq, Structural)]
pub enum FileErrorKind {
    /// Not the sort of file a token may live in.
    InvalidInput,
    /// Accessible by, or owned by, someone else.
    PermissionDenied,
    /// The text in it is no token.
    InvalidData,
}

/// Why a token file is refused.
#[derive(Debug)]
pub struct FileRefusal {
    /// The kind.
    pub kind: FileErrorKind,
    /// The reason in words.
    pub message: String,
}

/// `n` in octal.
pub open spec fn octal_text(n: nat) -> Seq<char>
    decreases n,
{
    if n < 8 {
        seq![crate::text::digit(n)]
    } else {
        octal_text(n / 8).push(crate::text::digit(n % 8))
    }
}

/// [`octal_text`].
pub fn octal(n: u32) -> (r: String)
    ensures
        r@ == octal_text(n as nat),
    decreases n,
{
    let mut out = if n < 8 {
        String::new()
    } else {
        octal(n / 8)
    };
    let d: u8 = (n % 8) as u8;
    push_char(&mut out, (48 + d) as char);
    proof {
        if n < 8 {
            assert(out@ =~= seq![crate::text::digit(n as nat)]);
        }
    }
    out
}

/// What the token file's own checks say, of the opened descriptor: a regular file, owned by the
/// effective user, not accessible by group or others.
pub open spec fn file_refusal(
    path: Seq<char>,
    regular: bool,
    uid: u32,
    mode: u32,
    euid: u32,
) -> Option<(FileErrorKind, Seq<char>)> {
    if !regular {
        Some(
            (
                FileErrorKind::InvalidInput,
                "token file "@ + path + " is not a regular file"@,
            ),
        )
    } else if uid != euid {
        Some(
            (
                FileErrorKind::PermissionDenied,
                "token file "@ + path + " is owned by uid "@ + decimal(uid as nat)
                    + ", not the current user (uid "@ + decimal(euid as nat) + ")"@,
            ),
        )
    } else if mode & 0o077 != 0 {
        Some(
            (
                FileErrorKind::PermissionDenied,
                "token file "@ + path + " is accessible by group or others (mode "@ + octal_text(
                    (mode & 0o777) as nat,
                ) + "); run chmod 600 on it"@,
            ),
        )
    } else {
        None
    }
}

/// A refusal's kind and words.
pub open spec fn refusal_view(r: Result<(), FileRefusal>) -> Option<(FileErrorKind, Seq<char>)> {
    match r {
        Ok(_) => None,
        Err(f) => Some((f.kind, f.message@)),
    }
}

/// [`file_refusal`].
pub fn check_file(path: &str, regular: bool, uid: u32, mode: u32, euid: u32) -> (r: Result<
    (),
    FileRefusal,
>)
    ensures
        refusal_view(r) == file_refusal(path@, regular, uid, mode, euid),
{
    if !regular {
        let message = String::from_str("token file ").concat(path).concat(
            " is not a regular file",
        );
        return Err(FileRefusal { kind: FileErrorKind::InvalidInput, message });
    }
    if uid != euid {
        let (a, b) = (number(uid as u64), number(euid as u64));
        let message = String::from_str("token file ").concat(path).concat(
            " is owned by uid ",
        ).concat(a.as_str()).concat(", not the current user (uid ").concat(b.as_str()).concat(")");
        return Err(FileRefusal { kind: FileErrorKind::PermissionDenied, message });
    }
    if mode & 0o077 != 0 {
        let m = octal(mode & 0o777);
        let message = String::from_str("token file ").concat(path).concat(
            " is accessible by group or others (mode ",
        ).concat(m.as_str()).concat("); run chmod 600 on it");
        return Err(FileRefusal { kind: FileErrorKind::PermissionDenied, message });
    }
    Ok(())
}

/// What the directory of a token file is refused for: being writable by group or others, so that
/// someone else could swap the file.
pub open spec fn parent_refusal(dir: Seq<char>, mode: u32) -> Option<(FileErrorKind, Seq<char>)> {
    if mode & 0o022 != 0 {
        Some(
            (
                FileErrorKind::PermissionDenied,
                "token directory "@ + dir + " is writable by group or others (mode "@ + octal_text(
                    (mode & 0o777) as nat,
                ) + "); run chmod 700 on it"@,
            ),
        )
    } else {
        None
    }
}

/// [`parent_refusal`].
pub fn check_parent(dir: &str, mode: u32) -> (r: Result<(), FileRefusal>)
    ensures
        refusal_view(r) == parent_refusal(dir@, mode),
{
    if mode & 0o022 != 0 {
        let m = octal(mode & 0o777);
        let message = String::from_str("token directory ").concat(dir).concat(
            " is writable by group or others (mode ",
        ).concat(m.as_str()).concat("); run chmod 700 on it");
        return Err(FileRefusal { kind: FileErrorKind::PermissionDenied, message });
    }
    Ok(())
}

/// The token that a token file's text holds, white space around it aside.
pub fn from_file_text(path: &str, content: &str) -> (r: Result<Token, FileRefusal>)
    ensures
        match r {
            Ok(t) => acceptable(trimmed(content@)) && t.text() == trimmed(content@)
                && t.expiry() is None,
            Err(f) => !acceptable(trimmed(content@)) && f.kind == FileErrorKind::InvalidData
                && f.message@ == "token file "@ + path@ + ": "@ + token_refusal(),
        },
{
    match Token::from_config(trim(content)) {
        Ok(t) => Ok(t),
        Err(e) => {
            let message = String::from_str("token file ").concat(path).concat(": ").concat(
                e.as_str(),
            );
            Err(FileRefusal { kind: FileErrorKind::InvalidData, message })
        },
    }
}

/// `base` with `name` below it.
pub open spec fn joined(base: Seq<char>, name: Seq<char>) -> Seq<char> {
    if base.len() > 0 && base[base.len() - 1] != '/' {
        base + "/"@ + name
    } else {
        base + name
    }
}

/// [`joined`].
fn join(base: &str, name: &str) -> (r: String)
    ensures
        r@ == joined(base@, name@),
{
    let n = base.unicode_len();
    if n > 0 && base.get_char(n - 1) != '/' {
        String::from_str(base).concat("/").concat(name)
    } else {
        String::from_str(base).concat(name)
    }
}

/// Where the token file lives, from the values of `HK_TOKEN_FILE`, `XDG_CONFIG_HOME` and `HOME`,
/// an empty value counting as none.
pub open spec fn token_path_of(
    explicit: Option<Seq<char>>,
    config_home: Option<Seq<char>>,
    home: Option<Seq<char>>,
) -> Option<Seq<char>> {
    match (given(explicit), given(config_home), given(home)) {
        (Some(p), _, _) => Some(p),
        (None, Some(c), _) => Some(joined(joined(c, "hackriff"@), "api-token"@)),
        (None, None, Some(h)) => Some(
            joined(joined(joined(h, ".config"@), "hackriff"@), "api-token"@),
        ),
        (None, None, None) => None,
    }
}

/// A value that is set and not empty.
pub open spec fn given(v: Option<Seq<char>>) -> Option<Seq<char>> {
    match v {
        Some(s) if s.len() > 0 => Some(s),
        _ => None,
    }
}

fn is_given(v: Option<&str>) -> (r: bool)
    ensures
        r == given(crate::text::opt_text(v)) is Some,
{
    match v {
        Some(s) => !s.is_empty(),
        None => false,
    }
}

/// [`token_path_of`].
pub fn token_path(explicit: Option<&str>, config_home: Option<&str>, home: Option<&str>) -> (r:
    Option<String>)
    ensures
        crate::text::opt_string(r) == token_path_of(
            crate::text::opt_text(explicit),
            crate::text::opt_text(config_home),
            crate::text::opt_text(home),
        ),
{
    if is_given(explicit) {
        if let Some(p) = explicit {
            return Some(p.to_owned());
        }
    }
    let config = if is_given(config_home) {
        match config_home {
            Some(c) => c.to_owned(),
            None => return None,
        }
    } else if is_given(home) {
        match home {
            Some(h) => join(h, ".config"),
            None => return None,
        }
    } else {
        return None;
    };
    let dir = join(config.as_str(), "hackriff");
    Some(join(dir.as_str(), "api-token"))
}

/// A token is acceptable from sixteen up to two hundred and fifty-six bytes, all of them characters
/// that can be seen.
pub proof fn tokens_are_long_enough_and_can_be_seen(value: Seq<char>, i: int)
    ensures
        acceptable(value) ==> 16 <= encode_utf8(value).len() <= 256,
        acceptable(value) && 0 <= i < encode_utf8(value).len() ==> 32 < encode_utf8(value)[i] < 127,
        16 <= encode_utf8(value).len() <= 256 && (forall|k: int|
            0 <= k < encode_utf8(value).len() ==> 32 < #[trigger] encode_utf8(value)[k] < 127)
            ==> acceptable(value),
{
}

/// What a digit of a number in base sixteen is worth.
pub open spec fn hex_worth(c: char) -> int {
    if '0' <= c && c <= '9' {
        c as int - 48
    } else {
        c as int - 87
    }
}

/// A byte is written in two digits that are worth it, the high one first, and the bytes in their
/// order.
pub proof fn bytes_are_written_in_two_digits(b: Seq<u8>)
    ensures
        hex(b).len() == 2 * b.len(),
        forall|i: int|
            0 <= i < b.len() ==> 16 * hex_worth(hex(b)[2 * i]) + hex_worth(hex(b)[2 * i + 1])
                == #[trigger] b[i],
        forall|i: int|
            0 <= i < hex(b).len() ==> '0' <= #[trigger] hex(b)[i] <= '9' || 'a' <= hex(b)[i] <= 'f',
    decreases b.len(),
{
    if b.len() > 0 {
        let t = b.drop_last();
        bytes_are_written_in_two_digits(t);
        let n = b.last() as int;
        assert(hex_worth(hex_digit(n / 16)) == n / 16);
        assert(hex_worth(hex_digit(n % 16)) == n % 16);
        assert forall|i: int| 0 <= i < b.len() implies 16 * hex_worth(hex(b)[2 * i]) + hex_worth(
            hex(b)[2 * i + 1],
        ) == #[trigger] b[i] by {
            if i < t.len() {
                assert(b[i] == t[i]);
                assert(hex(b)[2 * i] == hex(t)[2 * i]);
                assert(hex(b)[2 * i + 1] == hex(t)[2 * i + 1]);
            }
        }
        assert forall|i: int| 0 <= i < hex(b).len() implies '0' <= #[trigger] hex(b)[i] <= '9' || 'a'
            <= hex(b)[i] <= 'f' by {
            if i < hex(t).len() {
                assert(hex(b)[i] == hex(t)[i]);
            }
        }
    }
}

/// What digits of a number in base eight are worth.
pub open spec fn octal_worth(s: Seq<char>) -> nat
    decreases s.len(),
{
    if s.len() == 0 {
        0
    } else {
        8 * octal_worth(s.drop_last()) + (s.last() as u32 - '0' as u32) as nat
    }
}

/// A mode is written in octal digits that are worth it.
pub proof fn modes_are_written_in_octal(n: nat)
    ensures
        octal_worth(octal_text(n)) == n,
        forall|i: int| 0 <= i < octal_text(n).len() ==> '0' <= #[trigger] octal_text(n)[i] <= '7',
    decreases n,
{
    if n < 8 {
        let s = octal_text(n);
        assert(s.drop_last() =~= Seq::<char>::empty());
        assert(octal_worth(Seq::<char>::empty()) == 0);
    } else {
        modes_are_written_in_octal(n / 8);
        let h = octal_text(n / 8);
        let s = octal_text(n);
        assert(s.drop_last() =~= h);
        assert forall|i: int| 0 <= i < s.len() implies '0' <= #[trigger] s[i] <= '7' by {
            if i < h.len() {
                assert(s[i] == h[i]);
            }
        }
    }
}

/// A token is read from a regular file of this user that neither its group nor anyone else may read,
/// write or run, in a directory that neither may write to; from no other.
pub proof fn token_files_are_private(
    path: Seq<char>,
    regular: bool,
    uid: u32,
    mode: u32,
    euid: u32,
)
    ensures
        file_refusal(path, regular, uid, mode, euid) is None <==> regular && uid == euid && mode
            & 0o070 == 0 && mode & 0o007 == 0,
        file_refusal(path, false, uid, mode, euid) matches Some((k, _)) && k
            == FileErrorKind::InvalidInput,
        regular ==> (file_refusal(path, regular, uid, mode, euid) matches Some((k, _)) ==> k
            == FileErrorKind::PermissionDenied),
        parent_refusal(path, mode) is None <==> mode & 0o020 == 0 && mode & 0o002 == 0,
        parent_refusal(path, mode) matches Some((k, _)) ==> k == FileErrorKind::PermissionDenied,
{
    assert(mode & 0o077 == 0 <==> mode & 0o070 == 0 && mode & 0o007 == 0) by (bit_vector);
    assert(mode & 0o022 == 0 <==> mode & 0o020 == 0 && mode & 0o002 == 0) by (bit_vector);
}

/// Where the token is kept: at the path that was given, else in the directory of settings, else in
/// that of the user's home; nowhere where none of these is known.
pub proof fn a_token_is_kept_where_it_is_looked_for(
    explicit: Option<Seq<char>>,
    p: Seq<char>,
    config: Option<Seq<char>>,
    home: Option<Seq<char>>,
)
    requires
        p.len() > 0,
        p.last() != '/',
    ensures
        token_path_of(Some(p), config, home) == Some(p),
        token_path_of(Some(Seq::empty()), config, home) == token_path_of(None, config, home),
        token_path_of(None, Some(Seq::empty()), home) == token_path_of(None, None, home),
        token_path_of(None, Some(p), home) == Some(p + "/"@ + "hackriff"@ + "/"@ + "api-token"@),
        token_path_of(None, None, Some(p)) == Some(
            p + "/"@ + ".config"@ + "/"@ + "hackriff"@ + "/"@ + "api-token"@,
        ),
        token_path_of(None, None, None) is None,
        joined(p.push('/'), "api-token"@) == p + "/"@ + "api-token"@,
{
    reveal_strlit("/");
    reveal_strlit("hackriff");
    reveal_strlit(".config");
    let a = joined(p, "hackriff"@);
    assert(a[a.len() - 1] == "hackriff"@[7]);
    let b = joined(p, ".config"@);
    assert(b[b.len() - 1] == ".config"@[6]);
    let c = joined(b, "hackriff"@);
    assert(c[c.len() - 1] == "hackriff"@[7]);
    assert(p.push('/') =~= p + "/"@);
}

/// A token without an end never expires.
pub proof fn tokens_without_an_end_last(now: SystemTime)
    ensures
        !expired_of(None, now),
{
}

} // verus!
