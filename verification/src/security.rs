//! Input validation, token comparison and hashing, allowed-origin checks and
//! rate-limiter settings for the gateway.
//!
//! Lengths are counted in UTF-8 bytes, as `str::len` counts them.

use vstd::prelude::*;
use vstd::utf8::encode_utf8;
use sha2::Digest;
use crate::text::{
    is_ws, is_whitespace, chars_of, trim_ws, ascii_lower, all_ws, string_from_chars, push_char,
    str_equal, split_on, string_views, split_char, to_owned_string,
};
use crate::rate_limit::{FixedWindowRateLimiter, LimiterView, RateEntry};
use crate::relay_session::PeerAddr;

verus! {

/// Length in UTF-8 bytes of the string with characters `s`.
pub open spec fn byte_len(s: Seq<char>) -> nat {
    encode_utf8(s).len()
}

/// ASCII digit.
pub open spec fn is_digit(c: char) -> bool {
    '0' <= c && c <= '9'
}

/// ASCII letter or digit.
pub open spec fn is_alnum(c: char) -> bool {
    is_digit(c) || ('a' <= c && c <= 'z') || ('A' <= c && c <= 'Z')
}

/// ASCII hexadecimal digit, in either case.
pub open spec fn is_hex_digit(c: char) -> bool {
    is_digit(c) || ('a' <= c && c <= 'f') || ('A' <= c && c <= 'F')
}

/// Characters allowed in user names and session tokens.
pub open spec fn is_token_char(c: char) -> bool {
    is_alnum(c) || c == '_' || c == '-' || c == '.'
}

/// Unicode control characters (general category `Cc`).
pub open spec fn is_control(c: char) -> bool {
    (c as u32) <= 0x1f || (0x7f <= (c as u32) && (c as u32) <= 0x9f)
}

/// Whether every character of `s` is in the class `p`.
pub open spec fn all_chars(s: Seq<char>, p: spec_fn(char) -> bool) -> bool {
    forall|i: int| 0 <= i < s.len() ==> p(#[trigger] s[i])
}

/// The part after the `@` of an e-mail address is acceptable: it holds a dot
/// and neither starts nor ends with one.
pub open spec fn valid_domain(d: Seq<char>) -> bool {
    d.contains('.') && d[0] != '.' && d.last() != '.'
}

/// `s` holds exactly one `@`, at position `p`.
pub open spec fn sole_at(s: Seq<char>, p: int) -> bool {
    &&& 0 <= p < s.len()
    &&& s[p] == '@'
    &&& forall|q: int| 0 <= q < s.len() && q != p ==> s[q] != '@'
}

/// Accepted e-mail address: at most 254 bytes, no white space, exactly one
/// `@` with a non-empty part before it and a valid domain after it.
pub open spec fn valid_email(s: Seq<char>) -> bool {
    &&& byte_len(s) <= 254
    &&& forall|i: int| 0 <= i < s.len() ==> !is_ws(#[trigger] s[i])
    &&& exists|p: int| #[trigger] sole_at(s, p) && p > 0 && valid_domain(s.subrange(p + 1, s.len() as int))
}

/// Accepted user name: 3 to 32 bytes of letters, digits, `_`, `-` or `.`.
pub open spec fn valid_username(s: Seq<char>) -> bool {
    3 <= byte_len(s) <= 32 && all_chars(s, |c: char| is_token_char(c))
}

/// Accepted display name: 1 to 64 bytes once trimmed, no control characters.
pub open spec fn valid_display_name(s: Seq<char>) -> bool {
    1 <= byte_len(crate::text::trim_ws(s)) <= 64 && all_chars(s, |c: char| !is_control(c))
}

/// Accepted password: 12 to 128 bytes.
pub open spec fn valid_password(s: Seq<char>) -> bool {
    12 <= byte_len(s) <= 128
}

/// Accepted public key: 64 to 128 hexadecimal digits.
pub open spec fn valid_public_key_hex(s: Seq<char>) -> bool {
    64 <= byte_len(s) <= 128 && all_chars(s, |c: char| is_hex_digit(c))
}

/// Accepted TOTP code: six ASCII digits.
pub open spec fn valid_totp_code(s: Seq<char>) -> bool {
    byte_len(s) == 6 && all_chars(s, |c: char| is_digit(c))
}

/// Accepted session token: 32 to 256 bytes of letters, digits, `_`, `-` or `.`.
pub open spec fn valid_session_token(s: Seq<char>) -> bool {
    32 <= byte_len(s) <= 256 && all_chars(s, |c: char| is_token_char(c))
}

fn is_digit_char(c: char) -> (b: bool)
    ensures
        b == is_digit(c),
{
    '0' <= c && c <= '9'
}

fn is_alnum_char(c: char) -> (b: bool)
    ensures
        b == is_alnum(c),
{
    is_digit_char(c) || ('a' <= c && c <= 'z') || ('A' <= c && c <= 'Z')
}

fn is_hex_char(c: char) -> (b: bool)
    ensures
        b == is_hex_digit(c),
{
    is_digit_char(c) || ('a' <= c && c <= 'f') || ('A' <= c && c <= 'F')
}

fn is_token_character(c: char) -> (b: bool)
    ensures
        b == is_token_char(c),
{
    is_alnum_char(c) || c == '_' || c == '-' || c == '.'
}

fn is_control_char(c: char) -> (b: bool)
    ensures
        b == is_control(c),
{
    let u: u32 = c as u32;
    u <= 0x1f || (0x7f <= u && u <= 0x9f)
}

/// Whether every character of `s` may stand in a user name or token.
fn all_token_chars(s: &str) -> (b: bool)
    ensures
        b == all_chars(s@, |c: char| is_token_char(c)),
{
    let mut ok = true;
    for c in it: s.chars()
        invariant
            it.seq() == s@,
            ok == (forall|j: int| 0 <= j < it.index() ==> is_token_char(#[trigger] s@[j])),
    {
        if !is_token_character(c) {
            ok = false;
        }
    }
    ok
}

/// Whether every character of `s` is a hexadecimal digit.
fn all_hex_chars(s: &str) -> (b: bool)
    ensures
        b == all_chars(s@, |c: char| is_hex_digit(c)),
{
    let mut ok = true;
    for c in it: s.chars()
        invariant
            it.seq() == s@,
            ok == (forall|j: int| 0 <= j < it.index() ==> is_hex_digit(#[trigger] s@[j])),
    {
        if !is_hex_char(c) {
            ok = false;
        }
    }
    ok
}

/// Whether every character of `s` is an ASCII digit.
fn all_digit_chars(s: &str) -> (b: bool)
    ensures
        b == all_chars(s@, |c: char| is_digit(c)),
{
    let mut ok = true;
    for c in it: s.chars()
        invariant
            it.seq() == s@,
            ok == (forall|j: int| 0 <= j < it.index() ==> is_digit(#[trigger] s@[j])),
    {
        if !is_digit_char(c) {
            ok = false;
        }
    }
    ok
}

/// Whether `s` holds no control character.
fn no_control_chars(s: &str) -> (b: bool)
    ensures
        b == all_chars(s@, |c: char| !is_control(c)),
{
    let mut ok = true;
    for c in it: s.chars()
        invariant
            it.seq() == s@,
            ok == (forall|j: int| 0 <= j < it.index() ==> !is_control(#[trigger] s@[j])),
    {
        if is_control_char(c) {
            ok = false;
        }
    }
    ok
}

/// Whether `email` is an acceptable e-mail address.
pub fn is_valid_email(email: &str) -> (b: bool)
    ensures
        b == valid_email(email@),
{
    if email.as_bytes().len() > 254 {
        return false;
    }
    let v = chars_of(email);
    let n = v.len();
    let mut at_count: usize = 0;
    let mut at_pos: usize = 0;
    let mut i: usize = 0;
    while i < n
        invariant
            n == v.len(),
            v@ == email@,
            i <= n,
            at_count <= i,
            forall|j: int| 0 <= j < i ==> !is_ws(#[trigger] v@[j]),
            at_count == 0 ==> forall|j: int| 0 <= j < i ==> #[trigger] v@[j] != '@',
            at_count == 1 ==> at_pos < i && v@[at_pos as int] == '@' && forall|j: int|
                0 <= j < i && j != at_pos ==> #[trigger] v@[j] != '@',
            at_count >= 2 ==> exists|a: int, c: int|
                0 <= a < c < i && #[trigger] v@[a] == '@' && #[trigger] v@[c] == '@',
        decreases n - i,
    {
        let c = v[i];
        if is_whitespace(c) {
            proof {
                assert(!valid_email(email@)) by {
                    assert(!is_ws(email@[i as int]) == false);
                }
            }
            return false;
        }
        if c == '@' {
            if at_count == 0 {
                at_pos = i;
            } else if at_count == 1 {
                proof {
                    assert(v@[at_pos as int] == '@' && v@[i as int] == '@');
                }
            }
            if at_count < 2 {
                at_count = at_count + 1;
            }
        }
        i = i + 1;
    }
    if at_count != 1 {
        proof {
            if at_count == 0 {
                assert forall|p: int| !#[trigger] sole_at(email@, p) by {
                    if 0 <= p < email@.len() {
                        assert(v@[p] != '@');
                    }
                }
            } else {
                let (a, c) = choose|a: int, c: int|
                    0 <= a < c < n && #[trigger] v@[a] == '@' && #[trigger] v@[c] == '@';
                assert forall|p: int| !#[trigger] sole_at(email@, p) by {
                    if sole_at(email@, p) {
                        if p == a {
                            assert(email@[c] != '@');
                        } else {
                            assert(email@[a] != '@');
                        }
                    }
                }
            }
        }
        return false;
    }
    proof {
        assert(sole_at(email@, at_pos as int));
        assert forall|p: int| #[trigger] sole_at(email@, p) implies p == at_pos by {
            if p != at_pos {
                assert(email@[p] != '@');
            }
        }
    }
    if at_pos == 0 {
        return false;
    }
    let dlo = at_pos + 1;
    let ghost d = email@.subrange(dlo as int, n as int);
    let mut has_dot = false;
    let mut k: usize = dlo;
    while k < n
        invariant
            n == v.len(),
            v@ == email@,
            dlo <= k <= n,
            d == email@.subrange(dlo as int, n as int),
            has_dot == (exists|j: int| dlo <= j < k && #[trigger] v@[j] == '.'),
        decreases n - k,
    {
        if v[k] == '.' {
            has_dot = true;
        }
        k = k + 1;
    }
    proof {
        if has_dot {
            let j = choose|j: int| dlo <= j < n && #[trigger] v@[j] == '.';
            assert(d[j - dlo] == '.');
        }
        if d.contains('.') {
            let j = choose|j: int| 0 <= j < d.len() && d[j] == '.';
            assert(v@[dlo + j] == '.');
        }
    }
    if !has_dot {
        return false;
    }
    proof {
        assert(d[0] == v@[dlo as int]);
        assert(d.last() == v@[n - 1]);
    }
    v[dlo] != '.' && v[n - 1] != '.'
}

/// Whether `username` is an acceptable user name.
pub fn is_valid_username(username: &str) -> (b: bool)
    ensures
        b == valid_username(username@),
{
    let len = username.as_bytes().len();
    if !(3 <= len && len <= 32) {
        return false;
    }
    all_token_chars(username)
}

/// Whether `display_name` is an acceptable display name.
pub fn is_valid_display_name(display_name: &str) -> (b: bool)
    ensures
        b == valid_display_name(display_name@),
{
    let trimmed = crate::text::trim(display_name);
    let len = trimmed.as_str().as_bytes().len();
    (1 <= len && len <= 64) && no_control_chars(display_name)
}

/// Whether `password` has an acceptable length.
pub fn is_valid_password(password: &str) -> (b: bool)
    ensures
        b == valid_password(password@),
{
    let len = password.as_bytes().len();
    12 <= len && len <= 128
}

/// Whether `key` is an acceptable hexadecimal public key.
pub fn is_valid_public_key_hex(key: &str) -> (b: bool)
    ensures
        b == valid_public_key_hex(key@),
{
    let len = key.as_bytes().len();
    (64 <= len && len <= 128) && all_hex_chars(key)
}

/// Whether `code` is a six-digit TOTP code.
pub fn is_valid_totp_code(code: &str) -> (b: bool)
    ensures
        b == valid_totp_code(code@),
{
    code.as_bytes().len() == 6 && all_digit_chars(code)
}

/// Whether `token` is an acceptable session token.
pub fn is_valid_session_token(token: &str) -> (b: bool)
    ensures
        b == valid_session_token(token@),
{
    let len = token.as_bytes().len();
    (32 <= len && len <= 256) && all_token_chars(token)
}

proof fn lemma_or_xor_zero(d: u8, x: u8, y: u8)
    ensures
        (d | (x ^ y)) == 0 <==> (d == 0 && x == y),
{
    assert((d | (x ^ y)) == 0 <==> (d == 0 && x == y)) by (bit_vector);
}

/// Compares two strings in time that depends only on their lengths.
pub fn constant_time_eq(a: &str, b: &str) -> (r: bool)
    ensures
        r == (a@ == b@),
{
    let a_bytes = a.as_bytes();
    let b_bytes = b.as_bytes();
    proof {
        vstd::utf8::encode_utf8_decode_utf8(a@);
        vstd::utf8::encode_utf8_decode_utf8(b@);
    }
    if a_bytes.len() != b_bytes.len() {
        return false;
    }
    let mut diff: u8 = 0;
    let mut i: usize = 0;
    while i < a_bytes.len()
        invariant
            a_bytes@.len() == b_bytes@.len(),
            i <= a_bytes@.len(),
            diff == 0 <==> forall|j: int| 0 <= j < i ==> a_bytes@[j] == b_bytes@[j],
        decreases a_bytes@.len() - i,
    {
        proof {
            lemma_or_xor_zero(diff, a_bytes@[i as int], b_bytes@[i as int]);
        }
        diff = diff | (a_bytes[i] ^ b_bytes[i]);
        i = i + 1;
    }
    proof {
        if diff == 0 {
            assert(a_bytes@ =~= b_bytes@);
        }
    }
    diff == 0
}

/// `s` without its trailing `/` characters.
pub open spec fn strip_trailing_slashes(s: Seq<char>) -> Seq<char>
    decreases s.len(),
{
    if s.len() > 0 && s.last() == '/' {
        strip_trailing_slashes(s.drop_last())
    } else {
        s
    }
}

/// An origin as it is compared: trimmed, without trailing `/`, ASCII lower case.
pub open spec fn normalized_origin(s: Seq<char>) -> Seq<char> {
    ascii_lower(strip_trailing_slashes(trim_ws(s)))
}

proof fn lemma_strip_slashes_at(s: Seq<char>, k: int)
    requires
        0 <= k <= s.len(),
        forall|j: int| k <= j < s.len() ==> #[trigger] s[j] == '/',
        k == 0 || s[k - 1] != '/',
    ensures
        strip_trailing_slashes(s) == s.subrange(0, k),
    decreases s.len() - k,
{
    if k == s.len() {
        assert(s.subrange(0, k) =~= s);
    } else {
        let t = s.drop_last();
        assert forall|j: int| k <= j < t.len() implies #[trigger] t[j] == '/' by {
            assert(t[j] == s[j]);
        }
        if k > 0 {
            assert(t[k - 1] == s[k - 1]);
        }
        lemma_strip_slashes_at(t, k);
        assert(t.subrange(0, k) =~= s.subrange(0, k));
    }
}

/// `origin` trimmed, without trailing `/`, in ASCII lower case.
pub fn normalize_origin(origin: &str) -> (r: String)
    ensures
        r@ == normalized_origin(origin@),
{
    let trimmed = crate::text::trim(origin);
    let v = chars_of(trimmed.as_str());
    let mut hi: usize = v.len();
    while hi > 0 && v[hi - 1] == '/'
        invariant
            hi <= v.len(),
            forall|j: int| hi <= j < v.len() ==> #[trigger] v@[j] == '/',
        decreases hi,
    {
        hi = hi - 1;
    }
    proof {
        lemma_strip_slashes_at(v@, hi as int);
    }
    let stripped = string_from_chars(&v, 0, hi);
    crate::text::to_ascii_lower(stripped.as_str())
}

/// The origins allowed when none are configured.
pub open spec fn default_origin_literals() -> Seq<Seq<char>> {
    seq![
        "http://localhost:1420"@,
        "http://127.0.0.1:1420"@,
        "http://localhost:3000"@,
        "http://127.0.0.1:3000"@,
        "tauri://localhost"@,
    ]
}

/// The default allowed origins, normalized.
pub open spec fn default_origin_set() -> Set<Seq<char>> {
    Set::new(
        |o: Seq<char>|
            exists|i: int|
                0 <= i < default_origin_literals().len() && o == normalized_origin(
                    #[trigger] default_origin_literals()[i],
                ),
    )
}

/// The non-empty normalized origins of a comma-separated list.
pub open spec fn configured_origin_set(c: Seq<char>) -> Set<Seq<char>> {
    Set::new(
        |o: Seq<char>|
            o.len() > 0 && exists|i: int|
                0 <= i < split_on(c, ',').len() && o == normalized_origin(
                    #[trigger] split_on(c, ',')[i],
                ),
    )
}

/// The allowed origins for the configured list `c`: its non-empty normalized
/// entries, or the defaults when it is blank or yields none.
pub open spec fn allowed_origins_for(c: Seq<char>) -> Set<Seq<char>> {
    if all_ws(c) || !(exists|o: Seq<char>| configured_origin_set(c).contains(o)) {
        default_origin_set()
    } else {
        configured_origin_set(c)
    }
}

/// A set of allowed browser origins, each stored once.
pub struct AllowedOrigins {
    origins: Vec<String>,
}

impl View for AllowedOrigins {
    type V = Set<Seq<char>>;

    closed spec fn view(&self) -> Set<Seq<char>> {
        Set::new(
            |o: Seq<char>|
                exists|i: int| 0 <= i < self.origins@.len() && #[trigger] self.origins@[i]@ == o,
        )
    }
}

impl AllowedOrigins {
    /// The empty set.
    pub fn new() -> (r: Self)
        ensures
            r@ == Set::<Seq<char>>::empty(),
    {
        let r = AllowedOrigins { origins: Vec::new() };
        proof {
            assert(r@ =~= Set::<Seq<char>>::empty());
        }
        r
    }

    /// Whether `origin` is in the set, compared exactly.
    pub fn contains(&self, origin: &str) -> (b: bool)
        ensures
            b == self@.contains(origin@),
    {
        let mut i: usize = 0;
        while i < self.origins.len()
            invariant
                i <= self.origins@.len(),
                forall|j: int| 0 <= j < i ==> #[trigger] self.origins@[j]@ != origin@,
            decreases self.origins@.len() - i,
        {
            if str_equal(self.origins[i].as_str(), origin) {
                proof {
                    assert(self@.contains(origin@));
                }
                return true;
            }
            i = i + 1;
        }
        false
    }

    /// Adds `origin` to the set.
    pub fn insert(&mut self, origin: String)
        ensures
            final(self)@ == old(self)@.insert(origin@),
    {
        if !self.contains(origin.as_str()) {
            let ghost old_origins = self.origins@;
            self.origins.push(origin);
            proof {
                assert forall|o: Seq<char>| #[trigger] self@.contains(o) <==> old(self)@.insert(
                    origin@,
                ).contains(o) by {
                    if self@.contains(o) {
                        let i = choose|i: int|
                            0 <= i < self.origins@.len() && #[trigger] self.origins@[i]@ == o;
                        if i < old_origins.len() {
                            assert(old_origins[i]@ == o);
                        }
                    }
                    if old(self)@.contains(o) {
                        let i = choose|i: int|
                            0 <= i < old_origins.len() && #[trigger] old_origins[i]@ == o;
                        assert(self.origins@[i]@ == o);
                    }
                    if o == origin@ {
                        assert(self.origins@[old_origins.len() as int]@ == o);
                    }
                }
                assert(self@ =~= old(self)@.insert(origin@));
            }
        } else {
            proof {
                assert(old(self)@.insert(origin@) =~= old(self)@);
            }
        }
    }

    /// The origins in the set, each once.
    pub fn to_vec(&self) -> (r: Vec<String>)
        ensures
            forall|o: Seq<char>|
                self@.contains(o) <==> exists|i: int| 0 <= i < r@.len() && #[trigger] r@[i]@ == o,
    {
        let mut r: Vec<String> = Vec::new();
        let mut i: usize = 0;
        while i < self.origins.len()
            invariant
                i <= self.origins@.len(),
                r@.len() == i,
                forall|j: int| 0 <= j < i ==> #[trigger] r@[j]@ == self.origins@[j]@,
            decreases self.origins@.len() - i,
        {
            r.push(self.origins[i].clone());
            i = i + 1;
        }
        proof {
            assert forall|o: Seq<char>|
                self@.contains(o) <==> exists|i: int| 0 <= i < r@.len() && #[trigger] r@[i]@ == o by {
                if self@.contains(o) {
                    let i = choose|i: int|
                        0 <= i < self.origins@.len() && #[trigger] self.origins@[i]@ == o;
                    assert(r@[i]@ == o);
                }
                if exists|i: int| 0 <= i < r@.len() && #[trigger] r@[i]@ == o {
                    let i = choose|i: int| 0 <= i < r@.len() && #[trigger] r@[i]@ == o;
                    assert(self.origins@[i]@ == o);
                }
            }
        }
        r
    }
}

/// The default allowed origins.
pub fn default_allowed_origins() -> (r: AllowedOrigins)
    ensures
        r@ == default_origin_set(),
{
    let mut r = AllowedOrigins::new();
    r.insert(normalize_origin("http://localhost:1420"));
    r.insert(normalize_origin("http://127.0.0.1:1420"));
    r.insert(normalize_origin("http://localhost:3000"));
    r.insert(normalize_origin("http://127.0.0.1:3000"));
    r.insert(normalize_origin("tauri://localhost"));
    proof {
        let d = default_origin_literals();
        assert forall|o: Seq<char>| #[trigger] r@.contains(o) <==> default_origin_set().contains(o) by {
            if r@.contains(o) {
                if o == normalized_origin(d[0]) {
                } else if o == normalized_origin(d[1]) {
                } else if o == normalized_origin(d[2]) {
                } else if o == normalized_origin(d[3]) {
                } else {
                    assert(o == normalized_origin(d[4]));
                }
            }
            if default_origin_set().contains(o) {
                let i = choose|i: int| 0 <= i < d.len() && o == normalized_origin(#[trigger] d[i]);
                assert(0 <= i < 5);
            }
        }
        assert(r@ =~= default_origin_set());
    }
    r
}

/// The allowed origins for the configured comma-separated list `configured`
/// (empty when nothing is configured).
pub fn load_allowed_origins(configured: &str) -> (r: AllowedOrigins)
    ensures
        r@ == allowed_origins_for(configured@),
{
    if crate::text::trims_to_empty(configured) {
        return default_allowed_origins();
    }
    let pieces = split_char(configured, ',');
    let ghost ps = split_on(configured@, ',');
    let mut set = AllowedOrigins::new();
    let mut i: usize = 0;
    while i < pieces.len()
        invariant
            i <= pieces@.len(),
            string_views(pieces@) == ps,
            ps == split_on(configured@, ','),
            forall|o: Seq<char>|
                #[trigger] set@.contains(o) <==> (o.len() > 0 && exists|j: int|
                    0 <= j < i && o == normalized_origin(#[trigger] ps[j])),
        decreases pieces@.len() - i,
    {
        let normalized = normalize_origin(pieces[i].as_str());
        proof {
            assert(pieces@[i as int]@ == ps[i as int]);
        }
        let ghost before = set@;
        if !normalized.as_str().is_empty() {
            set.insert(normalized);
        }
        proof {
            assert forall|o: Seq<char>|
                #[trigger] set@.contains(o) <==> (o.len() > 0 && exists|j: int|
                    0 <= j < i + 1 && o == normalized_origin(#[trigger] ps[j])) by {
                if o.len() > 0 && exists|j: int|
                    0 <= j < i + 1 && o == normalized_origin(#[trigger] ps[j]) {
                    let j = choose|j: int| 0 <= j < i + 1 && o == normalized_origin(#[trigger] ps[j]);
                    if j < i {
                        assert(before.contains(o));
                    }
                }
            }
        }
        i = i + 1;
    }
    proof {
        assert(set@ =~= configured_origin_set(configured@));
    }
    let any = set.origins.len() > 0;
    proof {
        if any {
            assert(set@.contains(set.origins@[0]@));
        } else {
            assert forall|o: Seq<char>| !configured_origin_set(configured@).contains(o) by {
                if set@.contains(o) {
                    let j = choose|j: int| 0 <= j < set.origins@.len() && #[trigger] set.origins@[j]@ == o;
                }
            }
        }
    }
    if !any {
        return default_allowed_origins();
    }
    set
}

/// Whether a WebSocket upgrade from `origin` is accepted, given whether an
/// origin is required, whether a missing one is tolerated anyway, and the
/// allowed origins.
pub fn ws_origin_allowed(
    origin: Option<&str>,
    require_origin: bool,
    allow_missing: bool,
    allowed: &AllowedOrigins,
) -> (b: bool)
    ensures
        b == match origin {
            None => !require_origin || allow_missing,
            Some(o) => allowed@.contains(normalized_origin(o@)),
        },
{
    match origin {
        None => !require_origin || allow_missing,
        Some(o) => {
            let normalized = normalize_origin(o);
            allowed.contains(normalized.as_str())
        },
    }
}

/// Whether a setting's text, trimmed and in lower case, reads as "on".
pub open spec fn is_truthy(s: Seq<char>) -> bool {
    s == seq!['1'] || s == seq!['t', 'r', 'u', 'e'] || s == seq!['y', 'e', 's'] || s == seq![
        'o',
        'n',
    ]
}

/// The character sequence of an optional string.
pub open spec fn opt_chars(value: Option<&str>) -> Option<Seq<char>> {
    match value {
        Some(v) => Some(v@),
        None => None,
    }
}

/// A boolean setting: its default when absent, else whether it reads as
/// `1`, `true`, `yes` or `on` (trimmed, in any ASCII case).
pub open spec fn flag_setting(value: Option<Seq<char>>, default: bool) -> bool {
    match value {
        Some(v) => is_truthy(ascii_lower(trim_ws(v))),
        None => default,
    }
}

/// The boolean setting with text `value` (absent when unset).
pub fn setting_flag(value: Option<&str>, default: bool) -> (b: bool)
    ensures
        b == flag_setting(opt_chars(value), default),
{
    match value {
        None => default,
        Some(v) => {
            let trimmed = crate::text::trim(v);
            let lower = crate::text::to_ascii_lower(trimmed.as_str());
            let l = lower.as_str();
            proof {
                reveal_strlit("1");
                reveal_strlit("true");
                reveal_strlit("yes");
                reveal_strlit("on");
            }
            let r = str_equal(l, "1") || str_equal(l, "true") || str_equal(l, "yes") || str_equal(
                l,
                "on",
            );
            proof {
                assert(lower@ == ascii_lower(trim_ws(v@)));
                assert("1"@ =~= seq!['1']);
                assert("true"@ =~= seq!['t', 'r', 'u', 'e']);
                assert("yes"@ =~= seq!['y', 'e', 's']);
                assert("on"@ =~= seq!['o', 'n']);
            }
            r
        },
    }
}

/// Whether any browser origin is accepted, from the setting's text.
pub fn cors_allow_any(value: Option<&str>) -> (b: bool)
    ensures
        b == flag_setting(opt_chars(value), false),
{
    setting_flag(value, false)
}

/// Whether `addr` is a loopback address: in 127.0.0.0/8 for IPv4, `::1` for
/// IPv6.
pub open spec fn loopback_addr(addr: PeerAddr) -> bool {
    if addr.ipv6 {
        addr.ip == 1
    } else {
        addr.ip / 0x100_0000 == 127
    }
}

/// Whether `addr` is a loopback address.
pub fn is_loopback(addr: &PeerAddr) -> (b: bool)
    ensures
        b == loopback_addr(*addr),
{
    if addr.ipv6 {
        addr.ip == 1
    } else {
        addr.ip / 0x100_0000 == 127
    }
}

/// Whether the gateway may listen on `addr`: a loopback address always, any
/// other only when the setting `allow_public_bind` reads as true.
pub fn check_public_bind_allowed(addr: &PeerAddr, allow_public_bind: Option<&str>) -> (r: Result<
    (),
    String,
>)
    ensures
        r is Ok <==> loopback_addr(*addr) || flag_setting(opt_chars(allow_public_bind), false),
        (r matches Err(m) ==> m@ == "refusing non-loopback bind without WAVRY_ALLOW_PUBLIC_BIND=1"@),
{
    if is_loopback(addr) {
        return Ok(());
    }
    if setting_flag(allow_public_bind, false) {
        return Ok(());
    }
    Err(to_owned_string("refusing non-loopback bind without WAVRY_ALLOW_PUBLIC_BIND=1"))
}

/// The number written by the ASCII digits `s`.
pub open spec fn digits_value(s: Seq<char>) -> int
    decreases s.len(),
{
    if s.len() == 0 {
        0
    } else {
        digits_value(s.drop_last()) * 10 + ((s.last() as u32) - ('0' as u32))
    }
}

/// `s` without one leading `+`.
pub open spec fn unsigned_body(s: Seq<char>) -> Seq<char> {
    if s.len() > 0 && s[0] == '+' {
        s.drop_first()
    } else {
        s
    }
}

/// What std's unsigned integer parsing gives for `s` with the type's maximum
/// `max`: an optional `+`, then at least one ASCII digit, and a value that fits.
pub open spec fn parse_unsigned(s: Seq<char>, max: int) -> Option<int> {
    let body = unsigned_body(s);
    if body.len() > 0 && all_chars(body, |c: char| is_digit(c)) && digits_value(body) <= max {
        Some(digits_value(body))
    } else {
        None
    }
}

proof fn lemma_digits_value_prefix(t: Seq<char>, k: int)
    requires
        0 <= k <= t.len(),
        all_chars(t, |c: char| is_digit(c)),
    ensures
        0 <= digits_value(t.subrange(0, k)) <= digits_value(t),
    decreases t.len(),
{
    if k == t.len() {
        assert(t.subrange(0, k) =~= t);
        if t.len() > 0 {
            lemma_digits_value_prefix(t.drop_last(), 0);
            assert(t.drop_last().subrange(0, 0) =~= t.subrange(0, 0));
        }
    } else {
        let d = t.drop_last();
        assert(all_chars(d, |c: char| is_digit(c))) by {
            assert forall|i: int| 0 <= i < d.len() implies is_digit(#[trigger] d[i]) by {
                assert(d[i] == t[i]);
            }
        }
        lemma_digits_value_prefix(d, k);
        lemma_digits_value_prefix(d, d.len() as int);
        assert(d.subrange(0, k) =~= t.subrange(0, k));
        assert(d.subrange(0, d.len() as int) =~= d);
    }
}

/// Parses `s` as an unsigned decimal number no larger than `max`.
pub fn parse_unsigned_setting(s: &str, max: u64) -> (r: Option<u64>)
    ensures
        match r {
            Some(n) => parse_unsigned(s@, max as int) == Some(n as int),
            None => parse_unsigned(s@, max as int) is None,
        },
{
    let v = chars_of(s);
    let n = v.len();
    let start: usize = if n > 0 && v[0] == '+' {
        1
    } else {
        0
    };
    let ghost body = unsigned_body(s@);
    proof {
        assert(body =~= v@.subrange(start as int, n as int));
    }
    if start == n {
        return None;
    }
    let mut acc: u64 = 0;
    let mut i: usize = start;
    while i < n
        invariant
            n == v.len(),
            v@ == s@,
            start <= i <= n,
            body == v@.subrange(start as int, n as int),
            body == unsigned_body(s@),
            forall|j: int| start <= j < i ==> is_digit(#[trigger] v@[j]),
            acc == digits_value(v@.subrange(start as int, i as int)),
        decreases n - i,
    {
        let c = v[i];
        if !is_digit_char(c) {
            proof {
                assert(body[i - start] == c);
                assert(!is_digit(body[i - start]));
                assert(!all_chars(body, |c: char| is_digit(c)));
            }
            return None;
        }
        let d: u32 = (c as u32) - ('0' as u32);
        proof {
            let p = v@.subrange(start as int, i + 1);
            assert(p.drop_last() =~= v@.subrange(start as int, i as int));
            assert(p.last() == c);
        }
        let next = match acc.checked_mul(10) {
            Some(m) => m.checked_add(d as u64),
            None => None,
        };
        match next {
            Some(x) => {
                acc = x;
            },
            None => {
                proof {
                    let p = v@.subrange(start as int, i + 1);
                    assert(digits_value(p) == acc * 10 + d);
                    assert(acc * 10 + d > u64::MAX);
                    if all_chars(body, |c: char| is_digit(c)) {
                        lemma_digits_value_prefix(body, i + 1 - start);
                        assert(body.subrange(0, i + 1 - start) =~= v@.subrange(
                            start as int,
                            i + 1,
                        ));
                    }
                }
                return None;
            },
        }
        i = i + 1;
    }
    proof {
        assert(v@.subrange(start as int, n as int) == body);
        assert(all_chars(body, |c: char| is_digit(c))) by {
            assert forall|j: int| 0 <= j < body.len() implies is_digit(#[trigger] body[j]) by {
                assert(body[j] == v@[start + j]);
            }
        }
    }
    if acc <= max {
        Some(acc)
    } else {
        None
    }
}

/// A numeric setting: the parsed value when present and valid, else the default.
pub open spec fn number_setting(value: Option<Seq<char>>, max: int, default: int) -> int {
    match value {
        Some(v) => match parse_unsigned(v, max) {
            Some(n) => n,
            None => default,
        },
        None => default,
    }
}

/// The `u32` setting with text `value`, or `default` when absent or invalid.
pub fn setting_u32(value: Option<&str>, default: u32) -> (r: u32)
    ensures
        r == number_setting(opt_chars(value), u32::MAX as int, default as int),
{
    match value {
        None => default,
        Some(v) => match parse_unsigned_setting(v, u32::MAX as u64) {
            Some(n) => n as u32,
            None => default,
        },
    }
}

/// The `u64` setting with text `value`, or `default` when absent or invalid.
pub fn setting_u64(value: Option<&str>, default: u64) -> (r: u64)
    ensures
        r == number_setting(opt_chars(value), u64::MAX as int, default as int),
{
    match value {
        None => default,
        Some(v) => match parse_unsigned_setting(v, u64::MAX) {
            Some(n) => n,
            None => default,
        },
    }
}

/// The `usize` setting with text `value`, or `default` when absent or invalid.
pub fn setting_usize(value: Option<&str>, default: usize) -> (r: usize)
    ensures
        r == number_setting(opt_chars(value), usize::MAX as int, default as int),
{
    match value {
        None => default,
        Some(v) => match parse_unsigned_setting(v, usize::MAX as u64) {
            Some(n) => n as usize,
            None => default,
        },
    }
}

/// Nanoseconds in a second.
pub const NANOS_PER_SEC: u64 = 1_000_000_000;

/// The limiter configured by the three settings' texts, with their defaults:
/// requests per window, window length in seconds (at least one), and the
/// number of keys tracked before stale ones are evicted.
pub open spec fn limiter_settings(
    rate: Option<Seq<char>>,
    window_secs: Option<Seq<char>>,
    max_keys: Option<Seq<char>>,
    default_rate: u32,
    default_window_secs: u32,
    default_max_keys: usize,
) -> LimiterView {
    let secs = number_setting(window_secs, u32::MAX as int, default_window_secs as int);
    LimiterView {
        max_requests: number_setting(rate, u32::MAX as int, default_rate as int) as u32,
        window: ((if secs >= 1 {
            secs
        } else {
            1
        }) * NANOS_PER_SEC) as u64,
        max_keys: number_setting(max_keys, usize::MAX as int, default_max_keys as int) as usize,
        entries: Map::empty(),
    }
}

/// A limiter configured from the settings' texts and their defaults.
pub fn limiter_from_settings(
    rate: Option<&str>,
    window_secs: Option<&str>,
    max_keys: Option<&str>,
    default_rate: u32,
    default_window_secs: u32,
    default_max_keys: usize,
) -> (l: FixedWindowRateLimiter)
    ensures
        l.wf(),
        l@ == limiter_settings(
            opt_chars(rate),
            opt_chars(window_secs),
            opt_chars(max_keys),
            default_rate,
            default_window_secs,
            default_max_keys,
        ),
{
    let requests = setting_u32(rate, default_rate);
    let secs = setting_u32(window_secs, default_window_secs);
    let secs = if secs >= 1 {
        secs
    } else {
        1
    };
    let keys = setting_usize(max_keys, default_max_keys);
    proof {
        assert((secs as u64) * NANOS_PER_SEC <= u64::MAX) by (nonlinear_arith)
            requires
                secs <= u32::MAX,
                NANOS_PER_SEC == 1_000_000_000,
        ;
    }
    FixedWindowRateLimiter::new(requests, (secs as u64) * NANOS_PER_SEC, keys)
}

/// The limiter for sign-in requests: 20 per 60 s per key, 10 000 keys, unless
/// the settings say otherwise.
pub fn auth_rate_limiter(rate: Option<&str>, window_secs: Option<&str>, max_keys: Option<&str>) -> (l:
    FixedWindowRateLimiter)
    ensures
        l.wf(),
        l@ == limiter_settings(
            opt_chars(rate),
            opt_chars(window_secs),
            opt_chars(max_keys),
            20,
            60,
            10_000,
        ),
{
    limiter_from_settings(rate, window_secs, max_keys, 20, 60, 10_000)
}

/// The limiter for WebRTC signalling: 120 per 60 s per key, 50 000 keys,
/// unless the settings say otherwise.
pub fn webrtc_rate_limiter(
    rate: Option<&str>,
    window_secs: Option<&str>,
    max_keys: Option<&str>,
) -> (l: FixedWindowRateLimiter)
    ensures
        l.wf(),
        l@ == limiter_settings(
            opt_chars(rate),
            opt_chars(window_secs),
            opt_chars(max_keys),
            120,
            60,
            50_000,
        ),
{
    limiter_from_settings(rate, window_secs, max_keys, 120, 60, 50_000)
}

/// The limiter for WebSocket binds: 10 per 60 s per key, 50 000 keys, unless
/// the settings say otherwise.
pub fn ws_bind_rate_limiter(
    rate: Option<&str>,
    window_secs: Option<&str>,
    max_keys: Option<&str>,
) -> (l: FixedWindowRateLimiter)
    ensures
        l.wf(),
        l@ == limiter_settings(
            opt_chars(rate),
            opt_chars(window_secs),
            opt_chars(max_keys),
            10,
            60,
            50_000,
        ),
{
    limiter_from_settings(rate, window_secs, max_keys, 10, 60, 50_000)
}

/// Counts a sign-in request for `key` at `now` on the sign-in limiter.
pub fn allow_auth_request(limiter: &mut FixedWindowRateLimiter, key: &str, now: u64) -> (b: bool)
    requires
        old(limiter).wf(),
    ensures
        final(limiter).wf(),
        (final(limiter)@, b) == old(limiter)@.allow_outcome(key@, now),
{
    limiter.allow(key, now)
}

/// Counts a WebRTC signalling request for `key` at `now`.
pub fn allow_webrtc_request(limiter: &mut FixedWindowRateLimiter, key: &str, now: u64) -> (b: bool)
    requires
        old(limiter).wf(),
    ensures
        final(limiter).wf(),
        (final(limiter)@, b) == old(limiter)@.allow_outcome(key@, now),
{
    limiter.allow(key, now)
}

/// Counts a WebSocket bind request for `key` at `now`.
pub fn allow_ws_bind_request(limiter: &mut FixedWindowRateLimiter, key: &str, now: u64) -> (b:
    bool)
    requires
        old(limiter).wf(),
    ensures
        final(limiter).wf(),
        (final(limiter)@, b) == old(limiter)@.allow_outcome(key@, now),
{
    limiter.allow(key, now)
}

/// The lower-case hexadecimal digit for `n` in `0..16`.
pub open spec fn hex_digit_char(n: int) -> char {
    if n < 10 {
        (('0' as int) + n) as char
    } else {
        (('a' as int) + n - 10) as char
    }
}

/// Lower-case hexadecimal text of `bytes`, two digits per byte, high first.
pub open spec fn hex_lower(bytes: Seq<u8>) -> Seq<char>
    decreases bytes.len(),
{
    if bytes.len() == 0 {
        Seq::empty()
    } else {
        hex_lower(bytes.drop_last()) + seq![
            hex_digit_char(bytes.last() as int / 16),
            hex_digit_char(bytes.last() as int % 16),
        ]
    }
}

proof fn lemma_hex_lower_len(bytes: Seq<u8>)
    ensures
        hex_lower(bytes).len() == 2 * bytes.len(),
    decreases bytes.len(),
{
    if bytes.len() > 0 {
        lemma_hex_lower_len(bytes.drop_last());
    }
}

/// The SHA-256 digest of a byte sequence.
pub uninterp spec fn sha256_digest(data: Seq<u8>) -> Seq<u8>;

/// SHA-256 digest of `data`, by sha2's `Sha256::digest`.
///
/// Trusted: claims the result is `sha256_digest` of the input bytes and is
/// 32 bytes long, the digest's fixed output size.
#[verifier::external_body]
fn sha256(data: &[u8]) -> (r: Vec<u8>)
    ensures
        r@ == sha256_digest(data@),
        r@.len() == 32,
{
    sha2::Sha256::digest(data).to_vec()
}

/// Lower-case hexadecimal text of `data`, by hex's `encode`.
///
/// Trusted: claims hex's encoding writes each byte as two lower-case digits,
/// high nibble first, in order.
#[verifier::external_body]
pub(crate) fn hex_encode(data: &[u8]) -> (r: String)
    ensures
        r@ == hex_lower(data@),
{
    hex::encode(data)
}

/// The stored form of a session token: hex of the SHA-256 of its UTF-8 bytes.
pub fn hash_token(token: &str) -> (r: String)
    ensures
        r@ == hex_lower(sha256_digest(encode_utf8(token@))),
        r@.len() == 64,
{
    let digest = sha256(token.as_bytes());
    proof {
        lemma_hex_lower_len(digest@);
    }
    hex_encode(digest.as_slice())
}

/// The sign-in limiter with no settings given: 20 requests per 60 s per
/// key, 10 000 keys.
pub open spec fn default_auth_limiter() -> LimiterView {
    limiter_settings(None, None, None, 20, 60, 10_000)
}

/// The WebRTC limiter with no settings given: 120 per 60 s, 50 000 keys.
pub open spec fn default_webrtc_limiter() -> LimiterView {
    limiter_settings(None, None, None, 120, 60, 50_000)
}

/// The socket-bind limiter with no settings given: 10 per 60 s, 50 000 keys.
pub open spec fn default_ws_bind_limiter() -> LimiterView {
    limiter_settings(None, None, None, 10, 60, 50_000)
}

/// Whether `v` is limiter `d` with some keys tracked.
pub open spec fn same_limits(v: LimiterView, d: LimiterView) -> bool {
    v.max_requests == d.max_requests && v.window == d.window && v.max_keys == d.max_keys
}

/// With the default sign-in limits, a key not used before, while fewer
/// than 10 000 other keys are tracked, has its first 20 requests within
/// 60 s of its first allowed (`allow_auth_request` answers as
/// `allow_outcome`), and the rest in that span refused.
pub proof fn law_auth_default_budget(v: LimiterView, key: Seq<char>, times: Seq<u64>)
    requires
        same_limits(v, default_auth_limiter()),
        v.entries.dom().finite(),
        v.entries.len() < 10_000,
        !v.entries.contains_key(key),
        forall|i: int| 0 <= i < times.len() ==> times[0] <= #[trigger] times[i] && times[i] - times[0] < 60 * NANOS_PER_SEC,
    ensures
        crate::rate_limit::run_requests(v, crate::rate_limit::requests_for(key, times)).1.len() == times.len(),
        forall|i: int|
            0 <= i < times.len() ==> #[trigger] crate::rate_limit::run_requests(
                v,
                crate::rate_limit::requests_for(key, times),
            ).1[i] == (i < 20),
{
    assert(v.max_requests == 20 && v.window == 60 * NANOS_PER_SEC && v.max_keys == 10_000);
    crate::rate_limit::law_fresh_key_budget(v, key, times);
}

/// With the default socket-bind limits, whatever requests for other keys
/// come between while at most 50 000 keys are tracked, at most 10 of a
/// key's binds are allowed in each of its 60 s windows, and the bind that
/// opens a window is allowed.
pub proof fn law_ws_bind_default_window(
    v: LimiterView,
    reqs: Seq<(Seq<char>, u64)>,
    key: Seq<char>,
    w: u64,
)
    requires
        same_limits(v, default_ws_bind_limiter()),
        crate::rate_limit::within_capacity(v, reqs),
    ensures
        ({
            let e = crate::rate_limit::entry_of(v.entries, key);
            let times = crate::rate_limit::times_for(reqs, key);
            let answers = crate::rate_limit::answers_for(reqs, crate::rate_limit::run_requests(v, reqs).1, key);
            &&& crate::rate_limit::allowed_in(answers, crate::rate_limit::key_starts(e, times, v.window), w) <= 10
            &&& forall|i: int|
                0 <= i < times.len() && (crate::rate_limit::key_entry_after(e, times.take(i), v.window) is None
                    || crate::rate_limit::elapsed(
                    times[i],
                    crate::rate_limit::key_entry_after(e, times.take(i), v.window)->0.window_start,
                ) >= v.window) ==> #[trigger] answers[i]
        }),
{
    assert(v.max_requests == 10 && v.window == 60 * NANOS_PER_SEC);
    crate::rate_limit::law_keys_limited_independently(v, reqs, key);
    let e = crate::rate_limit::entry_of(v.entries, key);
    let times = crate::rate_limit::times_for(reqs, key);
    crate::rate_limit::law_window_budget(e, times, v.window, 10, w);
}

/// With the default WebRTC limits, two runs that make the same requests for
/// a key at the same instants, from the same entry for it, and differ only
/// in requests for other keys, each within 50 000 tracked keys, answer that
/// key's requests alike.
pub proof fn law_webrtc_keys_independent(
    v1: LimiterView,
    reqs1: Seq<(Seq<char>, u64)>,
    v2: LimiterView,
    reqs2: Seq<(Seq<char>, u64)>,
    key: Seq<char>,
)
    requires
        same_limits(v1, default_webrtc_limiter()),
        same_limits(v2, default_webrtc_limiter()),
        crate::rate_limit::within_capacity(v1, reqs1),
        crate::rate_limit::within_capacity(v2, reqs2),
        crate::rate_limit::entry_of(v1.entries, key) == crate::rate_limit::entry_of(v2.entries, key),
        crate::rate_limit::times_for(reqs1, key) == crate::rate_limit::times_for(reqs2, key),
    ensures
        crate::rate_limit::answers_for(reqs1, crate::rate_limit::run_requests(v1, reqs1).1, key)
            == crate::rate_limit::answers_for(reqs2, crate::rate_limit::run_requests(v2, reqs2).1, key),
{
    crate::rate_limit::law_keys_limited_independently(v1, reqs1, key);
    crate::rate_limit::law_keys_limited_independently(v2, reqs2, key);
}

} // verus!
