//! Opt-in local VocaGateway via Docker Desktop Compose: a pair helper for
//! phones and other clients. This module holds the gateway's rules: which
//! public URLs are accepted, how the `.env` file reads and is written, the
//! token, the status phases and messages, and what each Docker outcome
//! means. Running `docker` and the HTTP probes belong to the caller.

use vstd::prelude::*;
use vstd::string::StringSliceAdditionalSpecFns;
use crate::text::{
    ascii_lower_seq, chars_eq, chars_of, copy_range, find_char, first_index, in_class, is_ws,
    lemma_split_by_nonempty, lemma_first_piece_at, lemma_trim_end_at, lemma_trim_start_at,
    lemma_trim_unchanged, matches_at, push_all, push_decimal, push_str, split_by, split_chars,
    starts_with, string_of, to_ascii_lower, trim, trim_by, trim_chars, trim_chars_by, trim_end_by,
    vviews, CharClass, char_in_class, contains, chars_contain, decimal,
};

verus! {

/// Single pin for the desktop-embed image. Not `latest`.
pub const GATEWAY_RELEASE_TAG: &'static str = "v0.1.0";

pub const GATEWAY_IMAGE: &'static str = "ghcr.io/vocahq/vocagateway:v0.1.0";

pub const COMPOSE_PROJECT: &'static str = "vocagateway";

pub const COMPOSE_SERVICE: &'static str = "gateway";

pub const PUBLISH_HOST: &'static str = "0.0.0.0";

pub const PUBLISH_PORT: u16 = 8765;

pub const LOCAL_BASE_URL: &'static str = "http://127.0.0.1:8765";

pub const WEBUI_URL: &'static str = "http://127.0.0.1:8765/";

pub const DOCKER_DESKTOP_INSTALL_URL: &'static str =
    "https://docs.docker.com/desktop/setup/install/windows-install/";

pub const GATEWAY_SITE_URL: &'static str = "https://vocagateway.vocahq.com";

pub const TOKEN_HEX_LEN: usize = 32;

#[derive(Clone, Copy, Debug, PartialEq, Eq)]
pub enum GatewayPhase {
    DockerMissing,
    Stopped,
    Starting,
    LiveNotReady,
    Ready,
}

#[derive(Clone, Debug)]
pub struct GatewayStatus {
    pub phase: GatewayPhase,
    pub phase_label: String,
    pub docker_available: bool,
    pub docker_detail: String,
    pub public_url: String,
    pub suggested_public_url: String,
    pub pairable: bool,
    pub live: bool,
    pub ready: bool,
    pub message: String,
    pub webui_url: String,
    pub docker_install_url: String,
    pub gateway_site_url: String,
    pub image: String,
    pub release_tag: String,
}

#[derive(Clone, Debug)]
pub struct GatewayPairing {
    pub url: String,
    pub qr_svg: Option<String>,
}

// ---------------------------------------------------------------------------
// Public URL
// ---------------------------------------------------------------------------

/// `s` without the scheme `http://` (tried first) or `https://`.
pub open spec fn without_scheme(s: Seq<char>) -> Seq<char> {
    if starts_with(s, "http://"@) {
        s.skip(7)
    } else if starts_with(s, "https://"@) {
        s.skip(8)
    } else {
        s
    }
}

/// The host of a URL as the loopback check reads it: before the first `/`,
/// inside `[...]` for IPv6, else before the first `:`; lowercase.
pub open spec fn url_host_of(raw: Seq<char>) -> Seq<char> {
    let authority = trim(split_by(without_scheme(trim(raw)), seq!['/'])[0]);
    if authority.len() > 0 && authority[0] == '[' {
        ascii_lower_seq(split_by(authority.skip(1), seq![']'])[0])
    } else {
        ascii_lower_seq(trim(split_by(authority, seq![':'])[0]))
    }
}

/// What `is_loopback_public_url` returns.
pub open spec fn loopback_spec(raw: Seq<char>) -> bool {
    let host = url_host_of(raw);
    trim(raw).len() > 0 && (host == "localhost"@ || host == "127.0.0.1"@ || host == "::1"@ || host
        == "0.0.0.0"@ || starts_with(host, "127."@))
}

/// The first piece of `s` before any of `seps`.
fn first_piece(s: &Vec<char>, seps: &Vec<char>) -> (out: Vec<char>)
    ensures
        out@ == split_by(s@, seps@)[0],
{
    let parts = split_chars(s, seps);
    proof {
        lemma_split_by_nonempty(s@, seps@);
        assert(vviews(parts@)[0] == parts@[0]@);
    }
    copy_range(&parts[0], 0, parts[0].len())
}

/// Reject hosts a phone on another device cannot reach.
pub fn is_loopback_public_url(raw: &str) -> (r: bool)
    ensures
        r == loopback_spec(raw@),
{
    let s = chars_of(raw);
    let trimmed = trim_chars(&s);
    if trimmed.len() == 0 {
        return false;
    }
    let http = chars_of("http://");
    let https = chars_of("https://");
    proof {
        reveal_strlit("http://");
        reveal_strlit("https://");
    }
    let rest = if matches_at(&trimmed, &http, 0) {
        copy_range(&trimmed, 7, trimmed.len())
    } else if matches_at(&trimmed, &https, 0) {
        copy_range(&trimmed, 8, trimmed.len())
    } else {
        copy_range(&trimmed, 0, trimmed.len())
    };
    assert(rest@ =~= without_scheme(trimmed@));
    let slash = vec!['/'];
    assert(slash@ =~= seq!['/']);
    let first = first_piece(&rest, &slash);
    let authority = trim_chars(&first);
    let host = if authority.len() > 0 && authority[0] == '[' {
        let inner = copy_range(&authority, 1, authority.len());
        assert(inner@ =~= authority@.skip(1));
        let close = vec![']'];
        assert(close@ =~= seq![']']);
        let h = first_piece(&inner, &close);
        to_ascii_lower(&h)
    } else {
        let colon = vec![':'];
        assert(colon@ =~= seq![':']);
        let h = first_piece(&authority, &colon);
        let ht = trim_chars(&h);
        to_ascii_lower(&ht)
    };
    crate::text::chars_eq_str(&host, "localhost") || crate::text::chars_eq_str(&host, "127.0.0.1")
        || crate::text::chars_eq_str(&host, "::1") || crate::text::chars_eq_str(&host, "0.0.0.0")
        || crate::text::chars_start_with(&host, "127.")
}

/// `char::is_control`: the general category Cc.
pub open spec fn is_control(c: char) -> bool {
    let v = c as u32;
    v <= 0x1F || (0x7F <= v && v <= 0x9F)
}

/// Characters that could inject keys or break Compose env parsing when the
/// URL is written unquoted.
pub open spec fn forbidden_url_char(c: char) -> bool {
    is_control(c) || is_ws(c) || c == '#' || c == '"' || c == '\'' || c == '`' || c == '$' || c
        == '=' || c == '@' || c == '\\' || c == ';'
}

pub const URL_MISSING: &'static str = "Set a phone-reachable public URL first (LAN or Tailscale).";

pub const URL_INVALID_CHARACTERS: &'static str = "Public URL contains invalid characters.";

pub const URL_NEEDS_SCHEME: &'static str = "Public URL must start with http:// or https://.";

pub const URL_IS_LOOPBACK: &'static str =
    "Do not use 127.0.0.1 or localhost in the public URL. A phone cannot reach that.";

/// What `validate_public_url` returns.
pub open spec fn validate_spec(raw: Seq<char>) -> Result<Seq<char>, Seq<char>> {
    let url = trim(raw);
    if url.len() == 0 {
        Err(URL_MISSING@)
    } else if exists|i: int| 0 <= i < url.len() && forbidden_url_char(#[trigger] url[i]) {
        Err(URL_INVALID_CHARACTERS@)
    } else if !(starts_with(url, "http://"@) || starts_with(url, "https://"@)) {
        Err(URL_NEEDS_SCHEME@)
    } else if loopback_spec(url) {
        Err(URL_IS_LOOPBACK@)
    } else {
        Ok(trim_end_by(url, CharClass::Slash))
    }
}

fn is_forbidden_url_char(c: char) -> (r: bool)
    ensures
        r == forbidden_url_char(c),
{
    let v = c as u32;
    v <= 0x1F || (0x7F <= v && v <= 0x9F) || crate::text::is_whitespace(c) || c == '#' || c == '"'
        || c == '\'' || c == '`' || c == '$' || c == '=' || c == '@' || c == '\\' || c == ';'
}

/// The public URL as written to `.env`: trimmed, checked, trailing slashes removed.
pub fn validate_public_url(raw: &str) -> (r: Result<String, String>)
    ensures
        match (r, validate_spec(raw@)) {
            (Ok(u), Ok(v)) => u@ == v,
            (Err(m), Err(v)) => m@ == v,
            _ => false,
        },
{
    let s = chars_of(raw);
    let url = trim_chars(&s);
    if url.len() == 0 {
        return Err(crate::text::string_from(URL_MISSING));
    }
    let mut i: usize = 0;
    while i < url.len()
        invariant
            i <= url.len(),
            url@ == trim(raw@),
            url@.len() > 0,
            forall|k: int| 0 <= k < i ==> !forbidden_url_char(#[trigger] url@[k]),
        decreases url.len() - i,
    {
        if is_forbidden_url_char(url[i]) {
            assert(forbidden_url_char(url@[i as int]));
            return Err(crate::text::string_from(URL_INVALID_CHARACTERS));
        }
        i += 1;
    }
    if !(crate::text::chars_start_with(&url, "http://") || crate::text::chars_start_with(
        &url,
        "https://",
    )) {
        return Err(crate::text::string_from(URL_NEEDS_SCHEME));
    }
    let url_string = string_of(&url);
    if is_loopback_public_url(url_string.as_str()) {
        return Err(crate::text::string_from(URL_IS_LOOPBACK));
    }
    let stripped = trim_chars_by(&url, CharClass::Slash, false, true);
    Ok(string_of(&stripped))
}

/// Text without any whitespace is its own trim.
proof fn lemma_no_ws_trim(s: Seq<char>)
    requires
        forall|i: int| 0 <= i < s.len() ==> !is_ws(#[trigger] s[i]),
    ensures
        trim(s) == s,
{
    if s.len() > 0 {
        crate::text::lemma_trim_unchanged(s);
    } else {
        assert(trim(s) =~= s);
    }
}

/// `trim_end_by(s, class)` is a prefix of `s` followed only by characters of
/// `class`, and ends (if anywhere) on a character outside it.
proof fn lemma_trim_end_shape(s: Seq<char>, class: CharClass)
    ensures
        trim_end_by(s, class).len() <= s.len(),
        trim_end_by(s, class) == s.take(trim_end_by(s, class).len() as int),
        forall|i: int|
            trim_end_by(s, class).len() <= i < s.len() ==> in_class(#[trigger] s[i], class),
        trim_end_by(s, class).len() == 0 || !in_class(
            s[trim_end_by(s, class).len() - 1],
            class,
        ),
    decreases s.len(),
{
    if s.len() > 0 && in_class(s.last(), class) {
        lemma_trim_end_shape(s.drop_last(), class);
        let t = trim_end_by(s, class);
        assert(t == trim_end_by(s.drop_last(), class));
        assert(s.drop_last().take(t.len() as int) =~= s.take(t.len() as int));
        assert forall|i: int| t.len() <= i < s.len() implies in_class(#[trigger] s[i], class) by {
            if i < s.len() - 1 {
                assert(s.drop_last()[i] == s[i]);
            }
        }
    } else {
        assert(s.take(s.len() as int) =~= s);
    }
}

/// Dropping trailing slashes does not change the part before the first
/// slash.
proof fn lemma_first_piece_prefix(r: Seq<char>, k: int)
    requires
        0 <= k <= r.len(),
        forall|i: int| k <= i < r.len() ==> #[trigger] r[i] == '/',
    ensures
        split_by(r.take(k), seq!['/'])[0] == split_by(r, seq!['/'])[0],
    decreases r.len() - k,
{
    if k < r.len() {
        let d = r.drop_last();
        lemma_split_by_nonempty(d, seq!['/']);
        assert(seq!['/'].contains(r.last())) by {
            assert(seq!['/'][0] == r.last());
        }
        assert(split_by(r, seq!['/']) == split_by(d, seq!['/']).push(seq![]));
        assert forall|i: int| k <= i < d.len() implies #[trigger] d[i] == '/' by {
            assert(d[i] == r[i]);
        }
        lemma_first_piece_prefix(d, k);
        assert(d.take(k) =~= r.take(k));
    } else {
        assert(r.take(k) =~= r);
    }
}

/// The URL left of a bare scheme, `http:` or `https:`, names no loopback host.
proof fn lemma_bare_scheme_not_loopback(u: Seq<char>)
    requires
        u == "http:"@ || u == "https:"@,
    ensures
        !loopback_spec(u),
{
    reveal_strlit("http:");
    reveal_strlit("https:");
    reveal_strlit("http://");
    reveal_strlit("https://");
    reveal_strlit("localhost");
    reveal_strlit("127.0.0.1");
    reveal_strlit("::1");
    reveal_strlit("0.0.0.0");
    reveal_strlit("127.");
    assert forall|i: int| 0 <= i < u.len() implies !is_ws(#[trigger] u[i]) by {}
    lemma_no_ws_trim(u);
    assert(!starts_with(u, "http://"@));
    assert(!starts_with(u, "https://"@));
    assert(without_scheme(u) == u);
    crate::text::lemma_first_piece_at(u, seq!['/'], u.len() as int);
    assert(u.take(u.len() as int) =~= u);
    let n = (u.len() - 1) as int;
    assert forall|i: int| 0 <= i < n implies !seq![':'].contains(#[trigger] u[i]) by {
        assert(u[i] != ':');
        if seq![':'].contains(u[i]) {
            assert(seq![':'][0] == u[i]);
        }
    }
    assert(seq![':'].contains(u[n])) by {
        assert(seq![':'][0] == u[n]);
    }
    crate::text::lemma_first_piece_at(u, seq![':'], n);
    let h = u.take(n);
    assert forall|i: int| 0 <= i < h.len() implies !is_ws(#[trigger] h[i]) by {
        assert(h[i] == u[i]);
    }
    lemma_no_ws_trim(h);
    let host = ascii_lower_seq(h);
    assert(host =~= h);
    assert(host.len() == 4 || host.len() == 5);
    assert(!starts_with(host, "127."@)) by {
        assert(host[0] == 'h');
        if starts_with(host, "127."@) {
            assert(host.subrange(0, 4)[0] == '1');
        }
    }
}

/// Only control characters, whitespace and `# " ' ` + "`" + ` $ = @ \\ ;` make a public
/// URL invalid: a trimmed URL that holds one of them is refused for it, and
/// one made of anything else (letters, digits, `-`, `.`, `:`, `/`, ...) that
/// starts with `http://` or `https://` and names no loopback host is
/// accepted, without its trailing slashes.
pub proof fn law_only_unsafe_characters_make_a_url_invalid(raw: Seq<char>)
    ensures
        ({
            let url = trim(raw);
            let unsafe_at = |i: int|
                (url[i] as u32) <= 0x1F || (0x7F <= (url[i] as u32) && (url[i] as u32) <= 0x9F)
                    || is_ws(url[i]) || url[i] == '#' || url[i] == '"' || url[i] == '\''
                    || url[i] == '`' || url[i] == '$' || url[i] == '=' || url[i] == '@' || url[i]
                    == '\\' || url[i] == ';';
            &&& validate_spec(raw) == Err::<Seq<char>, Seq<char>>(URL_INVALID_CHARACTERS@)
                <==> (url.len() > 0 && exists|i: int| 0 <= i < url.len() && #[trigger] unsafe_at(i))
            &&& (url.len() > 0 && (forall|i: int| 0 <= i < url.len() ==> !#[trigger] unsafe_at(i))
                && (starts_with(url, "http://"@) || starts_with(url, "https://"@))
                && !loopback_spec(url)) ==> validate_spec(raw) == Ok::<Seq<char>, Seq<char>>(
                trim_end_by(url, CharClass::Slash),
            )
        }),
{
    let url = trim(raw);
    reveal_strlit("Set a phone-reachable public URL first (LAN or Tailscale).");
    reveal_strlit("Public URL contains invalid characters.");
    reveal_strlit("Public URL must start with http:// or https://.");
    reveal_strlit("Do not use 127.0.0.1 or localhost in the public URL. A phone cannot reach that.");
    assert(URL_INVALID_CHARACTERS@[0] != URL_MISSING@[0]);
    assert(URL_INVALID_CHARACTERS@[11] != URL_NEEDS_SCHEME@[11]);
    assert(URL_INVALID_CHARACTERS@ != URL_IS_LOOPBACK@);
    let unsafe_at = |i: int|
        (url[i] as u32) <= 0x1F || (0x7F <= (url[i] as u32) && (url[i] as u32) <= 0x9F) || is_ws(
            url[i],
        ) || url[i] == '#' || url[i] == '"' || url[i] == '\'' || url[i] == '`' || url[i] == '$'
            || url[i] == '=' || url[i] == '@' || url[i] == '\\' || url[i] == ';';
    assert forall|i: int| 0 <= i < url.len() implies (forbidden_url_char(#[trigger] url[i])
        <==> unsafe_at(i)) by {}
    if exists|i: int| 0 <= i < url.len() && forbidden_url_char(#[trigger] url[i]) {
        let k = choose|i: int| 0 <= i < url.len() && forbidden_url_char(#[trigger] url[i]);
        assert(unsafe_at(k));
    }
    if exists|i: int| 0 <= i < url.len() && #[trigger] unsafe_at(i) {
        let k = choose|i: int| 0 <= i < url.len() && #[trigger] unsafe_at(i);
        assert(forbidden_url_char(url[k]));
    }
}

/// A URL that validation accepts is not a loopback URL: the slashes it
/// strips from the end never turn it into one.
pub proof fn law_validated_url_is_not_loopback(raw: Seq<char>)
    ensures
        validate_spec(raw) matches Ok(u) ==> !loopback_spec(u),
{
    let url = trim(raw);
    match validate_spec(raw) {
        Err(_) => {},
        Ok(u) => {
            assert(u == trim_end_by(url, CharClass::Slash));
            assert forall|i: int| 0 <= i < url.len() implies !is_ws(#[trigger] url[i]) by {
                assert(!forbidden_url_char(url[i]));
            }
            lemma_no_ws_trim(url);
            lemma_trim_end_shape(url, CharClass::Slash);
            let j = u.len() as int;
            assert forall|i: int| 0 <= i < u.len() implies !is_ws(#[trigger] u[i]) by {
                assert(u[i] == url[i]);
            }
            lemma_no_ws_trim(u);
            reveal_strlit("http://");
            reveal_strlit("https://");
            reveal_strlit("http:");
            reveal_strlit("https:");
            let http = starts_with(url, "http://"@);
            let plen: int = if http { 7 } else { 8 };
            assert(url.subrange(0, plen) == (if http { "http://"@ } else { "https://"@ }));
            assert(url[plen - 3] == url.subrange(0, plen)[plen - 3]);
            assert(url[plen - 2] == url.subrange(0, plen)[plen - 2]);
            assert(url[plen - 1] == url.subrange(0, plen)[plen - 1]);
            assert(url[plen - 3] == ':');
            assert(url[plen - 2] == '/');
            assert(url[plen - 1] == '/');
            assert(j >= plen - 2) by {
                if j < plen - 2 {
                    assert(in_class(url[plen - 3], CharClass::Slash));
                }
            }
            if j < plen {
                assert(j == plen - 2) by {
                    if j == plen - 1 {
                        assert(!in_class(url[plen - 2], CharClass::Slash));
                    }
                }
                assert(u =~= (if http { "http:"@ } else { "https:"@ }));
                lemma_bare_scheme_not_loopback(u);
            } else {
                assert(u.subrange(0, plen) =~= url.subrange(0, plen));
                assert(starts_with(u, if http { "http://"@ } else { "https://"@ }));
                if !http {
                    assert(!starts_with(url, "http://"@));
                    assert(!starts_with(u, "http://"@)) by {
                        if starts_with(u, "http://"@) {
                            assert(u.subrange(0, 7)[4] == u[4]);
                        }
                    }
                }
                let r = url.skip(plen);
                let k = j - plen;
                assert(without_scheme(url) == r);
                assert(without_scheme(u) =~= r.take(k));
                assert forall|i: int| k <= i < r.len() implies #[trigger] r[i] == '/' by {
                    assert(r[i] == url[i + plen]);
                    assert(in_class(url[i + plen], CharClass::Slash));
                }
                lemma_first_piece_prefix(r, k);
                assert(url_host_of(u) == url_host_of(url));
            }
        },
    }
}

// ---------------------------------------------------------------------------
// Token
// ---------------------------------------------------------------------------

/// `getrandom::getrandom`: fills `buf` from the operating system's random
/// source. The contract states only that the buffer keeps its length; the
/// bytes are random and nothing is claimed of them, nor of when it fails.
#[verifier::external_body]
fn fill_random(buf: &mut [u8]) -> (r: Result<(), String>)
    ensures
        final(buf)@.len() == old(buf)@.len(),
{
    match getrandom::getrandom(buf) {
        Ok(()) => Ok(()),
        Err(error) => Err(error.to_string()),
    }
}

pub open spec fn hex_digit(d: u8) -> char {
    if d < 10 {
        ((d as u32) + 0x30) as char
    } else {
        ((d as u32) - 10 + 0x61) as char
    }
}

/// Lowercase hex, two digits per byte (`format!("{b:02x}")` for each byte).
pub open spec fn hex_of(bytes: Seq<u8>) -> Seq<char>
    decreases bytes.len(),
{
    if bytes.len() == 0 {
        seq![]
    } else {
        hex_of(bytes.drop_last()).push(hex_digit(bytes.last() / 16)).push(
            hex_digit(bytes.last() % 16),
        )
    }
}

pub open spec fn is_lower_hex(c: char) -> bool {
    ('0' <= c <= '9') || ('a' <= c <= 'f')
}

fn hex_char(d: u8) -> (c: char)
    requires
        d < 16,
    ensures
        c == hex_digit(d),
        is_lower_hex(c),
{
    if d < 10 {
        (d + 0x30) as char
    } else {
        (d - 10 + 0x61) as char
    }
}

/// The token text for `bytes`: two lowercase hex digits per byte.
pub fn token_hex_of(bytes: &[u8]) -> (out: String)
    ensures
        out@ == hex_of(bytes@),
        out@.len() == 2 * bytes@.len(),
        forall|i: int| 0 <= i < out@.len() ==> is_lower_hex(#[trigger] out@[i]),
{
    let mut out: Vec<char> = Vec::new();
    let mut i: usize = 0;
    while i < bytes.len()
        invariant
            i <= bytes.len(),
            out@ == hex_of(bytes@.take(i as int)),
            out@.len() == 2 * i,
            forall|k: int| 0 <= k < out@.len() ==> is_lower_hex(#[trigger] out@[k]),
        decreases bytes.len() - i,
    {
        assert(bytes@.take(i + 1).drop_last() =~= bytes@.take(i as int));
        let b = bytes[i];
        out.push(hex_char(b / 16));
        out.push(hex_char(b % 16));
        i += 1;
    }
    assert(bytes@.take(bytes.len() as int) =~= bytes@);
    string_of(&out)
}

pub const TOKEN_ERROR_PREFIX: &'static str = "Could not generate gateway token: ";

/// A fresh gateway token: 32 lowercase hex digits from 16 random bytes.
pub fn generate_token_hex() -> (r: Result<String, String>)
    ensures
        r matches Ok(t) ==> t@.len() == TOKEN_HEX_LEN && forall|i: int|
            0 <= i < t@.len() ==> is_lower_hex(#[trigger] t@[i]),
        r matches Err(m) ==> starts_with(m@, TOKEN_ERROR_PREFIX@),
{
    let mut bytes = [0u8; 16];
    match fill_random(&mut bytes) {
        Ok(()) => Ok(token_hex_of(&bytes)),
        Err(error) => {
            let mut m: Vec<char> = Vec::new();
            push_str(&mut m, TOKEN_ERROR_PREFIX);
            push_str(&mut m, error.as_str());
            assert(m@.subrange(0, TOKEN_ERROR_PREFIX@.len() as int) =~= TOKEN_ERROR_PREFIX@);
            Err(string_of(&m))
        },
    }
}

// ---------------------------------------------------------------------------
// Phases
// ---------------------------------------------------------------------------

pub open spec fn phase_spec(docker_available: bool, container_up: bool, live: bool, ready: bool) -> GatewayPhase {
    if !docker_available {
        GatewayPhase::DockerMissing
    } else if ready {
        GatewayPhase::Ready
    } else if live {
        GatewayPhase::LiveNotReady
    } else if container_up {
        GatewayPhase::Starting
    } else {
        GatewayPhase::Stopped
    }
}

pub fn map_phase(docker_available: bool, container_up: bool, live: bool, ready: bool) -> (p:
    GatewayPhase)
    ensures
        p == phase_spec(docker_available, container_up, live, ready),
{
    if !docker_available {
        return GatewayPhase::DockerMissing;
    }
    if ready {
        return GatewayPhase::Ready;
    }
    if live {
        return GatewayPhase::LiveNotReady;
    }
    if container_up {
        return GatewayPhase::Starting;
    }
    GatewayPhase::Stopped
}

pub open spec fn phase_label_spec(phase: GatewayPhase) -> Seq<char> {
    match phase {
        GatewayPhase::DockerMissing => "Docker missing"@,
        GatewayPhase::Stopped => "Stopped"@,
        GatewayPhase::Starting => "Starting"@,
        GatewayPhase::LiveNotReady => "Live (not ready)"@,
        GatewayPhase::Ready => "Ready"@,
    }
}

pub fn phase_label(phase: GatewayPhase) -> (s: &'static str)
    ensures
        s@ == phase_label_spec(phase),
{
    match phase {
        GatewayPhase::DockerMissing => "Docker missing",
        GatewayPhase::Stopped => "Stopped",
        GatewayPhase::Starting => "Starting",
        GatewayPhase::LiveNotReady => "Live (not ready)",
        GatewayPhase::Ready => "Ready",
    }
}

// ---------------------------------------------------------------------------
// .env
// ---------------------------------------------------------------------------

/// The value of `key` on one line of an env file, if the line sets it:
/// comments and blank lines are skipped, the name is trimmed, the value is
/// trimmed and unquoted.
pub open spec fn env_line_value(line: Seq<char>, key: Seq<char>) -> Option<Seq<char>> {
    let l = trim(line);
    if l.len() == 0 || l[0] == '#' {
        None
    } else {
        match first_index(l, '=') {
            None => None,
            Some(k) => if trim(l.take(k)) == key {
                Some(trim_by(trim(l.skip(k + 1)), CharClass::Quote))
            } else {
                None
            },
        }
    }
}

/// The first line among `lines` that sets `key`.
pub open spec fn env_lines_value(lines: Seq<Seq<char>>, key: Seq<char>) -> Option<Seq<char>>
    decreases lines.len(),
{
    if lines.len() == 0 {
        None
    } else {
        match env_line_value(lines[0], key) {
            Some(v) => Some(v),
            None => env_lines_value(lines.drop_first(), key),
        }
    }
}

/// What `parse_env_value` returns: the value on the first line that sets `key`.
pub open spec fn env_value_spec(contents: Seq<char>, key: Seq<char>) -> Option<Seq<char>> {
    env_lines_value(split_by(contents, seq!['\n']), key)
}

fn line_value(line: &Vec<char>, key: &Vec<char>) -> (r: Option<Vec<char>>)
    ensures
        match r {
            Some(v) => env_line_value(line@, key@) == Some(v@),
            None => env_line_value(line@, key@) is None,
        },
{
    let l = trim_chars(line);
    if l.len() == 0 || l[0] == '#' {
        return None;
    }
    match find_char(&l, '=') {
        None => None,
        Some(k) => {
            let name_raw = copy_range(&l, 0, k);
            let name = trim_chars(&name_raw);
            assert(name_raw@ =~= l@.take(k as int));
            if chars_eq(&name, key) {
                let value_raw = copy_range(&l, k + 1, l.len());
                assert(value_raw@ =~= l@.skip(k + 1));
                let value = trim_chars(&value_raw);
                Some(trim_chars_by(&value, CharClass::Quote, true, true))
            } else {
                None
            }
        },
    }
}

pub fn parse_env_value(contents: &str, key: &str) -> (r: Option<String>)
    ensures
        match r {
            Some(v) => env_value_spec(contents@, key@) == Some(v@),
            None => env_value_spec(contents@, key@) is None,
        },
{
    let s = chars_of(contents);
    let k = chars_of(key);
    let nl = vec!['\n'];
    assert(nl@ =~= seq!['\n']);
    let lines = split_chars(&s, &nl);
    let ghost ls = vviews(lines@);
    let mut i: usize = 0;
    assert(ls.skip(0) =~= ls);
    while i < lines.len()
        invariant
            i <= lines.len(),
            ls == vviews(lines@),
            ls.len() == lines@.len(),
            env_lines_value(ls.skip(i as int), k@) == env_value_spec(s@, k@),
            s@ == contents@,
            k@ == key@,
        decreases lines.len() - i,
    {
        assert(ls.skip(i as int).drop_first() =~= ls.skip(i + 1));
        assert(ls.skip(i as int)[0] == lines@[i as int]@);
        match line_value(&lines[i], &k) {
            Some(v) => {
                assert(env_lines_value(ls.skip(i as int), k@) == Some(v@));
                return Some(string_of(&v));
            },
            None => {},
        }
        i += 1;
    }
    None
}

/// What `write_env_file` writes.
pub open spec fn env_body_spec(token: Seq<char>, public_url: Seq<char>) -> Seq<char> {
    let fixed = "VOCAGATEWAY_TOKEN="@ + token + "\n"@ + "VOCAGATEWAY_PUBLISH_HOST="@ + PUBLISH_HOST@
        + "\n"@ + "VOCAGATEWAY_PUBLISH_PORT="@ + decimal(PUBLISH_PORT as nat) + "\n"@
        + "VOCAGATEWAY_PORT="@ + decimal(PUBLISH_PORT as nat) + "\n"@ + "VOCAGATEWAY_IMAGE="@
        + GATEWAY_IMAGE@ + "\n"@;
    if trim(public_url).len() == 0 {
        fixed
    } else {
        fixed + "VOCAGATEWAY_PUBLIC_URL="@ + trim(public_url) + "\n"@
    }
}

/// The `.env` file for the token and public URL.
pub fn env_file_body(token: &str, public_url: &str) -> (out: String)
    ensures
        out@ == env_body_spec(token@, public_url@),
{
    let mut b: Vec<char> = Vec::new();
    push_str(&mut b, "VOCAGATEWAY_TOKEN=");
    push_str(&mut b, token);
    push_str(&mut b, "\n");
    push_str(&mut b, "VOCAGATEWAY_PUBLISH_HOST=");
    push_str(&mut b, PUBLISH_HOST);
    push_str(&mut b, "\n");
    push_str(&mut b, "VOCAGATEWAY_PUBLISH_PORT=");
    push_decimal(&mut b, PUBLISH_PORT as u64);
    push_str(&mut b, "\n");
    push_str(&mut b, "VOCAGATEWAY_PORT=");
    push_decimal(&mut b, PUBLISH_PORT as u64);
    push_str(&mut b, "\n");
    push_str(&mut b, "VOCAGATEWAY_IMAGE=");
    push_str(&mut b, GATEWAY_IMAGE);
    push_str(&mut b, "\n");
    let url = chars_of(public_url);
    let trimmed = trim_chars(&url);
    if trimmed.len() > 0 {
        push_str(&mut b, "VOCAGATEWAY_PUBLIC_URL=");
        push_all(&mut b, &trimmed);
        push_str(&mut b, "\n");
    }
    string_of(&b)
}

/// The first line of an env file that sets `VOCAGATEWAY_TOKEN` to `token`
/// gives `token` back, whatever follows it.
#[verifier::spinoff_prover]
#[verifier::rlimit(40)]
proof fn lemma_token_line_reads_back(token: Seq<char>, rest: Seq<char>)
    requires
        forall|i: int| 0 <= i < token.len() ==> token[i] != '\n',
        token.len() > 0 ==> !is_ws(token[0]) && token[0] != '"' && !is_ws(token.last())
            && token.last() != '"',
    ensures
        env_value_spec("VOCAGATEWAY_TOKEN="@ + token + "\n"@ + rest, "VOCAGATEWAY_TOKEN"@) == Some(
            token,
        ),
{
    reveal_strlit("VOCAGATEWAY_TOKEN=");
    reveal_strlit("VOCAGATEWAY_TOKEN");
    reveal_strlit("\n");
    let prefix = "VOCAGATEWAY_TOKEN="@;
    let key = "VOCAGATEWAY_TOKEN"@;
    let nl = seq!['\n'];
    let line = prefix + token;
    let s = line + "\n"@ + rest;
    let n = line.len() as int;
    assert(prefix.len() == 18);
    assert forall|i: int| 0 <= i < n implies !nl.contains(#[trigger] s[i]) by {
        assert(s[i] == line[i]);
        if i < 18 {
            assert(line[i] == prefix[i]);
        } else {
            assert(line[i] == token[i - 18]);
        }
        if nl.contains(s[i]) {
            let j = choose|j: int| 0 <= j < nl.len() && nl[j] == s[i];
            assert(nl[j] == '\n');
        }
    }
    assert(s[n] == '\n');
    assert(nl.contains(s[n])) by {
        assert(nl[0] == '\n');
    }
    lemma_first_piece_at(s, nl, n);
    assert(s.take(n) =~= line);
    let lines = split_by(s, nl);
    assert(lines[0] == line);
    // The line is its own trim.
    assert(line[0] == 'V');
    if token.len() > 0 {
        assert(line.last() == token.last());
    } else {
        assert(line.last() == '=');
    }
    lemma_trim_unchanged(line);
    // Its first `=` closes the name.
    assert(line[17] == '=');
    assert forall|j: int| 0 <= j < 17 implies line[j] != '=' by {
        assert(line[j] == prefix[j]);
    }
    let k = choose|k: int|
        0 <= k < line.len() && line[k] == '=' && forall|j: int| 0 <= j < k ==> line[j] != '=';
    assert(0 <= k < line.len() && line[k] == '=' && forall|j: int| 0 <= j < k ==> line[j] != '=');
    if k < 17 {
        assert(line[k] == prefix[k]);
    }
    assert(k == 17);
    assert(first_index(line, '=') == Some(17int));
    assert(line.take(17) =~= key);
    lemma_trim_unchanged(key);
    assert(line.skip(18) =~= token);
    if token.len() > 0 {
        lemma_trim_unchanged(token);
        lemma_trim_start_at(token, CharClass::Quote, 0);
        assert(token.subrange(0, token.len() as int) =~= token);
        lemma_trim_end_at(token, CharClass::Quote, token.len() as int);
    } else {
        assert(trim(token) == token);
        assert(trim_by(token, CharClass::Quote) == token);
    }
    assert(env_line_value(line, key) == Some(token));
    lemma_split_by_nonempty(s, nl);
}

/// What `env_file_body` writes for a token is what `parse_env_value` reads
/// back under `VOCAGATEWAY_TOKEN`, for every public URL, as long as the token
/// holds no line break and neither starts nor ends with whitespace or a
/// double quote (a hex token never does).
pub proof fn law_env_token_reads_back(token: Seq<char>, public_url: Seq<char>)
    requires
        forall|i: int| 0 <= i < token.len() ==> token[i] != '\n',
        token.len() > 0 ==> !is_ws(token[0]) && token[0] != '"' && !is_ws(token.last())
            && token.last() != '"',
    ensures
        env_value_spec(env_body_spec(token, public_url), "VOCAGATEWAY_TOKEN"@) == Some(token),
{
    let after = "VOCAGATEWAY_PUBLISH_HOST="@ + PUBLISH_HOST@ + "\n"@
        + "VOCAGATEWAY_PUBLISH_PORT="@ + decimal(PUBLISH_PORT as nat) + "\n"@
        + "VOCAGATEWAY_PORT="@ + decimal(PUBLISH_PORT as nat) + "\n"@ + "VOCAGATEWAY_IMAGE="@
        + GATEWAY_IMAGE@ + "\n"@;
    let rest = if trim(public_url).len() == 0 {
        after
    } else {
        after + "VOCAGATEWAY_PUBLIC_URL="@ + trim(public_url) + "\n"@
    };
    assert(env_body_spec(token, public_url) =~= "VOCAGATEWAY_TOKEN="@ + token + "\n"@ + rest);
    lemma_token_line_reads_back(token, rest);
}

/// A token read back from `.env` is kept only when it is long enough: at
/// least `TOKEN_HEX_LEN` bytes of UTF-8 (`str::len`).
pub fn usable_token(parsed: Option<String>) -> (r: Option<String>)
    ensures
        match parsed {
            Some(t) => if vstd::utf8::encode_utf8(t@).len() as usize >= TOKEN_HEX_LEN {
                r == Some(t)
            } else {
                r is None
            },
            None => r is None,
        },
{
    match parsed {
        Some(t) => {
            let n = t.as_str().len();
            if n >= TOKEN_HEX_LEN {
                Some(t)
            } else {
                None
            }
        },
        None => None,
    }
}

// ---------------------------------------------------------------------------
// Docker outcomes
// ---------------------------------------------------------------------------

/// What running a `docker` command gave.
#[derive(Clone, Debug)]
pub enum CommandOutcome {
    /// The program could not be started.
    NotFound,
    /// It ran and exited with success.
    Succeeded { stdout: String },
    /// It ran and failed.
    Failed { stdout: String, stderr: String },
}

pub const DOCKER_NOT_RUNNING: &'static str =
    "Docker is installed but the engine is not running. Start Docker Desktop.";

pub const DOCKER_NOT_FOUND: &'static str =
    "Docker Desktop was not found. Install it (WSL2 required), then try again.";

pub const COMPOSE_MISSING: &'static str =
    "Docker is present but Compose is missing. Update Docker Desktop.";

pub const DOCKER_REACHABLE: &'static str = "Docker engine reachable";

/// The first of `lines` whose lowercase form mentions "server", trimmed.
pub open spec fn server_line(lines: Seq<Seq<char>>) -> Option<Seq<char>>
    decreases lines.len(),
{
    if lines.len() == 0 {
        None
    } else if crate::text::contains(ascii_lower_seq(lines[0]), "server"@) {
        Some(lines[0])
    } else {
        server_line(lines.drop_first())
    }
}

/// The version line `detect_docker` reports from `docker version`'s output.
pub open spec fn version_line_spec(stdout: Seq<char>) -> Seq<char> {
    match server_line(split_by(stdout, seq!['\n'])) {
        Some(l) => trim(l),
        None => DOCKER_REACHABLE@,
    }
}

/// What `detect_docker` concludes from `docker version` and, when that
/// succeeded, `docker compose version`.
pub open spec fn docker_spec(version: CommandOutcome, compose: CommandOutcome) -> (bool, Seq<char>) {
    match version {
        CommandOutcome::NotFound => (false, DOCKER_NOT_FOUND@),
        CommandOutcome::Failed { stdout, stderr } => (
            false,
            if trim(stderr@).len() == 0 {
                DOCKER_NOT_RUNNING@
            } else {
                "Docker engine not ready: "@ + trim(stderr@)
            },
        ),
        CommandOutcome::Succeeded { stdout } => match compose {
            CommandOutcome::Succeeded { stdout: c } => (
                true,
                if trim(c@).len() == 0 {
                    version_line_spec(stdout@)
                } else {
                    version_line_spec(stdout@) + "; "@ + trim(c@)
                },
            ),
            _ => (false, COMPOSE_MISSING@),
        },
    }
}

fn version_line(stdout: &Vec<char>) -> (out: Vec<char>)
    ensures
        out@ == version_line_spec(stdout@),
{
    let nl = vec!['\n'];
    assert(nl@ =~= seq!['\n']);
    let lines = split_chars(stdout, &nl);
    let ghost ls = vviews(lines@);
    let mut i: usize = 0;
    assert(ls.skip(0) =~= ls);
    while i < lines.len()
        invariant
            i <= lines.len(),
            ls == vviews(lines@),
            ls.len() == lines@.len(),
            server_line(ls.skip(i as int)) == server_line(ls),
            ls == split_by(stdout@, seq!['\n']),
        decreases lines.len() - i,
    {
        assert(ls.skip(i as int).drop_first() =~= ls.skip(i + 1));
        assert(ls.skip(i as int)[0] == lines@[i as int]@);
        let low = to_ascii_lower(&lines[i]);
        if chars_contain(&low, "server") {
            assert(server_line(ls.skip(i as int)) == Some(lines@[i as int]@));
            return trim_chars(&lines[i]);
        }
        i += 1;
    }
    chars_of(DOCKER_REACHABLE)
}

/// Whether Docker and Compose are usable, and what to tell the user.
pub fn detect_docker(version: &CommandOutcome, compose: &CommandOutcome) -> (r: (bool, String))
    ensures
        (r.0, r.1@) == docker_spec(*version, *compose),
{
    match version {
        CommandOutcome::NotFound => (false, crate::text::string_from(DOCKER_NOT_FOUND)),
        CommandOutcome::Failed { stdout: _, stderr } => {
            let e = chars_of(stderr.as_str());
            let t = trim_chars(&e);
            if t.len() == 0 {
                (false, crate::text::string_from(DOCKER_NOT_RUNNING))
            } else {
                let mut m: Vec<char> = Vec::new();
                push_str(&mut m, "Docker engine not ready: ");
                push_all(&mut m, &t);
                (false, string_of(&m))
            }
        },
        CommandOutcome::Succeeded { stdout } => {
            let out = chars_of(stdout.as_str());
            let mut line = version_line(&out);
            match compose {
                CommandOutcome::Succeeded { stdout: c } => {
                    let cv = chars_of(c.as_str());
                    let ct = trim_chars(&cv);
                    if ct.len() > 0 {
                        push_str(&mut line, "; ");
                        push_all(&mut line, &ct);
                    }
                    (true, string_of(&line))
                },
                _ => (false, crate::text::string_from(COMPOSE_MISSING)),
            }
        },
    }
}

/// Whether the gateway container is up: the compose files exist and
/// `docker compose ps -q gateway` printed a container id.
pub fn container_running(files_present: bool, ps: &CommandOutcome) -> (r: bool)
    ensures
        r == (files_present && match *ps {
            CommandOutcome::Succeeded { stdout } => trim(stdout@).len() > 0,
            _ => false,
        }),
{
    if !files_present {
        return false;
    }
    match ps {
        CommandOutcome::Succeeded { stdout } => {
            let s = chars_of(stdout.as_str());
            trim_chars(&s).len() > 0
        },
        _ => false,
    }
}

/// What a `docker compose` subcommand returned, as `run_compose` reports it.
pub open spec fn compose_result_spec(outcome: CommandOutcome) -> Result<Seq<char>, Seq<char>> {
    match outcome {
        CommandOutcome::NotFound => Err("Could not run docker compose."@),
        CommandOutcome::Succeeded { stdout } => Ok(trim(stdout@)),
        CommandOutcome::Failed { stdout, stderr } => Err(
            "docker compose failed: "@ + if trim(stderr@).len() == 0 {
                trim(stdout@)
            } else {
                trim(stderr@)
            },
        ),
    }
}

pub fn compose_result(outcome: &CommandOutcome) -> (r: Result<String, String>)
    ensures
        match (r, compose_result_spec(*outcome)) {
            (Ok(a), Ok(b)) => a@ == b,
            (Err(a), Err(b)) => a@ == b,
            _ => false,
        },
{
    match outcome {
        CommandOutcome::NotFound => Err(crate::text::string_from("Could not run docker compose.")),
        CommandOutcome::Succeeded { stdout } => {
            let s = chars_of(stdout.as_str());
            Ok(string_of(&trim_chars(&s)))
        },
        CommandOutcome::Failed { stdout, stderr } => {
            let e = chars_of(stderr.as_str());
            let et = trim_chars(&e);
            let mut m: Vec<char> = Vec::new();
            push_str(&mut m, "docker compose failed: ");
            if et.len() == 0 {
                let o = chars_of(stdout.as_str());
                push_all(&mut m, &trim_chars(&o));
            } else {
                push_all(&mut m, &et);
            }
            Err(string_of(&m))
        },
    }
}

pub const COMPOSE_FILE_MISSING: &'static str =
    "Gateway compose.yaml is missing. Click Start to recreate it.";

pub const ENV_FILE_MISSING: &'static str = "Gateway .env is missing. Click Start to recreate it.";

/// Both gateway files must exist before Compose runs.
pub fn compose_files_check(compose_exists: bool, env_exists: bool) -> (r: Result<(), &'static str>)
    ensures
        !compose_exists ==> r == Err::<(), &'static str>(COMPOSE_FILE_MISSING),
        compose_exists && !env_exists ==> r == Err::<(), &'static str>(ENV_FILE_MISSING),
        compose_exists && env_exists ==> r is Ok,
{
    if !compose_exists {
        return Err(COMPOSE_FILE_MISSING);
    }
    if !env_exists {
        return Err(ENV_FILE_MISSING);
    }
    Ok(())
}

// ---------------------------------------------------------------------------
// Start, stop, public URL, status
// ---------------------------------------------------------------------------

/// Before Start: Docker must be usable and the public URL valid. The URL to
/// write into `.env` is returned.
pub fn start(docker: &(bool, String), public_url: &str) -> (r: Result<String, String>)
    ensures
        !docker.0 ==> r == Err::<String, String>(docker.1),
        docker.0 ==> match (r, validate_spec(public_url@)) {
            (Ok(u), Ok(v)) => u@ == v,
            (Err(m), Err(v)) => m@ == v,
            _ => false,
        },
{
    if !docker.0 {
        return Err(docker.1.clone());
    }
    validate_public_url(public_url)
}

/// Start first pulls the pinned image of the gateway service (its outcome
/// is not checked; a missing registry image falls back to a local build).
pub fn start_pull_subcommand() -> (v: Vec<&'static str>)
    ensures
        v@.map_values(|s: &'static str| s@) == seq!["pull"@, COMPOSE_SERVICE@],
{
    let v = vec!["pull", COMPOSE_SERVICE];
    assert(v@.map_values(|s: &'static str| s@) =~= seq!["pull"@, COMPOSE_SERVICE@]);
    v
}

/// Then it brings the gateway service up, detached.
pub fn start_up_subcommand() -> (v: Vec<&'static str>)
    ensures
        v@.map_values(|s: &'static str| s@) == seq!["up"@, "-d"@, COMPOSE_SERVICE@],
{
    let v = vec!["up", "-d", COMPOSE_SERVICE];
    assert(v@.map_values(|s: &'static str| s@) =~= seq!["up"@, "-d"@, COMPOSE_SERVICE@]);
    v
}

/// Start succeeds exactly when bringing the service up did; its error is
/// the Compose error.
pub fn start_outcome(up: &CommandOutcome) -> (r: Result<(), String>)
    ensures
        match compose_result_spec(*up) {
            Ok(_) => r is Ok,
            Err(m) => (r matches Err(e) && e@ == m),
        },
{
    match compose_result(up) {
        Ok(_) => Ok(()),
        Err(e) => Err(e),
    }
}

/// Stop runs `down` and nothing more: never `--volumes`, so the models in
/// the named volume survive.
pub fn stop_subcommand() -> (v: Vec<&'static str>)
    ensures
        v@.map_values(|s: &'static str| s@) == seq!["down"@],
{
    let v = vec!["down"];
    assert(v@.map_values(|s: &'static str| s@) =~= seq!["down"@]);
    v
}

/// Before Stop: Docker must be usable. `Ok(true)` when there is a compose
/// file to bring down (never with `--volumes`), `Ok(false)` when there is
/// nothing to stop.
pub fn stop(docker: &(bool, String), compose_exists: bool) -> (r: Result<bool, String>)
    ensures
        !docker.0 ==> r == Err::<bool, String>(docker.1),
        docker.0 ==> r == Ok::<bool, String>(compose_exists),
{
    if !docker.0 {
        return Err(docker.1.clone());
    }
    Ok(compose_exists)
}

/// Saving a public URL: blank clears it; otherwise it must validate. `.1`
/// says whether the gateway files are to be rewritten (the directory
/// exists or a URL is set).
pub fn set_public_url(public_url: &str, dir_exists: bool) -> (r: Result<(String, bool), String>)
    ensures
        trim(public_url@).len() == 0 ==> (r matches Ok((u, w)) && u@.len() == 0 && w == dir_exists),
        trim(public_url@).len() > 0 ==> match (r, validate_spec(public_url@)) {
            (Ok((u, w)), Ok(v)) => u@ == v && w == (dir_exists || v.len() > 0),
            (Err(m), Err(v)) => m@ == v,
            _ => false,
        },
{
    let s = chars_of(public_url);
    let t = trim_chars(&s);
    let url = if t.len() == 0 {
        String::new()
    } else {
        match validate_public_url(public_url) {
            Ok(u) => u,
            Err(e) => {
                return Err(e);
            },
        }
    };
    let n = chars_of(url.as_str()).len();
    let write = dir_exists || n > 0;
    Ok((url, write))
}

/// Pairable before Ready: the gateway answers, the public URL is set and
/// not loopback, and the token exists.
pub open spec fn pairable_spec(live: bool, public_url: Seq<char>, token_ok: bool) -> bool {
    live && trim(public_url).len() > 0 && !loopback_spec(trim(public_url)) && token_ok
}

/// The status line for a phase.
pub open spec fn status_message_spec(phase: GatewayPhase, public_url: Seq<char>) -> Seq<char> {
    match phase {
        GatewayPhase::DockerMissing => "Install Docker Desktop for Windows (WSL2 required), then return here."@,
        GatewayPhase::Stopped => if public_url.len() == 0 {
            "Set a non-loopback public URL, then Start."@
        } else if loopback_spec(public_url) {
            "Replace localhost/127.0.0.1 with a LAN or Tailscale URL."@
        } else {
            "Gateway is stopped."@
        },
        GatewayPhase::Starting => "Container is up. Waiting for /health/live..."@,
        GatewayPhase::LiveNotReady => "Gateway is live. Model may still be downloading. Pairing can work before Ready."@,
        GatewayPhase::Ready => "Gateway is ready for dictation clients."@,
    }
}

fn status_message(phase: GatewayPhase, public: &str) -> (m: String)
    ensures
        m@ == status_message_spec(phase, public@),
{
    let text: &'static str = match phase {
        GatewayPhase::DockerMissing => "Install Docker Desktop for Windows (WSL2 required), then return here.",
        GatewayPhase::Stopped => {
            if public.is_empty() {
                "Set a non-loopback public URL, then Start."
            } else if is_loopback_public_url(public) {
                "Replace localhost/127.0.0.1 with a LAN or Tailscale URL."
            } else {
                "Gateway is stopped."
            }
        },
        GatewayPhase::Starting => "Container is up. Waiting for /health/live...",
        GatewayPhase::LiveNotReady => "Gateway is live. Model may still be downloading. Pairing can work before Ready.",
        GatewayPhase::Ready => "Gateway is ready for dictation clients.",
    };
    crate::text::string_from(text)
}

/// The status the settings page shows, from what the caller observed:
/// Docker's state, the LAN suggestion, whether the container is up, the
/// health probes and whether a usable token is on disk.
pub fn status(
    docker: &(bool, String),
    public_url: &str,
    suggested: Option<String>,
    container_up: bool,
    live: bool,
    ready: bool,
    token_ok: bool,
) -> (s: GatewayStatus)
    ensures
        s.phase == phase_spec(docker.0, docker.0 && container_up, docker.0 && live, docker.0 && ready),
        s.phase_label@ == phase_label_spec(s.phase),
        s.docker_available == docker.0,
        s.docker_detail == docker.1,
        s.public_url@ == trim(public_url@),
        s.suggested_public_url@ == match suggested {
            Some(u) => u@,
            None => Seq::<char>::empty(),
        },
        s.live == (docker.0 && live),
        s.ready == (docker.0 && ready),
        s.pairable == pairable_spec(docker.0 && live, public_url@, token_ok),
        s.message@ == status_message_spec(s.phase, trim(public_url@)),
        s.webui_url@ == WEBUI_URL@,
        s.docker_install_url@ == DOCKER_DESKTOP_INSTALL_URL@,
        s.gateway_site_url@ == GATEWAY_SITE_URL@,
        s.image@ == GATEWAY_IMAGE@,
        s.release_tag@ == GATEWAY_RELEASE_TAG@,
{
    let docker_available = docker.0;
    let p = chars_of(public_url);
    let pt = trim_chars(&p);
    let public = string_of(&pt);
    let container = docker_available && container_up;
    let is_live = docker_available && live;
    let is_ready = docker_available && ready;
    let phase = map_phase(docker_available, container, is_live, is_ready);
    let url_ok = pt.len() > 0 && !is_loopback_public_url(public.as_str());
    let pairable = is_live && url_ok && token_ok;
    let message = status_message(phase, public.as_str());
    let suggested_public_url = match suggested {
        Some(u) => u,
        None => String::new(),
    };
    GatewayStatus {
        phase,
        phase_label: crate::text::string_from(phase_label(phase)),
        docker_available,
        docker_detail: docker.1.clone(),
        public_url: public,
        suggested_public_url,
        pairable,
        live: is_live,
        ready: is_ready,
        message,
        webui_url: crate::text::string_from(WEBUI_URL),
        docker_install_url: crate::text::string_from(DOCKER_DESKTOP_INSTALL_URL),
        gateway_site_url: crate::text::string_from(GATEWAY_SITE_URL),
        image: crate::text::string_from(GATEWAY_IMAGE),
        release_tag: crate::text::string_from(GATEWAY_RELEASE_TAG),
    }
}

/// A 503 on /health/ready still means the process answered.
pub fn probe_live_ready(live_ok: bool, ready_ok: bool, ready_code: u16) -> (r: (bool, bool))
    ensures
        r == (live_ok || ready_ok || ready_code == 503, ready_ok),
{
    (live_ok || ready_ok || ready_code == 503, ready_ok)
}

// ---------------------------------------------------------------------------
// Pairing
// ---------------------------------------------------------------------------

/// The value of one standard base64 character.
pub open spec fn b64_value(c: u8) -> Option<u8> {
    if 65 <= c <= 90 {
        Some((c - 65) as u8)
    } else if 97 <= c <= 122 {
        Some((c - 97 + 26) as u8)
    } else if 48 <= c <= 57 {
        Some((c - 48 + 52) as u8)
    } else if c == 43 {
        Some(62u8)
    } else if c == 47 {
        Some(63u8)
    } else {
        None
    }
}

/// A group character is padding (`=`, read as 0) or a base64 character.
pub open spec fn sextet_ok(c: u8) -> bool {
    c == 61 || b64_value(c) is Some
}

pub open spec fn sextet(c: u8) -> u8 {
    if c == 61 {
        0
    } else {
        b64_value(c)->0
    }
}

/// The bytes one group of four characters decodes to; a padded third or
/// fourth character contributes no byte.
pub open spec fn group_bytes(g0: u8, g1: u8, g2: u8, g3: u8) -> Seq<u8> {
    let a = sextet(g0);
    let b = sextet(g1);
    let c = sextet(g2);
    let d = sextet(g3);
    let first = seq![((a << 2u8) | (b >> 4u8)) as u8];
    let second = if g2 != 61 {
        first.push(((b << 4u8) | (c >> 2u8)) as u8)
    } else {
        first
    };
    if g3 != 61 {
        second.push(((c << 6u8) | d) as u8)
    } else {
        second
    }
}

/// The first `k` groups of `bytes`, decoded; `None` when one holds a
/// character that is neither base64 nor padding.
pub open spec fn decode_groups(bytes: Seq<u8>, k: nat) -> Option<Seq<u8>>
    decreases k,
{
    if k == 0 {
        Some(seq![])
    } else {
        match decode_groups(bytes, (k - 1) as nat) {
            None => None,
            Some(out) => {
                let i = 4 * (k - 1);
                if sextet_ok(bytes[i]) && sextet_ok(bytes[i + 1]) && sextet_ok(bytes[i + 2])
                    && sextet_ok(bytes[i + 3]) {
                    Some(out + group_bytes(bytes[i], bytes[i + 1], bytes[i + 2], bytes[i + 3]))
                } else {
                    None
                }
            },
        }
    }
}

/// What `decode_base64` returns: every whole group of four decoded, a
/// shorter tail ignored.
pub open spec fn base64_spec(bytes: Seq<u8>) -> Option<Seq<u8>> {
    decode_groups(bytes, (bytes.len() / 4) as nat)
}

fn b64_sextet(c: u8) -> (r: Option<u8>)
    ensures
        r is Some <==> sextet_ok(c),
        r matches Some(v) ==> v == sextet(c),
{
    if c == 61 {
        Some(0)
    } else if 65 <= c && c <= 90 {
        Some(c - 65)
    } else if 97 <= c && c <= 122 {
        Some(c - 97 + 26)
    } else if 48 <= c && c <= 57 {
        Some(c - 48 + 52)
    } else if c == 43 {
        Some(62)
    } else if c == 47 {
        Some(63)
    } else {
        None
    }
}

pub const BAD_BASE64: &'static str = "bad base64";

/// Minimal standard base64 decoder for pairing payload checks.
pub fn decode_base64_bytes(bytes: &[u8]) -> (r: Result<Vec<u8>, &'static str>)
    ensures
        match r {
            Ok(out) => base64_spec(bytes@) == Some(out@),
            Err(m) => base64_spec(bytes@) is None && m == BAD_BASE64,
        },
{
    let n = bytes.len();
    let groups = n / 4;
    let mut out: Vec<u8> = Vec::new();
    let mut k: usize = 0;
    assert(4 * groups <= n) by (nonlinear_arith)
        requires
            groups == n / 4,
    ;
    while k < groups
        invariant
            groups == bytes@.len() / 4,
            n == bytes@.len(),
            4 * groups <= n,
            k <= groups,
            decode_groups(bytes@, k as nat) == Some(out@),
        decreases groups - k,
    {
        let i = 4 * k;
        let g0 = bytes[i];
        let g1 = bytes[i + 1];
        let g2 = bytes[i + 2];
        let g3 = bytes[i + 3];
        let a = match b64_sextet(g0) {
            Some(v) => v,
            None => {
                proof { lemma_decode_groups_none(bytes@, (k + 1) as nat, groups as nat); }
                return Err(BAD_BASE64);
            },
        };
        let b = match b64_sextet(g1) {
            Some(v) => v,
            None => {
                proof { lemma_decode_groups_none(bytes@, (k + 1) as nat, groups as nat); }
                return Err(BAD_BASE64);
            },
        };
        let c = match b64_sextet(g2) {
            Some(v) => v,
            None => {
                proof { lemma_decode_groups_none(bytes@, (k + 1) as nat, groups as nat); }
                return Err(BAD_BASE64);
            },
        };
        let d = match b64_sextet(g3) {
            Some(v) => v,
            None => {
                proof { lemma_decode_groups_none(bytes@, (k + 1) as nat, groups as nat); }
                return Err(BAD_BASE64);
            },
        };
        let ghost before = out@;
        out.push((a << 2u8) | (b >> 4u8));
        if g2 != 61 {
            out.push((b << 4u8) | (c >> 2u8));
        }
        if g3 != 61 {
            out.push((c << 6u8) | d);
        }
        assert(out@ =~= before + group_bytes(g0, g1, g2, g3));
        k += 1;
    }
    Ok(out)
}

proof fn lemma_decode_groups_none(bytes: Seq<u8>, k: nat, total: nat)
    requires
        k <= total,
        decode_groups(bytes, k) is None,
    ensures
        decode_groups(bytes, total) is None,
    decreases total - k,
{
    if k < total {
        lemma_decode_groups_none(bytes, k + 1, total);
    }
}

/// `decode_base64` on text.
pub fn decode_base64(input: &str) -> (r: Result<Vec<u8>, String>)
    ensures
        match r {
            Ok(out) => base64_spec(input.spec_bytes()) == Some(out@),
            Err(m) => base64_spec(input.spec_bytes()) is None && m@ == BAD_BASE64@,
        },
{
    match decode_base64_bytes(input.as_bytes()) {
        Ok(out) => Ok(out),
        Err(m) => Err(crate::text::string_from(m)),
    }
}

/// What `serde_json::from_slice::<serde_json::Value>` makes of `bytes`,
/// read as the string field `url`: `None` when the bytes are not JSON,
/// `Some(None)` when there is no string `url`, else `Some(Some(url))`.
pub uninterp spec fn json_url_field(bytes: Seq<u8>) -> Option<Option<Seq<char>>>;

/// `serde_json::from_slice` into a `Value`, then its `url` string. The
/// contract names the outcome by `json_url_field`; the parser's error text
/// is passed on and nothing is claimed of it.
#[verifier::external_body]
fn parse_json_url(bytes: &[u8]) -> (r: Result<Option<String>, String>)
    ensures
        match r {
            Ok(Some(u)) => json_url_field(bytes@) == Some(Some(u@)),
            Ok(None) => json_url_field(bytes@) == Some(None::<Seq<char>>),
            Err(_) => json_url_field(bytes@) is None,
        },
{
    match serde_json::from_slice::<serde_json::Value>(bytes) {
        Ok(json) => match json.get("url") {
            Some(serde_json::Value::String(url)) => Ok(Some(url.clone())),
            _ => Ok(None),
        },
        Err(error) => Err(error.to_string()),
    }
}

/// base64url to standard base64: `-` is `+`, `_` is `/`.
pub open spec fn url_safe_to_standard(b: u8) -> u8 {
    if b == 45 {
        43
    } else if b == 95 {
        47
    } else {
        b
    }
}

/// The payload's bytes in standard base64 with its padding restored;
/// `None` when its length leaves one character over.
pub open spec fn padded_payload(payload: Seq<u8>) -> Option<Seq<u8>> {
    let normalized = Seq::new(payload.len(), |i: int| url_safe_to_standard(payload[i]));
    if payload.len() % 4 == 0 {
        Some(normalized)
    } else if payload.len() % 4 == 2 {
        Some(normalized + seq![61u8, 61u8])
    } else if payload.len() % 4 == 3 {
        Some(normalized.push(61u8))
    } else {
        None
    }
}

/// What `decode_pairing_payload_url` returns for the payload's bytes.
pub open spec fn payload_url_spec(payload: Seq<u8>) -> Option<Seq<char>> {
    match padded_payload(payload) {
        None => None,
        Some(p) => match base64_spec(p) {
            None => None,
            Some(json) => match json_url_field(json) {
                Some(Some(url)) => Some(url),
                _ => None,
            },
        },
    }
}

/// The `url` inside a pairing payload (base64url JSON `{"v":1,"url":...}`).
pub fn decode_pairing_payload_url(payload: &str) -> (r: Result<String, String>)
    ensures
        match r {
            Ok(u) => payload_url_spec(payload.spec_bytes()) == Some(u@),
            Err(_) => payload_url_spec(payload.spec_bytes()) is None,
        },
{
    let raw = payload.as_bytes();
    let mut bytes: Vec<u8> = Vec::new();
    let mut i: usize = 0;
    while i < raw.len()
        invariant
            i <= raw.len(),
            bytes@ == Seq::new(i as nat, |j: int| url_safe_to_standard(raw@[j])),
        decreases raw.len() - i,
    {
        let b = raw[i];
        let m = if b == 45 {
            43
        } else if b == 95 {
            47
        } else {
            b
        };
        bytes.push(m);
        i += 1;
        assert(bytes@ =~= Seq::new(i as nat, |j: int| url_safe_to_standard(raw@[j])));
    }
    let rem = raw.len() % 4;
    if rem == 1 {
        return Err(crate::text::string_from("bad padding"));
    }
    if rem == 2 {
        bytes.push(61);
        bytes.push(61);
    } else if rem == 3 {
        bytes.push(61);
    }
    proof {
        let normalized = Seq::new(raw@.len(), |j: int| url_safe_to_standard(raw@[j]));
        if rem == 2 {
            assert(bytes@ =~= normalized + seq![61u8, 61u8]);
        } else if rem == 3 {
            assert(bytes@ =~= normalized.push(61u8));
        } else {
            assert(bytes@ =~= normalized);
        }
    }
    let json = match decode_base64_bytes(bytes.as_slice()) {
        Ok(j) => j,
        Err(m) => {
            return Err(crate::text::string_from(m));
        },
    };
    match parse_json_url(json.as_slice()) {
        Ok(Some(url)) => Ok(url),
        Ok(None) => Err(crate::text::string_from("missing url")),
        Err(e) => Err(e),
    }
}

/// The public URL offered for this machine on the LAN: `http://{ip}:8765`
/// for the address the outbound route uses (`ip`, as text), unless that
/// address is a loopback or unspecified one (`local_only`) or the URL
/// would count as loopback.
pub fn lan_url_candidate(ip: &str, local_only: bool) -> (r: Option<String>)
    ensures
        local_only ==> r is None,
        !local_only ==> ({
            let candidate = "http://"@ + ip@ + ":"@ + decimal(PUBLISH_PORT as nat);
            if loopback_spec(candidate) {
                r is None
            } else {
                r matches Some(u) && u@ == candidate
            }
        }),
{
    if local_only {
        return None;
    }
    let mut v: Vec<char> = Vec::new();
    push_str(&mut v, "http://");
    push_str(&mut v, ip);
    push_str(&mut v, ":");
    push_decimal(&mut v, PUBLISH_PORT as u64);
    let candidate = string_of(&v);
    if is_loopback_public_url(candidate.as_str()) {
        None
    } else {
        Some(candidate)
    }
}

pub const TOKEN_MISSING: &'static str =
    "Gateway token is missing. Start Gateway once to create the .env file.";

pub const NOT_LIVE: &'static str = "Gateway is not live yet. Wait until status is Live or Ready.";

/// What a pairing needs before it asks the gateway: a valid public URL and
/// the token read from `.env`, checked in that order.
pub fn pairing_inputs(public_url: &str, token: Option<String>) -> (r: Result<(String, String), String>)
    ensures
        match validate_spec(public_url@) {
            Err(m) => (r matches Err(e) && e@ == m),
            Ok(u) => match token {
                None => (r matches Err(e) && e@ == TOKEN_MISSING@),
                Some(t) => (r matches Ok(p) && p.0@ == u && p.1 == t),
            },
        },
{
    let url = match validate_public_url(public_url) {
        Ok(u) => u,
        Err(e) => {
            return Err(e);
        },
    };
    match token {
        None => Err(crate::text::string_from(TOKEN_MISSING)),
        Some(t) => Ok((url, t)),
    }
}

/// A pairing goes ahead only while the gateway answers its live probe.
pub fn pairing_live_check(live: bool) -> (r: Result<(), String>)
    ensures
        live ==> r is Ok,
        !live ==> (r matches Err(m) && m@ == NOT_LIVE@),
{
    if live {
        Ok(())
    } else {
        Err(crate::text::string_from(NOT_LIVE))
    }
}

/// The admin endpoint that pairs a client with `url`.
pub fn pairing_endpoint(url: &str) -> (out: String)
    ensures
        out@ == LOCAL_BASE_URL@ + "/v1/admin/pairing?url="@ + percent_encode(url.spec_bytes()),
{
    let mut v: Vec<char> = Vec::new();
    push_str(&mut v, LOCAL_BASE_URL);
    push_str(&mut v, "/v1/admin/pairing?url=");
    let enc = urlencoding_minimal(url);
    push_str(&mut v, enc.as_str());
    string_of(&v)
}

pub const PAYLOAD_LOOPBACK: &'static str =
    "Pairing payload still has a loopback URL. Check VOCAGATEWAY_PUBLIC_URL.";

pub const RESPONSE_LOOPBACK: &'static str =
    "Pairing response returned a loopback URL. Check VOCAGATEWAY_PUBLIC_URL.";

/// The URL a pairing shows, from the gateway's answer: a payload that
/// decodes to a loopback URL is refused, then the answer's `url` (or the
/// public URL when it has none) must not be loopback.
pub fn pairing_display_url(payload: &str, response_url: Option<String>, public_url: String) -> (r:
    Result<String, String>)
    ensures
        (payload_url_spec(payload.spec_bytes()) matches Some(u) && loopback_spec(u)) ==> (r matches Err(
            m,
        ) && m@ == PAYLOAD_LOOPBACK@),
        !(payload_url_spec(payload.spec_bytes()) matches Some(u) && loopback_spec(u)) ==> {
            let shown = match response_url {
                Some(u) => u,
                None => public_url,
            };
            if loopback_spec(shown@) {
                (r matches Err(m) && m@ == RESPONSE_LOOPBACK@)
            } else {
                r == Ok::<String, String>(shown)
            }
        },
{
    match decode_pairing_payload_url(payload) {
        Ok(decoded) => {
            if is_loopback_public_url(decoded.as_str()) {
                return Err(crate::text::string_from(PAYLOAD_LOOPBACK));
            }
        },
        Err(_) => {},
    }
    let shown = match response_url {
        Some(u) => u,
        None => public_url,
    };
    if is_loopback_public_url(shown.as_str()) {
        return Err(crate::text::string_from(RESPONSE_LOOPBACK));
    }
    Ok(shown)
}

/// An unreserved URL byte: letters, digits, `-`, `_`, `.`, `~`.
pub open spec fn unreserved(b: u8) -> bool {
    (65 <= b <= 90) || (97 <= b <= 122) || (48 <= b <= 57) || b == 45 || b == 95 || b == 46 || b
        == 126
}

pub open spec fn upper_hex_digit(d: u8) -> char {
    if d < 10 {
        ((d as u32) + 0x30) as char
    } else {
        ((d as u32) - 10 + 0x41) as char
    }
}

/// Percent-encoding of every byte that is not unreserved.
pub open spec fn percent_encode(bytes: Seq<u8>) -> Seq<char>
    decreases bytes.len(),
{
    if bytes.len() == 0 {
        seq![]
    } else {
        let b = bytes.last();
        let before = percent_encode(bytes.drop_last());
        if unreserved(b) {
            before.push(b as char)
        } else {
            before + seq!['%', upper_hex_digit(b / 16), upper_hex_digit(b % 16)]
        }
    }
}

fn upper_hex_char(d: u8) -> (c: char)
    requires
        d < 16,
    ensures
        c == upper_hex_digit(d),
{
    if d < 10 {
        (d + 0x30) as char
    } else {
        (d - 10 + 0x41) as char
    }
}

/// The public URL as a query value.
pub fn urlencoding_minimal(value: &str) -> (out: String)
    ensures
        out@ == percent_encode(value.spec_bytes()),
{
    let bytes = value.as_bytes();
    let mut out: Vec<char> = Vec::new();
    let mut i: usize = 0;
    while i < bytes.len()
        invariant
            i <= bytes.len(),
            out@ == percent_encode(bytes@.take(i as int)),
        decreases bytes.len() - i,
    {
        assert(bytes@.take(i + 1).drop_last() =~= bytes@.take(i as int));
        let b = bytes[i];
        if (65 <= b && b <= 90) || (97 <= b && b <= 122) || (48 <= b && b <= 57) || b == 45 || b
            == 95 || b == 46 || b == 126 {
            out.push(b as char);
        } else {
            out.push('%');
            out.push(upper_hex_char(b / 16));
            out.push(upper_hex_char(b % 16));
        }
        i += 1;
    }
    assert(bytes@.take(bytes.len() as int) =~= bytes@);
    string_of(&out)
}


/// The arguments of `docker` for a Compose subcommand on the gateway
/// project: `compose -p vocagateway -f <compose.yaml> --env-file <.env>`,
/// then the subcommand.
pub fn compose_args(compose_path: &str, env_path: &str, subcommand: &[&str]) -> (out: Vec<String>)
    ensures
        crate::text::views(out@) == seq!["compose"@, "-p"@, COMPOSE_PROJECT@, "-f"@, compose_path@, "--env-file"@, env_path@]
            + subcommand@.map_values(|s: &str| s@),
{
    let mut out: Vec<String> = Vec::new();
    out.push(crate::text::string_from("compose"));
    out.push(crate::text::string_from("-p"));
    out.push(crate::text::string_from(COMPOSE_PROJECT));
    out.push(crate::text::string_from("-f"));
    out.push(crate::text::string_from(compose_path));
    out.push(crate::text::string_from("--env-file"));
    out.push(crate::text::string_from(env_path));
    let ghost head = crate::text::views(out@);
    assert(head =~= seq!["compose"@, "-p"@, COMPOSE_PROJECT@, "-f"@, compose_path@, "--env-file"@, env_path@]);
    let mut i: usize = 0;
    while i < subcommand.len()
        invariant
            i <= subcommand@.len(),
            crate::text::views(out@) == head + subcommand@.map_values(|s: &str| s@).take(i as int),
        decreases subcommand@.len() - i,
    {
        let ghost before = crate::text::views(out@);
        out.push(crate::text::string_from(subcommand[i]));
        assert(crate::text::views(out@) =~= before.push(subcommand@[i as int]@));
        assert(subcommand@.map_values(|s: &str| s@).take(i + 1) =~= subcommand@.map_values(|s: &str| s@).take(i as int).push(subcommand@[i as int]@));
        i += 1;
    }
    assert(subcommand@.map_values(|s: &str| s@).take(subcommand@.len() as int) =~= subcommand@.map_values(|s: &str| s@));
    out
}

// ---------------------------------------------------------------------------
// base64 round trip
// ---------------------------------------------------------------------------

/// The standard base64 character for a six-bit value.
pub open spec fn b64_char(v: u8) -> u8 {
    if v < 26 {
        (65 + v) as u8
    } else if v < 52 {
        (97 + v - 26) as u8
    } else if v < 62 {
        (48 + v - 52) as u8
    } else if v == 62 {
        43u8
    } else {
        47u8
    }
}

/// Standard base64 with `=` padding.
pub open spec fn base64_encode(bytes: Seq<u8>) -> Seq<u8>
    decreases bytes.len(),
{
    if bytes.len() == 0 {
        seq![]
    } else if bytes.len() == 1 {
        let x = bytes[0];
        seq![b64_char(x >> 2u8), b64_char(((x & 3u8) << 4u8) as u8), 61u8, 61u8]
    } else if bytes.len() == 2 {
        let x = bytes[0];
        let y = bytes[1];
        seq![
            b64_char(x >> 2u8),
            b64_char((((x & 3u8) << 4u8) | (y >> 4u8)) as u8),
            b64_char(((y & 15u8) << 2u8) as u8),
            61u8,
        ]
    } else {
        let x = bytes[0];
        let y = bytes[1];
        let z = bytes[2];
        seq![
            b64_char(x >> 2u8),
            b64_char((((x & 3u8) << 4u8) | (y >> 4u8)) as u8),
            b64_char((((y & 15u8) << 2u8) | (z >> 6u8)) as u8),
            b64_char(z & 63u8),
        ] + base64_encode(bytes.skip(3))
    }
}

proof fn lemma_b64_char(v: u8)
    requires
        v < 64,
    ensures
        sextet_ok(b64_char(v)),
        sextet(b64_char(v)) == v,
        b64_char(v) != 61,
{
}

proof fn lemma_encode_len(bytes: Seq<u8>)
    ensures
        base64_encode(bytes).len() % 4 == 0,
        bytes.len() > 0 ==> base64_encode(bytes).len() >= 4,
    decreases bytes.len(),
{
    if bytes.len() >= 3 {
        lemma_encode_len(bytes.skip(3));
    }
}

/// Decoding a text that starts with one good group decodes that group, then
/// the rest.
proof fn lemma_decode_after_group(g: Seq<u8>, t: Seq<u8>, k: nat)
    requires
        g.len() == 4,
        sextet_ok(g[0]) && sextet_ok(g[1]) && sextet_ok(g[2]) && sextet_ok(g[3]),
        t.len() >= 4 * k,
    ensures
        decode_groups(g + t, k + 1) == (match decode_groups(t, k) {
            None => None,
            Some(o) => Some(group_bytes(g[0], g[1], g[2], g[3]) + o),
        }),
    decreases k,
{
    let s = g + t;
    if k == 0 {
        assert(s[0] == g[0] && s[1] == g[1] && s[2] == g[2] && s[3] == g[3]);
        assert(decode_groups(s, 0) == Some(Seq::<u8>::empty()));
        assert(Seq::<u8>::empty() + group_bytes(g[0], g[1], g[2], g[3]) =~= group_bytes(
            g[0],
            g[1],
            g[2],
            g[3],
        ) + Seq::<u8>::empty());
    } else {
        lemma_decode_after_group(g, t, (k - 1) as nat);
        let i: int = 4 * (k as int);
        let j: int = 4 * (k - 1);
        assert(s[i] == t[j] && s[i + 1] == t[j + 1] && s[i + 2] == t[j + 2] && s[i + 3] == t[j + 3]);
        match decode_groups(t, (k - 1) as nat) {
            None => {},
            Some(o) => {
                let gb = group_bytes(g[0], g[1], g[2], g[3]);
                let tb = group_bytes(t[j], t[j + 1], t[j + 2], t[j + 3]);
                assert(gb + o + tb =~= gb + (o + tb));
            },
        }
    }
}

/// One encoded group decodes to the bytes it came from.
proof fn lemma_group_round_trip(x: u8, y: u8, z: u8)
    ensures
        group_bytes(
            b64_char(x >> 2u8),
            b64_char((((x & 3u8) << 4u8) | (y >> 4u8)) as u8),
            b64_char((((y & 15u8) << 2u8) | (z >> 6u8)) as u8),
            b64_char(z & 63u8),
        ) == seq![x, y, z],
        group_bytes(
            b64_char(x >> 2u8),
            b64_char((((x & 3u8) << 4u8) | (y >> 4u8)) as u8),
            b64_char(((y & 15u8) << 2u8) as u8),
            61u8,
        ) == seq![x, y],
        group_bytes(b64_char(x >> 2u8), b64_char(((x & 3u8) << 4u8) as u8), 61u8, 61u8) == seq![x],
{
    let a = x >> 2u8;
    let b = (((x & 3u8) << 4u8) | (y >> 4u8)) as u8;
    let c = (((y & 15u8) << 2u8) | (z >> 6u8)) as u8;
    let d = z & 63u8;
    let b1 = ((x & 3u8) << 4u8) as u8;
    let c2 = ((y & 15u8) << 2u8) as u8;
    assert(a < 64 && b < 64 && c < 64 && d < 64 && b1 < 64 && c2 < 64) by (bit_vector)
        requires
            a == x >> 2u8,
            b == (((x & 3u8) << 4u8) | (y >> 4u8)) as u8,
            c == (((y & 15u8) << 2u8) | (z >> 6u8)) as u8,
            d == z & 63u8,
            b1 == ((x & 3u8) << 4u8) as u8,
            c2 == ((y & 15u8) << 2u8) as u8,
    ;
    lemma_b64_char(a);
    lemma_b64_char(b);
    lemma_b64_char(c);
    lemma_b64_char(d);
    lemma_b64_char(b1);
    lemma_b64_char(c2);
    assert(((a << 2u8) | (b >> 4u8)) as u8 == x) by (bit_vector)
        requires
            a == x >> 2u8,
            b == (((x & 3u8) << 4u8) | (y >> 4u8)) as u8,
    ;
    assert(((b << 4u8) | (c >> 2u8)) as u8 == y) by (bit_vector)
        requires
            b == (((x & 3u8) << 4u8) | (y >> 4u8)) as u8,
            c == (((y & 15u8) << 2u8) | (z >> 6u8)) as u8,
    ;
    assert(((c << 6u8) | d) as u8 == z) by (bit_vector)
        requires
            c == (((y & 15u8) << 2u8) | (z >> 6u8)) as u8,
            d == z & 63u8,
    ;
    assert(((a << 2u8) | (b1 >> 4u8)) as u8 == x) by (bit_vector)
        requires
            a == x >> 2u8,
            b1 == ((x & 3u8) << 4u8) as u8,
    ;
    assert(((b << 4u8) | (c2 >> 2u8)) as u8 == y) by (bit_vector)
        requires
            b == (((x & 3u8) << 4u8) | (y >> 4u8)) as u8,
            c2 == ((y & 15u8) << 2u8) as u8,
    ;
}

/// base64 decodes what was encoded: the decoder gives back every byte
/// sequence from its standard, padded encoding.
pub proof fn law_base64_decodes_what_was_encoded(bytes: Seq<u8>)
    ensures
        base64_spec(base64_encode(bytes)) == Some(bytes),
    decreases bytes.len(),
{
    let e = base64_encode(bytes);
    lemma_encode_len(bytes);
    if bytes.len() == 0 {
    } else if bytes.len() < 3 {
        let x = bytes[0];
        let y = if bytes.len() == 2 { bytes[1] } else { 0u8 };
        lemma_group_round_trip(x, y, 0u8);
        assert((x >> 2u8) < 64) by (bit_vector);
        lemma_b64_char(x >> 2u8);
        assert((((x & 3u8) << 4u8) as u8) < 64) by (bit_vector);
        assert(((((x & 3u8) << 4u8) | (y >> 4u8)) as u8) < 64) by (bit_vector);
        assert((((y & 15u8) << 2u8) as u8) < 64) by (bit_vector);
        lemma_b64_char(((x & 3u8) << 4u8) as u8);
        lemma_b64_char((((x & 3u8) << 4u8) | (y >> 4u8)) as u8);
        lemma_b64_char(((y & 15u8) << 2u8) as u8);
        lemma_decode_after_group(e, Seq::<u8>::empty(), 0);
        assert(e + Seq::<u8>::empty() =~= e);
        if bytes.len() == 2 {
            assert(bytes =~= seq![x, y]);
        } else {
            assert(bytes =~= seq![x]);
        }
        assert(Seq::<u8>::empty() + group_bytes(e[0], e[1], e[2], e[3]) =~= group_bytes(
            e[0],
            e[1],
            e[2],
            e[3],
        ));
    } else {
        let x = bytes[0];
        let y = bytes[1];
        let z = bytes[2];
        let rest = bytes.skip(3);
        law_base64_decodes_what_was_encoded(rest);
        lemma_encode_len(rest);
        let t = base64_encode(rest);
        let g = e.take(4);
        assert(e =~= g + t);
        lemma_group_round_trip(x, y, z);
        assert((x >> 2u8) < 64) by (bit_vector);
        assert(((((x & 3u8) << 4u8) | (y >> 4u8)) as u8) < 64) by (bit_vector);
        assert(((((y & 15u8) << 2u8) | (z >> 6u8)) as u8) < 64) by (bit_vector);
        assert((z & 63u8) < 64) by (bit_vector);
        lemma_b64_char(x >> 2u8);
        lemma_b64_char((((x & 3u8) << 4u8) | (y >> 4u8)) as u8);
        lemma_b64_char((((y & 15u8) << 2u8) | (z >> 6u8)) as u8);
        lemma_b64_char(z & 63u8);
        let k = (t.len() / 4) as nat;
        lemma_decode_after_group(g, t, k);
        assert(e.len() / 4 == k + 1);
        assert(bytes =~= seq![x, y, z] + rest);
    }
}

} // verus!
