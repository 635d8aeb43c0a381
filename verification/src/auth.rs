//! The authenticator: validates a Basic or Bearer `Authorization` header
//! against the stored auth policy.
//!
//! The policy is a JSON object with optional `username`, `password` and
//! `tokenData` fields. Basic credentials are base64 text decoding to
//! `user:password`; Bearer carries the token directly.

use vstd::prelude::*;
use crate::chars::{str_chars, chars_string, sub_chars, match_at, bytes_to_string, utf8_decode};
use crate::json::{JsonValue, json_parse, json_get_spec, json_str_spec};
use crate::models::AuthData;

verus! {

pub open spec fn basic_prefix() -> Seq<char> {
    seq!['B', 'a', 's', 'i', 'c', ' ']
}

pub open spec fn bearer_prefix() -> Seq<char> {
    seq!['B', 'e', 'a', 'r', 'e', 'r', ' ']
}

pub open spec fn username_key() -> Seq<char> {
    seq!['u', 's', 'e', 'r', 'n', 'a', 'm', 'e']
}

pub open spec fn password_key() -> Seq<char> {
    seq!['p', 'a', 's', 's', 'w', 'o', 'r', 'd']
}

pub open spec fn token_data_key() -> Seq<char> {
    seq!['t', 'o', 'k', 'e', 'n', 'D', 'a', 't', 'a']
}

/// The bytes a standard-alphabet base64 text denotes, or nothing when it is
/// not such a text. The decoder's reading is a function of the text alone.
pub uninterp spec fn base64_decode(s: Seq<char>) -> Option<Seq<u8>>;

/// Relies on base64's `STANDARD` engine: decodes canonical, padded base64.
#[verifier::external_body]
fn base64_decode_std(s: &str) -> (r: Option<Vec<u8>>)
    ensures
        match r {
            Some(v) => base64_decode(s@) == Some(v@),
            None => base64_decode(s@) is None,
        },
{
    base64::Engine::decode(&base64::engine::general_purpose::STANDARD, s).ok()
}

/// One credential field of a parsed policy: absent or JSON null give no
/// value, a string gives it, anything else makes the policy unreadable.
pub open spec fn policy_field(v: JsonValue, name: Seq<char>) -> Option<Option<Seq<char>>> {
    match json_get_spec(v, name) {
        Option::None => Some(None),
        Option::Some(f) => match f {
            JsonValue::Null => Some(None),
            JsonValue::Str(_) => Some(json_str_spec(f)),
            _ => None,
        },
    }
}

/// The credentials a policy text holds: it must be a JSON object whose
/// `username`, `password` and `tokenData` fields, where present, are
/// strings or null.
pub open spec fn policy_spec(s: Seq<char>) -> Option<(
    Option<Seq<char>>,
    Option<Seq<char>>,
    Option<Seq<char>>,
)> {
    match json_parse(s) {
        Option::None => None,
        Option::Some(v) => if !(v is Obj) {
            None
        } else {
            match (policy_field(v, username_key()), policy_field(v, password_key()), policy_field(
                v,
                token_data_key(),
            )) {
                (Some(u), Some(p), Some(t)) => Some((u, p, t)),
                _ => None,
            }
        },
    }
}

/// Index of the first `:` in `s`, or the length when there is none.
pub open spec fn colon_pos(s: Seq<char>, i: int) -> int
    decreases s.len() - i,
{
    if i < 0 || i >= s.len() {
        s.len() as int
    } else if s[i] == ':' {
        i
    } else {
        colon_pos(s, i + 1)
    }
}

/// Whether Basic credentials in `header` satisfy the policy: the text after
/// `Basic ` must decode to `user:password` matching the policy's stored
/// username and password, both of which must be present.
pub open spec fn basic_auth_ok(policy: Seq<char>, header: Seq<char>) -> bool {
    let enc = header.subrange(basic_prefix().len() as int, header.len() as int);
    match base64_decode(enc) {
        Option::None => false,
        Option::Some(bytes) => match utf8_decode(bytes) {
            Option::None => false,
            Option::Some(creds) => {
                let c = colon_pos(creds, 0);
                if c >= creds.len() {
                    false
                } else {
                    let u = creds.subrange(0, c);
                    let p = creds.subrange(c + 1, creds.len() as int);
                    match policy_spec(policy) {
                        Option::None => false,
                        Option::Some(fields) => fields.0 == Some(u) && fields.1 == Some(p),
                    }
                }
            },
        },
    }
}

/// Whether a Bearer token in `header` satisfies the policy: the text after
/// `Bearer ` must equal the policy's stored token.
pub open spec fn bearer_auth_ok(policy: Seq<char>, header: Seq<char>) -> bool {
    let tok = header.subrange(bearer_prefix().len() as int, header.len() as int);
    match policy_spec(policy) {
        Option::None => false,
        Option::Some(fields) => fields.2 == Some(tok),
    }
}

/// Whether the request passes the auth gate: a missing header fails; a
/// `Basic ` header goes by the credentials, a `Bearer ` header by the
/// token, anything else fails. A missing policy fails both schemes.
pub open spec fn auth_ok(auth_data: Option<Seq<char>>, auth_header: Option<Seq<char>>) -> bool {
    match auth_header {
        Option::None => false,
        Option::Some(h) => if match_at(h, basic_prefix(), 0) {
            match auth_data {
                Option::Some(p) => basic_auth_ok(p, h),
                Option::None => false,
            }
        } else if match_at(h, bearer_prefix(), 0) {
            match auth_data {
                Option::Some(p) => bearer_auth_ok(p, h),
                Option::None => false,
            }
        } else {
            false
        },
    }
}

/// Reads the policy text into its credential fields, when it is readable.
fn parse_policy(s: &str) -> (r: Option<AuthData>)
    ensures
        match r {
            Some(a) => policy_spec(s@) matches Some(f) && f.0 == (match a.username {
                Some(u) => Some(u@),
                None => None::<Seq<char>>,
            }) && f.1 == (match a.password {
                Some(p) => Some(p@),
                None => None::<Seq<char>>,
            }) && f.2 == (match a.token_data {
                Some(t) => Some(t@),
                None => None::<Seq<char>>,
            }),
            None => policy_spec(s@) is None,
        },
{
    let v = match crate::json::parse_json(s) {
        Some(v) => v,
        None => {
            return None;
        },
    };
    match v {
        JsonValue::Obj(_) => {},
        _ => {
            return None;
        },
    }
    let username = match read_policy_field(&v, "username") {
        Some(u) => u,
        None => {
            proof {
                reveal_strlit("username");
                assert("username"@ =~= username_key());
            }
            return None;
        },
    };
    let password = match read_policy_field(&v, "password") {
        Some(p) => p,
        None => {
            proof {
                reveal_strlit("password");
                assert("password"@ =~= password_key());
            }
            return None;
        },
    };
    let token_data = match read_policy_field(&v, "tokenData") {
        Some(t) => t,
        None => {
            proof {
                reveal_strlit("tokenData");
                assert("tokenData"@ =~= token_data_key());
            }
            return None;
        },
    };
    proof {
        reveal_strlit("username");
        reveal_strlit("password");
        reveal_strlit("tokenData");
        assert("username"@ =~= username_key());
        assert("password"@ =~= password_key());
        assert("tokenData"@ =~= token_data_key());
    }
    Some(AuthData { username, password, token_data })
}

/// One field of the policy object, cloned out.
fn read_policy_field(v: &JsonValue, name: &str) -> (r: Option<Option<String>>)
    ensures
        match r {
            Some(Some(s)) => policy_field(*v, name@) == Some(Some(s@)),
            Some(None) => policy_field(*v, name@) == Some(None::<Seq<char>>),
            None => policy_field(*v, name@) is None,
        },
{
    match crate::json::json_get(v, name) {
        None => Some(None),
        Some(f) => match f {
            JsonValue::Null => Some(None),
            JsonValue::Str(s) => Some(Some(s.clone())),
            _ => None,
        },
    }
}

/// Validates the authorization header against the stored policy.
pub fn validate_auth(auth_data: Option<String>, auth_header: Option<String>) -> (r: bool)
    ensures
        r == auth_ok(
            match auth_data {
                Some(a) => Some(a@),
                None => None::<Seq<char>>,
            },
            match auth_header {
                Some(h) => Some(h@),
                None => None::<Seq<char>>,
            },
        ),
{
    let header = match auth_header {
        Some(h) => h,
        None => {
            return false;
        },
    };
    let h = str_chars(header.as_str());
    let basic = str_chars("Basic ");
    let bearer = str_chars("Bearer ");
    proof {
        reveal_strlit("Basic ");
        reveal_strlit("Bearer ");
        assert("Basic "@ =~= basic_prefix());
        assert("Bearer "@ =~= bearer_prefix());
    }
    if crate::chars::chars_start_with(&h, &basic, 0) {
        match auth_data {
            Some(p) => validate_basic_auth(&p, &h),
            None => false,
        }
    } else if crate::chars::chars_start_with(&h, &bearer, 0) {
        match auth_data {
            Some(p) => validate_bearer_token(&p, &h),
            None => false,
        }
    } else {
        false
    }
}

/// The Basic scheme: base64-decode what follows the prefix, split at the
/// first colon, and compare both parts with the policy.
fn validate_basic_auth(policy: &String, header: &Vec<char>) -> (r: bool)
    requires
        match_at(header@, basic_prefix(), 0),
    ensures
        r == basic_auth_ok(policy@, header@),
{
    let enc = sub_chars(header, 6, header.len());
    proof {
        assert(basic_prefix().len() == 6);
    }
    let enc_str = chars_string(&enc);
    let bytes = match base64_decode_std(enc_str.as_str()) {
        Some(b) => b,
        None => {
            return false;
        },
    };
    let creds_str = match bytes_to_string(bytes) {
        Some(s) => s,
        None => {
            return false;
        },
    };
    let creds = str_chars(creds_str.as_str());
    let mut c: usize = 0;
    while c < creds.len() && creds[c] != ':'
        invariant
            0 <= c <= creds@.len(),
            colon_pos(creds@, 0) == colon_pos(creds@, c as int),
        decreases creds@.len() - c,
    {
        c += 1;
    }
    if c >= creds.len() {
        proof {
            assert(colon_pos(creds@, 0) == creds@.len());
        }
        return false;
    }
    proof {
        assert(colon_pos(creds@, c as int) == c as int);
    }
    let user = chars_string(&sub_chars(&creds, 0, c));
    let pass = chars_string(&sub_chars(&creds, c + 1, creds.len()));
    let auth = match parse_policy(policy.as_str()) {
        Some(a) => a,
        None => {
            return false;
        },
    };
    let user_ok = match &auth.username {
        Some(u) => crate::chars::str_eq(u.as_str(), user.as_str()),
        None => false,
    };
    let pass_ok = match &auth.password {
        Some(p) => crate::chars::str_eq(p.as_str(), pass.as_str()),
        None => false,
    };
    user_ok && pass_ok
}

/// The Bearer scheme: compare what follows the prefix with the stored token.
fn validate_bearer_token(policy: &String, header: &Vec<char>) -> (r: bool)
    requires
        match_at(header@, bearer_prefix(), 0),
    ensures
        r == bearer_auth_ok(policy@, header@),
{
    let tok = chars_string(&sub_chars(header, 7, header.len()));
    proof {
        assert(bearer_prefix().len() == 7);
    }
    let auth = match parse_policy(policy.as_str()) {
        Some(a) => a,
        None => {
            return false;
        },
    };
    match &auth.token_data {
        Some(t) => crate::chars::str_eq(t.as_str(), tok.as_str()),
        None => false,
    }
}

} // verus!
