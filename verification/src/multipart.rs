//! The admin registration assembler: turns the fields of a register form
//! into an endpoint descriptor and, when asked, a gRPC mock registration.
//!
//! The transport — streaming the multipart parts — happens outside; this
//! code receives each part's name and bytes in arrival order and applies
//! the same rules the admin surface documents: later parts overwrite
//! earlier ones, string fields must be UTF-8, `path` and `file` are
//! required, and numbers fall back to defaults when unreadable.

use vstd::prelude::*;
use crate::chars::{str_chars, chars_string, sub_chars, copy_bytes, str_eq, bytes_to_string, utf8_decode};
use crate::json::{JsonValue, json_parse, parse_json};
use crate::models::{Endpoint, RateLimit, GrpcMockResponse, MultipartHandler, ErrorKind};
use crate::numbers::{parse_u16, parse_u64, parse_usize, parse_bool, parse_u16_spec, parse_u64_spec, parse_usize_spec, parse_bool_spec};
use crate::params::find_until;

verus! {

/// The assembler's running state: what the fields seen so far have set.
pub struct RegState {
    pub path: Option<Seq<char>>,
    pub methods: Option<Seq<char>>,
    pub status_code: Option<u16>,
    pub file: bool,
    pub file_data: Seq<u8>,
    pub authentication: Option<Seq<char>>,
    pub delay: Option<Option<u64>>,
    pub rate_limit: Option<(usize, u64)>,
    pub with_dynamic_vars: Option<bool>,
    pub grpc_service: Option<Seq<char>>,
    pub grpc_method: Option<Seq<char>>,
}

pub open spec fn init_state() -> RegState {
    RegState {
        path: None,
        methods: None,
        status_code: None,
        file: false,
        file_data: Seq::empty(),
        authentication: None,
        delay: None,
        rate_limit: None,
        with_dynamic_vars: None,
        grpc_service: None,
        grpc_method: None,
    }
}

pub open spec fn null_lit() -> Seq<char> {
    seq!['n', 'u', 'l', 'l']
}

/// The budget a `rate_limit` field value sets: nothing unless the value
/// holds a slash; else the numbers around the first slash, zero where
/// unreadable.
pub open spec fn rate_of_value(v: Seq<char>, old: Option<(usize, u64)>) -> Option<(usize, u64)> {
    let s1 = find_until(v, '/', 0, v.len() as int);
    if v.len() > 0 && s1 < v.len() {
        let s2 = find_until(v, '/', s1 + 1, v.len() as int);
        let reqs = match parse_usize_spec(v.subrange(0, s1)) {
            Option::Some(x) => x,
            Option::None => 0,
        };
        let win = match parse_u64_spec(v.subrange(s1 + 1, s2)) {
            Option::Some(x) => x,
            Option::None => 0,
        };
        Some((reqs, win))
    } else {
        old
    }
}

/// One field applied to the state. A field whose text the rules read must
/// be UTF-8; unknown names are ignored.
pub open spec fn apply_field(st: RegState, name: Seq<char>, data: Seq<u8>) -> Result<RegState, ()> {
    if name == seq!['p', 'a', 't', 'h'] {
        match utf8_decode(data) {
            Option::Some(v) => Ok(RegState { path: Some(v), ..st }),
            Option::None => Err(()),
        }
    } else if name == seq!['m', 'e', 't', 'h', 'o', 'd', 's'] {
        match utf8_decode(data) {
            Option::Some(v) => Ok(RegState { methods: Some(v), ..st }),
            Option::None => Err(()),
        }
    } else if name == seq!['s', 't', 'a', 't', 'u', 's', '_', 'c', 'o', 'd', 'e'] {
        match utf8_decode(data) {
            Option::Some(v) => Ok(
                RegState {
                    status_code: Some(
                        match parse_u16_spec(v) {
                            Option::Some(x) => x,
                            Option::None => 200,
                        },
                    ),
                    ..st
                },
            ),
            Option::None => Err(()),
        }
    } else if name == seq!['f', 'i', 'l', 'e'] {
        Ok(RegState { file: true, file_data: data, ..st })
    } else if name == seq![
        'a', 'u', 't', 'h', 'e', 'n', 't', 'i', 'c', 'a', 't', 'i', 'o', 'n',
    ] {
        match utf8_decode(data) {
            Option::Some(v) => Ok(
                RegState {
                    authentication: if v == null_lit() {
                        None
                    } else {
                        Some(v)
                    },
                    ..st
                },
            ),
            Option::None => Err(()),
        }
    } else if name == seq!['d', 'e', 'l', 'a', 'y'] {
        match utf8_decode(data) {
            Option::Some(v) => Ok(RegState { delay: Some(parse_u64_spec(v)), ..st }),
            Option::None => Err(()),
        }
    } else if name == seq!['r', 'a', 't', 'e', '_', 'l', 'i', 'm', 'i', 't'] {
        match utf8_decode(data) {
            Option::Some(v) => Ok(RegState { rate_limit: rate_of_value(v, st.rate_limit), ..st }),
            Option::None => Err(()),
        }
    } else if name == seq![
        'w', 'i', 't', 'h', '_', 'd', 'y', 'n', 'a', 'm', 'i', 'c', '_', 'v', 'a', 'r', 's',
    ] {
        match utf8_decode(data) {
            Option::Some(v) => Ok(
                RegState {
                    with_dynamic_vars: Some(
                        match parse_bool_spec(v) {
                            Option::Some(b) => b,
                            Option::None => false,
                        },
                    ),
                    ..st
                },
            ),
            Option::None => Err(()),
        }
    } else if name == seq!['g', 'r', 'p', 'c', 'S', 'e', 'r', 'v', 'i', 'c', 'e'] {
        match utf8_decode(data) {
            Option::Some(v) => Ok(RegState { grpc_service: Some(v), ..st }),
            Option::None => Err(()),
        }
    } else if name == seq!['g', 'r', 'p', 'c', 'R', 'P', 'C'] {
        match utf8_decode(data) {
            Option::Some(v) => Ok(RegState { grpc_method: Some(v), ..st }),
            Option::None => Err(()),
        }
    } else {
        Ok(st)
    }
}

/// The fields from `i` on, folded over the state.
pub open spec fn fold_fields(st: RegState, fs: Seq<(String, Vec<u8>)>, i: int) -> Result<
    RegState,
    (),
>
    decreases fs.len() - i,
{
    if i < 0 || i >= fs.len() {
        Ok(st)
    } else {
        match apply_field(st, fs[i].0@, fs[i].1@) {
            Ok(st2) => fold_fields(st2, fs, i + 1),
            Err(e) => Err(e),
        }
    }
}

/// The flattened delay: the field's parse result, or nothing.
pub open spec fn flat_delay(d: Option<Option<u64>>) -> Option<u64> {
    match d {
        Option::Some(x) => x,
        Option::None => None,
    }
}

/// The JSON value the uploaded body parses to, when it is UTF-8 JSON.
pub open spec fn grpc_json(b: Seq<u8>) -> Option<JsonValue> {
    match utf8_decode(b) {
        Option::Some(t) => json_parse(t),
        Option::None => None,
    }
}

/// What assembling the form yields: the folded state, or the error the
/// fold, the required fields, or an unreadable gRPC mock body raise.
pub open spec fn parse_outcome(fs: Seq<(String, Vec<u8>)>) -> Result<RegState, ErrorKind> {
    match fold_fields(init_state(), fs, 0) {
        Err(_) => Err(ErrorKind::Utf8Error),
        Ok(st) => if st.path is None || !st.file {
            Err(ErrorKind::NotFound)
        } else if st.grpc_service is Some && st.grpc_method is Some && grpc_json(st.file_data)
            is None {
            Err(ErrorKind::Utf8Error)
        } else {
            Ok(st)
        },
    }
}

/// The comma-separated pieces of a methods value, empties kept.
pub open spec fn split_commas_from(s: Seq<char>, i: int) -> Seq<Seq<char>>
    decreases s.len() - i,
{
    if i < 0 || i > s.len() {
        Seq::empty()
    } else {
        let e0 = find_until(s, ',', i, s.len() as int);
        let e = if e0 < i {
            i
        } else if e0 > s.len() {
            s.len() as int
        } else {
            e0
        };
        seq![s.subrange(i, e)] + (if e >= s.len() {
            Seq::empty()
        } else {
            split_commas_from(s, e + 1)
        })
    }
}

/// The method list a methods field yields: its comma-separated pieces, or
/// none at all when the field never came.
pub open spec fn methods_of(m: Option<Seq<char>>) -> Seq<Seq<char>> {
    match m {
        Option::Some(s) => split_commas_from(s, 0),
        Option::None => Seq::empty(),
    }
}

/// A registration ready to act on: the key to register, the descriptor,
/// the body bytes to store, and the gRPC mock to add, if one was named.
pub struct ParsedRegistration {
    pub path: String,
    pub endpoint: Endpoint,
    pub file_data: Vec<u8>,
    pub grpc: Option<(String, String, GrpcMockResponse)>,
}

impl MultipartHandler {
    /// Assembles the form fields into a registration. `file_name` is the
    /// fresh name the caller has drawn for the stored body.
    #[verifier::rlimit(100)]
    pub fn parse(fields: &Vec<(String, Vec<u8>)>, file_name: String) -> (r: Result<
        ParsedRegistration,
        ErrorKind,
    >)
        ensures
            ({
                let o = parse_outcome(fields@);
                match r {
                    Ok(p) => o matches Ok(st) && st.path == Some(p.path@) && p.endpoint.file@
                        == file_name@ && p.endpoint.method@.map(|i: int, s: String| s@)
                        == methods_of(st.methods) && p.endpoint.status_code == st.status_code && (
                    match p.endpoint.authentication {
                        Some(a) => st.authentication == Some(a@),
                        None => st.authentication is None,
                    }) && p.endpoint.delay == flat_delay(st.delay) && (
                    match p.endpoint.rate_limit {
                        Some(rl) => st.rate_limit == Some((rl.requests, rl.window_ms)),
                        None => st.rate_limit is None,
                    }) && p.endpoint.with_dynamic_vars == st.with_dynamic_vars && p.file_data@
                        == st.file_data && (match p.grpc {
                        Some(g) => st.grpc_service == Some(g.0@) && st.grpc_method == Some(g.1@)
                            && grpc_json(st.file_data) == Some(g.2.output) && g.2.delay_ms
                            == flat_delay(st.delay) && g.2.status == st.status_code,
                        None => st.grpc_service is None || st.grpc_method is None,
                    }),
                    Err(k) => o matches Err(k2) && k == k2,
                }
            }),
    {
        proof {
            reveal_strlit("path");
            reveal_strlit("methods");
            reveal_strlit("status_code");
            reveal_strlit("file");
            reveal_strlit("authentication");
            reveal_strlit("delay");
            reveal_strlit("rate_limit");
            reveal_strlit("with_dynamic_vars");
            reveal_strlit("grpcService");
            reveal_strlit("grpcRPC");
            reveal_strlit("null");
        }
        let n = fields.len();
        let mut path: Option<String> = None;
        let mut methods: Option<String> = None;
        let mut status_code: Option<u16> = None;
        let mut file_seen = false;
        let mut file_data: Vec<u8> = Vec::new();
        let mut authentication: Option<String> = None;
        let mut delay: Option<Option<u64>> = None;
        let mut rate_limit: Option<(usize, u64)> = None;
        let mut with_dynamic_vars: Option<bool> = None;
        let mut grpc_service: Option<String> = None;
        let mut grpc_method: Option<String> = None;
        let mut i: usize = 0;
        while i < n
            invariant
                0 <= i <= n,
                n == fields@.len(),
                fold_fields(init_state(), fields@, 0) == fold_fields(
                    RegState {
                        path: match path {
                            Some(ref p) => Some(p@),
                            None => None,
                        },
                        methods: match methods {
                            Some(ref m) => Some(m@),
                            None => None,
                        },
                        status_code: status_code,
                        file: file_seen,
                        file_data: file_data@,
                        authentication: match authentication {
                            Some(ref a) => Some(a@),
                            None => None,
                        },
                        delay: delay,
                        rate_limit: rate_limit,
                        with_dynamic_vars: with_dynamic_vars,
                        grpc_service: match grpc_service {
                            Some(ref g) => Some(g@),
                            None => None,
                        },
                        grpc_method: match grpc_method {
                            Some(ref g) => Some(g@),
                            None => None,
                        },
                    },
                    fields@,
                    i as int,
                ),
            decreases n - i,
        {
            proof {
                reveal_strlit("path");
                reveal_strlit("methods");
                reveal_strlit("status_code");
                reveal_strlit("file");
                reveal_strlit("authentication");
                reveal_strlit("delay");
                reveal_strlit("rate_limit");
                reveal_strlit("with_dynamic_vars");
                reveal_strlit("grpcService");
                reveal_strlit("grpcRPC");
                reveal_strlit("null");
                assert("path"@ =~= seq!['p', 'a', 't', 'h']);
                assert("methods"@ =~= seq!['m', 'e', 't', 'h', 'o', 'd', 's']);
                assert("status_code"@ =~= seq!['s', 't', 'a', 't', 'u', 's', '_', 'c', 'o', 'd', 'e']);
                assert("file"@ =~= seq!['f', 'i', 'l', 'e']);
                assert("authentication"@ =~= seq![
                    'a', 'u', 't', 'h', 'e', 'n', 't', 'i', 'c', 'a', 't', 'i', 'o', 'n',
                ]);
                assert("delay"@ =~= seq!['d', 'e', 'l', 'a', 'y']);
                assert("rate_limit"@ =~= seq!['r', 'a', 't', 'e', '_', 'l', 'i', 'm', 'i', 't']);
                assert("with_dynamic_vars"@ =~= seq![
                    'w', 'i', 't', 'h', '_', 'd', 'y', 'n', 'a', 'm', 'i', 'c', '_', 'v', 'a', 'r',
                    's',
                ]);
                assert("grpcService"@ =~= seq!['g', 'r', 'p', 'c', 'S', 'e', 'r', 'v', 'i', 'c', 'e']);
                assert("grpcRPC"@ =~= seq!['g', 'r', 'p', 'c', 'R', 'P', 'C']);
                assert("null"@ =~= null_lit());
            }
            let name = &fields[i].0;
            if str_eq(name.as_str(), "path") {
                match bytes_to_string(copy_bytes(&fields[i].1)) {
                    Some(v) => {
                        path = Some(v);
                    },
                    None => {
                        return Err(ErrorKind::Utf8Error);
                    },
                }
            } else if str_eq(name.as_str(), "methods") {
                match bytes_to_string(copy_bytes(&fields[i].1)) {
                    Some(v) => {
                        methods = Some(v);
                    },
                    None => {
                        return Err(ErrorKind::Utf8Error);
                    },
                }
            } else if str_eq(name.as_str(), "status_code") {
                match bytes_to_string(copy_bytes(&fields[i].1)) {
                    Some(v) => {
                        let vc = str_chars(v.as_str());
                        status_code = Some(
                            match parse_u16(&vc) {
                                Some(x) => x,
                                None => 200,
                            },
                        );
                    },
                    None => {
                        return Err(ErrorKind::Utf8Error);
                    },
                }
            } else if str_eq(name.as_str(), "file") {
                file_seen = true;
                file_data = copy_bytes(&fields[i].1);
            } else if str_eq(name.as_str(), "authentication") {
                match bytes_to_string(copy_bytes(&fields[i].1)) {
                    Some(v) => {
                        if str_eq(v.as_str(), "null") {
                            authentication = None;
                        } else {
                            authentication = Some(v);
                        }
                    },
                    None => {
                        return Err(ErrorKind::Utf8Error);
                    },
                }
            } else if str_eq(name.as_str(), "delay") {
                match bytes_to_string(copy_bytes(&fields[i].1)) {
                    Some(v) => {
                        let vc = str_chars(v.as_str());
                        delay = Some(parse_u64(&vc));
                    },
                    None => {
                        return Err(ErrorKind::Utf8Error);
                    },
                }
            } else if str_eq(name.as_str(), "rate_limit") {
                match bytes_to_string(copy_bytes(&fields[i].1)) {
                    Some(v) => {
                        let vc = str_chars(v.as_str());
                        let len = vc.len();
                        let s1 = crate::params::find_char(&vc, '/', 0, len);
                        proof {
                            crate::params::lemma_find_until(vc@, '/', 0, len as int);
                        }
                        if len > 0 && s1 < len {
                            let s2 = crate::params::find_char(&vc, '/', s1 + 1, len);
                            proof {
                                crate::params::lemma_find_until(vc@, '/', s1 + 1, len as int);
                            }
                            let first = sub_chars(&vc, 0, s1);
                            let second = sub_chars(&vc, s1 + 1, s2);
                            let reqs = match parse_usize(&first) {
                                Some(x) => x,
                                None => 0,
                            };
                            let win = match parse_u64(&second) {
                                Some(x) => x,
                                None => 0,
                            };
                            rate_limit = Some((reqs, win));
                        }
                    },
                    None => {
                        return Err(ErrorKind::Utf8Error);
                    },
                }
            } else if str_eq(name.as_str(), "with_dynamic_vars") {
                match bytes_to_string(copy_bytes(&fields[i].1)) {
                    Some(v) => {
                        let vc = str_chars(v.as_str());
                        with_dynamic_vars = Some(
                            match parse_bool(&vc) {
                                Some(b) => b,
                                None => false,
                            },
                        );
                    },
                    None => {
                        return Err(ErrorKind::Utf8Error);
                    },
                }
            } else if str_eq(name.as_str(), "grpcService") {
                match bytes_to_string(copy_bytes(&fields[i].1)) {
                    Some(v) => {
                        grpc_service = Some(v);
                    },
                    None => {
                        return Err(ErrorKind::Utf8Error);
                    },
                }
            } else if str_eq(name.as_str(), "grpcRPC") {
                match bytes_to_string(copy_bytes(&fields[i].1)) {
                    Some(v) => {
                        grpc_method = Some(v);
                    },
                    None => {
                        return Err(ErrorKind::Utf8Error);
                    },
                }
            }
            i += 1;
        }
        let path_val = match path {
            Some(p) => p,
            None => {
                return Err(ErrorKind::NotFound);
            },
        };
        if !file_seen {
            return Err(ErrorKind::NotFound);
        }
        let mut method_vec: Vec<String> = Vec::new();
        match &methods {
            None => {
                proof {
                    assert(method_vec@.map(|k: int, s: String| s@) =~= methods_of(None));
                }
            },
            Some(m) => {
                let mv = str_chars(m.as_str());
                let mlen = mv.len();
                let mut j: usize = 0;
                loop
                    invariant_except_break
                        split_commas_from(m@, 0) == method_vec@.map(|k: int, s: String| s@)
                            + split_commas_from(m@, j as int),
                    invariant
                        0 <= j <= mlen + 1,
                        mlen == m@.len(),
                        mv@ == m@,
                    ensures
                        method_vec@.map(|k: int, s: String| s@) == split_commas_from(m@, 0),
                    decreases mlen + 1 - j,
                {
                    if j > mlen {
                        proof {
                            assert(split_commas_from(m@, j as int) =~= Seq::<Seq<char>>::empty());
                            assert(method_vec@.map(|k: int, s: String| s@) + Seq::<Seq<char>>::empty()
                                =~= method_vec@.map(|k: int, s: String| s@));
                        }
                        break ;
                    }
                    let e = crate::params::find_char(&mv, ',', j, mlen);
                    proof {
                        crate::params::lemma_find_until(mv@, ',', j as int, mlen as int);
                    }
                    let piece = chars_string(&sub_chars(&mv, j, e));
                    let ghost before = method_vec@;
                    method_vec.push(piece);
                    proof {
                        assert(method_vec@.map(|k: int, s: String| s@) =~= before.map(
                            |k: int, s: String| s@,
                        ).push(m@.subrange(j as int, e as int)));
                        assert(split_commas_from(m@, j as int) == seq![
                            m@.subrange(j as int, e as int),
                        ] + (if e >= mlen {
                            Seq::<Seq<char>>::empty()
                        } else {
                            split_commas_from(m@, e + 1)
                        }));
                    }
                    if e >= mlen {
                        proof {
                            assert(method_vec@.map(|k: int, s: String| s@) =~= split_commas_from(
                                m@,
                                0,
                            ));
                        }
                        break ;
                    }
                    proof {
                        assert(split_commas_from(m@, 0) =~= method_vec@.map(|k: int, s: String| s@)
                            + split_commas_from(m@, e + 1));
                    }
                    j = e + 1;
                }
            },
        }
        let flat: Option<u64> = match delay {
            Some(d) => d,
            None => None,
        };
        let grpc: Option<(String, String, GrpcMockResponse)> = match (grpc_service, grpc_method) {
            (Some(gs), Some(gm)) => {
                let text = match bytes_to_string(copy_bytes(&file_data)) {
                    Some(t) => t,
                    None => {
                        return Err(ErrorKind::Utf8Error);
                    },
                };
                let output = match parse_json(text.as_str()) {
                    Some(v) => v,
                    None => {
                        return Err(ErrorKind::Utf8Error);
                    },
                };
                Some(
                    (
                        gs,
                        gm,
                        GrpcMockResponse { output, delay_ms: flat, status: status_code },
                    ),
                )
            },
            _ => None,
        };
        let endpoint = Endpoint {
            method: method_vec,
            file: file_name,
            status_code,
            authentication,
            delay: flat,
            rate_limit: match rate_limit {
                Some((r0, w0)) => Some(RateLimit { requests: r0, window_ms: w0 }),
                None => None,
            },
            with_dynamic_vars,
        };
        Ok(ParsedRegistration { path: path_val, endpoint, file_data, grpc })
    }
}

} // verus!
