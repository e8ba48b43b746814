//! The HDFS REST backend's request and decision logic.
//!
//! Requests to the remote namenode are plain HTTP; everything that can be
//! computed — the request URL for each operation, the byte-range conversion,
//! and the decision taken on each response status — lives here, exactly
//! specified. The transport itself (sending the request, draining the body,
//! decoding the JSON messages) is the caller's collaborator and hands plain
//! values back to the decision functions.
//!
//! The remote service cannot read an object's tail directly: a range with
//! only a size must first be resolved against the object's total length,
//! turning "the last N bytes" into an explicit offset.

use vstd::prelude::*;
use vstd::string::*;

use crate::accessor::{RpCreate, RpDelete};
use crate::error::{Error, ErrorKind};
use crate::meta::{ObjectMetadata, ObjectMode};
use crate::path::{
    abs_path_of, effective_path, is_normalized_root, normalize_root, normalized_root_of,
    parent_form_of, to_dir_path, to_effective_path, to_parent_form,
};
use crate::range::BytesRange;

verus! {

/// A decimal digit's character.
pub open spec fn dec_digit(n: int) -> char {
    if n == 0 {
        '0'
    } else if n == 1 {
        '1'
    } else if n == 2 {
        '2'
    } else if n == 3 {
        '3'
    } else if n == 4 {
        '4'
    } else if n == 5 {
        '5'
    } else if n == 6 {
        '6'
    } else if n == 7 {
        '7'
    } else if n == 8 {
        '8'
    } else {
        '9'
    }
}

/// The decimal form of a number.
pub open spec fn dec_of(n: nat) -> Seq<char>
    decreases n,
{
    if n < 10 {
        seq![dec_digit(n as int)]
    } else {
        dec_of(n / 10) + seq![dec_digit((n % 10) as int)]
    }
}

fn dec_digit_str(n: u64) -> (r: &'static str)
    requires
        n < 10,
    ensures
        r@ == seq![dec_digit(n as int)],
{
    proof {
        reveal_strlit("0");
        reveal_strlit("1");
        reveal_strlit("2");
        reveal_strlit("3");
        reveal_strlit("4");
        reveal_strlit("5");
        reveal_strlit("6");
        reveal_strlit("7");
        reveal_strlit("8");
        reveal_strlit("9");
    }
    let r: &'static str = if n == 0 {
        "0"
    } else if n == 1 {
        "1"
    } else if n == 2 {
        "2"
    } else if n == 3 {
        "3"
    } else if n == 4 {
        "4"
    } else if n == 5 {
        "5"
    } else if n == 6 {
        "6"
    } else if n == 7 {
        "7"
    } else if n == 8 {
        "8"
    } else {
        "9"
    };
    proof {
        assert(r@ =~= seq![dec_digit(n as int)]);
    }
    r
}

/// Format a number in decimal.
pub fn u64_to_dec(n: u64) -> (r: String)
    ensures
        r@ == dec_of(n as nat),
    decreases n,
{
    if n < 10 {
        String::from_str(dec_digit_str(n))
    } else {
        proof {
            assert(n / 10 < n) by (nonlinear_arith)
                requires
                    n >= 10,
            ;
            assert(n % 10 < 10) by (nonlinear_arith);
        }
        let head = u64_to_dec(n / 10);
        let r = head.concat(dec_digit_str(n % 10));
        proof {
            assert(r@ =~= dec_of((n / 10) as nat) + seq![dec_digit((n % 10) as int)]);
        }
        r
    }
}

/// Whether a character passes through URL encoding unchanged.
pub open spec fn is_unreserved(c: char) -> bool {
    ||| ('a' as u32) <= (c as u32) && (c as u32) <= ('z' as u32)
    ||| ('A' as u32) <= (c as u32) && (c as u32) <= ('Z' as u32)
    ||| ('0' as u32) <= (c as u32) && (c as u32) <= ('9' as u32)
    ||| c == '-'
    ||| c == '_'
    ||| c == '.'
    ||| c == '~'
    ||| c == '/'
}

/// A hexadecimal digit's character, upper case.
pub open spec fn hex_digit(n: int) -> char {
    if n < 10 {
        dec_digit(n)
    } else if n == 10 {
        'A'
    } else if n == 11 {
        'B'
    } else if n == 12 {
        'C'
    } else if n == 13 {
        'D'
    } else if n == 14 {
        'E'
    } else {
        'F'
    }
}

/// One character's URL-encoded form: itself when unreserved, else a percent
/// escape of its code.
pub open spec fn pct_char(c: char) -> Seq<char> {
    if is_unreserved(c) {
        seq![c]
    } else {
        seq!['%', hex_digit((c as u32) as int / 16), hex_digit((c as u32) as int % 16)]
    }
}

/// A path's URL-encoded form.
pub open spec fn pct_encoded(s: Seq<char>) -> Seq<char>
    decreases s.len(),
{
    if s.len() == 0 {
        Seq::empty()
    } else {
        pct_encoded(s.drop_last()) + pct_char(s.last())
    }
}

fn hex_digit_str(n: u32) -> (r: &'static str)
    requires
        n < 16,
    ensures
        r@ == seq![hex_digit(n as int)],
{
    if n < 10 {
        dec_digit_str(n as u64)
    } else {
        proof {
            reveal_strlit("A");
            reveal_strlit("B");
            reveal_strlit("C");
            reveal_strlit("D");
            reveal_strlit("E");
            reveal_strlit("F");
        }
        let r: &'static str = if n == 10 {
            "A"
        } else if n == 11 {
            "B"
        } else if n == 12 {
            "C"
        } else if n == 13 {
            "D"
        } else if n == 14 {
            "E"
        } else {
            "F"
        };
        proof {
            assert(r@ =~= seq![hex_digit(n as int)]);
        }
        r
    }
}

/// URL-encode a path for the REST interface. Only plain text paths can be
/// encoded: a path with characters beyond that is rejected by the request
/// builders before this point.
pub fn percent_encode_path(path: &str) -> (r: String)
    requires
        path.is_ascii(),
    ensures
        r@ == pct_encoded(path@),
{
    let n = path.unicode_len();
    let mut out = String::new();
    let mut i: usize = 0;
    proof {
        assert(out@ =~= pct_encoded(path@.take(0int)));
    }
    while i < n
        invariant
            path.is_ascii(),
            n == path@.len(),
            i <= n,
            out@ == pct_encoded(path@.take(i as int)),
        decreases n - i,
    {
        let c = path.get_char(i);
        let code = c as u32;
        proof {
            assert(path@.take(i + 1int).drop_last() =~= path@.take(i as int));
            assert(path@.take(i + 1int).last() == path@[i as int]);
            assert(vstd::utf8::is_ascii_chars(path@));
            assert('\0' <= path@[i as int] <= '\u{7f}');
            assert(code < 128);
        }
        let lower_a = 'a' as u32;
        let lower_z = 'z' as u32;
        let upper_a = 'A' as u32;
        let upper_z = 'Z' as u32;
        let zero = '0' as u32;
        let nine = '9' as u32;
        let unreserved = (code >= lower_a && code <= lower_z) || (code >= upper_a && code
            <= upper_z) || (code >= zero && code <= nine) || c == '-' || c == '_' || c == '.' || c
            == '~' || c == '/';
        proof {
            assert(unreserved == is_unreserved(path@[i as int]));
        }
        if unreserved {
            let piece = path.substring_char(i, i + 1);
            proof {
                assert(piece@ =~= seq![path@[i as int]]);
                assert(pct_char(path@[i as int]) =~= seq![path@[i as int]]);
            }
            out.append(piece);
        } else {
            proof {
                reveal_strlit("%");
            }
            let hi = hex_digit_str(code / 16);
            let lo = hex_digit_str(code % 16);
            out.append("%");
            out.append(hi);
            out.append(lo);
            proof {
                assert(out@ =~= pct_encoded(path@.take(i as int)) + pct_char(path@[i as int]));
            }
        }
        proof {
            assert(out@ =~= pct_encoded(path@.take(i + 1int)));
        }
        i = i + 1;
    }
    proof {
        assert(path@.take(n as int) =~= path@);
    }
    out
}

/// The default namenode endpoint.
pub const WEBHDFS_DEFAULT_ENDPOINT: &'static str = "http://127.0.0.1:9870";

/// The configuration of the REST backend: root, endpoint and an optional
/// delegation token used for authentication. The token is a credential: the
/// builder deliberately has no text form that could leak it.
#[derive(Clone)]
pub struct WebhdfsBuilder {
    root: Option<String>,
    endpoint: Option<String>,
    delegation: Option<String>,
}

impl WebhdfsBuilder {
    pub closed spec fn root_opt(&self) -> Option<Seq<char>> {
        match self.root {
            Some(ref r) => Some(r@),
            None => None,
        }
    }

    pub closed spec fn endpoint_opt(&self) -> Option<Seq<char>> {
        match self.endpoint {
            Some(ref e) => Some(e@),
            None => None,
        }
    }

    pub closed spec fn delegation_opt(&self) -> Option<Seq<char>> {
        match self.delegation {
            Some(ref d) => Some(d@),
            None => None,
        }
    }

    /// An empty configuration.
    pub fn new() -> (r: WebhdfsBuilder)
        ensures
            r.root_opt() is None && r.endpoint_opt() is None && r.delegation_opt() is None,
    {
        WebhdfsBuilder { root: None, endpoint: None, delegation: None }
    }

    /// Set the working directory; every operation happens under it. An empty
    /// root clears the setting.
    pub fn root(&mut self, root: &str)
        ensures
            final(self).root_opt() == (if root@.len() == 0 {
                Option::<Seq<char>>::None
            } else {
                Some(root@)
            }),
            final(self).endpoint_opt() == old(self).endpoint_opt(),
            final(self).delegation_opt() == old(self).delegation_opt(),
    {
        if path_is_empty(root) {
            self.root = None;
        } else {
            self.root = Some(root.to_owned());
        }
    }

    /// Set the remote address; trailing separators are trimmed so both
    /// spellings of an endpoint are accepted. An empty endpoint is ignored.
    pub fn endpoint(&mut self, endpoint: &str)
        ensures
            final(self).endpoint_opt() == (if endpoint@.len() == 0 {
                old(self).endpoint_opt()
            } else {
                Some(parent_form_of(endpoint@))
            }),
            final(self).root_opt() == old(self).root_opt(),
            final(self).delegation_opt() == old(self).delegation_opt(),
    {
        if !path_is_empty(endpoint) {
            self.endpoint = Some(to_parent_form(endpoint));
        }
    }

    /// Set the delegation token used for authentication. An empty token is
    /// ignored.
    pub fn delegation(&mut self, delegation: &str)
        ensures
            final(self).delegation_opt() == (if delegation@.len() == 0 {
                old(self).delegation_opt()
            } else {
                Some(delegation@)
            }),
            final(self).root_opt() == old(self).root_opt(),
            final(self).endpoint_opt() == old(self).endpoint_opt(),
    {
        if !path_is_empty(delegation) {
            self.delegation = Some(delegation.to_owned());
        }
    }

    /// Take the delegation token out as a query fragment.
    pub fn auth_str(&mut self) -> (r: Option<String>)
        ensures
            final(self).root_opt() == old(self).root_opt(),
            final(self).endpoint_opt() == old(self).endpoint_opt(),
            final(self).delegation_opt() is None,
            match r {
                Some(a) => old(self).delegation_opt() matches Some(dt) && a@ == "delegation_token="@
                    + dt,
                None => old(self).delegation_opt() is None,
            },
    {
        let dt = match &self.delegation {
            Some(d) => d.clone(),
            None => {
                return None;
            },
        };
        self.delegation = None;
        let a = String::from_str("delegation_token=").concat(dt.as_str());
        proof {
            assert(a@ =~= "delegation_token="@ + dt@);
        }
        Some(a)
    }

    /// Apply configuration key/value pairs: the root, the endpoint and the
    /// delegation token, each with its setter's semantics; unknown keys are
    /// ignored.
    pub fn from_map(map: Vec<(String, String)>) -> (r: WebhdfsBuilder)
        ensures
            r.root_opt() == (match crate::accessor::last_value_of(map@, "root"@) {
                Option::None => Option::<Seq<char>>::None,
                Option::Some(v) => if v.len() == 0 {
                    Option::<Seq<char>>::None
                } else {
                    Option::Some(v)
                },
            }),
            r.endpoint_opt() == (match crate::accessor::last_nonempty_of(map@, "endpoint"@) {
                Option::None => Option::<Seq<char>>::None,
                Option::Some(v) => Option::Some(parent_form_of(v)),
            }),
            r.delegation_opt() == crate::accessor::last_nonempty_of(map@, "delegation"@),
    {
        let root_key = String::from_str("root");
        let endpoint_key = String::from_str("endpoint");
        let delegation_key = String::from_str("delegation");
        let mut builder = WebhdfsBuilder::new();
        let n = map.len();
        let mut i: usize = 0;
        proof {
            reveal_strlit("root");
            reveal_strlit("endpoint");
            reveal_strlit("delegation");
            assert(map@.take(0int) =~= Seq::<(String, String)>::empty());
        }
        while i < n
            invariant
                root_key@ == "root"@,
                endpoint_key@ == "endpoint"@,
                delegation_key@ == "delegation"@,
                i <= n,
                n == map@.len(),
                builder.root_opt() == (match crate::accessor::last_value_of(
                    map@.take(i as int),
                    "root"@,
                ) {
                    Option::None => Option::<Seq<char>>::None,
                    Option::Some(v) => if v.len() == 0 {
                        Option::<Seq<char>>::None
                    } else {
                        Option::Some(v)
                    },
                }),
                builder.endpoint_opt() == (match crate::accessor::last_nonempty_of(
                    map@.take(i as int),
                    "endpoint"@,
                ) {
                    Option::None => Option::<Seq<char>>::None,
                    Option::Some(v) => Option::Some(parent_form_of(v)),
                }),
                builder.delegation_opt() == crate::accessor::last_nonempty_of(
                    map@.take(i as int),
                    "delegation"@,
                ),
            decreases n - i,
        {
            proof {
                reveal_strlit("root");
                reveal_strlit("endpoint");
                reveal_strlit("delegation");
                assert("root"@.len() != "endpoint"@.len() && "root"@.len() != "delegation"@.len()
                    && "endpoint"@.len() != "delegation"@.len());
                assert(map@.take(i + 1).drop_last() =~= map@.take(i as int));
                assert(map@.take(i + 1).last() == map@[i as int]);
            }
            if map[i].0 == root_key {
                builder.root(map[i].1.as_str());
            } else if map[i].0 == endpoint_key {
                builder.endpoint(map[i].1.as_str());
            } else if map[i].0 == delegation_key {
                builder.delegation(map[i].1.as_str());
            }
            i = i + 1;
        }
        proof {
            assert(map@.take(n as int) =~= map@);
        }
        builder
    }

    /// Consume the configuration and produce the backend's request core. The
    /// root is normalized; a missing endpoint falls back to the default.
    pub fn build(&mut self) -> (r: WebhdfsBackend)
        ensures
            r.root_spec() == normalized_root_of(match old(self).root_opt() {
                Some(p) => p,
                None => Seq::<char>::empty(),
            }),
            r.endpoint_spec() == (match old(self).endpoint_opt() {
                Some(e) => e,
                None => WEBHDFS_DEFAULT_ENDPOINT@,
            }),
            is_normalized_root(r.root_spec()),
            match old(self).delegation_opt() {
                Some(dt) => r.auth_spec() matches Some(a) && a == "delegation_token="@ + dt,
                None => r.auth_spec() is None,
            },
            final(self).root_opt() is None,
            final(self).endpoint_opt() is None,
            final(self).delegation_opt() is None,
    {
        let root_str = match &self.root {
            Some(p) => p.clone(),
            None => String::new(),
        };
        self.root = None;
        let root = normalize_root(root_str.as_str());
        let endpoint = match &self.endpoint {
            Some(e) => e.clone(),
            None => String::from_str(WEBHDFS_DEFAULT_ENDPOINT),
        };
        self.endpoint = None;
        let auth = self.auth_str();
        WebhdfsBackend { root, endpoint, auth }
    }
}

fn path_is_empty(s: &str) -> (r: bool)
    ensures
        r == (s@.len() == 0),
{
    s.unicode_len() == 0
}

/// The request core of the REST backend: where requests go and how they are
/// authenticated. It computes requests; a transport collaborator sends them.
pub struct WebhdfsBackend {
    root: String,
    endpoint: String,
    auth: Option<String>,
}

/// A complete request URL: the endpoint, the interface prefix, the encoded
/// absolute path, the operation's query, and the authentication fragment.
pub open spec fn url_of(
    endpoint: Seq<char>,
    root: Seq<char>,
    rel: Seq<char>,
    query: Seq<char>,
    auth: Option<Seq<char>>,
) -> Seq<char> {
    endpoint + "/webhdfs/v1"@ + pct_encoded(abs_path_of(root, rel)) + query + (match auth {
        Some(a) => seq!['&'] + a,
        None => Seq::<char>::empty(),
    })
}

/// The capability set the REST backend declares.
pub open spec fn webhdfs_caps() -> crate::ops::CapabilitySet {
    crate::ops::CapabilitySet {
        read: true,
        write: true,
        list: true,
        presign: false,
        multipart: false,
        blocking: false,
    }
}

impl WebhdfsBackend {
    /// The backend's identity: its scheme, its normalized root, the endpoint
    /// as its name, and the declared capability set.
    pub fn metadata(&self) -> (r: crate::meta::AccessorMetadata)
        ensures
            r@.scheme == crate::meta::Scheme::Webhdfs,
            r@.root == self.root_spec(),
            r@.name == self.endpoint_spec(),
            r@.caps == webhdfs_caps(),
    {
        let caps = crate::ops::CapabilitySet {
            read: true,
            write: true,
            list: true,
            presign: false,
            multipart: false,
            blocking: false,
        };
        proof {
            assert(caps == webhdfs_caps());
        }
        crate::meta::AccessorMetadata::new(
            crate::meta::Scheme::Webhdfs,
            self.root.as_str(),
            self.endpoint.as_str(),
            caps,
        )
    }

    /// The normalized root requests are built under.
    pub closed spec fn root_spec(&self) -> Seq<char> {
        normalized_root_of(self.root@)
    }

    /// The remote address requests go to.
    pub closed spec fn endpoint_spec(&self) -> Seq<char> {
        self.endpoint@
    }

    /// The authentication fragment, when one was configured.
    pub closed spec fn auth_spec(&self) -> Option<Seq<char>> {
        match self.auth {
            Some(ref a) => Some(a@),
            None => None,
        }
    }

    /// Assemble one request URL. Only plain text paths can be addressed:
    /// anything else fails with a request-build error before any I/O.
    fn request_url(&self, rel: &str, query: &str) -> (r: Result<String, Error>)
        ensures
            match r {
                Ok(u) => u@ == url_of(
                    self.endpoint_spec(),
                    self.root_spec(),
                    rel@,
                    query@,
                    self.auth_spec(),
                ) && vstd::utf8::is_ascii_chars(abs_path_of(self.root_spec(), rel@)),
                Err(e) => !vstd::utf8::is_ascii_chars(abs_path_of(self.root_spec(), rel@))
                    && e.kind() == ErrorKind::RequestBuildFailed,
            },
    {
        let nroot = normalize_root(self.root.as_str());
        let abs = crate::path::build_abs_path(nroot.as_str(), rel);
        if !abs.as_str().is_ascii() {
            return Err(
                Error::new(
                    ErrorKind::RequestBuildFailed,
                    "the path cannot be encoded into a request",
                ),
            );
        }
        let encoded = percent_encode_path(abs.as_str());
        let mut url = self.endpoint.clone();
        url.append("/webhdfs/v1");
        url.append(encoded.as_str());
        url.append(query);
        match &self.auth {
            Some(a) => {
                proof {
                    reveal_strlit("&");
                }
                url.append("&");
                url.append(a.as_str());
                proof {
                    assert(url@ =~= url_of(
                        self.endpoint_spec(),
                        self.root_spec(),
                        rel@,
                        query@,
                        self.auth_spec(),
                    ));
                }
            },
            None => {
                proof {
                    assert(url@ =~= url_of(
                        self.endpoint_spec(),
                        self.root_spec(),
                        rel@,
                        query@,
                        self.auth_spec(),
                    ));
                }
            },
        }
        Ok(url)
    }

    /// The request that creates an object: a directory marker is made in
    /// place, while a leaf creation is a two-step redirect dance the caller
    /// drives. Returns the URL and whether it is a directory creation.
    pub fn create_request(&self, path: &str, mode: ObjectMode) -> (r: Result<
        (String, bool),
        Error,
    >)
        ensures
            match r {
                Ok((u, is_mkdir)) => {
                    &&& is_mkdir == (mode is Dir)
                    &&& u@ == url_of(
                        self.endpoint_spec(),
                        self.root_spec(),
                        create_rel_of(path@, mode),
                        (if mode is Dir {
                            "?op=MKDIRS&overwrite=true&noredirect=true"@
                        } else {
                            "?op=CREATE&overwrite=true&noredirect=true"@
                        }),
                        self.auth_spec(),
                    )
                },
                Err(e) => e.kind() == ErrorKind::RequestBuildFailed,
            },
            vstd::utf8::is_ascii_chars(
                abs_path_of(self.root_spec(), create_rel_of(path@, mode)),
            ) ==> r is Ok,
    {
        let adjusted = match mode {
            ObjectMode::Dir => to_dir_path(path),
            ObjectMode::File => to_effective_path(path),
        };
        match mode {
            ObjectMode::Dir => {
                let u = self.request_url(
                    adjusted.as_str(),
                    "?op=MKDIRS&overwrite=true&noredirect=true",
                )?;
                Ok((u, true))
            },
            ObjectMode::File => {
                let u = self.request_url(
                    adjusted.as_str(),
                    "?op=CREATE&overwrite=true&noredirect=true",
                )?;
                Ok((u, false))
            },
        }
    }

    /// The request that opens an object for reading. The byte range must be
    /// in explicit-offset form: the remote service cannot read a tail
    /// directly, so a size-only range is rejected here and must first be
    /// resolved against the object's total length.
    pub fn open_request(&self, path: &str, offset: Option<u64>, size: Option<u64>) -> (r: Result<
        String,
        Error,
    >)
        ensures
            match r {
                Ok(u) => !(offset is None && size is Some) && u@ == url_of(
                    self.endpoint_spec(),
                    self.root_spec(),
                    path@,
                    open_query_of(offset, size),
                    self.auth_spec(),
                ),
                Err(e) => e.kind() == ErrorKind::RequestBuildFailed,
            },
            !(offset is None && size is Some) && vstd::utf8::is_ascii_chars(
                abs_path_of(self.root_spec(), path@),
            ) ==> r is Ok,
    {
        let mut query = String::from_str("?op=OPEN&noredirect=true");
        match (offset, size) {
            (Some(o), Some(s)) => {
                query.append("&offset=");
                let od = u64_to_dec(o);
                query.append(od.as_str());
                query.append("&length=");
                let sd = u64_to_dec(s);
                query.append(sd.as_str());
                proof {
                    assert(query@ =~= open_query_of(offset, size));
                }
            },
            (Some(o), None) => {
                query.append("&offset=");
                let od = u64_to_dec(o);
                query.append(od.as_str());
                proof {
                    assert(query@ =~= open_query_of(offset, size));
                }
            },
            (None, None) => {
                proof {
                    assert(query@ =~= open_query_of(offset, size));
                }
            },
            (None, Some(_)) => {
                return Err(
                    Error::new(
                        ErrorKind::RequestBuildFailed,
                        "a size-only range must be resolved against the total length first",
                    ),
                );
            },
        }
        self.request_url(path, query.as_str())
    }

    /// The request that stats an object.
    pub fn status_request(&self, path: &str) -> (r: Result<String, Error>)
        ensures
            match r {
                Ok(u) => u@ == url_of(
                    self.endpoint_spec(),
                    self.root_spec(),
                    path@,
                    "?op=GETFILESTATUS"@,
                    self.auth_spec(),
                ),
                Err(e) => e.kind() == ErrorKind::RequestBuildFailed,
            },
            vstd::utf8::is_ascii_chars(abs_path_of(self.root_spec(), path@)) ==> r is Ok,
    {
        self.request_url(path, "?op=GETFILESTATUS")
    }

    /// The request that deletes one object, never recursively.
    pub fn delete_request(&self, path: &str) -> (r: Result<String, Error>)
        ensures
            match r {
                Ok(u) => u@ == url_of(
                    self.endpoint_spec(),
                    self.root_spec(),
                    path@,
                    "?op=DELETE&recursive=false"@,
                    self.auth_spec(),
                ),
                Err(e) => e.kind() == ErrorKind::RequestBuildFailed,
            },
            vstd::utf8::is_ascii_chars(abs_path_of(self.root_spec(), path@)) ==> r is Ok,
    {
        self.request_url(path, "?op=DELETE&recursive=false")
    }

    /// The request that lists a directory; the path is taken in parent form.
    pub fn list_request(&self, path: &str) -> (r: Result<String, Error>)
        ensures
            match r {
                Ok(u) => u@ == url_of(
                    self.endpoint_spec(),
                    self.root_spec(),
                    parent_form_of(path@),
                    "?op=LISTSTATUS"@,
                    self.auth_spec(),
                ),
                Err(e) => e.kind() == ErrorKind::RequestBuildFailed,
            },
            vstd::utf8::is_ascii_chars(abs_path_of(self.root_spec(), parent_form_of(path@)))
                ==> r is Ok,
    {
        let rel = to_parent_form(path);
        self.request_url(rel.as_str(), "?op=LISTSTATUS")
    }
}

/// The relative path `create` addresses: forced into directory form for a
/// directory and into leaf form for a leaf object.
pub open spec fn create_rel_of(path: Seq<char>, mode: ObjectMode) -> Seq<char> {
    match mode {
        ObjectMode::Dir => if crate::path::is_dir_path(path) {
            path
        } else {
            path + seq!['/']
        },
        ObjectMode::File => effective_path(path),
    }
}

/// The query of an open request: explicit offset and length where given.
pub open spec fn open_query_of(offset: Option<u64>, size: Option<u64>) -> Seq<char> {
    match (offset, size) {
        (Some(o), Some(s)) => "?op=OPEN&noredirect=true"@ + "&offset="@ + dec_of(o as nat)
            + "&length="@ + dec_of(s as nat),
        (Some(o), None) => "?op=OPEN&noredirect=true"@ + "&offset="@ + dec_of(o as nat),
        _ => "?op=OPEN&noredirect=true"@,
    }
}

/// Whether a byte range must be resolved against the object's total length
/// before the remote service can serve it.
pub fn range_needs_total(range: BytesRange) -> (r: bool)
    ensures
        r == (range.spec_offset() is None && range.spec_size() is Some),
{
    range.offset().is_none() && range.size().is_some()
}

/// Turn a size-only range into explicit-offset form against the object's
/// total length: the last `size` bytes start at `total - size`. A range
/// that does not fit the object is rejected; any other range is returned
/// unchanged.
pub fn resolve_tail_range(range: BytesRange, total: u64) -> (r: Result<BytesRange, Error>)
    ensures
        match r {
            Ok(out) => match (range.spec_offset(), range.spec_size()) {
                (Option::None, Option::Some(s)) => s <= total && out.spec_offset() == Some(
                    (total - s) as u64,
                ) && out.spec_size() == Some(s),
                _ => out == range,
            },
            Err(e) => range.spec_offset() is None && (range.spec_size() matches Some(s) && s
                > total) && e.kind() == ErrorKind::Unexpected,
        },
{
    match (range.offset(), range.size()) {
        (None, Some(s)) => {
            if s <= total {
                Ok(BytesRange::new(Some(total - s), Some(s)))
            } else {
                Err(
                    Error::new(ErrorKind::Unexpected, "byte range does not fit the object")
                        .set_permanent(),
                )
            }
        },
        _ => Ok(range),
    }
}

/// What to do with a create response.
#[derive(Clone, Copy, Debug, PartialEq, Eq, Structural)]
pub enum CreateAction {
    /// The object was created; the body can be discarded.
    Done,
    /// A directory creation answered; its body says whether it succeeded.
    ReadMkdirBody,
    /// The creation failed; classify the status.
    Fail,
}

/// Decide on a create response: a created or OK status completes a leaf
/// creation and hands a directory creation's body to the boolean check;
/// anything else is a failure.
pub fn create_response_action(status: u16, is_mkdir: bool) -> (r: CreateAction)
    ensures
        r == (if status == 200 || status == 201 {
            if is_mkdir {
                CreateAction::ReadMkdirBody
            } else {
                CreateAction::Done
            }
        } else {
            CreateAction::Fail
        }),
{
    if status == 200 || status == 201 {
        if is_mkdir {
            CreateAction::ReadMkdirBody
        } else {
            CreateAction::Done
        }
    } else {
        CreateAction::Fail
    }
}

/// The outcome of a directory creation, decided by the boolean the service
/// returned: success yields the receipt, failure a permanent error.
pub fn mkdir_outcome(success: bool) -> (r: Result<RpCreate, Error>)
    ensures
        success <==> r is Ok,
        r matches Err(e) ==> e.kind() == ErrorKind::Unexpected && !e.is_temporary(),
{
    if success {
        Ok(RpCreate {  })
    } else {
        Err(Error::new(ErrorKind::Unexpected, "the service reported the directory was not made"))
    }
}

/// Whether a read response carries the requested bytes.
pub fn read_response_ok(status: u16) -> (r: bool)
    ensures
        r == (status == 200 || status == 206),
{
    status == 200 || status == 206
}

/// Whether a write response confirms the ingest.
pub fn write_response_ok(status: u16) -> (r: bool)
    ensures
        r == (status == 200 || status == 201),
{
    status == 200 || status == 201
}

/// The outcome of a delete response: only an OK status confirms it.
pub fn delete_response(status: u16) -> (r: Result<RpDelete, Error>)
    ensures
        status == 200 <==> r is Ok,
        r matches Err(e) ==> e.kind() == classify_kind(status) && e.is_temporary()
            == classify_temporary(status),
{
    if status == 200 {
        Ok(RpDelete {  })
    } else {
        Err(classify_status(status))
    }
}

/// Whether a stat response carries the object's status record.
pub fn stat_response_ok(status: u16) -> (r: bool)
    ensures
        r == (status == 200),
{
    status == 200
}

/// What to do with a list response.
#[derive(Clone, Copy, Debug, PartialEq, Eq, Structural)]
pub enum ListAction {
    /// Parse the returned status records into entries.
    Parse,
    /// The directory does not exist: an empty listing.
    Empty,
    /// The listing failed; classify the status.
    Fail,
}

/// Decide on a list response: parse an OK body, treat a missing directory as
/// empty, fail anything else.
pub fn list_response_action(status: u16) -> (r: ListAction)
    ensures
        r == (if status == 200 {
            ListAction::Parse
        } else if status == 404 {
            ListAction::Empty
        } else {
            ListAction::Fail
        }),
{
    if status == 200 {
        ListAction::Parse
    } else if status == 404 {
        ListAction::Empty
    } else {
        ListAction::Fail
    }
}

/// What to do when checking that the configured root is usable.
#[derive(Clone, Copy, Debug, PartialEq, Eq, Structural)]
pub enum RootCheckAction {
    /// The root exists: inspect whether it is a directory.
    Inspect,
    /// The root does not exist yet: create it as a directory.
    CreateRoot,
    /// The check failed; classify the status.
    Fail,
}

/// Decide on the root-status response.
pub fn root_check_action(status: u16) -> (r: RootCheckAction)
    ensures
        r == (if status == 200 {
            RootCheckAction::Inspect
        } else if status == 404 {
            RootCheckAction::CreateRoot
        } else {
            RootCheckAction::Fail
        }),
{
    if status == 200 {
        RootCheckAction::Inspect
    } else if status == 404 {
        RootCheckAction::CreateRoot
    } else {
        RootCheckAction::Fail
    }
}

/// The root is usable only when it is a directory: a leaf object in its
/// place is a permanent configuration error.
pub fn root_type_result(root_is_file: bool) -> (r: Result<(), Error>)
    ensures
        root_is_file <==> r is Err,
        r matches Err(e) ==> e.kind() == ErrorKind::BackendConfigInvalid && !e.is_temporary(),
{
    if root_is_file {
        Err(Error::new(ErrorKind::BackendConfigInvalid, "the root is occupied by an object"))
    } else {
        Ok(())
    }
}

/// The error kind a failed response maps to: a missing object is reported
/// as such, everything else as a backend-internal fault.
pub open spec fn classify_kind(status: u16) -> ErrorKind {
    if status == 404 {
        ErrorKind::ObjectNotFound
    } else {
        ErrorKind::Unexpected
    }
}

/// Whether a failed response is transient: server-side faults may be
/// retried, everything else is permanent.
pub open spec fn classify_temporary(status: u16) -> bool {
    status == 500 || status == 502 || status == 503
}

/// Map a failed response status to the error handed to callers.
pub fn classify_status(status: u16) -> (r: Error)
    ensures
        r.kind() == classify_kind(status),
        r.is_temporary() == classify_temporary(status),
{
    let e = if status == 404 {
        Error::new(ErrorKind::ObjectNotFound, "object not found")
    } else {
        Error::new(ErrorKind::Unexpected, "the service answered with a failure status")
    };
    if status == 500 || status == 502 || status == 503 {
        e.set_temporary()
    } else {
        e
    }
}

/// Build an object's metadata from the fields of a status record.
pub fn file_status_metadata(is_dir: bool, length: u64, modified_at: i64) -> (r: ObjectMetadata)
    ensures
        r.mode == (if is_dir {
            ObjectMode::Dir
        } else {
            ObjectMode::File
        }),
        r.content_length == Some(length),
        r.last_modified == Some(modified_at),
{
    let mode = if is_dir {
        ObjectMode::Dir
    } else {
        ObjectMode::File
    };
    ObjectMetadata::new(mode).with_content_length(length).with_last_modified(modified_at)
}

} // verus!
