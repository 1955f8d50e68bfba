//! The route resolver: reads the `route` property of an endpoint, splits it
//! into an HTTP method and a path-segment template, and detects duplicate
//! routes across the whole document.
use crate::doc::find_prop;
use crate::doc::NodeValue;
use crate::doc::Position;
use crate::doc::Property;
use crate::error::invalid_ast_v;
use crate::error::Error;
use crate::error::ErrorV;
use crate::openapi::method_name_v;
use crate::openapi::MethodKind;
use crate::strings::chars_to_string;
use crate::strings::contains_string;
use crate::strings::lower_char;
use crate::strings::lower_seq;
use crate::strings::split_chars;
use crate::strings::split_seq;
use crate::strings::str_to_chars;
use crate::strings::trim_chars;
use crate::strings::trim_seq;
use vstd::prelude::*;

verus! {

/// The method named by a route token, compared case-insensitively after
/// trimming; anything but the five supported methods is refused.
pub open spec fn method_of(s: Seq<char>) -> Option<MethodKind> {
    let t = lower_seq(trim_seq(s));
    if t == "get"@ {
        Some(MethodKind::Get)
    } else if t == "post"@ {
        Some(MethodKind::Post)
    } else if t == "put"@ {
        Some(MethodKind::Put)
    } else if t == "delete"@ {
        Some(MethodKind::Delete)
    } else if t == "patch"@ {
        Some(MethodKind::Patch)
    } else {
        None
    }
}

/// Parses a method token: trimming, then a case-insensitive match against
/// the five supported methods.
fn parse_method(v: &Vec<char>) -> (r: Option<MethodKind>)
    ensures
        r == method_of(v@),
{
    let t = trim_chars(v);
    let mut low: Vec<char> = Vec::new();
    let mut i: usize = 0;
    while i < t.len()
        invariant
            i <= t@.len(),
            low@.len() == i,
            forall|k: int| 0 <= k < i ==> low@[k] == crate::strings::spec_lower_char(#[trigger] t@[k]),
        decreases t@.len() - i,
    {
        low.push(lower_char(t[i]));
        i = i + 1;
    }
    proof {
        assert(low@ =~= lower_seq(trim_seq(v@)));
        reveal_strlit("get");
        reveal_strlit("post");
        reveal_strlit("put");
        reveal_strlit("delete");
        reveal_strlit("patch");
    }
    let n = low.len();
    if n == 3 && low[0] == 'g' && low[1] == 'e' && low[2] == 't' {
        proof {
            assert(low@ =~= "get"@);
        }
        Some(MethodKind::Get)
    } else if n == 4 && low[0] == 'p' && low[1] == 'o' && low[2] == 's' && low[3] == 't' {
        proof {
            assert(low@ =~= "post"@);
        }
        Some(MethodKind::Post)
    } else if n == 3 && low[0] == 'p' && low[1] == 'u' && low[2] == 't' {
        proof {
            assert(low@ =~= "put"@);
        }
        Some(MethodKind::Put)
    } else if n == 6 && low[0] == 'd' && low[1] == 'e' && low[2] == 'l' && low[3] == 'e' && low[4]
        == 't' && low[5] == 'e' {
        proof {
            assert(low@ =~= "delete"@);
        }
        Some(MethodKind::Delete)
    } else if n == 5 && low[0] == 'p' && low[1] == 'a' && low[2] == 't' && low[3] == 'c' && low[4]
        == 'h' {
        proof {
            assert(low@ =~= "patch"@);
        }
        Some(MethodKind::Patch)
    } else {
        proof {
            assert(low@ != "get"@ && low@ != "post"@ && low@ != "put"@ && low@ != "delete"@ && low@
                != "patch"@);
        }
        None
    }
}

/// The canonical form of a route: the method's lower-case name, one space,
/// and the trimmed path template with its placeholders untouched. Two
/// endpoints conflict exactly when their canonical routes are equal.
pub open spec fn canonical_route_v(m: MethodKind, path: Seq<char>) -> Seq<char> {
    method_name_v(m) + " "@ + path
}

/// What resolving a route does: the outcome, and the set of canonical routes
/// seen so far, grown by this route when it is accepted.
///
/// The route must be a string property `route` of the endpoint object, of the
/// form `"<METHOD> <path>"`: one space, a known method (case-insensitive), a
/// path split on `/` whose `{}` segments mark path parameters. A repeat of an
/// already-seen canonical route is refused with `is conflict`.
pub open spec fn route_v(
    routes: Seq<Seq<char>>,
    props: Seq<Property>,
    position: Position,
    scope: Seq<Seq<char>>,
) -> (Result<(MethodKind, Seq<Seq<char>>), ErrorV>, Seq<Seq<char>>) {
    match find_prop(props, "route"@) {
        None => (Err(invalid_ast_v("miss"@, scope, position)), routes),
        Some(p) => match p.value.value {
            NodeValue::Str(s) => {
                let toks = split_seq(s@, ' ');
                if toks.len() != 2 {
                    (Err(invalid_ast_v("is invalid"@, scope, p.value.position)), routes)
                } else {
                    match method_of(toks[0]) {
                        None => (
                            Err(invalid_ast_v("is invalid"@, scope, p.value.position)),
                            routes,
                        ),
                        Some(m) => {
                            let path = trim_seq(toks[1]);
                            let canonical = canonical_route_v(m, path);
                            if routes.contains(canonical) {
                                (
                                    Err(invalid_ast_v("is conflict"@, scope, p.value.position)),
                                    routes,
                                )
                            } else {
                                (Ok((m, split_seq(path, '/'))), routes.push(canonical))
                            }
                        },
                    }
                }
            },
            _ => (Err(invalid_ast_v("must be string"@, scope, p.value.position)), routes),
        },
    }
}

/// Resolves the `route` property of an endpoint object: method and path
/// segments on success; on any failure the seen-route set is unchanged.
pub fn parse_route(
    routes: &mut Vec<String>,
    props: &Vec<Property>,
    position: Position,
    scope: &Vec<String>,
) -> (r: Result<(MethodKind, Vec<String>), Error>)
    ensures
        ({
            let (mr, mroutes) = route_v(old(routes).deep_view(), props@, position, scope.deep_view());
            final(routes).deep_view() == mroutes && match (r, mr) {
                (Ok((m, parts)), Ok((mm, mparts))) => m == mm && parts.deep_view() == mparts,
                (Err(e), Err(me)) => e@ == me,
                _ => false,
            }
        }),
{
    let route_prop = match crate::doc::find_property(props, "route") {
        None => {
            return Err(Error::invalid_ast("miss", scope, position));
        },
        Some(p) => p,
    };
    let s = match &route_prop.value.value {
        NodeValue::Str(s) => s,
        _ => {
            return Err(Error::invalid_ast("must be string", scope, route_prop.value.position));
        },
    };
    let chars = str_to_chars(s.as_str());
    let toks = split_chars(&chars, ' ');
    if toks.len() != 2 {
        return Err(Error::invalid_ast("is invalid", scope, route_prop.value.position));
    }
    proof {
        crate::strings::lemma_deep_view_chars(toks@[0]);
        crate::strings::lemma_deep_view_chars(toks@[1]);
        assert(toks@[0]@ == split_seq(s@, ' ')[0]);
        assert(toks@[1]@ == split_seq(s@, ' ')[1]);
    }
    let method = match parse_method(&toks[0]) {
        None => {
            return Err(Error::invalid_ast("is invalid", scope, route_prop.value.position));
        },
        Some(m) => m,
    };
    let path = trim_chars(&toks[1]);
    let mut canonical = String::from_str(method.name());
    canonical.append(" ");
    let path_str = chars_to_string(&path);
    canonical.append(path_str.as_str());
    proof {
        assert(canonical@ =~= canonical_route_v(method, trim_seq(split_seq(s@, ' ')[1])));
    }
    if contains_string(routes, canonical.as_str()) {
        return Err(Error::invalid_ast("is conflict", scope, route_prop.value.position));
    }
    let parts = split_chars(&path, '/');
    let mut out_parts: Vec<String> = Vec::new();
    let mut i: usize = 0;
    while i < parts.len()
        invariant
            i <= parts@.len(),
            out_parts@.len() == i,
            forall|k: int| 0 <= k < i ==> #[trigger] out_parts@[k]@ == parts.deep_view()[k],
        decreases parts@.len() - i,
    {
        let seg = chars_to_string(&parts[i]);
        proof {
            crate::strings::lemma_deep_view_chars(parts@[i as int]);
        }
        out_parts.push(seg);
        i = i + 1;
    }
    routes.push(canonical);
    proof {
        assert forall|k: int| 0 <= k < out_parts@.len() implies out_parts.deep_view()[k]
            == parts.deep_view()[k] by {
            assert(out_parts@[k]@ == parts.deep_view()[k]);
        }
        assert(out_parts.deep_view() =~~= split_seq(trim_seq(split_seq(s@, ' ')[1]), '/'));
        assert(routes.deep_view() =~~= old(routes).deep_view().push(
            canonical_route_v(method, trim_seq(split_seq(s@, ' ')[1])),
        ));
    }
    Ok((method, out_parts))
}

impl MethodKind {
    /// Parses a method token: trimming, then a case-insensitive match
    /// against the five supported methods.
    pub fn from_str(value: &str) -> (r: Option<MethodKind>)
        ensures
            r == method_of(value@),
    {
        let chars = str_to_chars(value);
        parse_method(&chars)
    }
}

} // verus!
