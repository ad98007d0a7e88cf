//! The API definition the bindings are generated from: methods with an
//! HTTP method, a path pattern and typed parameters, and the TypeScript
//! client generated from them.
use vstd::prelude::*;
use crate::api_naming::{HttpMethod, camel, to_camel_case, uses_body};
use crate::text::{chars_of, owned, push_str, str_eq};

verus! {

/// A parameter type as written in the definition: a path type, with the
/// names of its first and last segments and the first generic argument of
/// its last segment when that argument is a type; or any other type.
pub enum TypeRef {
    Path { first: String, last: String, arg: Option<Box<TypeRef>> },
    Other,
}

/// A copy of a type.
pub fn copy_type(t: &TypeRef) -> (r: TypeRef)
    ensures
        r == *t,
    decreases t,
{
    match t {
        TypeRef::Path { first, last, arg } => {
            let a = match arg {
                Some(inner) => Some(Box::new(copy_type(inner))),
                None => None,
            };
            TypeRef::Path { first: first.clone(), last: last.clone(), arg: a }
        },
        TypeRef::Other => TypeRef::Other,
    }
}

/// A numeric type name.
pub open spec fn is_number_name(n: Seq<char>) -> bool {
    n == "i32"@ || n == "i64"@ || n == "u32"@ || n == "u64"@ || n == "f32"@ || n == "f64"@
}

/// The TypeScript type of a parameter type: strings, numbers and booleans
/// map to their TypeScript names, vectors to arrays of their element type,
/// options to their inner type, other paths to their last name, and
/// anything else to `any`.
pub open spec fn ts_type(t: TypeRef) -> Seq<char>
    decreases t,
{
    match t {
        TypeRef::Path { last, arg, .. } => if last@ == "String"@ {
            "string"@
        } else if is_number_name(last@) {
            "number"@
        } else if last@ == "bool"@ {
            "boolean"@
        } else if last@ == "Vec"@ {
            match arg {
                Some(inner) => ts_type(*inner) + "[]"@,
                None => "any[]"@,
            }
        } else if last@ == "Option"@ {
            match arg {
                Some(inner) => ts_type(*inner),
                None => "any"@,
            }
        } else {
            last@
        },
        TypeRef::Other => "any"@,
    }
}

/// The TypeScript type of a parameter type (see `ts_type`).
pub fn type_to_ts(t: &TypeRef) -> (r: String)
    ensures
        r@ == ts_type(*t),
    decreases t,
{
    match t {
        TypeRef::Path { last, arg, .. } => {
            let n = last.as_str();
            if str_eq(n, "String") {
                owned("string")
            } else if str_eq(n, "i32") || str_eq(n, "i64") || str_eq(n, "u32") || str_eq(n, "u64")
                || str_eq(n, "f32") || str_eq(n, "f64") {
                owned("number")
            } else if str_eq(n, "bool") {
                owned("boolean")
            } else if str_eq(n, "Vec") {
                match arg {
                    Some(inner) => {
                        let mut s = type_to_ts(inner);
                        push_str(&mut s, "[]");
                        s
                    },
                    None => owned("any[]"),
                }
            } else if str_eq(n, "Option") {
                match arg {
                    Some(inner) => type_to_ts(inner),
                    None => owned("any"),
                }
            } else {
                last.clone()
            }
        },
        TypeRef::Other => owned("any"),
    }
}

fn ends_with(s: &str, suffix: &str) -> (b: bool)
    ensures
        b == (suffix@.len() <= s@.len() && s@.skip(s@.len() - suffix@.len()) == suffix@),
{
    let sc = chars_of(s);
    let pc = chars_of(suffix);
    if pc.len() > sc.len() {
        return false;
    }
    let n = sc.len();
    let off = n - pc.len();
    let mut i: usize = 0;
    while i < pc.len()
        invariant
            n == sc@.len(),
            sc@ == s@,
            pc@ == suffix@,
            off == sc@.len() - pc@.len(),
            off + pc@.len() == sc@.len(),
            i <= pc@.len(),
            forall|j: int| 0 <= j < i ==> pc@[j] == sc@[off + j],
        decreases pc@.len() - i,
    {
        if pc[i] != sc[off + i] {
            assert(s@.skip(off as int)[i as int] != suffix@[i as int]);
            return false;
        }
        i = i + 1;
    }
    assert(s@.skip(off as int) =~= suffix@);
    true
}

/// `t` ends with `suffix`.
pub open spec fn ends_with_text(t: Seq<char>, suffix: Seq<char>) -> bool {
    suffix.len() <= t.len() && t.skip(t.len() - suffix.len()) == suffix
}

/// A request type: a path type whose last name ends with "Request" or
/// "Data".
pub open spec fn is_request_type(t: TypeRef) -> bool {
    match t {
        TypeRef::Path { last, .. } => ends_with_text(last@, "Request"@) || ends_with_text(last@, "Data"@),
        TypeRef::Other => false,
    }
}

/// An optional type: a path type whose first name is "Option".
pub open spec fn is_option_type(t: TypeRef) -> bool {
    match t {
        TypeRef::Path { first, .. } => first@ == "Option"@,
        TypeRef::Other => false,
    }
}

fn request_type(t: &TypeRef) -> (b: bool)
    ensures
        b == is_request_type(*t),
{
    match t {
        TypeRef::Path { last, .. } => ends_with(last.as_str(), "Request") || ends_with(last.as_str(), "Data"),
        TypeRef::Other => false,
    }
}

fn option_type(t: &TypeRef) -> (b: bool)
    ensures
        b == is_option_type(*t),
{
    match t {
        TypeRef::Path { first, .. } => str_eq(first.as_str(), "Option"),
        TypeRef::Other => false,
    }
}

/// `p` occurs in `s`.
pub open spec fn occurs_in(s: Seq<char>, p: Seq<char>) -> bool {
    exists|i: int| 0 <= i && i + p.len() <= s.len() && #[trigger] s.subrange(i, i + p.len()) == p
}

fn occurs(s: &Vec<char>, p: &Vec<char>) -> (b: bool)
    ensures
        b == occurs_in(s@, p@),
{
    if p.len() > s.len() {
        proof {
            if occurs_in(s@, p@) {
                let i = choose|i: int| 0 <= i && i + p@.len() <= s@.len() && #[trigger] s@.subrange(i, i + p@.len()) == p@;
            }
        }
        return false;
    }
    let n = s.len();
    let last = n - p.len();
    let mut i: usize = 0;
    loop
        invariant
            n == s@.len(),
            last == s@.len() - p@.len(),
            p@.len() <= s@.len(),
            i <= last,
            forall|k: int| 0 <= k < i ==> #[trigger] s@.subrange(k, k + p@.len()) != p@,
        decreases last - i,
    {
        let mut j: usize = 0;
        let mut same = true;
        while j < p.len()
            invariant
                n == s@.len(),
                last == s@.len() - p@.len(),
                p@.len() <= s@.len(),
                i <= last,
                j <= p@.len(),
                same == (forall|m: int| 0 <= m < j ==> s@[i + m] == p@[m]),
            decreases p@.len() - j,
        {
            if s[i + j] != p[j] {
                same = false;
            }
            j = j + 1;
        }
        if same {
            assert(s@.subrange(i as int, i + p@.len()) =~= p@);
            return true;
        }
        assert(s@.subrange(i as int, i + p@.len()) != p@) by {
            let m = choose|m: int| 0 <= m < p@.len() && s@[i + m] != p@[m];
            assert(s@.subrange(i as int, i + p@.len())[m] == s@[i + m]);
        }
        if i == last {
            proof {
                if occurs_in(s@, p@) {
                    let k = choose|k: int| 0 <= k && k + p@.len() <= s@.len() && #[trigger] s@.subrange(k, k + p@.len()) == p@;
                    assert(k <= last);
                }
            }
            return false;
        }
        i = i + 1;
    }
}

/// Where a parameter goes in a request.
#[derive(Clone, Copy, Debug, PartialEq, Eq)]
pub enum ParamPlace {
    /// In the path, where the pattern names it.
    Path,
    /// As the request body.
    Body,
    /// In the query, optional or not.
    Query { optional: bool },
}

/// Where a parameter goes: in the path when the pattern holds `{name}`,
/// else as the body when its type is a request type, else in the query
/// (optional when its type is an option).
pub open spec fn placement(path: Seq<char>, name: Seq<char>, ty: TypeRef) -> ParamPlace {
    if occurs_in(path, "{"@ + name + "}"@) {
        ParamPlace::Path
    } else if is_request_type(ty) {
        ParamPlace::Body
    } else {
        ParamPlace::Query { optional: is_option_type(ty) }
    }
}

/// Where a parameter goes (see `placement`).
pub fn place_param(path: &str, name: &str, ty: &TypeRef) -> (r: ParamPlace)
    ensures
        r == placement(path@, name@, *ty),
{
    let mut pattern = owned("{");
    push_str(&mut pattern, name);
    push_str(&mut pattern, "}");
    let pc = chars_of(path);
    let tc = chars_of(pattern.as_str());
    if occurs(&pc, &tc) {
        ParamPlace::Path
    } else if request_type(ty) {
        ParamPlace::Body
    } else {
        ParamPlace::Query { optional: option_type(ty) }
    }
}

/// A parameter of an API method: its name and type.
pub struct ApiParam {
    pub name: String,
    pub ty: TypeRef,
}

/// A query parameter: its name, type, and whether it may be left out.
pub struct QueryParam {
    pub name: String,
    pub ty: TypeRef,
    pub optional: bool,
}

/// The parts of an `#[api(...)]` attribute: the HTTP method keyword, the
/// path pattern, and the flag that follows them, if any.
pub struct ApiAttr {
    pub method: String,
    pub path: String,
    pub flag: Option<String>,
}

/// A method of the API definition.
pub struct ApiMethod {
    pub name: String,
    pub http_method: HttpMethod,
    pub path: String,
    pub path_params: Vec<ApiParam>,
    pub query_params: Vec<QueryParam>,
    pub body_param: Option<ApiParam>,
    pub desktop_only: bool,
}

/// The HTTP method a keyword names.
pub open spec fn method_named(k: Seq<char>) -> Option<HttpMethod> {
    if k == "GET"@ {
        Some(HttpMethod::Get)
    } else if k == "POST"@ {
        Some(HttpMethod::Post)
    } else if k == "PUT"@ {
        Some(HttpMethod::Put)
    } else if k == "DELETE"@ {
        Some(HttpMethod::Delete)
    } else if k == "PATCH"@ {
        Some(HttpMethod::Patch)
    } else {
        None
    }
}

/// The HTTP method a keyword names; another keyword is refused.
pub fn parse_http_method(k: &str) -> (r: Result<HttpMethod, String>)
    ensures
        match method_named(k@) {
            Some(m) => r == Ok::<HttpMethod, String>(m),
            None => r matches Err(e) && e@ == "Expected HTTP method (GET, POST, PUT, DELETE, PATCH)"@,
        },
{
    if str_eq(k, "GET") {
        Ok(HttpMethod::Get)
    } else if str_eq(k, "POST") {
        Ok(HttpMethod::Post)
    } else if str_eq(k, "PUT") {
        Ok(HttpMethod::Put)
    } else if str_eq(k, "DELETE") {
        Ok(HttpMethod::Delete)
    } else if str_eq(k, "PATCH") {
        Ok(HttpMethod::Patch)
    } else {
        Err(owned("Expected HTTP method (GET, POST, PUT, DELETE, PATCH)"))
    }
}

/// The (name, type) of a parameter.
pub open spec fn param_view(p: ApiParam) -> (Seq<char>, TypeRef) {
    (p.name@, p.ty)
}

/// The parameters that go in the path, in order.
pub open spec fn path_params_of(params: Seq<ApiParam>, path: Seq<char>) -> Seq<(Seq<char>, TypeRef)>
    decreases params.len(),
{
    if params.len() == 0 {
        Seq::empty()
    } else {
        let r = path_params_of(params.drop_last(), path);
        let p = params.last();
        if placement(path, p.name@, p.ty) == ParamPlace::Path {
            r.push(param_view(p))
        } else {
            r
        }
    }
}

/// The parameters that go in the query, in order, with whether each is
/// optional.
pub open spec fn query_params_of(params: Seq<ApiParam>, path: Seq<char>) -> Seq<(Seq<char>, TypeRef, bool)>
    decreases params.len(),
{
    if params.len() == 0 {
        Seq::empty()
    } else {
        let r = query_params_of(params.drop_last(), path);
        let p = params.last();
        match placement(path, p.name@, p.ty) {
            ParamPlace::Query { optional } => r.push((p.name@, p.ty, optional)),
            _ => r,
        }
    }
}

/// The body parameter: the last parameter that goes in the body.
pub open spec fn body_param_of(params: Seq<ApiParam>, path: Seq<char>) -> Option<(Seq<char>, TypeRef)>
    decreases params.len(),
{
    if params.len() == 0 {
        None
    } else if placement(path, params.last().name@, params.last().ty) == ParamPlace::Body {
        Some(param_view(params.last()))
    } else {
        body_param_of(params.drop_last(), path)
    }
}

/// The (name, type, optional) of query parameters.
pub open spec fn query_views(v: Seq<QueryParam>) -> Seq<(Seq<char>, TypeRef, bool)> {
    v.map_values(|q: QueryParam| (q.name@, q.ty, q.optional))
}

/// The (name, type) of parameters.
pub open spec fn param_views(v: Seq<ApiParam>) -> Seq<(Seq<char>, TypeRef)> {
    v.map_values(|p: ApiParam| param_view(p))
}

/// `m` is the method named `name` with the attribute `a` and the
/// parameters `params`.
pub open spec fn method_from(m: ApiMethod, name: String, a: ApiAttr, params: Seq<ApiParam>) -> bool {
    &&& m.name == name
    &&& method_named(a.method@) == Some(m.http_method)
    &&& m.path == a.path
    &&& m.desktop_only == (match a.flag {
        Some(f) => f@ == "desktop_only"@,
        None => false,
    })
    &&& param_views(m.path_params@) == path_params_of(params, a.path@)
    &&& query_views(m.query_params@) == query_params_of(params, a.path@)
    &&& match m.body_param {
        Some(b) => body_param_of(params, a.path@) == Some(param_view(b)),
        None => body_param_of(params, a.path@) is None,
    }
}

fn copy_param(name: &String, ty: &TypeRef) -> (p: ApiParam)
    ensures
        p.name@ == name@,
        p.ty == *ty,
{
    ApiParam { name: name.clone(), ty: copy_type(ty) }
}

/// Reads an API method from its name, its `#[api(...)]` attribute and its
/// parameters (the receiver left out): the HTTP method and path pattern of
/// the attribute, whether it is flagged `desktop_only`, and where each
/// parameter goes. A method without the attribute, or with an unknown
/// HTTP method, is refused.
pub fn parse_api_method(name: String, attr: Option<ApiAttr>, params: &Vec<ApiParam>) -> (r: Result<ApiMethod, String>)
    ensures
        match attr {
            None => r matches Err(e) && e@ == "Missing #[api(...)] attribute"@,
            Some(a) => match method_named(a.method@) {
                None => r matches Err(e) && e@ == "Expected HTTP method (GET, POST, PUT, DELETE, PATCH)"@,
                Some(_) => r matches Ok(m) && method_from(m, name, a, params@),
            },
        },
{
    let a = match attr {
        Some(a) => a,
        None => {
            return Err(owned("Missing #[api(...)] attribute"));
        },
    };
    let http_method = match parse_http_method(a.method.as_str()) {
        Ok(m) => m,
        Err(e) => {
            return Err(e);
        },
    };
    let desktop_only = match &a.flag {
        Some(f) => str_eq(f.as_str(), "desktop_only"),
        None => false,
    };
    let ghost pv = params@;
    let ghost path = a.path@;
    let mut path_params: Vec<ApiParam> = Vec::new();
    let mut query_params: Vec<QueryParam> = Vec::new();
    let mut body_param: Option<ApiParam> = None;
    let mut i: usize = 0;
    while i < params.len()
        invariant
            i <= params@.len(),
            pv == params@,
            path == a.path@,
            param_views(path_params@) == path_params_of(pv.take(i as int), path),
            query_views(query_params@) == query_params_of(pv.take(i as int), path),
            match body_param {
                Some(b) => body_param_of(pv.take(i as int), path) == Some(param_view(b)),
                None => body_param_of(pv.take(i as int), path) is None,
            },
        decreases params@.len() - i,
    {
        let p = &params[i];
        let ghost t = pv.take(i + 1);
        assert(t.drop_last() =~= pv.take(i as int));
        assert(t.last() == *p);
        let place = place_param(a.path.as_str(), p.name.as_str(), &p.ty);
        match place {
            ParamPlace::Path => {
                let ghost prev = param_views(path_params@);
                path_params.push(copy_param(&p.name, &p.ty));
                assert(param_views(path_params@) =~= prev.push(param_view(*p)));
            },
            ParamPlace::Body => {
                let b = copy_param(&p.name, &p.ty);
                assert(param_view(b) == param_view(*p));
                body_param = Some(b);
            },
            ParamPlace::Query { optional } => {
                let ghost prev = query_views(query_params@);
                let c = copy_param(&p.name, &p.ty);
                query_params.push(QueryParam { name: c.name, ty: c.ty, optional });
                assert(query_views(query_params@) =~= prev.push((p.name@, p.ty, optional)));
            },
        }
        i = i + 1;
    }
    assert(pv.take(i as int) =~= pv);
    Ok(
        ApiMethod {
            name,
            http_method,
            path: a.path,
            path_params,
            query_params,
            body_param,
            desktop_only,
        },
    )
}

/// `s` with each occurrence of `pat` (nonempty), found from the left
/// without overlap, replaced by `rep`.
pub open spec fn replace_all(s: Seq<char>, pat: Seq<char>, rep: Seq<char>) -> Seq<char>
    decreases s.len(),
{
    if s.len() == 0 || pat.len() == 0 {
        s
    } else if pat.len() <= s.len() && s.take(pat.len() as int) == pat {
        rep + replace_all(s.skip(pat.len() as int), pat, rep)
    } else {
        seq![s[0]] + replace_all(s.drop_first(), pat, rep)
    }
}

fn matches_at(s: &Vec<char>, i: usize, p: &Vec<char>) -> (b: bool)
    requires
        i <= s@.len(),
    ensures
        b == (p@.len() <= s@.len() - i && s@.skip(i as int).take(p@.len() as int) == p@),
{
    let n = s.len();
    if p.len() > n - i {
        return false;
    }
    let mut j: usize = 0;
    while j < p.len()
        invariant
            n == s@.len(),
            i <= n,
            p@.len() <= n - i,
            j <= p@.len(),
            forall|m: int| 0 <= m < j ==> s@[i + m] == p@[m],
        decreases p@.len() - j,
    {
        if s[i + j] != p[j] {
            assert(s@.skip(i as int).take(p@.len() as int)[j as int] != p@[j as int]);
            return false;
        }
        j = j + 1;
    }
    assert(s@.skip(i as int).take(p@.len() as int) =~= p@);
    true
}

/// `s` with every occurrence of `pat` replaced by `rep` (`str::replace`).
pub fn replace_text(s: &str, pat: &str, rep: &str) -> (r: String)
    requires
        pat@.len() > 0,
    ensures
        r@ == replace_all(s@, pat@, rep@),
{
    let sc = chars_of(s);
    let pc = chars_of(pat);
    let n = sc.len();
    let mut out = String::new();
    let mut i: usize = 0;
    assert(sc@.skip(0) =~= sc@);
    while i < n
        invariant
            n == sc@.len(),
            sc@ == s@,
            pc@ == pat@,
            pat@.len() > 0,
            i <= n,
            out@ + replace_all(sc@.skip(i as int), pc@, rep@) == replace_all(s@, pat@, rep@),
        decreases n - i,
    {
        let ghost rest = sc@.skip(i as int);
        let ghost before = out@;
        if matches_at(&sc, i, &pc) {
            push_str(&mut out, rep);
            assert(rest.skip(pc@.len() as int) =~= sc@.skip(i + pc@.len()));
            assert(out@ + replace_all(sc@.skip(i + pc@.len()), pc@, rep@) =~= before + (rep@ + replace_all(
                rest.skip(pc@.len() as int),
                pc@,
                rep@,
            )));
            i = i + pc.len();
        } else {
            crate::text::push_char(&mut out, sc[i]);
            assert(rest[0] == sc@[i as int]);
            assert(rest.drop_first() =~= sc@.skip(i + 1));
            assert(out@ + replace_all(sc@.skip(i + 1), pc@, rep@) =~= before + (seq![rest[0]] + replace_all(
                rest.drop_first(),
                pc@,
                rep@,
            )));
            i = i + 1;
        }
    }
    assert(sc@.skip(n as int).len() == 0);
    assert(out@ + replace_all(sc@.skip(n as int), pc@, rep@) =~= out@);
    out
}

/// Pieces joined by a separator.
pub open spec fn join(parts: Seq<Seq<char>>, sep: Seq<char>) -> Seq<char>
    decreases parts.len(),
{
    if parts.len() == 0 {
        Seq::empty()
    } else if parts.len() == 1 {
        parts[0]
    } else {
        join(parts.drop_last(), sep) + sep + parts.last()
    }
}

fn join_strings(parts: &Vec<String>, sep: &str) -> (r: String)
    ensures
        r@ == join(crate::text::views(parts@), sep@),
{
    let ghost pv = crate::text::views(parts@);
    let mut out = String::new();
    let mut i: usize = 0;
    while i < parts.len()
        invariant
            i <= parts@.len(),
            pv == crate::text::views(parts@),
            out@ == join(pv.take(i as int), sep@),
        decreases parts@.len() - i,
    {
        let ghost t = pv.take(i + 1);
        assert(t.drop_last() =~= pv.take(i as int));
        assert(t.last() == parts@[i as int]@);
        if i > 0 {
            push_str(&mut out, sep);
        } else {
            assert(t =~= seq![parts@[0]@]);
        }
        push_str(&mut out, parts[i].as_str());
        i = i + 1;
    }
    assert(pv.take(i as int) =~= pv);
    out
}

/// The upper-case name of an HTTP method.
pub open spec fn method_word(m: HttpMethod) -> Seq<char> {
    match m {
        HttpMethod::Get => "GET"@,
        HttpMethod::Post => "POST"@,
        HttpMethod::Put => "PUT"@,
        HttpMethod::Delete => "DELETE"@,
        HttpMethod::Patch => "PATCH"@,
    }
}

fn method_word_of(m: HttpMethod) -> (r: &'static str)
    ensures
        r@ == method_word(m),
{
    match m {
        HttpMethod::Get => "GET",
        HttpMethod::Post => "POST",
        HttpMethod::Put => "PUT",
        HttpMethod::Delete => "DELETE",
        HttpMethod::Patch => "PATCH",
    }
}

/// The camel-case form of a name.
pub open spec fn camel_name(n: Seq<char>) -> Seq<char> {
    camel(n).0
}

/// The declarations of a generated client method's arguments: path
/// parameters as strings, then query parameters (optional ones marked),
/// then the body, each under its camel-case name.
pub open spec fn param_decls(m: ApiMethod) -> Seq<Seq<char>> {
    m.path_params@.map_values(|p: ApiParam| camel_name(p.name@) + ": string"@)
        + m.query_params@.map_values(
        |q: QueryParam|
            camel_name(q.name@) + (if q.optional {
                "?: "@
            } else {
                ": "@
            }) + ts_type(q.ty),
    ) + match m.body_param {
        Some(b) => seq![camel_name(b.name@) + ": "@ + ts_type(b.ty)],
        None => Seq::empty(),
    }
}

/// The query arguments of a generated client method: `name: name` for each
/// query parameter, by camel-case name.
pub open spec fn query_args(m: ApiMethod) -> Seq<Seq<char>> {
    m.query_params@.map_values(|q: QueryParam| camel_name(q.name@) + ": "@ + camel_name(q.name@))
}

/// The endpoint template of a generated client method: the path pattern
/// with each `{name}` of a path parameter replaced by `${camelName}`.
pub open spec fn endpoint_template(path: Seq<char>, params: Seq<ApiParam>) -> Seq<char>
    decreases params.len(),
{
    if params.len() == 0 {
        path
    } else {
        let p = params.last();
        replace_all(
            endpoint_template(path, params.drop_last()),
            "{"@ + p.name@ + "}"@,
            "${"@ + camel_name(p.name@) + "}"@,
        )
    }
}

/// The body and query arguments of a generated client method: a method
/// with a body but no body parameter sends its query arguments as the
/// body; otherwise the body parameter (or `undefined`) is sent, with the
/// query arguments (or `undefined`).
pub open spec fn call_args(m: ApiMethod) -> (Seq<char>, Seq<char>) {
    let q = query_args(m);
    let is_body = m.http_method == HttpMethod::Post || m.http_method == HttpMethod::Put
        || m.http_method == HttpMethod::Patch;
    if is_body && m.body_param is None && q.len() > 0 {
        ("{ "@ + join(q, ", "@) + " }"@, "undefined"@)
    } else {
        (
            match m.body_param {
                Some(b) => camel_name(b.name@),
                None => "undefined"@,
            },
            if q.len() == 0 {
                "undefined"@
            } else {
                "{ "@ + join(q, ", "@) + " }"@
            },
        )
    }
}

/// The TypeScript client method of an API method.
pub open spec fn ts_method_text(m: ApiMethod) -> Seq<char> {
    let f = camel_name(m.name@);
    let (body, query) = call_args(m);
    "  // "@ + f + "\n  "@ + f + ": async ("@ + join(param_decls(m), ", "@)
        + "): Promise<Result<any>> => {\n    return apiRequest('"@ + method_word(m.http_method) + "', `"@
        + endpoint_template(m.path@, m.path_params@) + "`, "@ + body + ", "@ + query
        + ");\n  },\n"@
}

/// The TypeScript client method of an API method (see `ts_method_text`).
pub fn generate_ts_method(m: &ApiMethod) -> (r: String)
    ensures
        r@ == ts_method_text(*m),
{
    let fn_name = to_camel_case(m.name.as_str());
    let mut decls: Vec<String> = Vec::new();
    let mut endpoint = m.path.clone();
    let mut i: usize = 0;
    while i < m.path_params.len()
        invariant
            i <= m.path_params@.len(),
            crate::text::views(decls@) == m.path_params@.take(i as int).map_values(
                |p: ApiParam| camel_name(p.name@) + ": string"@,
            ),
            endpoint@ == endpoint_template(m.path@, m.path_params@.take(i as int)),
        decreases m.path_params@.len() - i,
    {
        let p = &m.path_params[i];
        let camel_p = to_camel_case(p.name.as_str());
        let ghost prev = crate::text::views(decls@);
        let mut d = camel_p.clone();
        push_str(&mut d, ": string");
        decls.push(d);
        let mut pat = owned("{");
        push_str(&mut pat, p.name.as_str());
        push_str(&mut pat, "}");
        let mut rep = owned("${");
        push_str(&mut rep, camel_p.as_str());
        push_str(&mut rep, "}");
        proof {
            reveal_strlit("{");
            assert(pat@.len() > 0);
        }
        endpoint = replace_text(endpoint.as_str(), pat.as_str(), rep.as_str());
        proof {
            let t = m.path_params@.take(i + 1);
            assert(t.drop_last() =~= m.path_params@.take(i as int));
            assert(t.last() == *p);
            assert(crate::text::views(decls@) =~= prev.push(camel_name(p.name@) + ": string"@));
            assert(t.map_values(|p: ApiParam| camel_name(p.name@) + ": string"@) =~= m.path_params@.take(
                i as int,
            ).map_values(|p: ApiParam| camel_name(p.name@) + ": string"@).push(camel_name(p.name@) + ": string"@));
        }
        i = i + 1;
    }
    assert(m.path_params@.take(i as int) =~= m.path_params@);
    let ghost path_decls = crate::text::views(decls@);
    let mut qargs: Vec<String> = Vec::new();
    let mut j: usize = 0;
    while j < m.query_params.len()
        invariant
            j <= m.query_params@.len(),
            crate::text::views(decls@) == path_decls + m.query_params@.take(j as int).map_values(
                |q: QueryParam|
                    camel_name(q.name@) + (if q.optional {
                        "?: "@
                    } else {
                        ": "@
                    }) + ts_type(q.ty),
            ),
            crate::text::views(qargs@) == m.query_params@.take(j as int).map_values(
                |q: QueryParam| camel_name(q.name@) + ": "@ + camel_name(q.name@),
            ),
        decreases m.query_params@.len() - j,
    {
        let q = &m.query_params[j];
        let camel_q = to_camel_case(q.name.as_str());
        let ghost prev_d = crate::text::views(decls@);
        let ghost prev_q = crate::text::views(qargs@);
        let mut d = camel_q.clone();
        if q.optional {
            push_str(&mut d, "?: ");
        } else {
            push_str(&mut d, ": ");
        }
        let ty_name = type_to_ts(&q.ty);
        push_str(&mut d, ty_name.as_str());
        decls.push(d);
        let mut a = camel_q.clone();
        push_str(&mut a, ": ");
        push_str(&mut a, camel_q.as_str());
        qargs.push(a);
        proof {
            let t = m.query_params@.take(j + 1);
            assert(t.drop_last() =~= m.query_params@.take(j as int));
            assert(t.last() == *q);
            let dq = camel_name(q.name@) + (if q.optional {
                "?: "@
            } else {
                ": "@
            }) + ts_type(q.ty);
            assert(crate::text::views(decls@) =~= prev_d.push(dq));
            assert(crate::text::views(qargs@) =~= prev_q.push(camel_name(q.name@) + ": "@ + camel_name(q.name@)));
        }
        j = j + 1;
    }
    assert(m.query_params@.take(j as int) =~= m.query_params@);
    let body_arg: Option<String> = match &m.body_param {
        Some(b) => {
            let camel_b = to_camel_case(b.name.as_str());
            let mut d = camel_b.clone();
            push_str(&mut d, ": ");
            let ty_name = type_to_ts(&b.ty);
            push_str(&mut d, ty_name.as_str());
            let ghost prev = crate::text::views(decls@);
            decls.push(d);
            assert(crate::text::views(decls@) =~= prev.push(camel_name(b.name@) + ": "@ + ts_type(b.ty)));
            Some(camel_b)
        },
        None => None,
    };
    assert(crate::text::views(decls@) =~= param_decls(*m));
    assert(crate::text::views(qargs@) =~= query_args(*m));
    let params_str = join_strings(&decls, ", ");
    let is_body = uses_body(&m.http_method);
    let (body_expr, query_expr) = if is_body && body_arg.is_none() && qargs.len() > 0 {
        let mut b = owned("{ ");
        let joined = join_strings(&qargs, ", ");
        push_str(&mut b, joined.as_str());
        push_str(&mut b, " }");
        (b, owned("undefined"))
    } else {
        let q = if qargs.len() == 0 {
            owned("undefined")
        } else {
            let mut q = owned("{ ");
            let joined = join_strings(&qargs, ", ");
            push_str(&mut q, joined.as_str());
            push_str(&mut q, " }");
            q
        };
        let b = match body_arg {
            Some(name) => name,
            None => owned("undefined"),
        };
        (b, q)
    };
    assert((body_expr@, query_expr@) == call_args(*m));
    let mut r = owned("  // ");
    push_str(&mut r, fn_name.as_str());
    push_str(&mut r, "\n  ");
    push_str(&mut r, fn_name.as_str());
    push_str(&mut r, ": async (");
    push_str(&mut r, params_str.as_str());
    push_str(&mut r, "): Promise<Result<any>> => {\n    return apiRequest('");
    push_str(&mut r, method_word_of(m.http_method));
    push_str(&mut r, "', `");
    push_str(&mut r, endpoint.as_str());
    push_str(&mut r, "`, ");
    push_str(&mut r, body_expr.as_str());
    push_str(&mut r, ", ");
    push_str(&mut r, query_expr.as_str());
    push_str(&mut r, ");\n  },\n");
    assert(r@ =~= ts_method_text(*m));
    r
}

/// The TypeScript client method of a desktop-only API method: it fails
/// outside the desktop app, and there invokes the command of the method
/// with its first argument.
pub open spec fn desktop_method_text(m: ApiMethod) -> Seq<char> {
    let f = camel_name(m.name@);
    "  // Desktop-only: "@ + f + "\n  "@ + f
        + ": async (...args: any[]): Promise<Result<any>> => {\n    if (!isTauri) {\n      return { status: 'error', error: 'Desktop-only feature' };\n    }\n    const command = `cmd_"@
        + f
        + "`;\n    try {\n      const data = await invoke(command, args[0] || {});\n      return { status: 'ok', data };\n    } catch (error) {\n      return { status: 'error', error: String(error) };\n    }\n  },\n"@
}

/// The TypeScript client method of a desktop-only API method.
pub fn generate_desktop_only_method(m: &ApiMethod) -> (r: String)
    ensures
        r@ == desktop_method_text(*m),
{
    let f = to_camel_case(m.name.as_str());
    let mut r = owned("  // Desktop-only: ");
    push_str(&mut r, f.as_str());
    push_str(&mut r, "\n  ");
    push_str(&mut r, f.as_str());
    push_str(
        &mut r,
        ": async (...args: any[]): Promise<Result<any>> => {\n    if (!isTauri) {\n      return { status: 'error', error: 'Desktop-only feature' };\n    }\n    const command = `cmd_",
    );
    push_str(&mut r, f.as_str());
    push_str(
        &mut r,
        "`;\n    try {\n      const data = await invoke(command, args[0] || {});\n      return { status: 'ok', data };\n    } catch (error) {\n      return { status: 'error', error: String(error) };\n    }\n  },\n",
    );
    assert(r@ =~= desktop_method_text(*m));
    r
}

/// A method of the API trait as written: its name, its `#[api(...)]`
/// attribute if any, and its parameters (the receiver left out).
pub struct TraitMethod {
    pub name: String,
    pub attr: Option<ApiAttr>,
    pub params: Vec<ApiParam>,
}

/// The API definition read from a trait.
pub struct ApiDefinition {
    pub trait_name: String,
    pub methods: Vec<ApiMethod>,
}

/// A trait method that can be read: it has the attribute, with a known
/// HTTP method.
pub open spec fn readable_method(t: TraitMethod) -> bool {
    t.attr matches Some(a) && method_named(a.method@) is Some
}

/// The error a method that cannot be read is refused with.
pub open spec fn method_error_text(t: TraitMethod) -> Seq<char> {
    match t.attr {
        None => "Missing #[api(...)] attribute"@,
        Some(_) => "Expected HTTP method (GET, POST, PUT, DELETE, PATCH)"@,
    }
}

/// Reads the API definition of a trait: each method in order; the first
/// method that cannot be read refuses the whole trait with its error.
pub fn parse_api_trait(trait_name: String, items: Vec<TraitMethod>) -> (r: Result<ApiDefinition, String>)
    ensures
        (forall|i: int| 0 <= i < items@.len() ==> readable_method(#[trigger] items@[i])) <==> r is Ok,
        r matches Ok(d) ==> d.trait_name == trait_name && d.methods@.len() == items@.len() && forall|i: int|
            0 <= i < items@.len() ==> method_from(
                #[trigger] d.methods@[i],
                items@[i].name,
                items@[i].attr->0,
                items@[i].params@,
            ),
        r matches Err(e) ==> exists|i: int|
            0 <= i < items@.len() && !readable_method(#[trigger] items@[i]) && (forall|k: int|
                0 <= k < i ==> readable_method(#[trigger] items@[k])) && e@ == method_error_text(items@[i]),
{
    let ghost iv = items@;
    let mut methods: Vec<ApiMethod> = Vec::new();
    let mut rest = items;
    assert(rest@ == iv);
    let n = rest.len();
    let mut i: usize = 0;
    assert(iv.skip(0) =~= iv);
    while i < n
        invariant
            n == iv.len(),
            iv == items@,
            i <= iv.len(),
            rest@ == iv.skip(i as int),
            methods@.len() == i,
            forall|k: int| 0 <= k < i ==> readable_method(#[trigger] iv[k]),
            forall|k: int|
                0 <= k < i ==> method_from(#[trigger] methods@[k], iv[k].name, iv[k].attr->0, iv[k].params@),
        decreases iv.len() - i,
    {
        let item = rest.remove(0);
        assert(item == iv[i as int]);
        assert(rest@ =~= iv.skip(i + 1));
        let TraitMethod { name, attr, params } = item;
        match parse_api_method(name, attr, &params) {
            Ok(m) => {
                let ghost prev = methods@;
                methods.push(m);
                assert forall|k: int| 0 <= k < i + 1 implies method_from(#[trigger] methods@[k], iv[k].name, iv[k].attr->0, iv[k].params@) by {
                    if k < i {
                        assert(methods@[k] == prev[k]);
                    }
                }
            },
            Err(e) => {
                assert(!readable_method(iv[i as int]));
                assert(!(forall|k: int| 0 <= k < iv.len() ==> readable_method(#[trigger] iv[k])));
                assert(e@ == method_error_text(iv[i as int]));
                return Err(e);
            },
        }
        i = i + 1;
    }
    Ok(ApiDefinition { trait_name, methods })
}

} // verus!
