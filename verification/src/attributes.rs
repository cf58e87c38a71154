use vstd::prelude::*;
use crate::service::{HttpMethod, http_method_named};

verus! {

/// A token of an attribute's arguments, as the compiler hands them over.
#[derive(Debug)]
pub enum AttrToken {
    Ident(String),
    Punct(char),
    /// A string literal, by its value.
    Str(String),
    /// Any other literal, by its text.
    OtherLiteral(String),
}

/// The model of an [`AttrToken`].
pub enum AttrTokenView {
    Ident(Seq<char>),
    Punct(char),
    Str(Seq<char>),
    OtherLiteral(Seq<char>),
}

impl View for AttrToken {
    type V = AttrTokenView;

    open spec fn view(&self) -> AttrTokenView {
        match self {
            AttrToken::Ident(s) => AttrTokenView::Ident(s@),
            AttrToken::Punct(c) => AttrTokenView::Punct(*c),
            AttrToken::Str(s) => AttrTokenView::Str(s@),
            AttrToken::OtherLiteral(s) => AttrTokenView::OtherLiteral(s@),
        }
    }
}

/// The models of a list of tokens.
pub open spec fn tokens_view(ts: Seq<AttrToken>) -> Seq<AttrTokenView> {
    ts.map_values(|t: AttrToken| t@)
}

/// Why an attribute's arguments were refused.
#[derive(Debug, Clone, Copy, PartialEq, Eq, Structural)]
pub enum AttributeError {
    /// An argument does not start with a name.
    ExpectedIdentifier,
    /// A name is not one the attribute knows.
    UnexpectedAttribute,
    /// A name is not followed by `=`.
    ExpectedEquals,
    /// A `=` is not followed by a literal.
    ExpectedLiteral,
    /// The literal given for `path` is not a string.
    ExpectedPathString,
    /// The literal given for `method` is not a string, or names no known method.
    ExpectedMethodString,
    /// The literal given for `topic` is not a string.
    ExpectedTopicString,
}

/// The arguments of an HTTP endpoint declaration.
pub struct HttpApiAttribute {
    pub path: Option<String>,
    pub method: Option<HttpMethod>,
}

/// The model of an [`HttpApiAttribute`].
pub struct HttpApiView {
    pub path: Option<Seq<char>>,
    pub method: Option<HttpMethod>,
}

impl View for HttpApiAttribute {
    type V = HttpApiView;

    open spec fn view(&self) -> HttpApiView {
        HttpApiView {
            path: match self.path {
                Some(p) => Some(p@),
                None => None,
            },
            method: self.method,
        }
    }
}

/// The arguments of a NATS endpoint declaration.
pub struct NatsApiAttribute {
    pub topic: Option<String>,
}

/// Where an argument's value starts: after its name and a `=`, which must be followed by a
/// literal; the value is the literal's token.
pub open spec fn value_at(ts: Seq<AttrTokenView>, i: int) -> Result<AttrTokenView, AttributeError> {
    if i + 1 >= ts.len() || ts[i + 1] != AttrTokenView::Punct('=') {
        Err(AttributeError::ExpectedEquals)
    } else if i + 2 >= ts.len() {
        Err(AttributeError::ExpectedLiteral)
    } else {
        match ts[i + 2] {
            AttrTokenView::Str(s) => Ok(AttrTokenView::Str(s)),
            AttrTokenView::OtherLiteral(s) => Ok(AttrTokenView::OtherLiteral(s)),
            _ => Err(AttributeError::ExpectedLiteral),
        }
    }
}

/// Where the next argument starts after a value ending before `j`: past a `,` if one follows.
pub open spec fn after_comma(ts: Seq<AttrTokenView>, j: int) -> int {
    if j < ts.len() && ts[j] == AttrTokenView::Punct(',') {
        j + 1
    } else {
        j
    }
}

/// Reads the arguments of an HTTP declaration from position `i` on, given what was read
/// before: `path = "..."` and `method = "..."` (any ASCII case), each followed by an optional
/// comma; a later value replaces an earlier one.
pub open spec fn http_from(ts: Seq<AttrTokenView>, i: int, acc: HttpApiView) -> Result<HttpApiView, AttributeError>
    decreases ts.len() - i,
{
    if i < 0 || i >= ts.len() {
        Ok(acc)
    } else {
        match ts[i] {
            AttrTokenView::Ident(name) => if name == "path"@ {
                match value_at(ts, i) {
                    Err(e) => Err(e),
                    Ok(AttrTokenView::Str(p)) => http_from(ts, after_comma(ts, i + 3), HttpApiView { path: Some(p), ..acc }),
                    Ok(_) => Err(AttributeError::ExpectedPathString),
                }
            } else if name == "method"@ {
                match value_at(ts, i) {
                    Err(e) => Err(e),
                    Ok(AttrTokenView::Str(m)) => match http_method_named(m) {
                        Some(method) => http_from(ts, after_comma(ts, i + 3), HttpApiView { method: Some(method), ..acc }),
                        None => Err(AttributeError::ExpectedMethodString),
                    },
                    Ok(_) => Err(AttributeError::ExpectedMethodString),
                }
            } else {
                Err(AttributeError::UnexpectedAttribute)
            },
            _ => Err(AttributeError::ExpectedIdentifier),
        }
    }
}

/// Reads the arguments of a NATS declaration from position `i` on: `topic = "..."`, followed
/// by an optional comma; a later value replaces an earlier one.
pub open spec fn nats_from(ts: Seq<AttrTokenView>, i: int, acc: Option<Seq<char>>) -> Result<Option<Seq<char>>, AttributeError>
    decreases ts.len() - i,
{
    if i < 0 || i >= ts.len() {
        Ok(acc)
    } else {
        match ts[i] {
            AttrTokenView::Ident(name) => if name == "topic"@ {
                match value_at(ts, i) {
                    Err(e) => Err(e),
                    Ok(AttrTokenView::Str(t)) => nats_from(ts, after_comma(ts, i + 3), Some(t)),
                    Ok(_) => Err(AttributeError::ExpectedTopicString),
                }
            } else {
                Err(AttributeError::UnexpectedAttribute)
            },
            _ => Err(AttributeError::ExpectedIdentifier),
        }
    }
}

fn same_text(a: &String, b: &str) -> (r: bool)
    ensures
        r == (a@ == b@),
{
    let ac = crate::text::chars_of(a.as_str());
    let bc = crate::text::chars_of(b);
    if ac.len() != bc.len() {
        return false;
    }
    let mut i: usize = 0;
    while i < ac.len()
        invariant
            i <= ac.len(),
            ac.len() == bc.len(),
            ac@ == a@,
            bc@ == b@,
            forall|j: int| 0 <= j < i ==> ac@[j] == bc@[j],
        decreases ac.len() - i,
    {
        if ac[i] != bc[i] {
            return false;
        }
        i = i + 1;
    }
    assert(ac@ =~= bc@);
    true
}

/// Where the value of the argument named at `i` is: `Ok(k)` with `k` the position of its
/// literal.
fn locate_value(tokens: &Vec<AttrToken>, i: usize) -> (r: Result<usize, AttributeError>)
    requires
        i < tokens.len(),
    ensures
        match (r, value_at(tokens_view(tokens@), i as int)) {
            (Ok(k), Ok(v)) => k == i + 2 && k < tokens.len() && tokens@[k as int]@ == v,
            (Err(a), Err(b)) => a == b,
            _ => false,
        },
{
    let ghost ts = tokens_view(tokens@);
    if i + 1 >= tokens.len() {
        return Err(AttributeError::ExpectedEquals);
    }
    assert(ts[i + 1] == tokens@[i + 1]@);
    match &tokens[i + 1] {
        AttrToken::Punct(c) => {
            if *c != '=' {
                return Err(AttributeError::ExpectedEquals);
            }
        },
        _ => {
            return Err(AttributeError::ExpectedEquals);
        },
    }
    if i + 2 >= tokens.len() {
        return Err(AttributeError::ExpectedLiteral);
    }
    assert(ts[i + 2] == tokens@[i + 2]@);
    match &tokens[i + 2] {
        AttrToken::Str(_) | AttrToken::OtherLiteral(_) => Ok(i + 2),
        _ => Err(AttributeError::ExpectedLiteral),
    }
}

fn skip_comma(tokens: &Vec<AttrToken>, j: usize) -> (r: usize)
    requires
        j <= tokens.len(),
    ensures
        r == after_comma(tokens_view(tokens@), j as int),
        r <= tokens.len(),
{
    if j < tokens.len() {
        assert(tokens_view(tokens@)[j as int] == tokens@[j as int]@);
        match &tokens[j] {
            AttrToken::Punct(c) => {
                if *c == ',' {
                    return j + 1;
                }
            },
            _ => {},
        }
    }
    j
}

impl HttpApiAttribute {
    /// Reads the arguments of an HTTP endpoint declaration.
    pub fn parse(tokens: &Vec<AttrToken>) -> (r: Result<HttpApiAttribute, AttributeError>)
        ensures
            match (r, http_from(tokens_view(tokens@), 0, HttpApiView { path: None, method: None })) {
                (Ok(a), Ok(b)) => a@ == b,
                (Err(a), Err(b)) => a == b,
                _ => false,
            },
    {
        let ghost ts = tokens_view(tokens@);
        let mut attributes = HttpApiAttribute { path: None, method: None };
        let mut i: usize = 0;
        while i < tokens.len()
            invariant
                i <= tokens.len(),
                ts == tokens_view(tokens@),
                http_from(ts, i as int, attributes@) == http_from(ts, 0, HttpApiView { path: None, method: None }),
            decreases tokens.len() - i,
        {
            assert(ts[i as int] == tokens@[i as int]@);
            let name = match &tokens[i] {
                AttrToken::Ident(n) => n,
                _ => {
                    return Err(AttributeError::ExpectedIdentifier);
                },
            };
            if same_text(name, "path") {
                let k = match locate_value(tokens, i) {
                    Ok(k) => k,
                    Err(e) => {
                        return Err(e);
                    },
                };
                match &tokens[k] {
                    AttrToken::Str(p) => {
                        attributes.path = Some(p.clone());
                    },
                    _ => {
                        return Err(AttributeError::ExpectedPathString);
                    },
                }
            } else if same_text(name, "method") {
                let k = match locate_value(tokens, i) {
                    Ok(k) => k,
                    Err(e) => {
                        return Err(e);
                    },
                };
                match &tokens[k] {
                    AttrToken::Str(m) => {
                        match HttpMethod::from_name(m.as_str()) {
                            Some(method) => {
                                attributes.method = Some(method);
                            },
                            None => {
                                return Err(AttributeError::ExpectedMethodString);
                            },
                        }
                    },
                    _ => {
                        return Err(AttributeError::ExpectedMethodString);
                    },
                }
            } else {
                return Err(AttributeError::UnexpectedAttribute);
            }
            i = skip_comma(tokens, i + 3);
        }
        Ok(attributes)
    }
}

impl NatsApiAttribute {
    /// Reads the arguments of a NATS endpoint declaration.
    pub fn parse(tokens: &Vec<AttrToken>) -> (r: Result<NatsApiAttribute, AttributeError>)
        ensures
            match (r, nats_from(tokens_view(tokens@), 0, None)) {
                (Ok(a), Ok(b)) => match (a.topic, b) {
                    (Some(x), Some(y)) => x@ == y,
                    (None, None) => true,
                    _ => false,
                },
                (Err(a), Err(b)) => a == b,
                _ => false,
            },
    {
        let ghost ts = tokens_view(tokens@);
        let mut topic: Option<String> = None;
        let mut i: usize = 0;
        while i < tokens.len()
            invariant
                i <= tokens.len(),
                ts == tokens_view(tokens@),
                nats_from(ts, i as int, match topic { Some(t) => Some(t@), None => None }) == nats_from(ts, 0, None),
            decreases tokens.len() - i,
        {
            assert(ts[i as int] == tokens@[i as int]@);
            let name = match &tokens[i] {
                AttrToken::Ident(n) => n,
                _ => {
                    return Err(AttributeError::ExpectedIdentifier);
                },
            };
            if !same_text(name, "topic") {
                return Err(AttributeError::UnexpectedAttribute);
            }
            let k = match locate_value(tokens, i) {
                Ok(k) => k,
                Err(e) => {
                    return Err(e);
                },
            };
            match &tokens[k] {
                AttrToken::Str(t) => {
                    topic = Some(t.clone());
                },
                _ => {
                    return Err(AttributeError::ExpectedTopicString);
                },
            }
            i = skip_comma(tokens, i + 3);
        }
        Ok(NatsApiAttribute { topic })
    }
}

/// An argument of an endpoint declaration, as split off by the compiler's parser: its name and
/// either an assigned type (`name = Type`, by the type's text) or a parenthesized group.
pub enum ApiArgumentValue {
    Assigned(String),
    Group(Vec<AttrToken>),
}

/// A named argument of an endpoint declaration.
pub struct ApiArgument {
    pub name: String,
    pub value: ApiArgumentValue,
}

/// Why an endpoint declaration was refused.
#[derive(Debug, Clone, Copy, PartialEq, Eq, Structural)]
pub enum ApiAttributeError {
    /// An argument was refused.
    Argument(AttributeError),
    MissingRequest,
    MissingResponse,
    MissingError,
    MissingAppState,
    /// Neither `http` nor `nats` was given.
    MissingTransport,
}

/// The arguments of an endpoint declaration: its request, response, error and application
/// state types (by their text), and how it is served.
pub struct ApiAttribute {
    pub request_type: Option<String>,
    pub response_type: Option<String>,
    pub error_type: Option<String>,
    pub app_state_type: Option<String>,
    pub http_options: Option<HttpApiAttribute>,
    pub nats_options: Option<NatsApiAttribute>,
}

/// The model of an [`ApiArgument`]: its name, and the text assigned or the group's tokens.
pub open spec fn argument_view(a: ApiArgument) -> (Seq<char>, Result<Seq<char>, Seq<AttrTokenView>>) {
    (
        a.name@,
        match a.value {
            ApiArgumentValue::Assigned(t) => Ok(t@),
            ApiArgumentValue::Group(g) => Err(tokens_view(g@)),
        },
    )
}

/// The model of a declaration read so far: the types assigned and the groups read.
pub struct ApiModel {
    pub request: Option<Seq<char>>,
    pub response: Option<Seq<char>>,
    pub error: Option<Seq<char>>,
    pub app_state: Option<Seq<char>>,
    pub http: Option<HttpApiView>,
    pub nats: Option<Option<Seq<char>>>,
}

/// The model of an [`ApiAttribute`].
pub open spec fn api_view(a: ApiAttribute) -> ApiModel {
    ApiModel {
        request: match a.request_type { Some(t) => Some(t@), None => None },
        response: match a.response_type { Some(t) => Some(t@), None => None },
        error: match a.error_type { Some(t) => Some(t@), None => None },
        app_state: match a.app_state_type { Some(t) => Some(t@), None => None },
        http: match a.http_options { Some(h) => Some(h@), None => None },
        nats: match a.nats_options {
            Some(n) => Some(match n.topic { Some(t) => Some(t@), None => None }),
            None => None,
        },
    }
}

/// The declaration with nothing read yet.
pub open spec fn empty_api() -> ApiModel {
    ApiModel { request: None, response: None, error: None, app_state: None, http: None, nats: None }
}

/// Reads the arguments of an endpoint declaration from position `i` on: the four types must
/// be assigned, `http` and `nats` must be groups that read as such, and any other name is
/// refused; a later value replaces an earlier one.
pub open spec fn api_from(args: Seq<(Seq<char>, Result<Seq<char>, Seq<AttrTokenView>>)>, i: int, m: ApiModel) -> Result<ApiModel, ApiAttributeError>
    decreases args.len() - i,
{
    if i < 0 || i >= args.len() {
        Ok(m)
    } else {
        let (name, value) = args[i];
        if name == "request"@ || name == "response"@ || name == "error"@ || name == "app_state"@ {
            match value {
                Ok(t) => api_from(args, i + 1, if name == "request"@ {
                    ApiModel { request: Some(t), ..m }
                } else if name == "response"@ {
                    ApiModel { response: Some(t), ..m }
                } else if name == "error"@ {
                    ApiModel { error: Some(t), ..m }
                } else {
                    ApiModel { app_state: Some(t), ..m }
                }),
                Err(_) => Err(ApiAttributeError::Argument(AttributeError::ExpectedEquals)),
            }
        } else if name == "http"@ {
            match value {
                Err(g) => match http_from(g, 0, HttpApiView { path: None, method: None }) {
                    Ok(h) => api_from(args, i + 1, ApiModel { http: Some(h), ..m }),
                    Err(e) => Err(ApiAttributeError::Argument(e)),
                },
                Ok(_) => Err(ApiAttributeError::Argument(AttributeError::ExpectedIdentifier)),
            }
        } else if name == "nats"@ {
            match value {
                Err(g) => match nats_from(g, 0, None) {
                    Ok(t) => api_from(args, i + 1, ApiModel { nats: Some(t), ..m }),
                    Err(e) => Err(ApiAttributeError::Argument(e)),
                },
                Ok(_) => Err(ApiAttributeError::Argument(AttributeError::ExpectedIdentifier)),
            }
        } else {
            Err(ApiAttributeError::Argument(AttributeError::UnexpectedAttribute))
        }
    }
}

/// Whether a declaration is complete: the first thing missing, in the order request,
/// response, error, application state, then a way to serve it.
pub open spec fn api_checked(m: ApiModel) -> Result<(), ApiAttributeError> {
    if m.request is None {
        Err(ApiAttributeError::MissingRequest)
    } else if m.response is None {
        Err(ApiAttributeError::MissingResponse)
    } else if m.error is None {
        Err(ApiAttributeError::MissingError)
    } else if m.app_state is None {
        Err(ApiAttributeError::MissingAppState)
    } else if m.http is None && m.nats is None {
        Err(ApiAttributeError::MissingTransport)
    } else {
        Ok(())
    }
}

/// The outcome of reading a whole declaration: its arguments, then its completeness.
pub open spec fn api_outcome(args: Seq<(Seq<char>, Result<Seq<char>, Seq<AttrTokenView>>)>) -> Result<ApiModel, ApiAttributeError> {
    match api_from(args, 0, empty_api()) {
        Err(e) => Err(e),
        Ok(m) => match api_checked(m) {
            Err(e) => Err(e),
            Ok(_) => Ok(m),
        },
    }
}

impl ApiAttribute {
    /// Reads an endpoint declaration from its arguments.
    pub fn parse(args: &Vec<ApiArgument>) -> (r: Result<ApiAttribute, ApiAttributeError>)
        ensures
            match (r, api_outcome(args@.map_values(|a: ApiArgument| argument_view(a)))) {
                (Ok(a), Ok(m)) => api_view(a) == m,
                (Err(a), Err(b)) => a == b,
                _ => false,
            },
    {
        let ghost views = args@.map_values(|a: ApiArgument| argument_view(a));
        let mut attribute = ApiAttribute {
            request_type: None,
            response_type: None,
            error_type: None,
            app_state_type: None,
            http_options: None,
            nats_options: None,
        };
        let mut i: usize = 0;
        while i < args.len()
            invariant
                i <= args.len(),
                views == args@.map_values(|a: ApiArgument| argument_view(a)),
                api_from(views, i as int, api_view(attribute)) == api_from(views, 0, empty_api()),
            decreases args.len() - i,
        {
            let arg = &args[i];
            let ghost before = api_view(attribute);
            assert(views[i as int] == argument_view(args@[i as int]));
            assert(views[i as int].0 == arg.name@);
            proof {
                reveal_strlit("request");
                reveal_strlit("response");
                reveal_strlit("error");
                reveal_strlit("app_state");
                reveal_strlit("http");
                reveal_strlit("nats");
            }
            let name = &arg.name;
            if same_text(name, "request") || same_text(name, "response") || same_text(name, "error")
                || same_text(name, "app_state") {
                let text = match &arg.value {
                    ApiArgumentValue::Assigned(t) => t.clone(),
                    ApiArgumentValue::Group(_) => {
                        return Err(ApiAttributeError::Argument(AttributeError::ExpectedEquals));
                    },
                };
                if same_text(name, "request") {
                    attribute.request_type = Some(text);
                } else if same_text(name, "response") {
                    attribute.response_type = Some(text);
                } else if same_text(name, "error") {
                    attribute.error_type = Some(text);
                } else {
                    attribute.app_state_type = Some(text);
                }
            } else if same_text(name, "http") {
                match &arg.value {
                    ApiArgumentValue::Group(g) => {
                        match HttpApiAttribute::parse(g) {
                            Ok(h) => {
                                attribute.http_options = Some(h);
                            },
                            Err(e) => {
                                return Err(ApiAttributeError::Argument(e));
                            },
                        }
                    },
                    ApiArgumentValue::Assigned(_) => {
                        return Err(ApiAttributeError::Argument(AttributeError::ExpectedIdentifier));
                    },
                }
            } else if same_text(name, "nats") {
                match &arg.value {
                    ApiArgumentValue::Group(g) => {
                        match NatsApiAttribute::parse(g) {
                            Ok(n) => {
                                attribute.nats_options = Some(n);
                            },
                            Err(e) => {
                                return Err(ApiAttributeError::Argument(e));
                            },
                        }
                    },
                    ApiArgumentValue::Assigned(_) => {
                        return Err(ApiAttributeError::Argument(AttributeError::ExpectedIdentifier));
                    },
                }
            } else {
                return Err(ApiAttributeError::Argument(AttributeError::UnexpectedAttribute));
            }
            assert(api_from(views, i as int, before) == api_from(views, i + 1, api_view(attribute)));
            i = i + 1;
        }
        if attribute.request_type.is_none() {
            return Err(ApiAttributeError::MissingRequest);
        }
        if attribute.response_type.is_none() {
            return Err(ApiAttributeError::MissingResponse);
        }
        if attribute.error_type.is_none() {
            return Err(ApiAttributeError::MissingError);
        }
        if attribute.app_state_type.is_none() {
            return Err(ApiAttributeError::MissingAppState);
        }
        if attribute.http_options.is_none() && attribute.nats_options.is_none() {
            return Err(ApiAttributeError::MissingTransport);
        }
        Ok(attribute)
    }
}

} // verus!
