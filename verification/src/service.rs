use vstd::prelude::*;
use crate::text::{chars_of, string_from_chars};

verus! {

/// ASCII lower case of a character; other characters are unchanged.
pub open spec fn ascii_lower(c: char) -> char {
    if 'A' <= c && c <= 'Z' {
        ((c as u32) + 32) as char
    } else {
        c
    }
}

/// ASCII upper case of a character; other characters are unchanged.
pub open spec fn ascii_upper(c: char) -> char {
    if 'a' <= c && c <= 'z' {
        ((c as u32) - 32) as char
    } else {
        c
    }
}

/// ASCII lower case of a text.
pub open spec fn lower_text(s: Seq<char>) -> Seq<char> {
    s.map_values(|c: char| ascii_lower(c))
}

fn to_ascii_lower(c: char) -> (r: char)
    ensures
        r == ascii_lower(c),
{
    if 'A' <= c && c <= 'Z' {
        let b: u8 = c as u8;
        assert(b as u32 == c as u32);
        let l: u8 = b + 32;
        l as char
    } else {
        c
    }
}

fn to_ascii_upper(c: char) -> (r: char)
    ensures
        r == ascii_upper(c),
{
    if 'a' <= c && c <= 'z' {
        let b: u8 = c as u8;
        assert(b as u32 == c as u32);
        let u: u8 = b - 32;
        u as char
    } else {
        c
    }
}

fn lower_chars(s: &Vec<char>) -> (r: Vec<char>)
    ensures
        r@ == lower_text(s@),
{
    let mut out: Vec<char> = Vec::new();
    let mut i: usize = 0;
    while i < s.len()
        invariant
            i <= s.len(),
            out@ == lower_text(s@.take(i as int)),
        decreases s.len() - i,
    {
        out.push(to_ascii_lower(s[i]));
        i = i + 1;
        assert(out@ =~= lower_text(s@.take(i as int)));
    }
    assert(s@.take(s.len() as int) =~= s@);
    out
}

fn same_text(a: &Vec<char>, b: &str) -> (r: bool)
    ensures
        r == (a@ == b@),
{
    let bc = chars_of(b);
    if a.len() != bc.len() {
        return false;
    }
    let mut i: usize = 0;
    while i < a.len()
        invariant
            i <= a.len(),
            a.len() == bc.len(),
            bc@ == b@,
            forall|j: int| 0 <= j < i ==> a@[j] == bc@[j],
        decreases a.len() - i,
    {
        if a[i] != bc[i] {
            return false;
        }
        i = i + 1;
    }
    assert(a@ =~= bc@);
    true
}

/// HTTP methods that an endpoint can be declared with.
#[derive(Debug, Clone, Copy, PartialEq, Eq, Structural)]
pub enum HttpMethod {
    Get,
    Post,
    Put,
    Patch,
    Delete,
}

/// The displayed name of a method: the name of its variant.
pub open spec fn http_method_name(m: HttpMethod) -> Seq<char> {
    match m {
        HttpMethod::Get => "Get"@,
        HttpMethod::Post => "Post"@,
        HttpMethod::Put => "Put"@,
        HttpMethod::Patch => "Patch"@,
        HttpMethod::Delete => "Delete"@,
    }
}

/// The method that a declaration names, compared without regard to ASCII case.
pub open spec fn http_method_named(name: Seq<char>) -> Option<HttpMethod> {
    let l = lower_text(name);
    if l == "get"@ {
        Some(HttpMethod::Get)
    } else if l == "post"@ {
        Some(HttpMethod::Post)
    } else if l == "put"@ {
        Some(HttpMethod::Put)
    } else if l == "patch"@ {
        Some(HttpMethod::Patch)
    } else if l == "delete"@ {
        Some(HttpMethod::Delete)
    } else {
        None
    }
}

impl HttpMethod {
    /// The displayed name of the method ("Get", "Post", ...).
    pub fn name(&self) -> (r: String)
        ensures
            r@ == http_method_name(*self),
    {
        match self {
            HttpMethod::Get => "Get".to_owned(),
            HttpMethod::Post => "Post".to_owned(),
            HttpMethod::Put => "Put".to_owned(),
            HttpMethod::Patch => "Patch".to_owned(),
            HttpMethod::Delete => "Delete".to_owned(),
        }
    }

    /// The name of the method in lower case, as a route declaration writes it.
    pub fn lowercase_name(&self) -> (r: String)
        ensures
            r@ == lower_text(http_method_name(*self)),
    {
        let name = self.name();
        let chars = chars_of(name.as_str());
        let lowered = lower_chars(&chars);
        string_from_chars(&lowered)
    }

    /// The method that a declaration names ("get", "POST", ...); `None` for any other text.
    pub fn from_name(name: &str) -> (r: Option<HttpMethod>)
        ensures
            r == http_method_named(name@),
    {
        let lowered = lower_chars(&chars_of(name));
        if same_text(&lowered, "get") {
            Some(HttpMethod::Get)
        } else if same_text(&lowered, "post") {
            Some(HttpMethod::Post)
        } else if same_text(&lowered, "put") {
            Some(HttpMethod::Put)
        } else if same_text(&lowered, "patch") {
            Some(HttpMethod::Patch)
        } else if same_text(&lowered, "delete") {
            Some(HttpMethod::Delete)
        } else {
            None
        }
    }
}

/// Whether a character separates the words of a snake-case name.
pub open spec fn is_separator(c: char) -> bool {
    c == '_' || c == ' '
}

/// A name that can be turned into Pascal case: non-empty, its words separated by single
/// separators with none at either end, and each word starting with an ASCII character.
pub open spec fn well_formed_snake(s: Seq<char>) -> bool {
    &&& s.len() > 0
    &&& !is_separator(s[0])
    &&& !is_separator(s.last())
    &&& forall|i: int| 0 <= i < s.len() - 1 && is_separator(#[trigger] s[i]) ==> !is_separator(s[i + 1])
    &&& forall|i: int|
        0 <= i < s.len() && (i == 0 || is_separator(s[i - 1])) ==> (#[trigger] s[i] as u32) < 128
}

/// The Pascal-case form of the rest of a name: separators dropped, and the first character of
/// each word (the one at the start, when `at_word_start` holds, and each after a separator)
/// in ASCII upper case.
pub open spec fn pascal_from(s: Seq<char>, at_word_start: bool) -> Seq<char>
    decreases s.len(),
{
    if s.len() == 0 {
        seq![]
    } else if is_separator(s[0]) {
        pascal_from(s.drop_first(), true)
    } else {
        seq![if at_word_start { ascii_upper(s[0]) } else { s[0] }] + pascal_from(s.drop_first(), false)
    }
}

/// Turns a snake-case name ("get_user_name") into Pascal case ("GetUserName"); spaces
/// separate words as underscores do.
pub fn snake_case_to_pascal_case(input: String) -> (r: String)
    requires
        well_formed_snake(input@),
    ensures
        r@ == pascal_from(input@, true),
{
    let chars = chars_of(input.as_str());
    let mut out: Vec<char> = Vec::new();
    let mut at_start = true;
    let mut i: usize = 0;
    assert(chars@.skip(0) =~= chars@);
    assert(out@ + pascal_from(chars@, true) =~= pascal_from(chars@, true));
    while i < chars.len()
        invariant
            i <= chars.len(),
            chars@ == input@,
            out@ + pascal_from(chars@.skip(i as int), at_start) == pascal_from(chars@, true),
        decreases chars.len() - i,
    {
        let c = chars[i];
        proof {
            assert(chars@.skip(i as int).drop_first() =~= chars@.skip(i + 1));
            assert(chars@.skip(i as int)[0] == c);
        }
        if c == '_' || c == ' ' {
            at_start = true;
        } else {
            let ghost before = out@;
            if at_start {
                out.push(to_ascii_upper(c));
            } else {
                out.push(c);
            }
            at_start = false;
            proof {
                assert(out@ + pascal_from(chars@.skip(i + 1), false) =~= before + (seq![out@.last()] + pascal_from(chars@.skip(i + 1), false)));
            }
        }
        i = i + 1;
    }
    proof {
        assert(chars@.skip(chars.len() as int) =~= Seq::<char>::empty());
        assert(out@ + Seq::<char>::empty() =~= out@);
    }
    string_from_chars(&out)
}

/// Severity threshold of the events a logger records.
#[derive(Debug, Clone, Copy, PartialEq, Eq, Structural)]
pub enum LogLevel {
    Trace,
    Debug,
    Info,
    Warn,
    Error,
}

/// Settings for starting the logger of a service.
pub struct LoggerOptions {
    pub application_name: String,
    pub log_level: LogLevel,
}

impl Default for LoggerOptions {
    /// No application name, recording events from the `Info` level up.
    fn default() -> (r: Self)
        ensures
            r.application_name@ == Seq::<char>::empty(),
            r.log_level == LogLevel::Info,
    {
        LoggerOptions { application_name: String::new(), log_level: LogLevel::Info }
    }
}

/// The director service: it answers requests to create a new director.
pub struct DysDirectorService;

impl Default for DysDirectorService {
    fn default() -> (r: Self)
        ensures
            r == DysDirectorService,
    {
        DysDirectorService
    }
}

} // verus!
