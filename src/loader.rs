//! The wrapper module that adapts a tenant's exported handler into a loopback
//! HTTP server, the environment it hands to tenant code, and the loader policy that restricts module
//! resolution to the wrapper and its one import.
use vstd::prelude::*;
use crate::text::{decimal, json_escape, push_decimal, push_json_escaped, str_eq, lemma_decimal_round_trip, decimal_value};

verus! {

pub open spec fn is_ascii_alpha(c: char) -> bool {
    ('a' <= c && c <= 'z') || ('A' <= c && c <= 'Z')
}

/// A character that may follow the first one of a URL scheme.
pub open spec fn is_scheme_char(c: char) -> bool {
    is_ascii_alpha(c) || ('0' <= c && c <= '9') || c == '+' || c == '-' || c == '.'
}

/// The text begins with a URL scheme (a letter, then letters, digits, `+`,
/// `-` or `.`) followed by `:`.
pub open spec fn is_url_text(s: Seq<char>) -> bool {
    exists|i: int| #[trigger] scheme_ends_at(s, i)
}

/// `s` holds a URL scheme before position `i`, where a `:` stands.
pub open spec fn scheme_ends_at(s: Seq<char>, i: int) -> bool {
    &&& 1 <= i < s.len()
    &&& s[i] == ':'
    &&& is_ascii_alpha(s[0])
    &&& forall|j: int| 1 <= j < i ==> is_scheme_char(#[trigger] s[j])
}

/// An absolute module URL, as its serialized text.
#[derive(Debug)]
pub struct ModuleSpecifier {
    url: String,
}

impl View for ModuleSpecifier {
    type V = Seq<char>;

    closed spec fn view(&self) -> Seq<char> {
        self.url@
    }
}

impl ModuleSpecifier {
    #[verifier::type_invariant]
    closed spec fn inv(self) -> bool {
        is_url_text(self.url@)
    }
}

impl Clone for ModuleSpecifier {
    fn clone(&self) -> (r: ModuleSpecifier)
        ensures
            r@ == self@,
    {
        proof {
            use_type_invariant(self);
        }
        ModuleSpecifier { url: self.url.clone() }
    }
}

/// Whether a URL's scheme is `file`.
pub open spec fn is_file_url(url: Seq<char>) -> bool {
    url.len() >= 5 && url.take(5) == "file:"@
}

/// Whether `s` begins with a URL scheme followed by `:`.
pub fn has_url_scheme(s: &str) -> (r: bool)
    ensures
        r == is_url_text(s@),
{
    let n = s.unicode_len();
    if n == 0 {
        return false;
    }
    let c0 = s.get_char(0);
    if !(('a' <= c0 && c0 <= 'z') || ('A' <= c0 && c0 <= 'Z')) {
        return false;
    }
    let mut i: usize = 1;
    while i < n
        invariant
            n == s@.len(),
            1 <= i <= n,
            is_ascii_alpha(s@[0]),
            forall|j: int| 1 <= j < i ==> is_scheme_char(#[trigger] s@[j]),
        decreases n - i,
    {
        let c = s.get_char(i);
        if c == ':' {
            assert(scheme_ends_at(s@, i as int));
            return true;
        }
        if !(('a' <= c && c <= 'z') || ('A' <= c && c <= 'Z') || ('0' <= c && c <= '9') || c == '+'
            || c == '-' || c == '.') {
            proof {
                assert forall|k: int| !#[trigger] scheme_ends_at(s@, k) by {
                    if 1 <= k < s@.len() && s@[k] == ':' && k > i {
                        assert(!is_scheme_char(s@[i as int]));
                    }
                }
            }
            return false;
        }
        i = i + 1;
    }
    proof {
        assert forall|k: int| !#[trigger] scheme_ends_at(s@, k) by {
            if 1 <= k < s@.len() && s@[k] == ':' {
                assert(is_scheme_char(s@[k]));
            }
        }
    }
    false
}

impl ModuleSpecifier {
    /// Wraps the serialized text of an absolute URL.
    pub fn new(url: String) -> (r: ModuleSpecifier)
        requires
            is_url_text(url@),
        ensures
            r@ == url@,
    {
        ModuleSpecifier { url }
    }

    /// Wraps `url` when it begins with a URL scheme.
    pub fn parse(url: String) -> (r: Option<ModuleSpecifier>)
        ensures
            r is Some <==> is_url_text(url@),
            r matches Some(m) ==> m@ == url@,
    {
        if has_url_scheme(url.as_str()) {
            Some(ModuleSpecifier { url })
        } else {
            None
        }
    }

    /// The URL text, which begins with a URL scheme.
    pub fn as_str(&self) -> (r: &str)
        ensures
            r@ == self@,
            is_url_text(r@),
    {
        proof {
            use_type_invariant(self);
        }
        self.url.as_str()
    }

    /// Whether the URL's scheme is `file`.
    pub fn is_file(&self) -> (r: bool)
        ensures
            r == is_file_url(self@),
    {
        let s = self.url.as_str();
        if s.unicode_len() < 5 {
            return false;
        }
        str_eq(s.substring_char(0, 5), "file:")
    }
}

/// The fixed URL under which the wrapper module is loaded.
pub open spec fn wrapper_url() -> Seq<char> {
    "file:///wrapper.js"@
}

pub fn wrapper_module_specifier() -> (r: ModuleSpecifier)
    ensures
        r@ == wrapper_url(),
{
    let url = "file:///wrapper.js".to_owned();
    proof {
        reveal_strlit("file:///wrapper.js");
        assert(scheme_ends_at(url@, 4));
    }
    ModuleSpecifier::new(url)
}

/// The module started for one tenant in front of its own: its source and its URL.
#[derive(Debug)]
pub struct UserModuleWrapper {
    pub code: String,
    pub spec: ModuleSpecifier,
}

/// Key/value pairs as text.
pub open spec fn pairs_view(pairs: Seq<(String, String)>) -> Seq<(Seq<char>, Seq<char>)> {
    pairs.map_values(|p: (String, String)| (p.0@, p.1@))
}

/// One `"key": "value"` member of an object literal.
pub open spec fn js_member(p: (Seq<char>, Seq<char>)) -> Seq<char> {
    "\""@ + json_escape(p.0) + "\": \""@ + json_escape(p.1) + "\""@
}

/// The members of an object literal, one per line.
pub open spec fn js_keyvalues(pairs: Seq<(Seq<char>, Seq<char>)>) -> Seq<char>
    decreases pairs.len(),
{
    if pairs.len() == 0 {
        Seq::empty()
    } else if pairs.len() == 1 {
        js_member(pairs[0])
    } else {
        js_keyvalues(pairs.drop_last()) + ",\n"@ + js_member(pairs.last())
    }
}

/// The value an object literal with these members gives to `key` (the last
/// member with that key wins).
pub open spec fn env_lookup(pairs: Seq<(Seq<char>, Seq<char>)>, key: Seq<char>) -> Option<Seq<char>>
    decreases pairs.len(),
{
    if pairs.len() == 0 {
        None
    } else if pairs.last().0 == key {
        Some(pairs.last().1)
    } else {
        env_lookup(pairs.drop_last(), key)
    }
}

fn push_member(out: &mut String, p: &(String, String))
    ensures
        final(out)@ == old(out)@ + js_member((p.0@, p.1@)),
{
    out.append("\"");
    push_json_escaped(out, p.0.as_str());
    out.append("\": \"");
    push_json_escaped(out, p.1.as_str());
    out.append("\"");
    assert(final(out)@ =~= old(out)@ + js_member((p.0@, p.1@)));
}

fn push_keyvalues(out: &mut String, key_pairs: &Vec<(String, String)>)
    ensures
        final(out)@ == old(out)@ + js_keyvalues(pairs_view(key_pairs@)),
{
    let ghost start = out@;
    let mut i: usize = 0;
    while i < key_pairs.len()
        invariant
            i <= key_pairs@.len(),
            out@ == start + js_keyvalues(pairs_view(key_pairs@.subrange(0, i as int))),
        decreases key_pairs@.len() - i,
    {
        let ghost before = out@;
        if i > 0 {
            out.append(",\n");
        }
        push_member(out, &key_pairs[i]);
        proof {
            let prev = pairs_view(key_pairs@.subrange(0, i as int));
            let next = pairs_view(key_pairs@.subrange(0, i + 1));
            assert(next.drop_last() =~= prev);
            assert(next.last() == (key_pairs@[i as int].0@, key_pairs@[i as int].1@));
            if i == 0 {
                assert(js_keyvalues(prev) =~= Seq::<char>::empty());
                assert(out@ =~= start + js_keyvalues(next));
            } else {
                assert(out@ =~= start + js_keyvalues(next));
            }
        }
        i = i + 1;
    }
    assert(key_pairs@.subrange(0, i as int) =~= key_pairs@);
}

/// The members of an object literal, one `"key": "value"` per line, keys
/// and values JSON-escaped.
pub fn to_js_keyvalues(key_pairs: &Vec<(String, String)>) -> (r: String)
    ensures
        r@ == js_keyvalues(pairs_view(key_pairs@)),
{
    let mut out = String::new();
    push_keyvalues(&mut out, key_pairs);
    assert(out@ =~= js_keyvalues(pairs_view(key_pairs@)));
    out
}

pub open spec fn wrapper_head() -> Seq<char> {
    "import worker from \""@
}

pub open spec fn wrapper_env_open() -> Seq<char> {
    "\";\nconst env = Object.freeze({\n    "@
}

pub open spec fn wrapper_env_close() -> Seq<char> {
    "\n});\nconst readOnly = () => {\n    throw new TypeError(\"the environment is read-only\");\n};\nObject.defineProperty(Deno, \"env\", {\n    value: Object.freeze({\n        get: (key) => env[key],\n        has: (key) => Object.hasOwn(env, key),\n        toObject: () => ({ ...env }),\n        set: readOnly,\n        delete: readOnly,\n    }),\n});\nDeno.serve((req) => worker.fetch(req, env), {\n    hostname: \"0.0.0.0\",\n    port: "@
}

pub open spec fn wrapper_tail() -> Seq<char> {
    ",\n});\n"@
}

/// Source of the wrapper module: it imports the tenant module's default
/// export, freezes the environment, installs it as the read-only `Deno.env`,
/// and serves HTTP on `0.0.0.0:port`, handing each request and the
/// environment to the export's `fetch`.
pub open spec fn wrapper_source(locator: Seq<char>, env: Seq<(Seq<char>, Seq<char>)>, port: u16) -> Seq<char> {
    wrapper_head() + json_escape(locator) + wrapper_env_open() + js_keyvalues(env) + wrapper_env_close()
        + decimal(port as nat) + wrapper_tail()
}

/// Builds the wrapper module for `user_module`, serving on `port` with
/// `env_vars` as its environment.
pub fn new_wrapper(user_module: &ModuleSpecifier, env_vars: &Vec<(String, String)>, port: u16) -> (r: UserModuleWrapper)
    ensures
        r.code@ == wrapper_source(user_module@, pairs_view(env_vars@), port),
        r.spec@ == wrapper_url(),
{
    let mut code = String::new();
    code.append("import worker from \"");
    push_json_escaped(&mut code, user_module.as_str());
    code.append("\";\nconst env = Object.freeze({\n    ");
    push_keyvalues(&mut code, env_vars);
    code.append("\n});\nconst readOnly = () => {\n    throw new TypeError(\"the environment is read-only\");\n};\nObject.defineProperty(Deno, \"env\", {\n    value: Object.freeze({\n        get: (key) => env[key],\n        has: (key) => Object.hasOwn(env, key),\n        toObject: () => ({ ...env }),\n        set: readOnly,\n        delete: readOnly,\n    }),\n});\nDeno.serve((req) => worker.fetch(req, env), {\n    hostname: \"0.0.0.0\",\n    port: ");
    push_decimal(&mut code, port);
    code.append(",\n});\n");
    assert(code@ =~= wrapper_source(user_module@, pairs_view(env_vars@), port));
    UserModuleWrapper { code, spec: wrapper_module_specifier() }
}

/// The environment a tenant sees: its region (`"UNKNOWN"` when the host has
/// none) and its port in decimal.
pub open spec fn synthetic_env_spec(region: Option<Seq<char>>, port: u16) -> Seq<(Seq<char>, Seq<char>)> {
    let r = match region {
        Some(v) => v,
        None => "UNKNOWN"@,
    };
    seq![("REGION"@, r), ("PORT"@, decimal(port as nat))]
}

/// The environment handed to a tenant: `REGION` from the host's region
/// (`"UNKNOWN"` when unset) and `PORT`, the assigned port in decimal.
pub fn synthetic_env(region: Option<String>, port: u16) -> (r: Vec<(String, String)>)
    ensures
        pairs_view(r@) == synthetic_env_spec(
            match region {
                Some(v) => Some(v@),
                None => None,
            },
            port,
        ),
{
    let value = match region {
        Some(v) => v,
        None => "UNKNOWN".to_owned(),
    };
    let mut port_text = String::new();
    push_decimal(&mut port_text, port);
    let r = vec![("REGION".to_owned(), value), ("PORT".to_owned(), port_text)];
    assert(pairs_view(r@) =~= synthetic_env_spec(
        match region {
            Some(v) => Some(v@),
            None => None,
        },
        port,
    ));
    r
}

/// The wrapper of one tenant's isolate: it imports `user_module`, serves on
/// `port`, and hands the tenant the environment of `region` and `port`.
pub fn wrapper_for(user_module: &ModuleSpecifier, region: Option<String>, port: u16) -> (r: UserModuleWrapper)
    ensures
        r.code@ == wrapper_source(
            user_module@,
            synthetic_env_spec(
                match region {
                    Some(v) => Some(v@),
                    None => None,
                },
                port,
            ),
            port,
        ),
        r.spec@ == wrapper_url(),
{
    let env_vars = synthetic_env(region, port);
    new_wrapper(user_module, &env_vars, port)
}

/// The environment gives back the injected region under `REGION`, and under
/// `PORT` a run of decimal digits whose value is the assigned port.
pub proof fn lemma_env_round_trip(region: Option<Seq<char>>, port: u16)
    ensures
        env_lookup(synthetic_env_spec(region, port), "REGION"@) == Some(
            match region {
                Some(v) => v,
                None => "UNKNOWN"@,
            },
        ),
        env_lookup(synthetic_env_spec(region, port), "PORT"@) == Some(decimal(port as nat)),
        decimal_value(decimal(port as nat)) == port,
{
    reveal_strlit("REGION");
    reveal_strlit("PORT");
    let e = synthetic_env_spec(region, port);
    assert("REGION"@ != "PORT"@) by {
        assert("REGION"@.len() != "PORT"@.len());
    }
    assert(e.drop_last() =~= seq![e[0]]);
    assert(e.drop_last().drop_last() =~= Seq::<(Seq<char>, Seq<char>)>::empty());
    assert(seq![e[0]].drop_last() =~= Seq::<(Seq<char>, Seq<char>)>::empty());
    assert(e.drop_last().last() == e[0]);
    assert(env_lookup(e.drop_last(), "REGION"@) == Some(e[0].1));
    assert(env_lookup(e, "REGION"@) == env_lookup(e.drop_last(), "REGION"@));
    lemma_decimal_round_trip(port as nat);
}

/// Why a module could not be resolved or loaded.
#[derive(Clone, Copy, Debug, PartialEq, Eq, Structural)]
pub enum ModuleLoadForbidden {
    /// Neither the wrapper as main module nor a direct import of it.
    NotWrapperImport,
    /// A dynamic `import()`.
    DynamicImport,
    /// A URL whose scheme is not `file`.
    NotFile,
}

pub open spec fn load_error_message(e: ModuleLoadForbidden) -> Seq<char> {
    match e {
        ModuleLoadForbidden::NotWrapperImport => "Module loading is not supported"@,
        ModuleLoadForbidden::DynamicImport => "Dynamic import() statements not supported"@,
        ModuleLoadForbidden::NotFile => "Main module must be a file path"@,
    }
}

impl ModuleLoadForbidden {
    pub fn message(&self) -> (r: &'static str)
        ensures
            r@ == load_error_message(*self),
    {
        match self {
            ModuleLoadForbidden::NotWrapperImport => "Module loading is not supported",
            ModuleLoadForbidden::DynamicImport => "Dynamic import() statements not supported",
            ModuleLoadForbidden::NotFile => "Main module must be a file path",
        }
    }
}

/// Whether the loader lets `specifier` be resolved: the wrapper as the main
/// module, or anything the wrapper imports.
pub open spec fn may_resolve(specifier: Seq<char>, referrer: Seq<char>, is_main: bool) -> bool {
    (is_main && specifier == wrapper_url()) || referrer == wrapper_url()
}

/// The module-loading policy of an isolate: only the wrapper module and its
/// direct import can be resolved, and only static imports of `file` URLs
/// can be loaded.
#[derive(Clone, Copy, Debug)]
pub struct OnlyLoadWrapperImports;

impl OnlyLoadWrapperImports {
    pub fn new() -> (r: OnlyLoadWrapperImports) {
        OnlyLoadWrapperImports
    }

    /// Decides whether a resolution request may go ahead.
    pub fn resolve(&self, specifier: &str, referrer: &str, is_main: bool) -> (r: Result<(), ModuleLoadForbidden>)
        ensures
            r is Ok <==> may_resolve(specifier@, referrer@, is_main),
            r is Err ==> r == Err::<(), ModuleLoadForbidden>(ModuleLoadForbidden::NotWrapperImport),
    {
        if (is_main && str_eq(specifier, "file:///wrapper.js")) || str_eq(referrer, "file:///wrapper.js") {
            Ok(())
        } else {
            Err(ModuleLoadForbidden::NotWrapperImport)
        }
    }

    /// Decides whether a load request may go ahead.
    pub fn load(&self, module_specifier: &ModuleSpecifier, is_dyn_import: bool) -> (r: Result<(), ModuleLoadForbidden>)
        ensures
            is_dyn_import ==> r == Err::<(), ModuleLoadForbidden>(ModuleLoadForbidden::DynamicImport),
            !is_dyn_import && !is_file_url(module_specifier@) ==> r == Err::<(), ModuleLoadForbidden>(ModuleLoadForbidden::NotFile),
            !is_dyn_import && is_file_url(module_specifier@) ==> r is Ok,
    {
        if is_dyn_import {
            Err(ModuleLoadForbidden::DynamicImport)
        } else if !module_specifier.is_file() {
            Err(ModuleLoadForbidden::NotFile)
        } else {
            Ok(())
        }
    }
}

/// Whatever is asked for outside the wrapper and its imports is refused, and
/// the wrapper itself resolves only as the main module.
pub proof fn lemma_resolve_only_wrapper_and_imports(specifier: Seq<char>, referrer: Seq<char>, is_main: bool)
    ensures
        referrer != wrapper_url() && !(is_main && specifier == wrapper_url()) ==> !may_resolve(specifier, referrer, is_main),
        referrer == wrapper_url() ==> may_resolve(specifier, referrer, is_main),
        may_resolve(wrapper_url(), referrer, true),
        referrer != wrapper_url() ==> !may_resolve(specifier, referrer, false),
{
}

} // verus!
