//! The methods and functions whose calls are left alone.
//!
//! Assertions (`assert.equal(..)`, `expect(..)`, `.should`, `.to`) are what a
//! test checks, and `.toNumber()` and `.toString()` only convert a value:
//! removing any of them tells nothing about the test.
use crate::ast::{Expr, Stmt};
use crate::calls::{
    chain_base, function_call, is_function_call, is_method_call, method_call, names, trim_expr,
    trimmed, FunctionCall, FunctionCallView,
};
use vstd::prelude::*;
use vstd::string::StringExecFns;

verus! {

/// Why a configuration is refused.
#[derive(Debug)]
pub enum ConfigError {
    /// The entry at this index of the ignored functions is no dotted path:
    /// it is empty, or starts or ends with a dot, or holds two dots in a row.
    InvalidPath(usize),
}

/// The functions that the user wants ignored, as dotted paths.
#[derive(Debug)]
pub struct Config {
    pub ignored_functions: Vec<String>,
}

/// `s` is a dotted path: names, none of them empty, with single dots
/// between them.
pub open spec fn dotted_path(s: Seq<char>) -> bool {
    &&& s.len() > 0
    &&& s[0] != '.'
    &&& s[s.len() - 1] != '.'
    &&& forall|i: int| 0 <= i < s.len() - 1 ==> !(#[trigger] s[i] == '.' && s[i + 1] == '.')
}

/// The names of `path` with a dot between each two: `a.b.c`.
pub open spec fn dotted(path: Seq<Seq<char>>) -> Seq<char>
    decreases path.len(),
{
    if path.len() == 0 {
        Seq::empty()
    } else if path.len() == 1 {
        path[0]
    } else {
        dotted(path.drop_last()) + seq!['.'] + path.last()
    }
}

/// A method chain `path`, called with `args` arguments, is ignored: it
/// starts with `should` or `to`, or it is `toNumber` or `toString` alone and
/// without arguments.
pub open spec fn ignored_method(path: Seq<Seq<char>>, args: nat) -> bool {
    path.len() > 0 && (path[0] == "should"@ || path[0] == "to"@ || ((path[0] == "toNumber"@
        || path[0] == "toString"@) && path.len() == 1 && args == 0))
}

/// A function `path` is ignored: it starts with `assert`, or it is `expect`,
/// or the configuration lists it.
pub open spec fn ignored_function(config: Config, path: Seq<Seq<char>>) -> bool {
    (path.len() > 0 && (path[0] == "assert"@ || (path[0] == "expect"@ && path.len() == 1)))
        || config.lists(dotted(path))
}

/// The ignored function call that `e` starts with: `e` itself where it is a
/// function call, else what the receiver starts with where `e` is a method
/// call.
pub open spec fn ignored_call(config: Config, e: Expr) -> Option<FunctionCallView>
    decreases e,
{
    match function_call(e) {
        Some(fc) => if ignored_function(config, fc.path) {
            Some(fc)
        } else {
            None
        },
        None => match method_call(e) {
            Some(mc) => {
                proof {
                    lemma_chain_base_decreases(e.spec_callee().unwrap());
                }
                ignored_call(config, mc.obj)
            },
            None => None,
        },
    }
}

/// The ignored function call that the statement `stmt` starts with, if it is
/// an expression statement that starts with one.
pub open spec fn ignored_function_call(config: Config, stmt: Stmt) -> Option<FunctionCallView> {
    match stmt.spec_expression() {
        Some(e) => ignored_call(config, trimmed(e)),
        None => None,
    }
}

/// The inner end of a chain is the chain's start or lies below it.
pub proof fn lemma_chain_base_decreases(e: Expr)
    ensures
        chain_base(e) == e || decreases_to!(e => chain_base(e)),
    decreases e,
{
    if e.spec_property() is Some && e.spec_object() is Some {
        let obj = e.spec_object().unwrap();
        assert(decreases_to!(e => e.children));
        assert(decreases_to!(e.children => e.children@));
        assert(decreases_to!(e.children@ => e.children@[0]));
        assert(decreases_to!(e.children@[0] => obj));
        lemma_chain_base_decreases(obj);
    }
}

/// Whether `s` and `literal` hold the same characters.
pub fn is_str(s: &String, literal: &str) -> (r: bool)
    ensures
        r == (s@ == literal@),
{
    let other = String::from_str(literal);
    *s == other
}

impl Config {
    /// The configuration lists `name`.
    pub open spec fn lists(self, name: Seq<char>) -> bool {
        exists|i: int| 0 <= i < self.ignored_functions@.len() && (
        #[trigger] self.ignored_functions@[i])@ == name
    }

    /// Every entry is a dotted path.
    pub open spec fn wf(self) -> bool {
        forall|i: int|
            0 <= i < self.ignored_functions@.len() ==> dotted_path(
                (#[trigger] self.ignored_functions@[i])@,
            )
    }

    /// A configuration that ignores the functions `ignored_functions`.
    /// Refuses the first entry that is no dotted path.
    pub fn new(ignored_functions: Vec<String>) -> (r: Result<Config, ConfigError>)
        ensures
            match r {
                Ok(config) => config.ignored_functions == ignored_functions && config.wf(),
                Err(ConfigError::InvalidPath(at)) => {
                    &&& at < ignored_functions@.len()
                    &&& !dotted_path(ignored_functions@[at as int]@)
                    &&& forall|i: int| 0 <= i < at ==> dotted_path(#[trigger] ignored_functions@[i]@)
                },
            },
    {
        let mut i: usize = 0;
        while i < ignored_functions.len()
            invariant
                i <= ignored_functions.len(),
                forall|k: int| 0 <= k < i ==> dotted_path(#[trigger] ignored_functions@[k]@),
            decreases ignored_functions.len() - i,
        {
            if !is_dotted_path(ignored_functions[i].as_str()) {
                return Err(ConfigError::InvalidPath(i));
            }
            i = i + 1;
        }
        Ok(Config { ignored_functions })
    }

    /// Whether the configuration lists `name`.
    pub fn contains(&self, name: &String) -> (r: bool)
        ensures
            r == self.lists(name@),
    {
        let mut i: usize = 0;
        while i < self.ignored_functions.len()
            invariant
                i <= self.ignored_functions.len(),
                forall|k: int| 0 <= k < i ==> (#[trigger] self.ignored_functions@[k])@ != name@,
            decreases self.ignored_functions.len() - i,
        {
            if self.ignored_functions[i] == *name {
                return true;
            }
            i = i + 1;
        }
        false
    }
}

/// Whether `s` is a dotted path.
pub fn is_dotted_path(s: &str) -> (r: bool)
    ensures
        r == dotted_path(s@),
{
    let n = s.unicode_len();
    if n == 0 {
        return false;
    }
    if s.get_char(0) == '.' || s.get_char(n - 1) == '.' {
        return false;
    }
    let mut i: usize = 0;
    while i < n - 1
        invariant
            n == s@.len(),
            n > 0,
            i <= n - 1,
            forall|k: int| 0 <= k < i ==> !(#[trigger] s@[k] == '.' && s@[k + 1] == '.'),
        decreases n - i,
    {
        if s.get_char(i) == '.' && s.get_char(i + 1) == '.' {
            return false;
        }
        i = i + 1;
    }
    true
}

/// The names of `path` with a dot between each two.
pub fn join_dotted(path: &Vec<&String>) -> (joined: String)
    ensures
        joined@ == dotted(names(path@)),
{
    let mut joined = String::new();
    let mut i: usize = 0;
    while i < path.len()
        invariant
            i <= path.len(),
            joined@ == dotted(names(path@).take(i as int)),
        decreases path.len() - i,
    {
        proof {
            reveal_strlit(".");
            let all = names(path@);
            let next = all.take(i + 1);
            assert(next.drop_last() =~= all.take(i as int));
            assert(next.last() == path@[i as int]@);
            assert("."@ =~= seq!['.']);
            if i == 0 {
                assert(Seq::<char>::empty() + path@[0]@ =~= path@[0]@);
            }
        }
        if i > 0 {
            joined.append(".");
        }
        joined.append(path[i].as_str());
        i = i + 1;
    }
    assert(names(path@).take(path.len() as int) =~= names(path@));
    joined
}

/// Whether the method chain `path`, called with `args` arguments, is
/// ignored.
pub fn is_ignored_method(path: &Vec<&String>, args: usize) -> (r: bool)
    ensures
        r == ignored_method(names(path@), args as nat),
{
    if path.len() == 0 {
        return false;
    }
    let first = path[0];
    is_str(first, "should") || is_str(first, "to") || ((is_str(first, "toNumber") || is_str(
        first,
        "toString",
    )) && path.len() == 1 && args == 0)
}

/// Whether the function `path` is ignored.
pub fn is_ignored_function(config: &Config, path: &Vec<&String>) -> (r: bool)
    ensures
        r == ignored_function(*config, names(path@)),
{
    if path.len() > 0 {
        let first = path[0];
        if is_str(first, "assert") || (is_str(first, "expect") && path.len() == 1) {
            return true;
        }
    }
    let joined = join_dotted(path);
    config.contains(&joined)
}

/// Takes the statement `stmt` apart as a call of an ignored function, if it
/// starts with one.
pub fn is_ignored_function_call<'a>(config: &Config, stmt: &'a Stmt) -> (r: Option<
    FunctionCall<'a>,
>)
    ensures
        r matches Some(fc) ==> ignored_function_call(*config, *stmt) == Some(fc@),
        r is None ==> ignored_function_call(*config, *stmt) is None,
{
    match stmt.expression() {
        Some(expr) => {
            let mut cur: &Expr = trim_expr(expr);
            loop
                invariant
                    ignored_function_call(*config, *stmt) == ignored_call(*config, *cur),
                decreases *cur,
            {
                match is_function_call(cur) {
                    Some(fc) => {
                        return if is_ignored_function(config, &fc.path) {
                            Some(fc)
                        } else {
                            None
                        };
                    },
                    None => match is_method_call(cur) {
                        Some(mc) => {
                            proof {
                                lemma_chain_base_decreases(cur.spec_callee().unwrap());
                            }
                            cur = mc.obj;
                        },
                        None => {
                            return None;
                        },
                    },
                }
            }
        },
        None => None,
    }
}

} // verus!
