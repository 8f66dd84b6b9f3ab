use crate::text::str_eq;
use vstd::prelude::*;
use vstd::string::StringExecFns;

verus! {

/// What the process knows of its surroundings: the constants of the platform
/// it was built for, and the variables of its environment whose names and
/// values are Unicode.
pub struct Environment {
    pub arch: String,
    pub dll_extension: String,
    pub dll_prefix: String,
    pub dll_suffix: String,
    pub exe_extension: String,
    pub exe_suffix: String,
    pub family: String,
    pub os: String,
    pub vars: Vec<(String, String)>,
}

/// The value of the first variable of that name.
pub open spec fn lookup(vars: Seq<(String, String)>, key: Seq<char>) -> Option<Seq<char>>
    decreases vars.len(),
{
    if vars.len() == 0 {
        None
    } else if vars[0].0@ == key {
        Some(vars[0].1@)
    } else {
        lookup(vars.drop_first(), key)
    }
}

/// The name of the user: the value of the first of the variables `USERNAME`,
/// `username`, `USER` and `user` that is set, and `noname` where none is.
pub open spec fn user_name(vars: Seq<(String, String)>) -> Seq<char> {
    if lookup(vars, "USERNAME"@) is Some {
        lookup(vars, "USERNAME"@)->0
    } else if lookup(vars, "username"@) is Some {
        lookup(vars, "username"@)->0
    } else if lookup(vars, "USER"@) is Some {
        lookup(vars, "USER"@)->0
    } else if lookup(vars, "user"@) is Some {
        lookup(vars, "user"@)->0
    } else {
        "noname"@
    }
}

/// What the helper `env_var` gives for a key: for the name of a platform
/// constant that constant, for `USERNAME` the user's name, and for any other
/// key the variable of that name, or the empty text where it is not set.
pub open spec fn env_value(key: Seq<char>, env: Environment) -> Seq<char> {
    if key == "ARCH"@ {
        env.arch@
    } else if key == "DLL_EXTENSION"@ {
        env.dll_extension@
    } else if key == "DLL_PREFIX"@ {
        env.dll_prefix@
    } else if key == "DLL_SUFFIX"@ {
        env.dll_suffix@
    } else if key == "EXE_EXTENSION"@ {
        env.exe_extension@
    } else if key == "EXE_SUFFIX"@ {
        env.exe_suffix@
    } else if key == "FAMILY"@ {
        env.family@
    } else if key == "OS"@ {
        env.os@
    } else if key == "USERNAME"@ {
        user_name(env.vars@)
    } else {
        match lookup(env.vars@, key) {
            Some(v) => v,
            None => Seq::empty(),
        }
    }
}

/// The value of the first variable named `key`.
pub fn find_var<'a>(vars: &'a Vec<(String, String)>, key: &str) -> (r: Option<&'a str>)
    ensures
        match r {
            Some(v) => lookup(vars@, key@) == Some(v@),
            None => lookup(vars@, key@) is None,
        },
{
    let mut i: usize = 0;
    assert(vars@.skip(0) =~= vars@);
    while i < vars.len()
        invariant
            i <= vars.len(),
            lookup(vars@, key@) == lookup(vars@.skip(i as int), key@),
        decreases vars.len() - i,
    {
        let ghost rest = vars@.skip(i as int);
        assert(rest[0] == vars@[i as int]);
        assert(rest.drop_first() =~= vars@.skip(i + 1));
        if str_eq(vars[i].0.as_str(), key) {
            return Some(vars[i].1.as_str());
        }
        i += 1;
    }
    None
}

/// What the helper `env_var` gives for `key` in the environment `env`.
pub fn env_var_fct(key: &str, env: &Environment) -> (r: String)
    ensures
        r@ == env_value(key@, *env),
{
    if str_eq(key, "ARCH") {
        env.arch.clone()
    } else if str_eq(key, "DLL_EXTENSION") {
        env.dll_extension.clone()
    } else if str_eq(key, "DLL_PREFIX") {
        env.dll_prefix.clone()
    } else if str_eq(key, "DLL_SUFFIX") {
        env.dll_suffix.clone()
    } else if str_eq(key, "EXE_EXTENSION") {
        env.exe_extension.clone()
    } else if str_eq(key, "EXE_SUFFIX") {
        env.exe_suffix.clone()
    } else if str_eq(key, "FAMILY") {
        env.family.clone()
    } else if str_eq(key, "OS") {
        env.os.clone()
    } else if str_eq(key, "USERNAME") {
        let found = match find_var(&env.vars, "USERNAME") {
            Some(v) => Some(v),
            None => match find_var(&env.vars, "username") {
                Some(v) => Some(v),
                None => match find_var(&env.vars, "USER") {
                    Some(v) => Some(v),
                    None => find_var(&env.vars, "user"),
                },
            },
        };
        match found {
            Some(v) => String::from_str(v),
            None => String::from_str("noname"),
        }
    } else {
        match find_var(&env.vars, key) {
            Some(v) => String::from_str(v),
            None => String::new(),
        }
    }
}

} // verus!
