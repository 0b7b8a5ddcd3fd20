use vstd::prelude::*;
use std::path::PathBuf;
use crate::items::Item;
use crate::strmap::StrMap;
use crate::text::{to_chars, from_chars, push_all};

verus! {

/// `PathBuf::new`: an empty path. A path is opaque here, so nothing is
/// claimed of it.
#[verifier::external_body]
fn empty_path() -> PathBuf {
    PathBuf::new()
}

/// What the workspace file holds: the request tree.
pub struct WorkspaceFile {
    pub items: Vec<Item>,
}

impl WorkspaceFile {
    /// A workspace with no items.
    fn empty() -> (w: Self)
        ensures
            w.items@.len() == 0,
    {
        WorkspaceFile { items: Vec::new() }
    }
}

/// A workspace and the file it is kept in.
pub struct WorkspaceConfig {
    pub data: WorkspaceFile,
    pub path: PathBuf,
}

impl WorkspaceConfig {
    /// An empty workspace with an empty path.
    pub fn new_empty() -> (c: Self)
        ensures
            c.data.items@.len() == 0,
    {
        WorkspaceConfig { data: WorkspaceFile::empty(), path: empty_path() }
    }
}

/// `p` with its leading slashes removed: an absolute path made relative.
pub open spec fn strip_root(p: Seq<char>) -> Seq<char>
    decreases p.len(),
{
    if p.len() > 0 && p[0] == '/' {
        strip_root(p.drop_first())
    } else {
        p
    }
}

/// Path `b` joined onto path `a`, as `PathBuf::push` joins them: an
/// absolute `b` replaces `a`; otherwise a slash goes between them unless
/// `a` is empty or already ends in one.
pub open spec fn path_join(a: Seq<char>, b: Seq<char>) -> Seq<char> {
    if b.len() > 0 && b[0] == '/' {
        b
    } else if a.len() == 0 || a.last() == '/' {
        a + b
    } else {
        a + seq!['/'] + b
    }
}

/// Where the environment file is kept: `{home}/lazypost/env/{cwd}/env.json`,
/// with the working directory `cwd` made relative; `./env.json` when the
/// home directory or the working directory is not known.
pub open spec fn env_path_spec(home: Option<Seq<char>>, cwd: Option<Seq<char>>) -> Seq<char> {
    match (home, cwd) {
        (Some(h), Some(c)) => path_join(path_join(path_join(path_join(h, "lazypost"@), "env"@), strip_root(c)), "env.json"@),
        _ => "./env.json"@,
    }
}

proof fn lemma_strip_root_head(p: Seq<char>)
    ensures
        strip_root(p).len() == 0 || strip_root(p)[0] != '/',
    decreases p.len(),
{
    if p.len() > 0 && p[0] == '/' {
        lemma_strip_root_head(p.drop_first());
    }
}

/// With a home directory that does not end in a slash and a working
/// directory that is more than slashes and does not end in one, the
/// environment file is `{home}/lazypost/env/{cwd without its leading
/// slashes}/env.json`.
pub proof fn law_env_path_plain(home: Seq<char>, cwd: Seq<char>)
    requires
        home.len() > 0,
        home.last() != '/',
        strip_root(cwd).len() > 0,
        strip_root(cwd).last() != '/',
    ensures
        env_path_spec(Some(home), Some(cwd)) == home + "/lazypost/env/"@ + strip_root(cwd) + "/env.json"@,
{
    lemma_strip_root_head(cwd);
    reveal_strlit("lazypost");
    reveal_strlit("env");
    reveal_strlit("env.json");
    reveal_strlit("/lazypost/env/");
    reveal_strlit("/env.json");
    let rel = strip_root(cwd);
    let p1 = home + seq!['/'] + "lazypost"@;
    assert(path_join(home, "lazypost"@) == p1);
    assert(p1.last() == 't');
    let p2 = p1 + seq!['/'] + "env"@;
    assert(path_join(p1, "env"@) == p2);
    assert(p2.last() == 'v');
    let p3 = p2 + seq!['/'] + rel;
    assert(path_join(p2, rel) == p3);
    assert(p3.last() == rel.last());
    let p4 = p3 + seq!['/'] + "env.json"@;
    assert("env.json"@[0] == 'e');
    assert(path_join(p3, "env.json"@) == p4);
    assert(p4 =~= home + "/lazypost/env/"@ + rel + "/env.json"@);
}

fn strip_root_exec(p: &Vec<char>) -> (r: Vec<char>)
    ensures
        r@ == strip_root(p@),
{
    let mut i: usize = 0;
    assert(p@.skip(0) =~= p@);
    while i < p.len() && p[i] == '/'
        invariant
            i <= p@.len(),
            strip_root(p@) == strip_root(p@.skip(i as int)),
        decreases p@.len() - i,
    {
        assert(p@.skip(i as int).drop_first() =~= p@.skip(i + 1));
        i = i + 1;
    }
    let mut r: Vec<char> = Vec::new();
    let mut j: usize = i;
    while j < p.len()
        invariant
            i <= j <= p@.len(),
            r@ == p@.subrange(i as int, j as int),
        decreases p@.len() - j,
    {
        r.push(p[j]);
        j = j + 1;
        assert(r@ =~= p@.subrange(i as int, j as int));
    }
    assert(r@ =~= p@.skip(i as int));
    if i < p.len() {
        assert(p@.skip(i as int)[0] == p@[i as int]);
    }
    r
}

fn path_join_exec(a: Vec<char>, b: &Vec<char>) -> (r: Vec<char>)
    ensures
        r@ == path_join(a@, b@),
{
    if b.len() > 0 && b[0] == '/' {
        let mut r: Vec<char> = Vec::new();
        push_all(&mut r, b);
        assert(r@ =~= b@);
        return r;
    }
    let mut r = a;
    if r.len() > 0 && r[r.len() - 1] != '/' {
        r.push('/');
    }
    push_all(&mut r, b);
    r
}

/// Where the environment file is kept, given the home directory and the
/// working directory when they are known (see `env_path_spec`).
pub fn env_path_for_cwd(home: Option<String>, cwd: Option<String>) -> (p: String)
    ensures
        p@ == env_path_spec(
            match home {
                Some(h) => Some(h@),
                None => None,
            },
            match cwd {
                Some(c) => Some(c@),
                None => None,
            },
        ),
        home is None || cwd is None ==> p@ == "./env.json"@,
{
    match (&home, &cwd) {
        (Some(h), Some(c)) => {
            let p1 = path_join_exec(to_chars(h.as_str()), &to_chars("lazypost"));
            let p2 = path_join_exec(p1, &to_chars("env"));
            let rel = strip_root_exec(&to_chars(c.as_str()));
            let p3 = path_join_exec(p2, &rel);
            let p4 = path_join_exec(p3, &to_chars("env.json"));
            from_chars(&p4)
        },
        _ => from_chars(&to_chars("./env.json")),
    }
}

/// What the environment file holds: the variables by name.
pub struct EnvFile {
    pub variables: StrMap,
}

impl Default for EnvFile {
    /// No variables.
    fn default() -> (e: Self)
        ensures
            e.variables@ == Map::<Seq<char>, Seq<char>>::empty(),
    {
        EnvFile { variables: StrMap::new() }
    }
}

/// The environment and the file it is kept in.
pub struct EnvConfig {
    pub data: EnvFile,
    pub path: PathBuf,
}

/// One variable of a named environment: its value, whether it is secret,
/// and whether it is in use.
#[derive(Clone, Debug)]
pub struct EnvVar {
    pub value: String,
    pub secret: bool,
    pub enabled: bool,
}

/// A named set of variables, each listed with its name.
pub struct Environment {
    pub name: String,
    pub variables: Vec<(String, EnvVar)>,
}

} // verus!
