//! The logic behind the non-interactive commands: output modes, the `.env`
//! import format, flag parsing, and what `token get`, `token list` and
//! `export` produce from a store.
use vstd::prelude::*;

use crate::crypto::{sealed, KEY_LEN};
use crate::error::VaultError;
use crate::store::{expired, expiry_after, plain_text, sealed_text, Secret, SecretsStore};
use crate::text::{chars_of, has_prefix, slice_chars, starts_with, string_of, text_eq, trim, trim_chars};
use vstd::utf8::encode_utf8;

verus! {

/// How a command prints its result.
#[derive(Debug, Clone, Copy, PartialEq, Eq, Structural)]
pub enum OutputFormat {
    Human,
    Json,
    Env,
}

impl OutputFormat {
    /// `--json` wins over `--env`; with neither the output is for humans.
    pub fn from_args(json: bool, env: bool) -> (r: Self)
        ensures
            json ==> r == OutputFormat::Json,
            !json && env ==> r == OutputFormat::Env,
            !json && !env ==> r == OutputFormat::Human,
    {
        if json {
            OutputFormat::Json
        } else if env {
            OutputFormat::Env
        } else {
            OutputFormat::Human
        }
    }
}

/// The lines of `s`, split at each `\n`; the last line is what follows the
/// last `\n` (possibly nothing).
pub open spec fn lines_of(s: Seq<char>) -> Seq<Seq<char>>
    decreases s.len(),
{
    if s.len() == 0 {
        seq![Seq::empty()]
    } else if s.last() == '\n' {
        lines_of(s.drop_last()).push(Seq::empty())
    } else {
        let ls = lines_of(s.drop_last());
        ls.update(ls.len() - 1, ls.last().push(s.last()))
    }
}

/// What precedes and what follows the first `=` of `s`, if it has one.
pub open spec fn split_at_eq(s: Seq<char>) -> Option<(Seq<char>, Seq<char>)>
    decreases s.len(),
{
    if s.len() == 0 {
        None
    } else if s[0] == '=' {
        Some((Seq::empty(), s.drop_first()))
    } else {
        match split_at_eq(s.drop_first()) {
            Some((k, v)) => Some((seq![s[0]] + k, v)),
            None => None,
        }
    }
}

/// `v` without one layer of matching single or double quotes around it.
pub open spec fn unquote(v: Seq<char>) -> Seq<char> {
    if v.len() >= 2 && ((v[0] == '"' && v.last() == '"') || (v[0] == '\'' && v.last() == '\'')) {
        v.subrange(1, v.len() - 1)
    } else {
        v
    }
}

/// The assignment on one line of a `.env` file: blank lines, comments,
/// lines without `=` and lines with an empty name carry none.
pub open spec fn env_entry(line: Seq<char>) -> Option<(Seq<char>, Seq<char>)> {
    let l = trim(line);
    if l.len() == 0 || l[0] == '#' {
        None
    } else {
        match split_at_eq(l) {
            None => None,
            Some((k, v)) => if trim(k).len() == 0 {
                None
            } else {
                Some((trim(k), unquote(trim(v))))
            },
        }
    }
}

/// The assignments on a sequence of lines, in order.
pub open spec fn env_entries(ls: Seq<Seq<char>>) -> Seq<(Seq<char>, Seq<char>)>
    decreases ls.len(),
{
    if ls.len() == 0 {
        Seq::empty()
    } else {
        match env_entry(ls.last()) {
            Some(e) => env_entries(ls.drop_last()).push(e),
            None => env_entries(ls.drop_last()),
        }
    }
}

/// The views of (name, value) pairs.
pub open spec fn pair_texts(v: Seq<(String, String)>) -> Seq<(Seq<char>, Seq<char>)> {
    v.map_values(|p: (String, String)| (p.0@, p.1@))
}

proof fn lemma_split_at(s: Seq<char>, p: int)
    requires
        0 <= p < s.len(),
        s[p] == '=',
        forall|j: int| 0 <= j < p ==> s[j] != '=',
    ensures
        split_at_eq(s) == Some((s.take(p), s.skip(p + 1))),
    decreases p,
{
    if p > 0 {
        lemma_split_at(s.drop_first(), p - 1);
        assert(seq![s[0]] + s.drop_first().take(p - 1) =~= s.take(p));
        assert(s.drop_first().skip(p) =~= s.skip(p + 1));
    } else {
        assert(s.take(0) =~= Seq::<char>::empty());
        assert(s.drop_first() =~= s.skip(1));
    }
}

proof fn lemma_split_none(s: Seq<char>)
    requires
        forall|j: int| 0 <= j < s.len() ==> s[j] != '=',
    ensures
        split_at_eq(s) is None,
    decreases s.len(),
{
    if s.len() > 0 {
        lemma_split_none(s.drop_first());
    }
}

/// The assignment on one line, if any.
fn parse_env_line(line: &Vec<char>) -> (r: Option<(String, String)>)
    ensures
        match env_entry(line@) {
            Some((k, v)) => r matches Some(p) && p.0@ == k && p.1@ == v,
            None => r is None,
        },
{
    let l = trim_chars(line);
    if l.len() == 0 || l[0] == '#' {
        return None;
    }
    let mut p: usize = 0;
    while p < l.len() && l[p] != '='
        invariant
            p <= l@.len(),
            forall|j: int| 0 <= j < p ==> l@[j] != '=',
        decreases l@.len() - p,
    {
        p = p + 1;
    }
    if p == l.len() {
        proof {
            lemma_split_none(l@);
        }
        return None;
    }
    proof {
        lemma_split_at(l@, p as int);
    }
    let k0 = slice_chars(&l, 0, p);
    let v0 = slice_chars(&l, p + 1, l.len());
    proof {
        assert(k0@ == l@.take(p as int));
        assert(v0@ == l@.skip(p + 1));
    }
    let k = trim_chars(&k0);
    if k.len() == 0 {
        return None;
    }
    let v = trim_chars(&v0);
    let n = v.len();
    let value = if n >= 2 && ((v[0] == '"' && v[n - 1] == '"') || (v[0] == '\'' && v[n - 1] == '\'')) {
        slice_chars(&v, 1, n - 1)
    } else {
        v
    };
    Some((string_of(&k), string_of(&value)))
}

/// The assignments of a `.env` text, in line order: blank lines and lines
/// starting with `#` are skipped, each line splits at its first `=`, name
/// and value are trimmed, and one layer of matching quotes around the value
/// is removed. A name given twice appears twice; the later one wins when
/// the pairs are stored in order.
pub fn parse_env_format(content: &str) -> (r: Vec<(String, String)>)
    ensures
        pair_texts(r@) == env_entries(lines_of(content@)),
{
    let cs = chars_of(content);
    let mut out: Vec<(String, String)> = Vec::new();
    let mut cur: Vec<char> = Vec::new();
    let mut i: usize = 0;
    proof {
        assert(cs@.take(0) =~= Seq::<char>::empty());
        assert(pair_texts(out@) =~= Seq::<(Seq<char>, Seq<char>)>::empty());
    }
    while i < cs.len()
        invariant
            i <= cs@.len(),
            cs@ == content@,
            lines_of(cs@.take(i as int)).len() >= 1,
            cur@ == lines_of(cs@.take(i as int)).last(),
            pair_texts(out@) == env_entries(lines_of(cs@.take(i as int)).drop_last()),
        decreases cs@.len() - i,
    {
        let c = cs[i];
        proof {
            assert(cs@.take(i + 1).drop_last() == cs@.take(i as int));
            assert(cs@.take(i + 1).last() == c);
        }
        if c == '\n' {
            let e = parse_env_line(&cur);
            proof {
                let ls = lines_of(cs@.take(i as int));
                let ls2 = lines_of(cs@.take(i + 1));
                assert(ls2 == ls.push(Seq::empty()));
                assert(ls2.drop_last() == ls);
                assert(ls == ls.drop_last().push(ls.last()));
            }
            match e {
                Some(pair) => {
                    out.push(pair);
                    proof {
                        assert(pair_texts(out@) =~= pair_texts(out@.drop_last()).push((out@.last().0@, out@.last().1@)));
                    }
                },
                None => {},
            }
            cur = Vec::new();
        } else {
            cur.push(c);
            proof {
                let ls = lines_of(cs@.take(i as int));
                let ls2 = lines_of(cs@.take(i + 1));
                assert(ls2.drop_last() =~= ls.drop_last());
            }
        }
        i = i + 1;
    }
    let e = parse_env_line(&cur);
    proof {
        assert(cs@.take(cs@.len() as int) == cs@);
        let ls = lines_of(cs@);
        assert(ls == ls.drop_last().push(ls.last()));
    }
    match e {
        Some(pair) => {
            out.push(pair);
            proof {
                assert(pair_texts(out@) =~= pair_texts(out@.drop_last()).push((out@.last().0@, out@.last().1@)));
            }
        },
        None => {},
    }
    out
}

/// `s` without every leading `--`.
pub open spec fn strip_dashes(s: Seq<char>) -> Seq<char>
    decreases s.len(),
{
    if s.len() >= 2 && has_prefix(s, "--"@) {
        strip_dashes(s.skip(2))
    } else {
        s
    }
}

/// Positional arguments and flags from position `i` on: an argument that
/// starts with `--` is a flag, which takes the next argument as its value
/// unless that one is a flag too.
pub open spec fn scan_args(args: Seq<Seq<char>>, i: int) -> (
    Seq<Seq<char>>,
    Seq<(Seq<char>, Option<Seq<char>>)>,
)
    decreases args.len() - i,
{
    if i < 0 || i >= args.len() {
        (Seq::empty(), Seq::empty())
    } else if has_prefix(args[i], "--"@) {
        if i + 1 < args.len() && !has_prefix(args[i + 1], "--"@) {
            let (p, f) = scan_args(args, i + 2);
            (p, seq![(strip_dashes(args[i]), Some(args[i + 1]))] + f)
        } else {
            let (p, f) = scan_args(args, i + 1);
            (p, seq![(strip_dashes(args[i]), None)] + f)
        }
    } else {
        let (p, f) = scan_args(args, i + 1);
        (seq![args[i]] + p, f)
    }
}

/// The views of a list of strings.
pub open spec fn arg_texts(v: Seq<String>) -> Seq<Seq<char>> {
    v.map_values(|s: String| s@)
}

/// The views of flags and their values.
pub open spec fn flag_texts(v: Seq<(String, Option<String>)>) -> Seq<(Seq<char>, Option<Seq<char>>)> {
    v.map_values(
        |f: (String, Option<String>)|
            (
                f.0@,
                match f.1 {
                    Some(x) => Some(x@),
                    None => None,
                },
            ),
    )
}

fn strip_leading_dashes(s: &str) -> (r: String)
    ensures
        r@ == strip_dashes(s@),
{
    let v = chars_of(s);
    let mut a: usize = 0;
    proof {
        assert(v@.skip(0) == v@);
    }
    while v.len() - a >= 2 && v[a] == '-' && v[a + 1] == '-'
        invariant
            a <= v@.len(),
            strip_dashes(v@) == strip_dashes(v@.skip(a as int)),
            v@ == s@,
        decreases v@.len() - a,
    {
        proof {
            let t = v@.skip(a as int);
            reveal_strlit("--");
            assert(t.take(2) =~= "--"@);
            assert(t.skip(2) =~= v@.skip(a + 2));
        }
        a = a + 2;
    }
    proof {
        let t = v@.skip(a as int);
        reveal_strlit("--");
        if t.len() >= 2 && has_prefix(t, "--"@) {
            assert(t[0] == "--"@[0] && t[1] == "--"@[1]);
        }
    }
    let rest = slice_chars(&v, a, v.len());
    proof {
        assert(rest@ == v@.skip(a as int));
    }
    string_of(&rest)
}

/// Splits a command line into positional arguments and flags, in order. A
/// flag given twice appears twice; `flag_value` reads the later one.
pub fn parse_cli_args(args: &Vec<String>) -> (r: (Vec<String>, Vec<(String, Option<String>)>))
    ensures
        (arg_texts(r.0@), flag_texts(r.1@)) == scan_args(arg_texts(args@), 0),
{
    let ghost all = arg_texts(args@);
    let mut positional: Vec<String> = Vec::new();
    let mut flags: Vec<(String, Option<String>)> = Vec::new();
    let mut i: usize = 0;
    while i < args.len()
        invariant
            all == arg_texts(args@),
            i <= args@.len() + 1,
            ({
                let (p, f) = scan_args(all, i as int);
                (arg_texts(positional@) + p, flag_texts(flags@) + f) == scan_args(all, 0)
            }),
        decreases args@.len() + 1 - i,
    {
        let a = args[i].as_str();
        if starts_with(a, "--") {
            let name = strip_leading_dashes(a);
            if i + 1 < args.len() && !starts_with(args[i + 1].as_str(), "--") {
                let ghost before = flag_texts(flags@);
                flags.push((name, Some(args[i + 1].clone())));
                proof {
                    assert(flag_texts(flags@) =~= before.push(flag_texts(flags@).last()));
                    let (p, f) = scan_args(all, i + 2);
                    assert(before.push(flag_texts(flags@).last()) + f =~= before + (seq![
                        flag_texts(flags@).last(),
                    ] + f));
                }
                i = i + 2;
            } else {
                let ghost before = flag_texts(flags@);
                flags.push((name, None));
                proof {
                    assert(flag_texts(flags@) =~= before.push(flag_texts(flags@).last()));
                    let (p, f) = scan_args(all, i + 1);
                    assert(before.push(flag_texts(flags@).last()) + f =~= before + (seq![
                        flag_texts(flags@).last(),
                    ] + f));
                }
                i = i + 1;
            }
        } else {
            let ghost before = arg_texts(positional@);
            positional.push(args[i].clone());
            proof {
                assert(arg_texts(positional@) =~= before.push(all[i as int]));
                let (p, f) = scan_args(all, i + 1);
                assert(before.push(all[i as int]) + p =~= before + (seq![all[i as int]] + p));
            }
            i = i + 1;
        }
    }
    proof {
        let (p, f) = scan_args(all, i as int);
        assert(arg_texts(positional@) + p =~= arg_texts(positional@));
        assert(flag_texts(flags@) + f =~= flag_texts(flags@));
    }
    (positional, flags)
}

/// The passphrase: the command-line argument wins over the environment
/// variable; with neither the command cannot run.
pub fn get_passphrase(arg_passphrase: Option<&str>, env_value: Option<String>) -> (r: Result<
    String,
    VaultError,
>)
    ensures
        arg_passphrase matches Some(a) ==> r matches Ok(p) && p@ == a@,
        arg_passphrase is None && env_value is Some ==> r == Ok::<String, VaultError>(
            env_value->Some_0,
        ),
        arg_passphrase is None && env_value is None ==> r == Err::<String, VaultError>(
            VaultError::BadArgument,
        ),
{
    match arg_passphrase {
        Some(a) => Ok(a.to_owned()),
        None => match env_value {
            Some(v) => Ok(v),
            None => Err(VaultError::BadArgument),
        },
    }
}

/// What `init` does with an existing locker.
#[derive(Debug, Clone, Copy, PartialEq, Eq, Structural)]
pub enum InitStep {
    /// Create a new locker.
    Create,
    /// Remove the old locker's files, then create a new one.
    Replace,
    /// Refuse: a locker exists and `--force` was not given.
    Refuse,
}

/// `init` refuses to overwrite a locker unless forced.
pub fn init_step(locker_exists: bool, force: bool) -> (r: InitStep)
    ensures
        !locker_exists ==> r == InitStep::Create,
        locker_exists && force ==> r == InitStep::Replace,
        locker_exists && !force ==> r == InitStep::Refuse,
{
    if !locker_exists {
        InitStep::Create
    } else if force {
        InitStep::Replace
    } else {
        InitStep::Refuse
    }
}

/// The value printed by `token get` at time `now`: the secret must exist and
/// must not have expired.
pub fn token_value(store: &SecretsStore, name: &str, key: &[u8], now: i64) -> (r: Result<
    String,
    VaultError,
>)
    requires
        store.wf(),
        key@.len() == KEY_LEN,
    ensures
        !store@.contains_key(name@) ==> r == Err::<String, VaultError>(VaultError::NotFound),
        store@.contains_key(name@) && expired(store@[name@].1, now as int) ==> r == Err::<
            String,
            VaultError,
        >(VaultError::Expired),
        store@.contains_key(name@) && !expired(store@[name@].1, now as int) ==> match plain_text(
            key@,
            store@[name@].0,
        ) {
            Ok(t) => r matches Ok(v) && v@ == t,
            Err(e) => r == Err::<String, VaultError>(e),
        },
{
    match store.get_secret(name) {
        None => Err(VaultError::NotFound),
        Some(secret) => if secret.is_expired_at(now) {
            Err(VaultError::Expired)
        } else {
            store.decrypt_secret(name, key)
        },
    }
}

/// The `NAME=value` lines for the secrets not expired at `now`, in order;
/// the first value that does not decrypt decides the failure.
pub open spec fn env_output(s: Seq<Secret>, key: Seq<u8>, now: int) -> Result<Seq<Seq<char>>, VaultError>
    decreases s.len(),
{
    if s.len() == 0 {
        Ok(Seq::empty())
    } else {
        match env_output(s.drop_last(), key, now) {
            Err(e) => Err(e),
            Ok(ls) => if expired(s.last().expires_at, now) {
                Ok(ls)
            } else {
                match plain_text(key, s.last().encrypted_value@) {
                    Ok(t) => Ok(ls.push(s.last().name@ + "="@ + t)),
                    Err(e) => Err(e),
                }
            },
        }
    }
}

/// Once a prefix fails, the whole sequence fails the same way.
proof fn lemma_env_output_err(s: Seq<Secret>, key: Seq<u8>, now: int, j: int)
    requires
        0 <= j <= s.len(),
        env_output(s.take(j), key, now) is Err,
    ensures
        env_output(s, key, now) == env_output(s.take(j), key, now),
    decreases s.len() - j,
{
    if j == s.len() {
        assert(s.take(j) == s);
    } else {
        assert(s.drop_last().take(j) == s.take(j));
        lemma_env_output_err(s.drop_last(), key, now, j);
    }
}

/// The lines that `export --env` and `token list --env` print.
pub fn env_lines(store: &SecretsStore, key: &[u8], now: i64) -> (r: Result<Vec<String>, VaultError>)
    requires
        store.wf(),
        key@.len() == KEY_LEN,
    ensures
        match env_output(store.secrets@, key@, now as int) {
            Ok(ls) => r matches Ok(v) && arg_texts(v@) == ls,
            Err(e) => r == Err::<Vec<String>, VaultError>(e),
        },
{
    let mut out: Vec<String> = Vec::new();
    let mut i: usize = 0;
    proof {
        assert(store.secrets@.take(0) =~= Seq::<Secret>::empty());
        assert(arg_texts(out@) =~= Seq::<Seq<char>>::empty());
    }
    while i < store.secrets.len()
        invariant
            store.wf(),
            key@.len() == KEY_LEN,
            i <= store.secrets@.len(),
            env_output(store.secrets@.take(i as int), key@, now as int) == Ok::<
                Seq<Seq<char>>,
                VaultError,
            >(arg_texts(out@)),
        decreases store.secrets@.len() - i,
    {
        let secret = &store.secrets[i];
        proof {
            assert(store.secrets@.take(i + 1).drop_last() == store.secrets@.take(i as int));
            assert(store.secrets@.take(i + 1).last() == store.secrets@[i as int]);
        }
        if !secret.is_expired_at(now) {
            let bytes = match crate::crypto::decrypt(secret.encrypted_value.as_slice(), key) {
                Ok(b) => b,
                Err(_) => {
                    proof {
                        assert(env_output(store.secrets@.take(i + 1), key@, now as int) is Err);
                        lemma_env_output_err(store.secrets@, key@, now as int, i + 1);
                    }
                    return Err(VaultError::Crypto);
                },
            };
            let text = match sealed_text(bytes) {
                Some(t) => t,
                None => {
                    proof {
                        assert(env_output(store.secrets@.take(i + 1), key@, now as int) is Err);
                        lemma_env_output_err(store.secrets@, key@, now as int, i + 1);
                    }
                    return Err(VaultError::CorruptStore);
                },
            };
            let line = secret.name.clone().concat("=").concat(text.as_str());
            let ghost before = arg_texts(out@);
            out.push(line);
            proof {
                assert(arg_texts(out@) =~= before.push(line@));
            }
        }
        i = i + 1;
    }
    proof {
        assert(store.secrets@.take(store.secrets@.len() as int) == store.secrets@);
    }
    Ok(out)
}

/// Removes the secret named `name`; a name that is not there is an error
/// and leaves the store as it was.
pub fn remove_token(store: &mut SecretsStore, name: &str) -> (r: Result<(), VaultError>)
    requires
        old(store).wf(),
    ensures
        final(store).wf(),
        final(store).path == old(store).path,
        old(store)@.contains_key(name@) ==> r is Ok && final(store)@ == old(store)@.remove(name@),
        !old(store)@.contains_key(name@) ==> r == Err::<(), VaultError>(VaultError::NotFound)
            && *final(store) == *old(store),
{
    if store.get_secret(name).is_none() {
        return Err(VaultError::NotFound);
    }
    store.delete_secret(name);
    Ok(())
}

/// The value of the last flag named `name`, if that flag is present.
pub open spec fn last_flag(f: Seq<(Seq<char>, Option<Seq<char>>)>, name: Seq<char>) -> Option<Option<Seq<char>>>
    decreases f.len(),
{
    if f.len() == 0 {
        None
    } else if f.last().0 == name {
        Some(f.last().1)
    } else {
        last_flag(f.drop_last(), name)
    }
}

/// The value of the flag `name` as given last: `None` when the flag is
/// absent, `Some(None)` when it came without a value.
pub fn flag_value(flags: &Vec<(String, Option<String>)>, name: &str) -> (r: Option<Option<String>>)
    ensures
        match last_flag(flag_texts(flags@), name@) {
            None => r is None,
            Some(None) => r == Some(None::<String>),
            Some(Some(v)) => r matches Some(Some(x)) && x@ == v,
        },
{
    let mut i: usize = flags.len();
    proof {
        assert(flags@.take(flags@.len() as int) == flags@);
    }
    while i > 0
        invariant
            i <= flags@.len(),
            last_flag(flag_texts(flags@), name@) == last_flag(flag_texts(flags@.take(i as int)), name@),
        decreases i,
    {
        proof {
            assert(flag_texts(flags@.take(i as int)).drop_last() =~= flag_texts(flags@.take(i - 1)));
        }
        if text_eq(flags[i - 1].0.as_str(), name) {
            return match &flags[i - 1].1 {
                Some(v) => Some(Some(v.clone())),
                None => Some(None),
            };
        }
        i = i - 1;
    }
    proof {
        assert(flag_texts(flags@.take(0)) =~= Seq::<(Seq<char>, Option<Seq<char>>)>::empty());
    }
    None
}

/// Whether the flag `name` was given.
pub fn has_flag(flags: &Vec<(String, Option<String>)>, name: &str) -> (r: bool)
    ensures
        r == last_flag(flag_texts(flags@), name@) is Some,
{
    flag_value(flags, name).is_some()
}

/// The value that a list of (name, value) pairs leaves for `k` when stored
/// in order: the last one given.
pub open spec fn last_value(ps: Seq<(Seq<char>, Seq<char>)>, k: Seq<char>) -> Option<Seq<char>>
    decreases ps.len(),
{
    if ps.len() == 0 {
        None
    } else if ps.last().0 == k {
        Some(ps.last().1)
    } else {
        last_value(ps.drop_last(), k)
    }
}

/// The names that a list of pairs mentions.
pub open spec fn names_in(ps: Seq<(Seq<char>, Seq<char>)>) -> Set<Seq<char>> {
    Set::new(|k: Seq<char>| last_value(ps, k) is Some)
}

/// Stores each (name, value) pair in order, all with the same expiry, as
/// `import` does. Returns how many pairs were stored. Fails only when a
/// value is too long to seal, leaving the pairs before it stored.
pub fn import_entries(
    store: &mut SecretsStore,
    pairs: &Vec<(String, String)>,
    expiration_days: Option<u32>,
    now: i64,
    key: &[u8],
) -> (r: Result<usize, VaultError>)
    requires
        old(store).wf(),
        key@.len() == KEY_LEN,
    ensures
        final(store).wf(),
        final(store).path == old(store).path,
        (forall|i: int|
            0 <= i < pairs@.len() ==> encode_utf8((#[trigger] pairs@[i]).1@).len()
                <= crate::crypto::MAX_PLAINTEXT_LEN) ==> r is Ok,
        r is Err ==> r == Err::<usize, VaultError>(VaultError::Crypto),
        r matches Ok(n) ==> {
            let ps = pair_texts(pairs@);
            &&& n == pairs@.len()
            &&& final(store)@.dom() == old(store)@.dom().union(names_in(ps))
            &&& forall|k: Seq<char>|
                #[trigger] old(store)@.contains_key(k) && last_value(ps, k) is None
                    ==> final(store)@[k] == old(store)@[k]
            &&& forall|k: Seq<char>|
                #[trigger] last_value(ps, k) matches Some(v) ==> sealed(
                    key@,
                    encode_utf8(v),
                    final(store)@[k].0,
                ) && final(store)@[k].1 == expiry_after(now as int, expiration_days)
        },
{
    let ghost ps = pair_texts(pairs@);
    let ghost start = *store;
    let mut i: usize = 0;
    proof {
        assert(names_in(ps.take(0)) =~= Set::<Seq<char>>::empty());
        assert(store@.dom().union(Set::<Seq<char>>::empty()) =~= store@.dom());
    }
    while i < pairs.len()
        invariant
            ps == pair_texts(pairs@),
            key@.len() == KEY_LEN,
            start == *old(store),
            start.wf(),
            store.wf(),
            store.path == start.path,
            i <= pairs@.len(),
            store@.dom() == start@.dom().union(names_in(ps.take(i as int))),
            forall|k: Seq<char>|
                #[trigger] start@.contains_key(k) && last_value(ps.take(i as int), k) is None
                    ==> store@[k] == start@[k],
            forall|k: Seq<char>|
                #[trigger] last_value(ps.take(i as int), k) matches Some(v) ==> sealed(
                    key@,
                    encode_utf8(v),
                    store@[k].0,
                ) && store@[k].1 == expiry_after(now as int, expiration_days),
        decreases pairs@.len() - i,
    {
        let ghost prev = *store;
        let res = store.add_secret_at(
            pairs[i].0.clone(),
            pairs[i].1.clone(),
            expiration_days,
            now,
            key,
        );
        if res.is_err() {
            proof {
                assert(encode_utf8(pairs@[i as int].1@).len() > crate::crypto::MAX_PLAINTEXT_LEN);
            }
            return Err(VaultError::Crypto);
        }
        proof {
            let t0 = ps.take(i as int);
            let t1 = ps.take(i + 1);
            assert(t1.drop_last() == t0);
            assert(t1.last() == ps[i as int]);
            assert(ps[i as int] == (pairs@[i as int].0@, pairs@[i as int].1@));
            assert(names_in(t1) =~= names_in(t0).insert(ps[i as int].0));
            assert(store@.dom() =~= start@.dom().union(names_in(t1)));
            assert forall|k: Seq<char>| #[trigger] last_value(t1, k) is Some implies sealed(
                key@,
                encode_utf8(last_value(t1, k)->Some_0),
                store@[k].0,
            ) && store@[k].1 == expiry_after(now as int, expiration_days) by {
                if k != ps[i as int].0 {
                    assert(last_value(t1, k) == last_value(t0, k));
                    assert(names_in(t0).contains(k));
                    assert(prev@.contains_key(k));
                }
            }
            assert forall|k: Seq<char>|
                #[trigger] start@.contains_key(k) && last_value(t1, k) is None implies store@[k]
                == start@[k] by {
                assert(last_value(t1, k) == last_value(t0, k));
            }
        }
        i = i + 1;
    }
    proof {
        assert(ps.take(pairs@.len() as int) == ps);
    }
    Ok(i)
}

} // verus!
