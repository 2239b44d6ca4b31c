//! Secret references: environment values of the form `vp://<source>/<path>`.

use vstd::prelude::*;
use crate::env::{pair_texts, EnvMap};

verus! {

/// Why a source could not give a secret.
#[derive(Debug)]
pub struct SourceError {
    pub message: String,
}

/// A place that secrets are fetched from, such as a password manager.
pub trait Source {
    /// The secret that `identifier` (a `vp://` reference) names.
    fn get_value(&self, identifier: &str) -> Result<String, SourceError>;
}

/// The secret source registered under `name`. No source is registered yet,
/// so there is none for any name.
pub fn initialize_source_by_name(name: &str) -> (r: Option<std::sync::Arc<dyn Source>>)
    ensures
        r is None,
{
    None
}

/// The scheme that marks an environment value as a secret reference.
pub open spec fn scheme() -> Seq<char> {
    seq!['v', 'p', ':', '/', '/']
}

/// `k` is the position of the first `/` in `s`.
pub open spec fn is_first_slash(s: Seq<char>, k: int) -> bool {
    &&& 0 <= k < s.len()
    &&& s[k] == '/'
    &&& forall|j: int| 0 <= j < k ==> s[j] != '/'
}

/// The name of the secret source that `uri` refers to: the text between the
/// scheme and the first `/` after it, if the scheme is there and such a `/` is.
pub open spec fn source_name_of(uri: Seq<char>) -> Option<Seq<char>> {
    if scheme().is_prefix_of(uri) && exists|k: int| is_first_slash(uri.skip(5), k) {
        let k = choose|k: int| is_first_slash(uri.skip(5), k);
        Some(uri.skip(5).take(k))
    } else {
        None
    }
}

/// A reference made of the scheme, a source name without `/`, a `/`, and any
/// path names that source.
pub proof fn lemma_reference_names_source(name: Seq<char>, path: Seq<char>)
    requires
        forall|i: int| 0 <= i < name.len() ==> name[i] != '/',
    ensures
        source_name_of(scheme() + name + seq!['/'] + path) == Some(name),
{
    let uri = scheme() + name + seq!['/'] + path;
    let rest = uri.skip(5);
    assert(rest =~= name + seq!['/'] + path);
    assert(scheme().is_prefix_of(uri)) by {
        assert(uri.subrange(0, 5) =~= scheme());
    }
    let k = name.len() as int;
    assert(is_first_slash(rest, k));
    let c = choose|c: int| is_first_slash(rest, c);
    if c < k {
        assert(rest[c] == name[c]);
    }
    if c > k {
        assert(rest[k] == '/');
    }
    assert(rest.take(k) =~= name);
}

/// Every reference that names a source is made that way: the scheme, the
/// name (which holds no `/`), a `/`, and a path.
pub proof fn lemma_source_name_splits_reference(uri: Seq<char>)
    requires
        source_name_of(uri) is Some,
    ensures
        forall|i: int| 0 <= i < source_name_of(uri)->0.len() ==> source_name_of(uri)->0[i] != '/',
        exists|path: Seq<char>| uri == scheme() + source_name_of(uri)->0 + seq!['/'] + path,
{
    let rest = uri.skip(5);
    let k = choose|k: int| is_first_slash(rest, k);
    let name = rest.take(k);
    let path = rest.skip(k + 1);
    assert(source_name_of(uri) == Some(name));
    assert(uri =~= scheme() + name + seq!['/'] + path) by {
        assert(uri.subrange(0, 5) =~= scheme());
    }
    assert(uri == scheme() + source_name_of(uri)->0 + seq!['/'] + path);
}

/// Returns the name of the secret source that a `vp://` reference points at.
pub fn get_secret_source_from_uri(uri: &str) -> (r: Option<String>)
    ensures
        match r {
            Some(name) => source_name_of(uri@) == Some(name@),
            None => source_name_of(uri@) is None,
        },
{
    let mut chars: Vec<char> = Vec::new();
    for c in it: uri.chars()
        invariant
            chars@ == it.seq().take(it.index() as int),
    {
        chars.push(c);
    }
    assert(chars@ == uri@);
    let n = chars.len();
    if n < 5 || chars[0] != 'v' || chars[1] != 'p' || chars[2] != ':' || chars[3] != '/' || chars[4] != '/' {
        return None;
    }
    assert(scheme().is_prefix_of(uri@));
    let mut k: usize = 5;
    while k < n
        invariant
            5 <= k <= n,
            n == chars@.len(),
            chars@ == uri@,
            scheme().is_prefix_of(uri@),
            forall|j: int| 5 <= j < k ==> chars@[j] != '/',
        decreases n - k,
    {
        if chars[k] == '/' {
            let name = uri.substring_char(5, k).to_owned();
            proof {
                let rest = uri@.skip(5);
                assert(is_first_slash(rest, k - 5));
                let c = choose|c: int| is_first_slash(rest, c);
                if c < k - 5 {
                    assert(rest[c] == chars@[c + 5]);
                }
                if c > k - 5 {
                    assert(rest[k - 5] == '/');
                }
                assert(c == k - 5);
                assert(source_name_of(uri@) == Some(rest.take(k - 5)));
                assert(name@ =~= rest.take(k - 5));
            }
            return Some(name);
        }
        k = k + 1;
    }
    None
}

/// The secret references among environment variables, in order: each
/// variable whose value names a secret source, with that source's name.
pub open spec fn references(pairs: Seq<(String, String)>) -> Seq<(Seq<char>, Seq<char>)>
    decreases pairs.len(),
{
    if pairs.len() == 0 {
        Seq::empty()
    } else {
        let rest = references(pairs.drop_last());
        match source_name_of(pairs.last().1@) {
            Some(name) => rest.push((pairs.last().0@, name)),
            None => rest,
        }
    }
}

/// The variable `p` holds a secret reference.
pub open spec fn is_reference(p: (String, String)) -> bool {
    source_name_of(p.1@) is Some
}

/// A referencing variable's name, with the source its value names.
pub open spec fn reference_of(p: (String, String)) -> (Seq<char>, Seq<char>) {
    (p.0@, source_name_of(p.1@)->0)
}

/// The references are every variable whose value names a source, each with
/// that source, in the variables' order; none is left out, whatever source it
/// names, and nothing else is listed.
pub proof fn lemma_references_are_all_referencing_variables(pairs: Seq<(String, String)>)
    ensures
        references(pairs) == pairs.filter(|p: (String, String)| is_reference(p)).map_values(
            |p: (String, String)| reference_of(p),
        ),
        references(pairs).len() == pairs.filter(|p: (String, String)| is_reference(p)).len(),
        forall|i: int| 0 <= i < pairs.len() && is_reference(pairs[i]) ==> references(pairs).contains(
            reference_of(pairs[i]),
        ),
    decreases pairs.len(),
{
    let f = |p: (String, String)| is_reference(p);
    let g = |p: (String, String)| reference_of(p);
    reveal_with_fuel(Seq::<(String, String)>::filter, 1);
    if pairs.len() > 0 {
        let front = pairs.drop_last();
        lemma_references_are_all_referencing_variables(front);
        assert(references(pairs) =~= pairs.filter(f).map_values(g)) by {
            if f(pairs.last()) {
                assert(pairs.filter(f) == front.filter(f).push(pairs.last()));
                assert(pairs.filter(f).map_values(g) =~= front.filter(f).map_values(g).push(g(pairs.last())));
            } else {
                assert(pairs.filter(f) == front.filter(f));
            }
        }
        assert forall|i: int| 0 <= i < pairs.len() && is_reference(pairs[i]) implies references(pairs).contains(
            reference_of(pairs[i]),
        ) by {
            if i < pairs.len() - 1 {
                assert(front[i] == pairs[i]);
                let j = choose|j: int| 0 <= j < references(front).len() && references(front)[j] == reference_of(front[i]);
                assert(references(pairs)[j] == references(front)[j]);
            } else {
                assert(references(pairs).last() == reference_of(pairs[i]));
            }
        }
    } else {
        assert(pairs.filter(f) =~= Seq::<(String, String)>::empty());
        assert(references(pairs) =~= pairs.filter(f).map_values(g));
    }
}

/// The variables of `env` whose values are secret references, each with the
/// name of the source to ask.
pub fn secret_references(env: &EnvMap) -> (r: Vec<(String, String)>)
    ensures
        pair_texts(r@) == references(env.pairs()),
        pair_texts(r@) == env.pairs().filter(|p: (String, String)| is_reference(p)).map_values(
            |p: (String, String)| reference_of(p),
        ),
{
    let entries = env.entries();
    let n = entries.len();
    let mut out: Vec<(String, String)> = Vec::new();
    let mut i: usize = 0;
    while i < n
        invariant
            n == entries@.len(),
            entries@ == env.pairs(),
            i <= n,
            pair_texts(out@) == references(entries@.take(i as int)),
        decreases n - i,
    {
        proof {
            assert(entries@.take(i + 1).drop_last() =~= entries@.take(i as int));
        }
        let ghost before = out@;
        match get_secret_source_from_uri(entries[i].1.as_str()) {
            Some(name) => {
                out.push((entries[i].0.clone(), name));
                proof {
                    assert(pair_texts(out@) =~= pair_texts(before).push(
                        (entries@[i as int].0@, out@.last().1@),
                    ));
                }
            },
            None => {},
        }
        i = i + 1;
    }
    assert(entries@.take(n as int) =~= entries@);
    proof {
        lemma_references_are_all_referencing_variables(entries@);
    }
    out
}

} // verus!
