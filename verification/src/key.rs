//! Derivation of the cache key from a build's identity.

use vstd::prelude::*;
use crate::features::{lemma_normal_form_exists, names_of, normalize, normalized};

verus! {

/// The parts laid end to end, with `separator` between neighbours.
pub open spec fn joined(parts: Seq<Seq<char>>, separator: Seq<char>) -> Seq<char>
    decreases parts.len(),
{
    if parts.len() == 0 {
        Seq::empty()
    } else if parts.len() == 1 {
        parts[0]
    } else {
        joined(parts.drop_last(), separator) + separator + parts.last()
    }
}

/// Joins the strings with `separator` between neighbours.
pub fn join(parts: &Vec<String>, separator: &str) -> (out: String)
    ensures
        out@ == joined(names_of(parts@), separator@),
{
    let mut out = String::new();
    let mut k: usize = 0;
    while k < parts.len()
        invariant
            k <= parts@.len(),
            out@ == joined(names_of(parts@).take(k as int), separator@),
        decreases parts@.len() - k,
    {
        proof {
            let done = names_of(parts@).take(k as int);
            let next = names_of(parts@).take(k + 1);
            assert(next.drop_last() =~= done);
            assert(next.last() == parts@[k as int]@);
            if k == 0 {
                assert(out@ + parts@[0]@ =~= parts@[0]@);
            }
        }
        if k > 0 {
            out.append(separator);
        }
        out.append(parts[k].as_str());
        k += 1;
    }
    proof {
        assert(names_of(parts@).take(k as int) =~= names_of(parts@));
    }
    out
}

/// What identifies one build: the source revision, the platform it is built
/// for, the enabled features and the kind of build.
#[derive(Clone, Debug)]
pub struct BuildIdentity {
    /// Short hash of the commit that is built.
    pub revision: String,
    /// Platform triple: architecture, vendor, system and, where given, ABI.
    pub target: String,
    /// Whether the C runtime is linked statically.
    pub crt_static: bool,
    /// Names of the enabled features, in any order; repetitions do not count.
    pub features: Vec<String>,
    /// Whether this is a debug build.
    pub debug: bool,
}

/// A build identity as a value: the features form a set.
pub struct Identity {
    pub revision: Seq<char>,
    pub target: Seq<char>,
    pub crt_static: bool,
    pub features: Set<Seq<char>>,
    pub debug: bool,
}

impl View for BuildIdentity {
    type V = Identity;

    open spec fn view(&self) -> Identity {
        Identity {
            revision: self.revision@,
            target: self.target@,
            crt_static: self.crt_static,
            features: names_of(self.features@).to_set(),
            debug: self.debug,
        }
    }
}

/// One component if `present`, none otherwise.
pub open spec fn component_if(present: bool, component: Seq<char>) -> Seq<Seq<char>> {
    if present {
        seq![component]
    } else {
        Seq::empty()
    }
}

/// The components of a key, in their fixed order: revision, target, the
/// features in normal form joined by `-` (only if there are any), `static`
/// (only with a static C runtime), `debug` (only for a debug build).
pub open spec fn key_components(id: Identity) -> Seq<Seq<char>> {
    seq![id.revision, id.target]
        + component_if(!id.features.is_empty(), joined(normalized(id.features), "-"@))
        + component_if(id.crt_static, "static"@)
        + component_if(id.debug, "debug"@)
}

/// The cache key of a build identity: its components joined by `-`.
pub open spec fn key_of(id: Identity) -> Seq<char> {
    joined(key_components(id), "-"@)
}

/// Derives the key that identifies the binaries of one build.
///
/// Every part of the key is separated by `-`. No grouping or enclosing
/// characters are added, because file hosts strip them from file names.
pub fn key(
    repository_short_hash: &str,
    target: &str,
    crt_static: bool,
    features: &[String],
    skia_debug: bool,
) -> (out: String)
    ensures
        out@ == key_of(
            Identity {
                revision: repository_short_hash@,
                target: target@,
                crt_static,
                features: names_of(features@).to_set(),
                debug: skia_debug,
            },
        ),
{
    let ghost id = Identity {
        revision: repository_short_hash@,
        target: target@,
        crt_static,
        features: names_of(features@).to_set(),
        debug: skia_debug,
    };
    let mut components: Vec<String> = Vec::new();
    components.push(repository_short_hash.to_owned());
    components.push(target.to_owned());
    assert(names_of(components@) =~= seq![id.revision, id.target]);

    if features.len() > 0 {
        let sorted = normalize(features);
        components.push(join(&sorted, "-"));
        proof {
            assert(id.features.contains(names_of(features@)[0]));
        }
    } else {
        assert(id.features =~= Set::empty());
    }
    assert(names_of(components@) =~= seq![id.revision, id.target] + component_if(
        !id.features.is_empty(),
        joined(normalized(id.features), "-"@),
    ));

    if crt_static {
        components.push("static".to_owned());
    }
    assert(names_of(components@) =~= seq![id.revision, id.target] + component_if(
        !id.features.is_empty(),
        joined(normalized(id.features), "-"@),
    ) + component_if(id.crt_static, "static"@));

    if skia_debug {
        components.push("debug".to_owned());
    }
    assert(names_of(components@) =~= key_components(id));

    join(&components, "-")
}

impl BuildIdentity {
    /// Derives the key of this identity.
    pub fn derive_key(&self) -> (out: String)
        ensures
            out@ == key_of(self@),
    {
        key(
            self.revision.as_str(),
            self.target.as_str(),
            self.crt_static,
            self.features.as_slice(),
            self.debug,
        )
    }
}

/// Identities that differ only in the order of their feature lists, or in
/// how often a feature is listed, have the same key.
pub proof fn lemma_key_ignores_feature_order(a: BuildIdentity, b: BuildIdentity)
    requires
        a.revision@ == b.revision@,
        a.target@ == b.target@,
        a.crt_static == b.crt_static,
        a.debug == b.debug,
        names_of(a.features@).to_set() == names_of(b.features@).to_set(),
    ensures
        a@ == b@,
        key_of(a@) == key_of(b@),
{
}

/// The key of a debug build is the key of the release build with `-debug`
/// behind it: the flag changes nothing else.
pub proof fn lemma_debug_only_appends(id: Identity)
    ensures
        key_of(Identity { debug: true, ..id }) == key_of(Identity { debug: false, ..id }) + "-"@
            + "debug"@,
{
    let release = key_components(Identity { debug: false, ..id });
    let debug = key_components(Identity { debug: true, ..id });
    assert(release =~= release + Seq::<Seq<char>>::empty());
    assert(debug =~= release.push("debug"@));
    assert(debug.drop_last() =~= release);
}

/// Every character of a joined text comes from the separator or from one of
/// the parts.
pub proof fn lemma_joined_characters(parts: Seq<Seq<char>>, separator: Seq<char>, i: int)
    requires
        0 <= i < joined(parts, separator).len(),
    ensures
        separator.contains(joined(parts, separator)[i]) || exists|k: int|
            0 <= k < parts.len() && (#[trigger] parts[k]).contains(joined(parts, separator)[i]),
    decreases parts.len(),
{
    let c = joined(parts, separator)[i];
    if parts.len() == 1 {
        assert(parts[0].contains(c));
    } else if parts.len() > 1 {
        let head = joined(parts.drop_last(), separator);
        if i < head.len() {
            lemma_joined_characters(parts.drop_last(), separator, i);
            if !separator.contains(c) {
                let k = choose|k: int|
                    0 <= k < parts.drop_last().len() && (#[trigger] parts.drop_last()[k]).contains(
                        c,
                    );
                assert(parts[k].contains(c));
            }
        } else if i < head.len() + separator.len() {
            assert(separator[i - head.len()] == c);
        } else {
            assert(parts.last()[i - head.len() - separator.len()] == c);
            assert(parts[parts.len() - 1].contains(c));
        }
    }
}

/// The characters that a key may hold whatever it is derived from: ASCII
/// letters and digits, `.`, `_` and `-`.
pub open spec fn is_key_char(c: char) -> bool {
    ('a' <= c <= 'z') || ('A' <= c <= 'Z') || ('0' <= c <= '9') || c == '.' || c == '_' || c == '-'
}

/// `c` occurs in the revision, in the target or in one of the features.
pub open spec fn occurs_in_identity(id: Identity, c: char) -> bool {
    id.revision.contains(c) || id.target.contains(c) || exists|name: Seq<char>|
        #[trigger] id.features.contains(name) && name.contains(c)
}

/// Key derivation adds only key characters: every character of a key is a
/// key character or occurs in the identity already. In particular a key
/// holds a bracket, brace or parenthesis only where the revision, the target
/// or a feature does.
pub proof fn lemma_key_characters(id: Identity, i: int)
    requires
        id.features.finite(),
        0 <= i < key_of(id).len(),
    ensures
        is_key_char(key_of(id)[i]) || occurs_in_identity(id, key_of(id)[i]),
{
    reveal_strlit("-");
    reveal_strlit("static");
    reveal_strlit("debug");
    let c = key_of(id)[i];
    let parts = key_components(id);
    lemma_joined_characters(parts, "-"@, i);
    if !"-"@.contains(c) {
        let k = choose|k: int| 0 <= k < parts.len() && (#[trigger] parts[k]).contains(c);
        let features = joined(normalized(id.features), "-"@);
        if parts[k] == features && !id.features.is_empty() {
            let at = choose|at: int| 0 <= at < features.len() && features[at] == c;
            lemma_joined_characters(normalized(id.features), "-"@, at);
            lemma_normal_form_exists(id.features);
            if !"-"@.contains(c) {
                let n = choose|n: int|
                    0 <= n < normalized(id.features).len() && (#[trigger] normalized(
                        id.features,
                    )[n]).contains(c);
                assert(normalized(id.features).to_set().contains(normalized(id.features)[n]));
                assert(id.features.contains(normalized(id.features)[n]));
            }
        }
    }
}

/// With features made of key characters, or of characters of the revision
/// and the target, every character of the key is a key character or occurs
/// in the revision or the target.
pub proof fn lemma_key_alphabet(id: Identity, i: int)
    requires
        id.features.finite(),
        forall|name: Seq<char>, k: int|
            #[trigger] id.features.contains(name) && 0 <= k < name.len() ==> is_key_char(
                #[trigger] name[k],
            ) || id.revision.contains(name[k]) || id.target.contains(name[k]),
        0 <= i < key_of(id).len(),
    ensures
        is_key_char(key_of(id)[i]) || id.revision.contains(key_of(id)[i]) || id.target.contains(
            key_of(id)[i],
        ),
{
    lemma_key_characters(id, i);
}

/// The characters that file hosts strip from file names: angle brackets,
/// square brackets, braces and parentheses.
pub open spec fn is_grouping_char(c: char) -> bool {
    c == '<' || c == '>' || c == '[' || c == ']' || c == '{' || c == '}' || c == '(' || c == ')'
}

/// Key derivation brings in no grouping character: where the revision, the
/// target and the features hold none, the key holds none.
pub proof fn lemma_key_has_no_grouping(id: Identity, i: int)
    requires
        id.features.finite(),
        forall|c: char| is_grouping_char(c) ==> !occurs_in_identity(id, c),
        0 <= i < key_of(id).len(),
    ensures
        !is_grouping_char(key_of(id)[i]),
{
    lemma_key_characters(id, i);
}

} // verus!
