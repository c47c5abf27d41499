//! License resolver: computes the effective license of a component from its
//! own license pair and those of all its strict ancestors.
//!
//! The effective license is the ordered, de-duplicated concatenation, joined
//! by `" AND "` and wrapped in parentheses, of every ancestor's source and
//! documentation licenses in root-to-leaf order, each license kept at its
//! first occurrence.

use vstd::prelude::*;

verus! {

/// Default source license for a fresh top-level component.
pub fn default_source_license() -> (r: &'static str)
    ensures
        r@ == "Unlicense"@,
{
    "Unlicense"
}

/// Default documentation license for a fresh top-level component.
pub fn default_documentation_license() -> (r: &'static str)
    ensures
        r@ == "CC-BY-4.0"@,
{
    "CC-BY-4.0"
}

/// The source and documentation licenses a single component declares.
pub struct LicensePair {
    pub source: String,
    pub documentation: String,
}

/// The view of one declared pair: source and documentation license text.
pub open spec fn pair_view(p: LicensePair) -> (Seq<char>, Seq<char>) {
    (p.source@, p.documentation@)
}

/// The views of a chain of declared pairs.
pub open spec fn pairs_view(v: Seq<LicensePair>) -> Seq<(Seq<char>, Seq<char>)> {
    v.map_values(|p: LicensePair| pair_view(p))
}

/// The two licenses of one pair, source first.
pub open spec fn pair_parts(p: (Seq<char>, Seq<char>)) -> Seq<Seq<char>> {
    seq![p.0, p.1]
}

/// All licenses of a root-to-leaf chain of pairs, flattened in order.
pub open spec fn flatten_pairs(chain: Seq<(Seq<char>, Seq<char>)>) -> Seq<Seq<char>>
    decreases chain.len(),
{
    if chain.len() == 0 {
        Seq::empty()
    } else {
        pair_parts(chain[0]) + flatten_pairs(chain.drop_first())
    }
}

/// Keeps the first occurrence of each license and drops the ones already in
/// `seen`, preserving order.
pub open spec fn dedup_parts(parts: Seq<Seq<char>>, seen: Seq<Seq<char>>) -> Seq<Seq<char>>
    decreases parts.len(),
{
    if parts.len() == 0 {
        Seq::empty()
    } else if seen.contains(parts[0]) {
        dedup_parts(parts.drop_first(), seen)
    } else {
        seq![parts[0]] + dedup_parts(parts.drop_first(), seen.push(parts[0]))
    }
}

/// Joins license names with `" AND "`.
pub open spec fn join_licenses(parts: Seq<Seq<char>>) -> Seq<char>
    decreases parts.len(),
{
    if parts.len() == 0 {
        Seq::empty()
    } else if parts.len() == 1 {
        parts[0]
    } else {
        parts[0] + " AND "@ + join_licenses(parts.drop_first())
    }
}

/// The distinct licenses of a chain, in order of first occurrence.
pub open spec fn effective_parts(chain: Seq<(Seq<char>, Seq<char>)>) -> Seq<Seq<char>> {
    dedup_parts(flatten_pairs(chain), Seq::empty())
}

/// The effective license string of a component whose root-to-leaf chain of
/// declared license pairs is `chain` (the component's own pair last).
pub open spec fn effective_license(chain: Seq<(Seq<char>, Seq<char>)>) -> Seq<char> {
    "("@ + join_licenses(effective_parts(chain)) + ")"@
}

/// The views of a vector of strings.
pub open spec fn views_of_strings(ss: Seq<String>) -> Seq<Seq<char>> {
    ss.map_values(|s: String| s@)
}

/// Whether `v` holds a string equal to `x`.
fn contains_string(v: &Vec<String>, x: &String) -> (b: bool)
    ensures
        b == views_of_strings(v@).contains(x@),
{
    let mut i: usize = 0;
    while i < v.len()
        invariant
            i <= v@.len(),
            forall|j: int| 0 <= j < i ==> v@[j]@ != x@,
        decreases v@.len() - i,
    {
        if v[i] == *x {
            assert(views_of_strings(v@)[i as int] == x@);
            return true;
        }
        i += 1;
    }
    assert forall|j: int| 0 <= j < views_of_strings(v@).len() implies views_of_strings(v@)[j]
        != x@ by {
        assert(views_of_strings(v@)[j] == v@[j]@);
    }
    false
}

proof fn lemma_join_snoc(parts: Seq<Seq<char>>, x: Seq<char>)
    ensures
        join_licenses(parts.push(x)) == if parts.len() == 0 {
            x
        } else {
            join_licenses(parts) + " AND "@ + x
        },
    decreases parts.len(),
{
    if parts.len() == 0 {
        assert(parts.push(x).len() == 1);
        assert(parts.push(x)[0] == x);
    } else {
        lemma_join_snoc(parts.drop_first(), x);
        assert(parts.push(x).drop_first() =~= parts.drop_first().push(x));
        assert(parts.push(x)[0] == parts[0]);
        if parts.len() == 1 {
            assert(parts.drop_first().len() == 0);
            assert(join_licenses(parts.push(x)) == parts[0] + " AND "@ + x);
            assert(join_licenses(parts) == parts[0]);
        } else {
            assert(join_licenses(parts.push(x)) == parts[0] + " AND "@ + (join_licenses(
                parts.drop_first(),
            ) + " AND "@ + x));
            assert(join_licenses(parts) == parts[0] + " AND "@ + join_licenses(
                parts.drop_first(),
            ));
            assert(parts[0] + " AND "@ + (join_licenses(parts.drop_first()) + " AND "@ + x) =~= (
            parts[0] + " AND "@ + join_licenses(parts.drop_first())) + " AND "@ + x);
        }
    }
}

/// Builds `join_licenses(views_of_strings(parts@))` executably.
fn join_with_and(parts: &Vec<String>) -> (r: String)
    ensures
        r@ == join_licenses(views_of_strings(parts@)),
{
    let ghost all: Seq<Seq<char>> = views_of_strings(parts@);
    let mut r = String::new();
    let mut i: usize = 0;
    while i < parts.len()
        invariant
            i <= parts@.len(),
            all == views_of_strings(parts@),
            r@ == join_licenses(all.take(i as int)),
        decreases parts@.len() - i,
    {
        proof {
            assert(all.take(i + 1) =~= all.take(i as int).push(all[i as int]));
            lemma_join_snoc(all.take(i as int), all[i as int]);
            assert(all[i as int] == parts@[i as int]@);
        }
        if i > 0 {
            r.append(" AND ");
        }
        r.append(parts[i].as_str());
        i += 1;
    }
    proof {
        assert(all.take(parts@.len() as int) =~= all);
    }
    r
}

/// Computes the effective license string of a root-to-leaf chain of license
/// pairs: the distinct licenses in order of first occurrence, joined with
/// `" AND "` and wrapped in parentheses.
pub fn amalgamate_licenses(chain: &Vec<LicensePair>) -> (r: String)
    ensures
        r@ == effective_license(pairs_view(chain@)),
{
    let ghost pv: Seq<(Seq<char>, Seq<char>)> = pairs_view(chain@);
    let mut parts: Vec<String> = Vec::new();
    let mut i: usize = 0;
    proof {
        assert(pv.skip(0) =~= pv);
        assert(views_of_strings(parts@) =~= Seq::<Seq<char>>::empty());
        assert(views_of_strings(parts@) + dedup_parts(flatten_pairs(pv), views_of_strings(
            parts@,
        )) =~= dedup_parts(flatten_pairs(pv), Seq::empty()));
    }
    while i < chain.len()
        invariant
            i <= chain@.len(),
            pv == pairs_view(chain@),
            effective_parts(pv) == views_of_strings(parts@) + dedup_parts(
                flatten_pairs(pv.skip(i as int)),
                views_of_strings(parts@),
            ),
        decreases chain@.len() - i,
    {
        let ghost seen0: Seq<Seq<char>> = views_of_strings(parts@);
        let ghost rest: Seq<(Seq<char>, Seq<char>)> = pv.skip(i as int);
        proof {
            assert(rest.len() > 0);
            assert(rest[0] == pv[i as int]);
            assert(pv[i as int] == pair_view(chain@[i as int]));
            assert(rest.drop_first() =~= pv.skip(i + 1));
            assert(flatten_pairs(rest) == pair_parts(rest[0]) + flatten_pairs(
                pv.skip(i + 1),
            ));
        }
        let ghost p0: Seq<char> = chain@[i as int].source@;
        let ghost p1: Seq<char> = chain@[i as int].documentation@;
        let ghost tail: Seq<Seq<char>> = flatten_pairs(pv.skip(i + 1));
        proof {
            assert(flatten_pairs(rest) =~= seq![p0, p1] + tail);
            assert((seq![p0, p1] + tail)[0] == p0);
            assert((seq![p0, p1] + tail).drop_first() =~= seq![p1] + tail);
            assert((seq![p1] + tail)[0] == p1);
            assert((seq![p1] + tail).drop_first() =~= tail);
        }
        if !contains_string(&parts, &chain[i].source) {
            let s = chain[i].source.clone();
            assert(s@ == p0);
            parts.push(s);
            proof {
                assert(views_of_strings(parts@) =~= seen0.push(p0));
            }
        }
        let ghost seen1: Seq<Seq<char>> = views_of_strings(parts@);
        proof {
            if seen0.contains(p0) {
                assert(seen1 == seen0);
                assert(dedup_parts(seq![p0, p1] + tail, seen0) == dedup_parts(
                    seq![p1] + tail,
                    seen0,
                ));
            } else {
                assert(seen1 == seen0.push(p0));
                assert(dedup_parts(seq![p0, p1] + tail, seen0) == seq![p0] + dedup_parts(
                    seq![p1] + tail,
                    seen1,
                ));
            }
        }
        if !contains_string(&parts, &chain[i].documentation) {
            let d = chain[i].documentation.clone();
            assert(d@ == p1);
            parts.push(d);
            proof {
                assert(views_of_strings(parts@) =~= seen1.push(p1));
            }
        }
        proof {
            let seen2 = views_of_strings(parts@);
            if seen1.contains(p1) {
                assert(seen2 == seen1);
                assert(dedup_parts(seq![p1] + tail, seen1) == dedup_parts(tail, seen1));
            } else {
                assert(seen2 == seen1.push(p1));
                assert(dedup_parts(seq![p1] + tail, seen1) == seq![p1] + dedup_parts(tail, seen2));
            }
            assert(effective_parts(pv) == seen2 + dedup_parts(tail, seen2)) by {
                if seen0.contains(p0) {
                    if seen1.contains(p1) {
                        assert(seen0 + dedup_parts(flatten_pairs(rest), seen0) =~= seen2
                            + dedup_parts(tail, seen2));
                    } else {
                        assert(seen0 + dedup_parts(flatten_pairs(rest), seen0) =~= seen2
                            + dedup_parts(tail, seen2));
                    }
                } else {
                    if seen1.contains(p1) {
                        assert(seen0 + dedup_parts(flatten_pairs(rest), seen0) =~= seen2
                            + dedup_parts(tail, seen2));
                    } else {
                        assert(seen0 + dedup_parts(flatten_pairs(rest), seen0) =~= seen2
                            + dedup_parts(tail, seen2));
                    }
                }
            }
        }
        i += 1;
    }
    proof {
        assert(pv.skip(chain@.len() as int).len() == 0);
        assert(dedup_parts(flatten_pairs(pv.skip(chain@.len() as int)), views_of_strings(
            parts@,
        )) =~= Seq::<Seq<char>>::empty());
        assert(effective_parts(pv) =~= views_of_strings(parts@));
    }
    let joined = join_with_and(&parts);
    let mut r = String::from_str("(");
    r.append(joined.as_str());
    r.append(")");
    proof {
        assert(r@ =~= effective_license(pairs_view(chain@)));
    }
    r
}

/// Copies a chain of license pairs.
pub fn clone_pairs(v: &Vec<LicensePair>) -> (r: Vec<LicensePair>)
    ensures
        r@ == v@,
{
    let mut r: Vec<LicensePair> = Vec::new();
    let mut i: usize = 0;
    while i < v.len()
        invariant
            i <= v@.len(),
            r@.len() == i,
            forall|j: int| 0 <= j < i ==> r@[j] == v@[j],
        decreases v@.len() - i,
    {
        let p = LicensePair {
            source: v[i].source.clone(),
            documentation: v[i].documentation.clone(),
        };
        assert(p == v@[i as int]);
        r.push(p);
        i += 1;
    }
    proof {
        assert(r@ =~= v@);
    }
    r
}

/// Membership in the de-duplicated license list: exactly the licenses of the
/// input that are not already in `seen`.
pub proof fn lemma_dedup_membership(parts: Seq<Seq<char>>, seen: Seq<Seq<char>>, x: Seq<char>)
    ensures
        dedup_parts(parts, seen).contains(x) <==> (parts.contains(x) && !seen.contains(x)),
    decreases parts.len(),
{
    if parts.len() == 0 {
    } else {
        let rest = parts.drop_first();
        if seen.contains(parts[0]) {
            lemma_dedup_membership(rest, seen, x);
            assert(parts.contains(x) <==> (parts[0] == x || rest.contains(x))) by {
                lemma_contains_cons(parts, x);
            }
        } else {
            lemma_dedup_membership(rest, seen.push(parts[0]), x);
            let out = seq![parts[0]] + dedup_parts(rest, seen.push(parts[0]));
            assert(out.contains(x) <==> (parts[0] == x || dedup_parts(
                rest,
                seen.push(parts[0]),
            ).contains(x))) by {
                lemma_contains_cons(out, x);
                assert(out[0] == parts[0]);
                assert(out.drop_first() =~= dedup_parts(rest, seen.push(parts[0])));
            }
            assert(parts.contains(x) <==> (parts[0] == x || rest.contains(x))) by {
                lemma_contains_cons(parts, x);
            }
            assert(seen.push(parts[0]).contains(x) <==> (seen.contains(x) || parts[0] == x)) by {
                lemma_contains_snoc(seen, parts[0], x);
            }
        }
    }
}

proof fn lemma_contains_cons(s: Seq<Seq<char>>, x: Seq<char>)
    requires
        s.len() > 0,
    ensures
        s.contains(x) <==> (s[0] == x || s.drop_first().contains(x)),
{
    if s.contains(x) {
        let i = choose|i: int| 0 <= i < s.len() && s[i] == x;
        if i > 0 {
            assert(s.drop_first()[i - 1] == x);
        }
    }
    if s.drop_first().contains(x) {
        let i = choose|i: int| 0 <= i < s.drop_first().len() && s.drop_first()[i] == x;
        assert(s[i + 1] == x);
    }
}

proof fn lemma_contains_snoc(s: Seq<Seq<char>>, y: Seq<char>, x: Seq<char>)
    ensures
        s.push(y).contains(x) <==> (s.contains(x) || y == x),
{
    if s.push(y).contains(x) {
        let i = choose|i: int| 0 <= i < s.push(y).len() && s.push(y)[i] == x;
        if i < s.len() {
            assert(s[i] == x);
        }
    }
    if s.contains(x) {
        let i = choose|i: int| 0 <= i < s.len() && s[i] == x;
        assert(s.push(y)[i] == x);
    }
    assert(s.push(y)[s.len() as int] == y);
}

/// Flattening distributes over concatenation of chains.
pub proof fn lemma_flatten_concat(chain: Seq<(Seq<char>, Seq<char>)>, ext: Seq<(Seq<char>, Seq<char>)>)
    ensures
        flatten_pairs(chain + ext) == flatten_pairs(chain) + flatten_pairs(ext),
    decreases chain.len(),
{
    if chain.len() == 0 {
        assert(chain + ext =~= ext);
        assert(flatten_pairs(chain) + flatten_pairs(ext) =~= flatten_pairs(ext));
    } else {
        lemma_flatten_concat(chain.drop_first(), ext);
        assert((chain + ext).drop_first() =~= chain.drop_first() + ext);
        assert((chain + ext)[0] == chain[0]);
        assert(pair_parts(chain[0]) + (flatten_pairs(chain.drop_first()) + flatten_pairs(ext)) =~= (
        pair_parts(chain[0]) + flatten_pairs(chain.drop_first())) + flatten_pairs(ext));
    }
}

/// License inheritance: every license that appears in the effective license
/// of an ancestor chain still appears in the effective license of any
/// descendant's extension of that chain.  Together with
/// `lemma_dedup_membership` this says the effective license of a component is
/// a superset, as a conjunction, of its parent's.
pub proof fn lemma_license_inheritance(
    chain: Seq<(Seq<char>, Seq<char>)>,
    ext: Seq<(Seq<char>, Seq<char>)>,
    x: Seq<char>,
)
    requires
        effective_parts(chain).contains(x),
    ensures
        effective_parts(chain + ext).contains(x),
{
    lemma_dedup_membership(flatten_pairs(chain), Seq::empty(), x);
    lemma_flatten_concat(chain, ext);
    let i = choose|i: int|
        0 <= i < flatten_pairs(chain).len() && flatten_pairs(chain)[i] == x;
    assert(flatten_pairs(chain + ext)[i] == x);
    lemma_dedup_membership(flatten_pairs(chain + ext), Seq::empty(), x);
}

/// Resolves what a new component will declare and show: the license pair it
/// declares (requested licenses win, then the parent's declared pair, then
/// the global defaults) together with its effective license string over the
/// whole chain.  `ancestors` holds the declared pairs of every strict
/// ancestor of the new component, root first, the parent's pair last.
pub fn resolve_licenses(
    requested_source: &String,
    requested_documentation: &String,
    parent: Option<&LicensePair>,
    ancestors: &Vec<LicensePair>,
) -> (r: (LicensePair, String))
    ensures
        r.0.source@ == if requested_source@.len() > 0 {
            requested_source@
        } else if parent is Some {
            parent->0.source@
        } else {
            "Unlicense"@
        },
        r.0.documentation@ == if requested_documentation@.len() > 0 {
            requested_documentation@
        } else if parent is Some {
            parent->0.documentation@
        } else {
            "CC-BY-4.0"@
        },
        r.1@ == effective_license(pairs_view(ancestors@).push((r.0.source@, r.0.documentation@))),
{
    let pair = resolve_license_pair(requested_source, requested_documentation, parent);
    let mut chain = clone_pairs(ancestors);
    chain.push(
        LicensePair { source: pair.source.clone(), documentation: pair.documentation.clone() },
    );
    let eff = amalgamate_licenses(&chain);
    proof {
        assert(pairs_view(chain@) =~= pairs_view(ancestors@).push(
            (pair.source@, pair.documentation@),
        ));
    }
    (pair, eff)
}

/// Resolves the licenses a new component will declare: an explicitly
/// requested license wins; otherwise the parent's declared license is
/// inherited; a fresh top-level component without a parent falls back to the
/// global defaults.
pub fn resolve_license_pair(
    requested_source: &String,
    requested_documentation: &String,
    parent: Option<&LicensePair>,
) -> (r: LicensePair)
    ensures
        r.source@ == if requested_source@.len() > 0 {
            requested_source@
        } else if parent is Some {
            parent->0.source@
        } else {
            "Unlicense"@
        },
        r.documentation@ == if requested_documentation@.len() > 0 {
            requested_documentation@
        } else if parent is Some {
            parent->0.documentation@
        } else {
            "CC-BY-4.0"@
        },
{
    let source = if requested_source.as_str().unicode_len() > 0 {
        requested_source.clone()
    } else {
        match parent {
            Some(p) => p.source.clone(),
            None => String::from_str(default_source_license()),
        }
    };
    let documentation = if requested_documentation.as_str().unicode_len() > 0 {
        requested_documentation.clone()
    } else {
        match parent {
            Some(p) => p.documentation.clone(),
            None => String::from_str(default_documentation_license()),
        }
    };
    LicensePair { source, documentation }
}

} // verus!
