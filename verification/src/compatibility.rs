//! Media-type negotiation between the client's versions and the backend's.
use vstd::prelude::*;
use vstd::std_specs::cmp::PartialEqSpec;

use crate::text::{
    chars_eq, chars_of, eq_ignore_ascii_case, eq_ignore_case, find_char, first_index,
    lemma_first_index_bounds, lemma_split_nonempty, lower, split, split_exec, split_once, sub_chars,
    to_lower, trim, trimmed,
};
use crate::vocabulary::CategoryId;

verus! {

/// A media type split into its essence and its `name=value` parameters.
pub struct ParsedMediaType {
    /// The trimmed text before the first `;`.
    pub essence: Vec<char>,
    /// The trimmed names and values of the parameters, in order.
    pub parameters: Vec<(Vec<char>, Vec<char>)>,
}

/// The plain-value picture of a parsed media type.
pub type MediaTypeParts = (Seq<char>, Seq<(Seq<char>, Seq<char>)>);

impl View for ParsedMediaType {
    type V = MediaTypeParts;

    open spec fn view(&self) -> MediaTypeParts {
        (self.essence@, self.parameters@.map_values(|p: (Vec<char>, Vec<char>)| (p.0@, p.1@)))
    }
}

/// One `name=value` parameter, both sides trimmed and non-empty.
pub open spec fn parse_parameter(piece: Seq<char>) -> Option<(Seq<char>, Seq<char>)> {
    match split_once(piece, '=') {
        None => None,
        Some((n, v)) => if trim(n).len() == 0 || trim(v).len() == 0 {
            None
        } else {
            Some((trim(n), trim(v)))
        },
    }
}

/// All parameters of a media type, or `None` if one of them is malformed.
pub open spec fn parse_parameters(pieces: Seq<Seq<char>>) -> Option<Seq<(Seq<char>, Seq<char>)>>
    decreases pieces.len(),
{
    if pieces.len() == 0 {
        Some(Seq::empty())
    } else {
        match (parse_parameters(pieces.drop_last()), parse_parameter(pieces.last())) {
            (Some(ps), Some(p)) => Some(ps.push(p)),
            _ => None,
        }
    }
}

/// A media type's essence and parameters, or `None` when the essence is
/// empty or a parameter is malformed.
pub open spec fn media_type_parts(value: Seq<char>) -> Option<MediaTypeParts> {
    let pieces = split(value, ';');
    let essence = trim(pieces[0]);
    if essence.len() == 0 {
        None
    } else {
        match parse_parameters(pieces.skip(1)) {
            Some(ps) => Some((essence, ps)),
            None => None,
        }
    }
}

/// Whether a parameter name is `charset`, in any case.
pub open spec fn is_charset(name: Seq<char>) -> bool {
    eq_ignore_case(name, "charset"@)
}

/// The parameters that identify a representation, as compared: every
/// parameter other than `charset`, with its name folded to lowercase and its
/// value as written, in order.
pub open spec fn semantic_parameters(ps: Seq<(Seq<char>, Seq<char>)>) -> Seq<(Seq<char>, Seq<char>)>
    decreases ps.len(),
{
    if ps.len() == 0 {
        Seq::empty()
    } else if is_charset(ps.last().0) {
        semantic_parameters(ps.drop_last())
    } else {
        semantic_parameters(ps.drop_last()).push((lower(ps.last().0), ps.last().1))
    }
}

/// Whether a candidate media type identifies the same representation as an
/// expected one: both parse, their essences are equal ignoring ASCII case,
/// and their parameters other than `charset` are equal as multisets, names
/// compared ignoring ASCII case and values exactly.
pub open spec fn media_types_match_spec(expected: Seq<char>, candidate: Seq<char>) -> bool {
    match (media_type_parts(expected), media_type_parts(candidate)) {
        (Some(e), Some(c)) => {
            &&& eq_ignore_case(e.0, c.0)
            &&& semantic_parameters(e.1).to_multiset() == semantic_parameters(c.1).to_multiset()
        },
        _ => false,
    }
}

/// Splits a media type into its essence and parameters.
pub fn parse_media_type(value: &str) -> (r: Option<ParsedMediaType>)
    ensures
        match r {
            Some(p) => media_type_parts(value@) == Some(p@),
            None => media_type_parts(value@) is None,
        },
{
    let cs = chars_of(value);
    let pieces = split_exec(cs.as_slice(), ';');
    proof {
        lemma_split_nonempty(cs@, ';');
    }
    let ghost sp = split(cs@, ';');
    let essence = trimmed(pieces[0].as_slice());
    if essence.len() == 0 {
        return None;
    }
    let mut parameters: Vec<(Vec<char>, Vec<char>)> = Vec::new();
    let mut i: usize = 1;
    assert(sp.subrange(1, 1) =~= Seq::<Seq<char>>::empty());
    while i < pieces.len()
        invariant
            1 <= i <= pieces.len(),
            sp == split(value@, ';'),
            sp.len() >= 1,
            trim(sp[0]).len() > 0,
            essence@ == trim(sp[0]),
            pieces@.len() == sp.len(),
            forall|k: int| 0 <= k < pieces@.len() ==> #[trigger] pieces@[k]@ == sp[k],
            parse_parameters(sp.subrange(1, i as int)) == Some(
                parameters@.map_values(|p: (Vec<char>, Vec<char>)| (p.0@, p.1@)),
            ),
        decreases pieces.len() - i,
    {
        let piece = &pieces[i];
        assert(sp.subrange(1, i + 1).drop_last() =~= sp.subrange(1, i as int));
        assert(sp.subrange(1, i + 1).last() == piece@);
        proof {
            lemma_first_index_bounds(piece@, '=');
        }
        let cut = match find_char(piece.as_slice(), '=') {
            Some(k) => k,
            None => {
                assert(parse_parameters(sp.subrange(1, i + 1)) is None);
                proof {
                    assert(sp.skip(1).take(i as int) =~= sp.subrange(1, i + 1));
                    lemma_parameters_failure_persists(sp.skip(1), i as int);
                }
                return None;
            },
        };
        let name = sub_chars(piece.as_slice(), 0, cut);
        let val = sub_chars(piece.as_slice(), cut + 1, piece.len());
        let tn = trimmed(name.as_slice());
        let tv = trimmed(val.as_slice());
        assert(split_once(piece@, '=') == Some((name@, val@)));
        if tn.len() == 0 || tv.len() == 0 {
            assert(parse_parameters(sp.subrange(1, i + 1)) is None);
            proof {
                assert(sp.skip(1).take(i as int) =~= sp.subrange(1, i + 1));
                lemma_parameters_failure_persists(sp.skip(1), i as int);
            }
            return None;
        }
        let ghost before = parameters@;
        parameters.push((tn, tv));
        assert(parameters@.map_values(|p: (Vec<char>, Vec<char>)| (p.0@, p.1@)) =~= before.map_values(
            |p: (Vec<char>, Vec<char>)| (p.0@, p.1@),
        ).push((trim(name@), trim(val@))));
        i += 1;
    }
    assert(sp.subrange(1, sp.len() as int) =~= sp.skip(1));
    Some(ParsedMediaType { essence, parameters })
}

/// Once a prefix of the parameters is malformed, so is the whole list.
proof fn lemma_parameters_failure_persists(pieces: Seq<Seq<char>>, n: int)
    requires
        0 <= n <= pieces.len(),
        parse_parameters(pieces.take(n)) is None,
    ensures
        parse_parameters(pieces) is None,
    decreases pieces.len() - n,
{
    if n < pieces.len() {
        assert(pieces.take(n + 1).drop_last() =~= pieces.take(n));
        lemma_parameters_failure_persists(pieces, n + 1);
    } else {
        assert(pieces.take(n) =~= pieces);
    }
}

fn is_charset_exec(name: &Vec<char>) -> (r: bool)
    ensures
        r == is_charset(name@),
{
    let charset = chars_of("charset");
    eq_ignore_ascii_case(name.as_slice(), charset.as_slice())
}

/// The views of a list of parameters.
pub open spec fn parameters_view(ps: Seq<(Vec<char>, Vec<char>)>) -> Seq<(Seq<char>, Seq<char>)> {
    ps.map_values(|p: (Vec<char>, Vec<char>)| (p.0@, p.1@))
}

fn semantic_parameters_exec(ps: &Vec<(Vec<char>, Vec<char>)>) -> (r: Vec<(Vec<char>, Vec<char>)>)
    ensures
        parameters_view(r@) == semantic_parameters(parameters_view(ps@)),
{
    let ghost view = parameters_view(ps@);
    let mut out: Vec<(Vec<char>, Vec<char>)> = Vec::new();
    let mut i: usize = 0;
    while i < ps.len()
        invariant
            i <= ps.len(),
            view == parameters_view(ps@),
            parameters_view(out@) == semantic_parameters(view.take(i as int)),
        decreases ps.len() - i,
    {
        assert(view.take(i + 1).drop_last() =~= view.take(i as int));
        assert(view.take(i + 1).last() == view[i as int]);
        if !is_charset_exec(&ps[i].0) {
            let ghost before = parameters_view(out@);
            let name = to_lower(ps[i].0.as_slice());
            let value = copy_chars(ps[i].1.as_slice());
            out.push((name, value));
            assert(parameters_view(out@) =~= before.push((lower(view[i as int].0), view[i as int].1)));
        }
        i += 1;
    }
    assert(view.take(ps.len() as int) =~= view);
    out
}

fn copy_chars(s: &[char]) -> (r: Vec<char>)
    ensures
        r@ == s@,
{
    let mut out: Vec<char> = Vec::new();
    let mut i: usize = 0;
    while i < s.len()
        invariant
            i <= s.len(),
            out@ == s@.take(i as int),
        decreases s.len() - i,
    {
        out.push(s[i]);
        i += 1;
        assert(out@ =~= s@.take(i as int));
    }
    assert(s@.take(s.len() as int) =~= s@);
    out
}

/// Whether two parameter lists hold the same parameters, each as often.
fn same_parameters(a: &Vec<(Vec<char>, Vec<char>)>, b: Vec<(Vec<char>, Vec<char>)>) -> (r: bool)
    ensures
        r == (parameters_view(a@).to_multiset() == parameters_view(b@).to_multiset()),
{
    broadcast use vstd::seq_lib::group_to_multiset_ensures;
    broadcast use vstd::multiset::group_multiset_axioms;

    let ghost av = parameters_view(a@);
    let ghost bv = parameters_view(b@);
    let mut rest = b;
    let mut i: usize = 0;
    while i < a.len()
        invariant
            i <= a.len(),
            av == parameters_view(a@),
            bv == parameters_view(b@),
            bv.to_multiset() == av.take(i as int).to_multiset().add(
                parameters_view(rest@).to_multiset(),
            ),
        decreases a.len() - i,
    {
        let ghost rv = parameters_view(rest@);
        let ghost x = av[i as int];
        let mut j: usize = 0;
        let mut found = false;
        while j < rest.len()
            invariant_except_break
                !found,
                forall|k: int| 0 <= k < j ==> #[trigger] rv[k] != x,
            invariant
                j <= rest.len(),
                rv == parameters_view(rest@),
                av == parameters_view(a@),
                i < a.len(),
                x == av[i as int],
            ensures
                found ==> j < rest.len() && rv[j as int] == x,
                !found ==> forall|k: int| 0 <= k < rest.len() ==> #[trigger] rv[k] != x,
            decreases rest.len() - j,
        {
            if chars_eq(rest[j].0.as_slice(), a[i].0.as_slice()) && chars_eq(
                rest[j].1.as_slice(),
                a[i].1.as_slice(),
            ) {
                assert(rv[j as int] == x);
                found = true;
                break;
            }
            assert(rv[j as int] != x);
            j += 1;
        }
        if !found {
            proof {
                assert(!rv.contains(x)) by {
                    if rv.contains(x) {
                        let k = choose|k: int| 0 <= k < rv.len() && rv[k] == x;
                        assert(rv[k] != x);
                    }
                }
                vstd::seq_lib::to_multiset_contains(rv, x);
                assert(rv.to_multiset().count(x) == 0);
                let t = av.take(i as int);
                let u = av.skip(i as int);
                assert(av =~= t + u);
                vstd::seq_lib::lemma_multiset_commutative(t, u);
                assert(u.contains(x)) by {
                    assert(u[0] == x);
                }
                vstd::seq_lib::to_multiset_contains(u, x);
                assert(u.to_multiset().count(x) > 0);
                assert(av.to_multiset().count(x) > bv.to_multiset().count(x));
            }
            return false;
        }
        let ghost old_rest = rest@;
        rest.remove(j);
        proof {
            assert(parameters_view(rest@) =~= rv.remove(j as int));
            assert(av.take(i + 1) =~= av.take(i as int).push(x));
            vstd::seq_lib::to_multiset_build(av.take(i as int), x);
            vstd::seq_lib::to_multiset_remove(rv, j as int);
            assert(rv[j as int] == x);
            assert(rv.to_multiset().count(x) > 0) by {
                assert(rv.contains(x));
                vstd::seq_lib::to_multiset_contains(rv, x);
            }
            assert(bv.to_multiset() =~= av.take(i + 1).to_multiset().add(
                parameters_view(rest@).to_multiset(),
            ));
        }
        i += 1;
    }
    assert(av.take(a.len() as int) =~= av);
    if rest.len() == 0 {
        assert(parameters_view(rest@) =~= Seq::<(Seq<char>, Seq<char>)>::empty());
        assert(bv.to_multiset() =~= av.to_multiset());
        true
    } else {
        assert(bv.to_multiset().len() > av.to_multiset().len());
        false
    }
}

/// Reports whether a candidate media type identifies the same representation
/// as an expected one, comparing the essence case-insensitively and every
/// parameter except `charset` by name and value, independently of order and
/// formatting.
pub fn media_types_match(expected: &str, candidate: &str) -> (r: bool)
    ensures
        r == media_types_match_spec(expected@, candidate@),
{
    let e = match parse_media_type(expected) {
        Some(p) => p,
        None => return false,
    };
    let c = match parse_media_type(candidate) {
        Some(p) => p,
        None => return false,
    };
    if !eq_ignore_ascii_case(e.essence.as_slice(), c.essence.as_slice()) {
        return false;
    }
    let ep = semantic_parameters_exec(&e.parameters);
    let cp = semantic_parameters_exec(&c.parameters);
    same_parameters(&ep, cp)
}

/// A media type that parses identifies its own representation.
pub proof fn media_types_match_reflexive(value: Seq<char>)
    requires
        media_type_parts(value) is Some,
    ensures
        media_types_match_spec(value, value),
{
}

/// Describes media-type versions that can participate in content negotiation.
///
/// [`negotiate`] selects between the caller's preferred versions and the
/// representations advertised by the server.
pub trait MediaVersionNegotiation: Sized + Copy + PartialEq {
    /// The media type identifying a version; every implementation in this
    /// crate states it, others leave it unspecified.
    open spec fn spec_media_type(self) -> Seq<char> {
        arbitrary()
    }

    /// The versions this client supports, most preferred first; every
    /// implementation in this crate states them, others leave them unspecified.
    open spec fn spec_supported() -> Seq<Self> {
        arbitrary()
    }

    /// Returns the media-type versions supported by this client.
    fn supported() -> (r: Vec<Self>)
        ensures
            r@ == Self::spec_supported(),
    ;

    /// Returns the media type identifying this version.
    fn media_type(self) -> (r: &'static str)
        ensures
            r@ == self.spec_media_type(),
    ;

    /// Reports whether a media type identifies this version.
    fn matches_media_type(self, candidate: &str) -> (r: bool)
        ensures
            r == media_types_match_spec(self.spec_media_type(), candidate@),
    {
        media_types_match(self.media_type(), candidate)
    }
}

/// Finds the first supported version identified by a media type.
pub fn from_media_type<V: MediaVersionNegotiation>(media_type: &str) -> (r: Option<V>)
    ensures
        r == version_for::<V>(V::spec_supported(), media_type@),
{
    let supported = V::supported();
    let mut i: usize = 0;
    while i < supported.len()
        invariant
            i <= supported.len(),
            supported@ == V::spec_supported(),
            forall|j: int|
                0 <= j < i ==> !media_types_match_spec(
                    (#[trigger] supported@[j]).spec_media_type(),
                    media_type@,
                ),
        decreases supported.len() - i,
    {
        let version = supported[i];
        if version.matches_media_type(media_type) {
            assert(is_first_version(supported@, media_type@, i as int));
            proof {
                let k = choose|k: int| is_first_version(supported@, media_type@, k);
                assert(k == i as int);
            }
            return Some(version);
        }
        i += 1;
    }
    None
}

/// Selects this client's preferred version accepted by the backend.
pub fn negotiate_accepted<V: MediaVersionNegotiation>(accepted: &[String]) -> (r: Result<V, CompatibilityError>)
    ensures
        V::obeys_eq_spec() ==> negotiated(V::spec_supported(), accepted@, r),
{
    let supported = V::supported();
    negotiate(supported.as_slice(), accepted)
}

/// Whether the first supported version that a media type identifies is at `k`.
pub open spec fn is_first_version<V: MediaVersionNegotiation>(
    supported: Seq<V>,
    media_type: Seq<char>,
    k: int,
) -> bool {
    &&& 0 <= k < supported.len()
    &&& media_types_match_spec(supported[k].spec_media_type(), media_type)
    &&& forall|j: int|
        0 <= j < k ==> !media_types_match_spec(
            (#[trigger] supported[j]).spec_media_type(),
            media_type,
        )
}

/// The first supported version that a media type identifies.
pub open spec fn version_for<V: MediaVersionNegotiation>(supported: Seq<V>, media_type: Seq<char>) -> Option<V> {
    if exists|k: int| is_first_version(supported, media_type, k) {
        Some(supported[choose|k: int| is_first_version(supported, media_type, k)])
    } else {
        None
    }
}

/// Whether some accepted media type identifies a version equal to `v`.
pub open spec fn is_candidate<V: MediaVersionNegotiation>(
    supported: Seq<V>,
    accepted: Seq<String>,
    v: V,
) -> bool {
    exists|i: int|
        0 <= i < accepted.len() && (version_for::<V>(supported, #[trigger] accepted[i]@) matches Some(
            c,
        ) && v.eq_spec(&c))
}

/// The outcome of negotiating `preferred` versions against accepted media
/// types: the first preferred version that an accepted media type
/// identifies, or an error listing both sides when there is none.
pub open spec fn negotiated_from<V: MediaVersionNegotiation>(
    supported: Seq<V>,
    preferred: Seq<V>,
    accepted: Seq<String>,
    r: Result<V, CompatibilityError>,
) -> bool {
    match r {
        Ok(v) => exists|k: int|
            0 <= k < preferred.len() && preferred[k] == v && is_candidate(supported, accepted, v)
                && forall|j: int|
                0 <= j < k ==> !is_candidate(supported, accepted, #[trigger] preferred[j]),
        Err(CompatibilityError::NoCompatibleMediaType { preferred: p, accepted: a }) => {
            &&& forall|k: int|
                0 <= k < preferred.len() ==> !is_candidate(supported, accepted, #[trigger] preferred[k])
            &&& p@.len() == preferred.len()
            &&& forall|k: int| 0 <= k < p@.len() ==> #[trigger] p@[k]@ == preferred[k].spec_media_type()
            &&& a@ == accepted
        },
        Err(_) => false,
    }
}

/// Negotiation of a version type's own supported versions.
pub open spec fn negotiated<V: MediaVersionNegotiation>(
    supported: Seq<V>,
    accepted: Seq<String>,
    r: Result<V, CompatibilityError>,
) -> bool {
    negotiated_from(supported, supported, accepted, r)
}

/// An error establishing protocol compatibility with an ADT backend.
#[derive(Debug)]
pub enum CompatibilityError {
    /// Central discovery did not advertise a required collection.
    MissingCollection(CategoryId),
    /// The client and backend have no mutually supported media type.
    NoCompatibleMediaType { preferred: Vec<String>, accepted: Vec<String> },
}

fn copy_strings(v: &[String]) -> (r: Vec<String>)
    ensures
        r@ == v@,
{
    let mut out: Vec<String> = Vec::new();
    let mut i: usize = 0;
    while i < v.len()
        invariant
            i <= v.len(),
            out@ == v@.take(i as int),
        decreases v.len() - i,
    {
        out.push(v[i].clone());
        i += 1;
        assert(out@ =~= v@.take(i as int));
    }
    assert(v@.take(v.len() as int) =~= v@);
    out
}

/// Finds the first preferred media type accepted by the backend.
pub fn negotiate<V: MediaVersionNegotiation>(preferred: &[V], accepted: &[String]) -> (r: Result<
    V,
    CompatibilityError,
>)
    ensures
        V::obeys_eq_spec() ==> negotiated_from(V::spec_supported(), preferred@, accepted@, r),
{
    let ghost supported = V::spec_supported();
    let mut candidates: Vec<V> = Vec::new();
    let mut i: usize = 0;
    while i < accepted.len()
        invariant
            i <= accepted.len(),
            supported == V::spec_supported(),
            forall|c: V|
                #![trigger candidates@.contains(c)]
                candidates@.contains(c) <==> exists|j: int|
                    0 <= j < i && version_for::<V>(supported, #[trigger] accepted@[j]@) == Some(c),
        decreases accepted.len() - i,
    {
        let found = from_media_type::<V>(accepted[i].as_str());
        let ghost before = candidates@;
        match found {
            Some(c) => {
                candidates.push(c);
                assert forall|d: V| #[trigger] candidates@.contains(d) <==> exists|j: int|
                    0 <= j < i + 1 && version_for::<V>(supported, #[trigger] accepted@[j]@) == Some(d) by {
                    if candidates@.contains(d) {
                        let w = choose|w: int| 0 <= w < candidates@.len() && candidates@[w] == d;
                        if w < before.len() {
                            assert(before.contains(d));
                        } else {
                            assert(version_for::<V>(supported, accepted@[i as int]@) == Some(d));
                        }
                    }
                    if exists|j: int| 0 <= j < i + 1 && version_for::<V>(supported, #[trigger] accepted@[j]@) == Some(d) {
                        let j = choose|j: int| 0 <= j < i + 1 && version_for::<V>(supported, #[trigger] accepted@[j]@) == Some(d);
                        if j < i {
                            assert(before.contains(d));
                            let w = choose|w: int| 0 <= w < before.len() && before[w] == d;
                            assert(candidates@[w] == d);
                        } else {
                            assert(candidates@[before.len() as int] == d);
                        }
                    }
                }
            },
            None => {
                assert forall|d: V| #[trigger] candidates@.contains(d) <==> exists|j: int|
                    0 <= j < i + 1 && version_for::<V>(supported, #[trigger] accepted@[j]@) == Some(d) by {
                    if exists|j: int| 0 <= j < i + 1 && version_for::<V>(supported, #[trigger] accepted@[j]@) == Some(d) {
                        let j = choose|j: int| 0 <= j < i + 1 && version_for::<V>(supported, #[trigger] accepted@[j]@) == Some(d);
                        assert(j < i);
                    }
                }
            },
        }
        i += 1;
    }
    let mut k: usize = 0;
    while k < preferred.len()
        invariant
            k <= preferred.len(),
            supported == V::spec_supported(),
            forall|c: V|
                #![trigger candidates@.contains(c)]
                candidates@.contains(c) <==> exists|j: int|
                    0 <= j < accepted@.len() && version_for::<V>(supported, #[trigger] accepted@[j]@)
                        == Some(c),
            V::obeys_eq_spec() ==> forall|j: int|
                0 <= j < k ==> !is_candidate(supported, accepted@, #[trigger] preferred@[j]),
        decreases preferred.len() - k,
    {
        let p = preferred[k];
        let mut m: usize = 0;
        let mut hit = false;
        while m < candidates.len()
            invariant
                m <= candidates.len(),
                V::obeys_eq_spec() ==> (hit <==> exists|w: int|
                    0 <= w < m && p.eq_spec(&#[trigger] candidates@[w])),
            decreases candidates.len() - m,
        {
            if p.eq(&candidates[m]) {
                hit = true;
            }
            m += 1;
        }
        proof {
            if V::obeys_eq_spec() {
                if hit {
                    let w = choose|w: int| 0 <= w < candidates@.len() && p.eq_spec(&#[trigger] candidates@[w]);
                    assert(candidates@.contains(candidates@[w]));
                    let j = choose|j: int| 0 <= j < accepted@.len() && version_for::<V>(supported, #[trigger] accepted@[j]@) == Some(candidates@[w]);
                    assert(is_candidate(supported, accepted@, p));
                } else {
                    if is_candidate(supported, accepted@, p) {
                        let j = choose|j: int| 0 <= j < accepted@.len() && (version_for::<V>(supported, #[trigger] accepted@[j]@) matches Some(c) && p.eq_spec(&c));
                        let c = version_for::<V>(supported, accepted@[j]@)->Some_0;
                        assert(candidates@.contains(c));
                        let w = choose|w: int| 0 <= w < candidates@.len() && candidates@[w] == c;
                        assert(p.eq_spec(&candidates@[w]));
                    }
                }
            }
        }
        if hit {
            return Ok(p);
        }
        k += 1;
    }
    let mut names: Vec<String> = Vec::new();
    let mut n: usize = 0;
    while n < preferred.len()
        invariant
            n <= preferred.len(),
            names@.len() == n,
            forall|j: int| 0 <= j < n ==> #[trigger] names@[j]@ == preferred@[j].spec_media_type(),
        decreases preferred.len() - n,
    {
        names.push(preferred[n].media_type().to_owned());
        n += 1;
    }
    Err(CompatibilityError::NoCompatibleMediaType { preferred: names, accepted: copy_strings(accepted) })
}

} // verus!
