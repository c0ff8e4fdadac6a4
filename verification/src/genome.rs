//! The genome data model: contigs, build identifiers and the sorted,
//! name-queryable genome build.

use vstd::prelude::*;

use crate::length::ContigLength;
use crate::text::{lemma_lex_le_total, lemma_lex_le_trans, lex_le, str_eq, str_le};

verus! {

/// Mathematical model of a [`Contig`]: the name and alternate names as
/// character sequences and the length as an integer.
pub ghost struct ContigView {
    pub name: Seq<char>,
    pub alt_names: Seq<Seq<char>>,
    pub length: int,
}

/// One sequence (chromosome, scaffold, mitochondrial sequence) of a genome
/// build: a canonical name, zero or more alternate identifiers in insertion
/// order, and a length in base pairs.
///
/// `C` is the numeric type holding the number of base pairs. A contig's
/// length is never negative: construction rejects a negative value.
#[derive(Debug, Clone, PartialEq, Eq, Hash)]
pub struct Contig<C> {
    name: String,
    alt_names: Vec<String>,
    length: C,
}

impl<C: ContigLength> View for Contig<C> {
    type V = ContigView;

    closed spec fn view(&self) -> ContigView {
        ContigView {
            name: self.name@,
            alt_names: self.alt_names.deep_view(),
            length: self.length.as_int(),
        }
    }
}

/// Whether `query` equals the contig's name or one of its alternate names.
pub open spec fn contig_matches<C: ContigLength>(c: Contig<C>, query: Seq<char>) -> bool {
    ||| c@.name == query
    ||| exists|k: int| 0 <= k < c@.alt_names.len() && c@.alt_names[k] == query
}

impl<C: ContigLength> Contig<C> {
    /// Build a contig from its name, its alternate names in order, and its
    /// length; rejects a negative length and accepts everything else.
    pub fn new(name: &str, alt_names: &[&str], length: C) -> (r: Option<Self>)
        ensures
            r is Some <==> length.as_int() >= 0,
            r is Some ==> r->Some_0@.name == name@,
            r is Some ==> r->Some_0@.alt_names == alt_names@.map_values(|s: &str| s@),
            r is Some ==> r->Some_0@.length == length.as_int(),
    {
        if length.is_negative() {
            None
        } else {
            let mut alts: Vec<String> = Vec::new();
            let mut i: usize = 0;
            while i < alt_names.len()
                invariant
                    i <= alt_names.len(),
                    alts@.len() == i,
                    alts.deep_view() =~= alt_names@.take(i as int).map_values(|s: &str| s@),
                decreases alt_names.len() - i,
            {
                let ghost prev = alts@;
                let ghost pre = alts.deep_view();
                alts.push(alt_names[i].to_owned());
                proof {
                    let target = alt_names@.take(i + 1).map_values(|s: &str| s@);
                    assert forall|t: int| 0 <= t < i + 1 implies #[trigger] alts.deep_view()[t]
                        == target[t] by {
                        assert(target[t] == alt_names@[t]@);
                        if t < i {
                            assert(alts@[t] == prev[t]);
                            assert(alts.deep_view()[t] == pre[t]);
                        } else {
                            assert(alts@[t]@ == alt_names@[i as int]@);
                        }
                    }
                    assert(alts.deep_view() =~= target);
                }
                i += 1;
            }
            let c = Contig { name: name.to_owned(), alt_names: alts, length };
            proof {
                assert(alt_names@.take(alt_names@.len() as int) =~= alt_names@);
                assert(c@.alt_names =~= alt_names@.map_values(|s: &str| s@));
            }
            Some(c)
        }
    }

    /// The canonical name, for instance `"1"`, `"X"` or `"MT"`.
    pub fn name(&self) -> (r: &str)
        ensures
            r@ == self@.name,
    {
        self.name.as_str()
    }

    /// The alternate identifiers, in the order they were given at
    /// construction.
    pub fn alt_names(&self) -> (r: &Vec<String>)
        ensures
            r.deep_view() == self@.alt_names,
    {
        &self.alt_names
    }

    /// The number of base pairs.
    pub fn length(&self) -> (r: &C)
        ensures
            r.as_int() == self@.length,
    {
        &self.length
    }

    /// Map a coordinate on the forward strand to the equivalent coordinate
    /// measured from the opposite strand: the checked difference
    /// `length - other`.
    ///
    /// For a type without negative values the result is `None` exactly when
    /// `other` exceeds the length; whenever `0 <= other <= length` the
    /// result is the exact difference.
    pub fn transpose_coordinate(&self, other: &C) -> (r: Option<C>)
        ensures
            r is Some <==> C::spec_min() <= self@.length - other.as_int() <= C::spec_max(),
            r is Some ==> r->Some_0.as_int() == self@.length - other.as_int(),
            C::spec_min() == 0 && other.as_int() > self@.length ==> r is None,
            0 <= other.as_int() <= self@.length ==> r is Some,
    {
        proof {
            self.length.lemma_bounds();
            other.lemma_bounds();
        }
        self.length.checked_sub(other)
    }

    /// Whether `query` is the contig's name or one of its alternate names.
    pub fn matches_name(&self, query: &str) -> (r: bool)
        ensures
            r == contig_matches(*self, query@),
    {
        if str_eq(self.name.as_str(), query) {
            return true;
        }
        let mut k: usize = 0;
        while k < self.alt_names.len()
            invariant
                k <= self.alt_names.len(),
                forall|t: int| 0 <= t < k ==> self@.alt_names[t] != query@,
            decreases self.alt_names.len() - k,
        {
            if str_eq(self.alt_names[k].as_str(), query) {
                proof {
                    assert(self@.alt_names[k as int] == query@);
                }
                return true;
            }
            k += 1;
        }
        false
    }
}

/// Mathematical model of a [`GenomeBuildIdentifier`].
pub ghost struct GenomeBuildIdentifierView {
    pub major_assembly: Seq<char>,
    pub patch: Option<Seq<char>>,
}

/// Identifies a genome build: a major assembly name such as `"GRCh38"` and,
/// when known, a patch such as `"p13"`.
#[derive(Debug, Clone, PartialEq, Eq, Hash)]
pub struct GenomeBuildIdentifier {
    major_assembly: String,
    patch: Option<String>,
}

impl View for GenomeBuildIdentifier {
    type V = GenomeBuildIdentifierView;

    closed spec fn view(&self) -> GenomeBuildIdentifierView {
        GenomeBuildIdentifierView {
            major_assembly: self.major_assembly@,
            patch: match self.patch {
                Some(p) => Some(p@),
                None => None,
            },
        }
    }
}

impl GenomeBuildIdentifier {
    /// Build an identifier from a single assembly name; no patch information
    /// is recorded.
    pub fn new(major_assembly: &str) -> (r: Self)
        ensures
            r@.major_assembly == major_assembly@,
            r@.patch is None,
    {
        GenomeBuildIdentifier { major_assembly: major_assembly.to_owned(), patch: None }
    }

    /// Build an identifier from an assembly name and a patch name.
    pub fn with_patch(major_assembly: &str, patch: &str) -> (r: Self)
        ensures
            r@.major_assembly == major_assembly@,
            r@.patch == Some(patch@),
    {
        GenomeBuildIdentifier {
            major_assembly: major_assembly.to_owned(),
            patch: Some(patch.to_owned()),
        }
    }

    /// The major assembly name.
    pub fn major_assembly(&self) -> (r: &str)
        ensures
            r@ == self@.major_assembly,
    {
        self.major_assembly.as_str()
    }

    /// The patch name, or `None` when the identifier was built without patch
    /// information.
    pub fn patch(&self) -> (r: Option<&str>)
        ensures
            r is Some <==> self@.patch is Some,
            r is Some ==> r->Some_0@ == self@.patch->Some_0,
    {
        match &self.patch {
            Some(p) => Some(p.as_str()),
            None => None,
        }
    }
}

/// The models of the contigs of `s`, element by element.
pub open spec fn contig_views<C: ContigLength>(s: Seq<Contig<C>>) -> Seq<ContigView> {
    s.map_values(|c: Contig<C>| c@)
}

/// Whether the contigs of `s` stand in ascending lexicographic order of
/// their names. Equal names may stand in any relative order.
pub open spec fn sorted_by_name<C: ContigLength>(s: Seq<Contig<C>>) -> bool {
    forall|a: int, b: int|
        #![trigger s[a], s[b]]
        0 <= a < b < s.len() ==> lex_le(s[a]@.name, s[b]@.name)
}

/// Sort contigs in place into ascending lexicographic order of their names,
/// keeping exactly the same collection of contigs. A list that is already
/// sorted comes out unchanged.
fn sort_contigs<C: ContigLength>(v: &mut Vec<Contig<C>>)
    ensures
        sorted_by_name(final(v)@),
        final(v)@.to_multiset() == old(v)@.to_multiset(),
        contig_views(final(v)@).to_multiset() == contig_views(old(v)@).to_multiset(),
        sorted_by_name(old(v)@) ==> final(v)@ == old(v)@,
{
    let ghost orig = v@;
    let n = v.len();
    if n <= 1 {
        return ;
    }
    let mut i: usize = 1;
    while i < n
        invariant
            1 <= i <= n,
            v@.len() == n,
            sorted_by_name(v@.take(i as int)),
            v@.to_multiset() == orig.to_multiset(),
            contig_views(v@).to_multiset() == contig_views(orig).to_multiset(),
            sorted_by_name(orig) ==> v@ == orig,
        decreases n - i,
    {
        let mut j: usize = 0;
        loop
            invariant
                j <= i,
                i < n,
                v@.len() == n,
                forall|k: int| 0 <= k < j ==> lex_le(#[trigger] v@[k]@.name, v@[i as int]@.name),
            ensures
                j <= i,
                forall|k: int| 0 <= k < j ==> lex_le(#[trigger] v@[k]@.name, v@[i as int]@.name),
                j == i || !lex_le(v@[j as int]@.name, v@[i as int]@.name),
            decreases i - j,
        {
            if j == i {
                break ;
            }
            if !str_le(v[j].name.as_str(), v[i].name.as_str()) {
                break ;
            }
            j += 1;
        }
        if j < i {
            proof {
                if sorted_by_name(orig) {
                    assert(v@[j as int] == orig[j as int] && v@[i as int] == orig[i as int]);
                    assert(lex_le(v@[j as int]@.name, v@[i as int]@.name));
                }
            }
            let ghost before = v@;
            let x = v.remove(i);
            let ghost mid = v@;
            v.insert(j, x);
            proof {
                broadcast use vstd::seq_lib::group_to_multiset_ensures;

                let xc = before[i as int];
                assert(mid =~= before.remove(i as int));
                assert(v@ =~= mid.insert(j as int, xc));
                lemma_remove_insert_multiset(before, i as int, j as int);
                lemma_remove_insert_views(before, i as int, j as int);
                // Positions of the new arrangement relative to `before`.
                assert forall|t: int| 0 <= t < j implies v@[t] == before[t] by {}
                assert(v@[j as int] == xc);
                assert forall|t: int| j < t <= i implies v@[t] == before[t - 1] by {
                    assert(v@[t] == mid[t - 1]);
                }
                // The moved contig goes before every strictly larger name.
                let xn = xc@.name;
                lemma_lex_le_total(before[j as int]@.name, xn);
                assert forall|a: int, b: int| 0 <= a < b < i + 1 implies lex_le(
                    v@[a]@.name,
                    v@[b]@.name,
                ) by {
                    assert(forall|k: int|
                        0 <= k < i ==> before.take(i as int)[k] == #[trigger] before[k]);
                    if b < j {
                        assert(lex_le(before[a]@.name, before[b]@.name));
                    } else if b == j {
                        assert(lex_le(before[a]@.name, xn));
                    } else if a < j {
                        assert(lex_le(before[a]@.name, before[b - 1]@.name));
                    } else if a == j {
                        if b - 1 > j {
                            lemma_lex_le_trans(xn, before[j as int]@.name, before[b - 1]@.name);
                        }
                    } else {
                        assert(lex_le(before[a - 1]@.name, before[b - 1]@.name));
                    }
                }
                assert(forall|a: int, b: int|
                    0 <= a < b < i + 1 ==> lex_le(
                        #[trigger] v@.take(i + 1)[a]@.name,
                        #[trigger] v@.take(i + 1)[b]@.name,
                    ));
                assert(sorted_by_name(v@.take(i + 1)));
            }
        } else {
            proof {
                assert forall|a: int, b: int| 0 <= a < b < i + 1 implies lex_le(
                    v@[a]@.name,
                    v@[b]@.name,
                ) by {
                    if b < i {
                        assert(v@.take(i as int)[a] == v@[a] && v@.take(i as int)[b] == v@[b]);
                    }
                }
                assert(forall|a: int, b: int|
                    0 <= a < b < i + 1 ==> lex_le(
                        #[trigger] v@.take(i + 1)[a]@.name,
                        #[trigger] v@.take(i + 1)[b]@.name,
                    ));
            }
        }
        i += 1;
    }
    proof {
        assert(v@.take(n as int) =~= v@);
    }
}

/// Removing the contig at `i` and reinserting it at `j` leaves the multiset
/// of contigs unchanged.
proof fn lemma_remove_insert_multiset<A>(s: Seq<A>, i: int, j: int)
    requires
        0 <= i < s.len(),
        0 <= j <= s.len() - 1,
    ensures
        s.remove(i).insert(j, s[i]).to_multiset() == s.to_multiset(),
{
    broadcast use vstd::seq_lib::group_to_multiset_ensures;
    broadcast use vstd::multiset::group_multiset_axioms;

    let x = s[i];
    assert(s.remove(i).to_multiset() == s.to_multiset().remove(x));
    assert(s.remove(i).insert(j, x).to_multiset() == s.to_multiset().remove(x).insert(x));
    assert(s.contains(x));
    assert(s.to_multiset().count(x) > 0);
    assert(s.to_multiset().remove(x).insert(x) =~= s.to_multiset());
}

/// The same rearrangement leaves the multiset of contig models unchanged.
proof fn lemma_remove_insert_views<C: ContigLength>(s: Seq<Contig<C>>, i: int, j: int)
    requires
        0 <= i < s.len(),
        0 <= j <= s.len() - 1,
    ensures
        contig_views(s.remove(i).insert(j, s[i])).to_multiset() == contig_views(s).to_multiset(),
{
    broadcast use vstd::seq_lib::group_to_multiset_ensures;
    broadcast use vstd::multiset::group_multiset_axioms;

    let x = s[i];
    assert(contig_views(s.remove(i)) =~= contig_views(s).remove(i));
    assert(contig_views(s.remove(i).insert(j, x)) =~= contig_views(s.remove(i)).insert(j, x@));
    assert(contig_views(s).remove(i).to_multiset() == contig_views(s).to_multiset().remove(
        contig_views(s)[i],
    ));
    assert(contig_views(s).remove(i).insert(j, x@).to_multiset() == contig_views(
        s,
    ).remove(i).to_multiset().insert(x@));
    assert(contig_views(s).contains(x@));
    assert(contig_views(s).to_multiset().count(x@) > 0);
    assert(contig_views(s).to_multiset().remove(x@).insert(x@) =~= contig_views(s).to_multiset());
}

/// A genome build: its identifier and its contigs, held in ascending
/// lexicographic order of contig name.
#[derive(Debug, Clone, PartialEq, Eq)]
pub struct GenomeBuild<C> {
    id: GenomeBuildIdentifier,
    contigs: Vec<Contig<C>>,
}

impl<C: ContigLength> GenomeBuild<C> {
    /// The model of the build's identifier.
    pub closed spec fn spec_id(&self) -> GenomeBuildIdentifierView {
        self.id@
    }

    /// The build's contigs, in the order they are held.
    pub closed spec fn spec_contigs(&self) -> Seq<Contig<C>> {
        self.contigs@
    }

    /// Build a genome build from an identifier and contigs in any order: the
    /// contigs are sorted by name, ascending, and kept as given otherwise.
    /// Contigs with equal names are all retained. Feeding an already sorted
    /// contig list through again reproduces it exactly.
    pub fn new(id: GenomeBuildIdentifier, contigs: Vec<Contig<C>>) -> (r: Self)
        ensures
            r.spec_id() == id@,
            sorted_by_name(r.spec_contigs()),
            r.spec_contigs().to_multiset() == contigs@.to_multiset(),
            contig_views(r.spec_contigs()).to_multiset() == contig_views(contigs@).to_multiset(),
            sorted_by_name(contigs@) ==> r.spec_contigs() == contigs@,
    {
        let mut contigs = contigs;
        sort_contigs(&mut contigs);
        GenomeBuild { id, contigs }
    }

    /// The build's identifier.
    pub fn id(&self) -> (r: &GenomeBuildIdentifier)
        ensures
            r@ == self.spec_id(),
    {
        &self.id
    }

    /// All contigs, in ascending order of name.
    pub fn contigs(&self) -> (r: &Vec<Contig<C>>)
        ensures
            r@ == self.spec_contigs(),
    {
        &self.contigs
    }

    /// The first contig, in the held order, that carries `name` as its
    /// name or as one of its alternate names; `None` when none does.
    pub fn contig_by_name(&self, name: &str) -> (r: Option<&Contig<C>>)
        ensures
            match r {
                Some(c) => exists|i: int|
                    0 <= i < self.spec_contigs().len() && *c == self.spec_contigs()[i]
                        && contig_matches(self.spec_contigs()[i], name@) && (forall|j: int|
                        0 <= j < i ==> !contig_matches(#[trigger] self.spec_contigs()[j], name@)),
                None => forall|i: int|
                    0 <= i < self.spec_contigs().len() ==> !contig_matches(
                        #[trigger] self.spec_contigs()[i],
                        name@,
                    ),
            },
    {
        let mut i: usize = 0;
        while i < self.contigs.len()
            invariant
                i <= self.contigs.len(),
                forall|j: int|
                    0 <= j < i ==> !contig_matches(#[trigger] self.spec_contigs()[j], name@),
            decreases self.contigs.len() - i,
        {
            if self.contigs[i].matches_name(name) {
                proof {
                    let w = i as int;
                    assert(0 <= w < self.spec_contigs().len() && self.contigs@[w]
                        == self.spec_contigs()[w] && contig_matches(self.spec_contigs()[w], name@)
                        && (forall|j: int|
                        0 <= j < w ==> !contig_matches(#[trigger] self.spec_contigs()[j], name@)));
                }
                return Some(&self.contigs[i]);
            }
            i += 1;
        }
        None
    }
}

} // verus!
