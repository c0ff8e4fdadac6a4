//! The assembly-report parser: turns the line-oriented, tab-separated
//! report text published alongside a genome build into a [`GenomeBuild`].
//!
//! A report line starting with `#` is a header or comment and is skipped.
//! Every other line is split on tabs; column 0 is the contig name, columns
//! 4, 6 and 9 hold the GenBank, RefSeq and UCSC identifiers (the marker
//! `"na"` meaning "not available"), and column 8 holds the contig length.
//! Parsing is all-or-nothing: the first malformed line fails the whole
//! parse and no partial build is returned.

use vstd::prelude::*;

use crate::genome::{
    contig_views, sorted_by_name, Contig, ContigView, GenomeBuild, GenomeBuildIdentifier,
};
use crate::length::ContigLength;
use crate::text::{
    all_digits, digits_val, is_digit_char, lemma_digits_val_nonneg, lemma_digits_val_take_le,
    lemma_digits_val_take_step, str_eq,
};

verus! {

/// The index of the first tab character of `s` at or after `from`, or the
/// length of `s` when no tab follows.
pub open spec fn find_tab(s: Seq<char>, from: int) -> int
    decreases s.len() - from,
{
    if from >= s.len() {
        s.len() as int
    } else if s[from] == '\t' {
        from
    } else {
        find_tab(s, from + 1)
    }
}

/// `find_tab` never answers an index before `from`.
proof fn lemma_find_tab_ge(s: Seq<char>, from: int)
    requires
        from <= s.len(),
    ensures
        find_tab(s, from) >= from,
    decreases s.len() - from,
{
    if from < s.len() && s[from] != '\t' {
        lemma_find_tab_ge(s, from + 1);
    }
}

/// The fields of `s` from position `from` on, split on tab characters.
/// Splitting preserves empty fields, so there is always at least one field.
pub open spec fn split_from(s: Seq<char>, from: int) -> Seq<Seq<char>>
    decreases s.len() - from,
    via split_from_decreases
{
    let end = find_tab(s, from);
    if end >= s.len() {
        seq![s.subrange(from, s.len() as int)]
    } else {
        seq![s.subrange(from, end)] + split_from(s, end + 1)
    }
}

#[via_fn]
proof fn split_from_decreases(s: Seq<char>, from: int) {
    if from <= s.len() {
        lemma_find_tab_ge(s, from);
    }
}

/// The tab-separated fields of a whole line.
pub open spec fn line_fields(line: Seq<char>) -> Seq<Seq<char>> {
    split_from(line, 0)
}

/// Split a line into its tab-separated fields, preserving empty fields.
fn split_rest(s: &str, from: usize) -> (r: Vec<String>)
    requires
        from <= s@.len(),
    ensures
        r.deep_view() == split_from(s@, from as int),
    decreases s@.len() - from,
{
    let len = s.unicode_len();
    let mut end = from;
    loop
        invariant
            from <= end <= len,
            len == s@.len(),
            find_tab(s@, from as int) == find_tab(s@, end as int),
        ensures
            from <= end <= len,
            len == s@.len(),
            end == find_tab(s@, from as int),
        decreases len - end,
    {
        if end == len {
            break ;
        }
        if s.get_char(end) == '\t' {
            break ;
        }
        end += 1;
    }
    let field = s.substring_char(from, end).to_owned();
    if end == len {
        let mut r: Vec<String> = Vec::new();
        r.push(field);
        proof {
            assert(r.deep_view() =~= split_from(s@, from as int));
        }
        r
    } else {
        let mut rest = split_rest(s, end + 1);
        let ghost tail = rest.deep_view();
        let mut r: Vec<String> = Vec::new();
        r.push(field);
        r.append(&mut rest);
        proof {
            let target = split_from(s@, from as int);
            assert(target == seq![s@.subrange(from as int, end as int)] + split_from(
                s@,
                end + 1,
            ));
            assert forall|t: int| 0 <= t < r@.len() implies #[trigger] r.deep_view()[t]
                == target[t] by {
                if t == 0 {
                    assert(r@[0]@ == s@.subrange(from as int, end as int));
                } else {
                    assert(r@[t]@ == tail[t - 1]);
                }
            }
            assert(r.deep_view() =~= target);
        }
        r
    }
}

/// Read a non-negative decimal numeral into the length type `C`; `None`
/// when `s` is empty, holds a non-digit character, or names a value larger
/// than `C` can hold.
fn parse_length<C: ContigLength>(s: &str) -> (r: Option<C>)
    ensures
        r is Some <==> (s@.len() > 0 && all_digits(s@) && digits_val(s@) <= C::spec_max()),
        r is Some ==> r->Some_0.as_int() == digits_val(s@),
{
    let len = s.unicode_len();
    if len == 0 {
        return None;
    }
    let mut acc = C::zero();
    let mut i: usize = 0;
    while i < len
        invariant
            i <= len,
            len == s@.len(),
            all_digits(s@.take(i as int)),
            acc.as_int() == digits_val(s@.take(i as int)),
            0 <= acc.as_int(),
        decreases len - i,
    {
        let c = s.get_char(i);
        let code = c as u32;
        if code < 48 || code > 57 {
            proof {
                assert(!is_digit_char(s@[i as int]));
            }
            return None;
        }
        let d = (code - 48) as u8;
        proof {
            lemma_digits_val_take_step(s@, i as int);
            assert(forall|t: int| 0 <= t < i + 1 ==> is_digit_char(#[trigger] s@.take(i + 1)[t]));
        }
        match acc.checked_mul10_add(d) {
            Some(next) => {
                acc = next;
                i += 1;
            },
            None => {
                proof {
                    if all_digits(s@) && digits_val(s@) <= C::spec_max() {
                        lemma_digits_val_take_le(s@, i + 1);
                    }
                }
                return None;
            },
        }
    }
    proof {
        assert(s@.take(len as int) =~= s@);
        acc.lemma_bounds();
    }
    Some(acc)
}

/// Why a parse of an assembly report failed. Every failure aborts the whole
/// parse; no partial build is ever returned.
#[derive(Debug, Clone, PartialEq, Eq)]
pub enum ParseError {
    /// A mandatory column (the contig name, column 0, or the sequence
    /// length, column 8) was absent from the data line at `line_index`.
    MissingColumn { column: usize, line_index: usize, line: String },
    /// The sequence-length column held `raw`, which is not a decimal
    /// numeral the length type can hold.
    UnparsableLength { raw: String },
    /// A contig could not be constructed from otherwise well-formed fields.
    InvalidContig,
}

/// The placeholder a report writes in an identifier column whose value is
/// not available.
pub open spec fn na_text() -> Seq<char> {
    "na"@
}

/// Whether a report line is a header or comment line.
pub open spec fn is_comment(line: Seq<char>) -> bool {
    line.len() > 0 && line[0] == '#'
}

/// The alternate name held by column `i`, when the line has that column
/// and its value is not the `"na"` placeholder.
pub open spec fn opt_alt(fields: Seq<Seq<char>>, i: int) -> Seq<Seq<char>> {
    if i < fields.len() && fields[i] != na_text() {
        seq![fields[i]]
    } else {
        Seq::empty()
    }
}

/// The alternate names of a data line: the GenBank (column 4), RefSeq
/// (column 6) and UCSC (column 9) identifiers, in that order, each present
/// only when its column exists and is not `"na"`.
pub open spec fn alt_names_of(fields: Seq<Seq<char>>) -> Seq<Seq<char>> {
    opt_alt(fields, 4) + opt_alt(fields, 6) + opt_alt(fields, 9)
}

/// Whether a data line has the mandatory sequence-length column.
pub open spec fn has_length_column(line: Seq<char>) -> bool {
    line_fields(line).len() >= 9
}

/// The text of a data line's sequence-length column.
pub open spec fn length_text(line: Seq<char>) -> Seq<char> {
    line_fields(line)[8]
}

/// Whether a data line's sequence-length column reads as a decimal numeral
/// no larger than `max`.
pub open spec fn length_parses(line: Seq<char>, max: int) -> bool {
    let t = length_text(line);
    t.len() > 0 && all_digits(t) && digits_val(t) <= max
}

/// Whether a report line parses: it is a comment, or it has a sequence
/// length that a type with maximum `max` can hold. The contig-name column
/// is always present, since splitting yields at least one field.
pub open spec fn line_good(line: Seq<char>, max: int) -> bool {
    is_comment(line) || (has_length_column(line) && length_parses(line, max))
}

/// The contig a well-formed data line describes.
pub open spec fn line_contig(line: Seq<char>) -> ContigView {
    let fields = line_fields(line);
    ContigView {
        name: fields[0],
        alt_names: alt_names_of(fields),
        length: digits_val(length_text(line)),
    }
}

/// The contigs of a report, in line order: one per data line, none for a
/// comment line.
pub open spec fn contigs_of(lines: Seq<Seq<char>>) -> Seq<ContigView>
    decreases lines.len(),
{
    if lines.len() == 0 {
        Seq::empty()
    } else {
        contigs_of(lines.drop_last()) + (if is_comment(lines.last()) {
            Seq::empty()
        } else {
            seq![line_contig(lines.last())]
        })
    }
}

/// Parse an assembly report, given as its lines in order, into a
/// [`GenomeBuild`] with identifier `id`.
///
/// Each line is either a `#` comment, which is skipped, or a data line of
/// tab-separated columns: column 0 the contig name, columns 4, 6 and 9 the
/// alternate identifiers with `"na"` meaning absent, column 8 the length.
/// The first line without a length column fails the parse with
/// [`ParseError::MissingColumn`]; the first whose length column does not
/// read as a length fails it with [`ParseError::UnparsableLength`]. On
/// success the build holds exactly the contigs of the data lines, sorted
/// by name.
pub fn parse_assembly_report<C: ContigLength>(
    id: GenomeBuildIdentifier,
    lines: &Vec<String>,
) -> (r: Result<GenomeBuild<C>, ParseError>)
    ensures
        match r {
            Ok(build) => {
                &&& forall|i: int|
                    0 <= i < lines@.len() ==> line_good(
                        #[trigger] lines.deep_view()[i],
                        C::spec_max(),
                    )
                &&& build.spec_id() == id@
                &&& sorted_by_name(build.spec_contigs())
                &&& contig_views(build.spec_contigs()).to_multiset() == contigs_of(
                    lines.deep_view(),
                ).to_multiset()
            },
            Err(e) => exists|i: int|
                {
                    &&& 0 <= i < lines@.len()
                    &&& !line_good(#[trigger] lines.deep_view()[i], C::spec_max())
                    &&& (forall|j: int|
                        0 <= j < i ==> line_good(#[trigger] lines.deep_view()[j], C::spec_max()))
                    &&& match e {
                        ParseError::MissingColumn { column, line_index, line } => {
                            &&& column == 8
                            &&& line_index == i
                            &&& line@ == lines.deep_view()[i]
                            &&& !is_comment(lines.deep_view()[i])
                            &&& !has_length_column(lines.deep_view()[i])
                        },
                        ParseError::UnparsableLength { raw } => {
                            &&& has_length_column(lines.deep_view()[i])
                            &&& raw@ == length_text(lines.deep_view()[i])
                            &&& !length_parses(lines.deep_view()[i], C::spec_max())
                        },
                        ParseError::InvalidContig => false,
                    }
                },
        },
{
    let mut contigs: Vec<Contig<C>> = Vec::new();
    let mut idx: usize = 0;
    while idx < lines.len()
        invariant
            idx <= lines@.len(),
            forall|j: int|
                0 <= j < idx ==> line_good(#[trigger] lines.deep_view()[j], C::spec_max()),
            contig_views(contigs@) =~= contigs_of(lines.deep_view().take(idx as int)),
        decreases lines@.len() - idx,
    {
        let line = &lines[idx];
        let ghost lseq = line@;
        proof {
            assert(lines.deep_view()[idx as int] == lseq);
            assert(lines.deep_view().take(idx + 1).drop_last() =~= lines.deep_view().take(
                idx as int,
            ));
            assert(lines.deep_view().take(idx + 1).last() == lseq);
        }
        let mut comment = false;
        if line.as_str().unicode_len() > 0 {
            if line.as_str().get_char(0) == '#' {
                comment = true;
            }
        }
        if comment {
            idx += 1;
            continue ;
        }
        assert(!is_comment(lseq));
        let fields = split_rest(line.as_str(), 0);
        proof {
            assert(fields.deep_view() == line_fields(lseq));
            assert(line_fields(lseq).len() >= 1);
        }
        if fields.len() == 0 {
            // Splitting always yields at least one field, so the contig
            // name, column 0, is always present; the check mirrors the
            // format's demand for it.
            return Err(
                ParseError::MissingColumn { column: 0, line_index: idx, line: line.clone() },
            );
        }
        if fields.len() <= 8 {
            return Err(
                ParseError::MissingColumn { column: 8, line_index: idx, line: line.clone() },
            );
        }
        let mut alt_refs: Vec<&str> = Vec::new();
        if fields.len() > 4 {
            if !str_eq(fields[4].as_str(), "na") {
                alt_refs.push(fields[4].as_str());
            }
        }
        proof {
            assert(alt_refs@.map_values(|s: &str| s@) =~= opt_alt(fields.deep_view(), 4));
        }
        let ghost alts4 = alt_refs@;
        if fields.len() > 6 {
            if !str_eq(fields[6].as_str(), "na") {
                alt_refs.push(fields[6].as_str());
            }
        }
        proof {
            assert(alt_refs@.map_values(|s: &str| s@) =~= opt_alt(fields.deep_view(), 4) + opt_alt(
                fields.deep_view(),
                6,
            ));
        }
        let ghost alts46 = alt_refs@;
        if fields.len() > 9 {
            if !str_eq(fields[9].as_str(), "na") {
                alt_refs.push(fields[9].as_str());
            }
        }
        proof {
            assert(alt_refs@.map_values(|s: &str| s@) =~= alt_names_of(fields.deep_view()));
        }
        let length: C = match parse_length::<C>(fields[8].as_str()) {
            Some(length) => length,
            None => {
                return Err(ParseError::UnparsableLength { raw: fields[8].clone() });
            },
        };
        proof {
            lemma_digits_val_nonneg(length_text(lseq));
        }
        let contig = match Contig::<C>::new(fields[0].as_str(), alt_refs.as_slice(), length) {
            Some(contig) => contig,
            None => {
                // Unreachable: a decimal numeral never reads as a negative
                // length. Kept as the format's defensive last check.
                return Err(ParseError::InvalidContig);
            },
        };
        proof {
            assert(contig@ == line_contig(lseq));
        }
        let ghost prev = contigs@;
        contigs.push(contig);
        proof {
            assert forall|t: int| 0 <= t < contigs@.len() implies #[trigger] contig_views(
                contigs@,
            )[t] == contigs_of(lines.deep_view().take(idx + 1))[t] by {
                if t < prev.len() {
                    assert(contigs@[t] == prev[t]);
                    assert(contig_views(prev)[t] == contigs_of(
                        lines.deep_view().take(idx as int),
                    )[t]);
                }
            }
            assert(contig_views(contigs@) =~= contigs_of(lines.deep_view().take(idx + 1)));
        }
        idx += 1;
    }
    proof {
        assert(lines.deep_view().take(lines@.len() as int) =~= lines.deep_view());
    }
    let build = GenomeBuild::<C>::new(id, contigs);
    Ok(build)
}

} // verus!
