//! Genome build metadata: contigs with their names, alternate accession
//! identifiers and lengths in base pairs, assembled into a queryable,
//! name-sorted collection, together with a parser for the tab-separated
//! assembly-report format published by sequence-database providers.
//!
//! A [`GenomeBuild`] is constructed either directly from [`Contig`] values
//! or by [`builds::parse_assembly_report`] from the lines of an assembly
//! report, and is read-only afterwards: contigs are looked up by any of
//! their names with [`GenomeBuild::contig_by_name`].

pub mod builds;
pub mod genome;
pub mod length;
pub mod text;

pub use genome::{Contig, GenomeBuild, GenomeBuildIdentifier};
