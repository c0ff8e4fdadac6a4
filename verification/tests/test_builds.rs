use dabuild::builds::{parse_assembly_report, ParseError};
use dabuild::{GenomeBuild, GenomeBuildIdentifier};

fn lines(text: &[&str]) -> Vec<String> {
    text.iter().map(|s| s.to_string()).collect()
}

/// The header and the chromosome-1 data line of the GRCh38.p13 assembly
/// report, as published.
fn grch38_chr1_report() -> Vec<String> {
    lines(&[
        "# Assembly name:  GRCh38.p13",
        "# Sequence-Name\tSequence-Role\tAssigned-Molecule\tAssigned-Molecule-Location/Type\tGenBank-Accn\tRelationship\tRefSeq-Accn\tAssembly-Unit\tSequence-Length\tUCSC-style-name",
        "1\tassembled-molecule\t1\tChromosome\tCM000663.2\t=\tNC_000001.11\tPrimary Assembly\t248956422\tchr1",
    ])
}

#[test]
fn parse_report_with_patch_identifier() {
    let id = GenomeBuildIdentifier::with_patch("GRCh38", "p13");
    let build: GenomeBuild<usize> = parse_assembly_report(id, &grch38_chr1_report()).unwrap();

    assert_eq!(build.id().major_assembly(), "GRCh38");
    assert_eq!(build.id().patch(), Some("p13"));
    assert_eq!(build.contigs().len(), 1);

    let contig = build.contig_by_name("chr1");
    assert!(contig.is_some());

    let contig = contig.unwrap();
    assert_eq!(contig.name(), "1");

    let alt: Vec<_> = contig.alt_names().iter().map(String::as_str).collect();
    assert_eq!(alt, vec!["CM000663.2", "NC_000001.11", "chr1"]);

    assert_eq!(contig.length(), &248_956_422usize);

    // The same contig is reachable under each of its names.
    for name in ["1", "CM000663.2", "NC_000001.11", "chr1"] {
        assert_eq!(build.contig_by_name(name).unwrap().name(), "1");
    }
}

#[test]
fn parse_report_without_patch() {
    let id = GenomeBuildIdentifier::new("GRCm39");
    let report = lines(&[
        "# Assembly name:  GRCm39",
        "1\tassembled-molecule\t1\tChromosome\tCM000994.3\t=\tNC_000067.7\tC57BL/6J\t195154279\tchr1",
        "Y\tassembled-molecule\tY\tChromosome\tCM001014.3\t=\tNC_000087.8\tC57BL/6J\t91455967\tchrY",
    ]);
    let build: GenomeBuild<u32> = parse_assembly_report(id, &report).unwrap();

    assert_eq!(build.id().major_assembly(), "GRCm39");
    assert_eq!(build.id().patch(), None);
    assert_eq!(build.contigs().len(), 2);

    let contig = build.contig_by_name("Y").unwrap();
    assert_eq!(contig.name(), "Y");

    let alt: Vec<_> = contig.alt_names().iter().map(String::as_str).collect();
    assert_eq!(alt, vec!["CM001014.3", "NC_000087.8", "chrY"]);

    assert_eq!(contig.length(), &91_455_967u32);
}

#[test]
fn parse_skips_comment_lines_only() {
    let id = GenomeBuildIdentifier::new("toy");
    let report = lines(&["# only a comment", "# and another"]);
    let build: GenomeBuild<u32> = parse_assembly_report(id, &report).unwrap();
    assert_eq!(build.contigs().len(), 0);
}

#[test]
fn parse_of_no_lines_yields_empty_build() {
    let id = GenomeBuildIdentifier::new("toy");
    let build: GenomeBuild<u32> = parse_assembly_report(id, &lines(&[])).unwrap();
    assert_eq!(build.contigs().len(), 0);
}

#[test]
fn parse_sorts_contigs_by_name() {
    let id = GenomeBuildIdentifier::new("toy");
    let report = lines(&[
        "X\trole\tX\tType\tna\t=\tna\tunit\t30\tna",
        "10\trole\t10\tType\tna\t=\tna\tunit\t10\tna",
        "2\trole\t2\tType\tna\t=\tna\tunit\t20\tna",
    ]);
    let build: GenomeBuild<u32> = parse_assembly_report(id, &report).unwrap();

    let names: Vec<_> = build.contigs().iter().map(|c| c.name()).collect();
    assert_eq!(names, vec!["10", "2", "X"]);
}

#[test]
fn parse_excludes_na_alt_names() {
    let id = GenomeBuildIdentifier::new("toy");
    let report = lines(&[
        "1\trole\t1\tType\tna\t=\tNC_1\tunit\t100\tna",
        "2\trole\t2\tType\tCM_2\t=\tna\tunit\t200\tchr2",
    ]);
    let build: GenomeBuild<u32> = parse_assembly_report(id, &report).unwrap();

    let one = build.contig_by_name("1").unwrap();
    let alt: Vec<_> = one.alt_names().iter().map(String::as_str).collect();
    assert_eq!(alt, vec!["NC_1"]);
    assert!(build.contig_by_name("na").is_none());

    let two = build.contig_by_name("2").unwrap();
    let alt: Vec<_> = two.alt_names().iter().map(String::as_str).collect();
    assert_eq!(alt, vec!["CM_2", "chr2"]);
}

#[test]
fn parse_treats_short_lines_as_lacking_alt_names() {
    let id = GenomeBuildIdentifier::new("toy");
    // Nine columns: the length is present but the UCSC column is not.
    let report = lines(&["1\trole\t1\tType\tCM_1\t=\tNC_1\tunit\t100"]);
    let build: GenomeBuild<u32> = parse_assembly_report(id, &report).unwrap();

    let one = build.contig_by_name("1").unwrap();
    let alt: Vec<_> = one.alt_names().iter().map(String::as_str).collect();
    assert_eq!(alt, vec!["CM_1", "NC_1"]);
}

#[test]
fn parse_fails_on_missing_length_column() {
    let id = GenomeBuildIdentifier::new("toy");
    let bad = "2\trole\t2\tType\tna\t=\tna\tunit";
    let report = lines(&[
        "# header",
        "1\trole\t1\tType\tna\t=\tna\tunit\t100\tna",
        bad,
    ]);
    let err = parse_assembly_report::<u32>(id, &report).unwrap_err();

    match err {
        ParseError::MissingColumn { column, line_index, line } => {
            assert_eq!(column, 8);
            assert_eq!(line_index, 2);
            assert_eq!(line, bad);
        }
        other => panic!("unexpected error {:?}", other),
    }
}

#[test]
fn parse_fails_on_non_numeric_length() {
    let id = GenomeBuildIdentifier::new("toy");
    let report = lines(&["1\trole\t1\tType\tna\t=\tna\tunit\tlots\tna"]);
    let err = parse_assembly_report::<u32>(id, &report).unwrap_err();

    match err {
        ParseError::UnparsableLength { raw } => assert_eq!(raw, "lots"),
        other => panic!("unexpected error {:?}", other),
    }
}

#[test]
fn parse_fails_on_length_too_large_for_type() {
    let id = GenomeBuildIdentifier::new("toy");
    let report = lines(&["1\trole\t1\tType\tna\t=\tna\tunit\t300\tna"]);
    let err = parse_assembly_report::<u8>(id, &report).unwrap_err();

    match err {
        ParseError::UnparsableLength { raw } => assert_eq!(raw, "300"),
        other => panic!("unexpected error {:?}", other),
    }
}

#[test]
fn parse_fails_on_empty_length_field() {
    let id = GenomeBuildIdentifier::new("toy");
    let report = lines(&["1\trole\t1\tType\tna\t=\tna\tunit\t\tna"]);
    let err = parse_assembly_report::<u32>(id, &report).unwrap_err();

    match err {
        ParseError::UnparsableLength { raw } => assert_eq!(raw, ""),
        other => panic!("unexpected error {:?}", other),
    }
}

#[test]
fn parse_is_all_or_nothing() {
    let id = GenomeBuildIdentifier::new("toy");
    // A well-formed line before the bad one does not yield a partial build.
    let report = lines(&[
        "1\trole\t1\tType\tna\t=\tna\tunit\t100\tna",
        "2\trole\t2\tType\tna\t=\tna\tunit",
    ]);
    assert!(parse_assembly_report::<u32>(id, &report).is_err());
}

#[test]
fn parse_keeps_duplicate_names() {
    let id = GenomeBuildIdentifier::new("toy");
    let report = lines(&[
        "1\trole\t1\tType\tna\t=\tna\tunit\t100\tna",
        "1\trole\t1\tType\tna\t=\tna\tunit\t200\tna",
    ]);
    let build: GenomeBuild<u32> = parse_assembly_report(id, &report).unwrap();

    assert_eq!(build.contigs().len(), 2);
    // A stable sort keeps equal names in line order, and lookup answers
    // the first of them.
    assert_eq!(build.contig_by_name("1").unwrap().length(), &100u32);
}
