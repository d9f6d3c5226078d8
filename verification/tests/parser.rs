use uniprot_fasta_header::parser::chevron;
use uniprot_fasta_header::parser::db;
use uniprot_fasta_header::parser::entry_name;
use uniprot_fasta_header::parser::evidence;
use uniprot_fasta_header::parser::iso_id;
use uniprot_fasta_header::parser::optional_gene_name;
use uniprot_fasta_header::parser::organism_id;
use uniprot_fasta_header::parser::os_until_ox;
use uniprot_fasta_header::parser::pipe;
use uniprot_fasta_header::parser::space;
use uniprot_fasta_header::parser::unique_id;
use uniprot_fasta_header::parser::until_os;
use uniprot_fasta_header::parser::version;
use uniprot_fasta_header::Database;
use uniprot_fasta_header::Failure;
use uniprot_fasta_header::FailureKind;
use uniprot_fasta_header::ProteinExistence;

/* ---------------------------------- pipe ---------------------------------- */

#[test]
fn nom_pipe() {
    assert_eq!(pipe(b"|xxx", 0), Ok(1));
}

/* --------------------------------- chevron -------------------------------- */

#[test]
fn nom_chevron() {
    assert_eq!(chevron(b">xxx", 0), Ok(1));
}

/* ---------------------------------- space --------------------------------- */

#[test]
fn spaces_one() {
    assert_eq!(space(b" ", 0), Ok(1));
}

#[test]
fn spaces_two() {
    assert_eq!(space(b"  ", 0), Ok(2));
}

#[test]
fn spaces_tab() {
    assert_eq!(space(b"\t", 0), Ok(1));
}

#[test]
fn spaces_absent() {
    assert_eq!(
        space(b"x", 0),
        Err(Failure::Malformed(0, FailureKind::LengthBound))
    );
}

/* ----------------------------------- db ----------------------------------- */

#[test]
fn uniprot_db_swissprot() {
    assert_eq!(db(b"sp", 0), Ok((2, Database::SwissProt)));
}

#[test]
fn uniprot_db_trembl() {
    assert_eq!(db(b"tr", 0), Ok((2, Database::TrEMBL)));
}

#[test]
fn incorrect_uniprot_db() {
    assert_eq!(
        db(b"xx", 0),
        Err(Failure::Malformed(0, FailureKind::TagMismatch))
    );
}

/* -------------------------------- unique_id ------------------------------- */

#[test]
fn uniprot_id_ten_bytes() {
    assert_eq!(
        unique_id(b"A0A023GPI8", 0),
        Ok((10, b"A0A023GPI8".to_vec()))
    );
}

#[test]
fn uniprot_id_first_shape() {
    assert_eq!(unique_id(b"P12345", 0), Ok((6, b"P12345".to_vec())));
}

#[test]
fn uniprot_id_second_shape_short() {
    assert_eq!(unique_id(b"A2BC19", 0), Ok((6, b"A2BC19".to_vec())));
}

#[test]
fn uniprot_id_leftmost_match_wins() {
    // Two pattern-like substrings: the leftmost one is returned, and the
    // bytes before it are skipped.
    assert_eq!(unique_id(b"--P12345--Q67890", 0), Ok((8, b"P12345".to_vec())));
}

#[test]
fn incorrect_uniprot_id() {
    assert_eq!(
        unique_id(b"xx", 0),
        Err(Failure::Malformed(0, FailureKind::PatternMismatch))
    );

    assert_eq!(
        unique_id(b"!P0266", 0),
        Err(Failure::Malformed(0, FailureKind::PatternMismatch))
    );
}

/* ------------------------------- entry_name ------------------------------- */

#[test]
fn correct_entry_name() {
    assert_eq!(
        entry_name(b"ACN2_ACAGO", 0),
        Ok((10, b"ACN2_ACAGO".to_vec()))
    );
}

#[test]
fn entry_name_longest_left_span() {
    assert_eq!(
        entry_name(b"ABCDEFGHIJKL_AB", 0),
        Ok((15, b"ABCDEFGHIJKL_AB".to_vec()))
    );
}

#[test]
fn entry_name_right_span_clamped_at_five() {
    // The species mnemonic is taken greedily up to five bytes; a sixth
    // alphanumeric byte stays unconsumed.
    assert_eq!(
        entry_name(b"AB_CDEFGH", 0),
        Ok((8, b"AB_CDEFG".to_vec()))
    );
}

#[test]
fn organism_id_clamped_at_seven_digits() {
    assert_eq!(organism_id(b"OX=123456789", 0), Ok((10, b"1234567".to_vec())));
}

#[test]
fn incorrect_entry_name() {
    // missing _
    assert_eq!(
        entry_name(b"xx", 0),
        Err(Failure::Malformed(2, FailureKind::TagMismatch))
    );

    // first part too long: twelve bytes are taken, the thirteenth is no _
    assert_eq!(
        entry_name(b"XXXXXXXXXXXXXXXXXXXXXXXXXXX", 0),
        Err(Failure::Malformed(12, FailureKind::TagMismatch))
    );

    // first part too short
    assert_eq!(
        entry_name(b"X_X", 0),
        Err(Failure::Malformed(0, FailureKind::LengthBound))
    );

    // absent first part
    assert_eq!(
        entry_name(b"_X", 0),
        Err(Failure::Malformed(0, FailureKind::LengthBound))
    );

    // absent second part
    assert_eq!(
        entry_name(b"XXXXX_", 0),
        Err(Failure::Malformed(6, FailureKind::LengthBound))
    );

    // wrong separator
    assert_eq!(
        entry_name(b"XXXXX-XXXXX", 0),
        Err(Failure::Malformed(5, FailureKind::TagMismatch))
    );
}

/* -------------------------------- until_os -------------------------------- */

#[test]
fn nom_until_os() {
    assert_eq!(
        until_os(b"Acanthoscurrin-2 (Fragment) OS=Acanthoscurria", 0),
        Ok((27, b"Acanthoscurrin-2 (Fragment)".to_vec()))
    );
}

#[test]
fn until_os_missing_sentinel() {
    assert_eq!(
        until_os(b"no organism marker here", 0),
        Err(Failure::Malformed(0, FailureKind::MissingSentinel))
    );
}

/* ------------------------------- os_until_ox ------------------------------ */

#[test]
fn nom_os_until_ox() {
    assert_eq!(
        os_until_ox(b"OS=Bacillus phage SPP1 OX=10724", 0),
        Ok((22, b"Bacillus phage SPP1".to_vec()))
    );
}

/* ------------------------------- organism_id ------------------------------ */

#[test]
fn nom_organism_id() {
    assert_eq!(organism_id(b"OX=10724", 0), Ok((8, b"10724".to_vec())));
}

/* ----------------------------------- gene ---------------------------------- */

#[test]
fn gene_name_simple() {
    let (p, gene, ws) = optional_gene_name(b"GN=acantho2 PE=1 SV=1", 0);
    assert_eq!(
        (p, gene, ws),
        (12, Some(b"acantho2".to_vec()), Some(b" ".to_vec()))
    );
}

#[test]
fn gene_name_dots_and_hyphens() {
    let (_, gene, _) = optional_gene_name(b"GN=SA85-1.3 PE=2 SV=1", 0);
    assert_eq!(gene, Some(b"SA85-1.3".to_vec()));
}

#[test]
fn gene_name_odd_byte() {
    let (_, gene, _) = optional_gene_name(b"GN=> PE=4 SV=1", 0);
    assert_eq!(gene, Some(b">".to_vec()));
}

#[test]
fn gene_name_plain() {
    let (_, gene, _) = optional_gene_name(b"GN=CSN3 PE=1 SV=1", 0);
    assert_eq!(gene, Some(b"CSN3".to_vec()));
}

#[test]
fn gene_name_free_text_digits_and_spaces() {
    let (_, gene, _) = optional_gene_name(b"GN=0 beta-2 globin PE=3 SV=1", 0);
    assert_eq!(gene, Some(b"0 beta-2 globin".to_vec()));
}

#[test]
fn gene_name_free_text_equals_sign() {
    let (_, gene, _) = optional_gene_name(b"GN=orf304 = ymf42 PE=4 SV=1", 0);
    assert_eq!(gene, Some(b"orf304 = ymf42".to_vec()));
}

#[test]
fn gene_name_without_existence_field() {
    let (p, gene, ws) = optional_gene_name(b"GN=YWHAB", 0);
    assert_eq!((p, gene, ws), (8, Some(b"YWHAB".to_vec()), None));
}

#[test]
fn opt_gene_name_missing() {
    let (p, gene, ws) = optional_gene_name(b"PE=2 SV=1", 0);
    assert_eq!((p, gene, ws), (0, None, None));
}

/* -------------------------------- evidence -------------------------------- */

#[test]
fn existence_protein_level() {
    assert_eq!(
        evidence(b"PE=1", 0),
        Ok((4, ProteinExistence::ExperimentalEvidenceProtein))
    );
}

#[test]
fn existence_transcript_level() {
    assert_eq!(
        evidence(b"PE=2", 0),
        Ok((4, ProteinExistence::ExperimentalEvidenceTranscript))
    );
}

#[test]
fn existence_homology() {
    assert_eq!(evidence(b"PE=3", 0), Ok((4, ProteinExistence::InferredHomology)));
}

#[test]
fn existence_predicted() {
    assert_eq!(evidence(b"PE=4", 0), Ok((4, ProteinExistence::Predicted)));
}

#[test]
fn existence_uncertain() {
    assert_eq!(evidence(b"PE=5", 0), Ok((4, ProteinExistence::Uncertain)));
}

#[test]
fn incorrect_existence() {
    assert_eq!(
        evidence(b"xx", 0),
        Err(Failure::Malformed(0, FailureKind::TagMismatch))
    );
}

#[test]
fn existence_code_out_of_range() {
    // A digit outside 1..=5 is rejected at the existence step, not defaulted.
    assert_eq!(
        evidence(b"PE=6 SV=1", 0),
        Err(Failure::Malformed(3, FailureKind::InvalidExistence))
    );
    assert_eq!(
        evidence(b"PE=0", 0),
        Err(Failure::Malformed(3, FailureKind::InvalidExistence))
    );
}

/* --------------------------------- version -------------------------------- */

#[test]
fn versions() {
    assert_eq!(version(b"SV=1", 0), Ok((4, b"1".to_vec())));
}

#[test]
fn version_missing_byte_is_incomplete() {
    assert_eq!(version(b"SV=", 0), Err(Failure::Incomplete));
}

/* --------------------------------- iso_id --------------------------------- */

#[test]
fn isoform_id() {
    assert_eq!(
        iso_id(
            b"P54307-2|TERS_BPSPP Isoform G1P* of Terminase small subunit OS=Bacillus phage SPP1 OX=10724 GN=1",
            0
        ),
        Ok((8, b"P54307".to_vec(), b"2".to_vec()))
    );
}
