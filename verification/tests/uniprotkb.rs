use uniprot_fasta_header::uniprotkb;
use uniprot_fasta_header::Database;
use uniprot_fasta_header::FailureKind;
use uniprot_fasta_header::ProteinExistence;
use uniprot_fasta_header::UniProtHeaderError;
use uniprot_fasta_header::UniProtKB;

#[test]
fn test_uniprot_acn2_acago() {
    let entry = UniProtKB {
        database: Database::SwissProt,
        identifier: "Q8I6R7".to_string(),
        entry_name: "ACN2_ACAGO".to_string(),
        protein_name: "Acanthoscurrin-2 (Fragment)".to_string(),
        organism_name: "Acanthoscurria gomesiana".to_string(),
        organism_identifier: "115339".to_string(),
        gene_name: Some("acantho2".to_string()),
        protein_existence: ProteinExistence::ExperimentalEvidenceProtein,
        sequence_version: "1".to_string(),
    };
    let test_header = ">sp|Q8I6R7|ACN2_ACAGO Acanthoscurrin-2 (Fragment) OS=Acanthoscurria gomesiana OX=115339 GN=acantho2 PE=1 SV=1".as_bytes();
    assert_eq!(uniprotkb(test_header).unwrap(), entry)
}

#[test]
fn test_uniprot_acox_cupnh() {
    let entry = UniProtKB {
        database: Database::SwissProt,
        identifier: "P27748".to_string(),
        entry_name: "ACOX_CUPNH".to_string(),
        protein_name: "Acetoin catabolism protein X".to_string(),
        organism_name: "Cupriavidus necator (strain ATCC 17699 / H16 / DSM 428 / Stanier 337)"
            .to_string(),
        organism_identifier: "381666".to_string(),
        gene_name: Some("acoX".to_string()),
        protein_existence: ProteinExistence::Predicted,
        sequence_version: "2".to_string(),
    };
    let test_header = ">sp|P27748|ACOX_CUPNH Acetoin catabolism protein X OS=Cupriavidus necator (strain ATCC 17699 / H16 / DSM 428 / Stanier 337) OX=381666 GN=acoX PE=4 SV=2".as_bytes();
    assert_eq!(uniprotkb(test_header).unwrap(), entry)
}

#[test]
fn test_uniprot_ha22_mouse() {
    let entry = UniProtKB {
        database: Database::SwissProt,
        identifier: "P04224".to_string(),
        entry_name: "HA22_MOUSE".to_string(),
        protein_name: "H-2 class II histocompatibility antigen, E-K alpha chain".to_string(),
        organism_name: "Mus musculus".to_string(),
        organism_identifier: "10090".to_string(),
        gene_name: None,
        protein_existence: ProteinExistence::ExperimentalEvidenceProtein,
        sequence_version: "1".to_string(),
    };
    let test_header = ">sp|P04224|HA22_MOUSE H-2 class II histocompatibility antigen, E-K alpha chain OS=Mus musculus OX=10090 PE=1 SV=1".as_bytes();
    assert_eq!(uniprotkb(test_header).unwrap(), entry)
}

#[test]
fn test_uniprot_q3sa23_9hiv1() {
    let entry = UniProtKB {
        database: Database::TrEMBL,
        identifier: "Q3SA23".to_string(),
        entry_name: "Q3SA23_9HIV1".to_string(),
        protein_name: "Protein Nef (Fragment)".to_string(),
        organism_name: "Human immunodeficiency virus 1".to_string(),
        organism_identifier: "11676".to_string(),
        gene_name: Some("nef".to_string()),
        protein_existence: ProteinExistence::InferredHomology,
        sequence_version: "1".to_string(),
    };
    let test_header = ">tr|Q3SA23|Q3SA23_9HIV1 Protein Nef (Fragment) OS=Human immunodeficiency virus 1  OX=11676 GN=nef PE=3 SV=1".as_bytes();
    assert_eq!(uniprotkb(test_header).unwrap(), entry)
}

#[test]
fn test_uniprot_cask_bovin() {
    let entry = UniProtKB {
        database: Database::SwissProt,
        identifier: "P02668".to_string(),
        entry_name: "CASK_BOVIN".to_string(),
        protein_name: "Kappa-casein".to_string(),
        organism_name: "Bos taurus".to_string(),
        organism_identifier: "9913".to_string(),
        gene_name: Some("CSN3".to_string()),
        protein_existence: ProteinExistence::ExperimentalEvidenceProtein,
        sequence_version: "1".to_string(),
    };
    let test_header =
        ">sp|P02668|CASK_BOVIN Kappa-casein OS=Bos taurus OX=9913 GN=CSN3 PE=1 SV=1".as_bytes();
    assert_eq!(uniprotkb(test_header).unwrap(), entry)
}

#[test]
fn test_uniprot_ypfu_ecoli() {
    let entry = UniProtKB {
        database: Database::SwissProt,
        identifier: "P18355".to_string(),
        entry_name: "YPFU_ECOLI".to_string(),
        protein_name: "Uncharacterized protein in traD-traI intergenic region".to_string(),
        organism_name: "Escherichia coli (strain K12)".to_string(),
        organism_identifier: "83333".to_string(),
        gene_name: None,
        protein_existence: ProteinExistence::InferredHomology,
        sequence_version: "1".to_string(),
    };
    let test_header =
        ">sp|P18355|YPFU_ECOLI Uncharacterized protein in traD-traI intergenic region OS=Escherichia coli (strain K12) OX=83333 PE=3 SV=1".as_bytes();
    assert_eq!(uniprotkb(test_header).unwrap(), entry)
}

#[test]
fn free_text_gene_name_in_full_header() {
    let parsed = uniprotkb(
        b">sp|P12345|AAAA_BBB Some protein OS=Some organism OX=123 GN=0 beta-2 globin PE=3 SV=1",
    )
    .unwrap();
    assert_eq!(parsed.gene_name, Some("0 beta-2 globin".to_string()));
    assert_eq!(parsed.protein_existence, ProteinExistence::InferredHomology);
}

#[test]
fn wrong_database_tag() {
    let err = uniprotkb(b">xx|P12345|AAAA_BBB Some protein OS=Org OX=1 PE=1 SV=1").unwrap_err();
    assert_eq!(
        err,
        UniProtHeaderError::ParsingError(
            b"xx|P12345|AAAA_BBB Some protein OS=Org OX=1 PE=1 SV=1".to_vec(),
            FailureKind::TagMismatch
        )
    );
}

#[test]
fn truncated_entry_name() {
    let err = uniprotkb(b">sp|P12345|XXXXX_").unwrap_err();
    assert_eq!(
        err,
        UniProtHeaderError::ParsingError(b"".to_vec(), FailureKind::LengthBound)
    );
}

#[test]
fn existence_out_of_range_in_full_header() {
    let err =
        uniprotkb(b">sp|P12345|AAAA_BBB Some protein OS=Org OX=1 PE=6 SV=1").unwrap_err();
    assert_eq!(
        err,
        UniProtHeaderError::ParsingError(b"6 SV=1".to_vec(), FailureKind::InvalidExistence)
    );
}

#[test]
fn missing_organism_sentinel() {
    let err = uniprotkb(b">sp|P12345|AAAA_BBB Some protein without marker").unwrap_err();
    assert_eq!(
        err,
        UniProtHeaderError::ParsingError(
            b"Some protein without marker".to_vec(),
            FailureKind::MissingSentinel
        )
    );
}

#[test]
fn missing_version_byte_is_incomplete() {
    let err =
        uniprotkb(b">sp|P02668|CASK_BOVIN Kappa-casein OS=Bos taurus OX=9913 GN=CSN3 PE=1 SV=")
            .unwrap_err();
    assert_eq!(err, UniProtHeaderError::Incomplete);
}

#[test]
fn trailing_bytes_stay_unconsumed() {
    let with_tail =
        uniprotkb(b">sp|P02668|CASK_BOVIN Kappa-casein OS=Bos taurus OX=9913 GN=CSN3 PE=1 SV=1 trailing text")
            .unwrap();
    let without_tail =
        uniprotkb(b">sp|P02668|CASK_BOVIN Kappa-casein OS=Bos taurus OX=9913 GN=CSN3 PE=1 SV=1")
            .unwrap();
    assert_eq!(with_tail, without_tail);
}

#[test]
fn parsing_is_deterministic() {
    let header = b">sp|Q8I6R7|ACN2_ACAGO Acanthoscurrin-2 (Fragment) OS=Acanthoscurria gomesiana OX=115339 GN=acantho2 PE=1 SV=1";
    assert_eq!(uniprotkb(header), uniprotkb(header));
}

#[test]
fn invalid_utf8_becomes_replacement_marker() {
    let parsed =
        uniprotkb(b">sp|P12345|AAAA_BBB Prot\xFFein OS=Org OX=1 PE=1 SV=1").unwrap();
    assert_eq!(parsed.protein_name, "Prot\u{FFFD}ein".to_string());
}

#[test]
fn protein_name_trailing_space_is_trimmed() {
    // Two spaces before OS= leave one on the raw protein-name span; the
    // record carries it trimmed.
    let parsed = uniprotkb(b">sp|P12345|AAAA_BBB Prot  OS=Org OX=1 PE=1 SV=1").unwrap();
    assert_eq!(parsed.protein_name, "Prot".to_string());
}

#[test]
fn whitespace_version_byte_trims_to_empty() {
    let parsed = uniprotkb(b">sp|P12345|AAAA_BBB Prot OS=Org OX=1 PE=1 SV= ").unwrap();
    assert_eq!(parsed.sequence_version, String::new());
}

#[test]
fn default_canonical_record() {
    let d = UniProtKB::default();
    assert_eq!(d.database, Database::SwissProt);
    assert_eq!(d.identifier, String::new());
    assert_eq!(d.gene_name, None);
    assert_eq!(d.protein_existence, ProteinExistence::Uncertain);
}
