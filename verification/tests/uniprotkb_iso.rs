use uniprot_fasta_header::uniprotkb_iso;
use uniprot_fasta_header::Database;
use uniprot_fasta_header::UniProtKBIsoform;

#[test]
fn test_uniprot_1433b_macfa_iso() {
    let entry = UniProtKBIsoform {
        database: Database::SwissProt,
        identifier: "Q4R572".to_string(),
        isoform: "2".to_string(),
        entry_name: "1433B_MACFA".to_string(),
        protein_name: "Isoform Short of 14-3-3 protein beta/alpha".to_string(),
        organism_name: "Macaca fascicularis".to_string(),
        organism_identifier: "9541".to_string(),
        gene_name: Some("YWHAB".to_string()),
    };
    let test_header =
        ">sp|Q4R572-2|1433B_MACFA Isoform Short of 14-3-3 protein beta/alpha OS=Macaca fascicularis OX=9541 GN=YWHAB".as_bytes();
    assert_eq!(uniprotkb_iso(test_header).unwrap(), entry)
}

#[test]
fn test_uniprot_alg2_human_iso() {
    let entry = UniProtKBIsoform {
        database: Database::SwissProt,
        identifier: "Q9H553".to_string(),
        isoform: "2".to_string(),
        entry_name: "ALG2_HUMAN".to_string(),
        protein_name: "Isoform 2 of Alpha-1,3/1,6-mannosyltransferase ALG2".to_string(),
        organism_name: "Homo sapiens".to_string(),
        organism_identifier: "9606".to_string(),
        gene_name: Some("ALG2".to_string()),
    };
    let test_header =
        ">sp|Q9H553-2|ALG2_HUMAN Isoform 2 of Alpha-1,3/1,6-mannosyltransferase ALG2 OS=Homo sapiens OX=9606 GN=ALG2".as_bytes();
    assert_eq!(uniprotkb_iso(test_header).unwrap(), entry)
}

#[test]
fn test_uniprot_agl27_arath_iso() {
    let entry = UniProtKBIsoform {
        database: Database::SwissProt,
        identifier: "Q9AT76".to_string(),
        isoform: "4".to_string(),
        entry_name: "AGL27_ARATH".to_string(),
        protein_name: "Isoform 4 of Agamous-like MADS-box protein AGL27".to_string(),
        organism_name: "Arabidopsis thaliana".to_string(),
        organism_identifier: "3702".to_string(),
        gene_name: Some("AGL27".to_string()),
    };
    let test_header =
        ">sp|Q9AT76-4|AGL27_ARATH Isoform 4 of Agamous-like MADS-box protein AGL27 OS=Arabidopsis thaliana OX=3702 GN=AGL27".as_bytes();
    assert_eq!(uniprotkb_iso(test_header).unwrap(), entry)
}

#[test]
fn test_uniprot_ters_bpspp_iso() {
    let entry = UniProtKBIsoform {
        database: Database::SwissProt,
        identifier: "P54307".to_string(),
        isoform: "2".to_string(),
        entry_name: "TERS_BPSPP".to_string(),
        protein_name: "Isoform G1P* of Terminase small subunit".to_string(),
        organism_name: "Bacillus phage SPP1".to_string(),
        organism_identifier: "10724".to_string(),
        gene_name: Some("1".to_string()),
    };
    let test_header =
        ">sp|P54307-2|TERS_BPSPP Isoform G1P* of Terminase small subunit OS=Bacillus phage SPP1 OX=10724 GN=1".as_bytes();
    assert_eq!(uniprotkb_iso(test_header).unwrap(), entry)
}

#[test]
fn isoform_header_without_gene_name() {
    let parsed = uniprotkb_iso(
        b">sp|P54307-2|TERS_BPSPP Isoform G1P* of Terminase small subunit OS=Bacillus phage SPP1 OX=10724 ",
    )
    .unwrap();
    assert_eq!(parsed.gene_name, None);
    assert_eq!(parsed.isoform, "2".to_string());
}

#[test]
fn isoform_parsing_is_deterministic() {
    let header = b">sp|Q4R572-2|1433B_MACFA Isoform Short of 14-3-3 protein beta/alpha OS=Macaca fascicularis OX=9541 GN=YWHAB";
    assert_eq!(uniprotkb_iso(header), uniprotkb_iso(header));
}

#[test]
fn default_isoform_record() {
    let d = UniProtKBIsoform::default();
    assert_eq!(d.database, Database::SwissProt);
    assert_eq!(d.isoform, String::new());
    assert_eq!(d.gene_name, None);
}
