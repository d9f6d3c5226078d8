//! The canonical header record and its assembler.
//!
//! The assembler runs the field parsers in fixed order:
//! `>` database `|` identifier `|` entry name, then whitespace-separated
//! protein name, organism name, organism identifier, an optional gene name,
//! the existence level and the sequence version. The first failing step
//! aborts the whole parse; trailing bytes after the version are simply left
//! unconsumed.

use vstd::prelude::*;

use crate::Database;
use crate::ProteinExistence;
use crate::error::Failure;
use crate::error::UniProtHeaderError;
use crate::parser::chevron;
use crate::parser::db;
use crate::parser::entry_name;
use crate::parser::evidence;
use crate::parser::lemma_entry_name_value_bytes;
use crate::parser::lemma_organism_id_value_bytes;
use crate::parser::lemma_unique_id_value_bytes;
use crate::parser::is_alnum_byte;
use crate::parser::optional_gene_name;
use crate::parser::organism_id;
use crate::parser::os_until_ox;
use crate::parser::pipe;
use crate::parser::space;
use crate::parser::spec_chevron;
use crate::parser::spec_db;
use crate::parser::spec_entry_name;
use crate::parser::spec_evidence;
use crate::parser::spec_opt_gene;
use crate::parser::spec_organism_id;
use crate::parser::spec_os_until_ox;
use crate::parser::spec_pipe;
use crate::parser::spec_space;
use crate::parser::spec_unique_id;
use crate::parser::spec_until_os;
use crate::parser::spec_version;
use crate::parser::unique_id;
use crate::parser::until_os;
use crate::parser::version;
use crate::parser::UNDERSCORE_BYTE;
use crate::text::ascii_chars;
use crate::text::ascii_seq;
use crate::text::bytes_range;
use crate::text::lemma_trimmed_no_ws;
use crate::text::lossy_of;
use crate::text::plain_string;
use crate::text::trimmed;
use crate::text::trimmed_string;

verus! {

/// A parsed canonical UniProtKB header.
#[derive(Debug, PartialEq)]
pub struct UniProtKB {
    /// Database of origin.
    pub database: Database,
    /// Accession number.
    pub identifier: String,
    /// Entry name: protein mnemonic, `_`, species mnemonic.
    pub entry_name: String,
    /// Protein name, free text.
    pub protein_name: String,
    /// Organism name, free text.
    pub organism_name: String,
    /// Taxonomy identifier, one to seven digits.
    pub organism_identifier: String,
    /// Gene name, free text; absent when the header carries no `GN=` field.
    pub gene_name: Option<String>,
    /// Existence level.
    pub protein_existence: ProteinExistence,
    /// Sequence version, one byte taken verbatim.
    pub sequence_version: String,
}

impl Default for UniProtKB {
    /// An empty record: Swiss-Prot origin, empty strings, no gene name,
    /// uncertain existence.
    fn default() -> (d: Self)
        ensures
            d.database == Database::SwissProt,
            d.identifier@ == Seq::<char>::empty(),
            d.entry_name@ == Seq::<char>::empty(),
            d.protein_name@ == Seq::<char>::empty(),
            d.organism_name@ == Seq::<char>::empty(),
            d.organism_identifier@ == Seq::<char>::empty(),
            d.gene_name is None,
            d.protein_existence == ProteinExistence::Uncertain,
            d.sequence_version@ == Seq::<char>::empty(),
    {
        UniProtKB {
            database: Database::SwissProt,
            identifier: String::new(),
            entry_name: String::new(),
            protein_name: String::new(),
            organism_name: String::new(),
            organism_identifier: String::new(),
            gene_name: None,
            protein_existence: ProteinExistence::Uncertain,
            sequence_version: String::new(),
        }
    }
}

/// The byte-level fields that the grammar carves out of a canonical header.
#[verifier::ext_equal]
pub struct CanonicalParts {
    /// Database of origin.
    pub database: Database,
    /// Accession bytes, as matched.
    pub identifier: Seq<u8>,
    /// Entry-name bytes, underscore included.
    pub entry_name: Seq<u8>,
    /// Protein-name bytes, untrimmed.
    pub protein_name: Seq<u8>,
    /// Organism-name bytes, untrimmed.
    pub organism_name: Seq<u8>,
    /// Taxonomy-identifier digits.
    pub organism_identifier: Seq<u8>,
    /// Gene-name bytes, untrimmed, when a `GN=` field is present.
    pub gene_name: Option<Seq<u8>>,
    /// Existence level.
    pub protein_existence: ProteinExistence,
    /// The one version byte.
    pub sequence_version: Seq<u8>,
}

/// The canonical grammar as one function of the input bytes: either every
/// field in order, or the first failure. Everything the two parse results
/// hold is determined by this function, so parsing is pure.
pub open spec fn parse_canonical(s: Seq<u8>) -> Result<CanonicalParts, Failure> {
    match spec_chevron(s, 0) {
        Err(f) => Err(f),
        Ok(p1) => match spec_db(s, p1) {
            Err(f) => Err(f),
            Ok((p2, database)) => match spec_pipe(s, p2) {
                Err(f) => Err(f),
                Ok(p3) => match spec_unique_id(s, p3) {
                    Err(f) => Err(f),
                    Ok((p4, identifier)) => match spec_pipe(s, p4) {
                        Err(f) => Err(f),
                        Ok(p5) => match spec_entry_name(s, p5) {
                            Err(f) => Err(f),
                            Ok((p6, entry)) => match spec_space(s, p6) {
                                Err(f) => Err(f),
                                Ok(p7) => match spec_until_os(s, p7) {
                                    Err(f) => Err(f),
                                    Ok((p8, protein)) => match spec_space(s, p8) {
                                        Err(f) => Err(f),
                                        Ok(p9) => match spec_os_until_ox(s, p9) {
                                            Err(f) => Err(f),
                                            Ok((p10, organism)) => match spec_space(s, p10) {
                                                Err(f) => Err(f),
                                                Ok(p11) => match spec_organism_id(s, p11) {
                                                    Err(f) => Err(f),
                                                    Ok((p12, taxid)) => match spec_space(s, p12) {
                                                        Err(f) => Err(f),
                                                        Ok(p13) => match spec_evidence(
                                                            s,
                                                            spec_opt_gene(s, p13).0,
                                                        ) {
                                                            Err(f) => Err(f),
                                                            Ok((p15, existence)) => match spec_space(
                                                                s,
                                                                p15,
                                                            ) {
                                                                Err(f) => Err(f),
                                                                Ok(p16) => match spec_version(
                                                                    s,
                                                                    p16,
                                                                ) {
                                                                    Err(f) => Err(f),
                                                                    Ok((_p17, sv)) => Ok(
                                                                        CanonicalParts {
                                                                            database,
                                                                            identifier,
                                                                            entry_name: entry,
                                                                            protein_name: protein,
                                                                            organism_name: organism,
                                                                            organism_identifier:
                                                                                taxid,
                                                                            gene_name: spec_opt_gene(
                                                                                s,
                                                                                p13,
                                                                            ).1,
                                                                            protein_existence:
                                                                                existence,
                                                                            sequence_version: sv,
                                                                        },
                                                                    ),
                                                                },
                                                            },
                                                        },
                                                    },
                                                },
                                            },
                                        },
                                    },
                                },
                            },
                        },
                    },
                },
            },
        },
    }
}

/// How a returned record renders the byte-level fields: identifier, entry
/// name and taxonomy identifier are ASCII and taken as they stand; the
/// free-text fields are trimmed of whitespace and decoded permissively.
pub open spec fn canonical_record_matches(p: CanonicalParts, u: UniProtKB) -> bool {
    &&& u.database == p.database
    &&& u.identifier@ == ascii_chars(p.identifier)
    &&& u.entry_name@ == ascii_chars(p.entry_name)
    &&& u.protein_name@ == lossy_of(trimmed(p.protein_name))
    &&& u.organism_name@ == lossy_of(trimmed(p.organism_name))
    &&& u.organism_identifier@ == ascii_chars(p.organism_identifier)
    &&& match (u.gene_name, p.gene_name) {
        (Option::None, Option::None) => true,
        (Option::Some(g), Option::Some(pg)) => g@ == lossy_of(trimmed(pg)),
        _ => false,
    }
    &&& u.protein_existence == p.protein_existence
    &&& u.sequence_version@ == lossy_of(trimmed(p.sequence_version))
}

/// How a returned error renders a failure: the unconsumed remainder from the
/// failure position on, and the category of the sub-parser that refused.
pub open spec fn failure_matches(s: Seq<u8>, f: Failure, e: UniProtHeaderError) -> bool {
    match f {
        Failure::Malformed(at, kind) => e matches UniProtHeaderError::ParsingError(rest, k2)
            && rest@ == s.subrange(at as int, s.len() as int) && k2 == kind,
        Failure::Incomplete => e == UniProtHeaderError::Incomplete,
    }
}

/// Full contract of [`uniprotkb`] over the spec-level grammar.
pub open spec fn canonical_post(s: Seq<u8>, r: Result<UniProtKB, UniProtHeaderError>) -> bool {
    match parse_canonical(s) {
        Ok(p) => r matches Ok(u) && canonical_record_matches(p, u),
        Err(f) => r matches Err(e) && failure_matches(s, f, e),
    }
}

/// Identical bytes always parse to identical results: the grammar is a
/// function of the input sequence and of nothing else.
pub proof fn lemma_parse_canonical_deterministic(s1: Seq<u8>, s2: Seq<u8>)
    requires
        s1 =~= s2,
    ensures
        parse_canonical(s1) == parse_canonical(s2),
{
    assert(s1 == s2);
}

/// Two canonical records agree on everything observable.
pub open spec fn canonical_records_agree(u1: UniProtKB, u2: UniProtKB) -> bool {
    &&& u1.database == u2.database
    &&& u1.identifier@ == u2.identifier@
    &&& u1.entry_name@ == u2.entry_name@
    &&& u1.protein_name@ == u2.protein_name@
    &&& u1.organism_name@ == u2.organism_name@
    &&& u1.organism_identifier@ == u2.organism_identifier@
    &&& match (u1.gene_name, u2.gene_name) {
        (Option::None, Option::None) => true,
        (Option::Some(a), Option::Some(b)) => a@ == b@,
        _ => false,
    }
    &&& u1.protein_existence == u2.protein_existence
    &&& u1.sequence_version@ == u2.sequence_version@
}

/// Two parse errors agree on everything observable.
pub open spec fn errors_agree(e1: UniProtHeaderError, e2: UniProtHeaderError) -> bool {
    match (e1, e2) {
        (
            UniProtHeaderError::ParsingError(v1, k1),
            UniProtHeaderError::ParsingError(v2, k2),
        ) => v1@ == v2@ && k1 == k2,
        (UniProtHeaderError::Incomplete, UniProtHeaderError::Incomplete) => true,
        _ => false,
    }
}

/// Parsing is pure down to the returned values: two results that both meet
/// the contract of [`uniprotkb`] on the same bytes are the same record, or
/// the same failure.
pub proof fn lemma_uniprotkb_deterministic(
    s: Seq<u8>,
    r1: Result<UniProtKB, UniProtHeaderError>,
    r2: Result<UniProtKB, UniProtHeaderError>,
)
    requires
        canonical_post(s, r1),
        canonical_post(s, r2),
    ensures
        match (r1, r2) {
            (Ok(u1), Ok(u2)) => canonical_records_agree(u1, u2),
            (Err(e1), Err(e2)) => errors_agree(e1, e2),
            _ => false,
        },
{
}

proof fn lemma_clean_field(v: Seq<u8>)
    requires
        v.len() > 0,
        forall|k: int|
            0 <= k < v.len() ==> (is_alnum_byte(#[trigger] v[k]) || v[k] == UNDERSCORE_BYTE),
    ensures
        ascii_seq(v),
        trimmed(v) == v,
{
    lemma_trimmed_no_ws(v);
}

fn parse_uniprotkb(input: &[u8]) -> (r: Result<UniProtKB, Failure>)
    ensures
        match parse_canonical(input@) {
            Ok(p) => r matches Ok(u) && canonical_record_matches(p, u),
            Err(f) => r == Err::<UniProtKB, Failure>(f),
        },
        r matches Err(Failure::Malformed(at, _)) ==> at <= input@.len(),
{
    let p1 = match chevron(input, 0) {
        Ok(j) => j,
        Err(f) => {
            return Err(f);
        },
    };
    let (p2, database) = match db(input, p1) {
        Ok(x) => x,
        Err(f) => {
            return Err(f);
        },
    };
    let p3 = match pipe(input, p2) {
        Ok(j) => j,
        Err(f) => {
            return Err(f);
        },
    };
    let (p4, idv) = match unique_id(input, p3) {
        Ok(x) => x,
        Err(f) => {
            return Err(f);
        },
    };
    let p5 = match pipe(input, p4) {
        Ok(j) => j,
        Err(f) => {
            return Err(f);
        },
    };
    let (p6, entryv) = match entry_name(input, p5) {
        Ok(x) => x,
        Err(f) => {
            return Err(f);
        },
    };
    let p7 = match space(input, p6) {
        Ok(j) => j,
        Err(f) => {
            return Err(f);
        },
    };
    let (p8, proteinv) = match until_os(input, p7) {
        Ok(x) => x,
        Err(f) => {
            return Err(f);
        },
    };
    let p9 = match space(input, p8) {
        Ok(j) => j,
        Err(f) => {
            return Err(f);
        },
    };
    let (p10, organismv) = match os_until_ox(input, p9) {
        Ok(x) => x,
        Err(f) => {
            return Err(f);
        },
    };
    let p11 = match space(input, p10) {
        Ok(j) => j,
        Err(f) => {
            return Err(f);
        },
    };
    let (p12, taxv) = match organism_id(input, p11) {
        Ok(x) => x,
        Err(f) => {
            return Err(f);
        },
    };
    let p13 = match space(input, p12) {
        Ok(j) => j,
        Err(f) => {
            return Err(f);
        },
    };
    let (p14, genev, _ws) = optional_gene_name(input, p13);
    let (p15, existence) = match evidence(input, p14) {
        Ok(x) => x,
        Err(f) => {
            return Err(f);
        },
    };
    let p16 = match space(input, p15) {
        Ok(j) => j,
        Err(f) => {
            return Err(f);
        },
    };
    let (_p17, svv) = match version(input, p16) {
        Ok(x) => x,
        Err(f) => {
            return Err(f);
        },
    };
    proof {
        lemma_unique_id_value_bytes(input@, p3 as int, p4 as int, idv@);
        lemma_clean_field(idv@);
        lemma_entry_name_value_bytes(input@, p5 as int, p6 as int, entryv@);
        lemma_clean_field(entryv@);
        lemma_organism_id_value_bytes(input@, p11 as int, p12 as int, taxv@);
        lemma_clean_field(taxv@);
    }
    let identifier = trimmed_string(&idv);
    let entry = plain_string(&entryv);
    let protein_name = trimmed_string(&proteinv);
    let organism_name = trimmed_string(&organismv);
    let organism_identifier = trimmed_string(&taxv);
    let gene_name = match genev {
        Some(g) => Some(trimmed_string(&g)),
        None => None,
    };
    let sequence_version = trimmed_string(&svv);
    Ok(
        UniProtKB {
            database,
            identifier,
            entry_name: entry,
            protein_name,
            organism_name,
            organism_identifier,
            gene_name,
            protein_existence: existence,
            sequence_version,
        },
    )
}

/// Parses a canonical UniProtKB FASTA header.
///
/// The same bytes always yield the same record or the same failure; a
/// malformed line is reported as data, never as a panic, so one bad line
/// cannot abort a batch.
pub fn uniprotkb(string: &[u8]) -> (r: Result<UniProtKB, UniProtHeaderError>)
    ensures
        canonical_post(string@, r),
{
    match parse_uniprotkb(string) {
        Ok(u) => Ok(u),
        Err(f) => match f {
            Failure::Malformed(at, kind) => {
                let rest = bytes_range(string, at, string.len());
                Err(UniProtHeaderError::ParsingError(rest, kind))
            },
            Failure::Incomplete => Err(UniProtHeaderError::Incomplete),
        },
    }
}

} // verus!
