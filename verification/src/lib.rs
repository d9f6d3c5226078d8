//! Parsers for UniProtKB FASTA header lines.
//!
//! A header line such as
//! `>sp|P18355|YPFU_ECOLI Some protein OS=Escherichia coli OX=83333 PE=3 SV=1`
//! is taken apart into a structured record. Two variants exist: the canonical
//! header, parsed by [`uniprotkb`], and the isoform header (whose identifier
//! carries an isoform number and whose grammar ends after the gene name),
//! parsed by [`uniprotkb_iso`].

use vstd::prelude::*;

pub mod error;
pub mod parser;
pub mod text;
pub mod uniprotkb;
pub mod uniprotkb_isoform;

pub use error::FailureKind;
pub use error::Failure;
pub use error::UniProtHeaderError;
pub use uniprotkb::UniProtKB;
pub use uniprotkb::uniprotkb;
pub use uniprotkb_isoform::UniProtKBIsoform;
pub use uniprotkb_isoform::uniprotkb_iso;

verus! {

/// UniProtKB database of origin, written as `sp` or `tr` in the header.
#[derive(Debug, PartialEq, Eq, Clone, Copy)]
pub enum Database {
    /// UniProtKB/Swiss-Prot, the reviewed section (`sp`).
    SwissProt,
    /// UniProtKB/TrEMBL, the unreviewed section (`tr`).
    TrEMBL,
}

/// Protein existence level, written as `PE=1` .. `PE=5` in the header.
#[derive(Debug, PartialEq, Eq, Clone, Copy)]
pub enum ProteinExistence {
    /// 1: experimental evidence at protein level.
    ExperimentalEvidenceProtein,
    /// 2: experimental evidence at transcript level.
    ExperimentalEvidenceTranscript,
    /// 3: protein inferred from homology.
    InferredHomology,
    /// 4: protein predicted.
    Predicted,
    /// 5: protein uncertain.
    Uncertain,
}

} // verus!
