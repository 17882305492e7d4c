//! The preview text the document viewer shows for a document that holds no content of its
//! own, by the document's type.

use vstd::prelude::*;
use crate::text::{lowercase, push_char, push_text, text_eq, to_lower};

verus! {

/// The PDF preview up to the document name.
pub const PDF_HEAD: &'static str = "DOCUMENT: ";

/// The PDF preview between the two places that name the document.
pub const PDF_MIDDLE: &'static str = "\n━━━━━━━━━━━━━━━━━━━━━━━━━━━━━━━━━━━━━━━━\nGenerated: 22 Jun 2025\nReference: DOC-28471\nStatus: ACTIVE\n\nSUMMARY\nThis document serves as an official record pertaining to ";

/// The PDF preview after the second place that names the document.
pub const PDF_TAIL: &'static str = ".\nAll details contained herein have been verified and are accurate\nas of the date of generation.\n\nCONTENT\n━━━━━━━━━━━━━━━━━━━━━━━━━━━━━━━━━━━━━━━━\nSection 1 — Overview\nThis section provides a high-level summary of the subject matter\ndescribed by this document. All parties are advised to review\nthe complete contents before proceeding.\n\nSection 2 — Details\nFull legal description and relevant information specific to the\nnamed subject has been recorded. Supporting evidence is appended\nat the rear of this document.\n\nSection 3 — Certification\nThis document has been certified and notarised. Any alterations\nrender this document void. Contact the issuing authority for\ncertified copies.\n\n━━━━━━━━━━━━━━━━━━━━━━━━━━━━━━━━━━━━━━━━\nPage 1 of 1  |  CONFIDENTIAL";

/// The Word preview between the two places that name the document.
pub const DOCX_MIDDLE: &'static str = "\n\nPrepared by: Red Asset Management\nDate: 22 June 2025\nVersion: 1.0\n\n──────────────────────────────────────\n\nINTRODUCTION\n\nThis document outlines the key terms and conditions associated\nwith ";

/// The Word preview after the second place that names the document.
pub const DOCX_TAIL: &'static str = ". It has been prepared in accordance with applicable\nregulations and internal policy.\n\nMAIN BODY\n\nThe following details apply to the subject of this document:\n\n  • All parties have been duly notified of their obligations.\n  • The effective date is confirmed as 1 January 2025.\n  • Terms are binding for a period of 12 months unless varied.\n  • Renewal is subject to mutual agreement in writing.\n\nSIGNATURE BLOCK\n\nAuthorised by: ________________________\nPosition:      Portfolio Manager\nDate:          22 / 06 / 2025";

/// The spreadsheet preview up to the document name.
pub const XLSX_HEAD: &'static str = "┌─────────────────────────────────────────────────────────┐\n│  ";

/// The spreadsheet preview after the padded document name.
pub const XLSX_TAIL: &'static str = "│\n│  Generated: 22 Jun 2025                                 │\n├───────────────────┬──────────────┬──────────────────────┤\n│  Description      │  Value       │  Notes               │\n├───────────────────┼──────────────┼──────────────────────┤\n│  Opening Balance  │  $1,200,000  │  FY2024              │\n│  Acquisitions     │  $340,000    │  Q1-Q2               │\n│  Disposals        │  -$80,000    │  Q3                  │\n│  Revaluations     │  $120,000    │  Per valuer report   │\n│  Closing Balance  │  $1,580,000  │  FY2025              │\n├───────────────────┼──────────────┼──────────────────────┤\n│  Net Change       │  +$380,000   │  +31.7%              │\n└───────────────────┴──────────────┴──────────────────────┘\n\n  Notes:\n  All figures are in AUD. Subject to audit adjustment.\n  Prepared by Finance — Internal Use Only.";

/// The plain-text preview up to the document name.
pub const TXT_HEAD: &'static str = "Document: ";

/// The plain-text preview after the document name.
pub const TXT_TAIL: &'static str = "\nDate: 22 June 2025\n\nThis is a plain-text record associated with the above document.\nNo special formatting is required for this file type.\n\nKey points:\n- Document is current as of the date above.\n- Retain for a minimum of 7 years per policy.\n- Any queries should be directed to the portfolio manager.";

/// `name` padded with spaces on the right to `width` characters, as `{:<width}` formats it.
pub open spec fn padded(name: Seq<char>, width: nat) -> Seq<char> {
    if name.len() < width {
        name + Seq::new((width - name.len()) as nat, |i: int| ' ')
    } else {
        name
    }
}

/// The preview of a document named `name` of type `file_type` (whatever its case): a
/// certificate for a PDF, a memo for a Word file, a table for a spreadsheet, a short record
/// for plain text, and a note that no preview exists for any other type.
pub open spec fn mock_doc_content_spec(name: Seq<char>, file_type: Seq<char>) -> Seq<char> {
    preview_for_spec(name, lowercase(file_type), file_type)
}

/// The preview of a document named `name` whose type reads `file_type`, in lowercase
/// `lower`.
pub open spec fn preview_for_spec(name: Seq<char>, lower: Seq<char>, file_type: Seq<char>) -> Seq<char> {
    let t = lower;
    if t == "pdf"@ {
        PDF_HEAD@ + name + PDF_MIDDLE@ + name + PDF_TAIL@
    } else if t == "docx"@ {
        name + DOCX_MIDDLE@ + name + DOCX_TAIL@
    } else if t == "xlsx"@ {
        XLSX_HEAD@ + padded(name, 55) + XLSX_TAIL@
    } else if t == "txt"@ {
        TXT_HEAD@ + name + TXT_TAIL@
    } else {
        "Document: "@ + name + "\n\nNo preview available for this file type ("@ + file_type + ")."@
    }
}

/// The preview text of a document without content of its own.
pub fn mock_doc_content(name: &str, file_type: &str) -> (s: String)
    ensures
        s@ == mock_doc_content_spec(name@, file_type@),
{
    let t = to_lower(file_type);
    preview_for(name, t.as_str(), file_type)
}

/// The preview text of a document named `name` whose type reads `file_type`, given that
/// type in lowercase.
pub fn preview_for(name: &str, lower: &str, file_type: &str) -> (s: String)
    ensures
        s@ == preview_for_spec(name@, lower@, file_type@),
{
    let t = lower;
    let mut s = String::new();
    if text_eq(t, "pdf") {
        push_text(&mut s, PDF_HEAD);
        push_text(&mut s, name);
        push_text(&mut s, PDF_MIDDLE);
        push_text(&mut s, name);
        push_text(&mut s, PDF_TAIL);
    } else if text_eq(t, "docx") {
        push_text(&mut s, name);
        push_text(&mut s, DOCX_MIDDLE);
        push_text(&mut s, name);
        push_text(&mut s, DOCX_TAIL);
    } else if text_eq(t, "xlsx") {
        push_text(&mut s, XLSX_HEAD);
        push_text(&mut s, name);
        let ghost before = s@;
        let mut n: usize = name.unicode_len();
        while n < 55
            invariant
                n <= 55 || n == name@.len(),
                name@.len() <= n,
                s@ == before + Seq::new((n - name@.len()) as nat, |i: int| ' '),
            decreases 55 - n,
        {
            push_char(&mut s, ' ');
            n = n + 1;
            assert(s@ =~= before + Seq::new((n - name@.len()) as nat, |i: int| ' '));
        }
        assert(before + Seq::new((n - name@.len()) as nat, |i: int| ' ') =~= XLSX_HEAD@ + padded(name@, 55));
        push_text(&mut s, XLSX_TAIL);
    } else if text_eq(t, "txt") {
        push_text(&mut s, TXT_HEAD);
        push_text(&mut s, name);
        push_text(&mut s, TXT_TAIL);
    } else {
        push_text(&mut s, "Document: ");
        push_text(&mut s, name);
        push_text(&mut s, "\n\nNo preview available for this file type (");
        push_text(&mut s, file_type);
        push_text(&mut s, ").");
    }
    assert(s@ =~= preview_for_spec(name@, lower@, file_type@));
    s
}

} // verus!
