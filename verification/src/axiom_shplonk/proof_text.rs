//! How the generated verifiers declare the proof's fields, read them from
//! the transcript, and hold the verifying key's commitments.

use vstd::prelude::*;

use super::items::{ItemView, ProofItemKind, items_view, spec_proof_items};
use super::layout::AxiomLayout;
use super::names::{snake_to_camel, snake_to_lower_camel};
use super::openings::{push_line, push_literal_line};
use super::text::{join, join_strings, texts};
use crate::extraction::text::{decimal, push_decimal};

verus! {

/// How Aiken reads an element of the proof.
pub open spec fn aiken_read(kind: ProofItemKind) -> Seq<char> {
    match kind {
        ProofItemKind::Point => "read_point"@,
        ProofItemKind::Scalar => "read_scalar"@,
        ProofItemKind::Challenge => "squeeze_challenge"@,
    }
}

/// How Plinth reads an element of the proof.
pub open spec fn plinth_read(kind: ProofItemKind) -> Seq<char> {
    match kind {
        ProofItemKind::Point => "readRawPoint"@,
        ProofItemKind::Scalar => "readScalar"@,
        ProofItemKind::Challenge => "squeezeChallenge"@,
    }
}

/// The Plinth type of an element of the proof.
pub open spec fn plinth_type(kind: ProofItemKind) -> Seq<char> {
    match kind {
        ProofItemKind::Point => "RawPoint"@,
        _ => "Scalar"@,
    }
}

/// The Aiken function reading the proof: each element read from the
/// transcript in order, then all of them gathered.
pub open spec fn spec_aiken_parse_proof(items: Seq<ItemView>) -> Seq<char> {
    join(
        seq!["  let transcript = construct_transcript(proof, transcript_rep)"@] + Seq::new(
            items.len(),
            |i: int| "  let ("@ + items[i].0 + ", transcript) = "@ + aiken_read(items[i].1) + "(transcript)"@,
        ) + seq!["  ProofPieces {"@] + Seq::new(items.len(), |i: int| "    "@ + items[i].0 + ","@) + seq!["  }"@],
        "\n"@,
    )
}

/// The Plinth function reading the proof, threading numbered states.
pub open spec fn spec_plinth_parse_proof(items: Seq<ItemView>) -> Seq<char> {
    join(
        seq!["    let !state0 = (proof, commonScalar transcriptRep emptyByteString)"@] + Seq::new(
            items.len(),
            |i: int|
                "        (!"@ + snake_to_camel(items[i].0) + "', !state"@ + decimal((i + 1) as nat) + ") = "@
                    + plinth_read(items[i].1) + " state"@ + decimal(i as nat),
        ) + seq!["     in ProofPieces"@] + Seq::new(
            items.len(),
            |i: int| "            "@ + snake_to_camel(items[i].0) + "'"@,
        ),
        "\n"@,
    )
}

/// The Plinth record fields of the proof.
pub open spec fn spec_plinth_proof_fields(items: Seq<ItemView>) -> Seq<char> {
    join(
        Seq::new(
            items.len(),
            |i: int|
                (if i == 0 {
                    Seq::<char>::empty()
                } else {
                    "    , "@
                }) + snake_to_camel(items[i].0) + " :: "@ + plinth_type(items[i].1),
        ),
        "\n"@,
    )
}

fn aiken_read_text(kind: ProofItemKind) -> (s: &'static str)
    ensures
        s@ == aiken_read(kind),
{
    match kind {
        ProofItemKind::Point => "read_point",
        ProofItemKind::Scalar => "read_scalar",
        ProofItemKind::Challenge => "squeeze_challenge",
    }
}

fn plinth_read_text(kind: ProofItemKind) -> (s: &'static str)
    ensures
        s@ == plinth_read(kind),
{
    match kind {
        ProofItemKind::Point => "readRawPoint",
        ProofItemKind::Scalar => "readScalar",
        ProofItemKind::Challenge => "squeezeChallenge",
    }
}

impl AxiomLayout {
    /// The Aiken function body reading the proof from the transcript.
    pub fn aiken_parse_proof(&self) -> (s: String)
        ensures
            s@ == spec_aiken_parse_proof(spec_proof_items(*self)),
    {
        let items = self.proof_items();
        let ghost iv = items_view(items@);
        let mut lines: Vec<String> = Vec::new();
        push_literal_line(&mut lines, "  let transcript = construct_transcript(proof, transcript_rep)");
        let ghost h = texts(lines@);
        let n = items.len();
        let mut i: usize = 0;
        while i < n
            invariant
                i <= n,
                n == items@.len(),
                iv == items_view(items@),
                texts(lines@) == h + Seq::new(
                    i as nat,
                    |k: int| "  let ("@ + iv[k].0 + ", transcript) = "@ + aiken_read(iv[k].1) + "(transcript)"@,
                ),
            decreases n - i,
        {
            let mut line = String::from_str("  let (");
            line.append(items[i].name.snake.as_str());
            line.append(", transcript) = ");
            line.append(aiken_read_text(items[i].kind));
            line.append("(transcript)");
            push_line(&mut lines, line);
            i = i + 1;
            assert(texts(lines@) =~= h + Seq::new(
                i as nat,
                |k: int| "  let ("@ + iv[k].0 + ", transcript) = "@ + aiken_read(iv[k].1) + "(transcript)"@,
            ));
        }
        push_literal_line(&mut lines, "  ProofPieces {");
        let ghost h2 = texts(lines@);
        let mut i: usize = 0;
        while i < n
            invariant
                i <= n,
                n == items@.len(),
                iv == items_view(items@),
                texts(lines@) == h2 + Seq::new(i as nat, |k: int| "    "@ + iv[k].0 + ","@),
            decreases n - i,
        {
            let mut line = String::from_str("    ");
            line.append(items[i].name.snake.as_str());
            line.append(",");
            push_line(&mut lines, line);
            i = i + 1;
            assert(texts(lines@) =~= h2 + Seq::new(i as nat, |k: int| "    "@ + iv[k].0 + ","@));
        }
        push_literal_line(&mut lines, "  }");
        assert(texts(lines@) =~= seq!["  let transcript = construct_transcript(proof, transcript_rep)"@] + Seq::new(
            iv.len(),
            |k: int| "  let ("@ + iv[k].0 + ", transcript) = "@ + aiken_read(iv[k].1) + "(transcript)"@,
        ) + seq!["  ProofPieces {"@] + Seq::new(iv.len(), |k: int| "    "@ + iv[k].0 + ","@) + seq!["  }"@]);
        join_strings(&lines, "\n")
    }

    /// The Plinth function body reading the proof from the transcript.
    pub fn plinth_parse_proof(&self) -> (s: String)
        ensures
            s@ == spec_plinth_parse_proof(spec_proof_items(*self)),
    {
        let items = self.proof_items();
        let ghost iv = items_view(items@);
        let mut lines: Vec<String> = Vec::new();
        push_literal_line(&mut lines, "    let !state0 = (proof, commonScalar transcriptRep emptyByteString)");
        let ghost h = texts(lines@);
        let n = items.len();
        let mut i: usize = 0;
        while i < n
            invariant
                i <= n,
                n == items@.len(),
                iv == items_view(items@),
                texts(lines@) == h + Seq::new(
                    i as nat,
                    |k: int|
                        "        (!"@ + snake_to_camel(iv[k].0) + "', !state"@ + decimal((k + 1) as nat) + ") = "@
                            + plinth_read(iv[k].1) + " state"@ + decimal(k as nat),
                ),
            decreases n - i,
        {
            let mut line = String::from_str("        (!");
            let camel = snake_to_lower_camel(items[i].name.snake.as_str());
            line.append(camel.as_str());
            line.append("', !state");
            push_decimal(&mut line, (i + 1) as u64);
            line.append(") = ");
            line.append(plinth_read_text(items[i].kind));
            line.append(" state");
            push_decimal(&mut line, i as u64);
            push_line(&mut lines, line);
            i = i + 1;
            assert(texts(lines@) =~= h + Seq::new(
                i as nat,
                |k: int|
                    "        (!"@ + snake_to_camel(iv[k].0) + "', !state"@ + decimal((k + 1) as nat) + ") = "@
                        + plinth_read(iv[k].1) + " state"@ + decimal(k as nat),
            ));
        }
        push_literal_line(&mut lines, "     in ProofPieces");
        let ghost h2 = texts(lines@);
        let mut i: usize = 0;
        while i < n
            invariant
                i <= n,
                n == items@.len(),
                iv == items_view(items@),
                texts(lines@) == h2 + Seq::new(i as nat, |k: int| "            "@ + snake_to_camel(iv[k].0) + "'"@),
            decreases n - i,
        {
            let mut line = String::from_str("            ");
            let camel = snake_to_lower_camel(items[i].name.snake.as_str());
            line.append(camel.as_str());
            line.append("'");
            push_line(&mut lines, line);
            i = i + 1;
            assert(texts(lines@) =~= h2 + Seq::new(
                i as nat,
                |k: int| "            "@ + snake_to_camel(iv[k].0) + "'"@,
            ));
        }
        assert(texts(lines@) =~= seq!["    let !state0 = (proof, commonScalar transcriptRep emptyByteString)"@]
            + Seq::new(
            iv.len(),
            |k: int|
                "        (!"@ + snake_to_camel(iv[k].0) + "', !state"@ + decimal((k + 1) as nat) + ") = "@
                    + plinth_read(iv[k].1) + " state"@ + decimal(k as nat),
        ) + seq!["     in ProofPieces"@] + Seq::new(
            iv.len(),
            |k: int| "            "@ + snake_to_camel(iv[k].0) + "'"@,
        ));
        join_strings(&lines, "\n")
    }

    /// The proof's record fields in Plinth, one per line.
    pub fn plinth_proof_fields(&self) -> (s: String)
        ensures
            s@ == spec_plinth_proof_fields(spec_proof_items(*self)),
    {
        let items = self.proof_items();
        let ghost iv = items_view(items@);
        let mut lines: Vec<String> = Vec::new();
        let n = items.len();
        let mut i: usize = 0;
        while i < n
            invariant
                i <= n,
                n == items@.len(),
                iv == items_view(items@),
                texts(lines@) == Seq::new(
                    i as nat,
                    |k: int|
                        (if k == 0 {
                            Seq::<char>::empty()
                        } else {
                            "    , "@
                        }) + snake_to_camel(iv[k].0) + " :: "@ + plinth_type(iv[k].1),
                ),
            decreases n - i,
        {
            let mut line = if i == 0 {
                String::new()
            } else {
                String::from_str("    , ")
            };
            let camel = snake_to_lower_camel(items[i].name.snake.as_str());
            line.append(camel.as_str());
            line.append(" :: ");
            match items[i].kind {
                ProofItemKind::Point => line.append("RawPoint"),
                _ => line.append("Scalar"),
            }
            push_line(&mut lines, line);
            i = i + 1;
            assert(texts(lines@) =~= Seq::new(
                i as nat,
                |k: int|
                    (if k == 0 {
                        Seq::<char>::empty()
                    } else {
                        "    , "@
                    }) + snake_to_camel(iv[k].0) + " :: "@ + plinth_type(iv[k].1),
            ));
        }
        join_strings(&lines, "\n")
    }
}

/// The verifying key's commitments as numbered constants: `prefix`, the
/// index, `mid`, then, where `again` is set, the index a second time and
/// `mid2`, then the hexadecimal text and `close`; separated by blank lines.
pub open spec fn spec_constants(
    commitments: Seq<Seq<char>>,
    prefix: Seq<char>,
    mid: Seq<char>,
    again: bool,
    mid2: Seq<char>,
    close: Seq<char>,
) -> Seq<char> {
    join(
        Seq::new(
            commitments.len(),
            |i: int|
                prefix + decimal(i as nat) + mid + (if again {
                    decimal(i as nat) + mid2
                } else {
                    Seq::<char>::empty()
                }) + commitments[i] + close,
        ),
        "\n\n"@,
    )
}

fn constants(commitments: &Vec<String>, prefix: &str, mid: &str, again: bool, mid2: &str, close: &str) -> (s: String)
    ensures
        s@ == spec_constants(texts(commitments@), prefix@, mid@, again, mid2@, close@),
{
    let ghost c = texts(commitments@);
    let mut blocks: Vec<String> = Vec::new();
    let n = commitments.len();
    let mut i: usize = 0;
    while i < n
        invariant
            i <= n,
            n == commitments@.len(),
            c == texts(commitments@),
            texts(blocks@) == Seq::new(
                i as nat,
                |k: int|
                    prefix@ + decimal(k as nat) + mid@ + (if again {
                        decimal(k as nat) + mid2@
                    } else {
                        Seq::<char>::empty()
                    }) + c[k] + close@,
            ),
        decreases n - i,
    {
        let mut b = String::from_str(prefix);
        push_decimal(&mut b, i as u64);
        b.append(mid);
        let ghost before = b@;
        if again {
            push_decimal(&mut b, i as u64);
            b.append(mid2);
            assert(b@ =~= before + (decimal(i as nat) + mid2@));
        } else {
            assert(b@ =~= before + Seq::<char>::empty());
        }
        b.append(commitments[i].as_str());
        b.append(close);
        push_line(&mut blocks, b);
        i = i + 1;
        assert(texts(blocks@) =~= Seq::new(
            i as nat,
            |k: int|
                prefix@ + decimal(k as nat) + mid@ + (if again {
                    decimal(k as nat) + mid2@
                } else {
                    Seq::<char>::empty()
                }) + c[k] + close@,
        ));
    }
    join_strings(&blocks, "\n\n")
}

/// The fixed commitments as Aiken constants.
pub fn aiken_fixed_commitments(commitments: &Vec<String>) -> (s: String)
    ensures
        s@ == spec_constants(texts(commitments@), "const fixed_"@, " =\n  #\""@, false, ""@, "\""@),
{
    constants(commitments, "const fixed_", " =\n  #\"", false, "", "\"")
}

/// The permutation commitments as Aiken constants.
pub fn aiken_permutation_commitments(commitments: &Vec<String>) -> (s: String)
    ensures
        s@ == spec_constants(texts(commitments@), "const permutation_common_"@, " =\n  #\""@, false, ""@, "\""@),
{
    constants(commitments, "const permutation_common_", " =\n  #\"", false, "", "\"")
}

/// The fixed commitments as Plinth declarations.
pub fn plinth_fixed_commitments(commitments: &Vec<String>) -> (s: String)
    ensures
        s@ == spec_constants(
            texts(commitments@),
            "fixed"@,
            " :: RawPoint\nfixed"@,
            true,
            " = stringToBuiltinByteStringHex \""@,
            "\""@,
        ),
{
    constants(commitments, "fixed", " :: RawPoint\nfixed", true, " = stringToBuiltinByteStringHex \"", "\"")
}

/// The permutation commitments as Plinth declarations.
pub fn plinth_permutation_commitments(commitments: &Vec<String>) -> (s: String)
    ensures
        s@ == spec_constants(
            texts(commitments@),
            "permutationCommon"@,
            " :: RawPoint\npermutationCommon"@,
            true,
            " = stringToBuiltinByteStringHex \""@,
            "\""@,
        ),
{
    constants(
        commitments,
        "permutationCommon",
        " :: RawPoint\npermutationCommon",
        true,
        " = stringToBuiltinByteStringHex \"",
        "\"",
    )
}

} // verus!
