//! A human-readable summary of the estimated verifier costs.

use vstd::prelude::*;

use super::statistics::CircuitStatistics;
use crate::extraction::text::{decimal, push_decimal};

verus! {

/// `n` copies of the character.
pub open spec fn repeat_char(c: char, n: nat) -> Seq<char> {
    Seq::new(n, |i: int| c)
}

/// `title` centred in 40 columns of `=` (the extra one on the right).
pub open spec fn banner(title: Seq<char>) -> Seq<char> {
    let pad = if title.len() < 40 { (40 - title.len()) as nat } else { 0 };
    repeat_char('=', pad / 2) + title + repeat_char('=', (pad - pad / 2) as nat)
}

/// `label` left-aligned in 30 columns, then the value.
pub open spec fn field(label: Seq<char>, value: Seq<char>) -> Seq<char> {
    let pad = if label.len() < 30 { (30 - label.len()) as nat } else { 0 };
    "  "@ + label + repeat_char(' ', pad) + " "@ + value
}

/// The numbers separated by `/`.
pub open spec fn slashed(a: Seq<nat>) -> Seq<char>
    decreases a.len(),
{
    if a.len() == 0 {
        Seq::empty()
    } else if a.len() == 1 {
        decimal(a[0])
    } else {
        slashed(a.drop_last()) + " / "@ + decimal(a.last())
    }
}

/// A list of numbers as `[a, b, c]`.
pub open spec fn number_list(v: Seq<usize>) -> Seq<char> {
    "["@ + comma_list(v) + "]"@
}

pub open spec fn comma_list(v: Seq<usize>) -> Seq<char>
    decreases v.len(),
{
    if v.len() == 0 {
        Seq::empty()
    } else if v.len() == 1 {
        decimal(v[0] as nat)
    } else {
        comma_list(v.drop_last()) + ", "@ + decimal(v.last() as nat)
    }
}

/// The largest number, 0 for none.
pub open spec fn max_or_zero(v: Seq<usize>) -> nat
    decreases v.len(),
{
    if v.len() == 0 {
        0
    } else {
        let m = max_or_zero(v.drop_last());
        if v.last() > m { v.last() as nat } else { m }
    }
}

/// The circuit's sizes.
pub open spec fn summary_head(s: CircuitStatistics) -> Seq<char> {
    banner(" Circuit Summary "@) + "\n"@ + field("degree:"@, decimal(s.degree as nat)) + "\n"@ + field(
        "proof:"@,
        decimal(s.proof_size as nat) + " bytes"@,
    ) + "\n"@ + field("vk:"@, decimal(s.vk_size as nat) + " bytes"@) + "\n"@ + field(
        "public inputs:"@,
        decimal(s.public_inputs as nat),
    ) + "\n"@ + field("committed instances:"@, decimal(s.committed_instances as nat)) + "\n"@ + "\n\n"@
}

/// The transcript's hashes.
pub open spec fn summary_transcript(s: CircuitStatistics) -> Seq<char> {
    banner(" Circuit Operations "@) + "\n"@ + banner(" Transcript "@) + "\n"@ + field(
        "hash :"@,
        decimal(s.hash@.len()),
    ) + "\n"@ + field("max input size :"@, decimal(max_or_zero(s.hash@)) + " bytes"@) + "\n"@
}

/// The scalar operations.
pub open spec fn summary_scalars(s: CircuitStatistics) -> Seq<char> {
    banner(" Scalar ops "@) + "\n"@ + field(
        "add/sub/neg:"@,
        slashed(seq![s.add_scalar as nat, s.sub_scalar as nat, s.neg_scalar as nat]),
    ) + "\n"@ + field(
        "mul/inv/pow:"@,
        slashed(seq![s.mul_scalar as nat, s.inv_scalar as nat, s.pow_scalar as nat]),
    ) + "\n"@ + field("to/from_bytes:"@, slashed(seq![s.to_bytes_scalar as nat, s.from_bytes_scalar as nat]))
        + "\n"@ + field("from_int:"@, decimal(s.from_int_scalar as nat)) + "\n"@
}

/// The point operations.
pub open spec fn summary_points(s: CircuitStatistics) -> Seq<char> {
    banner(" Point ops "@) + "\n"@ + field("add/mul:"@, slashed(seq![s.add_point as nat, s.mul_point as nat]))
        + "\n"@ + field(
        "decomp/compress:"@,
        slashed(seq![s.decompress_point as nat, s.compress_point as nat]),
    ) + "\n"@ + field("from_bytes:"@, decimal(s.from_bytes_point as nat)) + "\n"@ + field(
        "MSM sizes:"@,
        number_list(s.msm@),
    ) + "\n"@
}

/// The pairing.
pub open spec fn summary_pairing(s: CircuitStatistics) -> Seq<char> {
    banner(" Pairing "@) + "\n"@ + field("Miller loop:"@, decimal(s.miller_loop as nat)) + "\n"@ + field(
        "pairing:"@,
        decimal(s.pairing as nat),
    )
}

/// The summary: the circuit's sizes, then the verifier's transcript,
/// scalar, point and pairing operations.
pub open spec fn spec_summary(s: CircuitStatistics) -> Seq<char> {
    summary_head(s) + summary_transcript(s) + summary_scalars(s) + summary_points(s) + summary_pairing(s)
}

fn push_repeat(out: &mut String, c: &str, n: usize)
    requires
        c@.len() == 1,
    ensures
        final(out)@ == old(out)@ + repeat_char(c@[0], n as nat),
{
    let mut i: usize = 0;
    while i < n
        invariant
            i <= n,
            c@.len() == 1,
            out@ == old(out)@ + repeat_char(c@[0], i as nat),
        decreases n - i,
    {
        out.append(c);
        i = i + 1;
        assert(out@ =~= old(out)@ + repeat_char(c@[0], i as nat));
    }
}

fn push_banner(out: &mut String, title: &str)
    requires
        title@.len() < 40,
    ensures
        final(out)@ == old(out)@ + banner(title@) + "\n"@,
{
    let len = title.unicode_len();
    let pad = 40 - len;
    proof {
        reveal_strlit("=");
    }
    push_repeat(out, "=", pad / 2);
    out.append(title);
    push_repeat(out, "=", pad - pad / 2);
    out.append("\n");
    assert(final(out)@ =~= old(out)@ + banner(title@) + "\n"@);
}

/// Appends the padded label of a field.
fn push_label(out: &mut String, label: &str)
    requires
        label@.len() < 30,
    ensures
        final(out)@ == old(out)@ + "  "@ + label@ + repeat_char(' ', (30 - label@.len()) as nat) + " "@,
{
    let len = label.unicode_len();
    proof {
        reveal_strlit(" ");
    }
    out.append("  ");
    out.append(label);
    push_repeat(out, " ", 30 - len);
    out.append(" ");
    assert(final(out)@ =~= old(out)@ + "  "@ + label@ + repeat_char(' ', (30 - label@.len()) as nat) + " "@);
}

fn push_slashed(out: &mut String, a: &Vec<usize>)
    requires
        a@.len() >= 1,
    ensures
        final(out)@ == old(out)@ + slashed(Seq::new(a@.len(), |i: int| a@[i] as nat)),
{
    let ghost v = Seq::new(a@.len(), |i: int| a@[i] as nat);
    push_decimal(out, a[0] as u64);
    let n = a.len();
    let mut i: usize = 1;
    assert(v.take(1) =~= seq![v[0]]);
    while i < n
        invariant
            1 <= i <= n,
            n == a@.len(),
            v == Seq::new(a@.len(), |i: int| a@[i] as nat),
            out@ == old(out)@ + slashed(v.take(i as int)),
        decreases n - i,
    {
        out.append(" / ");
        push_decimal(out, a[i] as u64);
        i = i + 1;
        proof {
            assert(v.take(i as int).drop_last() =~= v.take(i - 1));
            assert(out@ =~= old(out)@ + slashed(v.take(i as int)));
        }
    }
    assert(v.take(n as int) =~= v);
}

fn push_list(out: &mut String, v: &Vec<usize>)
    ensures
        final(out)@ == old(out)@ + number_list(v@),
{
    out.append("[");
    let n = v.len();
    let mut i: usize = 0;
    assert(v@.take(0) =~= Seq::<usize>::empty());
    let ghost start = out@;
    while i < n
        invariant
            i <= n,
            n == v@.len(),
            out@ == start + comma_list(v@.take(i as int)),
        decreases n - i,
    {
        if i > 0 {
            out.append(", ");
        }
        push_decimal(out, v[i] as u64);
        i = i + 1;
        proof {
            assert(v@.take(i as int).drop_last() =~= v@.take(i - 1));
            if i == 1 {
                assert(v@.take(1) =~= seq![v@[0]]);
            }
            assert(out@ =~= start + comma_list(v@.take(i as int)));
        }
    }
    assert(v@.take(n as int) =~= v@);
    out.append("]");
}

fn max_hash(v: &Vec<usize>) -> (m: usize)
    ensures
        m == max_or_zero(v@),
{
    let mut m: usize = 0;
    let n = v.len();
    let mut i: usize = 0;
    while i < n
        invariant
            i <= n,
            n == v@.len(),
            m == max_or_zero(v@.take(i as int)),
        decreases n - i,
    {
        assert(v@.take(i + 1).drop_last() =~= v@.take(i as int));
        if v[i] > m {
            m = v[i];
        }
        i = i + 1;
    }
    assert(v@.take(n as int) =~= v@);
    m
}

/// Appends a field holding a number, and ends the line.
fn push_number_field(out: &mut String, label: &str, n: u64)
    requires
        label@.len() < 30,
    ensures
        final(out)@ == old(out)@ + field(label@, decimal(n as nat)) + "\n"@,
{
    push_label(out, label);
    push_decimal(out, n);
    out.append("\n");
    assert(final(out)@ =~= old(out)@ + field(label@, decimal(n as nat)) + "\n"@);
}

/// Appends a field holding a number of bytes, and ends the line.
fn push_bytes_field(out: &mut String, label: &str, n: u64)
    requires
        label@.len() < 30,
    ensures
        final(out)@ == old(out)@ + field(label@, decimal(n as nat) + " bytes"@) + "\n"@,
{
    push_label(out, label);
    push_decimal(out, n);
    out.append(" bytes");
    out.append("\n");
    assert(final(out)@ =~= old(out)@ + field(label@, decimal(n as nat) + " bytes"@) + "\n"@);
}

/// Appends a field holding numbers separated by `/`.
fn push_slashed_field(out: &mut String, label: &str, a: &Vec<usize>)
    requires
        label@.len() < 30,
        a@.len() >= 1,
    ensures
        final(out)@ == old(out)@ + field(label@, slashed(Seq::new(a@.len(), |i: int| a@[i] as nat))),
{
    push_label(out, label);
    push_slashed(out, a);
    assert(final(out)@ =~= old(out)@ + field(label@, slashed(Seq::new(a@.len(), |i: int| a@[i] as nat))));
}

impl CircuitStatistics {
    fn push_head(&self, out: &mut String)
        ensures
            final(out)@ == old(out)@ + summary_head(*self),
    {
        proof {
            reveal_strlit(" Circuit Summary ");
            reveal_strlit("degree:");
            reveal_strlit("proof:");
            reveal_strlit("vk:");
            reveal_strlit("public inputs:");
            reveal_strlit("committed instances:");
        }
        push_banner(out, " Circuit Summary ");
        push_number_field(out, "degree:", self.degree as u64);
        push_bytes_field(out, "proof:", self.proof_size as u64);
        push_bytes_field(out, "vk:", self.vk_size as u64);
        push_number_field(out, "public inputs:", self.public_inputs as u64);
        push_number_field(out, "committed instances:", self.committed_instances as u64);
        out.append("\n\n");
        assert(final(out)@ =~= old(out)@ + summary_head(*self));
    }

    fn push_transcript(&self, out: &mut String)
        ensures
            final(out)@ == old(out)@ + summary_transcript(*self),
    {
        proof {
            reveal_strlit(" Circuit Operations ");
            reveal_strlit(" Transcript ");
            reveal_strlit("hash :");
            reveal_strlit("max input size :");
        }
        push_banner(out, " Circuit Operations ");
        push_banner(out, " Transcript ");
        push_number_field(out, "hash :", self.hash.len() as u64);
        push_bytes_field(out, "max input size :", max_hash(&self.hash) as u64);
        assert(final(out)@ =~= old(out)@ + summary_transcript(*self));
    }

    fn push_scalars(&self, out: &mut String)
        ensures
            final(out)@ == old(out)@ + summary_scalars(*self),
    {
        proof {
            reveal_strlit(" Scalar ops ");
            reveal_strlit("add/sub/neg:");
            reveal_strlit("mul/inv/pow:");
            reveal_strlit("to/from_bytes:");
            reveal_strlit("from_int:");
        }
        push_banner(out, " Scalar ops ");
        let a = vec![self.add_scalar, self.sub_scalar, self.neg_scalar];
        assert(Seq::new(a@.len(), |i: int| a@[i] as nat) =~= seq![self.add_scalar as nat, self.sub_scalar as nat, self.neg_scalar as nat]);
        push_slashed_field(out, "add/sub/neg:", &a);
        out.append("\n");
        let b = vec![self.mul_scalar, self.inv_scalar, self.pow_scalar];
        assert(Seq::new(b@.len(), |i: int| b@[i] as nat) =~= seq![self.mul_scalar as nat, self.inv_scalar as nat, self.pow_scalar as nat]);
        push_slashed_field(out, "mul/inv/pow:", &b);
        out.append("\n");
        let c = vec![self.to_bytes_scalar, self.from_bytes_scalar];
        assert(Seq::new(c@.len(), |i: int| c@[i] as nat) =~= seq![self.to_bytes_scalar as nat, self.from_bytes_scalar as nat]);
        push_slashed_field(out, "to/from_bytes:", &c);
        out.append("\n");
        push_number_field(out, "from_int:", self.from_int_scalar as u64);
        assert(final(out)@ =~= old(out)@ + summary_scalars(*self));
    }

    fn push_points(&self, out: &mut String)
        ensures
            final(out)@ == old(out)@ + summary_points(*self),
    {
        proof {
            reveal_strlit(" Point ops ");
            reveal_strlit("add/mul:");
            reveal_strlit("decomp/compress:");
            reveal_strlit("from_bytes:");
            reveal_strlit("MSM sizes:");
        }
        push_banner(out, " Point ops ");
        let a = vec![self.add_point, self.mul_point];
        assert(Seq::new(a@.len(), |i: int| a@[i] as nat) =~= seq![self.add_point as nat, self.mul_point as nat]);
        push_slashed_field(out, "add/mul:", &a);
        out.append("\n");
        let b = vec![self.decompress_point, self.compress_point];
        assert(Seq::new(b@.len(), |i: int| b@[i] as nat) =~= seq![self.decompress_point as nat, self.compress_point as nat]);
        push_slashed_field(out, "decomp/compress:", &b);
        out.append("\n");
        push_number_field(out, "from_bytes:", self.from_bytes_point as u64);
        push_label(out, "MSM sizes:");
        push_list(out, &self.msm);
        out.append("\n");
        assert(final(out)@ =~= old(out)@ + summary_points(*self));
    }

    fn push_pairing(&self, out: &mut String)
        ensures
            final(out)@ == old(out)@ + summary_pairing(*self),
    {
        proof {
            reveal_strlit(" Pairing ");
            reveal_strlit("Miller loop:");
            reveal_strlit("pairing:");
        }
        push_banner(out, " Pairing ");
        push_number_field(out, "Miller loop:", self.miller_loop as u64);
        push_label(out, "pairing:");
        push_decimal(out, self.pairing as u64);
        assert(final(out)@ =~= old(out)@ + summary_pairing(*self));
    }

    /// The summary of the estimate, as text.
    pub fn summary(&self) -> (s: String)
        ensures
            s@ == spec_summary(*self),
    {
        let mut s = String::new();
        self.push_head(&mut s);
        self.push_transcript(&mut s);
        self.push_scalars(&mut s);
        self.push_points(&mut s);
        self.push_pairing(&mut s);
        assert(s@ =~= spec_summary(*self));
        s
    }
}

} // verus!
