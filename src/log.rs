//! Append-only log: renders a snapshot as one text block.
//!
//! ```text
//! [YYYY-MM-DD HH:MM:SS]
//! CPU usage: <int>%
//! GPU<n> usage: <int>%        (per GPU, from 1)
//! Disk <name> usage: <int>%   (per volume)
//! Network receive: <x.yy> Kbps, Network transmit: <x.yy> Kbps
//! ```

use vstd::prelude::*;
use crate::snapshot::TelemetrySnapshot;

verus! {

pub open spec fn digit_text(d: nat) -> Seq<char> {
    if d == 0 {
        "0"@
    } else if d == 1 {
        "1"@
    } else if d == 2 {
        "2"@
    } else if d == 3 {
        "3"@
    } else if d == 4 {
        "4"@
    } else if d == 5 {
        "5"@
    } else if d == 6 {
        "6"@
    } else if d == 7 {
        "7"@
    } else if d == 8 {
        "8"@
    } else {
        "9"@
    }
}

/// Decimal digits of `n`, without leading zeros.
pub open spec fn dec(n: nat) -> Seq<char>
    decreases n,
{
    if n < 10 {
        digit_text(n)
    } else {
        dec(n / 10) + digit_text(n % 10)
    }
}

/// Hundredths of a kilobit in `bits`, rounded half up.
pub open spec fn hundredths_of_kilo(bits: u64) -> nat {
    (bits / 10) as nat + if bits % 10 >= 5 {
        1nat
    } else {
        0nat
    }
}

/// `bits` in kilobits with two decimals.
pub open spec fn kilo_text(bits: u64) -> Seq<char> {
    let h = hundredths_of_kilo(bits);
    dec(h / 100) + "."@ + digit_text((h % 100) / 10) + digit_text(h % 10)
}

pub open spec fn cpu_line(p: u64) -> Seq<char> {
    "CPU usage: "@ + dec(p as nat) + "%\n"@
}

pub open spec fn gpu_lines(g: Seq<u64>) -> Seq<char>
    decreases g.len(),
{
    if g.len() == 0 {
        seq![]
    } else {
        gpu_lines(g.drop_last()) + "GPU"@ + dec(g.len()) + " usage: "@ + dec(g.last() as nat)
            + "%\n"@
    }
}

pub open spec fn disk_lines(d: Seq<(String, u64)>) -> Seq<char>
    decreases d.len(),
{
    if d.len() == 0 {
        seq![]
    } else {
        disk_lines(d.drop_last()) + "Disk "@ + d.last().0@ + " usage: "@ + dec(d.last().1 as nat)
            + "%\n"@
    }
}

pub open spec fn network_line(n: Option<(u64, u64)>) -> Seq<char> {
    match n {
        Some((rx, tx)) => "Network receive: "@ + kilo_text(rx) + " Kbps, Network transmit: "@
            + kilo_text(tx) + " Kbps\n"@,
        None => seq![],
    }
}

/// The log block of snapshot `s` stamped with `ts`.
pub open spec fn block_text(ts: Seq<char>, s: TelemetrySnapshot) -> Seq<char> {
    "["@ + ts + "]\n"@ + cpu_line(s.cpu_percent) + gpu_lines(s.gpu_percent@) + disk_lines(
        s.disks@,
    ) + network_line(s.network)
}

/// The log after the given blocks were appended in turn to an empty file.
pub open spec fn log_text(blocks: Seq<Seq<char>>) -> Seq<char>
    decreases blocks.len(),
{
    if blocks.len() == 0 {
        seq![]
    } else {
        log_text(blocks.drop_last()) + blocks.last()
    }
}

fn digit_str(d: u64) -> (r: &'static str)
    requires
        d < 10,
    ensures
        r@ == digit_text(d as nat),
{
    if d == 0 {
        "0"
    } else if d == 1 {
        "1"
    } else if d == 2 {
        "2"
    } else if d == 3 {
        "3"
    } else if d == 4 {
        "4"
    } else if d == 5 {
        "5"
    } else if d == 6 {
        "6"
    } else if d == 7 {
        "7"
    } else if d == 8 {
        "8"
    } else {
        "9"
    }
}

/// Appends the decimal digits of `n` to `out`.
pub fn push_decimal(out: &mut String, n: u64)
    ensures
        final(out)@ == old(out)@ + dec(n as nat),
    decreases n,
{
    if n >= 10 {
        push_decimal(out, n / 10);
        out.append(digit_str(n % 10));
        assert(final(out)@ =~= old(out)@ + dec(n as nat));
    } else {
        out.append(digit_str(n));
    }
}

/// Appends `bits` in kilobits, rounded half up to two decimals.
pub fn push_kilo(out: &mut String, bits: u64)
    ensures
        final(out)@ == old(out)@ + kilo_text(bits),
{
    let h: u64 = bits / 10 + if bits % 10 >= 5 {
        1
    } else {
        0
    };
    push_decimal(out, h / 100);
    out.append(".");
    out.append(digit_str((h % 100) / 10));
    out.append(digit_str(h % 10));
    assert(final(out)@ =~= old(out)@ + kilo_text(bits));
}

/// Renders the log block of `snapshot` stamped with `timestamp`.
pub fn log_block(timestamp: &str, snapshot: &TelemetrySnapshot) -> (r: String)
    ensures
        r@ == block_text(timestamp@, *snapshot),
{
    let mut out = String::new();
    out.append("[");
    out.append(timestamp);
    out.append("]\n");
    out.append("CPU usage: ");
    push_decimal(&mut out, snapshot.cpu_percent);
    out.append("%\n");
    let ghost head = out@;
    let mut i: usize = 0;
    while i < snapshot.gpu_percent.len()
        invariant
            i <= snapshot.gpu_percent@.len(),
            out@ == head + gpu_lines(snapshot.gpu_percent@.take(i as int)),
        decreases snapshot.gpu_percent@.len() - i,
    {
        let ghost before = out@;
        out.append("GPU");
        push_decimal(&mut out, (i + 1) as u64);
        out.append(" usage: ");
        push_decimal(&mut out, snapshot.gpu_percent[i]);
        out.append("%\n");
        proof {
            let g = snapshot.gpu_percent@.take(i as int + 1);
            assert(g.drop_last() =~= snapshot.gpu_percent@.take(i as int));
            assert(out@ =~= head + gpu_lines(g));
        }
        i = i + 1;
    }
    assert(snapshot.gpu_percent@.take(i as int) =~= snapshot.gpu_percent@);
    let ghost head = out@;
    let mut j: usize = 0;
    while j < snapshot.disks.len()
        invariant
            j <= snapshot.disks@.len(),
            out@ == head + disk_lines(snapshot.disks@.take(j as int)),
        decreases snapshot.disks@.len() - j,
    {
        let (name, usage) = &snapshot.disks[j];
        out.append("Disk ");
        out.append(name.as_str());
        out.append(" usage: ");
        push_decimal(&mut out, *usage);
        out.append("%\n");
        proof {
            let d = snapshot.disks@.take(j as int + 1);
            assert(d.drop_last() =~= snapshot.disks@.take(j as int));
            assert(out@ =~= head + disk_lines(d));
        }
        j = j + 1;
    }
    assert(snapshot.disks@.take(j as int) =~= snapshot.disks@);
    match snapshot.network {
        Some((rx, tx)) => {
            out.append("Network receive: ");
            push_kilo(&mut out, rx);
            out.append(" Kbps, Network transmit: ");
            push_kilo(&mut out, tx);
            out.append(" Kbps\n");
        },
        None => {},
    }
    assert(out@ =~= block_text(timestamp@, *snapshot));
    out
}

/// Every block opens with the bracket of its timestamp line.
pub proof fn lemma_block_opens_with_timestamp(ts: Seq<char>, s: TelemetrySnapshot)
    ensures
        block_text(ts, s).len() > ts.len() + 2,
        block_text(ts, s)[0] == '[',
        block_text(ts, s).subrange(1, ts.len() as int + 1) == ts,
        block_text(ts, s)[ts.len() as int + 1] == ']',
{
    reveal_strlit("[");
    reveal_strlit("]\n");
    let b = block_text(ts, s);
    let head = "["@ + ts + "]\n"@;
    assert(b.subrange(0, head.len() as int) =~= head);
    assert(head.subrange(1, ts.len() as int + 1) =~= ts);
}

/// Appending is monotonic: after the blocks of `n` ticks the log holds
/// exactly those `n` blocks in order, and the log as it stood after any
/// earlier tick `k` is kept unchanged at its start.
pub proof fn lemma_log_keeps_earlier_blocks(blocks: Seq<Seq<char>>, k: int)
    requires
        0 <= k <= blocks.len(),
    ensures
        log_text(blocks.take(k)).len() <= log_text(blocks).len(),
        log_text(blocks).subrange(0, log_text(blocks.take(k)).len() as int) == log_text(
            blocks.take(k),
        ),
        blocks.len() > 0 ==> log_text(blocks) == log_text(blocks.drop_last()) + blocks.last(),
    decreases blocks.len(),
{
    if k < blocks.len() {
        let rest = blocks.drop_last();
        assert(rest.take(k) =~= blocks.take(k));
        lemma_log_keeps_earlier_blocks(rest, k);
        let t = log_text(rest);
        assert(log_text(blocks).subrange(0, t.len() as int) =~= t);
        assert(log_text(blocks).subrange(0, log_text(blocks.take(k)).len() as int) =~= t.subrange(
            0,
            log_text(blocks.take(k)).len() as int,
        ));
    } else {
        assert(blocks.take(k) =~= blocks);
        assert(log_text(blocks).subrange(0, log_text(blocks).len() as int) =~= log_text(blocks));
    }
}

} // verus!
