//! The names under which experiment results are stored.

use vstd::prelude::*;
use crate::destinations::TransferTargetMode;

verus! {

/// The decimal digits, in order.
pub open spec fn digits() -> Seq<char> {
    seq!['0', '1', '2', '3', '4', '5', '6', '7', '8', '9']
}

/// The decimal notation of `n`, without leading zeros.
pub open spec fn decimal(n: nat) -> Seq<char>
    decreases n,
{
    if n < 10 {
        seq![digits()[n as int]]
    } else {
        decimal(n / 10).push(digits()[(n % 10) as int])
    }
}

/// The name of a transfer mode, as its variant is written.
pub open spec fn mode_name(mode: TransferTargetMode) -> Seq<char> {
    match mode {
        TransferTargetMode::RandomOtherChain => seq![
            'R', 'a', 'n', 'd', 'o', 'm', 'O', 't', 'h', 'e', 'r', 'C', 'h', 'a', 'i', 'n',
        ],
        TransferTargetMode::HalfAndHalfSelfOtherChain => seq![
            'H', 'a', 'l', 'f', 'A', 'n', 'd', 'H', 'a', 'l', 'f', 'S', 'e', 'l', 'f', 'O', 't', 'h', 'e', 'r', 'C', 'h', 'a', 'i', 'n',
        ],
        TransferTargetMode::SelfChain => seq!['S', 'e', 'l', 'f', 'C', 'h', 'a', 'i', 'n'],
    }
}

/// What the network configuration adds to experiment names: nothing without one, else an
/// underscore and the configuration.
pub open spec fn configuration_suffix_spec(config: Option<Seq<char>>) -> Seq<char> {
    match config {
        Some(c) => seq!['_'] + c,
        None => Seq::empty(),
    }
}

/// Name of an unpaced experiment: chains, mode, block size, configuration, repetition.
pub open spec fn unpaced_name(
    num_chains: nat,
    mode: TransferTargetMode,
    tx_per_block: nat,
    suffix: Seq<char>,
    repetition: nat,
) -> Seq<char> {
    decimal(num_chains) + seq!['_'] + mode_name(mode) + seq!['_'] + decimal(tx_per_block) + seq![
        't',
        'x',
    ] + suffix + seq!['_'] + decimal(repetition)
}

/// Name of a paced experiment: as for an unpaced one, with the pace after the block size.
pub open spec fn paced_name(
    num_chains: nat,
    mode: TransferTargetMode,
    tx_per_block: nat,
    target_bps: nat,
    suffix: Seq<char>,
    repetition: nat,
) -> Seq<char> {
    decimal(num_chains) + seq!['_'] + mode_name(mode) + seq!['_'] + decimal(tx_per_block) + seq![
        't',
        'x',
        '_',
    ] + decimal(target_bps) + seq!['b', 'p', 's'] + suffix + seq!['_'] + decimal(repetition)
}

proof fn lemma_middle_determined(p: Seq<char>, a: Seq<char>, b: Seq<char>, t: Seq<char>)
    requires
        p + a + t == p + b + t,
    ensures
        a == b,
{
    let x = p + a + t;
    let y = p + b + t;
    assert(x.len() == p.len() + a.len() + t.len());
    assert(y.len() == p.len() + b.len() + t.len());
    assert(x.len() == y.len());
    assert(a.len() == b.len());
    assert(a =~= x.subrange(p.len() as int, (p.len() + a.len()) as int));
    assert(b =~= y.subrange(p.len() as int, (p.len() + b.len()) as int));
}

/// Two paced experiments that differ only in their network configuration suffix get
/// different names, so their results never share a directory.
pub proof fn lemma_paced_name_keeps_suffix(
    num_chains: nat,
    mode: TransferTargetMode,
    tx_per_block: nat,
    target_bps: nat,
    suffix1: Seq<char>,
    suffix2: Seq<char>,
    repetition: nat,
)
    requires
        suffix1 != suffix2,
    ensures
        paced_name(num_chains, mode, tx_per_block, target_bps, suffix1, repetition) != paced_name(
            num_chains,
            mode,
            tx_per_block,
            target_bps,
            suffix2,
            repetition,
        ),
{
    let p = decimal(num_chains) + seq!['_'] + mode_name(mode) + seq!['_'] + decimal(tx_per_block)
        + seq!['t', 'x', '_'] + decimal(target_bps) + seq!['b', 'p', 's'];
    let t = seq!['_'] + decimal(repetition);
    assert(paced_name(num_chains, mode, tx_per_block, target_bps, suffix1, repetition) =~= p
        + suffix1 + t);
    assert(paced_name(num_chains, mode, tx_per_block, target_bps, suffix2, repetition) =~= p
        + suffix2 + t);
    if p + suffix1 + t == p + suffix2 + t {
        lemma_middle_determined(p, suffix1, suffix2, t);
    }
}

/// Two unpaced experiments that differ only in their network configuration suffix get
/// different names.
pub proof fn lemma_unpaced_name_keeps_suffix(
    num_chains: nat,
    mode: TransferTargetMode,
    tx_per_block: nat,
    suffix1: Seq<char>,
    suffix2: Seq<char>,
    repetition: nat,
)
    requires
        suffix1 != suffix2,
    ensures
        unpaced_name(num_chains, mode, tx_per_block, suffix1, repetition) != unpaced_name(
            num_chains,
            mode,
            tx_per_block,
            suffix2,
            repetition,
        ),
{
    let p = decimal(num_chains) + seq!['_'] + mode_name(mode) + seq!['_'] + decimal(tx_per_block)
        + seq!['t', 'x'];
    let t = seq!['_'] + decimal(repetition);
    assert(unpaced_name(num_chains, mode, tx_per_block, suffix1, repetition) =~= p + suffix1 + t);
    assert(unpaced_name(num_chains, mode, tx_per_block, suffix2, repetition) =~= p + suffix2 + t);
    if p + suffix1 + t == p + suffix2 + t {
        lemma_middle_determined(p, suffix1, suffix2, t);
    }
}

fn push_decimal(out: &mut Vec<char>, n: u64)
    ensures
        final(out)@ == old(out)@ + decimal(n as nat),
    decreases n,
{
    let table: [char; 10] = ['0', '1', '2', '3', '4', '5', '6', '7', '8', '9'];
    if n >= 10 {
        push_decimal(out, n / 10);
    }
    let d = (n % 10) as usize;
    proof {
        assert(table@ == digits());
    }
    out.push(table[d]);
}

fn push_all(out: &mut Vec<char>, s: &Vec<char>)
    ensures
        final(out)@ == old(out)@ + s@,
{
    let ghost base = out@;
    let mut i: usize = 0;
    while i < s.len()
        invariant
            i <= s@.len(),
            out@ == base + s@.take(i as int),
        decreases s@.len() - i,
    {
        out.push(s[i]);
        proof {
            assert(s@.take(i + 1) == s@.take(i as int).push(s@[i as int]));
        }
        i = i + 1;
    }
    proof {
        assert(s@.take(s@.len() as int) == s@);
    }
}

/// The decimal notation of `n`.
pub fn decimal_chars(n: u64) -> (r: Vec<char>)
    ensures
        r@ == decimal(n as nat),
{
    let mut r: Vec<char> = Vec::new();
    push_decimal(&mut r, n);
    r
}

/// The name of a transfer mode.
pub fn mode_chars(mode: TransferTargetMode) -> (r: Vec<char>)
    ensures
        r@ == mode_name(mode),
{
    let r = match mode {
        TransferTargetMode::RandomOtherChain => vec![
            'R', 'a', 'n', 'd', 'o', 'm', 'O', 't', 'h', 'e', 'r', 'C', 'h', 'a', 'i', 'n',
        ],
        TransferTargetMode::HalfAndHalfSelfOtherChain => vec![
            'H', 'a', 'l', 'f', 'A', 'n', 'd', 'H', 'a', 'l', 'f', 'S', 'e', 'l', 'f', 'O', 't', 'h', 'e', 'r', 'C', 'h', 'a', 'i', 'n',
        ],
        TransferTargetMode::SelfChain => vec!['S', 'e', 'l', 'f', 'C', 'h', 'a', 'i', 'n'],
    };
    proof {
        assert(r@ == mode_name(mode));
    }
    r
}

/// The suffix that the network configuration `config` adds to experiment names.
pub fn configuration_suffix(config: Option<&Vec<char>>) -> (r: Vec<char>)
    ensures
        r@ == configuration_suffix_spec(
            match config {
                Some(c) => Some(c@),
                None => None,
            },
        ),
{
    let mut r: Vec<char> = Vec::new();
    match config {
        Some(c) => {
            r.push('_');
            push_all(&mut r, c);
            proof {
                assert(r@ == seq!['_'] + c@);
            }
        },
        None => {},
    }
    r
}

/// The name of an unpaced experiment.
pub fn unpaced_experiment_name(
    num_chains: u64,
    mode: TransferTargetMode,
    tx_per_block: u64,
    suffix: &Vec<char>,
    repetition: u32,
) -> (r: Vec<char>)
    ensures
        r@ == unpaced_name(
            num_chains as nat,
            mode,
            tx_per_block as nat,
            suffix@,
            repetition as nat,
        ),
{
    let mut r: Vec<char> = Vec::new();
    push_decimal(&mut r, num_chains);
    r.push('_');
    push_all(&mut r, &mode_chars(mode));
    r.push('_');
    push_decimal(&mut r, tx_per_block);
    r.push('t');
    r.push('x');
    push_all(&mut r, suffix);
    r.push('_');
    push_decimal(&mut r, repetition as u64);
    proof {
        assert(r@ =~= unpaced_name(
            num_chains as nat,
            mode,
            tx_per_block as nat,
            suffix@,
            repetition as nat,
        ));
    }
    r
}

/// The name of a paced experiment.
pub fn paced_experiment_name(
    num_chains: u64,
    mode: TransferTargetMode,
    tx_per_block: u64,
    target_bps: u32,
    suffix: &Vec<char>,
    repetition: u32,
) -> (r: Vec<char>)
    ensures
        r@ == paced_name(
            num_chains as nat,
            mode,
            tx_per_block as nat,
            target_bps as nat,
            suffix@,
            repetition as nat,
        ),
{
    let mut r: Vec<char> = Vec::new();
    push_decimal(&mut r, num_chains);
    r.push('_');
    push_all(&mut r, &mode_chars(mode));
    r.push('_');
    push_decimal(&mut r, tx_per_block);
    r.push('t');
    r.push('x');
    r.push('_');
    push_decimal(&mut r, target_bps as u64);
    r.push('b');
    r.push('p');
    r.push('s');
    push_all(&mut r, suffix);
    r.push('_');
    push_decimal(&mut r, repetition as u64);
    proof {
        assert(r@ =~= paced_name(
            num_chains as nat,
            mode,
            tx_per_block as nat,
            target_bps as nat,
            suffix@,
            repetition as nat,
        ));
    }
    r
}

} // verus!
