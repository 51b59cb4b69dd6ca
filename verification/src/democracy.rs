use crate::codec::{
    blake2_256, blake2_256_of, compact_encoding, encode_compact_u128, encode_u64, le_bytes,
    lemma_compact_encoding_injective, le_value, byte_bound, byte_len, lemma_byte_len_at_least_four,
    lemma_byte_len_at_most, lemma_byte_len_bound, lemma_le_bytes_len, lemma_le_bytes_top_nonzero,
    lemma_le_value_of_le_bytes,
};
use crate::blocks::fast_forward_to;
use vstd::prelude::*;

verus! {

/// Position of the balances pallet in the runtime's pallet list, which is the first byte
/// of every call into it.
pub const BALANCES_PALLET_INDEX: u8 = 3;

/// Position of `set_balance` among the balances pallet's calls.
pub const SET_BALANCE_CALL_INDEX: u8 = 1;

/// The account whose balance the proposal sets.
pub const PROPOSAL_TARGET: u64 = 42;

/// The encoded call `Balances::set_balance { who: 42, new_free: value, new_reserved: 0 }`:
/// the pallet and call indices, the account as eight little-endian bytes, then both
/// balances compact-encoded.
pub open spec fn set_balance_proposal_bytes(value: u128) -> Seq<u8> {
    seq![BALANCES_PALLET_INDEX, SET_BALANCE_CALL_INDEX] + le_bytes(PROPOSAL_TARGET as nat, 8)
        + compact_encoding(value as nat) + compact_encoding(0)
}

/// The encoded democracy proposal that sets account 42's free balance to `value` and its
/// reserved balance to zero.
pub fn set_balance_proposal(value: u128) -> (proposal: Vec<u8>)
    ensures
        proposal@ == set_balance_proposal_bytes(value),
{
    let mut proposal: Vec<u8> = Vec::new();
    proposal.push(BALANCES_PALLET_INDEX);
    proposal.push(SET_BALANCE_CALL_INDEX);
    let mut who = encode_u64(PROPOSAL_TARGET);
    proposal.append(&mut who);
    let mut new_free = encode_compact_u128(value);
    proposal.append(&mut new_free);
    let mut new_reserved = encode_compact_u128(0);
    proposal.append(&mut new_reserved);
    assert(proposal@ =~= set_balance_proposal_bytes(value));
    proposal
}

/// The hash under which the proposal that sets account 42's free balance to `value` is
/// noted and proposed: the BLAKE2b-256 digest of its encoding.
pub fn set_balance_proposal_hash(value: u128) -> (hash: [u8; 32])
    ensures
        hash@ == blake2_256_of(set_balance_proposal_bytes(value)),
{
    let proposal = set_balance_proposal(value);
    blake2_256(proposal.as_slice())
}

/// Proposals for different balances are different byte strings, so each noted preimage
/// stands for exactly one balance.
pub proof fn distinct_balances_give_distinct_proposals(a: u128, b: u128)
    requires
        a != b,
    ensures
        set_balance_proposal_bytes(a) != set_balance_proposal_bytes(b),
{
    let prefix = seq![BALANCES_PALLET_INDEX, SET_BALANCE_CALL_INDEX] + le_bytes(
        PROPOSAL_TARGET as nat,
        8,
    );
    crate::codec::lemma_le_bytes_len(PROPOSAL_TARGET as nat, 8);
    let ca = compact_encoding(a as nat);
    let cb = compact_encoding(b as nat);
    let tail = compact_encoding(0);
    let pa = set_balance_proposal_bytes(a);
    let pb = set_balance_proposal_bytes(b);
    if pa == pb {
        assert(pa == prefix + ca + tail);
        assert(pb == prefix + cb + tail);
        assert(ca.len() == cb.len());
        assert(pa.subrange(10, 10 + ca.len() as int) =~= ca);
        assert(pb.subrange(10, 10 + cb.len() as int) =~= cb);
        lemma_compact_encoding_injective(a as nat, b as nat);
    }
}

/// Reading the proposal back gives the call it stands for: pallet index 3, call index 1,
/// account 42 as eight little-endian bytes, then `new_free == value` in SCALE compact form
/// (the two low bits of its first byte give the mode: one byte holding `4 * value` below
/// `2^6`, two little-endian bytes holding `4 * value + 1` below `2^14`, four holding
/// `4 * value + 2` below `2^30`, and otherwise a byte announcing `n` bytes followed by
/// `value` in the fewest bytes `n`), and `new_reserved == 0` as the single byte zero.
pub proof fn set_balance_proposal_decodes(value: u128)
    ensures
        ({
            let p = set_balance_proposal_bytes(value);
            let v = value as int;
            &&& p.len() >= 12
            &&& p.subrange(0, 10) == seq![3u8, 1u8, 42u8, 0u8, 0u8, 0u8, 0u8, 0u8, 0u8, 0u8]
            &&& p.last() == 0
            &&& v < 0x40 ==> p.len() == 12 && p[10] as int == 4 * v
            &&& 0x40 <= v < 0x4000 ==> p.len() == 13 && le_value(p.subrange(10, 12)) == 4 * v + 1
            &&& 0x4000 <= v < 0x4000_0000 ==> p.len() == 15 && le_value(p.subrange(10, 14)) == 4
                * v + 2
            &&& v >= 0x4000_0000 ==> {
                let n = p[10] / 4 + 4;
                &&& p[10] % 4 == 3
                &&& 4 <= n <= 16
                &&& p.len() == 12 + n
                &&& le_value(p.subrange(11, 11 + n)) == v
                &&& p[10 + n] != 0
            }
        }),
{
    let v = value as nat;
    let prefix = seq![BALANCES_PALLET_INDEX, SET_BALANCE_CALL_INDEX] + le_bytes(
        PROPOSAL_TARGET as nat,
        8,
    );
    assert(le_bytes(PROPOSAL_TARGET as nat, 8) =~= seq![42u8, 0u8, 0u8, 0u8, 0u8, 0u8, 0u8, 0u8]) by {
        reveal_with_fuel(le_bytes, 9);
    }
    let c = compact_encoding(v);
    let tail = compact_encoding(0);
    assert(tail =~= seq![0u8]);
    let p = set_balance_proposal_bytes(value);
    assert(p == prefix + c + tail);
    assert(p.subrange(0, 10) =~= seq![3u8, 1u8, 42u8, 0u8, 0u8, 0u8, 0u8, 0u8, 0u8, 0u8]);
    lemma_le_bytes_len(v * 4 + 1, 2);
    lemma_le_bytes_len(v * 4 + 2, 4);
    lemma_le_bytes_len(v, byte_len(v));
    if v < 0x40 {
        assert(p[10] == c[0]);
    } else if v < 0x4000 {
        assert(byte_bound(2) == 0x10000) by {
            reveal_with_fuel(byte_bound, 3);
        }
        lemma_le_value_of_le_bytes(v * 4 + 1, 2);
        assert(p.subrange(10, 12) =~= c);
    } else if v < 0x4000_0000 {
        assert(byte_bound(4) == 0x1_0000_0000) by {
            reveal_with_fuel(byte_bound, 5);
        }
        lemma_le_value_of_le_bytes(v * 4 + 2, 4);
        assert(p.subrange(10, 14) =~= c);
    } else {
        let n = byte_len(v);
        lemma_byte_len_at_least_four(v);
        assert(byte_bound(16) == 0x1_0000_0000_0000_0000_0000_0000_0000_0000) by {
            reveal_with_fuel(byte_bound, 17);
        }
        lemma_byte_len_at_most(v, 16);
        lemma_byte_len_bound(v);
        lemma_le_value_of_le_bytes(v, n);
        lemma_le_bytes_top_nonzero(v);
        let header = (3 + (n - 4) * 4) as u8;
        assert(header as int == 3 + (n - 4) * 4);
        assert(c == seq![header] + le_bytes(v, n));
        assert(p[10] == header);
        assert(p[10] / 4 + 4 == n);
        assert(p.subrange(11, 11 + n as int) =~= le_bytes(v, n));
        assert(p[10 + n as int] == le_bytes(v, n)[n - 1]);
    }
}

/// How long a vote's balance stays locked, and by how much the vote counts.
#[derive(PartialEq, Eq, Structural, Clone, Copy, Debug)]
pub enum Conviction {
    /// Counts for a tenth of the balance and locks nothing (the pallet's `None`).
    Unlocked,
    Locked1x,
    Locked2x,
    Locked3x,
    Locked4x,
    Locked5x,
    Locked6x,
}

/// A vote: for or against, with a conviction.
#[derive(PartialEq, Eq, Structural, Clone, Copy, Debug)]
pub struct Vote {
    pub aye: bool,
    pub conviction: Conviction,
}

/// An account's vote on a referendum, weighed by a balance.
#[derive(PartialEq, Eq, Structural, Clone, Copy, Debug)]
pub enum AccountVote {
    /// One vote with the whole balance behind it.
    Standard { vote: Vote, balance: u128 },
}

/// An account's vote in favour, without conviction, backed by its whole free balance
/// `free_balance` of the voting currency.
pub fn aye(free_balance: u128) -> (vote: AccountVote)
    ensures
        vote == (AccountVote::Standard {
            vote: Vote { aye: true, conviction: Conviction::Unlocked },
            balance: free_balance,
        }),
{
    AccountVote::Standard {
        vote: Vote { aye: true, conviction: Conviction::Unlocked },
        balance: free_balance,
    }
}

/// Identifies a referendum.
pub type ReferendumIndex = u32;

/// The account that proposes the referendum.
pub const PROPOSER: u64 = 1;

/// The account that notes the proposal's preimage.
pub const PREIMAGE_NOTER: u64 = 6;

/// The free balance the proposal gives account 42.
pub const PROPOSED_BALANCE: u128 = 2;

/// The deposit put behind the proposal.
pub const PROPOSAL_DEPOSIT: u128 = 1;

/// The block at which the referendum is launched.
pub const LAUNCH_BLOCK: u64 = 2;

/// How a referendum is begun on the mock chain: from block zero, `preimage_noter` notes
/// `proposal`, `proposer` proposes it under `proposal_hash` with `deposit`, the chain
/// steps through `blocks`, and the referendum has number `index`.
pub struct ReferendumSetup {
    pub start_block: u64,
    pub preimage_noter: u64,
    pub proposer: u64,
    pub proposal: Vec<u8>,
    pub proposal_hash: [u8; 32],
    pub deposit: u128,
    pub blocks: Vec<u64>,
    pub index: ReferendumIndex,
}

/// The steps that begin the first referendum: account 6 notes the proposal that sets
/// account 42's free balance to 2, account 1 proposes it with a deposit of 1 at block
/// zero, the chain advances through blocks 1 and 2 (when the launch period ends), and the
/// referendum that starts is number zero.
pub fn begin_referendum() -> (setup: ReferendumSetup)
    ensures
        setup.start_block == 0,
        setup.preimage_noter == PREIMAGE_NOTER,
        setup.proposer == PROPOSER,
        setup.proposal@ == set_balance_proposal_bytes(PROPOSED_BALANCE),
        setup.proposal_hash@ == blake2_256_of(set_balance_proposal_bytes(PROPOSED_BALANCE)),
        setup.deposit == PROPOSAL_DEPOSIT,
        setup.blocks@ == seq![1u64, 2u64],
        setup.index == 0,
{
    let proposal = set_balance_proposal(PROPOSED_BALANCE);
    let proposal_hash = set_balance_proposal_hash(PROPOSED_BALANCE);
    let blocks = fast_forward_to(0, LAUNCH_BLOCK);
    assert(blocks@ =~= seq![1u64, 2u64]);
    ReferendumSetup {
        start_block: 0,
        preimage_noter: PREIMAGE_NOTER,
        proposer: PROPOSER,
        proposal,
        proposal_hash,
        deposit: PROPOSAL_DEPOSIT,
        blocks,
        index: 0,
    }
}

} // verus!
