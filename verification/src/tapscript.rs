//! The leaf scripts, leaf versions and annexes of Taproot spends.

use crate::random::{choose_item, draw_bytes, draw_key, draw_u32, draw_usize, flip};
use bitcoin::opcodes::all::{OP_CHECKSIG, OP_PUSHNUM_1};
use bitcoin::taproot::LeafVersion;
use rand::rngs::StdRng;
use vstd::prelude::*;

verus! {

/// The leaf version of BIP 342 scripts.
pub const DEFAULT_LEAF_VERSION: u8 = 0xc0;

/// Calls `bitcoin::opcodes::Opcode::to_u8` on `OP_PUSHNUM_1`, whose code is
/// `0x51`.
#[verifier::external_body]
fn op_pushnum_1() -> (r: u8)
    ensures
        r == 0x51,
{
    OP_PUSHNUM_1.to_u8()
}

/// Calls `bitcoin::opcodes::Opcode::to_u8` on `OP_CHECKSIG`, whose code is `0xac`.
#[verifier::external_body]
fn op_checksig() -> (r: u8)
    ensures
        r == 0xac,
{
    OP_CHECKSIG.to_u8()
}

/// Calls `bitcoin::taproot::LeafVersion::to_consensus` on the tapscript version,
/// which is `0xc0`.
#[verifier::external_body]
pub(crate) fn tapscript_leaf_version() -> (r: u8)
    ensures
        r == DEFAULT_LEAF_VERSION,
{
    LeafVersion::TapScript.to_consensus()
}

/// The three kinds of leaf script.
pub enum Tapscript {
    /// Succeeds: `OP_TRUE`.
    True,
    /// Checks a signature by the key.
    CheckSig([u8; 32]),
    /// Succeeds early: an `OP_SUCCESS` opcode.
    Success,
}

impl Tapscript {
    /// The bytes of the script.
    pub open spec fn bytes(self) -> Seq<u8> {
        match self {
            Tapscript::True => seq![0x51u8],
            Tapscript::CheckSig(key) => seq![32u8] + key@ + seq![0xacu8],
            Tapscript::Success => seq![0x50u8],
        }
    }

    /// Encodes the script.
    pub fn encode(self) -> (r: Vec<u8>)
        ensures
            r@ == self.bytes(),
    {
        match self {
            Tapscript::True => vec![op_pushnum_1()],
            Tapscript::CheckSig(key) => {
                let mut script: Vec<u8> = Vec::with_capacity(34);
                script.push(32);
                let mut i: usize = 0;
                while i < 32
                    invariant
                        i <= 32,
                        script@ == seq![32u8] + key@.take(i as int),
                    decreases 32 - i,
                {
                    script.push(key[i]);
                    i += 1;
                    assert(script@ =~= seq![32u8] + key@.take(i as int));
                }
                assert(key@.take(32) =~= key@);
                script.push(op_checksig());
                script
            },
            Tapscript::Success => vec![0x50],
        }
    }
}

/// Whether `script` is one of the leaf scripts.
pub open spec fn is_tapscript(script: Seq<u8>) -> bool {
    exists|kind: Tapscript| script == #[trigger] kind.bytes()
}

/// The leaf script that a drawn number stands for. Only a signature check uses the
/// key.
pub open spec fn drawn_kind(draw: u32, key: [u8; 32]) -> Tapscript {
    if draw == 0 {
        Tapscript::True
    } else if draw == 1 {
        Tapscript::CheckSig(key)
    } else {
        Tapscript::Success
    }
}

/// The leaf script that a drawn number and a drawn key stand for.
pub fn tapscript_for(draw: u32, key: [u8; 32]) -> (r: Tapscript)
    ensures
        r == drawn_kind(draw, key),
{
    match draw {
        0 => Tapscript::True,
        1 => Tapscript::CheckSig(key),
        _ => Tapscript::Success,
    }
}

/// The leaf script that a drawn number stands for, with a random key. A key is drawn
/// for a signature check only.
pub fn tapscript_from(rng: &mut StdRng, draw: u32) -> (r: Tapscript)
    ensures
        exists|key: [u8; 32]| r == #[trigger] drawn_kind(draw, key),
        draw != 1 ==> *final(rng) == *old(rng),
{
    let key = if draw == 1 {
        draw_key(rng)
    } else {
        [0u8; 32]
    };
    tapscript_for(draw, key)
}

/// A random leaf script: that of a number drawn below three.
pub fn random_tapscript(rng: &mut StdRng) -> (r: Vec<u8>)
    ensures
        is_tapscript(r@),
{
    let draw = draw_u32(rng, 0, 3);
    tapscript_from(rng, draw).encode()
}

/// Whether a leaf version is one of those that differ from the default.
pub open spec fn is_non_default_version(version: u8) -> bool {
    version == 0xC2 || version == 0xC4 || version == 0xC6 || version == 0xD0
}

/// A random leaf version other than the default.
pub fn pick_strict_non_default_version(rng: &mut StdRng) -> (r: u8)
    ensures
        is_non_default_version(r),
{
    let versions: [u8; 4] = [0xC2, 0xC4, 0xC6, 0xD0];
    *choose_item(rng, versions.as_slice()).unwrap()
}

/// A leaf version and whether it differs from the default: the default, or the
/// version `pick` where there is one.
pub fn leaf_version(pick: Option<u8>) -> (r: (u8, bool))
    ensures
        pick matches Some(version) ==> r == (version, true),
        pick is None ==> r == (DEFAULT_LEAF_VERSION, false),
{
    match pick {
        Some(version) => (version, true),
        None => (tapscript_leaf_version(), false),
    }
}

/// A random leaf version and whether it differs from the default.
pub fn random_leaf_version(rng: &mut StdRng) -> (r: (u8, bool))
    ensures
        r.1 ==> is_non_default_version(r.0),
        !r.1 ==> r.0 == DEFAULT_LEAF_VERSION,
{
    if flip(rng) {
        leaf_version(None)
    } else {
        leaf_version(Some(pick_strict_non_default_version(rng)))
    }
}

/// The annex with the given payload: the prefix `0x50` of BIP 341, then the
/// payload.
pub fn annex(payload: Vec<u8>) -> (r: Vec<u8>)
    ensures
        r@ == seq![0x50u8] + payload@,
{
    let mut payload = payload;
    let mut r: Vec<u8> = vec![0x50];
    r.append(&mut payload);
    r
}

/// Whether `annex` has the prefix of BIP 341 and at most 64 bytes behind it.
pub open spec fn is_short_annex(annex: Seq<u8>) -> bool {
    1 <= annex.len() <= 65 && annex[0] == 0x50
}

/// A random annex with at most 64 bytes of payload.
pub fn random_annex(rng: &mut StdRng) -> (r: Vec<u8>)
    ensures
        is_short_annex(r@),
{
    let extra_len = draw_usize(rng, 0, 65);
    annex(draw_bytes(rng, extra_len))
}

/// The leaf scripts: a single byte `0x51` or `0x50`, or a push of 32 bytes and a
/// signature check by them.
pub proof fn law_leaf_scripts(script: Seq<u8>, key: [u8; 32])
    ensures
        is_tapscript(seq![0x51u8]),
        is_tapscript(seq![0x50u8]),
        is_tapscript(seq![32u8] + key@ + seq![0xacu8]),
        is_tapscript(script) ==> script == seq![0x51u8] || script == seq![0x50u8] || (
        script.len() == 34 && script[0] == 32 && script[33] == 0xac),
{
    assert(seq![0x51u8] == Tapscript::True.bytes());
    assert(seq![0x50u8] == Tapscript::Success.bytes());
    assert(seq![32u8] + key@ + seq![0xacu8] == Tapscript::CheckSig(key).bytes());
}

/// Each of the three leaf scripts comes from a number below three, and every number
/// stands for one of them: no two of the numbers stand for the same, and the key is in
/// the script that checks a signature.
pub proof fn law_numbers_choose_leaf_scripts(draw: u32, key: [u8; 32])
    ensures
        drawn_kind(0, key).bytes() == seq![0x51u8],
        drawn_kind(1, key).bytes().len() == 34,
        drawn_kind(1, key).bytes()[0] == 32,
        drawn_kind(1, key).bytes().subrange(1, 33) == key@,
        drawn_kind(1, key).bytes()[33] == 0xac,
        draw >= 2 ==> drawn_kind(draw, key).bytes() == seq![0x50u8],
{
    assert(drawn_kind(1, key).bytes().subrange(1, 33) =~= key@);
}

/// A version other than the default is one of four, and it is even and not the
/// default.
pub proof fn law_other_versions(version: u8)
    ensures
        is_non_default_version(version) <==> seq![0xc2u8, 0xc4, 0xc6, 0xd0].contains(version),
        is_non_default_version(version) ==> version != 0xc0,
        DEFAULT_LEAF_VERSION == 0xc0,
{
    let versions = seq![0xc2u8, 0xc4, 0xc6, 0xd0];
    assert(versions[0] == 0xc2 && versions[1] == 0xc4 && versions[2] == 0xc6 && versions[3]
        == 0xd0);
}

/// An annex is the byte `0x50` and a payload of at most 64 bytes.
pub proof fn law_annexes(annex: Seq<u8>)
    ensures
        is_short_annex(annex) <==> exists|payload: Seq<u8>|
            payload.len() <= 64 && annex == seq![0x50u8] + payload,
{
    if is_short_annex(annex) {
        assert(annex =~= seq![0x50u8] + annex.skip(1));
        assert(annex.skip(1).len() <= 64);
    }
}

} // verus!
