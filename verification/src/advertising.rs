//! The badge's BLE advertising payload: general-discoverable LE-only flags
//! and the complete local name, encoded by trouble-host.
use vstd::prelude::*;
use trouble_host::advertise::AdStructure;

verus! {

/// Largest legacy advertising payload.
pub const ADV_DATA_MAX: usize = 31;
/// Flags bit: LE general discoverable mode.
pub const LE_GENERAL_DISCOVERABLE: u8 = 0b0000_0010;
/// Flags bit: BR/EDR (classic Bluetooth) not supported.
pub const BR_EDR_NOT_SUPPORTED: u8 = 0b0000_0100;
/// AD type of the flags structure.
pub const AD_TYPE_FLAGS: u8 = 0x01;
/// AD type of the complete local name structure.
pub const AD_TYPE_COMPLETE_LOCAL_NAME: u8 = 0x09;

/// A flags structure followed by a complete-local-name structure, each as
/// length (type byte included), type, data.
pub open spec fn flags_and_name(flags: u8, name: Seq<u8>) -> Seq<u8> {
    seq![2u8, AD_TYPE_FLAGS, flags, (name.len() + 1) as u8, AD_TYPE_COMPLETE_LOCAL_NAME] + name
}

/// Calls trouble-host's `AdStructure::encode_slice(&[Flags(flags),
/// CompleteLocalName(name)], dest)`. Claimed, as its source shows (each
/// structure is appended through a write cursor that refuses to overrun
/// `dest`): if the two structures fit, `dest` starts with their encoding
/// and the encoded length comes back; otherwise nothing comes back. What
/// `dest` holds after a refusal is not stated.
#[verifier::external_body]
fn encode_flags_and_name(flags: u8, name: &[u8], dest: &mut Vec<u8>) -> (n: Option<usize>)
    ensures
        final(dest)@.len() == old(dest)@.len(),
        name@.len() + 5 <= old(dest)@.len() ==> n == Some((name@.len() + 5) as usize)
            && final(dest)@.subrange(0, name@.len() + 5 as int) == flags_and_name(flags, name@),
        name@.len() + 5 > old(dest)@.len() ==> n is None,
{
    AdStructure::encode_slice(&[AdStructure::Flags(flags), AdStructure::CompleteLocalName(name)], dest.as_mut_slice())
        .ok()
}

/// The advertising payload for a device called `name`: visible
/// indefinitely, LE only, and its name.
pub fn advertisement_data(name: &[u8]) -> (adv: Vec<u8>)
    requires
        name@.len() + 5 <= ADV_DATA_MAX,
    ensures
        adv@ == flags_and_name(LE_GENERAL_DISCOVERABLE | BR_EDR_NOT_SUPPORTED, name@),
        adv@.len() <= ADV_DATA_MAX,
{
    let mut buf: Vec<u8> = vec![0u8; ADV_DATA_MAX];
    let n = encode_flags_and_name(LE_GENERAL_DISCOVERABLE | BR_EDR_NOT_SUPPORTED, name, &mut buf);
    match n {
        Some(len) => {
            buf.truncate(len);
            buf
        },
        None => Vec::new(),
    }
}

} // verus!
