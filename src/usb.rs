use vstd::prelude::*;

verus! {

/// The bytes a host sends on the serial port to ask for configuration mode.
pub const CONFIG_MAGIC: [u8; 5] = [0x48, 0x59, 0x50, 0x45, 0x52];

/// A boot-protocol keyboard report: modifier bits, a reserved byte, the
/// lock-key LED state, and up to six key codes.
#[derive(Clone, Copy, PartialEq, Eq, Debug)]
pub struct KeyboardReport {
    pub modifier: u8,
    pub reserved: u8,
    pub leds: u8,
    pub keycodes: [u8; 6],
}

/// Whether the five bytes read from the serial port are the configuration-mode request.
pub fn is_config_magic(buf: &[u8; 5]) -> (found: bool)
    ensures
        found == (buf@ == CONFIG_MAGIC@),
{
    let mut i: usize = 0;
    while i < 5
        invariant
            i <= 5,
            forall|j: int| 0 <= j < i ==> buf@[j] == CONFIG_MAGIC@[j],
        decreases 5 - i,
    {
        if buf[i] != CONFIG_MAGIC[i] {
            return false;
        }
        i = i + 1;
    }
    assert(buf@ =~= CONFIG_MAGIC@);
    true
}

} // verus!
