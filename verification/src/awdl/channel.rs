//! Channels, channel sequences, channel/frequency conversion and the
//! SipHash-derived expected channel slot.

use vstd::prelude::*;
use crate::awdl::siphash;

verus! {

/// Number of slots in a channel sequence.
pub const AWDL_CHANSEQ_LENGTH: usize = 16;

/// How a channel is encoded on the wire.
#[derive(Debug, Clone, Copy, PartialEq, Eq, Structural)]
pub enum AwdlChanEncoding {
    Simple,
    Legacy,
    Opclass,
}

/// The wire value of an encoding (0, 1 or 3).
pub open spec fn spec_encoding_value(enc: AwdlChanEncoding) -> u8 {
    match enc {
        AwdlChanEncoding::Simple => 0,
        AwdlChanEncoding::Legacy => 1,
        AwdlChanEncoding::Opclass => 3,
    }
}

/// The wire value of an encoding (0, 1 or 3).
pub fn encoding_value(enc: AwdlChanEncoding) -> (v: u8)
    ensures
        v == spec_encoding_value(enc),
{
    match enc {
        AwdlChanEncoding::Simple => 0,
        AwdlChanEncoding::Legacy => 1,
        AwdlChanEncoding::Opclass => 3,
    }
}

/// An AWDL channel in its two-byte wire form.
#[derive(Debug, Clone, Copy, PartialEq, Eq)]
pub struct AwdlChan {
    pub val: [u8; 2],
}

/// The channel number that an encoding reads from a channel value.
pub open spec fn spec_chan_num(chan: AwdlChan, enc: AwdlChanEncoding) -> u8 {
    match enc {
        AwdlChanEncoding::Simple => chan.val@[0],
        AwdlChanEncoding::Legacy => chan.val@[1],
        AwdlChanEncoding::Opclass => chan.val@[0],
    }
}

impl AwdlChan {
    /// A channel with number `chan_num` and operating class `opclass`.
    pub fn new(chan_num: u8, opclass: u8) -> (c: Self)
        ensures
            c.val@ == seq![chan_num, opclass],
    {
        let c = Self { val: [chan_num, opclass] };
        assert(c.val@ =~= seq![chan_num, opclass]);
        c
    }

    /// Channel number under the simple encoding (first byte).
    pub fn chan_num_simple(&self) -> (n: u8)
        ensures
            n == self.val@[0],
    {
        self.val[0]
    }

    /// Channel number under the legacy encoding (second byte).
    pub fn chan_num_legacy(&self) -> (n: u8)
        ensures
            n == self.val@[1],
    {
        self.val[1]
    }

    /// Channel number under the operating-class encoding (first byte).
    pub fn chan_num_opclass(&self) -> (n: u8)
        ensures
            n == self.val@[0],
    {
        self.val[0]
    }

    /// Channel number under encoding `enc`.
    pub fn chan_num_for_enc(&self, enc: AwdlChanEncoding) -> (n: u8)
        ensures
            n == spec_chan_num(*self, enc),
    {
        match enc {
            AwdlChanEncoding::Simple => self.chan_num_simple(),
            AwdlChanEncoding::Legacy => self.chan_num_legacy(),
            AwdlChanEncoding::Opclass => self.chan_num_opclass(),
        }
    }
}

/// The empty channel.
pub fn chan_null() -> (c: AwdlChan)
    ensures
        c.val@ == seq![0u8, 0u8],
{
    AwdlChan::new(0, 0x00)
}

/// Channel 6, operating class 0x51.
pub fn chan_opclass_6() -> (c: AwdlChan)
    ensures
        c.val@ == seq![6u8, 0x51u8],
{
    AwdlChan::new(6, 0x51)
}

/// Channel 44, operating class 0x80.
pub fn chan_opclass_44() -> (c: AwdlChan)
    ensures
        c.val@ == seq![44u8, 0x80u8],
{
    AwdlChan::new(44, 0x80)
}

/// Channel 149, operating class 0x80.
pub fn chan_opclass_149() -> (c: AwdlChan)
    ensures
        c.val@ == seq![149u8, 0x80u8],
{
    AwdlChan::new(149, 0x80)
}

/// Bytes per channel value under an encoding.
pub open spec fn spec_encoding_size(enc: AwdlChanEncoding) -> usize {
    match enc {
        AwdlChanEncoding::Simple => 1,
        AwdlChanEncoding::Legacy => 2,
        AwdlChanEncoding::Opclass => 2,
    }
}

/// Bytes per channel value under an encoding.
pub fn awdl_chan_encoding_size(enc: AwdlChanEncoding) -> (n: usize)
    ensures
        n == spec_encoding_size(enc),
{
    match enc {
        AwdlChanEncoding::Simple => 1,
        AwdlChanEncoding::Legacy | AwdlChanEncoding::Opclass => 2,
    }
}

/// Channel state of a node: encoding, sequence, master and current channel.
#[derive(Debug, Clone)]
pub struct AwdlChannelState {
    pub enc: AwdlChanEncoding,
    pub sequence: [AwdlChan; 16],
    pub master: AwdlChan,
    pub current: AwdlChan,
}

/// Every slot of `seq` holds `chan`.
pub open spec fn seq_is_static(seq: Seq<AwdlChan>, chan: AwdlChan) -> bool {
    seq.len() == AWDL_CHANSEQ_LENGTH && forall|i: int| 0 <= i < seq.len() ==> seq[i] == chan
}

impl AwdlChannelState {
    /// Operating-class encoding, every slot on `master`, no current channel.
    pub fn new(master: AwdlChan) -> (s: Self)
        ensures
            s.enc == AwdlChanEncoding::Opclass,
            seq_is_static(s.sequence@, master),
            s.master == master,
            s.current.val@ == seq![0u8, 0u8],
    {
        let mut seq = [chan_null();16];
        awdl_chanseq_init_static(&mut seq, &master);
        Self { enc: AwdlChanEncoding::Opclass, sequence: seq, master, current: chan_null() }
    }
}

/// The default sequence: slots 0..8 on channel 149, slots 8..16 on channel 6.
pub open spec fn default_sequence(seq: Seq<AwdlChan>) -> bool {
    seq.len() == AWDL_CHANSEQ_LENGTH && forall|i: int|
        0 <= i < seq.len() ==> (#[trigger] seq[i]).val@ == if i < 8 {
            seq![149u8, 0x80u8]
        } else {
            seq![6u8, 0x51u8]
        }
}

/// Fill `seq` with the default sequence.
pub fn awdl_chanseq_init(seq: &mut [AwdlChan; 16])
    ensures
        default_sequence(final(seq)@),
{
    let mut i: usize = 0;
    while i < AWDL_CHANSEQ_LENGTH
        invariant
            i <= AWDL_CHANSEQ_LENGTH,
            seq@.len() == AWDL_CHANSEQ_LENGTH,
            forall|j: int|
                0 <= j < i ==> (#[trigger] seq@[j]).val@ == if j < 8 {
                    seq![149u8, 0x80u8]
                } else {
                    seq![6u8, 0x51u8]
                },
        decreases AWDL_CHANSEQ_LENGTH - i,
    {
        if i < 8 {
            seq[i] = chan_opclass_149();
        } else {
            seq[i] = chan_opclass_6();
        }
        i += 1;
    }
}

/// The idle sequence: slot 8 on channel 6, slots 0, 9 and 10 on channel 149,
/// all others empty.
pub open spec fn idle_sequence(seq: Seq<AwdlChan>) -> bool {
    seq.len() == AWDL_CHANSEQ_LENGTH && forall|i: int|
        0 <= i < seq.len() ==> (#[trigger] seq[i]).val@ == if i == 8 {
            seq![6u8, 0x51u8]
        } else if i == 0 || i == 9 || i == 10 {
            seq![149u8, 0x80u8]
        } else {
            seq![0u8, 0u8]
        }
}

/// Fill `seq` with the idle sequence.
pub fn awdl_chanseq_init_idle(seq: &mut [AwdlChan; 16])
    ensures
        idle_sequence(final(seq)@),
{
    let mut i: usize = 0;
    while i < AWDL_CHANSEQ_LENGTH
        invariant
            i <= AWDL_CHANSEQ_LENGTH,
            seq@.len() == AWDL_CHANSEQ_LENGTH,
            forall|j: int|
                0 <= j < i ==> (#[trigger] seq@[j]).val@ == if j == 8 {
                    seq![6u8, 0x51u8]
                } else if j == 0 || j == 9 || j == 10 {
                    seq![149u8, 0x80u8]
                } else {
                    seq![0u8, 0u8]
                },
        decreases AWDL_CHANSEQ_LENGTH - i,
    {
        if i == 8 {
            seq[i] = chan_opclass_6();
        } else if i == 0 || i == 9 || i == 10 {
            seq[i] = chan_opclass_149();
        } else {
            seq[i] = chan_null();
        }
        i += 1;
    }
}

/// Put `chan` in every slot of `seq`.
pub fn awdl_chanseq_init_static(seq: &mut [AwdlChan; 16], chan: &AwdlChan)
    ensures
        seq_is_static(final(seq)@, *chan),
{
    let mut i: usize = 0;
    while i < AWDL_CHANSEQ_LENGTH
        invariant
            i <= AWDL_CHANSEQ_LENGTH,
            seq@.len() == AWDL_CHANSEQ_LENGTH,
            forall|j: int| 0 <= j < i ==> seq@[j] == *chan,
        decreases AWDL_CHANSEQ_LENGTH - i,
    {
        seq[i] = *chan;
        i += 1;
    }
}

/// Channel number of `chan` under encoding `enc`.
pub fn awdl_chan_num(chan: AwdlChan, enc: AwdlChanEncoding) -> (n: u8)
    ensures
        n == spec_chan_num(chan, enc),
{
    chan.chan_num_for_enc(enc)
}

/// Center frequency in MHz of an IEEE 802.11 channel number (0 when unknown).
pub open spec fn spec_channel_to_frequency(chan: int) -> int {
    if chan <= 0 {
        0
    } else if chan == 14 {
        2484
    } else if chan < 14 {
        2407 + chan * 5
    } else if chan < 32 {
        0
    } else if 182 <= chan <= 196 {
        4000 + chan * 5
    } else {
        5000 + chan * 5
    }
}

/// Center frequency in MHz of an IEEE 802.11 channel number (0 when unknown).
pub fn ieee80211_channel_to_frequency(chan: i32) -> (f: i32)
    requires
        chan <= 429495729,
    ensures
        f == spec_channel_to_frequency(chan as int),
{
    if chan <= 0 {
        return 0;
    }
    if chan == 14 {
        return 2484;
    } else if chan < 14 {
        return 2407 + chan * 5;
    }
    if chan < 32 {
        return 0;
    }
    if chan >= 182 && chan <= 196 {
        return 4000 + chan * 5;
    }
    5000 + chan * 5
}

/// Integer division rounding toward zero.
pub open spec fn trunc_div(a: int, b: int) -> int {
    if a >= 0 {
        a / b
    } else {
        -((-a) / b)
    }
}

/// IEEE 802.11 channel number of a center frequency in MHz (0 when unknown).
pub open spec fn spec_frequency_to_channel(freq: int) -> int {
    if freq == 2484 {
        14
    } else if freq < 2484 {
        trunc_div(freq - 2407, 5)
    } else if 4910 <= freq <= 4980 {
        (freq - 4000) / 5
    } else if freq <= 45000 {
        trunc_div(freq - 5000, 5)
    } else if 58320 <= freq <= 64800 {
        (freq - 56160) / 2160
    } else {
        0
    }
}

/// IEEE 802.11 channel number of a center frequency in MHz (0 when unknown).
pub fn ieee80211_frequency_to_channel(freq: i32) -> (c: i32)
    requires
        freq >= i32::MIN + 2407,
    ensures
        c == spec_frequency_to_channel(freq as int),
{
    if freq == 2484 {
        return 14;
    } else if freq < 2484 {
        return (freq - 2407) / 5;
    } else if freq >= 4910 && freq <= 4980 {
        return (freq - 4000) / 5;
    } else if freq <= 45000 {
        return (freq - 5000) / 5;
    } else if freq >= 58320 && freq <= 64800 {
        return (freq - 56160) / 2160;
    }
    0
}

/// Key under which channel-sequence identifiers are hashed: ASCII "0123456789012345".
pub const SIPHASH_KEY: [u8; 16] = [
    0x30,
    0x31,
    0x32,
    0x33,
    0x34,
    0x35,
    0x36,
    0x37,
    0x38,
    0x39,
    0x30,
    0x31,
    0x32,
    0x33,
    0x34,
    0x35,
];

/// The key bytes "0123456789012345".
pub open spec fn siphash_key_bytes() -> Seq<u8> {
    seq![
        0x30u8, 0x31u8, 0x32u8, 0x33u8, 0x34u8, 0x35u8, 0x36u8, 0x37u8,
        0x38u8, 0x39u8, 0x30u8, 0x31u8, 0x32u8, 0x33u8, 0x34u8, 0x35u8,
    ]
}

/// Low 16 bits of the SipHash of a channel-sequence identifier.
pub open spec fn chanseq_hash(chanseq_id: u16) -> int {
    let h = siphash::le64_bytes(
        siphash::siphash24_word(crate::awdl::wire::le16_bytes(chanseq_id), siphash_key_bytes()),
    );
    h[0] as int + 256 * (h[1] as int)
}

/// Expected slot: (AW counter / presence mode + hash of the sequence id) mod 16.
pub open spec fn spec_channel_expected(chanseq_id: u16, aw_counter: u16, presence_mode: u8) -> int {
    (aw_counter as int / presence_mode as int + chanseq_hash(chanseq_id)) % (
    AWDL_CHANSEQ_LENGTH as int)
}

/// Expected channel-sequence slot for the given sequence id, AW counter and
/// presence mode.
pub fn awdl_channel_expected(chanseq_id: u16, aw_counter: u16, presence_mode: u8) -> (slot: usize)
    requires
        presence_mode > 0,
    ensures
        slot == spec_channel_expected(chanseq_id, aw_counter, presence_mode),
        slot < AWDL_CHANSEQ_LENGTH,
{
    let input: [u8; 2] = [(chanseq_id % 256) as u8, (chanseq_id / 256) as u8];
    assert(input@ =~= crate::awdl::wire::le16_bytes(chanseq_id));
    let key = SIPHASH_KEY;
    assert(key@ =~= siphash_key_bytes());
    let hash = siphash::siphash24(input.as_slice(), &key);
    let truncated = siphash::siphash_truncate(hash);
    let eaw = (aw_counter / presence_mode as u16) as usize;
    (eaw + truncated as usize) % AWDL_CHANSEQ_LENGTH
}


/// For every channel number from 1 to 8000 outside 15..=31, the frequency of
/// the channel converts back to the same channel.
pub proof fn lemma_channel_frequency_roundtrip(chan: int)
    requires
        1 <= chan <= 8000,
        !(15 <= chan <= 31),
    ensures
        spec_frequency_to_channel(spec_channel_to_frequency(chan)) == chan,
{
}

} // verus!
