use vstd::prelude::*;

verus! {

/// Sample rate of the generated sound effects, in samples per second.
pub const SAMPLE_RATE: u32 = 22050;

/// The sound effects the game plays.
#[derive(Clone, Copy, PartialEq, Eq, Structural, Debug)]
pub enum SoundEvent {
    FootstepDirt,
    FootstepStone,
    BlockBreak,
    BlockPlace,
    GadgetSwitch,
    AttackSwing,
    MobHurt,
    PlayerHurt,
}

/// Asset key under which each effect is stored.
pub open spec fn spec_sound_key(e: SoundEvent) -> Seq<char> {
    match e {
        SoundEvent::FootstepDirt => "footstep_dirt"@,
        SoundEvent::FootstepStone => "footstep_stone"@,
        SoundEvent::BlockBreak => "block_break"@,
        SoundEvent::BlockPlace => "block_place"@,
        SoundEvent::GadgetSwitch => "gadget_switch"@,
        SoundEvent::AttackSwing => "attack_swing"@,
        SoundEvent::MobHurt => "mob_hurt"@,
        SoundEvent::PlayerHurt => "player_hurt"@,
    }
}

/// The asset key of a sound effect.
pub fn sound_key(e: SoundEvent) -> (k: &'static str)
    ensures
        k@ == spec_sound_key(e),
{
    match e {
        SoundEvent::FootstepDirt => "footstep_dirt",
        SoundEvent::FootstepStone => "footstep_stone",
        SoundEvent::BlockBreak => "block_break",
        SoundEvent::BlockPlace => "block_place",
        SoundEvent::GadgetSwitch => "gadget_switch",
        SoundEvent::AttackSwing => "attack_swing",
        SoundEvent::MobHurt => "mob_hurt",
        SoundEvent::PlayerHurt => "player_hurt",
    }
}

/// 2^32.
pub open spec fn two32() -> int {
    0x1_0000_0000
}

/// One step of the linear congruential generator behind the procedural
/// noise: the index taken modulo 2^32, times 1103515245, plus 12345, all
/// modulo 2^32.
pub open spec fn spec_noise_bits(i: int) -> int {
    (((i % two32()) * 1103515245) % two32() + 12345) % two32()
}

/// The 32 pseudo-random bits the procedural noise draws for sample `i`.
pub fn pseudo_noise_bits(i: usize) -> (r: u32)
    ensures
        r == spec_noise_bits(i as int),
{
    let x: u64 = (i as u64) % 0x1_0000_0000;
    let m: u64 = (x * 1103515245) % 0x1_0000_0000;
    ((m + 12345) % 0x1_0000_0000) as u32
}

/// Little-endian bytes of a 32-bit value.
pub open spec fn le32(v: int) -> Seq<u8> {
    seq![(v % 256) as u8, ((v / 256) % 256) as u8, ((v / 65536) % 256) as u8, ((v / 16777216) % 256) as u8]
}

/// Little-endian bytes of a 16-bit value.
pub open spec fn le16(v: int) -> Seq<u8> {
    seq![(v % 256) as u8, ((v / 256) % 256) as u8]
}

/// The 16-bit two's-complement pattern of a sample.
pub open spec fn sample_bits(s: i16) -> int {
    if s >= 0 { s as int } else { s + 65536 }
}

/// The four ASCII bytes of a chunk tag.
pub open spec fn tag(a: u8, b: u8, c: u8, d: u8) -> Seq<u8> {
    seq![a, b, c, d]
}

/// The 44-byte header of a mono 16-bit PCM WAV file holding `n` samples.
pub open spec fn wav_header(n: int, rate: int) -> Seq<u8> {
    tag(82, 73, 70, 70) + le32(36 + 2 * n) + tag(87, 65, 86, 69)
        + tag(102, 109, 116, 32) + le32(16) + le16(1) + le16(1) + le32(rate) + le32(rate * 2) + le16(2) + le16(16)
        + tag(100, 97, 116, 97) + le32(2 * n)
}

/// The sample data: each sample's two bytes, little-endian, in order.
pub open spec fn wav_data(samples: Seq<i16>) -> Seq<u8>
    decreases samples.len(),
{
    if samples.len() == 0 {
        seq![]
    } else {
        wav_data(samples.drop_last()) + le16(sample_bits(samples.last()))
    }
}

fn push_le32(buf: &mut Vec<u8>, v: u32)
    ensures
        final(buf)@ == old(buf)@ + le32(v as int),
{
    buf.push((v % 256) as u8);
    buf.push(((v / 256) % 256) as u8);
    buf.push(((v / 65536) % 256) as u8);
    buf.push(((v / 16777216) % 256) as u8);
    assert(final(buf)@ =~= old(buf)@ + le32(v as int));
}

fn push_le16(buf: &mut Vec<u8>, v: u16)
    ensures
        final(buf)@ == old(buf)@ + le16(v as int),
{
    buf.push((v % 256) as u8);
    buf.push(((v / 256) % 256) as u8);
    assert(final(buf)@ =~= old(buf)@ + le16(v as int));
}

fn push_tag(buf: &mut Vec<u8>, a: u8, b: u8, c: u8, d: u8)
    ensures
        final(buf)@ == old(buf)@ + tag(a, b, c, d),
{
    buf.push(a);
    buf.push(b);
    buf.push(c);
    buf.push(d);
    assert(final(buf)@ =~= old(buf)@ + tag(a, b, c, d));
}

/// Encode 16-bit samples as a mono PCM WAV file: the RIFF header, the format
/// chunk, then the data chunk with the samples little-endian.
pub fn encode_wav(samples: &[i16], sample_rate: u32) -> (bytes: Vec<u8>)
    requires
        36 + 2 * samples@.len() <= u32::MAX,
        2 * sample_rate <= u32::MAX,
    ensures
        bytes@ == wav_header(samples@.len() as int, sample_rate as int) + wav_data(samples@),
{
    let num_samples = samples.len() as u32;
    let bytes_per_sample: u16 = 2;
    let num_channels: u16 = 1;
    let data_size = num_samples * bytes_per_sample as u32;
    let file_size = 36 + data_size;

    let mut buf: Vec<u8> = Vec::new();

    // RIFF header
    push_tag(&mut buf, 82, 73, 70, 70);
    push_le32(&mut buf, file_size);
    push_tag(&mut buf, 87, 65, 86, 69);

    // fmt chunk
    push_tag(&mut buf, 102, 109, 116, 32);
    push_le32(&mut buf, 16);
    push_le16(&mut buf, 1);
    push_le16(&mut buf, num_channels);
    push_le32(&mut buf, sample_rate);
    let byte_rate = sample_rate * num_channels as u32 * bytes_per_sample as u32;
    push_le32(&mut buf, byte_rate);
    let block_align = num_channels * bytes_per_sample;
    push_le16(&mut buf, block_align);
    push_le16(&mut buf, bytes_per_sample * 8);

    // data chunk
    push_tag(&mut buf, 100, 97, 116, 97);
    push_le32(&mut buf, data_size);
    let ghost header = buf@;
    assert(header =~= wav_header(samples@.len() as int, sample_rate as int));

    let mut i: usize = 0;
    while i < samples.len()
        invariant
            i <= samples@.len(),
            buf@ == header + wav_data(samples@.take(i as int)),
        decreases samples@.len() - i,
    {
        let s = samples[i];
        let bits: u16 = if s >= 0 { s as u16 } else { (s as i32 + 65536) as u16 };
        push_le16(&mut buf, bits);
        assert(samples@.take(i + 1).drop_last() =~= samples@.take(i as int));
        assert(buf@ =~= header + wav_data(samples@.take(i + 1)));
        i += 1;
    }
    assert(samples@.take(samples@.len() as int) =~= samples@);
    buf
}

/// The data part of a WAV file has two bytes per sample.
pub proof fn lemma_wav_data_len(samples: Seq<i16>)
    ensures
        wav_data(samples).len() == 2 * samples.len(),
    decreases samples.len(),
{
    if samples.len() > 0 {
        lemma_wav_data_len(samples.drop_last());
    }
}

/// A WAV file is 44 header bytes plus two bytes per sample, and the size
/// fields in the header read back as the real sizes.
pub proof fn lemma_wav_sizes(samples: Seq<i16>, rate: int)
    ensures
        (wav_header(samples.len() as int, rate) + wav_data(samples)).len() == 44 + 2 * samples.len(),
        wav_header(samples.len() as int, rate).subrange(40, 44) == le32(2 * samples.len() as int),
{
    lemma_wav_data_len(samples);
    assert(wav_header(samples.len() as int, rate).subrange(40, 44) =~= le32(2 * samples.len() as int));
}

} // verus!
