use ronincraft::sound::{encode_wav, pseudo_noise_bits, sound_key, SoundEvent, SAMPLE_RATE};

#[test]
fn wav_header_and_data() {
    let bytes = encode_wav(&[0i16, 1, -1, 32767, -32768], SAMPLE_RATE);
    assert_eq!(bytes.len(), 44 + 10);
    assert_eq!(&bytes[0..4], b"RIFF");
    assert_eq!(&bytes[4..8], &(36u32 + 10).to_le_bytes());
    assert_eq!(&bytes[8..12], b"WAVE");
    assert_eq!(&bytes[12..16], b"fmt ");
    assert_eq!(&bytes[16..20], &16u32.to_le_bytes());
    assert_eq!(&bytes[20..22], &1u16.to_le_bytes());
    assert_eq!(&bytes[22..24], &1u16.to_le_bytes());
    assert_eq!(&bytes[24..28], &22050u32.to_le_bytes());
    assert_eq!(&bytes[28..32], &44100u32.to_le_bytes());
    assert_eq!(&bytes[32..34], &2u16.to_le_bytes());
    assert_eq!(&bytes[34..36], &16u16.to_le_bytes());
    assert_eq!(&bytes[36..40], b"data");
    assert_eq!(&bytes[40..44], &10u32.to_le_bytes());
    assert_eq!(&bytes[44..], &[0, 0, 1, 0, 0xff, 0xff, 0xff, 0x7f, 0x00, 0x80]);
}

#[test]
fn empty_wav() {
    let bytes = encode_wav(&[], 8000);
    assert_eq!(bytes.len(), 44);
    assert_eq!(&bytes[40..44], &[0, 0, 0, 0]);
    assert_eq!(&bytes[28..32], &16000u32.to_le_bytes());
}

#[test]
fn noise_generator_steps() {
    assert_eq!(pseudo_noise_bits(0), 12345);
    assert_eq!(pseudo_noise_bits(1), 1103515245u32.wrapping_add(12345));
    for i in [2usize, 7, 1000, 123456789] {
        assert_eq!(pseudo_noise_bits(i), (i as u32).wrapping_mul(1103515245).wrapping_add(12345));
    }
}

#[test]
fn sound_keys() {
    assert_eq!(sound_key(SoundEvent::FootstepDirt), "footstep_dirt");
    assert_eq!(sound_key(SoundEvent::FootstepStone), "footstep_stone");
    assert_eq!(sound_key(SoundEvent::BlockBreak), "block_break");
    assert_eq!(sound_key(SoundEvent::BlockPlace), "block_place");
    assert_eq!(sound_key(SoundEvent::GadgetSwitch), "gadget_switch");
    assert_eq!(sound_key(SoundEvent::AttackSwing), "attack_swing");
    assert_eq!(sound_key(SoundEvent::MobHurt), "mob_hurt");
    assert_eq!(sound_key(SoundEvent::PlayerHurt), "player_hurt");
}
