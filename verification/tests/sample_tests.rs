use projet_u::sample::{FloatBits, Sample, Samples, I24};

#[test]
fn round_trip_u8() {
    for v in [0u8, 1, 127, 128, 255] {
        let bytes = v.to_bytes();
        assert_eq!(bytes.len(), 1);
        assert_eq!(u8::from_bytes(&bytes), v);
    }
}

#[test]
fn round_trip_i16() {
    for v in [0i16, 1, -1, 1000, -32768, 32767] {
        let bytes = v.to_bytes();
        assert_eq!(bytes.len(), 2);
        assert_eq!(i16::from_bytes(&bytes), v);
    }
}

#[test]
fn round_trip_i24() {
    for raw in [0i32, 1, -1, 4660, -8388608, 8388607] {
        let v = I24::new(raw).unwrap();
        let bytes = v.to_bytes();
        assert_eq!(bytes.len(), 3);
        let back = I24::from_bytes(&bytes);
        assert_eq!(back, v);
        assert_eq!(back.value(), raw);
    }
}

#[test]
fn round_trip_float_bits() {
    for f in [0.0f32, 1.5, -1.0, 8000.25] {
        let v = FloatBits::from_bits(f.to_bits());
        let bytes = v.to_bytes();
        assert_eq!(bytes.len(), 4);
        let back = FloatBits::from_bytes(&bytes);
        assert_eq!(back, v);
        assert_eq!(f32::from_bits(back.bits()), f);
    }
}

#[test]
fn decode_consumes_only_the_first_bytes() {
    assert_eq!(i16::from_bytes(&[0xE8, 0x03, 0xFF, 0xFF]), 1000);
    assert_eq!(u8::from_bytes(&[7, 9]), 7);
    assert_eq!(I24::from_bytes(&[0x56, 0x34, 0x12, 0xAB]).value(), 0x123456);
}

#[test]
fn i24_rejects_out_of_range() {
    assert!(I24::new(8388608).is_none());
    assert!(I24::new(-8388609).is_none());
    assert!(I24::new(8388607).is_some());
    assert!(I24::new(-8388608).is_some());
}

#[test]
fn i16_encoding_is_little_endian() {
    assert_eq!(1000i16.to_bytes(), vec![0xE8, 0x03]);
    assert_eq!((-2i16).to_bytes(), vec![0xFE, 0xFF]);
    assert_eq!(0x1234i16.to_bytes(), vec![0x34, 0x12]);
}

#[test]
fn i24_encoding_is_little_endian() {
    assert_eq!(I24::new(0x123456).unwrap().to_bytes(), vec![0x56, 0x34, 0x12]);
    assert_eq!(I24::new(-1).unwrap().to_bytes(), vec![0xFF, 0xFF, 0xFF]);
}

#[test]
fn format_metadata() {
    assert_eq!(u8::byte_width(), 1);
    assert_eq!(i16::byte_width(), 2);
    assert_eq!(I24::byte_width(), 3);
    assert_eq!(FloatBits::byte_width(), 4);
    assert!(!u8::is_float());
    assert!(!i16::is_float());
    assert!(!I24::is_float());
    assert!(FloatBits::is_float());
}

#[test]
fn frame_count_truncates() {
    let samples = Samples::from_vec((0u8..10).collect(), 3, 8000);
    assert_eq!(samples.len(), 10);
    assert_eq!(samples.frame_count(), 3);
    let frames = samples.frames();
    assert_eq!(frames.len(), 3);
    assert_eq!(frames[0], vec![0, 1, 2]);
    assert_eq!(frames[1], vec![3, 4, 5]);
    assert_eq!(frames[2], vec![6, 7, 8]);
}

#[test]
fn one_second_of_mono_audio() {
    let samples = Samples::from_vec(vec![0u8; 8000], 1, 8000);
    assert_eq!(samples.frame_count(), 8000);
    assert_eq!(samples.sample_rate(), 8000);
    let duration = samples.frame_count() as f32 / samples.sample_rate() as f32;
    assert_eq!(duration, 1.0);
}

#[test]
fn channel_deinterleaves() {
    let samples = Samples::from_vec(vec![1u8, 2, 3, 4, 5, 6], 2, 44100);
    assert_eq!(samples.channel(0).unwrap(), vec![1, 3, 5]);
    assert_eq!(samples.channel(1).unwrap(), vec![2, 4, 6]);
    assert!(samples.channel(2).is_none());
}

#[test]
fn channel_sees_trailing_partial_frame() {
    let samples = Samples::from_vec((0u8..10).collect(), 3, 8000);
    assert_eq!(samples.channel(0).unwrap(), vec![0, 3, 6, 9]);
    assert_eq!(samples.channel(1).unwrap(), vec![1, 4, 7]);
    assert_eq!(samples.channel(2).unwrap(), vec![2, 5, 8]);
}

#[test]
fn make_owned_is_idempotent() {
    let data: &'static [u8] = &[9, 8, 7, 6];
    let mut samples = Samples::borrowed(data, 2, 8000);
    samples.make_owned();
    let once: Vec<u8> = samples.as_slice().to_vec();
    samples.make_owned();
    let twice: Vec<u8> = samples.as_slice().to_vec();
    assert_eq!(once, vec![9, 8, 7, 6]);
    assert_eq!(once, twice);

    let mut owned = Samples::from_vec(vec![1u8, 2], 1, 8000);
    owned.make_owned();
    assert_eq!(owned.as_slice(), &[1, 2]);
}

#[test]
fn try_iter_mut_respects_ownership() {
    let data: &'static [u8] = &[1, 2, 3];
    let mut borrowed = Samples::borrowed(data, 1, 8000);
    assert!(borrowed.try_iter_mut().is_none());

    let mut owned = Samples::from_vec(vec![1u8, 2, 3], 1, 8000);
    {
        let view = owned.try_iter_mut().unwrap();
        assert_eq!(view.len(), 3);
        view[0] = 42;
    }
    assert_eq!(owned.as_slice(), &[42, 2, 3]);
}

#[test]
fn iter_mut_promotes_then_mutates() {
    let data: &'static [u8] = &[1, 2, 3];
    let mut samples = Samples::borrowed(data, 1, 8000);
    {
        let view = samples.iter_mut();
        view[2] = 99;
    }
    assert_eq!(samples.as_slice(), &[1, 2, 99]);
    assert_eq!(data, &[1, 2, 3]);
    assert!(samples.try_iter_mut().is_some());
}

#[test]
fn read_access_in_both_modes() {
    let data: &'static [u8] = &[5, 6];
    let borrowed = Samples::borrowed(data, 1, 8000);
    assert_eq!(borrowed.as_slice(), &[5, 6]);
    assert_eq!(borrowed.iter(), &[5, 6]);
    assert_eq!(borrowed.get(1), Some(&6));
    assert_eq!(borrowed.get(2), None);
    assert!(!borrowed.is_empty());
    assert_eq!(borrowed.num_channels(), 1);

    let owned: Samples<u8> = Samples::from_vec(Vec::new(), 2, 44100);
    assert!(owned.is_empty());
    assert_eq!(owned.len(), 0);
    assert_eq!(owned.frame_count(), 0);
    assert_eq!(owned.num_channels(), 2);
    assert_eq!(owned.sample_rate(), 44100);
}
