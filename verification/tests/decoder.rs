use rav2d::data::Data;
use rav2d::decoder::{
    get_frame_delay, get_num_threads, version, version_api, DecodeFrameType, Decoder,
    InloopFilterType, ParseOutcome, Picture, Settings, MAX_FRAME_DELAY, MAX_THREADS,
};
use rav2d::error::Rav2dError;

fn open(s: &Settings) -> Decoder {
    match Decoder::open(s) {
        Ok(d) => d,
        Err(e) => panic!("{}", e.message()),
    }
}

fn wrap(bytes: &[u8]) -> Option<Data> {
    Some(Data::wrap(bytes.to_vec()))
}

#[test]
fn test_default_settings() {
    let s = Settings::default();
    assert_eq!(s.n_threads, 0);
    assert_eq!(s.max_frame_delay, 0);
    assert!(s.apply_grain);
    assert_eq!(s.operating_point, 0);
    assert!(s.all_layers);
}

#[test]
fn default_settings_in_full() {
    let s = Settings::default();
    assert_eq!(s.n_cpus, 1);
    assert_eq!(s.frame_size_limit, 0);
    assert!(!s.strict_std_compliance);
    assert!(!s.output_invisible_frames);
    assert_eq!(s.inloop_filters, InloopFilterType::All);
    assert_eq!(s.decode_frame_type, DecodeFrameType::All);
    assert!(!s.run_decode);
    assert_eq!(InloopFilterType::default(), InloopFilterType::All);
    assert_eq!(DecodeFrameType::default(), DecodeFrameType::All);
}

#[test]
fn filter_masks() {
    assert_eq!(InloopFilterType::Off.bits(), 0);
    assert_eq!(InloopFilterType::Deblock.bits(), 1);
    assert_eq!(InloopFilterType::Cdef.bits(), 2);
    assert_eq!(InloopFilterType::Restoration.bits(), 4);
    assert_eq!(InloopFilterType::Wiener.bits(), 8);
    assert_eq!(InloopFilterType::Gdf.bits(), 16);
    assert_eq!(InloopFilterType::All.bits(), 31);
}

#[test]
fn test_get_num_threads() {
    let mut s = Settings::default();
    s.n_threads = 4;
    let (n_tc, n_fc) = get_num_threads(&s);
    assert_eq!(n_tc, 4);
    assert_eq!(n_fc, 2);
}

#[test]
fn test_get_num_threads_single() {
    let mut s = Settings::default();
    s.n_threads = 1;
    let (n_tc, n_fc) = get_num_threads(&s);
    assert_eq!(n_tc, 1);
    assert_eq!(n_fc, 1);
}

#[test]
fn test_get_num_threads_many() {
    let mut s = Settings::default();
    s.n_threads = 49;
    let (n_tc, n_fc) = get_num_threads(&s);
    assert_eq!(n_tc, 49);
    assert_eq!(n_fc, 7);
}

#[test]
fn test_get_num_threads_over_50() {
    let mut s = Settings::default();
    s.n_threads = 100;
    let (n_tc, n_fc) = get_num_threads(&s);
    assert_eq!(n_tc, 100);
    assert_eq!(n_fc, 8);
}

#[test]
fn threads_follow_processors() {
    let mut s = Settings::default();
    s.n_cpus = 16;
    assert_eq!(get_num_threads(&s), (16, 4));
    s.n_cpus = 1000;
    assert_eq!(get_num_threads(&s), (256, 8));
    s.n_cpus = 0;
    assert_eq!(get_num_threads(&s), (1, 1));
}

#[test]
fn delay_is_capped_by_threads() {
    let mut s = Settings::default();
    s.n_threads = 3;
    s.max_frame_delay = 10;
    assert_eq!(get_num_threads(&s), (3, 3));
    s.max_frame_delay = 2;
    assert_eq!(get_num_threads(&s), (3, 2));
}

#[test]
fn automatic_delay_is_a_root() {
    let mut s = Settings::default();
    for n in 1..=256u32 {
        s.n_threads = n;
        let (_, f) = get_num_threads(&s);
        assert!((f - 1) * (f - 1) < n);
        assert!(f == 8 || n <= f * f);
    }
}

#[test]
fn test_get_frame_delay() {
    let mut s = Settings::default();
    s.n_threads = 8;
    assert_eq!(get_frame_delay(&s).unwrap(), 3);
}

#[test]
fn test_get_frame_delay_invalid() {
    let mut s = Settings::default();
    s.n_threads = MAX_THREADS + 1;
    assert_eq!(get_frame_delay(&s), Err(Rav2dError::InvalidParam));
}

#[test]
fn frame_delay_beyond_limit() {
    let mut s = Settings::default();
    s.max_frame_delay = MAX_FRAME_DELAY + 1;
    assert_eq!(get_frame_delay(&s), Err(Rav2dError::InvalidParam));
    assert!(Decoder::open(&s).is_err());
}

#[test]
fn test_decoder_open() {
    let s = Settings::default();
    let decoder = Decoder::open(&s);
    assert!(decoder.is_ok());
    let d = match decoder {
        Ok(d) => d,
        Err(_) => unreachable!(),
    };
    assert!(d.n_threads() >= 1);
}

#[test]
fn test_decoder_open_single_thread() {
    let mut s = Settings::default();
    s.n_threads = 1;
    let d = open(&s);
    assert_eq!(d.n_threads(), 1);
    assert_eq!(d.n_frame_contexts(), 1);
}

#[test]
fn test_decoder_open_invalid() {
    let mut s = Settings::default();
    s.operating_point = 32;
    assert!(Decoder::open(&s).is_err());
}

#[test]
fn test_send_data_drain() {
    let s = Settings::default();
    let mut d = open(&s);
    assert!(d.send_data(None).is_ok());
    assert!(d.is_draining());
}

#[test]
fn test_send_data_after_drain() {
    let s = Settings::default();
    let mut d = open(&s);
    d.send_data(None).unwrap();
    let data = Data::wrap(vec![1, 2, 3]);
    assert_eq!(d.send_data(Some(data)), Err(Rav2dError::Eof));
}

#[test]
fn test_send_data_empty() {
    let s = Settings::default();
    let mut d = open(&s);
    let data = Data::new();
    assert_eq!(d.send_data(Some(data)), Err(Rav2dError::InvalidParam));
}

#[test]
fn test_send_data_double() {
    let s = Settings::default();
    let mut d = open(&s);
    d.send_data(Some(Data::wrap(vec![1, 2, 3]))).unwrap();
    assert_eq!(
        d.send_data(Some(Data::wrap(vec![4, 5, 6]))),
        Err(Rav2dError::Again)
    );
}

#[test]
fn test_get_picture_no_data() {
    let s = Settings::default();
    let mut d = open(&s);
    assert_eq!(d.get_picture().err(), Some(Rav2dError::Again));
}

#[test]
fn test_flush() {
    let s = Settings::default();
    let mut d = open(&s);
    d.send_data(Some(Data::wrap(vec![1, 2, 3]))).unwrap();
    d.flush();
    assert!(d.input_is_empty());
    assert!(!d.is_draining());
    assert!(!d.output_picture_ready());
}

#[test]
fn flushing_forgets_references() {
    let mut d = open(&Settings::default());
    let mut ctx = d.take_context();
    ctx.refs[3].picture = Some(5);
    ctx.refs[3].cdf = Some(6);
    ctx.n_tiles = 2;
    d.set_context(ctx);
    let ctx = d.take_context();
    assert_eq!((ctx.refs[3].picture, ctx.n_tiles), (Some(5), 2));
    d.set_context(ctx);
    d.flush();
    let ctx = d.take_context();
    assert_eq!((ctx.refs[3].picture, ctx.refs[3].cdf, ctx.n_tiles), (None, None, 0));
    assert_eq!(ctx.tile.len(), 0);
}

#[test]
fn test_version() {
    assert!(!version().is_empty());
}

#[test]
fn test_version_api() {
    assert!(version_api() > 0);
}

#[test]
fn version_values() {
    assert_eq!(version(), "0.1.0");
    assert_eq!(version_api(), 256);
}

#[test]
fn test_decoder_drop() {
    let s = Settings::default();
    let d = open(&s);
    drop(d);
}

#[test]
fn completed_picture_is_fetched() {
    let mut d = open(&Settings::default());
    d.send_data(wrap(&[1, 2, 3, 4])).unwrap();
    assert!(d.wants_parse());
    assert_eq!(d.input(), vec![1, 2, 3, 4]);
    let p = Picture { frame: Some(7) };
    assert!(d.parsed(ParseOutcome::Parsed(3, Some(p))).is_ok());
    assert!(!d.wants_parse());
    assert!(d.output_picture_ready());
    assert_eq!(d.get_picture().unwrap(), p);
    assert!(p.has_data());
    assert!(d.wants_parse());
    assert_eq!(d.input(), vec![4]);
    d.parsed(ParseOutcome::Parsed(1, None)).unwrap();
    assert_eq!(d.get_picture(), Err(Rav2dError::Again));
    assert!(d.input_is_empty());
}

#[test]
fn many_pictures_go_round_the_ring() {
    let mut d = open(&Settings::default());
    for i in 0..100u64 {
        d.send_data(wrap(&[0])).unwrap();
        let p = Picture { frame: Some(i) };
        d.parsed(ParseOutcome::Parsed(1, Some(p))).unwrap();
        assert_eq!(d.get_picture(), Ok(p));
        assert_eq!(d.get_picture(), Err(Rav2dError::Again));
    }
}

#[test]
fn failed_parse_drops_input() {
    let mut d = open(&Settings::default());
    d.send_data(wrap(&[9, 9])).unwrap();
    assert_eq!(d.parsed(ParseOutcome::Failed), Err(Rav2dError::InvalidData));
    assert!(d.input_is_empty());
    assert!(d.send_data(wrap(&[1])).is_ok());
}

#[test]
fn waiting_picture_holds_parsing() {
    let mut d = open(&Settings::default());
    d.send_data(wrap(&[1, 2])).unwrap();
    let p = Picture { frame: Some(1) };
    d.parsed(ParseOutcome::Parsed(1, Some(p))).unwrap();
    d.parsed(ParseOutcome::Failed).unwrap();
    assert_eq!(d.input(), vec![2]);
    assert_eq!(d.get_picture(), Ok(p));
}

#[test]
fn end_of_stream_is_reported_once() {
    let mut d = open(&Settings::default());
    d.send_data(None).unwrap();
    assert_eq!(d.get_picture(), Err(Rav2dError::Eof));
    assert!(!d.is_draining());
    assert_eq!(d.get_picture(), Err(Rav2dError::Again));
    assert!(d.send_data(wrap(&[1])).is_ok());
}

#[test]
fn flush_forgets_pictures() {
    let mut d = open(&Settings::default());
    d.send_data(wrap(&[1])).unwrap();
    d.parsed(ParseOutcome::Parsed(1, Some(Picture { frame: Some(3) }))).unwrap();
    d.flush();
    assert!(!d.output_picture_ready());
    assert_eq!(d.get_picture(), Err(Rav2dError::Again));
}

#[test]
fn data_is_consumed_from_the_front() {
    let mut d = Data::wrap(vec![1, 2, 3]);
    assert_eq!(d.len(), 3);
    assert!(d.has_data());
    d.consume(2);
    assert_eq!(d.data(), vec![3]);
    d.consume(1);
    assert!(d.is_empty());
    let mut e = Data::wrap(vec![5]);
    e.unref();
    assert!(!e.has_data());
}
