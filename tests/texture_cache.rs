use spine_composite::texture::{
    convert_filter, convert_format, convert_wrap, AtlasFilter, AtlasFormat, AtlasWrap, DeleteQueue, FilterMode,
    PixelFormat, Resolution, TextureCache, TextureRequest, TextureWrap,
};

fn request(path: &str) -> TextureRequest {
    TextureRequest::for_page(
        path.to_string(),
        AtlasFilter::Linear,
        AtlasFilter::Nearest,
        AtlasWrap::ClampToEdge,
        AtlasWrap::Repeat,
        AtlasFormat::RGBA8888,
    )
}

#[test]
fn resolving_twice_decodes_once() {
    let mut cache: TextureCache<u32> = TextureCache::new();
    let slot = cache.register(request("page.png"));
    let mut decoder_calls = 0;
    let mut handles = vec![];
    for _ in 0..2 {
        let handle = match cache.resolve(slot).unwrap() {
            Resolution::Ready(h) => h,
            Resolution::Load(req) => {
                assert_eq!(req.path, "page.png");
                decoder_calls += 1;
                let h = 77;
                cache.complete_load(slot, h);
                h
            }
        };
        handles.push(handle);
    }
    assert_eq!(decoder_calls, 1);
    assert_eq!(handles, vec![77, 77]);
}

#[test]
fn slots_load_independently() {
    let mut cache: TextureCache<u32> = TextureCache::new();
    let a = cache.register(request("a.png"));
    let b = cache.register(request("b.png"));
    assert_eq!((a, b), (0, 1));
    cache.complete_load(a, 5);
    assert!(matches!(cache.resolve(a), Some(Resolution::Ready(5))));
    match cache.resolve(b) {
        Some(Resolution::Load(req)) => assert_eq!(req.path, "b.png"),
        _ => panic!("b is not loaded yet"),
    }
    assert!(cache.resolve(2).is_none());
    assert_eq!(cache.len(), 2);
}

#[test]
fn release_hands_back_uploaded_texture() {
    let mut cache: TextureCache<u32> = TextureCache::new();
    let a = cache.register(request("a.png"));
    let b = cache.register(request("b.png"));
    cache.complete_load(a, 9);
    assert_eq!(cache.release(a), Some(9));
    assert_eq!(cache.release(b), None);
    assert!(cache.resolve(a).is_none());
    assert!(cache.resolve(b).is_none());
    assert_eq!(cache.release(a), None);
    assert_eq!(cache.release(40), None);
}

#[test]
fn page_settings_convert() {
    let req = request("p.png");
    assert_eq!(req.min_filter, FilterMode::Linear);
    assert_eq!(req.mag_filter, FilterMode::Nearest);
    assert_eq!(req.x_wrap, TextureWrap::Clamp);
    assert_eq!(req.y_wrap, TextureWrap::Repeat);
    assert_eq!(req.format, PixelFormat::Rgba8);
}

#[test]
fn unsupported_page_settings_fall_back() {
    let req = TextureRequest::for_page(
        "q.png".to_string(),
        AtlasFilter::MipmapLinearLinear,
        AtlasFilter::UnknownFilter,
        AtlasWrap::Unknown,
        AtlasWrap::MirroredRepeat,
        AtlasFormat::RGB565,
    );
    assert_eq!(req.min_filter, FilterMode::Linear);
    assert_eq!(req.mag_filter, FilterMode::Linear);
    assert_eq!(req.x_wrap, TextureWrap::Clamp);
    assert_eq!(req.y_wrap, TextureWrap::Mirror);
    assert_eq!(req.format, PixelFormat::Rgba8);
}

#[test]
fn converters_report_unsupported_settings() {
    assert_eq!(convert_filter(AtlasFilter::Mipmap), None);
    assert_eq!(convert_filter(AtlasFilter::Nearest), Some(FilterMode::Nearest));
    assert_eq!(convert_wrap(AtlasWrap::Unknown), None);
    assert_eq!(convert_wrap(AtlasWrap::MirroredRepeat), Some(TextureWrap::Mirror));
    assert_eq!(convert_format(AtlasFormat::RGB888), Some(PixelFormat::Rgb8));
    assert_eq!(convert_format(AtlasFormat::Alpha), None);
}

#[test]
fn delete_queue_drains_in_fifo_order() {
    let mut q: DeleteQueue<u32> = DeleteQueue::new();
    q.enqueue(1);
    q.enqueue(2);
    q.enqueue(3);
    assert_eq!(q.len(), 3);
    assert_eq!(q.drain(), vec![1, 2, 3]);
    assert!(q.is_empty());
    assert_eq!(q.drain(), Vec::<u32>::new());
}
