use floatdo::commands::pet::setting_of_read;
use floatdo::commands::pet::{
    clamp_u32, display_writes, frame_source_file_name, frame_sprite_file_name, frame_speed_writes, mime_for_ext,
    personality_writes, photo_config, photo_extension, photo_target, plan_reprocess, remove_frame, reprocess_writes,
    source_file_name, FileFacts, FrameEntry, PetPersonality, PhotoSettings, PhotoTarget,
};
use floatdo::pet_avatar::PetStyle;

fn settings() -> PhotoSettings {
    PhotoSettings {
        path: None,
        source_path: None,
        enabled: None,
        style: None,
        tolerance: None,
        segmentation: None,
        frame_ms: None,
        size: None,
        opacity: None,
    }
}

fn file(version: u64) -> FileFacts {
    FileFacts { is_file: true, version }
}

fn missing() -> FileFacts {
    FileFacts { is_file: false, version: 0 }
}

#[test]
fn mime_matches_common_image_types() {
    assert_eq!(mime_for_ext("C:\\a\\pet_photo.PNG"), "image/png");
    assert_eq!(mime_for_ext("p.jpg"), "image/jpeg");
    assert_eq!(mime_for_ext("p.JPEG"), "image/jpeg");
    assert_eq!(mime_for_ext("p.webp"), "image/webp");
    assert_eq!(mime_for_ext("p.gif"), "image/gif");
    assert_eq!(mime_for_ext("p.bmp"), "application/octet-stream");
}

#[test]
fn mime_looks_at_the_last_component_only() {
    assert_eq!(mime_for_ext("/data/x.png/"), "image/png");
    assert_eq!(mime_for_ext("/data/x.png/."), "image/png");
    assert_eq!(mime_for_ext("/data.png/x"), "application/octet-stream");
    assert_eq!(mime_for_ext("/data/.png"), "application/octet-stream");
}

#[test]
fn personality_roundtrip_and_fallback() {
    for p in [PetPersonality::Gentle, PetPersonality::Motivator, PetPersonality::Sarcastic, PetPersonality::Cool] {
        assert_eq!(PetPersonality::from_db(p.as_str()).unwrap(), p);
    }
    assert!(PetPersonality::from_db("angry").is_err());
    let conn = rusqlite::Connection::open_in_memory().unwrap();
    conn.execute_batch("CREATE TABLE settings (key TEXT PRIMARY KEY, value TEXT NOT NULL);").unwrap();
    assert_eq!(PetPersonality::read_from(&conn), PetPersonality::Gentle);
    conn.execute_batch("INSERT INTO settings (key, value) VALUES ('petPersonality', 'sarcastic');").unwrap();
    assert_eq!(PetPersonality::read_from(&conn), PetPersonality::Sarcastic);
}

#[test]
fn photo_config_defaults_without_settings() {
    let c = photo_config(&settings(), missing(), missing(), &vec![]);
    assert_eq!(c.path, None);
    assert_eq!(c.source_path, None);
    assert!(!c.enabled);
    assert_eq!(c.style, "original");
    assert_eq!(c.tolerance, 30);
    assert!(c.use_ai);
    assert_eq!(c.frame_ms, 300);
    assert_eq!(c.pet_size, 96);
    assert_eq!(c.pet_opacity, 100);
    assert!(c.frames.is_empty());
    assert_eq!(c.url, None);
}

#[test]
fn photo_config_reads_and_clamps_settings() {
    let s = PhotoSettings {
        path: Some("/d/pet_photo.png".into()),
        source_path: Some("/d/pet_source.jpg".into()),
        enabled: Some("true".into()),
        style: Some("pixel".into()),
        tolerance: Some("45".into()),
        segmentation: Some("false".into()),
        frame_ms: Some("5000".into()),
        size: Some("20".into()),
        opacity: Some("5".into()),
    };
    let c = photo_config(&s, file(11), file(7), &vec![file(3), missing(), file(9)]);
    assert_eq!(c.path.as_deref(), Some("/d/pet_photo.png"));
    assert_eq!(c.source_path.as_deref(), Some("/d/pet_source.jpg"));
    assert!(c.enabled);
    assert_eq!(c.style, "pixel");
    assert_eq!(c.tolerance, 45);
    assert!(!c.use_ai);
    assert_eq!(c.frame_ms, 2000);
    assert_eq!(c.pet_size, 64);
    assert_eq!(c.pet_opacity, 20);
    assert_eq!(c.url.as_deref(), Some("http://petphoto.localhost/photo?v=11"));
    assert_eq!(c.source_url.as_deref(), Some("http://petphoto.localhost/source?v=7"));
    assert_eq!(
        c.frames,
        vec![
            "http://petphoto.localhost/frame?i=0&v=11".to_string(),
            "http://petphoto.localhost/frame?i=1&v=3".to_string(),
            "http://petphoto.localhost/frame?i=2&v=9".to_string(),
        ]
    );
}

#[test]
fn missing_source_falls_back_to_the_sprite() {
    let mut s = settings();
    s.path = Some("/d/pet_photo.png".into());
    s.source_path = Some("/gone.jpg".into());
    s.tolerance = Some("300".into());
    let c = photo_config(&s, file(5), missing(), &vec![]);
    assert_eq!(c.source_path.as_deref(), Some("/d/pet_photo.png"));
    assert_eq!(c.source_url.as_deref(), Some("http://petphoto.localhost/source?v=5"));
    assert_eq!(c.tolerance, 30);
}

#[test]
fn display_and_speed_are_clamped_when_stored() {
    let w = display_writes(0, 250);
    assert_eq!((w[0].key.as_str(), w[0].value.as_str()), ("petSize", "96"));
    assert_eq!((w[1].key.as_str(), w[1].value.as_str()), ("petOpacity", "100"));
    let w = display_writes(500, 10);
    assert_eq!(w[0].value, "192");
    assert_eq!(w[1].value, "20");
    assert_eq!(frame_speed_writes(50)[0].value, "100");
    assert_eq!(frame_speed_writes(700)[0].value, "700");
    assert_eq!(clamp_u32(0, 64, 192, 96), 96);
    assert_eq!(clamp_u32(100, 64, 192, 96), 100);
}

#[test]
fn personality_and_reprocess_writes() {
    let w = personality_writes("cool").unwrap();
    assert_eq!((w[0].key.as_str(), w[0].value.as_str()), ("petPersonality", "cool"));
    assert_eq!(personality_writes("angry").unwrap_err(), "未知的桌宠人格: angry");
    let w = reprocess_writes(&Some("anime".into()), None, Some(false));
    assert_eq!(w.len(), 2);
    assert_eq!((w[0].key.as_str(), w[0].value.as_str()), ("petStyle", "anime"));
    assert_eq!((w[1].key.as_str(), w[1].value.as_str()), ("petSegmentation", "false"));
    let w = reprocess_writes(&None, Some(12), None);
    assert_eq!((w[0].key.as_str(), w[0].value.as_str()), ("petTolerance", "12"));
}

#[test]
fn reprocessing_needs_a_photo_and_a_known_style() {
    let c = photo_config(&PhotoSettings { source_path: Some("/s.png".into()), ..settings() }, missing(), file(1), &vec![]);
    assert_eq!(plan_reprocess(&c, false, None, &None, None).unwrap_err(), "还没有导入照片");
    assert_eq!(plan_reprocess(&c, true, None, &Some("3d".into()), None).unwrap_err(), "未知的桌宠风格: 3d");
    let p = plan_reprocess(&c, true, Some(50), &None, None).unwrap();
    assert_eq!(p.source, "/s.png");
    assert_eq!(p.style, PetStyle::Original);
    assert_eq!(p.tolerance, 50);
    assert!(p.use_ai);
}

#[test]
fn removing_frames() {
    let on = FileFacts { is_file: true, version: 1 };
    let mut frames = vec![
        FrameEntry { source: "s1".into(), sprite: "p1".into() },
        FrameEntry { source: "s2".into(), sprite: "p2".into() },
    ];
    let both = vec![on, on];
    assert_eq!(remove_frame(&mut frames, true, &both, 0).unwrap_err(), "第 0 帧是主形象，请用「更换照片…」替换");
    assert_eq!(remove_frame(&mut frames, true, &both, 3).unwrap_err(), "帧不存在");
    let removed = remove_frame(&mut frames, true, &both, 1).unwrap();
    assert_eq!(removed.sprite, "p1");
    assert_eq!(frames.len(), 1);
    assert_eq!(frames[0].sprite, "p2");
}

#[test]
fn removing_frames_counts_only_shown_ones() {
    // The first stored frame's sprite is missing: the list shows the main picture
    // and the second frame only.
    let on = FileFacts { is_file: true, version: 1 };
    let off = FileFacts { is_file: false, version: 0 };
    let mut frames = vec![
        FrameEntry { source: "s1".into(), sprite: "p1".into() },
        FrameEntry { source: "s2".into(), sprite: "p2".into() },
    ];
    let sprites = vec![off, on];
    assert_eq!(remove_frame(&mut frames, true, &sprites, 2).unwrap_err(), "帧不存在");
    assert_eq!(frames.len(), 2);
    let removed = remove_frame(&mut frames, true, &sprites, 1).unwrap();
    assert_eq!(removed.sprite, "p2");
    assert_eq!(frames[0].sprite, "p1");
}

#[test]
fn file_names_of_imported_photos() {
    assert_eq!(photo_extension("/home/a/Cat.JPG"), "jpg");
    assert_eq!(photo_extension("/home/a/cat"), "png");
    assert_eq!(source_file_name("jpg"), "pet_source.jpg");
    assert_eq!(frame_source_file_name(1700, "webp"), "pet_source_f1700.webp");
    assert_eq!(frame_sprite_file_name(1700), "pet_frame_1700.png");
}

#[test]
fn photo_protocol_targets() {
    assert_eq!(photo_target("/frame", &Some("v=3&i=2".into())), PhotoTarget::Frame(2));
    assert_eq!(photo_target("/frame", &Some("i=x".into())), PhotoTarget::Photo);
    assert_eq!(photo_target("/source", &Some("v=1".into())), PhotoTarget::Source);
    assert_eq!(photo_target("/photo", &None), PhotoTarget::Photo);
    assert_eq!(photo_target("/frame", &None), PhotoTarget::Photo);
}

#[test]
fn windows_paths_split_at_backslashes() {
    assert_eq!(mime_for_ext("C:\\a\\.png"), "application/octet-stream");
    assert_eq!(mime_for_ext("C:\\Users\\me\\Cat.JPG"), "image/jpeg");
    assert_eq!(photo_extension("C:\\Users\\me\\cat.webp"), "webp");
    assert_eq!(photo_extension("C:\\Users\\me.d\\cat"), "png");
}

#[test]
fn personality_and_settings_from_reads() {
    assert_eq!(PetPersonality::from_read(&Ok(Some("sarcastic".into()))), PetPersonality::Sarcastic);
    assert_eq!(PetPersonality::from_read(&Ok(Some("angry".into()))), PetPersonality::Gentle);
    assert_eq!(PetPersonality::from_read(&Ok(None)), PetPersonality::Gentle);
    assert_eq!(PetPersonality::from_read(&Err("db".into())), PetPersonality::Gentle);
    assert_eq!(setting_of_read(Ok(Some("x".into()))), Some("x".to_string()));
    assert_eq!(setting_of_read(Err("db".into())), None);
}
