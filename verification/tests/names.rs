use djicap::names::{
    classify, creation_time_ns, dji_filename_ns_as_utc, ext_upper, extension, image_format,
    CreationTimeError, MediaClass,
};

#[test]
fn extension_follows_the_last_dot() {
    assert_eq!(extension("DJI_0001.mp4"), "mp4");
    assert_eq!(extension("archive.tar.gz"), "gz");
    assert_eq!(extension("noext"), "");
    assert_eq!(extension(".bashrc"), "");
    assert_eq!(extension(".config.toml"), "toml");
    assert_eq!(extension("file."), "");
    assert_eq!(extension("ça.jpé"), "jpé");
}

#[test]
fn extensions_are_upper_cased() {
    assert_eq!(ext_upper("DJI_0001.mp4"), "MP4");
    assert_eq!(ext_upper("photo.Jpeg"), "JPEG");
    assert_eq!(ext_upper(".hidden"), "");
    assert_eq!(ext_upper("clip.mov"), "MOV");
}

#[test]
fn media_classes() {
    assert_eq!(classify("MP4"), MediaClass::Video);
    assert_eq!(classify("MOV"), MediaClass::Video);
    assert_eq!(classify("JPG"), MediaClass::Image);
    assert_eq!(classify("JPEG"), MediaClass::Image);
    assert_eq!(classify("PNG"), MediaClass::Image);
    assert_eq!(classify("SRT"), MediaClass::Other);
    assert_eq!(classify("mp4"), MediaClass::Other);
    assert_eq!(classify(""), MediaClass::Other);
}

#[test]
fn photo_formats() {
    assert_eq!(image_format("PNG"), "png");
    assert_eq!(image_format("JPG"), "jpeg");
    assert_eq!(image_format("JPEG"), "jpeg");
}

#[test]
fn dji_file_names_carry_local_time() {
    assert_eq!(
        dji_filename_ns_as_utc("DJI_20260425131706_0001_D.MP4"),
        Some(1_777_123_026_000_000_000)
    );
    assert_eq!(dji_filename_ns_as_utc("DJI_20260425131706"), Some(1_777_123_026_000_000_000));
    assert_eq!(dji_filename_ns_as_utc("IMG_20260425131706.JPG"), None);
    assert_eq!(dji_filename_ns_as_utc("DJI_2026042513"), None);
    assert_eq!(dji_filename_ns_as_utc("DJI_20261325131706_0001.JPG"), None);
    assert_eq!(dji_filename_ns_as_utc("DJI_0001.JPG"), None);
    assert_eq!(dji_filename_ns_as_utc("DJI_2026042513170é"), None);
}

#[test]
fn creation_time_tags() {
    assert_eq!(creation_time_ns("2026-04-25T11:17:06.000000Z"), Ok(1_777_115_826_000_000_000));
    assert_eq!(creation_time_ns("2026-04-25T11:17:06Z"), Ok(1_777_115_826_000_000_000));
    assert_eq!(creation_time_ns("2026-04-25T11:17:06ZZ"), Ok(1_777_115_826_000_000_000));
    assert_eq!(creation_time_ns("2026-04-25T11:17:06"), Ok(1_777_115_826_000_000_000));
    assert_eq!(creation_time_ns("not a time"), Err(CreationTimeError::BadFormat));
    assert_eq!(creation_time_ns(""), Err(CreationTimeError::BadFormat));
    assert_eq!(creation_time_ns("2300-01-01T00:00:00Z"), Err(CreationTimeError::OutOfRange));
}
