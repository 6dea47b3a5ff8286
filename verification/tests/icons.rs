use blair::glyphs::{is_drawable, is_light, paint_glyphs, Glyph, Ink};
use blair::icons::{
    decode_and_resize, desktop_entry_icon, desktop_file_name, icon_format, is_raster_icon,
    xdg_data_directories, IconCache, IconFormat, IconIndex, RgbaBitmap,
};
use blair::paths::{file_stem, join_path};

/// The file that the image crate writes for a bitmap of one colour.
fn png(width: u32, height: u32, color: [u8; 4]) -> Vec<u8> {
    let source = image::RgbaImage::from_pixel(width, height, image::Rgba(color));
    let mut bytes = std::io::Cursor::new(Vec::new());
    source
        .write_to(&mut bytes, image::ImageFormat::Png)
        .unwrap();
    bytes.into_inner()
}

#[test]
fn reads_icon_only_from_the_desktop_entry_group() {
    assert_eq!(
        desktop_entry_icon("Icon=wrong\n[Desktop Entry]\nName=Example\nIcon=example-icon\n"),
        Some("example-icon".to_owned())
    );
}

#[test]
fn empty_icon_value_is_treated_as_missing() {
    assert_eq!(desktop_entry_icon("[Desktop Entry]\nIcon=\n"), None);
}

#[test]
fn only_raster_extensions_are_indexed() {
    let index = IconIndex::collect(&vec![
        "hicolor/48x48/apps/sample.png".to_owned(),
        "hicolor/48x48/apps/sample.svg".to_owned(),
    ]);
    assert_eq!(index.icons.len(), 1);
    assert!(index.resolve("sample", false).is_some());
}

#[test]
fn decodes_and_resizes_a_real_png() {
    let file = png(8, 8, [200, 20, 30, 255]);
    let bitmap = decode_and_resize(&file, IconFormat::Png, 24).unwrap();
    assert_eq!(bitmap.width, 24);
    assert_eq!(bitmap.height, 24);
    assert_eq!(&bitmap.pixels[0..4], &[200, 20, 30, 255]);
}

#[test]
fn missing_apps_are_cached_as_a_negative_result() {
    let mut cache = IconCache::default();
    assert!(cache
        .get("definitely-not-an-installed-app-xyz", 24)
        .is_none());
    assert!(!cache.is_known("definitely-not-an-installed-app-xyz", 24));
    cache.insert("definitely-not-an-installed-app-xyz", 24, None);
    assert!(cache.is_known("definitely-not-an-installed-app-xyz", 24));
    assert!(cache
        .get("definitely-not-an-installed-app-xyz", 24)
        .is_none());
}

#[test]
fn found_icons_are_kept_by_size() {
    let mut cache = IconCache::default();
    let icon = RgbaBitmap {
        pixels: vec![1, 2, 3, 4],
        width: 1,
        height: 1,
    };
    cache.insert("app", 1, Some(icon));
    assert_eq!(cache.get("app", 1).unwrap().pixels, vec![1, 2, 3, 4]);
    assert!(!cache.is_known("app", 2));
}

#[test]
fn an_icon_of_the_right_size_stays_as_it_is() {
    let file = png(3, 3, [9, 8, 7, 6]);
    let bitmap = decode_and_resize(&file, IconFormat::Png, 3).unwrap();
    assert_eq!(bitmap.pixels, [9, 8, 7, 6].repeat(9));
    let smallest = decode_and_resize(&file, IconFormat::Png, -5).unwrap();
    assert_eq!((smallest.width, smallest.height), (1, 1));
    assert!(decode_and_resize(&b"no image".to_vec(), IconFormat::Png, 3).is_none());
    assert!(decode_and_resize(&file, IconFormat::Jpeg, 3).is_none());
}

#[test]
fn desktop_files_and_stems() {
    assert_eq!(desktop_file_name("foot"), "foot.desktop");
    assert_eq!(desktop_file_name("foot.desktop"), "foot.desktop");
    assert_eq!(file_stem("/a/b.c.png").as_deref(), Some("b.c"));
    assert_eq!(file_stem("/a/.hidden/").as_deref(), Some(".hidden"));
    assert_eq!(file_stem("a/.."), None);
    assert_eq!(icon_format("x.JPeG"), Some(IconFormat::Jpeg));
    assert!(is_raster_icon("dir/x.png"));
    assert!(!is_raster_icon("png"));
}

#[test]
fn icons_are_found_by_path_or_name() {
    let index = IconIndex::collect(&vec![
        "/one/Foo.png".to_owned(),
        "/two/foo.png".to_owned(),
    ]);
    assert_eq!(index.resolve("FOO", false).as_deref(), Some("/one/Foo.png"));
    assert_eq!(
        index.resolve("/elsewhere/bar.png", true).as_deref(),
        Some("/elsewhere/bar.png")
    );
    assert_eq!(index.resolve("/elsewhere/bar.png", false), None);
    assert_eq!(
        index.resolve("/elsewhere/foo.png", false).as_deref(),
        Some("/one/Foo.png")
    );
}

#[test]
fn data_directories_follow_the_environment() {
    let some = |text: &str| Some(text.to_owned());
    assert_eq!(
        xdg_data_directories(&None, &some("/home/u"), &None),
        vec!["/home/u/.local/share", "/usr/local/share", "/usr/share"]
    );
    assert_eq!(
        xdg_data_directories(&some("/d"), &some("/home/u"), &some("/x")),
        vec!["/d", "/x"]
    );
    assert_eq!(join_path("/a/", "b"), "/a/b");
    assert_eq!(join_path("/a", "/b"), "/b");
}

#[test]
fn blank_titles_are_not_drawn() {
    assert!(!is_drawable(" \t", 100, 20));
    assert!(!is_drawable("hi", 0, 20));
    assert!(is_drawable("hi", 1, 1));
}

#[test]
fn glyphs_are_painted_where_they_lie() {
    let weights: Vec<u16> = (0..256).collect();
    let ink = Ink {
        red: 10,
        green: 20,
        blue: 30,
        alpha: 128,
    };
    let glyphs = vec![
        Glyph {
            x: 1,
            y: -1,
            width: 1,
            height: 2,
            coverage: vec![255, 200],
        },
        Glyph {
            x: 1,
            y: 0,
            width: 2,
            height: 1,
            coverage: vec![100, 0],
        },
    ];
    let bitmap = paint_glyphs(&glyphs, &weights, ink, 2, 1);
    assert_eq!(bitmap.pixels, vec![0, 0, 0, 0, 10, 20, 30, 100]);
    assert!(is_light(Ink {
        red: 200,
        green: 100,
        blue: 85,
        alpha: 0
    }));
    assert!(!is_light(ink));
}
