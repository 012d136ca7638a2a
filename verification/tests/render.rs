use tg_spotifystatusbot::render::art::{
    decode_art, encode_jpeg, encode_png, pixel_at, sample_points, strongest, Bitmap,
};
use tg_spotifystatusbot::render::card::{
    example_card_en, example_card_lorem, example_card_ru, example_playing_card, format_ms,
    CardKind, HUE_EN, HUE_JA, HUE_LOREM, HUE_RU,
};
use tg_spotifystatusbot::render::fit::fit_playing_stack;
use tg_spotifystatusbot::render::glyph::{pick, visible_chars, Face};
use tg_spotifystatusbot::render::layout::{filled_width, line_height, Layout, CONTROL_H};
use tg_spotifystatusbot::render::scene::{
    draw_card, render_card, render_card_with, Ink, Scene, Stroke,
};
use tg_spotifystatusbot::render::wrap::{
    ellipsize, is_cjk, is_format_char, join_token, needed_lines, tokenize, wrap_lines, ELLIPSIS,
};
use tg_spotifystatusbot::render::{RenderError, RenderOptions, CARD_HEIGHT, CARD_WIDTH};

/// A font in which all visible characters are equally wide.
fn measure(text: &str, size: u32, _bold: bool) -> i32 {
    (visible_chars(text).len() as u32 * (size * 2 / 5)) as i32
}

fn red(width: u32, height: u32) -> Bitmap {
    let mut pixels = Vec::new();
    for _ in 0..width * height {
        pixels.extend([200, 24, 40, 255]);
    }
    Bitmap { width, height, pixels }
}

fn strokes_of(card: &CardKind, avatar: bool) -> Vec<Stroke> {
    let strokes = draw_card(&measure, card, avatar, &RenderOptions::default());
    assert_eq!(strokes[0], Stroke::Wash);
    assert_eq!(strokes[1], Stroke::Cover { x: 40, y: 128, size: 360, radius: 18 });
    strokes[2..].to_vec()
}

/// Lays the pictures of a scene on a canvas of its size.
fn canvas(scene: &Scene) -> Bitmap {
    let mut img = red(scene.width, scene.height);
    for (picture, x, y) in [(&scene.cover, 40, 128), (&scene.avatar, 40, 40)] {
        let Some(picture) = picture else { continue };
        for row in 0..picture.height {
            let from = 4 * (row * picture.width) as usize;
            let to = 4 * ((y + row) * img.width + x) as usize;
            let len = 4 * picture.width as usize;
            img.pixels[to..to + len].copy_from_slice(&picture.pixels[from..from + len]);
        }
    }
    img
}

fn gradient(side: u32) -> Vec<u8> {
    let mut pixels = Vec::new();
    for y in 0..side {
        for x in 0..side {
            pixels.extend([(x * 255 / side) as u8, (y * 255 / side) as u8, (x * y % 256) as u8, 255]);
        }
    }
    encode_png(&Bitmap { width: side, height: side, pixels }).unwrap()
}

fn png_header(bytes: &[u8]) -> bool {
    bytes.starts_with(&[0x89, b'P', b'N', b'G'])
}

#[test]
fn renders_playing_and_idle_cards() {
    let size = |scene: &Scene| (scene.width, scene.height);
    let playing = render_card(&measure, &example_playing_card(gradient(256), gradient(64)));
    assert_eq!(size(&playing), (CARD_WIDTH, CARD_HEIGHT));
    let png = encode_png(&canvas(&playing)).unwrap();
    assert!(png_header(&png));
    assert!(png.len() > 2_000);

    let idle = render_card(&measure, &CardKind::Idle);
    assert_eq!(size(&idle), (CARD_WIDTH, CARD_HEIGHT));
    assert!(png_header(&encode_png(&canvas(&idle)).unwrap()));

    let error = render_card(&measure, &CardKind::Error { message: "Spotify timed out".to_owned() });
    assert!(png_header(&encode_png(&canvas(&error)).unwrap()));
    assert!(encode_jpeg(&canvas(&playing), 90).unwrap().len() > 1_000);

    let long = render_card(
        &measure,
        &CardKind::Playing {
            username: "swiftie".to_owned(),
            title: "The Last Great American Dynasty Of The Late Twentieth Century".to_owned(),
            artist: "Taylor Swift, Bon Iver, The National, and Friends".to_owned(),
            album: "Folklore".to_owned(),
            progress_ms: 83_000,
            duration_ms: 243_000,
            is_playing: true,
            album_art: Some(gradient(256)),
            avatar: Some(gradient(64)),
            track_url: None,
        },
    );
    assert_eq!(size(&long), (CARD_WIDTH, CARD_HEIGHT));
    let lorem = render_card(&measure, &example_card_lorem(gradient(256), gradient(64)));
    assert_eq!(size(&lorem), (CARD_WIDTH, CARD_HEIGHT));
}

#[test]
fn an_unreadable_cover_is_no_cover() {
    let card = |cover: Option<Vec<u8>>, link: Option<&str>| CardKind::Playing {
        username: "a".to_owned(),
        title: "b".to_owned(),
        artist: "c".to_owned(),
        album: "d".to_owned(),
        progress_ms: 1,
        duration_ms: 2,
        is_playing: false,
        album_art: cover,
        avatar: Some(gradient(64)),
        track_url: link.map(str::to_owned),
    };
    let bad = render_card(&measure, &card(Some(vec![1, 2, 3]), None));
    let none = render_card(&measure, &card(None, Some("x")));
    assert!(bad.cover.is_none() && none.cover.is_none());
    assert_eq!(bad.strokes, none.strokes);
    assert_eq!(bad.avatar, none.avatar);
}

#[test]
fn each_picture_stands_in_its_place() {
    let green = Bitmap { width: 1, height: 1, pixels: vec![0, 200, 0, 255] };
    let cover = encode_png(&red(8, 8)).unwrap();
    let avatar = encode_png(&green).unwrap();
    let scene = render_card(&measure, &example_playing_card(cover, avatar));
    assert!(scene.cover.unwrap().pixels[0] > 150);
    assert!(scene.avatar.unwrap().pixels[0] < 50);
}

#[test]
fn joined_words_are_parted_again() {
    for text in ["a  b c", "荒城の月 x y春", " one\ttwo ", "", "a荒b城 c"] {
        let mut line = String::new();
        for word in tokenize(text) {
            line = join_token(&line, &word);
        }
        assert_eq!(tokenize(&line), tokenize(text));
    }
}

#[test]
fn formats_timestamps() {
    assert_eq!(format_ms(83_000), "1:23");
    assert_eq!(format_ms(243_000), "4:03");
    assert_eq!(format_ms(0), "0:00");
}

#[test]
fn formats_long_times() {
    assert_eq!(format_ms(999), "0:00");
    assert_eq!(format_ms(59_999), "0:59");
    assert_eq!(format_ms(3_600_000), "60:00");
    assert_eq!(format_ms(u32::MAX), "71582:47");
}

#[test]
fn wraps_long_text_and_ellipsizes_only_when_needed() {
    let short = wrap_lines(&measure, 58, true, "Midnight City", 520, 3);
    assert_eq!(short, vec!["Midnight City".to_owned()]);

    let wrapped = wrap_lines(&measure, 58, true, "The Last Great American Dynasty", 360, 3);
    assert!(wrapped.len() >= 2);
    assert!(wrapped.iter().all(|line| !line.ends_with(ELLIPSIS)));

    let overflow = wrap_lines(
        &measure,
        58,
        true,
        "A Very Long Track Title That Cannot Possibly Fit On Three Wrapped Lines Without Overflow",
        280,
        2,
    );
    assert_eq!(overflow.len(), 2);
    let last = overflow.last().unwrap();
    assert!(last.ends_with(ELLIPSIS), "{last}");
    assert!(measure(last, 58, true) <= 280);

    let huge_word =
        wrap_lines(&measure, 64, true, "SupercalifragilisticexpialidociousWonderful", 160, 1);
    assert_eq!(huge_word.len(), 1);
    assert!(huge_word[0].ends_with(ELLIPSIS));
    assert!(measure(&huge_word[0], 64, true) <= 160);

    let cjk = wrap_lines(&measure, 58, true, "荒城の月は春の夜に", 120, 4);
    assert!(cjk.len() >= 2);
    assert!(cjk.iter().any(|line| line.contains('月')));
}

#[test]
fn playing_stack_stays_above_seekbar() {
    let layout = Layout::default();
    let max_w = layout.text_width(CARD_WIDTH, CARD_HEIGHT);
    let art_top = layout.art_origin(CARD_HEIGHT).1;
    let controls_top =
        layout.content_bottom(CARD_HEIGHT).min(art_top + layout.art(CARD_HEIGHT) as i32) - CONTROL_H;
    let budget = controls_top - art_top;
    let fit = fit_playing_stack(
        &measure,
        "The Last Great American Dynasty Of The Late Twentieth Century And Then Some Extra Words",
        "Taylor Swift, Bon Iver, The National, Phoebe Bridgers, and Many More Collaborators",
        "Folklore: The Long Pond Studio Sessions Deluxe Edition With Extra Notes",
        max_w,
        budget,
    );
    assert!(fit.height() <= budget, "{} > {budget}", fit.height());
    assert!(fit.title_lines >= 1 && fit.artist_lines >= 1 && fit.album_lines >= 1);
    for (text, size, bold, lines) in [
        ("The Last Great American Dynasty Of The Late Twentieth Century And Then Some Extra Words", fit.title_size, true, fit.title_lines),
        ("Taylor Swift, Bon Iver, The National, Phoebe Bridgers, and Many More Collaborators", fit.artist_size, false, fit.artist_lines),
        ("Folklore: The Long Pond Studio Sessions Deluxe Edition With Extra Notes", fit.album_size, false, fit.album_lines),
    ] {
        let wrapped = wrap_lines(&measure, size, bold, text, max_w, lines);
        assert!(wrapped.iter().all(|line| measure(line, size, bold) <= max_w));
    }
}

#[test]
fn lines_are_filled_word_by_word() {
    let lines = wrap_lines(&measure, 58, true, "The Last Great American Dynasty", 360, 3);
    assert_eq!(lines, vec!["The Last Great", "American", "Dynasty"]);
    let lines = wrap_lines(&measure, 50, false, "one twothreefourfive six", 120, 9);
    assert_eq!(lines, vec!["one", "twoth…", "six"]);
    assert_eq!(wrap_lines(&measure, 50, false, " \u{a0} ", 120, 3), vec![""]);
    assert_eq!(wrap_lines(&measure, 50, false, "a b", 0, 0), vec!["…"]);
    assert_eq!(needed_lines(&measure, 50, false, "", 120, 3), 1);
    assert_eq!(needed_lines(&measure, 50, false, "aaaaaa bbbbbb cccccc", 120, 2), 2);
}

#[test]
fn words_and_characters_are_parted() {
    assert_eq!(tokenize(" ab  c荒城d\u{3000}e"), vec!["ab", "c", "荒", "城", "d", "e"]);
    assert_eq!(tokenize("\t"), Vec::<String>::new());
    assert_eq!(join_token("", "x"), "x");
    assert_eq!(join_token("a", "x"), "a x");
    assert_eq!(join_token("荒", "x"), "荒x");
    assert_eq!(join_token("x", "城"), "x城");
}

#[test]
fn long_texts_end_in_an_ellipsis() {
    assert_eq!(ELLIPSIS, "…");
    assert_eq!(ellipsize(&measure, 50, false, "abcdef", 120), "abcdef");
    assert_eq!(ellipsize(&measure, 50, false, "abcdefg", 120), "abcde…");
    assert_eq!(ellipsize(&measure, 50, false, "abcd efgh", 120), "abcd…");
    assert_eq!(ellipsize(&measure, 50, false, "abcdefg", 5), "…");
    assert_eq!(ellipsize(&measure, 50, false, "a\u{fe0f}\u{200d}bcdefgh", 40), "a…");
}

#[test]
fn characters_are_told_apart() {
    for code in 0..=0x10ffff_u32 {
        if let Some(c) = char::from_u32(code) {
            assert_eq!(
                is_format_char(c),
                matches!(code, 0x200c | 0x200d | 0x20e3 | 0xfe00..=0xfe0f | 0xe0100..=0xe01ef | 0x1f3fb..=0x1f3ff)
            );
            assert_eq!(
                is_cjk(c),
                matches!(code, 0x3040..=0x30ff | 0x3400..=0x4dbf | 0x4e00..=0x9fff | 0xf900..=0xfaff | 0xac00..=0xd7af)
            );
        }
    }
    assert_eq!(visible_chars("a\u{200d}b\u{1f3fb}"), vec!['a', 'b']);
}

#[test]
fn each_character_has_a_font() {
    assert_eq!(pick(true, true, true), Face::Bold);
    assert_eq!(pick(true, false, true), Face::Regular);
    assert_eq!(pick(false, true, true), Face::Regular);
    assert_eq!(pick(false, true, false), Face::Emoji);
    assert_eq!(pick(true, false, false), Face::Emoji);
}

#[test]
fn line_heights_are_those_of_single_precision() {
    for size in 0..20_000_u32 {
        assert_eq!(line_height(size), (size as f32 * 1.16).round() as i32, "{size}");
    }
    assert_eq!(line_height(84), 97);
    assert_eq!(line_height(42), 49);
}

#[test]
fn bars_are_filled_as_in_single_precision() {
    let expected = |bar: u32, progress: u32, duration: u32| -> u32 {
        let ratio = if duration == 0 {
            0.0
        } else {
            (progress as f32 / duration as f32).clamp(0.0, 1.0)
        };
        ((bar as f32) * ratio).round() as u32
    };
    let mut seed = 1_u64;
    let mut next = || {
        seed = seed.wrapping_mul(6_364_136_223_846_793_005).wrapping_add(1_442_695_040_888_963_407);
        (seed >> 33) as u32
    };
    for bar in [48, 724, 1_000, 4_095] {
        for _ in 0..5_000 {
            let (progress, duration) = (next() >> (next() % 24), next() >> (next() % 24));
            assert_eq!(
                filled_width(bar, progress, duration),
                expected(bar, progress, duration),
                "{bar} {progress} {duration}"
            );
        }
        assert_eq!(filled_width(bar, 5, 0), 0);
        assert_eq!(filled_width(bar, 0, 5), 0);
        assert_eq!(filled_width(bar, 5, 5), bar);
        assert_eq!(filled_width(bar, 9, 5), bar);
    }
    assert_eq!(filled_width(724, 83_000, 243_000), 247);
}

#[test]
fn an_idle_card_says_so() {
    let line = |ink, y, size, bold, text: &str| Stroke::Text {
        ink,
        x: 436,
        y,
        size,
        bold,
        text: text.to_owned(),
    };
    assert_eq!(
        strokes_of(&CardKind::Idle, false),
        vec![
            line(Ink::Accent, 152, 28, true, "SPOTIFY"),
            line(Ink::White, 202, 52, true, "Nothing playing"),
            line(Ink::Muted, 276, 28, false, "Start a track in Spotify, then try again."),
        ]
    );
    let strokes = strokes_of(&CardKind::NotLinked, true);
    assert_eq!(strokes[1], line(Ink::White, 202, 52, true, "Spotify isn't linked"));
    let failed = CardKind::Error { message: "Spotify timed out".to_owned() };
    let strokes = strokes_of(&failed, false);
    assert_eq!(strokes[0], line(Ink::Accent, 152, 28, true, "STATUS"));
    assert_eq!(strokes[1], line(Ink::White, 202, 52, true, "Can't load playback"));
    assert_eq!(strokes[2], line(Ink::Muted, 276, 28, false, "Spotify timed out"));
}

#[test]
fn a_playing_card_shows_listener_track_and_progress() {
    let card = example_playing_card(vec![1], vec![2]);
    let strokes = strokes_of(&card, true);
    assert_eq!(strokes[0], Stroke::Watermark { playing: true });
    assert_eq!(strokes[1], Stroke::Avatar { x: 40, y: 40, radius: 28 });
    let text = |ink, x, y, size, bold, text: &str| Stroke::Text {
        ink,
        x,
        y,
        size,
        bold,
        text: text.to_owned(),
    };
    assert_eq!(strokes[2], text(Ink::White, 110, 42, 52, true, "山田"));
    assert_eq!(strokes[3], text(Ink::Muted, 150, 42, 52, false, " is now playing"));
    // 97 + 10 + 58 + 10 + 49 of the 284 pixels above the controls.
    assert_eq!(strokes[4], text(Ink::White, 436, 158, 84, true, "荒城の月"));
    assert_eq!(strokes[5], text(Ink::Muted, 436, 265, 50, false, "瀧廉太郎"));
    assert_eq!(strokes[6], text(Ink::Faint, 436, 333, 42, false, "日本の歌曲"));
    let fill = |ink, x, y, width, height, percent| Stroke::Fill { ink, x, y, width, height, percent };
    assert_eq!(strokes[7], fill(Ink::Track, 436, 422, 724, 12, 100));
    assert_eq!(strokes[8], fill(Ink::Accent, 436, 422, 247, 12, 100));
    assert_eq!(strokes[9], fill(Ink::White, 676, 414, 14, 28, 95));
    assert_eq!(strokes[10], text(Ink::Faint, 436, 448, 34, false, "1:23"));
    assert_eq!(strokes[11], text(Ink::Faint, 436 + 724 - 52, 448, 34, false, "4:03"));
    assert_eq!(strokes.len(), 12);
}

#[test]
fn a_card_without_a_picture_begins_further_left() {
    let strokes = strokes_of(&example_card_lorem(vec![], vec![]), false);
    assert!(!strokes.iter().any(|stroke| matches!(stroke, Stroke::Avatar { .. })));
    assert!(matches!(&strokes[1], Stroke::Text { x: 40, text, .. } if text == "lorem"));
    for stroke in &strokes {
        if let Stroke::Text { x: 436, y, size, .. } = stroke {
            assert!(*size == 34 || y + line_height(*size) <= 412);
        }
    }
}

#[test]
fn pictures_are_drawn_if_they_can_be_read() {
    let png = encode_png(&red(3, 3)).unwrap();
    let scene = render_card(&measure, &example_playing_card(png.clone(), png.clone()));
    assert_eq!(scene.cover.as_ref().map(|image| (image.width, image.height)), Some((360, 360)));
    assert_eq!(scene.avatar.as_ref().map(|image| (image.width, image.height)), Some((56, 56)));
    assert_eq!(scene.strokes[2..], strokes_of(&example_playing_card(vec![], vec![]), true));
    let scene = render_card(&measure, &example_playing_card(png, vec![1, 2]));
    assert!(scene.cover.is_some() && scene.avatar.is_none());
    assert_eq!(scene.strokes[2..], strokes_of(&example_playing_card(vec![], vec![]), false));
    let scene = render_card(&measure, &CardKind::Idle);
    assert!(scene.cover.is_none() && scene.avatar.is_none());
}

#[test]
fn small_cards_are_drawn_too() {
    let options = RenderOptions { width: 1, height: 1, jpeg_quality: 90 };
    let scene = render_card_with(&measure, &example_card_en(vec![], vec![]), &options);
    assert!(scene.strokes.len() >= 10);
    let standard = RenderOptions::default();
    assert_eq!((standard.width, standard.height, standard.jpeg_quality), (1200, 528, 90));
}

#[test]
fn examples_have_their_texts() {
    let russian = example_card_ru(vec![7], vec![8]);
    assert_eq!(russian.track_url(), Some("https://open.spotify.com/track/example"));
    assert_eq!(russian.album_bytes(), Some(&vec![7]));
    assert!(matches!(
        russian,
        CardKind::Playing { username, progress_ms: 83_000, duration_ms: 243_000, is_playing: true, .. }
            if username == "Анна"
    ));
    assert_eq!(CardKind::Idle.track_url(), None);
    assert_eq!(CardKind::Idle.album_bytes(), None);
    assert_eq!((HUE_JA, HUE_RU, HUE_EN, HUE_LOREM), (264, 28, 145, 200));
}

#[test]
fn pictures_are_encoded() {
    let png = encode_png(&red(32, 16)).unwrap();
    assert!(png.starts_with(&[0x89, b'P', b'N', b'G']));
    let jpeg = encode_jpeg(&red(32, 16), 90).unwrap();
    assert!(jpeg.starts_with(&[0xff, 0xd8]) && jpeg.ends_with(&[0xff, 0xd9]));
    assert_eq!(jpeg, encode_jpeg(&red(32, 16), 90).unwrap());
    assert_ne!(jpeg, encode_jpeg(&red(32, 16), 10).unwrap());
}

#[test]
fn pictures_without_pixels_are_not_encoded() {
    assert!(matches!(encode_png(&red(0, 3)), Err(RenderError::Encode(_))));
    assert!(matches!(encode_png(&red(3, 0)), Err(RenderError::Encode(_))));
    assert!(matches!(encode_jpeg(&red(0, 0), 90), Err(RenderError::Encode(_))));
    assert!(matches!(encode_jpeg(&red(65_536, 1), 90), Err(RenderError::Encode(_))));
    assert!(encode_jpeg(&red(65_535, 1), 0).is_ok());
    assert!(encode_png(&red(65_536, 1)).is_ok());
    assert_eq!(RenderError::Font.describe(), "Invalid font data");
    assert_eq!(
        RenderError::Encode("x".to_owned()).describe(),
        "Failed to encode image: x"
    );
}

#[test]
fn pictures_are_decoded_into_squares() {
    let png = encode_png(&red(32, 16)).unwrap();
    let square = decode_art(Some(&png), 5).unwrap();
    assert_eq!((square.width, square.height, square.pixels.len()), (5, 5, 100));
    assert!(square.pixels[0] > 150 && square.pixels[1] < 60 && square.pixels[3] == 255);
    assert!(decode_art(Some(&vec![1, 2, 3]), 5).is_none());
    assert!(decode_art(None, 5).is_none());
    assert_eq!(decode_art(Some(&png), 0).unwrap().pixels.len(), 0);
    let long = encode_png(&red(4_000, 1)).unwrap();
    assert_eq!(decode_art(Some(&long), 3).unwrap().pixels.len(), 36);
    let jpeg = encode_jpeg(&red(16, 16), 90).unwrap();
    assert_eq!(decode_art(Some(&jpeg), 360).unwrap().pixels.len(), 360 * 360 * 4);
}

#[test]
fn covers_are_sampled_in_steps() {
    let expected = |width: u32, height: u32| -> Vec<(u32, u32)> {
        let step = (width.max(8) / 8).max(1);
        let mut points = Vec::new();
        for y in (0..height).step_by(step as usize) {
            for x in (0..width).step_by(step as usize) {
                points.push((x, y));
            }
        }
        points
    };
    for (width, height) in [(360, 360), (7, 9), (8, 8), (15, 3), (16, 16), (33, 5), (0, 4), (4, 0)] {
        assert_eq!(sample_points(width, height), expected(width, height), "{width} {height}");
    }
    assert_eq!(sample_points(360, 360).len(), 64);
}

#[test]
fn the_first_of_the_strongest_stands_out() {
    assert_eq!(strongest(&vec![], 0), None);
    assert_eq!(strongest(&vec![0, 0], 0), None);
    assert_eq!(strongest(&vec![3, 7, 7, 1], 7), Some(1));
    assert_eq!(strongest(&vec![3, 7, 7, 1], 8), None);
    assert_eq!(strongest(&vec![1], 0), Some(0));
}

#[test]
fn pixels_outside_are_left_out() {
    assert_eq!(pixel_at(0, 0, 2, 3), Some((0, 0)));
    assert_eq!(pixel_at(1, 2, 2, 3), Some((1, 2)));
    assert_eq!(pixel_at(2, 2, 2, 3), None);
    assert_eq!(pixel_at(1, 3, 2, 3), None);
    assert_eq!(pixel_at(-1, 0, 2, 3), None);
    assert_eq!(pixel_at(0, -1, 2, 3), None);
    assert_eq!(pixel_at(i32::MAX, 0, u32::MAX, 1), Some((2_147_483_647, 0)));
}
